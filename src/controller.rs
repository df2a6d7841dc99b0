//! The decisions of one streamed translation call.
//!
//! A call is a machine fed one event at a time by whoever talks to the
//! service and to the caller: the stream was opened, the stop signal was
//! polled, a batch arrived, the stream ended, or the service failed. For each
//! event the machine answers with the action to perform next. Every chunk
//! the caller is sent is named by an action, so what the caller receives is a
//! function of the events alone, and the laws at the end of this module hold
//! of it.

use vstd::prelude::*;

use crate::prompt::{build_prompt, format_token, prompt_text};
use crate::outside::trimmed;
use crate::outside::parsed_url;
use crate::session::{connected, disconnected, ConnectionRegistry, ConnectionSession, ListModelsError};
use ollama_rs::error::OllamaError;
use ollama_rs::generation::completion::GenerationResponse;

verus! {

/// One item sent to the caller of a translation.
#[derive(Debug)]
pub enum TranslateResponseChunk {
    /// One fragment of generated text, with the service's metadata.
    Response(GenerationResponse),
    /// The end of the call's output; nothing follows it.
    EndOfStream,
}

/// Why a translation call failed.
#[derive(Debug)]
pub enum TranslateError {
    /// No session is bound.
    NoConnection,
    /// The service failed to open the stream or failed in its middle.
    Ollama(OllamaError),
    /// The caller's sink refused a chunk.
    Delivery(String),
}

/// Where a call stands.
#[derive(PartialEq, Eq, Structural, Clone, Copy, Debug)]
pub enum Phase {
    /// The stream to the service is being opened.
    Opening,
    /// Chunks were handed out; the stop signal is to be polled next.
    Polling,
    /// The next batch is to be read from the stream.
    Reading,
    /// The end marker was handed out; the call is over.
    Done,
}

/// What happened since the call's last action.
#[derive(Debug)]
pub enum StreamEvent {
    /// The service opened the stream.
    Opened,
    /// The stop signal was polled; `true` where it had fired.
    Polled(bool),
    /// The stream yielded a batch of fragments, in the service's order.
    Batch(Vec<GenerationResponse>),
    /// The stream is exhausted.
    Ended,
    /// Opening the stream, or reading it, failed.
    Failed(OllamaError),
}

/// The model of a `StreamEvent`: a batch's fragments as a sequence, and no
/// detail of a failure.
pub enum Event {
    Opened,
    Polled(bool),
    Batch(Seq<GenerationResponse>),
    Ended,
    Failed,
}

impl View for StreamEvent {
    type V = Event;

    open spec fn view(&self) -> Event {
        match self {
            StreamEvent::Opened => Event::Opened,
            StreamEvent::Polled(stop) => Event::Polled(*stop),
            StreamEvent::Batch(b) => Event::Batch(b@),
            StreamEvent::Ended => Event::Ended,
            StreamEvent::Failed(_) => Event::Failed,
        }
    }
}

/// What to do next.
#[derive(Debug)]
pub enum Action {
    /// Send these chunks in order, then poll the stop signal and report
    /// `Polled`.
    Forward(Vec<TranslateResponseChunk>),
    /// Read the next batch from the stream and report `Batch`, `Ended` or
    /// `Failed`.
    ReadNext,
    /// Send `EndOfStream` and end the call with success.
    Finish,
    /// Send `EndOfStream` and end the call with this error.
    Abort(TranslateError),
}

/// Whether a call in phase `p` takes event `e`.
pub open spec fn accepts(p: Phase, e: Event) -> bool {
    match p {
        Phase::Opening => e is Opened || e is Failed,
        Phase::Polling => e is Polled,
        Phase::Reading => e is Batch || e is Ended || e is Failed,
        Phase::Done => false,
    }
}

/// The phase a call enters on event `e`.
pub open spec fn next_phase(e: Event) -> Phase {
    match e {
        Event::Opened => Phase::Polling,
        Event::Polled(stop) => if stop {
            Phase::Done
        } else {
            Phase::Reading
        },
        Event::Batch(_) => Phase::Polling,
        Event::Ended => Phase::Done,
        Event::Failed => Phase::Done,
    }
}

/// The fragments of a batch as content chunks, in order.
pub open spec fn responses(b: Seq<GenerationResponse>) -> Seq<TranslateResponseChunk> {
    b.map_values(|g: GenerationResponse| TranslateResponseChunk::Response(g))
}

/// The chunks that the caller is sent in answer to event `e`.
pub open spec fn emitted(e: Event) -> Seq<TranslateResponseChunk> {
    match e {
        Event::Opened => Seq::empty(),
        Event::Polled(stop) => if stop {
            seq![TranslateResponseChunk::EndOfStream]
        } else {
            Seq::empty()
        },
        Event::Batch(b) => responses(b),
        Event::Ended => seq![TranslateResponseChunk::EndOfStream],
        Event::Failed => seq![TranslateResponseChunk::EndOfStream],
    }
}

/// Whether a call that starts in phase `p` takes each of `events` in turn.
pub open spec fn valid_run(p: Phase, events: Seq<Event>) -> bool
    decreases events.len(),
{
    if events.len() == 0 {
        true
    } else {
        valid_run(p, events.drop_last()) && accepts(run(p, events.drop_last()).0, events.last())
    }
}

/// The phase that a call starting in phase `p` reaches on `events`, and all
/// that it sends meanwhile.
pub open spec fn run(p: Phase, events: Seq<Event>) -> (Phase, Seq<TranslateResponseChunk>)
    decreases events.len(),
{
    if events.len() == 0 {
        (p, Seq::empty())
    } else {
        let before = run(p, events.drop_last());
        (next_phase(events.last()), before.1 + emitted(events.last()))
    }
}

/// The content chunks of all batches among `events`, in order.
pub open spec fn fragments(events: Seq<Event>) -> Seq<TranslateResponseChunk>
    decreases events.len(),
{
    if events.len() == 0 {
        Seq::empty()
    } else {
        fragments(events.drop_last()) + match events.last() {
            Event::Batch(b) => responses(b),
            _ => Seq::empty(),
        }
    }
}

/// The number of batches among `events`.
pub open spec fn batch_count(events: Seq<Event>) -> nat
    decreases events.len(),
{
    if events.len() == 0 {
        0
    } else {
        batch_count(events.drop_last()) + if events.last() is Batch {
            1nat
        } else {
            0nat
        }
    }
}

/// One translation call: the session it captured when it began, what it
/// asks of the service, and the events it has taken so far.
pub struct TranslateCall {
    session: ConnectionSession,
    model: String,
    prompt: String,
    phase: Phase,
    events: Ghost<Seq<Event>>,
}

impl TranslateCall {
    /// The address of the session captured when the call began.
    pub closed spec fn address(&self) -> Seq<char> {
        self.session@
    }

    pub closed spec fn model_view(&self) -> Seq<char> {
        self.model@
    }

    pub closed spec fn prompt_view(&self) -> Seq<char> {
        self.prompt@
    }

    /// The events the call has taken, oldest first.
    pub closed spec fn history(&self) -> Seq<Event> {
        self.events@
    }

    pub closed spec fn current_phase(&self) -> Phase {
        self.phase
    }

    /// The call took its events in an order it accepts, and stands where
    /// they lead.
    pub open spec fn wf(&self) -> bool {
        valid_run(Phase::Opening, self.history()) && run(Phase::Opening, self.history()).0
            == self.current_phase()
    }

    /// Everything the caller has been sent so far.
    pub open spec fn sent(&self) -> Seq<TranslateResponseChunk> {
        run(Phase::Opening, self.history()).1
    }

    /// Begins a call on a snapshot of the registry's session, with the
    /// prompt for `input`, `input_format` and `output_format`; fails with
    /// `NoConnection` where no session is bound.
    pub fn start(
        registry: &ConnectionRegistry,
        input: &str,
        input_format: &str,
        output_format: &str,
        model: &str,
    ) -> (r: Result<TranslateCall, TranslateError>)
        ensures
            match r {
                Ok(call) => {
                    &&& registry@ == Some(call.address())
                    &&& call.model_view() == model@
                    &&& call.prompt_view() == prompt_text(
                        format_token(trimmed(input_format@)),
                        output_format@,
                        input@,
                    )
                    &&& call.history() == Seq::<Event>::empty()
                    &&& call.current_phase() == Phase::Opening
                    &&& call.wf()
                },
                Err(e) => registry@ is None && e is NoConnection,
            },
    {
        match registry.current_session() {
            None => Err(TranslateError::NoConnection),
            Some(session) => {
                let prompt = build_prompt(input_format, output_format, input);
                Ok(TranslateCall {
                    session,
                    model: model.to_string(),
                    prompt,
                    phase: Phase::Opening,
                    events: Ghost(Seq::empty()),
                })
            },
        }
    }

    /// The session captured when the call began.
    pub fn session(&self) -> (r: &ConnectionSession)
        ensures
            r@ == self.address(),
    {
        &self.session
    }

    /// The model the service is asked to run.
    pub fn model(&self) -> (r: &str)
        ensures
            r@ == self.model_view(),
    {
        self.model.as_str()
    }

    /// The prompt the service is sent.
    pub fn prompt(&self) -> (r: &str)
        ensures
            r@ == self.prompt_view(),
    {
        self.prompt.as_str()
    }

    /// Where the call stands.
    pub fn phase(&self) -> (r: Phase)
        ensures
            r == self.current_phase(),
    {
        self.phase
    }

    /// Whether the call takes `event` where it stands.
    pub fn accepts(&self, event: &StreamEvent) -> (r: bool)
        ensures
            r == accepts(self.current_phase(), event@),
    {
        match self.phase {
            Phase::Opening => match event {
                StreamEvent::Opened => true,
                StreamEvent::Failed(_) => true,
                _ => false,
            },
            Phase::Polling => match event {
                StreamEvent::Polled(_) => true,
                _ => false,
            },
            Phase::Reading => match event {
                StreamEvent::Batch(_) => true,
                StreamEvent::Ended => true,
                StreamEvent::Failed(_) => true,
                _ => false,
            },
            Phase::Done => false,
        }
    }

    /// Takes `event` and answers with the next action: the chunks the caller
    /// is sent grow by exactly `emitted(event@)`.
    pub fn next(&mut self, event: StreamEvent) -> (r: Action)
        requires
            old(self).wf(),
            accepts(old(self).current_phase(), event@),
        ensures
            final(self).wf(),
            final(self).history() == old(self).history().push(event@),
            final(self).current_phase() == next_phase(event@),
            final(self).sent() == old(self).sent() + emitted(event@),
            final(self).address() == old(self).address(),
            final(self).model_view() == old(self).model_view(),
            final(self).prompt_view() == old(self).prompt_view(),
            match event {
                StreamEvent::Opened => r is Forward && r->Forward_0@ == Seq::<TranslateResponseChunk>::empty(),
                StreamEvent::Polled(stop) => if stop {
                    r is Finish
                } else {
                    r is ReadNext
                },
                StreamEvent::Batch(b) => r is Forward && r->Forward_0@ == responses(b@),
                StreamEvent::Ended => r is Finish,
                StreamEvent::Failed(e) => r == Action::Abort(TranslateError::Ollama(e)),
            },
    {
        let ghost ev = event@;
        proof {
            let h = self.events@.push(ev);
            assert(h.drop_last() =~= self.events@);
        }
        self.events = Ghost(self.events@.push(ev));
        self.phase = match &event {
            StreamEvent::Opened => Phase::Polling,
            StreamEvent::Polled(stop) => if *stop {
                Phase::Done
            } else {
                Phase::Reading
            },
            StreamEvent::Batch(_) => Phase::Polling,
            StreamEvent::Ended => Phase::Done,
            StreamEvent::Failed(_) => Phase::Done,
        };
        match event {
            StreamEvent::Opened => Action::Forward(Vec::new()),
            StreamEvent::Polled(stop) => if stop {
                Action::Finish
            } else {
                Action::ReadNext
            },
            StreamEvent::Batch(b) => Action::Forward(response_chunks(b)),
            StreamEvent::Ended => Action::Finish,
            StreamEvent::Failed(e) => Action::Abort(TranslateError::Ollama(e)),
        }
    }
}

/// Each fragment of a batch as a content chunk, in the service's order.
pub fn response_chunks(batch: Vec<GenerationResponse>) -> (r: Vec<TranslateResponseChunk>)
    ensures
        r@ == responses(batch@),
{
    let ghost whole = batch@;
    let mut rest = batch;
    let mut out: Vec<TranslateResponseChunk> = Vec::new();
    while rest.len() > 0
        invariant
            out@ + rest@ .map_values(|g: GenerationResponse| TranslateResponseChunk::Response(g))
                == responses(whole),
        decreases rest.len(),
    {
        let ghost before = rest@;
        let g = rest.remove(0);
        proof {
            assert(before == seq![g] + rest@);
            assert(before.map_values(|g: GenerationResponse| TranslateResponseChunk::Response(g))
                =~= seq![TranslateResponseChunk::Response(g)] + rest@.map_values(
                |g: GenerationResponse| TranslateResponseChunk::Response(g),
            ));
        }
        out.push(TranslateResponseChunk::Response(g));
        proof {
            assert(out@ + rest@.map_values(|g: GenerationResponse| TranslateResponseChunk::Response(g))
                =~= out@.drop_last() + (seq![TranslateResponseChunk::Response(g)] + rest@.map_values(
                |g: GenerationResponse| TranslateResponseChunk::Response(g),
            )));
        }
    }
    proof {
        assert(out@ =~= out@ + rest@.map_values(|g: GenerationResponse| TranslateResponseChunk::Response(g)));
    }
    out
}

/// A run from a live phase sends the fragments of its batches, in order,
/// and one end marker once it is over.
proof fn lemma_run_sends_fragments(p: Phase, events: Seq<Event>)
    requires
        p != Phase::Done,
        valid_run(p, events),
    ensures
        run(p, events).1 == fragments(events) + if run(p, events).0 == Phase::Done {
            seq![TranslateResponseChunk::EndOfStream]
        } else {
            Seq::empty()
        },
    decreases events.len(),
{
    if events.len() == 0 {
        assert(run(p, events).1 =~= fragments(events) + Seq::empty());
    } else {
        let prev = events.drop_last();
        lemma_run_sends_fragments(p, prev);
        assert(run(p, prev).0 != Phase::Done);
        let e = events.last();
        match e {
            Event::Batch(b) => {
                assert(run(p, events).1 =~= fragments(events) + Seq::empty());
            },
            Event::Polled(stop) => {
                if stop {
                    assert(run(p, events).1 =~= fragments(events) + seq![
                        TranslateResponseChunk::EndOfStream,
                    ]);
                } else {
                    assert(run(p, events).1 =~= fragments(events) + Seq::empty());
                }
            },
            Event::Opened => {
                assert(run(p, events).1 =~= fragments(events) + Seq::empty());
            },
            _ => {
                assert(run(p, events).1 =~= fragments(events) + seq![
                    TranslateResponseChunk::EndOfStream,
                ]);
            },
        }
    }
}

/// The fragments of a run are all content chunks.
proof fn lemma_fragments_are_content(events: Seq<Event>)
    ensures
        forall|i: int| 0 <= i < fragments(events).len() ==> (#[trigger] fragments(events)[i]) is Response,
    decreases events.len(),
{
    if events.len() > 0 {
        lemma_fragments_are_content(events.drop_last());
    }
}

/// A run with no batch has no fragments.
proof fn lemma_fragments_without_batches(events: Seq<Event>)
    requires
        batch_count(events) == 0,
    ensures
        fragments(events) == Seq::<TranslateResponseChunk>::empty(),
    decreases events.len(),
{
    if events.len() > 0 {
        lemma_fragments_without_batches(events.drop_last());
        assert(fragments(events) =~= Seq::<TranslateResponseChunk>::empty());
    }
}

/// A valid run stays valid when its last events are cut off.
proof fn lemma_valid_prefix(p: Phase, a: Seq<Event>, b: Seq<Event>)
    requires
        valid_run(p, a + b),
    ensures
        valid_run(p, a),
    decreases b.len(),
{
    if b.len() > 0 {
        assert((a + b).drop_last() =~= a + b.drop_last());
        lemma_valid_prefix(p, a, b.drop_last());
    } else {
        assert(a + b =~= a);
    }
}

/// No event follows the one that ends a run.
proof fn lemma_nothing_after_done(p: Phase, a: Seq<Event>, b: Seq<Event>)
    requires
        valid_run(p, a + b),
        run(p, a).0 == Phase::Done,
    ensures
        b.len() == 0,
    decreases b.len(),
{
    if b.len() > 0 {
        assert((a + b).drop_last() =~= a + b.drop_last());
        if b.len() == 1 {
            assert(a + b.drop_last() =~= a);
        } else {
            lemma_nothing_after_done(p, a, b.drop_last());
        }
    }
}

/// A call that is over has sent content chunks only, then exactly one
/// `EndOfStream` as its last item, and takes no further event.
pub proof fn lemma_finished_call_ends_with_end_marker(call: TranslateCall)
    requires
        call.wf(),
        call.current_phase() == Phase::Done,
    ensures
        call.sent().len() >= 1,
        call.sent().last() == TranslateResponseChunk::EndOfStream,
        forall|i: int| 0 <= i < call.sent().len() - 1 ==> (#[trigger] call.sent()[i]) is Response,
        forall|e: Event| !accepts(call.current_phase(), e),
{
    lemma_run_sends_fragments(Phase::Opening, call.history());
    lemma_fragments_are_content(call.history());
    let f = fragments(call.history());
    assert forall|i: int| 0 <= i < call.sent().len() - 1 implies (#[trigger] call.sent()[i]) is Response by {
        assert(call.sent()[i] == f[i]);
    }
}

/// Where the stop signal is seen after the batches of `before` were sent,
/// `k` of them, the call sends those batches' fragments and then only
/// `EndOfStream`: nothing of a later batch.
pub proof fn lemma_stop_after_batches(call: TranslateCall, before: Seq<Event>, after: Seq<Event>, k: nat)
    requires
        call.wf(),
        call.history() == before.push(Event::Polled(true)) + after,
        batch_count(before) == k,
    ensures
        after.len() == 0,
        call.current_phase() == Phase::Done,
        call.sent() == fragments(before).push(TranslateResponseChunk::EndOfStream),
{
    let stopped = before.push(Event::Polled(true));
    lemma_valid_prefix(Phase::Opening, stopped, after);
    assert(stopped.drop_last() =~= before);
    lemma_nothing_after_done(Phase::Opening, stopped, after);
    assert(call.history() =~= stopped);
    lemma_run_sends_fragments(Phase::Opening, stopped);
    assert(fragments(stopped) =~= fragments(before));
}

/// Where the stop signal is seen before any batch was sent, the call sends
/// `EndOfStream` alone.
pub proof fn lemma_stop_before_batches(call: TranslateCall, before: Seq<Event>, after: Seq<Event>)
    requires
        call.wf(),
        call.history() == before.push(Event::Polled(true)) + after,
        batch_count(before) == 0,
    ensures
        call.current_phase() == Phase::Done,
        call.sent() == seq![TranslateResponseChunk::EndOfStream],
{
    lemma_stop_after_batches(call, before, after, 0);
    lemma_fragments_without_batches(before);
    assert(fragments(before).push(TranslateResponseChunk::EndOfStream) =~= seq![
        TranslateResponseChunk::EndOfStream,
    ]);
}

/// After `disconnect`, whatever was bound before, an operation that needs
/// a session fails with `NoConnection`: a listing of models and the start of
/// a translation alike.
pub proof fn lemma_disconnect_refuses_operations(
    registry: ConnectionRegistry,
    prev: Option<Seq<char>>,
    listed: Result<ConnectionSession, ListModelsError>,
    started: Result<TranslateCall, TranslateError>,
)
    requires
        registry@ == disconnected(prev),
        match listed {
            Ok(s) => registry@ == Some(s@),
            Err(e) => registry@ is None && e is NoConnection,
        },
        match started {
            Ok(call) => registry@ == Some(call.address()),
            Err(e) => registry@ is None && e is NoConnection,
        },
    ensures
        listed is Err && listed->Err_0 is NoConnection,
        started is Err && started->Err_0 is NoConnection,
{
}

/// A call keeps the session it captured when it began: reconnecting the
/// registry meanwhile touches only the registry, and a call begun after the
/// registry was connected to `host` is bound to `host`'s parsed address, so
/// the two calls use different sessions wherever the addresses differ.
pub proof fn lemma_reconnect_during_call(
    in_flight: TranslateCall,
    later: TranslateCall,
    registry: ConnectionRegistry,
    host: Seq<char>,
    address: Seq<char>,
)
    requires
        parsed_url(host) == Some(address),
        registry@ == connected(Some(in_flight.address()), host),
        registry@ == Some(later.address()),
    ensures
        later.address() == address,
        in_flight.address() != address ==> in_flight.address() != later.address(),
{
}

} // verus!
