use ollama_rs::error::OllamaError;
use ollama_rs::generation::completion::GenerationResponse;
use ollama_translate::controller::{
    response_chunks, Action, Phase, StreamEvent, TranslateCall, TranslateError,
    TranslateResponseChunk,
};
use ollama_translate::prompt::{build_prompt, format_token_of, input_format_token, prompt_from_trimmed};
use ollama_translate::session::{ConnectError, ConnectionRegistry, ListModelsError};

fn fragment(text: &str) -> GenerationResponse {
    GenerationResponse {
        model: "llama3".to_string(),
        created_at: "2024-01-01T00:00:00Z".to_string(),
        response: text.to_string(),
        done: false,
        context: None,
        total_duration: None,
        prompt_eval_count: None,
        prompt_eval_duration: None,
        eval_count: None,
        eval_duration: None,
    }
}

fn connected_registry() -> ConnectionRegistry {
    let mut registry = ConnectionRegistry::new();
    assert!(registry.connect("http://localhost:11434").is_ok());
    registry
}

fn started(registry: &ConnectionRegistry) -> TranslateCall {
    match TranslateCall::start(registry, "bonjour", "", "english", "llama3") {
        Ok(call) => call,
        Err(e) => panic!("start failed: {e:?}"),
    }
}

/// Feeds `events` to `call` and collects what the caller is sent: the
/// texts of content chunks, and "<end>" for the end marker.
fn drive(call: &mut TranslateCall, events: Vec<StreamEvent>) -> (Vec<String>, Option<Action>) {
    let mut sent = Vec::new();
    let mut last = None;
    for event in events {
        assert!(call.accepts(&event));
        let action = call.next(event);
        match &action {
            Action::Forward(chunks) => {
                for chunk in chunks {
                    match chunk {
                        TranslateResponseChunk::Response(g) => sent.push(g.response.clone()),
                        TranslateResponseChunk::EndOfStream => sent.push("<end>".to_string()),
                    }
                }
            }
            Action::Finish | Action::Abort(_) => sent.push("<end>".to_string()),
            Action::ReadNext => {}
        }
        last = Some(action);
    }
    (sent, last)
}

#[test]
fn connect_then_current_session_has_address() {
    let registry = connected_registry();
    let session = registry.current_session().expect("a session");
    assert_eq!(session.address(), "http://localhost:11434/");
}

#[test]
fn connect_replaces_session() {
    let mut registry = connected_registry();
    assert!(registry.connect("http://127.0.0.1:8080/").is_ok());
    let session = registry.current_session().expect("a session");
    assert_eq!(session.address(), "http://127.0.0.1:8080/");
}

#[test]
fn connect_refuses_malformed_address() {
    let mut registry = ConnectionRegistry::new();
    assert!(matches!(registry.connect("not a url"), Err(ConnectError::InvalidUrl(_))));
    assert!(registry.current_session().is_none());
    let mut registry = connected_registry();
    assert!(matches!(registry.connect("/relative/path"), Err(ConnectError::InvalidUrl(_))));
    assert_eq!(registry.current_session().expect("kept").address(), "http://localhost:11434/");
}

#[test]
fn disconnect_then_operations_fail_with_no_connection() {
    let mut registry = connected_registry();
    registry.disconnect();
    assert!(registry.current_session().is_none());
    assert!(matches!(registry.list_models_session(), Err(ListModelsError::NoConnection)));
    assert!(matches!(
        TranslateCall::start(&registry, "bonjour", "", "english", "llama3"),
        Err(TranslateError::NoConnection)
    ));
    registry.disconnect();
    assert!(registry.current_session().is_none());
}

#[test]
fn list_models_uses_bound_session() {
    let registry = connected_registry();
    let session = registry.list_models_session().expect("a session");
    assert_eq!(session.address(), "http://localhost:11434/");
}

#[test]
fn prompt_uses_auto_for_blank_format() {
    let expected = "Translate this input of format auto to format english. Don't explain anything, be concise, write only the translation.\nInput:\nbonjour";
    assert_eq!(build_prompt("", "english", "bonjour"), expected);
    assert_eq!(build_prompt("   \t", "english", "bonjour"), expected);
}

#[test]
fn prompt_trims_input_format() {
    assert_eq!(
        build_prompt("  json \n", "yaml", "{\"a\": 1}"),
        "Translate this input of format json to format yaml. Don't explain anything, be concise, write only the translation.\nInput:\n{\"a\": 1}"
    );
    assert_eq!(input_format_token("  toml  "), "toml");
    assert_eq!(input_format_token(" "), "auto");
    assert_eq!(format_token_of(""), "auto");
    assert_eq!(format_token_of("csv"), "csv");
    assert_eq!(
        prompt_from_trimmed("", "b", "c"),
        "Translate this input of format auto to format b. Don't explain anything, be concise, write only the translation.\nInput:\nc"
    );
}

#[test]
fn translate_example_streams_content_then_end() {
    let registry = connected_registry();
    let mut call = started(&registry);
    assert_eq!(call.session().address(), "http://localhost:11434/");
    assert_eq!(call.model(), "llama3");
    assert_eq!(
        call.prompt(),
        "Translate this input of format auto to format english. Don't explain anything, be concise, write only the translation.\nInput:\nbonjour"
    );
    assert_eq!(call.phase(), Phase::Opening);
    let (sent, last) = drive(
        &mut call,
        vec![
            StreamEvent::Opened,
            StreamEvent::Polled(false),
            StreamEvent::Batch(vec![fragment("hel"), fragment("lo")]),
            StreamEvent::Polled(false),
            StreamEvent::Batch(vec![fragment("!")]),
            StreamEvent::Polled(false),
            StreamEvent::Ended,
        ],
    );
    assert_eq!(sent, vec!["hel", "lo", "!", "<end>"]);
    assert!(matches!(last, Some(Action::Finish)));
    assert_eq!(call.phase(), Phase::Done);
    assert!(!call.accepts(&StreamEvent::Ended));
}

#[test]
fn stop_after_first_batch_sends_only_that_batch() {
    let registry = connected_registry();
    let mut call = started(&registry);
    let (sent, last) = drive(
        &mut call,
        vec![
            StreamEvent::Opened,
            StreamEvent::Polled(false),
            StreamEvent::Batch(vec![fragment("a"), fragment("b")]),
            StreamEvent::Polled(true),
        ],
    );
    assert_eq!(sent, vec!["a", "b", "<end>"]);
    assert!(matches!(last, Some(Action::Finish)));
    assert!(!call.accepts(&StreamEvent::Batch(vec![fragment("c")])));
}

#[test]
fn stop_before_any_batch_sends_only_end() {
    let registry = connected_registry();
    let mut call = started(&registry);
    let (sent, last) = drive(&mut call, vec![StreamEvent::Opened, StreamEvent::Polled(true)]);
    assert_eq!(sent, vec!["<end>"]);
    assert!(matches!(last, Some(Action::Finish)));
    assert_eq!(call.phase(), Phase::Done);
}

#[test]
fn peer_failure_aborts_with_end_marker() {
    let registry = connected_registry();
    let mut call = started(&registry);
    let (sent, last) = drive(
        &mut call,
        vec![
            StreamEvent::Opened,
            StreamEvent::Polled(false),
            StreamEvent::Batch(vec![fragment("x")]),
            StreamEvent::Polled(false),
            StreamEvent::Failed(OllamaError::Other("broken".to_string())),
        ],
    );
    assert_eq!(sent, vec!["x", "<end>"]);
    assert!(matches!(
        last,
        Some(Action::Abort(TranslateError::Ollama(OllamaError::Other(ref m)))) if m == "broken"
    ));
}

#[test]
fn failure_to_open_aborts() {
    let registry = connected_registry();
    let mut call = started(&registry);
    let (sent, last) = drive(&mut call, vec![StreamEvent::Failed(OllamaError::Other("down".to_string()))]);
    assert_eq!(sent, vec!["<end>"]);
    assert!(matches!(last, Some(Action::Abort(TranslateError::Ollama(_)))));
}

#[test]
fn events_out_of_order_are_not_accepted() {
    let registry = connected_registry();
    let mut call = started(&registry);
    assert!(!call.accepts(&StreamEvent::Batch(vec![])));
    assert!(!call.accepts(&StreamEvent::Polled(true)));
    assert!(!call.accepts(&StreamEvent::Ended));
    assert!(call.accepts(&StreamEvent::Opened));
    let _ = call.next(StreamEvent::Opened);
    assert_eq!(call.phase(), Phase::Polling);
    assert!(!call.accepts(&StreamEvent::Opened));
    assert!(!call.accepts(&StreamEvent::Ended));
    let _ = call.next(StreamEvent::Polled(false));
    assert_eq!(call.phase(), Phase::Reading);
    assert!(!call.accepts(&StreamEvent::Polled(false)));
}

#[test]
fn empty_batch_forwards_nothing() {
    let registry = connected_registry();
    let mut call = started(&registry);
    let (sent, last) = drive(
        &mut call,
        vec![StreamEvent::Opened, StreamEvent::Polled(false), StreamEvent::Batch(vec![])],
    );
    assert!(sent.is_empty());
    assert!(matches!(last, Some(Action::Forward(ref v)) if v.is_empty()));
}

#[test]
fn reconnect_during_call_keeps_its_session() {
    let mut registry = connected_registry();
    let mut in_flight = started(&registry);
    let _ = in_flight.next(StreamEvent::Opened);
    assert!(registry.connect("http://10.0.0.2:11434").is_ok());
    assert_eq!(in_flight.session().address(), "http://localhost:11434/");
    let later = started(&registry);
    assert_eq!(later.session().address(), "http://10.0.0.2:11434/");
}

#[test]
fn response_chunks_keep_order() {
    let chunks = response_chunks(vec![fragment("1"), fragment("2"), fragment("3")]);
    let texts: Vec<String> = chunks
        .iter()
        .map(|c| match c {
            TranslateResponseChunk::Response(g) => g.response.clone(),
            TranslateResponseChunk::EndOfStream => "<end>".to_string(),
        })
        .collect();
    assert_eq!(texts, vec!["1", "2", "3"]);
    assert!(response_chunks(vec![]).is_empty());
}
