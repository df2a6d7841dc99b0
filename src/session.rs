//! The registry of the single connection to the generation service.

use vstd::prelude::*;

use crate::outside::{parse_url, parsed_url};

verus! {

/// The bound address of the generation service.
#[derive(Clone, Debug)]
pub struct ConnectionSession {
    address: String,
}

impl View for ConnectionSession {
    type V = Seq<char>;

    closed spec fn view(&self) -> Seq<char> {
        self.address@
    }
}

impl ConnectionSession {
    /// The session's base address, as the URL parser serialised it.
    pub fn address(&self) -> (r: &str)
        ensures
            r@ == self@,
    {
        self.address.as_str()
    }

    /// An independent copy of this session, bound to the same address.
    pub fn snapshot(&self) -> (r: ConnectionSession)
        ensures
            r@ == self@,
    {
        ConnectionSession { address: self.address.clone() }
    }
}

/// Why `connect` refused an address.
#[derive(Debug)]
pub enum ConnectError {
    /// The address is not a valid absolute URL.
    InvalidUrl(url::ParseError),
}

/// Why listing the service's models failed.
#[derive(Debug)]
pub enum ListModelsError {
    /// No session is bound.
    NoConnection,
    /// The service failed to answer.
    Ollama(ollama_rs::error::OllamaError),
}

/// What a session becomes when `connect` is called with `host`: bound to the
/// parsed address where `host` parses, left as it was otherwise.
pub open spec fn connected(prev: Option<Seq<char>>, host: Seq<char>) -> Option<Seq<char>> {
    match parsed_url(host) {
        Some(a) => Some(a),
        None => prev,
    }
}

/// What a session becomes on `disconnect`, whatever it was: unbound.
pub open spec fn disconnected(prev: Option<Seq<char>>) -> Option<Seq<char>> {
    None
}

/// Owner of the one optional session of the process.
///
/// Its view is the bound address, or `None` when disconnected.
pub struct ConnectionRegistry {
    session: Option<ConnectionSession>,
}

impl View for ConnectionRegistry {
    type V = Option<Seq<char>>;

    closed spec fn view(&self) -> Option<Seq<char>> {
        match self.session {
            Some(s) => Some(s@),
            None => None,
        }
    }
}

impl ConnectionRegistry {
    /// A registry with no session bound.
    pub fn new() -> (r: ConnectionRegistry)
        ensures
            r@ is None,
    {
        ConnectionRegistry { session: None }
    }

    /// Binds a new session to `host`, replacing any earlier one; a malformed
    /// `host` is refused and leaves the registry as it was.
    pub fn connect(&mut self, host: &str) -> (r: Result<(), ConnectError>)
        ensures
            r is Ok <==> parsed_url(host@) is Some,
            final(self)@ == connected(old(self)@, host@),
    {
        match parse_url(host) {
            Ok(address) => {
                self.session = Some(ConnectionSession { address });
                Ok(())
            },
            Err(e) => Err(ConnectError::InvalidUrl(e)),
        }
    }

    /// Clears the session; a no-op when none is bound.
    pub fn disconnect(&mut self)
        ensures
            final(self)@ == disconnected(old(self)@),
    {
        self.session = None;
    }

    /// A snapshot of the bound session, if any.
    pub fn current_session(&self) -> (r: Option<ConnectionSession>)
        ensures
            match r {
                Some(s) => self@ == Some(s@),
                None => self@ is None,
            },
    {
        match &self.session {
            Some(s) => Some(s.snapshot()),
            None => None,
        }
    }

    /// The session that a listing of the service's models goes to, or
    /// `NoConnection` when none is bound.
    pub fn list_models_session(&self) -> (r: Result<ConnectionSession, ListModelsError>)
        ensures
            match r {
                Ok(s) => self@ == Some(s@),
                Err(e) => self@ is None && e is NoConnection,
            },
    {
        match &self.session {
            Some(s) => Ok(s.snapshot()),
            None => Err(ListModelsError::NoConnection),
        }
    }
}

/// Connecting to a host that parses binds the session to that host's
/// parsed address, whatever was bound before, and a registry in that state
/// hands it out as its current session.
pub proof fn lemma_connect_binds_address(
    registry: ConnectionRegistry,
    prev: Option<Seq<char>>,
    host: Seq<char>,
    address: Seq<char>,
)
    requires
        parsed_url(host) == Some(address),
        registry@ == connected(prev, host),
    ensures
        registry@ == Some(address),
{
}

} // verus!
