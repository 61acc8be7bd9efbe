//! The decisions of the example client: it asks the numbers `0` to `9` in
//! turn, one at a time, and stops as soon as the server reports an error.
use crate::manage_connection::shutdown_response;
use vstd::prelude::*;

verus! {

/// How many requests the client sends at most.
pub const REQUEST_COUNT: u32 = 10;

/// What the client does after a response.
#[derive(Debug, Clone, Copy, PartialEq, Eq, Structural)]
pub enum ClientAction {
    Continue,
    Stop,
}

/// A response keeps the client going; a server error stops it.
pub open spec fn action_for<T, E>(response: Result<T, E>) -> ClientAction {
    match response {
        Ok(_) => ClientAction::Continue,
        Err(_) => ClientAction::Stop,
    }
}

/// Decides how to go on after `response`.
pub fn process_response_from_server<T, E>(response: &Result<T, E>) -> (action: ClientAction)
    ensures
        action == action_for(*response),
{
    match response {
        Ok(_) => ClientAction::Continue,
        Err(_) => ClientAction::Stop,
    }
}

/// What became of one request.
#[derive(Debug, Clone, Copy, PartialEq, Eq, Structural)]
pub enum ResponseReport {
    /// A response arrived and was processed.
    Handled(ClientAction),
    /// The response could not be read.
    Unreadable,
}

/// Where the client is in its series of requests.
pub struct ClientSession {
    next_request: u32,
    awaiting_response: bool,
    stopped: bool,
}

/// The session as numbers: the next request to send, whether the last one
/// is still unanswered, and whether the session ended.
pub struct SessionState {
    pub next_request: nat,
    pub awaiting_response: bool,
    pub stopped: bool,
}

impl View for ClientSession {
    type V = SessionState;

    closed spec fn view(&self) -> SessionState {
        SessionState {
            next_request: self.next_request as nat,
            awaiting_response: self.awaiting_response,
            stopped: self.stopped,
        }
    }
}

impl ClientSession {
    /// No session gets past its series of requests.
    #[verifier::type_invariant]
    spec fn within_series(&self) -> bool {
        self.next_request <= REQUEST_COUNT
    }

    pub fn new() -> (session: Self)
        ensures
            session@ == (SessionState { next_request: 0, awaiting_response: false, stopped: false }),
    {
        ClientSession { next_request: 0, awaiting_response: false, stopped: false }
    }

    /// The next number to ask about: the requests go out in order, one at a
    /// time (never while the last is unanswered), none after the tenth and
    /// none once the client stopped.
    pub fn next_request(&mut self) -> (request: Option<u32>)
        requires
            !old(self)@.awaiting_response,
        ensures
            final(self)@.next_request <= REQUEST_COUNT,
            final(self)@.stopped == old(self)@.stopped,
            if !old(self)@.stopped && old(self)@.next_request < REQUEST_COUNT {
                request == Some(old(self)@.next_request as u32) && final(self)@.next_request
                    == old(self)@.next_request + 1 && final(self)@.awaiting_response
            } else {
                request is None && final(self)@ == old(self)@
            },
    {
        proof {
            use_type_invariant(&*self);
        }
        if !self.stopped && self.next_request < REQUEST_COUNT {
            let request = self.next_request;
            self.next_request = self.next_request + 1;
            self.awaiting_response = true;
            Some(request)
        } else {
            None
        }
    }

    /// Takes the outcome of the request in flight: `None` when no response
    /// could be read, which the client reports and goes on from.
    pub fn on_response<T, E>(&mut self, outcome: Option<&Result<T, E>>) -> (report: ResponseReport)
        requires
            old(self)@.awaiting_response,
        ensures
            final(self)@.next_request == old(self)@.next_request,
            !final(self)@.awaiting_response,
            match outcome {
                Some(response) => report == ResponseReport::Handled(action_for(*response))
                    && final(self)@.stopped == (old(self)@.stopped || action_for(*response)
                    == ClientAction::Stop),
                None => report == ResponseReport::Unreadable && final(self)@.stopped == old(
                    self,
                )@.stopped,
            },
    {
        proof {
            use_type_invariant(&*self);
        }
        self.awaiting_response = false;
        match outcome {
            Some(response) => {
                let action = process_response_from_server(response);
                if action == ClientAction::Stop {
                    self.stopped = true;
                }
                ResponseReport::Handled(action)
            },
            None => ResponseReport::Unreadable,
        }
    }
}

/// A client that receives the server's shutdown response stops.
pub proof fn lemma_shutdown_response_stops_client<T>()
    ensures
        action_for(shutdown_response::<T>()) == ClientAction::Stop,
{
}

} // verus!
