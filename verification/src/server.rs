//! The server: its bind address, the handler capability and the decisions of
//! the connection loop.
//!
//! The loop itself blocks on the listener and on the connection, so it runs
//! outside this crate. Between two blocking operations it asks [`step`] what
//! to do next. A connection is accepted, read once, answered and dropped
//! before the next one is accepted. What lies between the read and the write
//! happens within one step: the buffer is parsed, the handler answers the
//! request or the parse error, and the answer is serialized. No failure on a
//! connection ends the loop.

use crate::http::request::parse_request;
use crate::http::{ParseReqError, Request, Response, StatusCode};
use vstd::prelude::*;
use vstd::utf8::*;

verus! {

/// The number of bytes read from a connection: a request is parsed from one
/// read into a buffer of this size.
pub const BUFFER_SIZE: usize = 1024;

/// Produces the responses: one operation for a parsed request, one for a
/// request that failed to parse.
pub trait Handler {
    /// Answers a parsed request.
    fn handle_request(&self, request: &Request) -> Response;

    /// Answers a request that failed to parse. Unless the handler chooses
    /// otherwise, the answer is [`bad_request`]: status 400, no body.
    fn handle_bad_request(&self, e: &ParseReqError) -> (response: Response)
        ensures
            self.keeps_default_rejection() ==> response@.status_code == StatusCode::BadRequest
                && response@.body is None,
    {
        bad_request()
    }

    /// Whether the handler leaves requests that failed to parse to the
    /// default answer. A handler that says so gives no answer of its own to
    /// them; one that does not say so promises nothing of its answer.
    open spec fn keeps_default_rejection(&self) -> bool {
        false
    }
}

/// The answer to a request that failed to parse, for a handler that gives
/// none of its own: status 400, no body.
pub fn bad_request() -> (response: Response)
    ensures
        response@.status_code == StatusCode::BadRequest,
        response@.body is None,
{
    Response::new(StatusCode::BadRequest, None)
}

/// A server bound to one address.
pub struct Server {
    addr: String,
}

impl View for Server {
    type V = Seq<char>;

    /// The address the server binds to.
    closed spec fn view(&self) -> Seq<char> {
        self.addr@
    }
}

impl Server {
    /// A server for the given `host:port` address.
    pub fn new(addr: String) -> (server: Self)
        ensures
            server@ == addr@,
    {
        Self { addr }
    }

    /// The address the server binds to.
    pub fn addr(&self) -> (addr: &str)
        ensures
            addr@ == self@,
    {
        self.addr.as_str()
    }
}

/// Whether `response` is what `handler` gave for the buffer `buf`: the answer
/// of its request path to the request that `buf` holds, or, where `buf` holds
/// none, the answer of its bad-request path to the parse error.
pub open spec fn answers<H: Handler>(handler: &H, buf: Seq<u8>, response: Response) -> bool {
    match parse_request(buf) {
        Ok(parsed) => exists|request: Request|
            request@ == parsed && #[trigger] call_ensures(
                H::handle_request,
                (handler, &request),
                response,
            ),
        Err(e) => call_ensures(H::handle_bad_request, (handler, &e), response),
    }
}

/// Parses the buffer read from a connection and hands the outcome to the
/// handler: a request to its request path, a parse error to its bad-request
/// path.
pub fn respond<H: Handler>(handler: &H, buf: &[u8]) -> (response: Response)
    ensures
        answers(handler, buf@, response),
{
    match Request::try_from(buf) {
        Ok(request) => handler.handle_request(&request),
        Err(e) => handler.handle_bad_request(&e),
    }
}

/// Where the connection loop stands between two blocking operations.
#[derive(Debug, Clone, Copy, PartialEq, Eq, Structural)]
pub enum State {
    /// No connection is at hand: the loop waits for one to be accepted.
    Listening,
    /// A connection was accepted: the loop waits for its bytes.
    Accepted,
    /// The connection was read and answered, and the response was handed
    /// over for writing: the loop waits for the write to end.
    Responding,
}

/// How the operation that the loop was waiting for has ended.
#[derive(Debug, Clone, Copy)]
pub enum Event<'a> {
    /// A connection was accepted.
    Connected,
    /// Accepting a connection failed.
    AcceptFailed,
    /// The connection was read into the buffer.
    Received(&'a [u8]),
    /// Reading from the connection failed.
    ReadFailed,
    /// The response was written.
    Sent,
    /// Writing the response failed.
    SendFailed,
}

/// The blocking operation that the loop performs next.
#[derive(Debug, PartialEq, Eq)]
pub enum Action {
    /// Drop the connection at hand, if there is one, and accept the next.
    Accept,
    /// Read from the connection into a buffer of `BUFFER_SIZE` bytes.
    Read,
    /// Write these bytes to the connection.
    Send(Vec<u8>),
}

/// The transitions of the connection loop: whether `next` is the state and
/// the action that follow `event` in `state`, with `handler` giving the
/// responses.
///
/// An accepted connection is read. What was read is answered by the handler,
/// and the answer is sent as the bytes of its HTTP text. Everything else
/// returns to listening and accepts again, without a response: a failed
/// accept, a failed read, the end of a write whether it failed or not, and
/// an event that the state was not waiting for.
pub open spec fn follows<H: Handler>(
    handler: &H,
    state: State,
    event: Event,
    next: (State, Action),
) -> bool {
    match (state, event) {
        (State::Listening, Event::Connected) => next.0 == State::Accepted && next.1 is Read,
        (State::Accepted, Event::Received(buf)) => {
            &&& next.0 == State::Responding
            &&& next.1 matches Action::Send(bytes)
            &&& exists|response: Response| #[trigger]
                answers(handler, buf@, response) && bytes@ == encode_utf8(
                    response@.wire_text(),
                )
        },
        _ => next.0 == State::Listening && next.1 is Accept,
    }
}

/// Decides how the connection loop goes on after `event`.
pub fn step<H: Handler>(handler: &H, state: State, event: Event) -> (next: (State, Action))
    ensures
        follows(handler, state, event, next),
{
    match (state, event) {
        (State::Listening, Event::Connected) => (State::Accepted, Action::Read),
        (State::Accepted, Event::Received(buf)) => {
            let response = respond(handler, buf);
            let mut bytes = Vec::new();
            response.send(&mut bytes);
            (State::Responding, Action::Send(bytes))
        },
        _ => (State::Listening, Action::Accept),
    }
}

/// A failed accept does not end the loop: it keeps listening, and the next
/// thing it does is to accept again.
pub proof fn lemma_failed_accept_accepts_again<H: Handler>(handler: &H, next: (State, Action))
    requires
        follows(handler, State::Listening, Event::AcceptFailed, next),
    ensures
        next.0 == State::Listening,
        next.1 is Accept,
{
}

/// Whether `steps` is a run of the connection loop from its start: each entry
/// holds a state, the event that arrived in it, and the state and action
/// that followed. The first state is `Listening`, and each later state is
/// the one that the step before ended in.
pub open spec fn is_run<H: Handler>(
    handler: &H,
    steps: Seq<(State, Event, (State, Action))>,
) -> bool {
    &&& steps.len() > 0 ==> steps[0].0 == State::Listening
    &&& forall|i: int|
        0 <= i < steps.len() ==> follows(
            handler,
            (#[trigger] steps[i]).0,
            steps[i].1,
            steps[i].2,
        )
    &&& forall|i: int| 0 <= i < steps.len() - 1 ==> (#[trigger] steps[i + 1]).0 == steps[i].2.0
}

/// Connections are served one at a time, with at most one response each.
/// Wherever a run sends bytes, the step before has accepted the connection,
/// the bytes answer what was read from it, and the step after returns to
/// listening and accepts the next connection, whether the write succeeded or
/// not.
pub proof fn lemma_one_response_per_connection<H: Handler>(
    handler: &H,
    steps: Seq<(State, Event, (State, Action))>,
    i: int,
)
    requires
        is_run(handler, steps),
        0 <= i < steps.len(),
        steps[i].2.1 is Send,
    ensures
        i > 0,
        steps[i - 1].0 == State::Listening,
        steps[i - 1].1 is Connected,
        steps[i - 1].2.1 is Read,
        steps[i].0 == State::Accepted,
        steps[i].1 is Received,
        i + 1 < steps.len() ==> steps[i + 1].2.0 == State::Listening && steps[i + 1].2.1 is Accept,
{
    if i > 0 {
        assert(steps[i - 1 + 1].0 == steps[i - 1].2.0);
    }
}

/// No failure ends the loop, and none is answered: after a failed accept, a
/// failed read or a failed write the run is listening again, and the next
/// thing it does is to accept.
pub proof fn lemma_failures_return_to_listening<H: Handler>(
    handler: &H,
    steps: Seq<(State, Event, (State, Action))>,
    i: int,
)
    requires
        is_run(handler, steps),
        0 <= i < steps.len(),
        steps[i].1 is AcceptFailed || steps[i].1 is ReadFailed || steps[i].1 is SendFailed,
    ensures
        steps[i].2.0 == State::Listening,
        steps[i].2.1 is Accept,
        i + 1 < steps.len() ==> steps[i + 1].0 == State::Listening,
{
}

} // verus!
