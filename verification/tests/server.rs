use http_server::http::{Method, ParseReqError, Request, Response, StatusCode};
use http_server::server::{
    bad_request, respond, step, Action, Event, Handler, Server, State, BUFFER_SIZE,
};
use std::cell::Cell;

/// Counts the calls of each path and echoes what it was given.
struct Recorder {
    requests: Cell<u32>,
    bad_requests: Cell<u32>,
}

impl Recorder {
    fn new() -> Self {
        Recorder { requests: Cell::new(0), bad_requests: Cell::new(0) }
    }
}

impl Handler for Recorder {
    fn handle_request(&self, request: &Request) -> Response {
        self.requests.set(self.requests.get() + 1);
        let status = match request.method() {
            Method::GET => StatusCode::OK,
            _ => StatusCode::NotFound,
        };
        Response::new(status, Some(request.path().to_string()))
    }

    fn handle_bad_request(&self, e: &ParseReqError) -> Response {
        self.bad_requests.set(self.bad_requests.get() + 1);
        Response::new(StatusCode::BadRequest, Some(e.message().to_string()))
    }
}

/// Leaves the bad-request path as the trait gives it.
struct Plain;

impl Handler for Plain {
    fn handle_request(&self, _request: &Request) -> Response {
        Response::new(StatusCode::OK, None)
    }
}

#[test]
fn server_keeps_its_address() {
    let server = Server::new("127.0.0.1:8080".to_string());
    assert_eq!(server.addr(), "127.0.0.1:8080");
}

#[test]
fn buffer_size_is_1024() {
    assert_eq!(BUFFER_SIZE, 1024);
}

#[test]
fn default_bad_request_is_400_without_body() {
    assert_eq!(bad_request().to_string(), "HTTP/1.1 400 Bad Request\r\n\r\n");
    let response = Plain.handle_bad_request(&ParseReqError::InvalidMethod);
    assert_eq!(response.to_string(), "HTTP/1.1 400 Bad Request\r\n\r\n");
}

#[test]
fn respond_takes_the_request_path_once() {
    let handler = Recorder::new();
    let response = respond(&handler, b"GET /here HTTP/1.1\r\n\r\n");
    assert_eq!(response.to_string(), "HTTP/1.1 200 OK\r\n\r\n/here");
    assert_eq!(handler.requests.get(), 1);
    assert_eq!(handler.bad_requests.get(), 0);
}

#[test]
fn respond_takes_the_bad_request_path_once() {
    let handler = Recorder::new();
    let response = respond(&handler, b"GET /here HTTP/1.0\r\n\r\n");
    assert_eq!(response.to_string(), "HTTP/1.1 400 Bad Request\r\n\r\nInvalid Protocol");
    assert_eq!(handler.requests.get(), 0);
    assert_eq!(handler.bad_requests.get(), 1);
}

#[test]
fn respond_hands_each_parse_error_over() {
    let handler = Recorder::new();
    let head = "HTTP/1.1 400 Bad Request\r\n\r\n";
    assert_eq!(respond(&handler, b"\xff").to_string(), format!("{head}Invalid Encoding"));
    assert_eq!(respond(&handler, b"GET /").to_string(), format!("{head}Invalid Request"));
    let response = respond(&handler, b"GOT / HTTP/1.1\r\n");
    assert_eq!(response.to_string(), format!("{head}Invalid Method"));
    assert_eq!(handler.bad_requests.get(), 3);
    assert_eq!(handler.requests.get(), 0);
}

#[test]
fn respond_with_default_bad_request() {
    let response = respond(&Plain, b"nonsense");
    assert_eq!(response.to_string(), "HTTP/1.1 400 Bad Request\r\n\r\n");
}

#[test]
fn step_reads_an_accepted_connection() {
    let handler = Recorder::new();
    let next = step(&handler, State::Listening, Event::Connected);
    assert_eq!(next, (State::Accepted, Action::Read));
    assert_eq!(handler.requests.get() + handler.bad_requests.get(), 0);
}

#[test]
fn step_failed_accept_accepts_again() {
    let handler = Recorder::new();
    let mut state = State::Listening;
    for _ in 0..5 {
        let (next, action) = step(&handler, state, Event::AcceptFailed);
        assert_eq!(next, State::Listening);
        assert_eq!(action, Action::Accept);
        state = next;
    }
    let next = step(&handler, state, Event::Connected);
    assert_eq!(next, (State::Accepted, Action::Read));
}

#[test]
fn step_failed_read_drops_the_connection() {
    let handler = Recorder::new();
    let next = step(&handler, State::Accepted, Event::ReadFailed);
    assert_eq!(next, (State::Listening, Action::Accept));
    assert_eq!(handler.requests.get() + handler.bad_requests.get(), 0);
}

#[test]
fn step_answers_a_request() {
    let handler = Recorder::new();
    let event = Event::Received(b"POST /x HTTP/1.1\r\n\r\n");
    let (state, action) = step(&handler, State::Accepted, event);
    assert_eq!(state, State::Responding);
    assert_eq!(action, Action::Send(b"HTTP/1.1 404 Not Found\r\n\r\n/x".to_vec()));
    assert_eq!(handler.requests.get(), 1);
    assert_eq!(handler.bad_requests.get(), 0);
}

#[test]
fn step_answers_a_bad_request() {
    let handler = Recorder::new();
    let event = Event::Received(b"POST /x\r\n\r\n");
    let (state, action) = step(&handler, State::Accepted, event);
    assert_eq!(state, State::Responding);
    let bytes = b"HTTP/1.1 400 Bad Request\r\n\r\nInvalid Protocol";
    assert_eq!(action, Action::Send(bytes.to_vec()));
    assert_eq!(handler.requests.get(), 0);
    assert_eq!(handler.bad_requests.get(), 1);
}

#[test]
fn step_after_write_accepts_again() {
    let handler = Recorder::new();
    let next = step(&handler, State::Responding, Event::Sent);
    assert_eq!(next, (State::Listening, Action::Accept));
    let next = step(&handler, State::Responding, Event::SendFailed);
    assert_eq!(next, (State::Listening, Action::Accept));
    assert_eq!(handler.requests.get() + handler.bad_requests.get(), 0);
}

#[test]
fn step_unexpected_event_drops_the_connection() {
    let handler = Recorder::new();
    let received = Event::Received(b"GET / HTTP/1.1\r\n");
    let unexpected = [
        (State::Listening, received),
        (State::Listening, Event::ReadFailed),
        (State::Listening, Event::Sent),
        (State::Accepted, Event::Connected),
        (State::Accepted, Event::AcceptFailed),
        (State::Accepted, Event::Sent),
        (State::Responding, Event::Connected),
        (State::Responding, Event::ReadFailed),
        (State::Responding, received),
    ];
    for (state, event) in unexpected {
        assert_eq!(step(&handler, state, event), (State::Listening, Action::Accept));
    }
    assert_eq!(handler.requests.get() + handler.bad_requests.get(), 0);
}

#[test]
fn one_connection_from_accept_to_accept() {
    let handler = Recorder::new();
    let mut buffer = [0u8; BUFFER_SIZE];
    let line = b"GET /a?b=c HTTP/1.1\r\nHost: h\r\n\r\n";
    buffer[..line.len()].copy_from_slice(line);

    let (state, action) = step(&handler, State::Listening, Event::Connected);
    assert_eq!(action, Action::Read);
    let (state, action) = step(&handler, state, Event::Received(&buffer));
    assert_eq!(action, Action::Send(b"HTTP/1.1 200 OK\r\n\r\n/a".to_vec()));
    let (state, action) = step(&handler, state, Event::Sent);
    assert_eq!((state, action), (State::Listening, Action::Accept));
    assert_eq!(handler.requests.get(), 1);
    assert_eq!(handler.bad_requests.get(), 0);
}

#[test]
fn connections_are_served_one_after_another() {
    let handler = Recorder::new();
    let mut sent = Vec::new();
    let mut state = State::Listening;
    let events = [
        Event::AcceptFailed,
        Event::Connected,
        Event::Received(b"GET /1 HTTP/1.1\r\n"),
        Event::Sent,
        Event::Connected,
        Event::ReadFailed,
        Event::Connected,
        Event::Received(b"bad"),
        Event::SendFailed,
        Event::Connected,
        Event::Received(b"GET /2 HTTP/1.1\r\n"),
        Event::Sent,
    ];
    for event in events {
        let (next, action) = step(&handler, state, event);
        if let Action::Send(bytes) = action {
            sent.push(String::from_utf8(bytes).unwrap());
        }
        state = next;
    }
    assert_eq!(state, State::Listening);
    assert_eq!(
        sent,
        vec![
            "HTTP/1.1 200 OK\r\n\r\n/1",
            "HTTP/1.1 400 Bad Request\r\n\r\nInvalid Request",
            "HTTP/1.1 200 OK\r\n\r\n/2",
        ]
    );
    assert_eq!(handler.requests.get(), 2);
    assert_eq!(handler.bad_requests.get(), 1);
}
