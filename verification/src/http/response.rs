//! Responses and their serialization to the wire format.

use super::status_code::StatusCode;
use super::text::decimal;
use vstd::prelude::*;
use vstd::utf8::*;

verus! {

/// A response: a status code and an optional body.
pub struct Response {
    status_code: StatusCode,
    body: Option<String>,
}

/// What a response holds, as plain values.
pub struct ResponseView {
    pub status_code: StatusCode,
    pub body: Option<Seq<char>>,
}

impl ResponseView {
    /// The body text; empty where there is no body.
    pub open spec fn body_text(self) -> Seq<char> {
        match self.body {
            Some(b) => b,
            None => Seq::empty(),
        }
    }

    /// The response as HTTP text: the status line, an empty line, the body.
    /// No header is written.
    pub open spec fn wire_text(self) -> Seq<char> {
        "HTTP/1.1 "@ + decimal(self.status_code.spec_code() as nat) + " "@
            + self.status_code.spec_reason_phrase() + "\r\n\r\n"@ + self.body_text()
    }
}

/// The text that opens a response with the given status code: the status
/// line and the empty line that follows it.
pub open spec fn head_text(status_code: StatusCode) -> Seq<char> {
    match status_code {
        StatusCode::OK => "HTTP/1.1 200 OK\r\n\r\n"@,
        StatusCode::BadRequest => "HTTP/1.1 400 Bad Request\r\n\r\n"@,
        StatusCode::NotFound => "HTTP/1.1 404 Not Found\r\n\r\n"@,
    }
}

/// A response is written as the head of its status code, letter for letter,
/// and then its body; without a body it ends after the head.
pub proof fn lemma_wire_text_is_head_and_body(response: ResponseView)
    ensures
        response.wire_text() == head_text(response.status_code) + response.body_text(),
{
    reveal_strlit("HTTP/1.1 ");
    reveal_strlit(" ");
    reveal_strlit("\r\n\r\n");
    reveal_strlit("OK");
    reveal_strlit("Bad Request");
    reveal_strlit("Not Found");
    reveal_strlit("HTTP/1.1 200 OK\r\n\r\n");
    reveal_strlit("HTTP/1.1 400 Bad Request\r\n\r\n");
    reveal_strlit("HTTP/1.1 404 Not Found\r\n\r\n");
    reveal_with_fuel(decimal, 3);
}

impl View for Response {
    type V = ResponseView;

    closed spec fn view(&self) -> ResponseView {
        ResponseView {
            status_code: self.status_code,
            body: match self.body {
                Some(b) => Some(b@),
                None => None,
            },
        }
    }
}

impl Response {
    /// A response with the given status code and body.
    pub fn new(status_code: StatusCode, body: Option<String>) -> (response: Self)
        ensures
            response@.status_code == status_code,
            response@.body == match body {
                Some(b) => Some(b@),
                None => None::<Seq<char>>,
            },
    {
        Self { status_code, body }
    }

    /// The response as HTTP text.
    pub fn to_string(&self) -> (text: String)
        ensures
            text@ == self@.wire_text(),
    {
        let mut text = String::from_str("HTTP/1.1 ");
        let code = self.status_code.to_string();
        text.append(code.as_str());
        text.append(" ");
        text.append(self.status_code.reason_phrase());
        text.append("\r\n\r\n");
        if let Some(body) = &self.body {
            text.append(body.as_str());
        }
        text
    }

    /// Appends the response to `stream` as the UTF-8 bytes of its HTTP text.
    pub fn send(&self, stream: &mut Vec<u8>)
        ensures
            final(stream)@ == old(stream)@ + encode_utf8(self@.wire_text()),
    {
        let text = self.to_string();
        stream.extend_from_slice(text.as_str().as_bytes());
    }
}

} // verus!
