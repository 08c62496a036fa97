//! Requests: the request line of an HTTP/1.1 request, parsed in place from
//! the bytes that were received.

use super::method::{Method, MethodError};
use super::query_string::{parse_query, QueryString, ValueView};
use super::text::{
    first_of, lemma_first_of, lemma_split_at_either_cuts, split_at, split_at_either, split_once,
    split_once_either, str_eq,
};
use std::str::FromStr;
use std::str::Utf8Error;
use vstd::prelude::*;
use vstd::utf8::*;

verus! {

/// A parsed request line. Path and query string borrow from the buffer that
/// was parsed.
#[derive(Debug)]
pub struct Request<'buf> {
    path: &'buf str,
    query_string: Option<QueryString<'buf>>,
    method: Method,
}

/// What a request holds, as plain values.
pub struct RequestView {
    pub path: Seq<char>,
    pub query_string: Option<Map<Seq<char>, ValueView>>,
    pub method: Method,
}

/// Why a buffer is not a request.
#[derive(Debug, Clone, Copy, PartialEq, Eq, Structural)]
pub enum ParseReqError {
    /// The request line lacks one of its three delimited words.
    InvalidRequest,
    /// The buffer is not UTF-8 text.
    InvalidEncoding,
    /// The protocol is not `HTTP/1.1`.
    InvalidProtocol,
    /// The method is not a known one.
    InvalidMethod,
}

/// The first word of `text`: what stands before its first space or carriage
/// return, and the text after that delimiter. `None` when `text` holds
/// neither.
pub open spec fn next_word(text: Seq<char>) -> Option<(Seq<char>, Seq<char>)> {
    split_at_either(text, ' ', '\r')
}

/// The path and the bindings of a request target: the target is cut at its
/// first `?`, and what follows is read as a query string.
pub open spec fn split_target(target: Seq<char>) -> (
    Seq<char>,
    Option<Map<Seq<char>, ValueView>>,
) {
    match split_at(target, '?') {
        Some((path, query)) => (path, Some(parse_query(query))),
        None => (target, None),
    }
}

/// The request that a request line states. The line must open with three
/// delimited words: method, target and protocol. The protocol is checked
/// before the method.
pub open spec fn parse_request_line(text: Seq<char>) -> Result<RequestView, ParseReqError> {
    match next_word(text) {
        None => Err(ParseReqError::InvalidRequest),
        Some((method, after_method)) => match next_word(after_method) {
            None => Err(ParseReqError::InvalidRequest),
            Some((target, after_target)) => match next_word(after_target) {
                None => Err(ParseReqError::InvalidRequest),
                Some((protocol, _)) => if protocol != "HTTP/1.1"@ {
                    Err(ParseReqError::InvalidProtocol)
                } else {
                    match Method::from_token(method) {
                        None => Err(ParseReqError::InvalidMethod),
                        Some(method) => Ok(
                            RequestView {
                                path: split_target(target).0,
                                query_string: split_target(target).1,
                                method,
                            },
                        ),
                    }
                },
            },
        },
    }
}

/// The request that a buffer holds: the buffer is taken whole, as UTF-8 text.
pub open spec fn parse_request(buf: Seq<u8>) -> Result<RequestView, ParseReqError> {
    if valid_utf8(buf) {
        parse_request_line(decode_utf8(buf))
    } else {
        Err(ParseReqError::InvalidEncoding)
    }
}

/// Whether `c` ends a word of the request line.
pub open spec fn is_delimiter(c: char) -> bool {
    c == ' ' || c == '\r'
}

/// Whether `s` can be a word of the request line: it holds no delimiter.
pub open spec fn is_word(s: Seq<char>) -> bool {
    forall|i: int| 0 <= i < s.len() ==> !is_delimiter(#[trigger] s[i])
}

/// The number of delimiters in `text`.
pub open spec fn delimiters(text: Seq<char>) -> nat
    decreases text.len(),
{
    if text.len() == 0 {
        0
    } else if is_delimiter(text[0]) {
        1 + delimiters(text.drop_first())
    } else {
        delimiters(text.drop_first())
    }
}

/// A line of three words, each followed by a delimiter, is read as these
/// three words.
proof fn lemma_three_words(
    first: Seq<char>,
    d1: char,
    second: Seq<char>,
    d2: char,
    third: Seq<char>,
    d3: char,
    rest: Seq<char>,
)
    requires
        is_word(first),
        is_word(second),
        is_word(third),
        is_delimiter(d1),
        is_delimiter(d2),
        is_delimiter(d3),
    ensures
        next_word(first + seq![d1] + second + seq![d2] + third + seq![d3] + rest) == Some(
            (first, second + seq![d2] + third + seq![d3] + rest),
        ),
        next_word(second + seq![d2] + third + seq![d3] + rest) == Some(
            (second, third + seq![d3] + rest),
        ),
        next_word(third + seq![d3] + rest) == Some((third, rest)),
{
    let after_second = third + seq![d3] + rest;
    let after_first = second + seq![d2] + third + seq![d3] + rest;
    let line = first + seq![d1] + second + seq![d2] + third + seq![d3] + rest;
    assert(after_first =~= second + seq![d2] + after_second);
    assert(line =~= first + seq![d1] + after_first);
    lemma_split_at_either_cuts(first, d1, after_first, ' ', '\r');
    lemma_split_at_either_cuts(second, d2, after_second, ' ', '\r');
    lemma_split_at_either_cuts(third, d3, rest, ' ', '\r');
}

/// A well-formed request line is parsed into its parts: a method token, a
/// target and `HTTP/1.1`, each followed by a space or a carriage return, and
/// then anything.
pub proof fn lemma_request_line_parses(
    method: Method,
    d1: char,
    target: Seq<char>,
    d2: char,
    d3: char,
    rest: Seq<char>,
)
    requires
        is_word(target),
        is_delimiter(d1),
        is_delimiter(d2),
        is_delimiter(d3),
    ensures
        parse_request_line(
            method.token() + seq![d1] + target + seq![d2] + "HTTP/1.1"@ + seq![d3] + rest,
        ) == Ok::<RequestView, ParseReqError>(
            RequestView {
                path: split_target(target).0,
                query_string: split_target(target).1,
                method,
            },
        ),
{
    Method::lemma_token_is_word(method);
    reveal_strlit("HTTP/1.1");
    Method::lemma_token_names_method(method.token(), method);
    lemma_three_words(method.token(), d1, target, d2, "HTTP/1.1"@, d3, rest);
}

/// Only the three words of the request line count: what follows the
/// delimiter of the third word has no part in the result.
pub proof fn lemma_rest_is_ignored(
    method: Seq<char>,
    d1: char,
    target: Seq<char>,
    d2: char,
    protocol: Seq<char>,
    d3: char,
    rest: Seq<char>,
    other: Seq<char>,
)
    requires
        is_word(method),
        is_word(target),
        is_word(protocol),
        is_delimiter(d1),
        is_delimiter(d2),
        is_delimiter(d3),
    ensures
        parse_request_line(method + seq![d1] + target + seq![d2] + protocol + seq![d3] + rest)
            == parse_request_line(
            method + seq![d1] + target + seq![d2] + protocol + seq![d3] + other,
        ),
{
    lemma_three_words(method, d1, target, d2, protocol, d3, rest);
    lemma_three_words(method, d1, target, d2, protocol, d3, other);
}

/// A request line whose third word is not `HTTP/1.1` is refused for its
/// protocol, whatever its method and target are.
pub proof fn lemma_protocol_is_required(
    method: Seq<char>,
    d1: char,
    target: Seq<char>,
    d2: char,
    protocol: Seq<char>,
    d3: char,
    rest: Seq<char>,
)
    requires
        is_word(method),
        is_word(target),
        is_word(protocol),
        is_delimiter(d1),
        is_delimiter(d2),
        is_delimiter(d3),
        protocol != "HTTP/1.1"@,
    ensures
        parse_request_line(
            method + seq![d1] + target + seq![d2] + protocol + seq![d3] + rest,
        ) == Err::<RequestView, ParseReqError>(ParseReqError::InvalidProtocol),
{
    lemma_three_words(method, d1, target, d2, protocol, d3, rest);
}

/// A request line with the right protocol and a first word that names no
/// method is refused for its method.
pub proof fn lemma_method_is_required(
    method: Seq<char>,
    d1: char,
    target: Seq<char>,
    d2: char,
    d3: char,
    rest: Seq<char>,
)
    requires
        is_word(method),
        is_word(target),
        is_delimiter(d1),
        is_delimiter(d2),
        is_delimiter(d3),
        Method::from_token(method) is None,
    ensures
        parse_request_line(
            method + seq![d1] + target + seq![d2] + "HTTP/1.1"@ + seq![d3] + rest,
        ) == Err::<RequestView, ParseReqError>(ParseReqError::InvalidMethod),
{
    reveal_strlit("HTTP/1.1");
    lemma_three_words(method, d1, target, d2, "HTTP/1.1"@, d3, rest);
}

/// Cutting the first word off a text takes one delimiter away; a text that
/// has no first word has no delimiter.
proof fn lemma_next_word_delimiters(text: Seq<char>)
    ensures
        match next_word(text) {
            Some((_, rest)) => delimiters(text) == 1 + delimiters(rest),
            None => delimiters(text) == 0,
        },
    decreases text.len(),
{
    if text.len() != 0 && !is_delimiter(text[0]) {
        let tail = text.drop_first();
        lemma_next_word_delimiters(tail);
        lemma_first_of(tail, ' ', '\r');
        let k: int = first_of(tail, ' ', '\r');
        if k < tail.len() {
            assert(text.subrange(k + 2, text.len() as int) =~= tail.subrange(
                k + 1,
                tail.len() as int,
            ));
        }
    }
}

/// The text is refused as no request line exactly when it holds fewer than
/// three delimiters: a third word that nothing ends is no word.
pub proof fn lemma_three_words_are_required(text: Seq<char>)
    ensures
        parse_request_line(text) == Err::<RequestView, ParseReqError>(
            ParseReqError::InvalidRequest,
        ) <==> delimiters(text) < 3,
{
    lemma_next_word_delimiters(text);
    if let Some((_, after_method)) = next_word(text) {
        lemma_next_word_delimiters(after_method);
        if let Some((_, after_target)) = next_word(after_method) {
            lemma_next_word_delimiters(after_target);
        }
    }
}

/// A buffer is refused for its encoding exactly when it is not UTF-8.
pub proof fn lemma_encoding_is_required(buf: Seq<u8>)
    ensures
        parse_request(buf) == Err::<RequestView, ParseReqError>(ParseReqError::InvalidEncoding)
            <==> !valid_utf8(buf),
{
}

impl<'buf> View for Request<'buf> {
    type V = RequestView;

    closed spec fn view(&self) -> RequestView {
        RequestView {
            path: self.path@,
            query_string: match self.query_string {
                Some(query) => Some(query@),
                None => None,
            },
            method: self.method,
        }
    }
}

impl<'buf> Request<'buf> {
    /// The path, without the query string.
    pub fn path(&self) -> (path: &str)
        ensures
            path@ == self@.path,
    {
        self.path
    }

    /// The method.
    pub fn method(&self) -> (method: &Method)
        ensures
            *method == self@.method,
    {
        &self.method
    }

    /// The query string, where the target had one.
    pub fn query_string(&self) -> (query: Option<&QueryString<'buf>>)
        ensures
            match query {
                Some(q) => self@.query_string == Some(q@),
                None => self@.query_string is None,
            },
    {
        self.query_string.as_ref()
    }
}

/// Cuts the first word off `text`.
pub fn get_next_word(text: &str) -> (word: Option<(&str, &str)>)
    ensures
        match word {
            Some((first, rest)) => next_word(text@) == Some((first@, rest@)),
            None => next_word(text@) is None,
        },
{
    split_once_either(text, ' ', '\r')
}

impl<'buf> TryFrom<&'buf [u8]> for Request<'buf> {
    type Error = ParseReqError;

    /// Parses the request line that opens `buf`.
    fn try_from(buf: &'buf [u8]) -> (parsed: Result<Self, Self::Error>)
        ensures
            match parsed {
                Ok(request) => parse_request(buf@) == Ok::<RequestView, ParseReqError>(request@),
                Err(e) => parse_request(buf@) == Err::<RequestView, ParseReqError>(e),
            },
    {
        let text = match core::str::from_utf8(buf) {
            Ok(text) => text,
            Err(e) => {
                return Err(ParseReqError::from(e));
            },
        };
        proof {
            encode_utf8_decode_utf8(text@);
        }
        let (method, text) = match get_next_word(text) {
            Some(word) => word,
            None => {
                return Err(ParseReqError::InvalidRequest);
            },
        };
        let (target, text) = match get_next_word(text) {
            Some(word) => word,
            None => {
                return Err(ParseReqError::InvalidRequest);
            },
        };
        let (protocol, _) = match get_next_word(text) {
            Some(word) => word,
            None => {
                return Err(ParseReqError::InvalidRequest);
            },
        };
        if !str_eq(protocol, "HTTP/1.1") {
            return Err(ParseReqError::InvalidProtocol);
        }
        let method = match Method::from_str(method) {
            Ok(method) => method,
            Err(e) => {
                return Err(ParseReqError::from(e));
            },
        };
        let (path, query_string) = match split_once(target, '?') {
            Some((path, query)) => (path, Some(QueryString::from(query))),
            None => (target, None),
        };
        Ok(Self { path, query_string, method })
    }
}

/// What `try_from` returns is stated by its own contract, over the view of
/// the request: two requests with the same view need not be the same value.
impl<'buf> vstd::std_specs::convert::TryFromSpecImpl<&'buf [u8]> for Request<'buf> {
    open spec fn obeys_try_from_spec() -> bool {
        false
    }

    open spec fn try_from_spec(buf: &'buf [u8]) -> Result<Self, Self::Error> {
        arbitrary()
    }
}

impl ParseReqError {
    /// The text that describes the error.
    pub open spec fn spec_message(&self) -> Seq<char> {
        match self {
            ParseReqError::InvalidRequest => "Invalid Request"@,
            ParseReqError::InvalidEncoding => "Invalid Encoding"@,
            ParseReqError::InvalidProtocol => "Invalid Protocol"@,
            ParseReqError::InvalidMethod => "Invalid Method"@,
        }
    }

    /// The text that describes the error.
    pub fn message(&self) -> (message: &str)
        ensures
            message@ == self.spec_message(),
    {
        match self {
            ParseReqError::InvalidRequest => "Invalid Request",
            ParseReqError::InvalidEncoding => "Invalid Encoding",
            ParseReqError::InvalidProtocol => "Invalid Protocol",
            ParseReqError::InvalidMethod => "Invalid Method",
        }
    }

    /// The error as text: its message.
    pub fn to_string(&self) -> (text: String)
        ensures
            text@ == self.spec_message(),
    {
        self.message().to_owned()
    }
}

impl From<Utf8Error> for ParseReqError {
    /// Bytes that are not UTF-8 are an invalid encoding.
    fn from(e: Utf8Error) -> (error: Self)
        ensures
            error == ParseReqError::InvalidEncoding,
    {
        ParseReqError::InvalidEncoding
    }
}

impl vstd::std_specs::convert::FromSpecImpl<Utf8Error> for ParseReqError {
    open spec fn obeys_from_spec() -> bool {
        true
    }

    open spec fn from_spec(e: Utf8Error) -> Self {
        ParseReqError::InvalidEncoding
    }
}

impl From<MethodError> for ParseReqError {
    /// A token that names no method is an invalid method.
    fn from(e: MethodError) -> (error: Self)
        ensures
            error == ParseReqError::InvalidMethod,
    {
        ParseReqError::InvalidMethod
    }
}

impl vstd::std_specs::convert::FromSpecImpl<MethodError> for ParseReqError {
    open spec fn obeys_from_spec() -> bool {
        true
    }

    open spec fn from_spec(e: MethodError) -> Self {
        ParseReqError::InvalidMethod
    }
}

} // verus!
