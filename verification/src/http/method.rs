//! The request methods and their exact textual form.

use super::text::str_eq;
use std::str::FromStr;
use vstd::prelude::*;

verus! {

/// The HTTP request methods this server recognizes.
#[derive(Debug, Clone, Copy, PartialEq, Eq, Structural)]
pub enum Method {
    GET,
    POST,
    PUT,
    DELETE,
    PATCH,
    HEAD,
    OPTIONS,
    CONNECT,
    TRACE,
}

/// The token is not the name of a method.
#[derive(Debug, Clone, Copy, PartialEq, Eq, Structural)]
pub struct MethodError;

impl Method {
    /// The upper-case token that names this method on the wire.
    pub open spec fn token(self) -> Seq<char> {
        match self {
            Method::GET => "GET"@,
            Method::POST => "POST"@,
            Method::PUT => "PUT"@,
            Method::DELETE => "DELETE"@,
            Method::PATCH => "PATCH"@,
            Method::HEAD => "HEAD"@,
            Method::OPTIONS => "OPTIONS"@,
            Method::CONNECT => "CONNECT"@,
            Method::TRACE => "TRACE"@,
        }
    }

    /// The method that `s` names: an exact, case-sensitive match of the whole
    /// token, or nothing.
    pub open spec fn from_token(s: Seq<char>) -> Option<Method> {
        if s == "GET"@ {
            Some(Method::GET)
        } else if s == "POST"@ {
            Some(Method::POST)
        } else if s == "PUT"@ {
            Some(Method::PUT)
        } else if s == "DELETE"@ {
            Some(Method::DELETE)
        } else if s == "PATCH"@ {
            Some(Method::PATCH)
        } else if s == "HEAD"@ {
            Some(Method::HEAD)
        } else if s == "OPTIONS"@ {
            Some(Method::OPTIONS)
        } else if s == "CONNECT"@ {
            Some(Method::CONNECT)
        } else if s == "TRACE"@ {
            Some(Method::TRACE)
        } else {
            None
        }
    }

    /// No method token holds a space or a carriage return.
    pub proof fn lemma_token_is_word(m: Method)
        ensures
            forall|i: int| 0 <= i < m.token().len() ==> m.token()[i] != ' ' && m.token()[i] != '\r',
    {
        reveal_strlit("GET");
        reveal_strlit("POST");
        reveal_strlit("PUT");
        reveal_strlit("DELETE");
        reveal_strlit("PATCH");
        reveal_strlit("HEAD");
        reveal_strlit("OPTIONS");
        reveal_strlit("CONNECT");
        reveal_strlit("TRACE");
    }

    /// A token names a method exactly when it is that method's own token: each
    /// of the nine tokens yields its method, and no other text yields any.
    pub proof fn lemma_token_names_method(s: Seq<char>, m: Method)
        ensures
            Method::from_token(s) == Some(m) <==> s == m.token(),
    {
        reveal_strlit("GET");
        reveal_strlit("POST");
        reveal_strlit("PUT");
        reveal_strlit("DELETE");
        reveal_strlit("PATCH");
        reveal_strlit("HEAD");
        reveal_strlit("OPTIONS");
        reveal_strlit("CONNECT");
        reveal_strlit("TRACE");
        assert("POST"@.len() == 4 && "POST"@[0] == 'P');
        assert("PUT"@.len() == 3 && "PUT"@[0] == 'P');
        assert("DELETE"@.len() == 6);
        assert("PATCH"@.len() == 5 && "PATCH"@[0] == 'P');
        assert("HEAD"@.len() == 4 && "HEAD"@[0] == 'H');
        assert("OPTIONS"@.len() == 7 && "OPTIONS"@[0] == 'O');
        assert("CONNECT"@.len() == 7 && "CONNECT"@[0] == 'C');
        assert("TRACE"@.len() == 5 && "TRACE"@[0] == 'T');
    }
}

impl FromStr for Method {
    type Err = MethodError;

    /// Parses an exact method token.
    fn from_str(s: &str) -> (r: Result<Self, Self::Err>)
        ensures
            r == match Method::from_token(s@) {
                Some(m) => Ok::<Method, MethodError>(m),
                None => Err(MethodError),
            },
    {
        if str_eq(s, "GET") {
            Ok(Method::GET)
        } else if str_eq(s, "POST") {
            Ok(Method::POST)
        } else if str_eq(s, "PUT") {
            Ok(Method::PUT)
        } else if str_eq(s, "DELETE") {
            Ok(Method::DELETE)
        } else if str_eq(s, "PATCH") {
            Ok(Method::PATCH)
        } else if str_eq(s, "HEAD") {
            Ok(Method::HEAD)
        } else if str_eq(s, "OPTIONS") {
            Ok(Method::OPTIONS)
        } else if str_eq(s, "CONNECT") {
            Ok(Method::CONNECT)
        } else if str_eq(s, "TRACE") {
            Ok(Method::TRACE)
        } else {
            Err(MethodError)
        }
    }
}

} // verus!
