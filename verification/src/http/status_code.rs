//! Response status codes with their numeric value and reason phrase.

use super::text::{decimal, decimal_string};
use vstd::prelude::*;

verus! {

/// The status codes a response can carry.
#[derive(Copy, Clone, Debug, PartialEq, Eq, Structural)]
pub enum StatusCode {
    OK,
    BadRequest,
    NotFound,
}

impl StatusCode {
    /// The numeric value of the code.
    pub open spec fn spec_code(&self) -> u16 {
        match self {
            StatusCode::OK => 200,
            StatusCode::BadRequest => 400,
            StatusCode::NotFound => 404,
        }
    }

    /// The reason phrase that accompanies the code on the status line.
    pub open spec fn spec_reason_phrase(&self) -> Seq<char> {
        match self {
            StatusCode::OK => "OK"@,
            StatusCode::BadRequest => "Bad Request"@,
            StatusCode::NotFound => "Not Found"@,
        }
    }

    /// The numeric value of the code.
    #[verifier::when_used_as_spec(spec_code)]
    pub fn code(&self) -> (c: u16)
        ensures
            c == self.spec_code(),
    {
        match self {
            StatusCode::OK => 200,
            StatusCode::BadRequest => 400,
            StatusCode::NotFound => 404,
        }
    }

    /// The reason phrase that accompanies the code on the status line.
    pub fn reason_phrase(&self) -> (phrase: &str)
        ensures
            phrase@ == self.spec_reason_phrase(),
    {
        match self {
            StatusCode::OK => "OK",
            StatusCode::BadRequest => "Bad Request",
            StatusCode::NotFound => "Not Found",
        }
    }

    /// The code as it is written on the status line: its decimal numeral.
    pub fn to_string(&self) -> (s: String)
        ensures
            s@ == decimal(self.spec_code() as nat),
    {
        decimal_string(self.code())
    }
}

} // verus!
