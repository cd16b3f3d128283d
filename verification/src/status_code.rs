//! Response status codes.

use vstd::prelude::*;
use vstd::string::StringExecFns;
use crate::text::decimal;
use crate::text::decimal_string;

verus! {

/// The status of a response.
#[allow(non_camel_case_types)]
#[derive(PartialEq, Eq, Structural, Debug, Clone, Copy)]
pub enum StatusCode {
    OK,
    BadRequest,
    Forbidden,
    NotFound,
    MethodNotAllowed,
    LengthRequired,
    UnsupportedMediaType,
    InternalServerError,
}

impl StatusCode {
    /// The numeric code.
    pub open spec fn spec_code(&self) -> u16 {
        match self {
            StatusCode::OK => 200,
            StatusCode::BadRequest => 400,
            StatusCode::Forbidden => 403,
            StatusCode::NotFound => 404,
            StatusCode::MethodNotAllowed => 405,
            StatusCode::LengthRequired => 411,
            StatusCode::UnsupportedMediaType => 415,
            StatusCode::InternalServerError => 500,
        }
    }

    /// The reason phrase.
    pub open spec fn spec_reason(self) -> Seq<char> {
        match self {
            StatusCode::OK => "OK"@,
            StatusCode::BadRequest => "BAD REQUEST"@,
            StatusCode::Forbidden => "FORBIDDEN"@,
            StatusCode::NotFound => "NOT FOUND"@,
            StatusCode::MethodNotAllowed => "METHOD NOT ALLOWED"@,
            StatusCode::LengthRequired => "LENGTH REQUIRED"@,
            StatusCode::UnsupportedMediaType => "UNSUPPORTED MEDIA TYPE"@,
            StatusCode::InternalServerError => "INTERNAL SERVER ERROR"@,
        }
    }

    /// The status as it is written in a status line: the code in decimal, a
    /// space, and the reason phrase.
    pub open spec fn text(self) -> Seq<char> {
        decimal(self.spec_code() as nat) + " "@ + self.spec_reason()
    }

    /// The numeric code.
    #[verifier::when_used_as_spec(spec_code)]
    pub fn code(&self) -> (r: u16)
        ensures
            r == self.spec_code(),
    {
        match self {
            StatusCode::OK => 200,
            StatusCode::BadRequest => 400,
            StatusCode::Forbidden => 403,
            StatusCode::NotFound => 404,
            StatusCode::MethodNotAllowed => 405,
            StatusCode::LengthRequired => 411,
            StatusCode::UnsupportedMediaType => 415,
            StatusCode::InternalServerError => 500,
        }
    }

    /// The reason phrase.
    pub fn reason(&self) -> (r: &'static str)
        ensures
            r@ == self.spec_reason(),
    {
        match self {
            StatusCode::OK => "OK",
            StatusCode::BadRequest => "BAD REQUEST",
            StatusCode::Forbidden => "FORBIDDEN",
            StatusCode::NotFound => "NOT FOUND",
            StatusCode::MethodNotAllowed => "METHOD NOT ALLOWED",
            StatusCode::LengthRequired => "LENGTH REQUIRED",
            StatusCode::UnsupportedMediaType => "UNSUPPORTED MEDIA TYPE",
            StatusCode::InternalServerError => "INTERNAL SERVER ERROR",
        }
    }

    /// The status as it is written in a status line.
    pub fn to_string(&self) -> (r: String)
        ensures
            r@ == self.text(),
    {
        let mut s = decimal_string(self.code() as usize);
        s.append(" ");
        s.append(self.reason());
        s
    }
}

} // verus!
