//! The protocol versions that the server speaks.

use vstd::prelude::*;
use vstd::string::StringExecFns;
use crate::text::eq_ignore_case;
use crate::text::same_ignoring_case;

verus! {

/// An HTTP protocol version.
#[allow(non_camel_case_types)]
#[derive(PartialEq, Eq, Structural, Debug, Clone, Copy)]
pub enum HttpVersion {
    HTTP1_1,
}

impl HttpVersion {
    /// The version as it is written on the wire.
    pub open spec fn text(self) -> Seq<char> {
        "HTTP/1.1"@
    }

    /// The version that a request-line token names, letter case ignored.
    pub open spec fn named(token: Seq<char>) -> Option<HttpVersion> {
        if same_ignoring_case(token, "http/1.1"@) {
            Some(HttpVersion::HTTP1_1)
        } else {
            None
        }
    }

    /// Reads a version token; `None` for a version that is not supported.
    pub fn parse(http_version: &str) -> (r: Option<HttpVersion>)
        ensures
            r == HttpVersion::named(http_version@),
    {
        if eq_ignore_case(http_version, "http/1.1") {
            Some(HttpVersion::HTTP1_1)
        } else {
            None
        }
    }

    /// The version as it is written on the wire.
    pub fn as_str(&self) -> (r: &'static str)
        ensures
            r@ == self.text(),
    {
        "HTTP/1.1"
    }

    /// The version as an owned string.
    pub fn to_string(&self) -> (r: String)
        ensures
            r@ == self.text(),
    {
        String::from_str(self.as_str())
    }
}

} // verus!
