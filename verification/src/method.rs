//! The request methods that the server understands.

use vstd::prelude::*;
use crate::text::eq_ignore_case;
use crate::text::same_ignoring_case;

verus! {

/// An HTTP request method.
#[derive(PartialEq, Eq, Structural, Hash, Debug, Clone, Copy)]
pub enum Method {
    Get,
    Post,
    Put,
    Patch,
    Options,
    Delete,
}

impl Method {
    /// The number of methods.
    pub const COUNT: usize = 6;

    /// The place of the method in the order of the methods.
    pub open spec fn spec_index(&self) -> usize {
        match self {
            Method::Get => 0,
            Method::Post => 1,
            Method::Put => 2,
            Method::Patch => 3,
            Method::Options => 4,
            Method::Delete => 5,
        }
    }

    /// The place of the method in the order of the methods.
    #[verifier::when_used_as_spec(spec_index)]
    pub fn index(&self) -> (r: usize)
        ensures
            r == self.spec_index(),
            r < Method::COUNT,
    {
        match self {
            Method::Get => 0,
            Method::Post => 1,
            Method::Put => 2,
            Method::Patch => 3,
            Method::Options => 4,
            Method::Delete => 5,
        }
    }

    /// The method that a request-line token names, letter case ignored.
    pub open spec fn named(token: Seq<char>) -> Option<Method> {
        if same_ignoring_case(token, "get"@) {
            Some(Method::Get)
        } else if same_ignoring_case(token, "post"@) {
            Some(Method::Post)
        } else if same_ignoring_case(token, "put"@) {
            Some(Method::Put)
        } else if same_ignoring_case(token, "patch"@) {
            Some(Method::Patch)
        } else if same_ignoring_case(token, "options"@) {
            Some(Method::Options)
        } else if same_ignoring_case(token, "delete"@) {
            Some(Method::Delete)
        } else {
            None
        }
    }

    /// Reads a method token; `None` for a token that names no method.
    pub fn try_parse(method: &str) -> (r: Option<Method>)
        ensures
            r == Method::named(method@),
    {
        if eq_ignore_case(method, "get") {
            Some(Method::Get)
        } else if eq_ignore_case(method, "post") {
            Some(Method::Post)
        } else if eq_ignore_case(method, "put") {
            Some(Method::Put)
        } else if eq_ignore_case(method, "patch") {
            Some(Method::Patch)
        } else if eq_ignore_case(method, "options") {
            Some(Method::Options)
        } else if eq_ignore_case(method, "delete") {
            Some(Method::Delete)
        } else {
            None
        }
    }

    /// Reads a method token that is known to name a method.
    pub fn parse(method: &str) -> (r: Method)
        requires
            Method::named(method@) is Some,
        ensures
            Method::named(method@) == Some(r),
    {
        match Method::try_parse(method) {
            Some(m) => m,
            None => Method::Get,
        }
    }
}

} // verus!
