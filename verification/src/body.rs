//! The body of a request.

use vstd::prelude::*;
use vstd::utf8::decode_utf8;
use vstd::utf8::encode_utf8;
use vstd::utf8::valid_utf8;
use vstd::slice::slice_subrange;
use vstd::slice::slice_to_vec;
use crate::error::HttpError;
use crate::text::decode;

verus! {

/// The body of a request: none, bytes that are not text, or text.
#[derive(Debug)]
pub enum Body {
    Absent,
    Bytes(Vec<u8>),
    String(String),
}

/// What a [`Body`] holds.
pub enum BodyView {
    Absent,
    Bytes(Seq<u8>),
    Text(Seq<char>),
}

impl BodyView {
    /// The bytes that the body was received as.
    pub open spec fn raw(self) -> Option<Seq<u8>> {
        match self {
            BodyView::Absent => None,
            BodyView::Bytes(b) => Some(b),
            BodyView::Text(t) => Some(encode_utf8(t)),
        }
    }
}

impl View for Body {
    type V = BodyView;

    open spec fn view(&self) -> BodyView {
        match self {
            Body::Absent => BodyView::Absent,
            Body::Bytes(b) => BodyView::Bytes(b@),
            Body::String(s) => BodyView::Text(s@),
        }
    }
}

/// The body that received bytes stand for: text where they are valid UTF-8,
/// the bytes themselves where they are not.
pub open spec fn body_of(raw: Seq<u8>) -> BodyView {
    if valid_utf8(raw) {
        BodyView::Text(decode_utf8(raw))
    } else {
        BodyView::Bytes(raw)
    }
}

impl Body {
    /// Decodes received bytes. Whatever the outcome, the bytes are kept.
    pub fn decode(raw: Vec<u8>) -> (b: Body)
        ensures
            b@ == body_of(raw@),
            b@.raw() == Some(raw@),
    {
        match decode(raw.as_slice()) {
            Some(s) => Body::String(s),
            None => Body::Bytes(raw),
        }
    }
}

/// A form in which a handler can ask for the body of a request.
pub trait BodyTrait: Sized {
    /// Whether `r` is what reading a body of `content_length` bytes from the
    /// bytes `rest` that follow the head gives.
    spec fn is_read(rest: Seq<u8>, content_length: usize, r: Result<Self, HttpError>) -> bool;

    /// Reads a body of `content_length_header` bytes from the bytes that
    /// follow the head.
    fn parse_request(rest: &[u8], content_length_header: usize) -> (r: Result<Self, HttpError>)
        ensures
            Self::is_read(rest@, content_length_header, r),
    ;
}

/// The bytes of the body: exactly as many as announced. Fewer bytes than
/// announced are a failure.
impl BodyTrait for Vec<u8> {
    open spec fn is_read(rest: Seq<u8>, content_length: usize, r: Result<Self, HttpError>) -> bool {
        if rest.len() < content_length {
            r matches Err(e) && e == HttpError::InvalidBytesBody
        } else {
            r matches Ok(bytes) && bytes@ == rest.subrange(0, content_length as int)
        }
    }

    fn parse_request(rest: &[u8], content_length_header: usize) -> (r: Result<Self, HttpError>) {
        if rest.len() < content_length_header {
            return Err(HttpError::InvalidBytesBody);
        }
        Ok(slice_to_vec(slice_subrange(rest, 0, content_length_header)))
    }
}

/// The body as text: the announced bytes, which must be valid UTF-8.
impl BodyTrait for String {
    open spec fn is_read(rest: Seq<u8>, content_length: usize, r: Result<Self, HttpError>) -> bool {
        if rest.len() < content_length {
            r matches Err(e) && e == HttpError::InvalidBytesBody
        } else if !valid_utf8(rest.subrange(0, content_length as int)) {
            r matches Err(e) && e == HttpError::InvalidStringBody
        } else {
            r matches Ok(text) && text@ == decode_utf8(rest.subrange(0, content_length as int))
        }
    }

    fn parse_request(rest: &[u8], content_length_header: usize) -> (r: Result<Self, HttpError>) {
        if rest.len() < content_length_header {
            return Err(HttpError::InvalidBytesBody);
        }
        match decode(slice_subrange(rest, 0, content_length_header)) {
            Some(text) => Ok(text),
            None => Err(HttpError::InvalidStringBody),
        }
    }
}

/// No body: nothing is read, and nothing can fail.
impl BodyTrait for () {
    open spec fn is_read(rest: Seq<u8>, content_length: usize, r: Result<Self, HttpError>) -> bool {
        r is Ok
    }

    fn parse_request(rest: &[u8], content_length_header: usize) -> (r: Result<Self, HttpError>) {
        Ok(())
    }
}

} // verus!
