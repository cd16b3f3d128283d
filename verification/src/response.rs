//! Responses: how one is built, completed and written out as text.

use vstd::prelude::*;
use vstd::string::StringExecFns;
use vstd::utf8::encode_utf8;
use crate::header::with_entry;
use crate::header::Header;
use crate::header::HeaderMap;
use crate::http_version::HttpVersion;
use crate::status_code::StatusCode;
use crate::text::decimal;
use crate::text::decimal_string;

verus! {

/// A response.
#[derive(Debug)]
pub struct Response {
    pub http_version: HttpVersion,
    pub status_code: StatusCode,
    pub headers: HeaderMap,
    pub body: Option<String>,
}

/// What a response holds.
pub struct ResponseView {
    pub version: HttpVersion,
    pub status: StatusCode,
    pub headers: Seq<(Header, Seq<char>)>,
    pub body: Option<Seq<char>>,
}

impl View for Response {
    type V = ResponseView;

    open spec fn view(&self) -> ResponseView {
        ResponseView {
            version: self.http_version,
            status: self.status_code,
            headers: self.headers@,
            body: match self.body {
                Some(text) => Some(text@),
                None => None,
            },
        }
    }
}

/// The text of a body; empty where there is none.
pub open spec fn body_text(body: Option<Seq<char>>) -> Seq<char> {
    match body {
        Some(text) => text,
        None => Seq::empty(),
    }
}

/// The number of bytes that a body takes on the wire.
pub open spec fn content_length(body: Option<Seq<char>>) -> nat {
    encode_utf8(body_text(body)).len()
}

/// The header lines of a response: for each header, in order, its name,
/// `": "`, its value and a line break.
pub open spec fn header_lines(headers: Seq<(Header, Seq<char>)>) -> Seq<char>
    decreases headers.len(),
{
    if headers.len() == 0 {
        Seq::empty()
    } else {
        header_lines(headers.drop_last()) + headers.last().0.name() + ": "@ + headers.last().1
            + "\r\n"@
    }
}

/// A response as it is written on the wire: the status line, the header
/// lines, an empty line and the body.
pub open spec fn wire_text(response: ResponseView) -> Seq<char> {
    response.version.text() + " "@ + response.status.text() + "\r\n"@ + header_lines(
        response.headers,
    ) + "\r\n"@ + body_text(response.body)
}

/// A response with its `Content-Length` set to the length of its body,
/// whatever it was set to before.
pub open spec fn finalized(response: ResponseView) -> ResponseView {
    ResponseView {
        headers: with_entry(
            response.headers,
            Header::ContentLength,
            decimal(content_length(response.body)),
        ),
        ..response
    }
}

impl Response {
    /// Sets `Content-Length` to the length of the body.
    pub fn finalize(&mut self)
        ensures
            final(self)@ == finalized(old(self)@),
    {
        let length = match &self.body {
            Some(text) => text.as_str().as_bytes().len(),
            None => 0,
        };
        self.headers.insert(Header::ContentLength, decimal_string(length));
    }

    /// Writes the response out as it stands.
    pub fn to_text(&self) -> (r: String)
        ensures
            r@ == wire_text(self@),
    {
        let mut out = String::from_str(self.http_version.as_str());
        out.append(" ");
        out.append(self.status_code.to_string().as_str());
        out.append("\r\n");
        let ghost start = out@;
        let n = self.headers.len();
        let mut i: usize = 0;
        while i < n
            invariant
                i <= n,
                n == self.headers@.len(),
                out@ == start + header_lines(self.headers@.subrange(0, i as int)),
            decreases n - i,
        {
            let (name, value) = self.headers.entry(i);
            assert(self.headers@.subrange(0, i + 1).drop_last() =~= self.headers@.subrange(
                0,
                i as int,
            ));
            out.append(name.as_str());
            out.append(": ");
            out.append(value.as_str());
            out.append("\r\n");
            i += 1;
        }
        assert(self.headers@.subrange(0, n as int) =~= self.headers@);
        out.append("\r\n");
        match &self.body {
            Some(text) => {
                out.append(text.as_str());
            },
            None => {},
        }
        out
    }

    /// Completes the response and writes it out: `Content-Length` is set to
    /// the length of the body first.
    pub fn finalize_and_encode(&mut self) -> (r: String)
        ensures
            final(self)@ == finalized(old(self)@),
            r@ == wire_text(finalized(old(self)@)),
    {
        self.finalize();
        self.to_text()
    }
}

/// The kinds of body that a response can carry.
#[derive(PartialEq, Eq, Structural, Debug, Clone, Copy)]
pub enum BodyKind {
    Json,
    Html,
    Text,
}

impl BodyKind {
    /// The media type of the kind.
    pub open spec fn media_type(self) -> Seq<char> {
        match self {
            BodyKind::Html => "text/html"@,
            BodyKind::Json => "application/json"@,
            BodyKind::Text => "text/plain"@,
        }
    }

    /// The media type of the kind, as `Content-Type` tells it.
    pub fn content_type(&self) -> (r: &'static str)
        ensures
            r@ == self.media_type(),
    {
        match self {
            BodyKind::Html => "text/html",
            BodyKind::Json => "application/json",
            BodyKind::Text => "text/plain",
        }
    }
}

/// Builds a response step by step. What is left unset takes its default:
/// HTTP/1.1, status 200, no headers and no body.
pub struct ResponseBuilder {
    http_version: Option<HttpVersion>,
    status_code: Option<StatusCode>,
    headers: HeaderMap,
    body: Option<String>,
}

/// What a builder holds.
pub struct BuilderView {
    pub version: Option<HttpVersion>,
    pub status: Option<StatusCode>,
    pub headers: Seq<(Header, Seq<char>)>,
    pub body: Option<Seq<char>>,
}

impl BuilderView {
    /// The response that the builder stands for.
    pub open spec fn built(self) -> ResponseView {
        ResponseView {
            version: match self.version {
                Some(v) => v,
                None => HttpVersion::HTTP1_1,
            },
            status: match self.status {
                Some(s) => s,
                None => StatusCode::OK,
            },
            headers: self.headers,
            body: self.body,
        }
    }
}

impl View for ResponseBuilder {
    type V = BuilderView;

    closed spec fn view(&self) -> BuilderView {
        BuilderView {
            version: self.http_version,
            status: self.status_code,
            headers: self.headers@,
            body: match self.body {
                Some(text) => Some(text@),
                None => None,
            },
        }
    }
}

impl ResponseBuilder {
    /// A builder with nothing set.
    pub fn new() -> (r: ResponseBuilder)
        ensures
            r@ == (BuilderView { version: None, status: None, headers: Seq::empty(), body: None }),
    {
        ResponseBuilder { http_version: None, status_code: None, headers: HeaderMap::new(), body: None }
    }

    /// Sets the protocol version.
    pub fn with_http_version(self, http_version: HttpVersion) -> (r: ResponseBuilder)
        ensures
            r@ == (BuilderView { version: Some(http_version), ..self@ }),
    {
        let mut r = self;
        r.http_version = Some(http_version);
        r
    }

    /// Sets the status.
    pub fn with_status_code(self, status_code: StatusCode) -> (r: ResponseBuilder)
        ensures
            r@ == (BuilderView { status: Some(status_code), ..self@ }),
    {
        let mut r = self;
        r.status_code = Some(status_code);
        r
    }

    /// Sets the header `name` to `value`.
    pub fn append_header(self, name: Header, value: &str) -> (r: ResponseBuilder)
        ensures
            r@ == (BuilderView { headers: with_entry(self@.headers, name, value@), ..self@ }),
    {
        let mut r = self;
        r.headers.insert(name, String::from_str(value));
        r
    }

    /// Sets the body, and `Content-Type` to the media type of its kind.
    pub fn with_body(self, body: &str, kind: BodyKind) -> (r: ResponseBuilder)
        ensures
            r@ == (BuilderView {
                body: Some(body@),
                headers: with_entry(self@.headers, Header::ContentType, kind.media_type()),
                ..self@
            }),
    {
        let mut r = self;
        r.body = Some(String::from_str(body));
        r.headers.insert(Header::ContentType, String::from_str(kind.content_type()));
        r
    }

    /// The response that was built.
    pub fn build(self) -> (r: Response)
        ensures
            r@ == self@.built(),
    {
        Response {
            http_version: match self.http_version {
                Some(v) => v,
                None => HttpVersion::HTTP1_1,
            },
            status_code: match self.status_code {
                Some(s) => s,
                None => StatusCode::OK,
            },
            headers: self.headers,
            body: self.body,
        }
    }
}

/// What can be sent as a response.
pub trait IntoResponse: Sized {
    /// The response that the value stands for.
    spec fn response(self) -> ResponseView;

    /// Turns the value into its response.
    fn into_response(self) -> (r: Response)
        ensures
            r@ == self.response(),
    ;
}

/// The response that carries nothing but a status.
pub open spec fn status_response(status: StatusCode) -> ResponseView {
    ResponseView { version: HttpVersion::HTTP1_1, status, headers: Seq::empty(), body: None }
}

/// The response that carries a plain text with status 200.
pub open spec fn text_response(text: Seq<char>) -> ResponseView {
    ResponseView {
        version: HttpVersion::HTTP1_1,
        status: StatusCode::OK,
        headers: seq![(Header::ContentType, BodyKind::Text.media_type())],
        body: Some(text),
    }
}

impl IntoResponse for Response {
    open spec fn response(self) -> ResponseView {
        self@
    }

    fn into_response(self) -> (r: Response) {
        self
    }
}

impl IntoResponse for StatusCode {
    open spec fn response(self) -> ResponseView {
        status_response(self)
    }

    fn into_response(self) -> (r: Response) {
        ResponseBuilder::new().with_status_code(self).build()
    }
}

impl<'a> IntoResponse for &'a str {
    open spec fn response(self) -> ResponseView {
        text_response(self@)
    }

    fn into_response(self) -> (r: Response) {
        ResponseBuilder::new().with_body(self, BodyKind::Text).build()
    }
}

impl IntoResponse for String {
    open spec fn response(self) -> ResponseView {
        text_response(self@)
    }

    fn into_response(self) -> (r: Response) {
        self.as_str().into_response()
    }
}

impl<E: IntoResponse, F: IntoResponse> IntoResponse for Result<E, F> {
    open spec fn response(self) -> ResponseView {
        match self {
            Ok(value) => value.response(),
            Err(error) => error.response(),
        }
    }

    fn into_response(self) -> (r: Response) {
        match self {
            Ok(value) => value.into_response(),
            Err(error) => error.into_response(),
        }
    }
}

} // verus!
