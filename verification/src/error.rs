//! Failures, and the status that each one is answered with.

use vstd::prelude::*;
use vstd::string::StringExecFns;
use crate::response::status_response;
use crate::response::IntoResponse;
use crate::response::Response;
use crate::response::ResponseView;
use crate::status_code::StatusCode;

verus! {

/// A failure of the server itself.
#[derive(PartialEq, Eq, Structural, Debug, Clone, Copy)]
pub enum Error {
    /// An incoming connection could not be accepted.
    TcpStreamError,
}

/// A failure to read or validate a request.
#[derive(PartialEq, Eq, Structural, Debug, Clone, Copy)]
pub enum HttpError {
    /// A handler asked for a body and there was none.
    MissingBytesBody,
    /// A handler asked for a text body and there was none.
    MissingStringBody,
    /// A part of the query holds no `=`, or is not text.
    InvalidQuery,
    /// The request line does not consist of three fields, or its target is
    /// not text.
    MalformedRequestLine,
    /// The request line names no known method.
    UnsupportedMethod,
    /// The request line names no supported protocol version.
    UnsupportedVersion,
    /// A header line holds no `": "`, or is not text.
    MalformedHeader,
    /// A request that carries a body has no `content-length`.
    LengthMissing,
    /// The `content-length` is not a length.
    InvalidLength,
    /// A request that carries a body has no `content-type`.
    ContentTypeMissing,
    /// The body is shorter than the `content-length` announces.
    InvalidBytesBody,
    /// The body was required to be text and is not.
    InvalidStringBody,
    /// The address of the peer is not available.
    GetPeerAddrError,
}

/// How loudly a failure is logged.
#[derive(PartialEq, Eq, Structural, Debug, Clone, Copy)]
pub enum Severity {
    Warning,
    Error,
}

impl Severity {
    /// The tag that a log line of this severity begins with.
    pub open spec fn tag(self) -> Seq<char> {
        match self {
            Severity::Warning => "[WARN]"@,
            Severity::Error => "[ERROR]"@,
        }
    }

    /// The tag that a log line of this severity begins with.
    pub fn as_str(&self) -> (r: &'static str)
        ensures
            r@ == self.tag(),
    {
        match self {
            Severity::Warning => "[WARN]",
            Severity::Error => "[ERROR]",
        }
    }
}

impl HttpError {
    /// The status that answers the failure.
    pub open spec fn spec_status_code(&self) -> StatusCode {
        match self {
            HttpError::MissingBytesBody => StatusCode::BadRequest,
            HttpError::MissingStringBody => StatusCode::BadRequest,
            HttpError::InvalidQuery => StatusCode::BadRequest,
            HttpError::MalformedRequestLine => StatusCode::BadRequest,
            HttpError::UnsupportedMethod => StatusCode::BadRequest,
            HttpError::UnsupportedVersion => StatusCode::BadRequest,
            HttpError::MalformedHeader => StatusCode::BadRequest,
            HttpError::LengthMissing => StatusCode::LengthRequired,
            HttpError::InvalidLength => StatusCode::LengthRequired,
            HttpError::ContentTypeMissing => StatusCode::UnsupportedMediaType,
            HttpError::InvalidBytesBody => StatusCode::UnsupportedMediaType,
            HttpError::InvalidStringBody => StatusCode::UnsupportedMediaType,
            HttpError::GetPeerAddrError => StatusCode::InternalServerError,
        }
    }

    /// The severity that the failure is logged with: an error where the
    /// transport failed, a warning where the request is at fault.
    pub open spec fn spec_severity(&self) -> Severity {
        match self {
            HttpError::GetPeerAddrError => Severity::Error,
            _ => Severity::Warning,
        }
    }

    /// The status that answers the failure.
    #[verifier::when_used_as_spec(spec_status_code)]
    pub fn status_code(&self) -> (r: StatusCode)
        ensures
            r == self.spec_status_code(),
    {
        match self {
            HttpError::MissingBytesBody
            | HttpError::MissingStringBody
            | HttpError::InvalidQuery
            | HttpError::MalformedRequestLine
            | HttpError::UnsupportedMethod
            | HttpError::UnsupportedVersion
            | HttpError::MalformedHeader => StatusCode::BadRequest,
            HttpError::LengthMissing | HttpError::InvalidLength => StatusCode::LengthRequired,
            HttpError::ContentTypeMissing
            | HttpError::InvalidBytesBody
            | HttpError::InvalidStringBody => StatusCode::UnsupportedMediaType,
            HttpError::GetPeerAddrError => StatusCode::InternalServerError,
        }
    }

    /// The severity that the failure is logged with.
    #[verifier::when_used_as_spec(spec_severity)]
    pub fn severity(&self) -> (r: Severity)
        ensures
            r == self.spec_severity(),
    {
        match self {
            HttpError::GetPeerAddrError => Severity::Error,
            _ => Severity::Warning,
        }
    }

    /// What the log says of the failure.
    pub open spec fn spec_message(&self) -> Seq<char> {
        match self {
            HttpError::MissingBytesBody => "Missing bytes body"@,
            HttpError::MissingStringBody => "Missing String body"@,
            HttpError::InvalidQuery => "Invalid query"@,
            HttpError::MalformedRequestLine => "Malformed request line"@,
            HttpError::UnsupportedMethod => "Unsupported method"@,
            HttpError::UnsupportedVersion => "Unsupported version"@,
            HttpError::MalformedHeader => "Malformed header"@,
            HttpError::LengthMissing => "Length missing"@,
            HttpError::InvalidLength => "Invalid length"@,
            HttpError::ContentTypeMissing => "Content-Type header missing"@,
            HttpError::InvalidBytesBody => "Invalid bytes body"@,
            HttpError::InvalidStringBody => "Invalid String body"@,
            HttpError::GetPeerAddrError => "Get peer addr error"@,
        }
    }

    /// What the log says of the failure.
    pub fn message(&self) -> (r: &'static str)
        ensures
            r@ == self.spec_message(),
    {
        match self {
            HttpError::MissingBytesBody => "Missing bytes body",
            HttpError::MissingStringBody => "Missing String body",
            HttpError::InvalidQuery => "Invalid query",
            HttpError::MalformedRequestLine => "Malformed request line",
            HttpError::UnsupportedMethod => "Unsupported method",
            HttpError::UnsupportedVersion => "Unsupported version",
            HttpError::MalformedHeader => "Malformed header",
            HttpError::LengthMissing => "Length missing",
            HttpError::InvalidLength => "Invalid length",
            HttpError::ContentTypeMissing => "Content-Type header missing",
            HttpError::InvalidBytesBody => "Invalid bytes body",
            HttpError::InvalidStringBody => "Invalid String body",
            HttpError::GetPeerAddrError => "Get peer addr error",
        }
    }

    /// The line that is logged for the failure: the tag of its severity, a
    /// space, and its message.
    pub fn log_line(&self) -> (r: String)
        ensures
            r@ == self.severity().tag() + " "@ + self.spec_message(),
    {
        let mut line = String::from_str(self.severity().as_str());
        line.append(" ");
        line.append(self.message());
        line
    }

    /// The text of the failure.
    pub fn to_string(&self) -> (r: String)
        ensures
            r@ == self.spec_message(),
    {
        String::from_str(self.message())
    }
}

impl IntoResponse for HttpError {
    /// A failure is answered with its status and nothing else.
    open spec fn response(self) -> ResponseView {
        status_response(self.status_code())
    }

    fn into_response(self) -> (r: Response) {
        self.status_code().into_response()
    }
}

/// Every failure is answered with one of the statuses of a faulty request
/// or of a failed server, and only a failure of the transport is logged as
/// an error.
pub proof fn lemma_every_failure_has_a_status(e: HttpError)
    ensures
        e.status_code().code() == 400 || e.status_code().code() == 411 || e.status_code().code()
            == 415 || e.status_code().code() == 500,
        e.response().status == e.status_code(),
        e.severity() == Severity::Error <==> e.status_code().code() == 500,
{
}

} // verus!
