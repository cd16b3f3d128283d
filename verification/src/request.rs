//! Requests, and how one is read from the bytes of a connection.

use vstd::prelude::*;
use vstd::slice::slice_subrange;
use vstd::slice::slice_to_vec;
use vstd::utf8::decode_utf8;
use vstd::utf8::valid_utf8;
use crate::body::body_of;
use crate::body::Body;
use crate::body::BodyTrait;
use crate::body::BodyView;
use crate::error::HttpError;
use crate::header::Headers;
use crate::header::TextMap;
use crate::header::CONTENT_LENGTH;
use crate::header::CONTENT_TYPE;
use crate::http_version::HttpVersion;
use crate::method::Method;
use crate::text::as_text;
use vstd::utf8::is_ascii_chars;
use crate::text::ascii_lower;
use crate::text::lowercase;
use crate::text::decode;
use crate::text::parse_length;
use crate::text::read_length;
use crate::wire::find_byte;
use crate::wire::find_separator;
use crate::wire::index_of;
use crate::wire::index_of_separator;
use crate::wire::is_blank;
use crate::wire::lemma_index_of_bounds;
use crate::wire::lemma_line_end_bounds;
use crate::wire::line_end;
use crate::wire::next_line;
use crate::wire::trim;
use crate::wire::trimmed;
use crate::wire::AMPERSAND;
use crate::wire::EQUALS_SIGN;
use crate::wire::QUESTION_MARK;
use crate::wire::SPACE;

verus! {

/// The address of the peer of a connection.
#[allow(inconsistent_fields)]
#[derive(Debug, Clone, Copy)]
pub enum PeerAddr {
    V4 { octets: [u8; 4], port: u16 },
    V6 { octets: [u8; 16], port: u16 },
}

/// The three fields of a request line: it holds exactly two spaces, and the
/// fields are what stands before, between and after them.
pub open spec fn request_line_fields(line: Seq<u8>) -> Option<(Seq<u8>, Seq<u8>, Seq<u8>)> {
    let a = index_of(line, SPACE, 0);
    let b = index_of(line, SPACE, a + 1);
    if a < line.len() && b < line.len() && index_of(line, SPACE, b + 1) == line.len() {
        Some((line.subrange(0, a), line.subrange(a + 1, b), line.subrange(b + 1, line.len() as int)))
    } else {
        None
    }
}

/// The path of a request target: what stands before its first `?`.
pub open spec fn target_path(target: Seq<u8>) -> Seq<u8> {
    target.subrange(0, index_of(target, QUESTION_MARK, 0))
}

/// The query of a request target: what follows its first `?`, if it has one.
pub open spec fn target_query(target: Seq<u8>) -> Option<Seq<u8>> {
    let q = index_of(target, QUESTION_MARK, 0);
    if q < target.len() {
        Some(target.subrange(q + 1, target.len() as int))
    } else {
        None
    }
}

/// A key and a value as text, where both are valid UTF-8.
pub open spec fn text_pair(key: Seq<u8>, value: Seq<u8>) -> Option<(Seq<char>, Seq<char>)> {
    if valid_utf8(key) && valid_utf8(value) {
        Some((decode_utf8(key), decode_utf8(value)))
    } else {
        None
    }
}

/// One part of a query: a key, the first `=`, and a value.
pub open spec fn query_entry(part: Seq<u8>) -> Option<(Seq<char>, Seq<char>)> {
    let i = index_of(part, EQUALS_SIGN, 0);
    if i < part.len() {
        text_pair(part.subrange(0, i), part.subrange(i + 1, part.len() as int))
    } else {
        None
    }
}

/// The query parameters that `query[from..]` adds to `found`: its parts are
/// separated by `&` and read from left to right, a later value replacing an
/// earlier one. `None` where a part is no entry.
pub open spec fn query_from(query: Seq<u8>, from: int, found: Map<Seq<char>, Seq<char>>) -> Option<
    Map<Seq<char>, Seq<char>>,
>
    decreases query.len() - from,
    when 0 <= from <= query.len()
{
    let end = index_of(query, AMPERSAND, from);
    match query_entry(query.subrange(from, end)) {
        None => None,
        Some((key, value)) => if end < query.len() {
            proof {
                lemma_index_of_bounds(query, AMPERSAND, from);
            }
            query_from(query, end + 1, found.insert(key, value))
        } else {
            Some(found.insert(key, value))
        },
    }
}

/// The query parameters of a request target; none where it has no query.
pub open spec fn query_of(target: Seq<u8>) -> Option<Map<Seq<char>, Seq<char>>> {
    match target_query(target) {
        None => Some(Map::empty()),
        Some(query) => query_from(query, 0, Map::empty()),
    }
}

/// One header line: a name, the first `": "`, and a value. The name is
/// folded to its lowercase form.
pub open spec fn header_entry(line: Seq<u8>) -> Option<(Seq<char>, Seq<char>)> {
    let i = index_of_separator(line, 0);
    if i < line.len() {
        match text_pair(line.subrange(0, i), line.subrange(i + 2, line.len() as int)) {
            Some((name, value)) => Some((lowercase(name), value)),
            None => None,
        }
    } else {
        None
    }
}

/// The headers that the lines of `wire[from..]` add to `found`, up to the
/// first blank line or the end of the input: the lines are read in order, a
/// later value replacing an earlier one. `None` where a line is no entry.
pub open spec fn headers_from(wire: Seq<u8>, from: int, found: Map<Seq<char>, Seq<char>>) -> Option<
    Map<Seq<char>, Seq<char>>,
>
    decreases wire.len() - from,
    when 0 <= from <= wire.len()
{
    let end = line_end(wire, from);
    if from == wire.len() || is_blank(wire.subrange(from, end)) {
        Some(found)
    } else {
        proof {
            lemma_line_end_bounds(wire, from);
        }
        match header_entry(trim(wire.subrange(from, end))) {
            None => None,
            Some((name, value)) => headers_from(wire, end, found.insert(name, value)),
        }
    }
}

/// Where the body begins: after the first blank line at or after `from`, or
/// at the end of the input where there is none.
pub open spec fn body_start_from(wire: Seq<u8>, from: int) -> int
    decreases wire.len() - from,
    when 0 <= from <= wire.len()
{
    let end = line_end(wire, from);
    if from == wire.len() || is_blank(wire.subrange(from, end)) {
        end
    } else {
        proof {
            lemma_line_end_bounds(wire, from);
        }
        body_start_from(wire, end)
    }
}

/// The length of the body that a request announces. A `GET` request has no
/// body; every other request must name a content type and a length.
pub open spec fn announced_length(method: Method, headers: Map<Seq<char>, Seq<char>>) -> Result<
    usize,
    HttpError,
> {
    if method == Method::Get {
        Ok(0usize)
    } else if !headers.contains_key(CONTENT_TYPE@) {
        Err(HttpError::ContentTypeMissing)
    } else if !headers.contains_key(CONTENT_LENGTH@) {
        Err(HttpError::LengthMissing)
    } else {
        match parse_length(headers[CONTENT_LENGTH@]) {
            None => Err(HttpError::InvalidLength),
            Some(n) => Ok(n),
        }
    }
}

/// What the head of a request holds.
pub struct HeadView {
    pub method: Method,
    pub uri: Seq<char>,
    pub query: Map<Seq<char>, Seq<char>>,
    pub version: HttpVersion,
    pub headers: Map<Seq<char>, Seq<char>>,
    pub body_start: int,
}

/// The head that the bytes of a connection begin with: a request line, then
/// header lines up to a blank line. The first fault found, in the order of
/// the input, decides the error. The headers are not yet checked for what
/// they announce.
pub open spec fn head_of(wire: Seq<u8>) -> Result<HeadView, HttpError> {
    let first = line_end(wire, 0);
    match request_line_fields(trim(wire.subrange(0, first))) {
        None => Err(HttpError::MalformedRequestLine),
        Some((method, target, version)) => {
            if !valid_utf8(method) || Method::named(decode_utf8(method)) is None {
                Err(HttpError::UnsupportedMethod)
            } else if !valid_utf8(version) || HttpVersion::named(decode_utf8(version)) is None {
                Err(HttpError::UnsupportedVersion)
            } else if !valid_utf8(target_path(target)) {
                Err(HttpError::MalformedRequestLine)
            } else {
                match query_of(target) {
                    None => Err(HttpError::InvalidQuery),
                    Some(query) => match headers_from(wire, first, Map::empty()) {
                        None => Err(HttpError::MalformedHeader),
                        Some(headers) => Ok(
                            HeadView {
                                method: Method::named(decode_utf8(method))->0,
                                uri: decode_utf8(target_path(target)),
                                query,
                                version: HttpVersion::named(decode_utf8(version))->0,
                                headers,
                                body_start: body_start_from(wire, first),
                            },
                        ),
                    },
                }
            }
        },
    }
}

/// Splits a request line into its three fields.
pub fn parse_request_line(line: &[u8]) -> (r: Option<(&[u8], &[u8], &[u8])>)
    ensures
        match request_line_fields(line@) {
            Some((method, target, version)) => r matches Some(f) && f.0@ == method && f.1@
                == target && f.2@ == version,
            None => r is None,
        },
{
    let a = find_byte(line, SPACE, 0);
    if a == line.len() {
        return None;
    }
    let b = find_byte(line, SPACE, a + 1);
    if b == line.len() {
        return None;
    }
    if find_byte(line, SPACE, b + 1) != line.len() {
        return None;
    }
    Some(
        (
            slice_subrange(line, 0, a),
            slice_subrange(line, a + 1, b),
            slice_subrange(line, b + 1, line.len()),
        ),
    )
}

/// Reads one `key=value` part of a query.
fn parse_query_entry(part: &[u8]) -> (r: Option<(String, String)>)
    ensures
        match query_entry(part@) {
            Some((key, value)) => r matches Some(e) && e.0@ == key && e.1@ == value,
            None => r is None,
        },
{
    let i = find_byte(part, EQUALS_SIGN, 0);
    if i == part.len() {
        return None;
    }
    let key = decode(slice_subrange(part, 0, i));
    let value = decode(slice_subrange(part, i + 1, part.len()));
    match (key, value) {
        (Some(k), Some(v)) => Some((k, v)),
        _ => None,
    }
}

/// Reads the query parameters of a request target.
pub fn parse_query_from_uri(target: &[u8]) -> (r: Option<TextMap>)
    ensures
        match query_of(target@) {
            Some(query) => r matches Some(m) && m@ == query,
            None => r is None,
        },
{
    let mut found = TextMap::new();
    let q = find_byte(target, QUESTION_MARK, 0);
    if q == target.len() {
        return Some(found);
    }
    let query = slice_subrange(target, q + 1, target.len());
    let mut from: usize = 0;
    loop
        invariant
            from <= query.len(),
            query_of(target@) == query_from(query@, from as int, found@),
        decreases query.len() - from,
    {
        let end = find_byte(query, AMPERSAND, from);
        match parse_query_entry(slice_subrange(query, from, end)) {
            None => {
                return None;
            },
            Some((key, value)) => {
                found.insert(key, value);
            },
        }
        if end == query.len() {
            return Some(found);
        }
        from = end + 1;
    }
}

/// Reads one `name: value` header line.
fn parse_header_entry(line: &[u8]) -> (r: Option<(&str, String)>)
    ensures
        match header_entry(line@) {
            Some((name, value)) => r matches Some(e) && lowercase(e.0@) == name && e.1@
                == value,
            None => r is None,
        },
{
    let i = find_separator(line);
    if i == line.len() {
        return None;
    }
    let name = as_text(slice_subrange(line, 0, i));
    let value = decode(slice_subrange(line, i + 2, line.len()));
    match (name, value) {
        (Some(n), Some(v)) => Some((n, v)),
        _ => None,
    }
}

/// Reads the header lines that start at `from`, and finds where the body
/// begins.
pub fn parse_headers(wire: &[u8], from: usize) -> (r: Option<(Headers, usize)>)
    requires
        from <= wire.len(),
    ensures
        match headers_from(wire@, from as int, Map::empty()) {
            Some(headers) => r matches Some(h) && h.0@ == headers && h.1 == body_start_from(
                wire@,
                from as int,
            ) && h.1 <= wire.len(),
            None => r is None,
        },
{
    let mut found = Headers::new();
    let mut at: usize = from;
    loop
        invariant
            from <= at <= wire.len(),
            headers_from(wire@, from as int, Map::empty()) == headers_from(
                wire@,
                at as int,
                found@,
            ),
            body_start_from(wire@, from as int) == body_start_from(wire@, at as int),
        decreases wire.len() - at,
    {
        let end = next_line(wire, at);
        if at == wire.len() {
            return Some((found, end));
        }
        let line = trimmed(slice_subrange(wire, at, end));
        if line.len() == 0 {
            return Some((found, end));
        }
        match parse_header_entry(line) {
            None => {
                return None;
            },
            Some((name, value)) => {
                found.insert(name, value);
            },
        }
        at = end;
    }
}

/// Finds the length of the body that a request announces.
pub fn read_announced_length(method: Method, headers: &Headers) -> (r: Result<usize, HttpError>)
    ensures
        r == announced_length(method, headers@),
{
    proof {
        lemma_header_names_are_folded();
    }
    if method == Method::Get {
        return Ok(0);
    }
    if !headers.contains(CONTENT_TYPE) {
        return Err(HttpError::ContentTypeMissing);
    }
    match headers.get(CONTENT_LENGTH) {
        None => Err(HttpError::LengthMissing),
        Some(value) => match read_length(value.as_str()) {
            None => Err(HttpError::InvalidLength),
            Some(n) => Ok(n),
        },
    }
}

/// The names of the two headers that announce a body are ASCII text in
/// lowercase.
pub proof fn lemma_header_names_are_folded()
    ensures
        is_ascii_chars(CONTENT_TYPE@),
        is_ascii_chars(CONTENT_LENGTH@),
        ascii_lower(CONTENT_TYPE@) == CONTENT_TYPE@,
        ascii_lower(CONTENT_LENGTH@) == CONTENT_LENGTH@,
{
    reveal_strlit("content-type");
    reveal_strlit("content-length");
    assert(ascii_lower(CONTENT_TYPE@) =~= CONTENT_TYPE@);
    assert(ascii_lower(CONTENT_LENGTH@) =~= CONTENT_LENGTH@);
}

/// The head of a request: its request line and headers, read and checked,
/// with the length of the body that is still to come.
pub struct Head {
    method: Method,
    uri: String,
    query: TextMap,
    http_version: HttpVersion,
    headers: Headers,
    body_len: usize,
    body_start: usize,
}

impl View for Head {
    type V = HeadView;

    closed spec fn view(&self) -> HeadView {
        HeadView {
            method: self.method,
            uri: self.uri@,
            query: self.query@,
            version: self.http_version,
            headers: self.headers@,
            body_start: self.body_start as int,
        }
    }
}

/// The head of a request together with the length of the body that it
/// announces; the error where the head is faulty or announces no valid body.
pub open spec fn checked_head_of(wire: Seq<u8>) -> Result<(HeadView, usize), HttpError> {
    match head_of(wire) {
        Err(e) => Err(e),
        Ok(head) => match announced_length(head.method, head.headers) {
            Err(e) => Err(e),
            Ok(n) => Ok((head, n)),
        },
    }
}

impl Head {
    /// The number of body bytes that the head announces.
    pub closed spec fn spec_body_len(&self) -> usize {
        self.body_len
    }

    /// Reads and checks the head that `wire` begins with.
    pub fn parse(wire: &[u8]) -> (r: Result<Head, HttpError>)
        ensures
            match checked_head_of(wire@) {
                Ok((head, n)) => r matches Ok(h) && h@ == head && h.spec_body_len() == n
                    && head.body_start <= wire@.len(),
                Err(e) => r matches Err(x) && x == e,
            },
    {
        let first = next_line(wire, 0);
        let (method, target, version) = match parse_request_line(
            trimmed(slice_subrange(wire, 0, first)),
        ) {
            None => {
                return Err(HttpError::MalformedRequestLine);
            },
            Some(fields) => fields,
        };
        let method = match as_text(method) {
            None => {
                return Err(HttpError::UnsupportedMethod);
            },
            Some(token) => match Method::try_parse(token) {
                None => {
                    return Err(HttpError::UnsupportedMethod);
                },
                Some(m) => m,
            },
        };
        let http_version = match as_text(version) {
            None => {
                return Err(HttpError::UnsupportedVersion);
            },
            Some(token) => match HttpVersion::parse(token) {
                None => {
                    return Err(HttpError::UnsupportedVersion);
                },
                Some(v) => v,
            },
        };
        let q = find_byte(target, QUESTION_MARK, 0);
        let uri = match decode(slice_subrange(target, 0, q)) {
            None => {
                return Err(HttpError::MalformedRequestLine);
            },
            Some(path) => path,
        };
        let query = match parse_query_from_uri(target) {
            None => {
                return Err(HttpError::InvalidQuery);
            },
            Some(query) => query,
        };
        let (headers, body_start) = match parse_headers(wire, first) {
            None => {
                return Err(HttpError::MalformedHeader);
            },
            Some(found) => found,
        };
        let body_len = read_announced_length(method, &headers)?;
        Ok(Head { method, uri, query, http_version, headers, body_len, body_start })
    }

    /// The method of the request.
    pub fn method(&self) -> (r: Method)
        ensures
            r == self@.method,
    {
        self.method
    }

    /// The number of body bytes that the head announces.
    #[verifier::when_used_as_spec(spec_body_len)]
    pub fn body_len(&self) -> (r: usize)
        ensures
            r == self.spec_body_len(),
    {
        self.body_len
    }

    /// Where the body begins in the bytes that the head was read from.
    pub fn body_start(&self) -> (r: usize)
        ensures
            r == self@.body_start,
    {
        self.body_start
    }
}

/// What a request holds, apart from the application state.
pub struct RequestView {
    pub peer_addr: PeerAddr,
    pub method: Method,
    pub uri: Seq<char>,
    pub query: Map<Seq<char>, Seq<char>>,
    pub version: HttpVersion,
    pub headers: Map<Seq<char>, Seq<char>>,
    pub body: BodyView,
}

/// The request that a head and the bytes that follow it make. A `GET`
/// request has no body, whatever follows its head. Any other request takes
/// exactly the announced number of bytes, and fails where fewer follow.
pub open spec fn request_with_body(
    peer_addr: PeerAddr,
    head: HeadView,
    body_len: usize,
    rest: Seq<u8>,
) -> Result<RequestView, HttpError> {
    if head.method != Method::Get && rest.len() < body_len {
        Err(HttpError::InvalidBytesBody)
    } else {
        Ok(
            RequestView {
                peer_addr,
                method: head.method,
                uri: head.uri,
                query: head.query,
                version: head.version,
                headers: head.headers,
                body: if head.method == Method::Get {
                    BodyView::Absent
                } else {
                    body_of(rest.subrange(0, body_len as int))
                },
            },
        )
    }
}

/// The request that the bytes of a connection hold. A connection whose peer
/// address is not available fails before anything is read.
pub open spec fn request_of(peer_addr: Option<PeerAddr>, wire: Seq<u8>) -> Result<
    RequestView,
    HttpError,
> {
    match peer_addr {
        None => Err(HttpError::GetPeerAddrError),
        Some(peer) => match checked_head_of(wire) {
            Err(e) => Err(e),
            Ok((head, body_len)) => request_with_body(
                peer,
                head,
                body_len,
                wire.subrange(head.body_start, wire.len() as int),
            ),
        },
    }
}

/// A request, with the application state that its handler may use.
pub struct Request<S> {
    peer_addr: PeerAddr,
    method: Method,
    uri: String,
    query: TextMap,
    http_version: HttpVersion,
    headers: Headers,
    body: Body,
    state: S,
}

impl<S> View for Request<S> {
    type V = RequestView;

    closed spec fn view(&self) -> RequestView {
        RequestView {
            peer_addr: self.peer_addr,
            method: self.method,
            uri: self.uri@,
            query: self.query@,
            version: self.http_version,
            headers: self.headers@,
            body: self.body@,
        }
    }
}

impl<S> Request<S> {
    /// The application state that the request carries.
    pub closed spec fn spec_state(&self) -> S {
        self.state
    }

    /// Reads a request from the bytes of a connection.
    pub fn parse(peer_addr: Option<PeerAddr>, wire: &[u8], state: S) -> (r: Result<
        Request<S>,
        HttpError,
    >)
        ensures
            match request_of(peer_addr, wire@) {
                Ok(request) => r matches Ok(x) && x@ == request && x.spec_state() == state,
                Err(e) => r matches Err(x) && x == e,
            },
            r matches Ok(x) ==> (x@.method == Method::Get ==> x@.body is Absent),
    {
        let peer = match peer_addr {
            None => {
                return Err(HttpError::GetPeerAddrError);
            },
            Some(peer) => peer,
        };
        let head = Head::parse(wire)?;
        let rest = slice_subrange(wire, head.body_start, wire.len());
        Request::from_head(peer, head, rest, state)
    }

    /// Completes a head with the bytes that follow it on the connection.
    pub fn from_head(peer_addr: PeerAddr, head: Head, rest: &[u8], state: S) -> (r: Result<
        Request<S>,
        HttpError,
    >)
        ensures
            match request_with_body(peer_addr, head@, head.spec_body_len(), rest@) {
                Ok(request) => r matches Ok(x) && x@ == request && x.spec_state() == state,
                Err(e) => r matches Err(x) && x == e,
            },
    {
        let body = if head.method == Method::Get {
            Body::Absent
        } else {
            Body::decode(Vec::<u8>::parse_request(rest, head.body_len)?)
        };
        Ok(
            Request {
                peer_addr,
                method: head.method,
                uri: head.uri,
                query: head.query,
                http_version: head.http_version,
                headers: head.headers,
                body,
                state,
            },
        )
    }

    /// The address of the peer.
    pub fn peer_addr(&self) -> (r: PeerAddr)
        ensures
            r == self@.peer_addr,
    {
        self.peer_addr
    }

    /// The method.
    pub fn method(&self) -> (r: &Method)
        ensures
            *r == self@.method,
    {
        &self.method
    }

    /// The path of the request target.
    pub fn uri(&self) -> (r: &str)
        ensures
            r@ == self@.uri,
    {
        self.uri.as_str()
    }

    /// The query parameters of the request target.
    pub fn query(&self) -> (r: &TextMap)
        ensures
            r@ == self@.query,
    {
        &self.query
    }

    /// The protocol version.
    pub fn http_version(&self) -> (r: &HttpVersion)
        ensures
            *r == self@.version,
    {
        &self.http_version
    }

    /// The headers.
    pub fn headers(&self) -> (r: &Headers)
        ensures
            r@ == self@.headers,
    {
        &self.headers
    }

    /// Takes the body out of the request, as the bytes it was received as.
    /// The request has no body afterwards.
    pub fn bytes_body(&mut self) -> (r: Option<Vec<u8>>)
        ensures
            match old(self)@.body.raw() {
                Some(bytes) => r matches Some(b) && b@ == bytes,
                None => r is None,
            },
            final(self)@ == (RequestView { body: BodyView::Absent, ..old(self)@ }),
            final(self).spec_state() == old(self).spec_state(),
    {
        let mut body = Body::Absent;
        core::mem::swap(&mut self.body, &mut body);
        match body {
            Body::Absent => None,
            Body::Bytes(bytes) => Some(bytes),
            Body::String(text) => Some(slice_to_vec(text.as_str().as_bytes())),
        }
    }

    /// Takes the body out of the request if it is text. A body that is not
    /// text stays in the request.
    pub fn string_body(&mut self) -> (r: Option<String>)
        ensures
            match old(self)@.body {
                BodyView::Text(text) => r matches Some(s) && s@ == text && final(self)@ == (
                RequestView { body: BodyView::Absent, ..old(self)@ }),
                _ => r is None && final(self)@ == old(self)@,
            },
            final(self).spec_state() == old(self).spec_state(),
    {
        let mut body = Body::Absent;
        core::mem::swap(&mut self.body, &mut body);
        match body {
            Body::String(text) => Some(text),
            other => {
                self.body = other;
                None
            },
        }
    }

    /// The application state.
    pub fn state(&self) -> (r: &S)
        ensures
            *r == self.spec_state(),
    {
        &self.state
    }
}

/// A `GET` request never has a body, whatever its headers announce and
/// whatever bytes follow its head.
pub proof fn lemma_get_has_no_body(peer_addr: Option<PeerAddr>, wire: Seq<u8>)
    ensures
        request_of(peer_addr, wire) matches Ok(request) ==> (request.method == Method::Get
            ==> request.body is Absent),
{
}

/// A request other than `GET` that names no content type is refused with
/// status 415. The head alone decides this: the bytes that follow it are
/// not looked at.
pub proof fn lemma_content_type_is_required(peer_addr: PeerAddr, wire: Seq<u8>)
    requires
        head_of(wire) matches Ok(head) && head.method != Method::Get && !head.headers.contains_key(
            CONTENT_TYPE@,
        ),
    ensures
        checked_head_of(wire) == Err::<(HeadView, usize), _>(HttpError::ContentTypeMissing),
        request_of(Some(peer_addr), wire) == Err::<RequestView, _>(HttpError::ContentTypeMissing),
        HttpError::ContentTypeMissing.status_code().code() == 415,
{
}

/// A request other than `GET` that names a content type and no length is
/// refused with status 411.
pub proof fn lemma_content_length_is_required(peer_addr: PeerAddr, wire: Seq<u8>)
    requires
        head_of(wire) matches Ok(head) && head.method != Method::Get && head.headers.contains_key(
            CONTENT_TYPE@,
        ) && !head.headers.contains_key(CONTENT_LENGTH@),
    ensures
        request_of(Some(peer_addr), wire) == Err::<RequestView, _>(HttpError::LengthMissing),
        HttpError::LengthMissing.status_code().code() == 411,
{
}

/// A request other than `GET` whose length is not a number is refused with
/// status 411.
pub proof fn lemma_content_length_is_a_number(peer_addr: PeerAddr, wire: Seq<u8>)
    requires
        head_of(wire) matches Ok(head) && head.method != Method::Get && head.headers.contains_key(
            CONTENT_TYPE@,
        ) && head.headers.contains_key(CONTENT_LENGTH@) && parse_length(
            head.headers[CONTENT_LENGTH@],
        ) is None,
    ensures
        request_of(Some(peer_addr), wire) == Err::<RequestView, _>(HttpError::InvalidLength),
        HttpError::InvalidLength.status_code().code() == 411,
{
}

/// A request other than `GET` that is followed by fewer bytes than it
/// announces is refused with status 415.
pub proof fn lemma_short_body_is_refused(peer_addr: PeerAddr, wire: Seq<u8>)
    requires
        checked_head_of(wire) matches Ok((head, body_len)) && head.method != Method::Get
            && wire.len() - head.body_start < body_len,
    ensures
        request_of(Some(peer_addr), wire) == Err::<RequestView, _>(HttpError::InvalidBytesBody),
        HttpError::InvalidBytesBody.status_code().code() == 415,
{
    lemma_line_end_bounds(wire, 0);
    lemma_body_start_bounds(wire, line_end(wire, 0));
}

/// The body begins inside the input or at its end.
pub proof fn lemma_body_start_bounds(wire: Seq<u8>, from: int)
    requires
        0 <= from <= wire.len(),
    ensures
        from <= body_start_from(wire, from) <= wire.len(),
    decreases wire.len() - from,
{
    lemma_line_end_bounds(wire, from);
    let end = line_end(wire, from);
    if from != wire.len() && !is_blank(wire.subrange(from, end)) {
        lemma_body_start_bounds(wire, end);
    }
}

} // verus!
