//! Header collections: the named text values of a request, looked up without
//! regard to letter case, and the headers that a response is sent with.

use vstd::prelude::*;
use vstd::hash_map::StringHashMap;
use vstd::string::StringExecFns;
use vstd::utf8::is_ascii_chars;
use crate::text::ascii_lower;
use crate::text::lowercase;
use crate::text::to_lower;

verus! {

/// The name of the header that tells the media type of the body.
pub const CONTENT_TYPE: &'static str = "content-type";

/// The name of the header that tells the length of the body.
pub const CONTENT_LENGTH: &'static str = "content-length";

/// A map from text keys to text values; a later value replaces an earlier
/// one under the same key.
pub struct TextMap {
    map: StringHashMap<String>,
}

impl View for TextMap {
    type V = Map<Seq<char>, Seq<char>>;

    closed spec fn view(&self) -> Map<Seq<char>, Seq<char>> {
        self.map@.map_values(|v: String| v@)
    }
}

impl TextMap {
    /// The empty map.
    pub fn new() -> (r: TextMap)
        ensures
            r@ == Map::<Seq<char>, Seq<char>>::empty(),
    {
        TextMap { map: StringHashMap::new() }
    }

    /// Binds `key` to `value`.
    pub fn insert(&mut self, key: String, value: String)
        ensures
            final(self)@ == old(self)@.insert(key@, value@),
    {
        self.map.insert(key, value);
    }

    /// The value bound to `key`.
    pub fn get(&self, key: &str) -> (r: Option<&String>)
        ensures
            r is Some <==> self@.contains_key(key@),
            r matches Some(v) ==> v@ == self@[key@],
    {
        self.map.get(key)
    }

    /// Whether a value is bound to `key`.
    pub fn contains_key(&self, key: &str) -> (r: bool)
        ensures
            r == self@.contains_key(key@),
    {
        self.map.contains_key(key)
    }

    /// The number of keys.
    pub fn len(&self) -> (r: usize)
        ensures
            r == self@.len(),
    {
        assert(self@.dom() =~= self.map@.dom());
        self.map.len()
    }
}

/// The headers of a request. A name is folded to lowercase when it is stored
/// and when it is looked up, so that lookup ignores letter case.
pub struct Headers {
    fields: TextMap,
}

impl View for Headers {
    type V = Map<Seq<char>, Seq<char>>;

    /// The values by lowercase name.
    closed spec fn view(&self) -> Map<Seq<char>, Seq<char>> {
        self.fields@
    }
}

impl Headers {
    /// No headers.
    pub fn new() -> (r: Headers)
        ensures
            r@ == Map::<Seq<char>, Seq<char>>::empty(),
    {
        Headers { fields: TextMap::new() }
    }

    /// Sets the header `name` to `value`, replacing a value set before under
    /// any spelling of the name. The value is kept under the lowercase form
    /// of the name, which for an ASCII name is the name with `'A'..='Z'`
    /// mapped to `'a'..='z'`.
    pub fn insert(&mut self, name: &str, value: String)
        ensures
            final(self)@ == old(self)@.insert(lowercase(name@), value@),
            is_ascii_chars(name@) ==> lowercase(name@) == ascii_lower(name@),
    {
        self.fields.insert(to_lower(name), value);
    }

    /// The value of the header `name`, in any spelling of the name.
    pub fn get(&self, name: &str) -> (r: Option<&String>)
        ensures
            r is Some <==> self@.contains_key(lowercase(name@)),
            r matches Some(v) ==> v@ == self@[lowercase(name@)],
            is_ascii_chars(name@) ==> lowercase(name@) == ascii_lower(name@),
    {
        let key = to_lower(name);
        self.fields.get(key.as_str())
    }

    /// Whether the header `name` is set, in any spelling of the name.
    pub fn contains(&self, name: &str) -> (r: bool)
        ensures
            r == self@.contains_key(lowercase(name@)),
            is_ascii_chars(name@) ==> lowercase(name@) == ascii_lower(name@),
    {
        let key = to_lower(name);
        self.fields.contains_key(key.as_str())
    }

    /// The number of headers.
    pub fn len(&self) -> (r: usize)
        ensures
            r == self@.len(),
    {
        self.fields.len()
    }
}

/// Header lookup ignores letter case: a value that is stored under one
/// spelling of a name is found under every spelling that has the same
/// lowercase form.
pub proof fn lemma_lookup_ignores_case(
    headers: Map<Seq<char>, Seq<char>>,
    stored: Seq<char>,
    value: Seq<char>,
    asked: Seq<char>,
)
    requires
        lowercase(stored) == lowercase(asked),
    ensures
        headers.insert(lowercase(stored), value).contains_key(lowercase(asked)),
        headers.insert(lowercase(stored), value)[lowercase(asked)] == value,
{
}

/// The name of a header that a response can carry.
#[derive(PartialEq, Eq, Structural, Hash, Debug, Clone, Copy)]
pub enum Header {
    ContentType,
    ContentLength,
    Host,
    UserAgent,
    Origin,
    SecWebsocketVersion,
    SecWebsocketKey,
    SecWebsocketAccept,
    Connection,
}

impl Header {
    /// The name as it is written on the wire.
    pub open spec fn name(self) -> Seq<char> {
        match self {
            Header::ContentType => "Content-Type"@,
            Header::ContentLength => "Content-Length"@,
            Header::Host => "Host"@,
            Header::UserAgent => "User-Agent"@,
            Header::Origin => "Origin"@,
            Header::SecWebsocketVersion => "Sec-WebSocket-Version"@,
            Header::SecWebsocketKey => "Sec-WebSocket-Key"@,
            Header::SecWebsocketAccept => "Sec-WebSocket-Accept"@,
            Header::Connection => "Connection"@,
        }
    }

    /// The name as it is written on the wire.
    pub fn as_str(&self) -> (r: &'static str)
        ensures
            r@ == self.name(),
    {
        match self {
            Header::ContentType => "Content-Type",
            Header::ContentLength => "Content-Length",
            Header::Host => "Host",
            Header::UserAgent => "User-Agent",
            Header::Origin => "Origin",
            Header::SecWebsocketVersion => "Sec-WebSocket-Version",
            Header::SecWebsocketKey => "Sec-WebSocket-Key",
            Header::SecWebsocketAccept => "Sec-WebSocket-Accept",
            Header::Connection => "Connection",
        }
    }

    /// The name as an owned string.
    pub fn to_string(&self) -> (r: String)
        ensures
            r@ == self.name(),
    {
        String::from_str(self.as_str())
    }
}

/// The position of the entry of `entries[from..]` that is named `name`.
pub open spec fn position_from(entries: Seq<(Header, Seq<char>)>, name: Header, from: int) -> Option<
    int,
>
    decreases entries.len() - from,
{
    if from < 0 || from >= entries.len() {
        None
    } else if entries[from].0 == name {
        Some(from)
    } else {
        position_from(entries, name, from + 1)
    }
}

/// The position of the entry that is named `name`.
pub open spec fn position(entries: Seq<(Header, Seq<char>)>, name: Header) -> Option<int> {
    position_from(entries, name, 0)
}

/// The value that `entries` give to `name`.
pub open spec fn value_of(entries: Seq<(Header, Seq<char>)>, name: Header) -> Option<Seq<char>> {
    match position(entries, name) {
        Some(i) => Some(entries[i].1),
        None => None,
    }
}

/// `entries` with `name` set to `value`: the entry of that name keeps its
/// place and takes the new value; where there is none, a new entry is added
/// at the end.
pub open spec fn with_entry(entries: Seq<(Header, Seq<char>)>, name: Header, value: Seq<char>) -> Seq<
    (Header, Seq<char>),
> {
    match position(entries, name) {
        Some(i) => entries.update(i, (name, value)),
        None => entries.push((name, value)),
    }
}

/// No two entries have the same name.
pub open spec fn distinct_names(entries: Seq<(Header, Seq<char>)>) -> bool {
    forall|i: int, j: int| 0 <= i < j < entries.len() ==> entries[i].0 != entries[j].0
}

/// What `position_from` finds is the first entry of the name at or after
/// `from`; it finds none only where there is none.
pub proof fn lemma_position(entries: Seq<(Header, Seq<char>)>, name: Header, from: int)
    requires
        0 <= from <= entries.len(),
    ensures
        match position_from(entries, name, from) {
            Some(i) => from <= i < entries.len() && entries[i].0 == name && forall|j: int|
                from <= j < i ==> entries[j].0 != name,
            None => forall|j: int| from <= j < entries.len() ==> entries[j].0 != name,
        },
    decreases entries.len() - from,
{
    if from < entries.len() && entries[from].0 != name {
        lemma_position(entries, name, from + 1);
    }
}

/// Setting a header keeps the names distinct, and the header is then found
/// with the value it was set to.
pub proof fn lemma_with_entry(entries: Seq<(Header, Seq<char>)>, name: Header, value: Seq<char>)
    requires
        distinct_names(entries),
    ensures
        distinct_names(with_entry(entries, name, value)),
        value_of(with_entry(entries, name, value), name) == Some(value),
        forall|other: Header|
            other != name ==> value_of(with_entry(entries, name, value), other) == value_of(
                entries,
                other,
            ),
{
    let after = with_entry(entries, name, value);
    lemma_position(entries, name, 0);
    lemma_position(after, name, 0);
    let at = match position(entries, name) {
        Some(i) => i,
        None => entries.len() as int,
    };
    assert(after[at] == (name, value));
    assert forall|other: Header| other != name implies value_of(after, other) == value_of(
        entries,
        other,
    ) by {
        lemma_position(entries, other, 0);
        lemma_position(after, other, 0);
        if let Some(p) = position(entries, other) {
            assert(after[p] == entries[p]);
        }
    }
}

/// The headers of a response, in the order in which they were first set.
#[derive(Debug)]
pub struct HeaderMap {
    entries: Vec<(Header, String)>,
}

impl View for HeaderMap {
    type V = Seq<(Header, Seq<char>)>;

    closed spec fn view(&self) -> Seq<(Header, Seq<char>)> {
        Seq::new(self.entries@.len(), |i: int| (self.entries@[i].0, self.entries@[i].1@))
    }
}

impl HeaderMap {
    #[verifier::type_invariant]
    spec fn names_are_distinct(&self) -> bool {
        distinct_names(self@)
    }

    /// No headers.
    pub fn new() -> (r: HeaderMap)
        ensures
            r@ == Seq::<(Header, Seq<char>)>::empty(),
    {
        HeaderMap { entries: Vec::new() }
    }

    /// Sets the header `name` to `value`.
    pub fn insert(&mut self, name: Header, value: String)
        ensures
            final(self)@ == with_entry(old(self)@, name, value@),
            distinct_names(old(self)@),
            distinct_names(final(self)@),
    {
        proof {
            use_type_invariant(&*self);
            lemma_with_entry(self@, name, value@);
        }
        let mut entries: Vec<(Header, String)> = Vec::new();
        core::mem::swap(&mut self.entries, &mut entries);
        let ghost before = old(self)@;
        let mut i: usize = 0;
        while i < entries.len() && !(entries[i].0 == name)
            invariant
                i <= entries@.len(),
                entries == old(self).entries,
                before == old(self)@,
                position(before, name) == position_from(before, name, i as int),
            decreases entries@.len() - i,
        {
            i += 1;
        }
        if i < entries.len() {
            entries.set(i, (name, value));
        } else {
            entries.push((name, value));
        }
        assert(Seq::new(entries@.len(), |k: int| (entries@[k].0, entries@[k].1@)) =~= with_entry(
            before,
            name,
            value@,
        ));
        self.entries = entries;
    }

    /// The value of the header `name`.
    pub fn get(&self, name: Header) -> (r: Option<&String>)
        ensures
            match value_of(self@, name) {
                Some(value) => r matches Some(v) && v@ == value,
                None => r is None,
            },
    {
        let mut i: usize = 0;
        while i < self.entries.len()
            invariant
                i <= self.entries@.len(),
                position(self@, name) == position_from(self@, name, i as int),
            decreases self.entries@.len() - i,
        {
            if self.entries[i].0 == name {
                return Some(&self.entries[i].1);
            }
            i += 1;
        }
        None
    }

    /// The number of headers.
    pub fn len(&self) -> (r: usize)
        ensures
            r == self@.len(),
    {
        self.entries.len()
    }

    /// The name and the value of the header at position `i`.
    pub fn entry(&self, i: usize) -> (r: (Header, &String))
        requires
            i < self@.len(),
        ensures
            r.0 == self@[i as int].0,
            r.1@ == self@[i as int].1,
    {
        (self.entries[i].0, &self.entries[i].1)
    }
}

} // verus!
