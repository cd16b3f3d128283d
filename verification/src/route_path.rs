//! The route trie: a tree keyed by path segments that maps a path to what
//! was registered for it.

use vstd::prelude::*;
use vstd::slice::slice_subrange;
use vstd::slice::slice_to_vec;
use vstd::string::StringSliceAdditionalSpecFns;
use crate::wire::find_byte;
use crate::wire::index_of;
use crate::wire::lemma_index_of_bounds;
use crate::wire::SLASH;

verus! {

/// The segments of `path[from..]`: what stands between its slashes, empty
/// segments left out.
pub open spec fn segments_from(path: Seq<u8>, from: int) -> Seq<Seq<u8>>
    decreases path.len() - from,
    when 0 <= from <= path.len()
{
    let end = index_of(path, SLASH, from);
    if from == path.len() {
        Seq::empty()
    } else {
        proof {
            lemma_index_of_bounds(path, SLASH, from);
        }
        let rest = if end < path.len() {
            segments_from(path, end + 1)
        } else {
            Seq::empty()
        };
        if end == from {
            rest
        } else {
            seq![path.subrange(from, end)] + rest
        }
    }
}

/// The segments of a path.
pub open spec fn segments(path: Seq<u8>) -> Seq<Seq<u8>> {
    segments_from(path, 0)
}

/// What the slices of `parts` hold.
pub open spec fn contents(parts: Seq<&[u8]>) -> Seq<Seq<u8>> {
    Seq::new(parts.len(), |i: int| parts[i]@)
}

/// Splits a path into its segments.
pub fn split_path(path: &[u8]) -> (r: Vec<&[u8]>)
    ensures
        contents(r@) == segments(path@),
{
    let mut parts: Vec<&[u8]> = Vec::new();
    let mut from: usize = 0;
    while from < path.len()
        invariant
            from <= path.len(),
            segments(path@) == contents(parts@) + segments_from(path@, from as int),
        decreases path.len() - from,
    {
        let end = find_byte(path, SLASH, from);
        if end > from {
            parts.push(slice_subrange(path, from, end));
        }
        if end < path.len() {
            from = end + 1;
        } else {
            from = end;
        }
    }
    parts
}

/// The order of keys: byte by byte from position `i` on, a key that ends
/// first coming first.
pub open spec fn precedes_from(a: Seq<u8>, b: Seq<u8>, i: int) -> bool
    decreases a.len() - i,
{
    if i < 0 || i >= b.len() {
        false
    } else if i >= a.len() {
        true
    } else if a[i] != b[i] {
        a[i] < b[i]
    } else {
        precedes_from(a, b, i + 1)
    }
}

/// The order in which the children of a node are kept: the lexicographic
/// order of their keys.
pub open spec fn precedes(a: Seq<u8>, b: Seq<u8>) -> bool {
    precedes_from(a, b, 0)
}

/// The keys are in strictly ascending order.
pub open spec fn ascending(keys: Seq<Seq<u8>>) -> bool {
    forall|i: int, j: int| 0 <= i < j < keys.len() ==> precedes(keys[i], keys[j])
}

/// The order of keys is transitive.
pub proof fn lemma_precedes_transitive(a: Seq<u8>, b: Seq<u8>, c: Seq<u8>, i: int)
    requires
        0 <= i,
        precedes_from(a, b, i),
        precedes_from(b, c, i),
    ensures
        precedes_from(a, c, i),
    decreases a.len() - i,
{
    if i < a.len() && i < b.len() && i < c.len() && a[i] == b[i] && b[i] == c[i] {
        lemma_precedes_transitive(a, b, c, i + 1);
    }
}

/// No key precedes itself.
pub proof fn lemma_precedes_irreflexive(a: Seq<u8>, i: int)
    requires
        0 <= i,
    ensures
        !precedes_from(a, a, i),
    decreases a.len() - i,
{
    if i < a.len() {
        lemma_precedes_irreflexive(a, i + 1);
    }
}

/// The outcome of comparing two keys.
pub enum KeyOrder {
    Before,
    Same,
    After,
}

/// Compares two keys.
pub fn compare_keys(a: &[u8], b: &[u8]) -> (r: KeyOrder)
    ensures
        match r {
            KeyOrder::Before => precedes(a@, b@),
            KeyOrder::Same => a@ == b@,
            KeyOrder::After => precedes(b@, a@),
        },
{
    let mut i: usize = 0;
    while i < a.len() && i < b.len() && a[i] == b[i]
        invariant
            i <= a.len(),
            i <= b.len(),
            forall|j: int| 0 <= j < i ==> a@[j] == b@[j],
            precedes(a@, b@) == precedes_from(a@, b@, i as int),
            precedes(b@, a@) == precedes_from(b@, a@, i as int),
        decreases a.len() - i,
    {
        i += 1;
    }
    if i == a.len() && i == b.len() {
        KeyOrder::Same
    } else if i == a.len() {
        KeyOrder::Before
    } else if i == b.len() {
        KeyOrder::After
    } else if a[i] < b[i] {
        KeyOrder::Before
    } else {
        KeyOrder::After
    }
}

/// Two paths with the same first segment and the same rest are the same.
pub proof fn lemma_same_path(a: Seq<Seq<u8>>, b: Seq<Seq<u8>>)
    requires
        a.len() > 0,
        b.len() > 0,
        a[0] == b[0],
        a.drop_first() == b.drop_first(),
    ensures
        a == b,
{
    assert(b =~= seq![b[0]] + b.drop_first());
}

/// The position of `key` among `keys`, if it is one of them.
pub open spec fn position_of(keys: Seq<Seq<u8>>, key: Seq<u8>) -> Option<int> {
    if exists|i: int| 0 <= i < keys.len() && keys[i] == key {
        Some(choose|i: int| 0 <= i < keys.len() && keys[i] == key)
    } else {
        None
    }
}

/// Among ascending keys a key stands at one position only.
pub proof fn lemma_position_of(keys: Seq<Seq<u8>>, i: int)
    requires
        ascending(keys),
        0 <= i < keys.len(),
    ensures
        position_of(keys, keys[i]) == Some(i),
{
    let j = choose|j: int| 0 <= j < keys.len() && keys[j] == keys[i];
    lemma_precedes_irreflexive(keys[i], 0);
    if j < i {
        assert(precedes(keys[j], keys[i]));
    } else if i < j {
        assert(precedes(keys[i], keys[j]));
    }
}

/// A node of the route trie. It holds what was registered for the path that
/// ends at it, and its children by their segment, in ascending order.
pub struct Node<H> {
    nodes: Vec<Node<H>>,
    key: Vec<u8>,
    handler: Option<H>,
}

impl<H> Node<H> {
    /// The segment that the node stands for.
    pub closed spec fn spec_key(&self) -> Seq<u8> {
        self.key@
    }

    /// The segments of the children, in their order.
    pub closed spec fn keys(&self) -> Seq<Seq<u8>> {
        Seq::new(self.nodes@.len(), |i: int| self.nodes@[i].key@)
    }

    /// The invariant of the trie: at every node the children stand in
    /// strictly ascending order of their segments.
    pub closed spec fn wf(&self) -> bool
        decreases self,
    {
        &&& ascending(self.keys())
        &&& forall|i: int| 0 <= i < self.nodes@.len() ==> (#[trigger] self.nodes@[i]).wf()
    }

    /// What is registered for the path that leads from this node along
    /// `path`.
    pub closed spec fn lookup(&self, path: Seq<Seq<u8>>) -> Option<H>
        decreases path.len(),
    {
        if path.len() == 0 {
            self.handler
        } else {
            match position_of(self.keys(), path[0]) {
                Some(i) => self.nodes@[i].lookup(path.drop_first()),
                None => None,
            }
        }
    }

    /// A node for the segment `key`, with nothing registered.
    pub fn new(key: &str) -> (r: Node<H>)
        ensures
            r.wf(),
            r.spec_key() == key.spec_bytes(),
            r@ == Map::<Seq<Seq<u8>>, H>::empty(),
    {
        Node::with_key(key.as_bytes())
    }

    fn with_key(key: &[u8]) -> (r: Node<H>)
        ensures
            r.wf(),
            r.key@ == key@,
            r.nodes@.len() == 0,
            forall|path: Seq<Seq<u8>>| r.lookup(path) is None,
            r@ == Map::<Seq<Seq<u8>>, H>::empty(),
    {
        Node { nodes: Vec::new(), key: slice_to_vec(key), handler: None }
    }

    /// Finds the child for the segment `key` by binary search: its position,
    /// or the position at which a child for `key` would keep the order.
    fn find_child(&self, key: &[u8]) -> (r: Result<usize, usize>)
        requires
            self.wf(),
        ensures
            match r {
                Ok(i) => i < self.nodes@.len() && self.keys()[i as int] == key@ && position_of(
                    self.keys(),
                    key@,
                ) == Some(i as int),
                Err(i) => i <= self.nodes@.len() && position_of(self.keys(), key@) is None && (
                forall|j: int| 0 <= j < i ==> precedes(#[trigger] self.keys()[j], key@)) && (
                forall|j: int|
                    i <= j < self.nodes@.len() ==> precedes(key@, #[trigger] self.keys()[j])),
            },
    {
        let ghost keys = self.keys();
        let mut low: usize = 0;
        let mut high: usize = self.nodes.len();
        while low < high
            invariant
                low <= high <= self.nodes@.len(),
                keys == self.keys(),
                ascending(keys),
                forall|j: int| 0 <= j < low ==> precedes(#[trigger] keys[j], key@),
                forall|j: int| high <= j < keys.len() ==> precedes(key@, #[trigger] keys[j]),
            decreases high - low,
        {
            let mid = low + (high - low) / 2;
            match compare_keys(self.nodes[mid].key.as_slice(), key) {
                KeyOrder::Same => {
                    proof {
                        lemma_position_of(keys, mid as int);
                    }
                    return Ok(mid);
                },
                KeyOrder::Before => {
                    assert forall|j: int| 0 <= j < mid + 1 implies precedes(
                        #[trigger] keys[j],
                        key@,
                    ) by {
                        if j < mid {
                            assert(precedes(keys[j], keys[mid as int]));
                            lemma_precedes_transitive(keys[j], keys[mid as int], key@, 0);
                        }
                    }
                    low = mid + 1;
                },
                KeyOrder::After => {
                    assert forall|j: int| mid <= j < keys.len() implies precedes(
                        key@,
                        #[trigger] keys[j],
                    ) by {
                        if mid < j {
                            assert(precedes(keys[mid as int], keys[j]));
                            lemma_precedes_transitive(key@, keys[mid as int], keys[j], 0);
                        }
                    }
                    high = mid;
                },
            }
        }
        proof {
            lemma_precedes_irreflexive(key@, 0);
            if let Some(i) = position_of(keys, key@) {
                if i < low {
                } else {
                }
            }
        }
        Err(low)
    }

    /// Looks up what is registered for `path`.
    pub fn get(&self, path: &str) -> (r: Option<&H>)
        requires
            self.wf(),
        ensures
            match r {
                Some(h) => self@.contains_key(segments(path.spec_bytes())) && *h == self@[segments(
                    path.spec_bytes(),
                )],
                None => !self@.contains_key(segments(path.spec_bytes())),
            },
    {
        let parts = split_path(path.as_bytes());
        self.get_parts(&parts)
    }

    /// Looks up what is registered for the path with the segments `parts`.
    pub fn get_parts(&self, parts: &Vec<&[u8]>) -> (r: Option<&H>)
        requires
            self.wf(),
        ensures
            match r {
                Some(h) => self@.contains_key(contents(parts@)) && *h == self@[contents(parts@)],
                None => !self@.contains_key(contents(parts@)),
            },
    {
        let ghost path = contents(parts@);
        let mut node = self;
        let mut i: usize = 0;
        assert(path.subrange(0, path.len() as int) =~= path);
        while i < parts.len()
            invariant
                i <= parts.len(),
                path == contents(parts@),
                node.wf(),
                self.lookup(path) == node.lookup(path.subrange(i as int, path.len() as int)),
            decreases parts.len() - i,
        {
            let ghost rest = path.subrange(i as int, path.len() as int);
            assert(rest.drop_first() =~= path.subrange(i + 1, path.len() as int));
            match node.find_child(parts[i]) {
                Err(_) => {
                    return None;
                },
                Ok(j) => {
                    node = &node.nodes[j];
                },
            }
            i += 1;
        }
        match &node.handler {
            Some(h) => Some(h),
            None => None,
        }
    }

    /// Registers `handler` for `path`, in place of what was registered for
    /// it before. Every other path keeps what it had.
    pub fn insert(&mut self, path: &str, handler: H)
        requires
            old(self).wf(),
        ensures
            final(self).wf(),
            final(self).spec_key() == old(self).spec_key(),
            final(self)@ == old(self)@.insert(segments(path.spec_bytes()), handler),
    {
        let parts = split_path(path.as_bytes());
        self.insert_parts(&parts, 0, handler);
        assert(contents(parts@).subrange(0, parts@.len() as int) =~= contents(parts@));
    }

    /// Registers `handler` for the path with the segments `parts[from..]`.
    pub fn insert_parts(&mut self, parts: &Vec<&[u8]>, from: usize, handler: H)
        requires
            old(self).wf(),
            from <= parts@.len(),
        ensures
            final(self).wf(),
            final(self).spec_key() == old(self).spec_key(),
            forall|path: Seq<Seq<u8>>| #[trigger]
                final(self).lookup(path) == if path == contents(parts@).subrange(
                    from as int,
                    parts@.len() as int,
                ) {
                    Some(handler)
                } else {
                    old(self).lookup(path)
                },
        decreases parts@.len() - from,
    {
        let ghost target = contents(parts@).subrange(from as int, parts@.len() as int);
        if from == parts.len() {
            self.handler = Some(handler);
            assert forall|path: Seq<Seq<u8>>| #[trigger]
                self.lookup(path) == if path == target {
                    Some(handler)
                } else {
                    old(self).lookup(path)
                } by {
                if path.len() == 0 {
                    assert(path =~= target);
                }
            }
            return ;
        }
        let key = parts[from];
        let ghost tail = contents(parts@).subrange(from + 1, parts@.len() as int);
        assert(target.drop_first() =~= tail);
        match self.find_child(key) {
            Ok(i) => {
                self.nodes[i].insert_parts(parts, from + 1, handler);
                let ghost grown = self.nodes@[i as int];
                assert(forall|j: int|
                    0 <= j < self.nodes@.len() && j != i ==> self.nodes@[j] == old(self).nodes@[j]);
                assert(self.keys() =~= old(self).keys());
                assert forall|path: Seq<Seq<u8>>| #[trigger]
                    self.lookup(path) == if path == target {
                        Some(handler)
                    } else {
                        old(self).lookup(path)
                    } by {
                    if path.len() > 0 && path[0] == key@ {
                        assert(self.lookup(path) == grown.lookup(path.drop_first()));
                        if path.drop_first() == tail {
                            lemma_same_path(path, target);
                        }
                    }
                }
            },
            Err(i) => {
                let mut child = Node::with_key(key);
                child.insert_parts(parts, from + 1, handler);
                let ghost grown = child;
                let ghost before = self.keys();
                self.nodes.insert(i, child);
                let ghost after = self.keys();
                assert forall|a: int, b: int| 0 <= a < b < after.len() implies precedes(
                    after[a],
                    after[b],
                ) by {
                    if a == i {
                        assert(after[b] == before[b - 1]);
                    } else if b == i {
                        assert(after[a] == before[a]);
                    } else {
                        let x = if a < i {
                            a
                        } else {
                            a - 1
                        };
                        let y = if b < i {
                            b
                        } else {
                            b - 1
                        };
                        assert(precedes(before[x], before[y]));
                    }
                }
                assert forall|path: Seq<Seq<u8>>| #[trigger]
                    self.lookup(path) == if path == target {
                        Some(handler)
                    } else {
                        old(self).lookup(path)
                    } by {
                    if path.len() > 0 {
                        if path[0] == key@ {
                            lemma_position_of(after, i as int);
                            assert(self.lookup(path) == grown.lookup(path.drop_first()));
                            if path.drop_first() == tail {
                                lemma_same_path(path, target);
                            }
                        } else {
                            // The other children have moved by at most one
                            // place and are found as before.
                            match position_of(before, path[0]) {
                                Some(j) => {
                                    lemma_position_of(
                                        after,
                                        if j < i {
                                            j
                                        } else {
                                            j + 1
                                        },
                                    );
                                },
                                None => {
                                    if let Some(k) = position_of(after, path[0]) {
                                        assert(after[k] == before[if k < i {
                                            k
                                        } else {
                                            k - 1
                                        }]);
                                    }
                                },
                            }
                        }
                    }
                }
            },
        }
    }
}

impl<H> View for Node<H> {
    type V = Map<Seq<Seq<u8>>, H>;

    /// The registered paths, each as its sequence of segments, with what is
    /// registered for them.
    open spec fn view(&self) -> Map<Seq<Seq<u8>>, H> {
        Map::new(|path: Seq<Seq<u8>>| self.lookup(path) is Some, |path: Seq<Seq<u8>>| self.lookup(path)->0)
    }
}

/// What is registered once `entries` are registered one after the other,
/// each in place of what was registered for its key before.
pub open spec fn registered<K, V>(routes: Map<K, V>, entries: Seq<(K, V)>) -> Map<K, V>
    decreases entries.len(),
{
    if entries.len() == 0 {
        routes
    } else {
        registered(routes, entries.drop_last()).insert(entries.last().0, entries.last().1)
    }
}

/// No two entries have the same key.
pub open spec fn distinct_keys<K, V>(entries: Seq<(K, V)>) -> bool {
    forall|i: int, j: int| 0 <= i < j < entries.len() ==> entries[i].0 != entries[j].0
}

/// After entries with distinct keys are registered, each of them is found
/// under its key, and every other key has what it had before.
pub proof fn lemma_registered<K, V>(routes: Map<K, V>, entries: Seq<(K, V)>)
    requires
        distinct_keys(entries),
    ensures
        forall|i: int|
            0 <= i < entries.len() ==> registered(routes, entries).contains_key(
                (#[trigger] entries[i]).0,
            ) && registered(routes, entries)[entries[i].0] == entries[i].1,
        forall|key: K|
            (forall|i: int| 0 <= i < entries.len() ==> (#[trigger] entries[i]).0 != key) ==> (
            #[trigger] registered(routes, entries).contains_key(key)) == routes.contains_key(key)
                && (routes.contains_key(key) ==> registered(routes, entries)[key] == routes[key]),
    decreases entries.len(),
{
    if entries.len() > 0 {
        let before = entries.drop_last();
        lemma_registered(routes, before);
        assert forall|i: int| 0 <= i < entries.len() implies registered(
            routes,
            entries,
        ).contains_key((#[trigger] entries[i]).0) && registered(routes, entries)[entries[i].0]
            == entries[i].1 by {
            if i < entries.len() - 1 {
                assert(before[i] == entries[i]);
            }
        }
        assert forall|key: K|
            (forall|i: int| 0 <= i < entries.len() ==> (#[trigger] entries[i]).0 != key) implies (
        #[trigger] registered(routes, entries).contains_key(key)) == routes.contains_key(key)
            && (routes.contains_key(key) ==> registered(routes, entries)[key] == routes[key]) by {
            assert(entries[entries.len() - 1].0 != key);
            assert forall|i: int| 0 <= i < before.len() implies (#[trigger] before[i]).0 != key by {
                assert(before[i] == entries[i]);
            }
            assert(registered(routes, before).contains_key(key) == routes.contains_key(key));
        }
    }
}

/// The order in which routes are registered does not matter: the same
/// entries with distinct keys, registered in any two orders, leave the same
/// routes behind.
pub proof fn lemma_any_registration_order<K, V>(
    routes: Map<K, V>,
    first: Seq<(K, V)>,
    second: Seq<(K, V)>,
)
    requires
        distinct_keys(first),
        distinct_keys(second),
        forall|entry: (K, V)| first.contains(entry) <==> second.contains(entry),
    ensures
        registered(routes, first) == registered(routes, second),
{
    lemma_registered(routes, first);
    lemma_registered(routes, second);
    let a = registered(routes, first);
    let b = registered(routes, second);
    assert forall|key: K| a.contains_key(key) == b.contains_key(key) && (a.contains_key(key)
        ==> a[key] == b[key]) by {
        if exists|i: int| 0 <= i < first.len() && (#[trigger] first[i]).0 == key {
            let i = choose|i: int| 0 <= i < first.len() && (#[trigger] first[i]).0 == key;
            assert(first.contains(first[i]));
            let j = choose|j: int| 0 <= j < second.len() && second[j] == first[i];
            assert(second[j].0 == key);
        } else {
            if exists|j: int| 0 <= j < second.len() && (#[trigger] second[j]).0 == key {
                let j = choose|j: int| 0 <= j < second.len() && (#[trigger] second[j]).0 == key;
                assert(second.contains(second[j]));
                let i = choose|i: int| 0 <= i < first.len() && first[i] == second[j];
                assert(first[i].0 == key);
            }
        }
    }
    assert(a =~= b);
}

} // verus!
