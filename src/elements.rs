//! The geographic elements handed to the generators, already projected onto
//! the lattice, and the run configuration.

use vstd::prelude::*;

verus! {

/// Coordinates handed to the generators stay within this distance of the
/// origin, so that the offsets they add never leave `i32`.
pub const COORD_LIMIT: i32 = 0x4000_0000;

/// `v` is a coordinate that the generators accept.
pub open spec fn coord_ok(v: int) -> bool {
    -COORD_LIMIT <= v <= COORD_LIMIT
}

/// The value of the first entry with key `key`, if any.
pub open spec fn lookup(entries: Seq<(Seq<char>, Seq<char>)>, key: Seq<char>) -> Option<Seq<char>>
    decreases entries.len(),
{
    if entries.len() == 0 {
        None
    } else if entries[0].0 == key {
        Some(entries[0].1)
    } else {
        lookup(entries.drop_first(), key)
    }
}

/// Whether two strings hold the same characters.
pub fn str_eq(a: &str, b: &str) -> (r: bool)
    ensures
        r == (a@ == b@),
{
    a.to_owned() == b.to_owned()
}

/// The key/value tags of an element. A key occurs at most once: `insert`
/// replaces the value of a key that is already there.
pub struct Tags {
    entries: Vec<(String, String)>,
}

impl View for Tags {
    type V = Seq<(Seq<char>, Seq<char>)>;

    closed spec fn view(&self) -> Seq<(Seq<char>, Seq<char>)> {
        self.entries@.map_values(|e: (String, String)| (e.0@, e.1@))
    }
}

/// No key occurs twice.
pub open spec fn keys_unique(entries: Seq<(Seq<char>, Seq<char>)>) -> bool {
    forall|i: int, j: int| 0 <= i < j < entries.len() ==> entries[i].0 != entries[j].0
}

impl Tags {
    /// Well-formedness: each key occurs once.
    pub open spec fn wf(&self) -> bool {
        keys_unique(self@)
    }

    /// No tags.
    pub fn new() -> (r: Tags)
        ensures
            r.wf(),
            r@ == Seq::<(Seq<char>, Seq<char>)>::empty(),
    {
        let r = Tags { entries: Vec::new() };
        assert(r@ =~= Seq::<(Seq<char>, Seq<char>)>::empty());
        r
    }

    /// The value of tag `key`, if the element has it.
    pub fn get(&self, key: &str) -> (r: Option<&String>)
        ensures
            match r {
                Some(v) => lookup(self@, key@) == Some(v@),
                None => lookup(self@, key@) is None,
            },
    {
        let mut i: usize = 0;
        assert(self@.subrange(0, self@.len() as int) =~= self@);
        while i < self.entries.len()
            invariant
                i <= self.entries@.len(),
                lookup(self@, key@) == lookup(self@.subrange(i as int, self@.len() as int), key@),
            decreases self.entries@.len() - i,
        {
            let ghost rest = self@.subrange(i as int, self@.len() as int);
            assert(rest[0] == (self.entries@[i as int].0@, self.entries@[i as int].1@));
            if str_eq(self.entries[i].0.as_str(), key) {
                return Some(&self.entries[i].1);
            }
            assert(rest.drop_first() =~= self@.subrange(i + 1, self@.len() as int));
            i = i + 1;
        }
        None
    }

    /// Whether tag `key` is present with exactly the value `value`.
    pub fn has(&self, key: &str, value: &str) -> (r: bool)
        ensures
            r == (lookup(self@, key@) == Some(value@)),
    {
        match self.get(key) {
            Some(v) => str_eq(v.as_str(), value),
            None => false,
        }
    }

    /// Sets tag `key` to `value`, replacing an earlier value of that key.
    pub fn insert(&mut self, key: String, value: String)
        ensures
            old(self).wf() ==> final(self).wf(),
            lookup(final(self)@, key@) == Some(value@),
            forall|k: Seq<char>| k != key@ ==> lookup(final(self)@, k) == lookup(old(self)@, k),
    {
        let mut i: usize = 0;
        while i < self.entries.len()
            invariant
                i <= self.entries@.len(),
                self.entries@ == old(self).entries@,
                forall|j: int| 0 <= j < i ==> self@[j].0 != key@,
            decreases self.entries@.len() - i,
        {
            if self.entries[i].0 == key {
                let ghost before = self@;
                self.entries.set(i, (key, value));
                proof {
                    assert(self@ =~= before.update(i as int, (key@, value@)));
                    lemma_lookup_update(before, i as int, key@, value@);
                    assert(before[i as int].0 == key@);
                }
                return;
            }
            i = i + 1;
        }
        let ghost before = self@;
        self.entries.push((key, value));
        proof {
            assert(self@ =~= before.push((key@, value@)));
            lemma_lookup_push(before, key@, value@);
            if keys_unique(before) {
                assert forall|a: int, b: int| 0 <= a < b < self@.len() implies self@[a].0 != self@[b].0 by {
                    if b == before.len() {
                        assert(self@[a] == before[a]);
                    } else {
                        assert(self@[a] == before[a] && self@[b] == before[b]);
                    }
                }
            }
        }
    }
}

proof fn lemma_lookup_update(s: Seq<(Seq<char>, Seq<char>)>, i: int, key: Seq<char>, value: Seq<char>)
    requires
        0 <= i < s.len(),
        s[i].0 == key,
        forall|j: int| 0 <= j < i ==> s[j].0 != key,
    ensures
        lookup(s.update(i, (key, value)), key) == Some(value),
        forall|k: Seq<char>| k != key ==> lookup(s.update(i, (key, value)), k) == lookup(s, k),
    decreases s.len(),
{
    let t = s.update(i, (key, value));
    if i > 0 {
        assert(t.drop_first() =~= s.drop_first().update(i - 1, (key, value)));
        lemma_lookup_update(s.drop_first(), i - 1, key, value);
        assert(t[0] == s[0]);
        assert forall|k: Seq<char>| k != key implies lookup(t, k) == lookup(s, k) by {
            if s[0].0 != k {
                assert(lookup(t.drop_first(), k) == lookup(s.drop_first(), k));
            }
        }
    } else {
        assert forall|k: Seq<char>| k != key implies lookup(t, k) == lookup(s, k) by {
            assert(t.drop_first() =~= s.drop_first());
        }
    }
}

proof fn lemma_lookup_push(s: Seq<(Seq<char>, Seq<char>)>, key: Seq<char>, value: Seq<char>)
    requires
        forall|j: int| 0 <= j < s.len() ==> s[j].0 != key,
    ensures
        lookup(s.push((key, value)), key) == Some(value),
        forall|k: Seq<char>| k != key ==> lookup(s.push((key, value)), k) == lookup(s, k),
    decreases s.len(),
{
    let t = s.push((key, value));
    if s.len() > 0 {
        assert(t.drop_first() =~= s.drop_first().push((key, value)));
        lemma_lookup_push(s.drop_first(), key, value);
        assert(t[0] == s[0]);
        assert forall|k: Seq<char>| k != key implies lookup(t, k) == lookup(s, k) by {
            if s[0].0 != k {
                assert(lookup(t.drop_first(), k) == lookup(s.drop_first(), k));
            }
        }
    } else {
        assert(t.drop_first() =~= s);
        assert forall|k: Seq<char>| k != key implies lookup(t, k) == lookup(s, k) by {
            assert(lookup(t.drop_first(), k) == lookup(s, k));
        }
    }
}

/// A node: a point of the map, projected onto the lattice's x/z plane.
pub struct ProcessedNode {
    pub id: u64,
    pub tags: Tags,
    pub x: i32,
    pub z: i32,
}

/// A way: an ordered list of nodes, open or closed.
pub struct ProcessedWay {
    pub id: u64,
    pub nodes: Vec<ProcessedNode>,
    pub tags: Tags,
}

/// An element of the map as the generators see it.
pub enum ProcessedElement {
    Node(ProcessedNode),
    Way(ProcessedWay),
}

impl ProcessedElement {
    /// The tags of the element.
    pub fn tags(&self) -> (r: &Tags)
        ensures
            r == self.spec_tags(),
    {
        match self {
            ProcessedElement::Node(n) => &n.tags,
            ProcessedElement::Way(w) => &w.tags,
        }
    }

    pub open spec fn spec_tags(&self) -> &Tags {
        match self {
            ProcessedElement::Node(n) => &n.tags,
            ProcessedElement::Way(w) => &w.tags,
        }
    }
}

/// Every node of the way lies within the accepted coordinate range.
pub open spec fn way_in_range(w: &ProcessedWay) -> bool {
    forall|i: int| 0 <= i < w.nodes@.len() ==> coord_ok(#[trigger] w.nodes@[i].x as int) && coord_ok(
        w.nodes@[i].z as int,
    )
}

/// The element's coordinates lie within the accepted range.
pub open spec fn element_in_range(e: &ProcessedElement) -> bool {
    match e {
        ProcessedElement::Node(n) => coord_ok(n.x as int) && coord_ok(n.z as int),
        ProcessedElement::Way(w) => way_in_range(w),
    }
}

/// The run configuration that the generators read.
pub struct Args {
    /// Whether the world is generated in its winter variant.
    pub winter: bool,
    /// How long, in milliseconds, a footprint fill may run; none means
    /// without limit.
    pub timeout: Option<u64>,
}

/// The value of a string of decimal digits.
pub open spec fn digits_value(s: Seq<char>) -> int
    decreases s.len(),
{
    if s.len() == 0 {
        0
    } else {
        digits_value(s.drop_last()) * 10 + (s.last() as int - '0' as int)
    }
}

/// The `i32` that a string denotes in Rust's integer syntax: an optional
/// `+` or `-`, then at least one decimal digit, and a value within range.
pub open spec fn parsed_i32(s: Seq<char>) -> Option<int> {
    let negative = s.len() > 0 && s[0] == '-';
    let body = if s.len() > 0 && (s[0] == '-' || s[0] == '+') {
        s.drop_first()
    } else {
        s
    };
    let value = if negative {
        -digits_value(body)
    } else {
        digits_value(body)
    };
    if body.len() > 0 && (forall|i: int| 0 <= i < body.len() ==> '0' <= #[trigger] body[i] <= '9')
        && i32::MIN <= value <= i32::MAX {
        Some(value)
    } else {
        None
    }
}

/// Relies on `str::parse::<i32>`: the integer that `s` denotes, or none
/// when `s` is not an integer within range.
#[verifier::external_body]
pub(crate) fn parse_i32(s: &str) -> (r: Option<i32>)
    ensures
        match r {
            Some(v) => parsed_i32(s@) == Some(v as int),
            None => parsed_i32(s@) is None,
        },
{
    s.parse::<i32>().ok()
}

/// Whether tag `key` holds a negative integer; a missing or unreadable
/// value counts as zero.
pub fn tag_is_negative(tags: &Tags, key: &str) -> (r: bool)
    ensures
        r == (match lookup(tags@, key@) {
            Some(v) => match parsed_i32(v) {
                Some(n) => n < 0,
                None => false,
            },
            None => false,
        }),
{
    match tags.get(key) {
        Some(v) => match parse_i32(v.as_str()) {
            Some(n) => n < 0,
            None => false,
        },
        None => false,
    }
}

} // verus!
