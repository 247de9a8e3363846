//! The header maps of a request and of a response.
//!
//! Both are kept as lists of entries in which no key stands twice. What a
//! list means is the map that its entries build when they are inserted one
//! after the other.
use crate::text::same_text;
use crate::wire::{HeaderKey, HeaderValue};
use vstd::prelude::*;

verus! {

/// The map that the entries build, inserted from the first to the last.
pub open spec fn to_map<K, V>(s: Seq<(K, V)>) -> Map<K, V>
    decreases s.len(),
{
    if s.len() == 0 {
        Map::empty()
    } else {
        to_map(s.drop_last()).insert(s.last().0, s.last().1)
    }
}

/// The last entry with a key gives the key's value.
pub proof fn lemma_to_map_last<K, V>(s: Seq<(K, V)>, i: int)
    requires
        0 <= i < s.len(),
        forall|j: int| i < j < s.len() ==> s[j].0 != s[i].0,
    ensures
        to_map(s).contains_key(s[i].0),
        to_map(s)[s[i].0] == s[i].1,
    decreases s.len(),
{
    if i < s.len() - 1 {
        lemma_to_map_last(s.drop_last(), i);
    }
}

/// The key of each entry is in the map.
pub proof fn lemma_to_map_has<K, V>(s: Seq<(K, V)>, i: int)
    requires
        0 <= i < s.len(),
    ensures
        to_map(s).contains_key(s[i].0),
    decreases s.len(),
{
    if i < s.len() - 1 {
        lemma_to_map_has(s.drop_last(), i);
    }
}

/// A key that no entry has is not in the map.
pub proof fn lemma_to_map_absent<K, V>(s: Seq<(K, V)>, k: K)
    requires
        forall|j: int| 0 <= j < s.len() ==> s[j].0 != k,
    ensures
        !to_map(s).contains_key(k),
    decreases s.len(),
{
    if s.len() > 0 {
        lemma_to_map_absent(s.drop_last(), k);
    }
}

/// To give the last entry of a key a new value is to insert the key with
/// that value.
pub proof fn lemma_to_map_update<K, V>(s: Seq<(K, V)>, i: int, v: V)
    requires
        0 <= i < s.len(),
        forall|j: int| i < j < s.len() ==> s[j].0 != s[i].0,
    ensures
        to_map(s.update(i, (s[i].0, v))) == to_map(s).insert(s[i].0, v),
    decreases s.len(),
{
    let t = s.update(i, (s[i].0, v));
    if i == s.len() - 1 {
        assert(t.drop_last() =~= s.drop_last());
    } else {
        lemma_to_map_update(s.drop_last(), i, v);
        assert(t.drop_last() =~= s.drop_last().update(i, (s[i].0, v)));
    }
}

/// The entries of a request's headers as pairs of character sequences.
pub open spec fn pairs(v: Seq<(String, String)>) -> Seq<(Seq<char>, Seq<char>)> {
    v.map_values(|e: (String, String)| (e.0@, e.1@))
}

/// The headers of a request: a map from header name to header value, both
/// plain text, names told apart by case.
#[derive(Debug)]
pub struct RequestHeaders {
    entries: Vec<(String, String)>,
}

impl View for RequestHeaders {
    type V = Map<Seq<char>, Seq<char>>;

    closed spec fn view(&self) -> Map<Seq<char>, Seq<char>> {
        to_map(pairs(self.entries@))
    }
}

impl RequestHeaders {
    /// No name stands twice in the list.
    #[verifier::type_invariant]
    spec fn distinct(&self) -> bool {
        forall|i: int, j: int|
            0 <= i < j < self.entries@.len() ==> self.entries@[i].0@ != self.entries@[j].0@
    }

    /// The empty map.
    pub fn new() -> (h: RequestHeaders)
        ensures
            h@ == Map::<Seq<char>, Seq<char>>::empty(),
    {
        let h = RequestHeaders { entries: Vec::new() };
        h
    }

    /// The index of the last entry with the given name.
    fn position(&self, key: &str) -> (r: Option<usize>)
        ensures
            match r {
                Some(i) => {
                    &&& i < self.entries@.len()
                    &&& self.entries@[i as int].0@ == key@
                    &&& forall|j: int|
                        i < j < self.entries@.len() ==> self.entries@[j].0@ != key@
                },
                None => forall|j: int|
                    0 <= j < self.entries@.len() ==> self.entries@[j].0@ != key@,
            },
    {
        let mut i: usize = self.entries.len();
        while i > 0
            invariant
                i <= self.entries@.len(),
                forall|j: int| i <= j < self.entries@.len() ==> self.entries@[j].0@ != key@,
            decreases i,
        {
            i -= 1;
            if same_text(self.entries[i].0.as_str(), key) {
                return Some(i);
            }
        }
        None
    }

    /// Sets the value of a header, in place of the one it had, if it had
    /// one.
    pub fn insert(&mut self, key: String, value: String)
        ensures
            final(self)@ == old(self)@.insert(key@, value@),
    {
        proof {
            use_type_invariant(&*self);
        }
        let ghost before = pairs(self.entries@);
        let found = self.position(key.as_str());
        let mut entries: Vec<(String, String)> = Vec::new();
        std::mem::swap(&mut entries, &mut self.entries);
        match found {
            Some(i) => {
                proof {
                    lemma_to_map_update(before, i as int, value@);
                }
                entries.set(i, (key, value));
                assert(pairs(entries@) =~= before.update(i as int, (key@, value@)));
            },
            None => {
                entries.push((key, value));
                assert(pairs(entries@).drop_last() =~= before);
            },
        }
        self.entries = entries;
    }

    /// The value of a header, if the request has it.
    pub fn get(&self, key: &str) -> (r: Option<&String>)
        ensures
            match r {
                Some(v) => self@.contains_key(key@) && self@[key@] == v@,
                None => !self@.contains_key(key@),
            },
    {
        match self.position(key) {
            Some(i) => {
                proof {
                    lemma_to_map_last(pairs(self.entries@), i as int);
                }
                Some(&self.entries[i].1)
            },
            None => {
                proof {
                    lemma_to_map_absent(pairs(self.entries@), key@);
                }
                None
            },
        }
    }

    /// Whether each header of `self` stands in `other` with the same value.
    fn within(&self, other: &RequestHeaders) -> (r: bool)
        ensures
            r == self@.submap_of(other@),
    {
        let mut i: usize = 0;
        while i < self.entries.len()
            invariant
                i <= self.entries@.len(),
                forall|j: int|
                    0 <= j < i ==> {
                        let k = (#[trigger] self.entries@[j]).0@;
                        other@.contains_key(k) && other@[k] == self@[k]
                    },
            decreases self.entries@.len() - i,
        {
            let key = self.entries[i].0.as_str();
            proof {
                lemma_to_map_has(pairs(self.entries@), i as int);
            }
            match (self.get(key), other.get(key)) {
                (Some(a), Some(b)) => {
                    if !same_text(a.as_str(), b.as_str()) {
                        return false;
                    }
                },
                _ => {
                    return false;
                },
            }
            i += 1;
        }
        proof {
            let mine = pairs(self.entries@);
            let (a, b) = (self@, other@);
            assert forall|k: Seq<char>| #[trigger] a.dom().contains(k) implies b.dom().contains(k)
                && a[k] == b[k] by {
                if forall|j: int| 0 <= j < mine.len() ==> mine[j].0 != k {
                    lemma_to_map_absent(mine, k);
                }
            }
        }
        true
    }
}

impl PartialEq for RequestHeaders {
    fn eq(&self, other: &RequestHeaders) -> (r: bool) {
        let r = self.within(other) && other.within(self);
        proof {
            self@.lemma_submap_eq_iff(other@);
        }
        r
    }
}

impl vstd::std_specs::cmp::PartialEqSpecImpl for RequestHeaders {
    open spec fn obeys_eq_spec() -> bool {
        true
    }

    open spec fn eq_spec(&self, other: &RequestHeaders) -> bool {
        self@ == other@
    }
}

impl Eq for RequestHeaders {

}

/// The headers of a response: a map from header kind to value.
#[derive(Debug)]
pub struct ResponseHeaders {
    entries: Vec<(HeaderKey, HeaderValue)>,
}

impl View for ResponseHeaders {
    type V = Map<HeaderKey, HeaderValue>;

    closed spec fn view(&self) -> Map<HeaderKey, HeaderValue> {
        to_map(self.entries@)
    }
}

impl ResponseHeaders {
    /// No kind stands twice in the list.
    #[verifier::type_invariant]
    spec fn distinct(&self) -> bool {
        forall|i: int, j: int|
            0 <= i < j < self.entries@.len() ==> self.entries@[i].0 != self.entries@[j].0
    }

    /// The empty map.
    pub fn new() -> (h: ResponseHeaders)
        ensures
            h@ == Map::<HeaderKey, HeaderValue>::empty(),
    {
        ResponseHeaders { entries: Vec::new() }
    }

    /// The index of the last entry of the given kind.
    fn position(&self, key: HeaderKey) -> (r: Option<usize>)
        ensures
            match r {
                Some(i) => {
                    &&& i < self.entries@.len()
                    &&& self.entries@[i as int].0 == key
                    &&& forall|j: int| i < j < self.entries@.len() ==> self.entries@[j].0 != key
                },
                None => forall|j: int| 0 <= j < self.entries@.len() ==> self.entries@[j].0 != key,
            },
    {
        let mut i: usize = self.entries.len();
        while i > 0
            invariant
                i <= self.entries@.len(),
                forall|j: int| i <= j < self.entries@.len() ==> self.entries@[j].0 != key,
            decreases i,
        {
            i -= 1;
            if self.entries[i].0 == key {
                return Some(i);
            }
        }
        None
    }

    /// Sets the header of a kind, in place of the one that was there, if
    /// one was.
    pub fn insert(&mut self, key: HeaderKey, value: HeaderValue)
        ensures
            final(self)@ == old(self)@.insert(key, value),
    {
        proof {
            use_type_invariant(&*self);
        }
        let ghost before = self.entries@;
        let found = self.position(key);
        let mut entries: Vec<(HeaderKey, HeaderValue)> = Vec::new();
        std::mem::swap(&mut entries, &mut self.entries);
        match found {
            Some(i) => {
                proof {
                    lemma_to_map_update(before, i as int, value);
                }
                entries.set(i, (key, value));
            },
            None => {
                entries.push((key, value));
                assert(entries@.drop_last() =~= before);
            },
        }
        self.entries = entries;
    }

    /// The header of a kind, if the response has it.
    pub fn get(&self, key: HeaderKey) -> (r: Option<HeaderValue>)
        ensures
            r == (if self@.contains_key(key) {
                Some(self@[key])
            } else {
                None
            }),
    {
        match self.position(key) {
            Some(i) => {
                proof {
                    lemma_to_map_last(self.entries@, i as int);
                }
                Some(self.entries[i].1)
            },
            None => {
                proof {
                    lemma_to_map_absent(self.entries@, key);
                }
                None
            },
        }
    }
}

} // verus!
