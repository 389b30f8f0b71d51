//! A string-keyed map that keeps its entries in insertion order.
//!
//! The registry and the map-category payloads need a name-indexed table
//! whose contents and iteration order the proofs can speak about, so the
//! library uses this association vector in place of a hash map. Lookups see
//! the first binding of a key; insertion replaces that binding in place and
//! appends a fresh key at the end, so keys stay unique and ordered when the
//! map is built through [`StrMap::insert`].

use vstd::pervasive::VecAdditionalExecFns;
use vstd::prelude::*;

verus! {

/// Look a key up in an association sequence: the first binding wins.
pub open spec fn assoc_get<V>(s: Seq<(Seq<char>, V)>, k: Seq<char>) -> Option<V>
    decreases s.len(),
{
    if s.len() == 0 {
        None
    } else if s[0].0 == k {
        Some(s[0].1)
    } else {
        assoc_get(s.drop_first(), k)
    }
}

/// The position of the first binding of `k`; the sequence's length when
/// there is none.
pub open spec fn assoc_first_index<V>(s: Seq<(Seq<char>, V)>, k: Seq<char>) -> int
    decreases s.len(),
{
    if s.len() == 0 {
        0
    } else if s[0].0 == k {
        0
    } else {
        1 + assoc_first_index(s.drop_first(), k)
    }
}

/// What inserting a binding does to an association sequence: replace the
/// first binding of the key, or append a new one.
pub open spec fn assoc_insert<V>(s: Seq<(Seq<char>, V)>, k: Seq<char>, v: V) -> Seq<
    (Seq<char>, V),
> {
    if assoc_first_index(s, k) < s.len() {
        s.update(assoc_first_index(s, k), (k, v))
    } else {
        s.push((k, v))
    }
}

/// The first index always lies between 0 and the sequence's length.
pub proof fn lemma_first_index_bounds<V>(s: Seq<(Seq<char>, V)>, k: Seq<char>)
    ensures
        0 <= assoc_first_index(s, k) <= s.len(),
        assoc_first_index(s, k) < s.len() ==> s[assoc_first_index(s, k)].0 == k,
    decreases s.len(),
{
    if s.len() > 0 && s[0].0 != k {
        lemma_first_index_bounds(s.drop_first(), k);
    }
}

/// The first index is where the scan of the exec code stops.
pub proof fn lemma_first_index_at<V>(s: Seq<(Seq<char>, V)>, k: Seq<char>, i: int)
    requires
        0 <= i <= s.len(),
        forall|j: int| 0 <= j < i ==> s[j].0 != k,
        i < s.len() ==> s[i].0 == k,
    ensures
        assoc_first_index(s, k) == if i < s.len() {
            i
        } else {
            s.len() as int
        },
    decreases s.len(),
{
    if s.len() > 0 {
        if i > 0 {
            lemma_first_index_at(s.drop_first(), k, i - 1);
        }
    }
}

/// The first binding decides the lookup.
pub proof fn lemma_assoc_get_at<V>(s: Seq<(Seq<char>, V)>, k: Seq<char>, i: int)
    requires
        0 <= i <= s.len(),
        forall|j: int| 0 <= j < i ==> s[j].0 != k,
        i < s.len() ==> s[i].0 == k,
    ensures
        assoc_get(s, k) == if i < s.len() {
            Some(s[i].1)
        } else {
            None::<V>
        },
    decreases s.len(),
{
    if s.len() > 0 {
        if i > 0 {
            lemma_assoc_get_at(s.drop_first(), k, i - 1);
        }
    }
}

/// Inserting updates the lookup of the inserted key and no other.
pub proof fn lemma_insert_get<V>(s: Seq<(Seq<char>, V)>, k: Seq<char>, v: V, q: Seq<char>)
    ensures
        assoc_get(assoc_insert(s, k, v), q) == if q == k {
            Some(v)
        } else {
            assoc_get(s, q)
        },
    decreases s.len(),
{
    let t = assoc_insert(s, k, v);
    if s.len() == 0 {
        assert(t =~= seq![(k, v)]);
        assert(t.drop_first() =~= Seq::<(Seq<char>, V)>::empty());
        if q == k {
            assert(assoc_get(t, q) == Some(v));
        } else {
            assert(assoc_get(t, q) == assoc_get(t.drop_first(), q));
            assert(assoc_get(t, q) is None);
        }
    } else if s[0].0 == k {
        assert(t =~= s.update(0, (k, v)));
        assert(t.drop_first() =~= s.drop_first());
        assert(t[0] == (k, v));
        if q == k {
            assert(assoc_get(t, q) == Some(v));
            assert(assoc_get(s, q) == Some(s[0].1));
        } else {
            assert(assoc_get(t, q) == assoc_get(t.drop_first(), q));
            assert(assoc_get(s, q) == assoc_get(s.drop_first(), q));
        }
    } else {
        lemma_insert_get(s.drop_first(), k, v, q);
        lemma_first_index_bounds(s.drop_first(), k);
        assert(t[0] == s[0]);
        assert(t.drop_first() =~= assoc_insert(s.drop_first(), k, v));
        assert(t.len() > 0);
        if q == s[0].0 {
            assert(assoc_get(t, q) == Some(s[0].1));
            assert(assoc_get(s, q) == Some(s[0].1));
        } else {
            assert(assoc_get(t, q) == assoc_get(t.drop_first(), q));
            assert(assoc_get(s, q) == assoc_get(s.drop_first(), q));
        }
    }
}

/// A string-keyed map, kept in insertion order.
#[derive(Debug, Clone)]
pub struct StrMap<V> {
    entries: Vec<(String, V)>,
}

impl<V> View for StrMap<V> {
    type V = Seq<(Seq<char>, V)>;

    closed spec fn view(&self) -> Seq<(Seq<char>, V)> {
        Seq::new(self.entries@.len(), |i: int| (self.entries@[i].0@, self.entries@[i].1))
    }
}

impl<V> StrMap<V> {
    /// The empty map.
    pub fn new() -> (r: StrMap<V>)
        ensures
            r@ == Seq::<(Seq<char>, V)>::empty(),
    {
        let r = StrMap { entries: Vec::new() };
        proof {
            assert(r@ =~= Seq::<(Seq<char>, V)>::empty());
        }
        r
    }

    /// How many bindings the map holds.
    pub fn len(&self) -> (r: usize)
        ensures
            r == self@.len(),
    {
        self.entries.len()
    }

    /// True iff the map is empty.
    pub fn is_empty(&self) -> (r: bool)
        ensures
            r == (self@.len() == 0),
    {
        self.entries.len() == 0
    }

    /// The entries, in insertion order.
    pub fn entries(&self) -> (r: &Vec<(String, V)>)
        ensures
            r@.len() == self@.len(),
            forall|i: int| 0 <= i < self@.len() ==> #[trigger] self@[i] == (r@[i].0@, r@[i].1),
    {
        &self.entries
    }

    /// Look a key up.
    pub fn get(&self, key: &str) -> (r: Option<&V>)
        ensures
            match r {
                Some(v) => assoc_get(self@, key@) == Some(*v),
                None => assoc_get(self@, key@) is None,
            },
    {
        let n = self.entries.len();
        let mut idx: usize = 0;
        while idx < n
            invariant
                n == self@.len(),
                idx <= n,
                forall|j: int| 0 <= j < idx ==> self@[j].0 != key@,
            decreases n - idx,
        {
            if crate::prim::str_eq(self.entries[idx].0.as_str(), key) {
                proof {
                    lemma_assoc_get_at(self@, key@, idx as int);
                }
                return Some(&self.entries[idx].1);
            }
            idx += 1;
        }
        proof {
            lemma_assoc_get_at(self@, key@, n as int);
        }
        None
    }

    /// True iff the map holds a binding for the key.
    pub fn contains_key(&self, key: &str) -> (r: bool)
        ensures
            r == (assoc_get(self@, key@) is Some),
    {
        match self.get(key) {
            Some(_) => true,
            None => false,
        }
    }

    /// Append a binding as it stands, even when the key is already bound;
    /// lookups keep seeing the first binding. The wire decoder uses this to
    /// reproduce decoded entries exactly, duplicates included.
    pub fn push_entry(&mut self, key: String, value: V)
        ensures
            final(self)@ == old(self)@.push((key@, value)),
    {
        self.entries.push((key, value));
        proof {
            assert(self@ =~= old(self)@.push((key@, value)));
        }
    }

    /// Bind a key to a value: replace the first binding of an existing key
    /// in place, append a fresh key at the end.
    pub fn insert(&mut self, key: String, value: V)
        ensures
            final(self)@ == assoc_insert(old(self)@, key@, value),
    {
        let n = self.entries.len();
        let mut idx: usize = 0;
        while idx < n
            invariant
                n == self@.len(),
                idx <= n,
                self == old(self),
                forall|j: int| 0 <= j < idx ==> self@[j].0 != key@,
            decreases n - idx,
        {
            if crate::prim::str_eq(self.entries[idx].0.as_str(), key.as_str()) {
                proof {
                    lemma_first_index_at(self@, key@, idx as int);
                }
                self.entries.set(idx, (key, value));
                proof {
                    assert(self@ =~= assoc_insert(old(self)@, key@, value));
                }
                return ;
            }
            idx += 1;
        }
        proof {
            lemma_first_index_at(self@, key@, n as int);
        }
        self.entries.push((key, value));
        proof {
            assert(self@ =~= assoc_insert(old(self)@, key@, value));
        }
    }
}

} // verus!
