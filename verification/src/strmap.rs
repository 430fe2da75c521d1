//! A map from strings to values that holds each key once and keeps its
//! entries in insertion order: a new key goes last, and storing under a key
//! that is present replaces its value in place.

use vstd::prelude::*;
use crate::strs::{seq_lt, str_lt, str_eq, lemma_seq_lt_irreflexive, lemma_seq_lt_transitive, lemma_seq_lt_total};

verus! {

/// Keys pairwise distinct.
pub open spec fn keys_distinct<V>(s: Seq<(Seq<char>, V)>) -> bool {
    forall|i: int, j: int| 0 <= i < j < s.len() ==> #[trigger] s[i].0 != #[trigger] s[j].0
}

/// Keys strictly ascending, hence pairwise distinct.
pub open spec fn keys_sorted<V>(s: Seq<(Seq<char>, V)>) -> bool {
    forall|i: int, j: int| 0 <= i < j < s.len() ==> seq_lt(#[trigger] s[i].0, #[trigger] s[j].0)
}

/// Whether some entry of `s` has key `k`.
pub open spec fn seq_has<V>(s: Seq<(Seq<char>, V)>, k: Seq<char>) -> bool {
    exists|i: int| 0 <= i < s.len() && #[trigger] s[i].0 == k
}

/// An index of `s` whose key is `k` (meaningful when `seq_has(s, k)`).
pub open spec fn seq_index_of<V>(s: Seq<(Seq<char>, V)>, k: Seq<char>) -> int {
    choose|i: int| 0 <= i < s.len() && #[trigger] s[i].0 == k
}

/// The value stored under `k` in the listing `s`, if any.
pub open spec fn seq_get<V>(s: Seq<(Seq<char>, V)>, k: Seq<char>) -> Option<V> {
    if seq_has(s, k) {
        Some(s[seq_index_of(s, k)].1)
    } else {
        None
    }
}

/// The listing after storing `v` under `k`: in place when `k` is present,
/// else appended.
pub open spec fn seq_insert<V>(s: Seq<(Seq<char>, V)>, k: Seq<char>, v: V) -> Seq<(Seq<char>, V)> {
    if seq_has(s, k) {
        s.update(seq_index_of(s, k), (k, v))
    } else {
        s.push((k, v))
    }
}

/// The listing after storing every entry of `o`, in `o`'s order.
pub open spec fn seq_extend<V>(s: Seq<(Seq<char>, V)>, o: Seq<(Seq<char>, V)>) -> Seq<(Seq<char>, V)>
    decreases o.len(),
{
    if o.len() == 0 {
        s
    } else {
        let t = seq_extend(s, o.drop_last());
        seq_insert(t, o.last().0, o.last().1)
    }
}

/// The listing after appending the entries of `o` whose keys are not
/// present yet, in `o`'s order.
pub open spec fn seq_extend_missing<V>(s: Seq<(Seq<char>, V)>, o: Seq<(Seq<char>, V)>) -> Seq<(Seq<char>, V)>
    decreases o.len(),
{
    if o.len() == 0 {
        s
    } else {
        let t = seq_extend_missing(s, o.drop_last());
        if seq_has(t, o.last().0) {
            t
        } else {
            t.push(o.last())
        }
    }
}

/// Sorted keys are distinct.
pub proof fn lemma_sorted_distinct<V>(s: Seq<(Seq<char>, V)>)
    requires
        keys_sorted(s),
    ensures
        keys_distinct(s),
{
    assert forall|i: int, j: int| 0 <= i < j < s.len() implies #[trigger] s[i].0 != #[trigger] s[j].0 by {
        if s[i].0 == s[j].0 {
            assert(seq_lt(s[i].0, s[j].0));
            lemma_seq_lt_irreflexive(s[i].0);
        }
    }
}

/// With distinct keys, the entry at index `i` is the one found by key.
pub proof fn lemma_get_at<V>(s: Seq<(Seq<char>, V)>, i: int)
    requires
        keys_distinct(s),
        0 <= i < s.len(),
    ensures
        seq_has(s, s[i].0),
        seq_index_of(s, s[i].0) == i,
        seq_get(s, s[i].0) == Some(s[i].1),
{
    let k = s[i].0;
    assert(s[i].0 == k);
    assert(seq_has(s, k));
    let j = seq_index_of(s, k);
    assert(0 <= j < s.len() && s[j].0 == k);
    if j != i {
        if j < i {
            assert(s[j].0 != s[i].0);
        } else {
            assert(s[i].0 != s[j].0);
        }
    }
}

/// Storing keeps keys distinct, and reads back as a map update.
pub proof fn lemma_seq_insert<V>(s: Seq<(Seq<char>, V)>, k: Seq<char>, v: V)
    requires
        keys_distinct(s),
    ensures
        keys_distinct(seq_insert(s, k, v)),
        seq_has(seq_insert(s, k, v), k),
        forall|k2: Seq<char>|
            #[trigger] seq_get(seq_insert(s, k, v), k2) == if k2 == k {
                Some(v)
            } else {
                seq_get(s, k2)
            },
{
    let t = seq_insert(s, k, v);
    if seq_has(s, k) {
        let i = seq_index_of(s, k);
        assert(t =~= s.update(i, (k, v)));
        assert(keys_distinct(t)) by {
            assert forall|a: int, b: int| 0 <= a < b < t.len() implies #[trigger] t[a].0 != #[trigger] t[b].0 by {
                assert(s[a].0 != s[b].0);
                if a == i {
                    assert(s[i].0 == k);
                }
                if b == i {
                    assert(s[i].0 == k);
                }
            }
        }
        lemma_get_at(t, i);
        assert forall|k2: Seq<char>| #[trigger] seq_get(t, k2) == if k2 == k {
            Some(v)
        } else {
            seq_get(s, k2)
        } by {
            if k2 != k {
                if seq_has(t, k2) {
                    let j = choose|j: int| 0 <= j < t.len() && #[trigger] t[j].0 == k2;
                    lemma_get_at(t, j);
                    lemma_get_at(s, j);
                }
                if seq_has(s, k2) {
                    let j = choose|j: int| 0 <= j < s.len() && #[trigger] s[j].0 == k2;
                    assert(t[j].0 == k2);
                }
            }
        }
    } else {
        assert(t =~= s.push((k, v)));
        let n = s.len() as int;
        assert(keys_distinct(t)) by {
            assert forall|a: int, b: int| 0 <= a < b < t.len() implies #[trigger] t[a].0 != #[trigger] t[b].0 by {
                if b == n {
                    if t[a].0 == k {
                        assert(s[a].0 == k);
                    }
                } else {
                    assert(s[a].0 != s[b].0);
                }
            }
        }
        lemma_get_at(t, n);
        assert forall|k2: Seq<char>| #[trigger] seq_get(t, k2) == if k2 == k {
            Some(v)
        } else {
            seq_get(s, k2)
        } by {
            if k2 != k {
                if seq_has(t, k2) {
                    let j = choose|j: int| 0 <= j < t.len() && #[trigger] t[j].0 == k2;
                    lemma_get_at(t, j);
                    lemma_get_at(s, j);
                }
                if seq_has(s, k2) {
                    let j = choose|j: int| 0 <= j < s.len() && #[trigger] s[j].0 == k2;
                    assert(t[j].0 == k2);
                }
            }
        }
    }
}

/// A string-keyed map that holds each key once, in insertion order.
#[derive(Debug)]
pub struct StrMap<V> {
    entries: Vec<(String, V)>,
}

/// A list of entries with each key by its text.
pub open spec fn listing<V>(e: Seq<(String, V)>) -> Seq<(Seq<char>, V)> {
    e.map_values(|x: (String, V)| (x.0@, x.1))
}

impl<V> View for StrMap<V> {
    type V = Seq<(Seq<char>, V)>;

    closed spec fn view(&self) -> Seq<(Seq<char>, V)> {
        listing(self.entries@)
    }
}

impl<V> StrMap<V> {
    /// Every map holds each key once.
    #[verifier::type_invariant]
    spec fn distinct(self) -> bool {
        keys_distinct(listing(self.entries@))
    }

    /// The map's invariant: each key once.
    pub open spec fn wf(&self) -> bool {
        keys_distinct(self@)
    }

    /// The value under `k`, as a specification.
    pub open spec fn spec_get(&self, k: Seq<char>) -> Option<V> {
        seq_get(self@, k)
    }

    /// An empty map.
    pub fn new() -> (m: Self)
        ensures
            m@ == Seq::<(Seq<char>, V)>::empty(),
            m.wf(),
    {
        let entries: Vec<(String, V)> = Vec::new();
        assert(listing(entries@) =~= Seq::<(Seq<char>, V)>::empty());
        StrMap { entries }
    }

    /// Number of entries.
    pub fn len(&self) -> (n: usize)
        ensures
            n == self@.len(),
            self.wf(),
    {
        proof {
            use_type_invariant(self);
        }
        self.entries.len()
    }

    /// Whether the map has no entry.
    pub fn is_empty(&self) -> (b: bool)
        ensures
            b == (self@.len() == 0),
    {
        self.entries.len() == 0
    }

    /// The key of the `i`-th entry in insertion order.
    pub fn key_at(&self, i: usize) -> (k: &String)
        requires
            i < self@.len(),
        ensures
            k@ == self@[i as int].0,
    {
        &self.entries[i].0
    }

    /// The value of the `i`-th entry in insertion order.
    pub fn value_at(&self, i: usize) -> (v: &V)
        requires
            i < self@.len(),
        ensures
            *v == self@[i as int].1,
    {
        &self.entries[i].1
    }

    /// The keys, in insertion order.
    pub fn keys(&self) -> (r: Vec<String>)
        ensures
            r@.len() == self@.len(),
            forall|i: int| 0 <= i < r@.len() ==> #[trigger] r@[i]@ == self@[i].0,
            self.wf(),
    {
        proof {
            use_type_invariant(self);
        }
        let mut r: Vec<String> = Vec::new();
        let mut i: usize = 0;
        while i < self.entries.len()
            invariant
                i <= self.entries@.len(),
                r@.len() == i,
                forall|j: int| 0 <= j < i ==> #[trigger] r@[j]@ == self@[j].0,
            decreases self.entries@.len() - i,
        {
            r.push(self.entries[i].0.clone());
            i = i + 1;
        }
        r
    }

    /// The index of the entry with key `key`, if there is one.
    pub fn find(&self, key: &str) -> (r: Option<usize>)
        ensures
            self.wf(),
            match r {
                Some(i) => i < self@.len() && self@[i as int].0 == key@,
                None => !seq_has(self@, key@),
            },
    {
        proof {
            use_type_invariant(self);
        }
        let n = self.entries.len();
        let mut i: usize = 0;
        while i < n
            invariant
                n == self@.len(),
                n == self.entries@.len(),
                self.wf(),
                i <= n,
                forall|j: int| 0 <= j < i ==> #[trigger] self@[j].0 != key@,
            decreases n - i,
        {
            assert(self@[i as int].0 == self.entries@[i as int].0@);
            if str_eq(self.entries[i].0.as_str(), key) {
                return Some(i);
            }
            i = i + 1;
        }
        None
    }

    /// The value stored under `key`, if any.
    pub fn get(&self, key: &str) -> (r: Option<&V>)
        ensures
            self.wf(),
            match r {
                Some(v) => self.spec_get(key@) == Some(*v),
                None => self.spec_get(key@) is None,
            },
    {
        match self.find(key) {
            Some(i) => {
                proof {
                    lemma_get_at(self@, i as int);
                }
                Some(&self.entries[i].1)
            },
            None => None,
        }
    }

    /// Whether `key` has an entry.
    pub fn contains_key(&self, key: &str) -> (b: bool)
        ensures
            self.wf(),
            b == seq_has(self@, key@),
    {
        self.find(key).is_some()
    }

    /// Stores `value` under `key`: in place when `key` is present (its
    /// position is kept), else as the last entry.
    pub fn insert(&mut self, key: String, value: V)
        ensures
            final(self).wf(),
            final(self)@ == seq_insert(old(self)@, key@, value),
            forall|k: Seq<char>|
                #[trigger] seq_get(final(self)@, k) == if k == key@ {
                    Some(value)
                } else {
                    seq_get(old(self)@, k)
                },
    {
        proof {
            use_type_invariant(&*self);
        }
        let ghost old_s = self@;
        let ghost kv = key@;
        let found = self.find(key.as_str());
        let mut entries: Vec<(String, V)> = Vec::new();
        std::mem::swap(&mut entries, &mut self.entries);
        match found {
            Some(i) => {
                proof {
                    lemma_get_at(old_s, i as int);
                }
                entries.set(i, (key, value));
                proof {
                    assert(listing(entries@) =~= old_s.update(i as int, (kv, value)));
                }
            },
            None => {
                entries.push((key, value));
                proof {
                    assert(listing(entries@) =~= old_s.push((kv, value)));
                }
            },
        }
        proof {
            lemma_seq_insert(old_s, kv, value);
        }
        self.entries = entries;
    }

    /// Appends an entry under a key that is not stored yet.
    pub fn push_new(&mut self, key: String, value: V)
        requires
            !seq_has(old(self)@, key@),
        ensures
            final(self).wf(),
            final(self)@ == old(self)@.push((key@, value)),
    {
        self.insert(key, value);
    }
}

/// Inserts an entry into a key-sorted list, at its place; an equal key is
/// replaced.
pub(crate) fn insert_sorted<V>(entries: &mut Vec<(String, V)>, key: String, value: V)
    requires
        keys_sorted(listing(old(entries)@)),
    ensures
        keys_sorted(listing(final(entries)@)),
        final(entries)@.len() == old(entries)@.len() + if seq_has(listing(old(entries)@), key@) {
            0int
        } else {
            1int
        },
        forall|k: Seq<char>|
            #[trigger] seq_get(listing(final(entries)@), k) == if k == key@ {
                Some(value)
            } else {
                seq_get(listing(old(entries)@), k)
            },
{
    let ghost old_s = listing(entries@);
    proof {
        lemma_sorted_distinct(old_s);
    }
    let n = entries.len();
    let mut i: usize = 0;
    let mut done = false;
    while i < n && !done
        invariant
            n == entries@.len(),
            old_s == listing(entries@),
            keys_sorted(old_s),
            i <= n,
            forall|j: int| 0 <= j < i ==> seq_lt(#[trigger] old_s[j].0, key@),
            done ==> i < n && !seq_lt(old_s[i as int].0, key@),
        decreases n - i + if done { 0int } else { 1int },
    {
        assert(old_s[i as int].0 == entries@[i as int].0@);
        if str_lt(entries[i].0.as_str(), key.as_str()) {
            i = i + 1;
        } else {
            done = true;
        }
    }
    assert(i < n ==> !seq_lt(old_s[i as int].0, key@));
    if i < n && entries[i].0 == key {
        proof {
            assert(old_s[i as int].0 == key@);
        }
        entries.set(i, (key, value));
        proof {
            let s = listing(entries@);
            assert(s =~= old_s.update(i as int, (key@, value)));
            assert(old_s[i as int].0 == key@);
            assert(seq_has(old_s, key@));
            assert(keys_sorted(s));
            lemma_sorted_distinct(s);
            assert forall|k: Seq<char>| #[trigger] seq_get(s, k) == if k == key@ {
                Some(value)
            } else {
                seq_get(old_s, k)
            } by {
                lemma_get_at(s, i as int);
                if k != key@ {
                    if seq_has(s, k) {
                        let j = choose|j: int| 0 <= j < s.len() && #[trigger] s[j].0 == k;
                        lemma_get_at(s, j);
                        lemma_get_at(old_s, j);
                    }
                    if seq_has(old_s, k) {
                        let j = choose|j: int| 0 <= j < old_s.len() && #[trigger] old_s[j].0 == k;
                        assert(s[j].0 == k);
                    }
                }
            }
        }
    } else {
        proof {
            if i < n {
                lemma_seq_lt_total(old_s[i as int].0, key@);
                assert forall|j: int| i <= j < n implies seq_lt(key@, #[trigger] old_s[j].0) by {
                    if j > i {
                        lemma_seq_lt_transitive(key@, old_s[i as int].0, old_s[j].0);
                    }
                }
            }
        }
        let ghost kv = key@;
        proof {
            if seq_has(old_s, kv) {
                let j = choose|j: int| 0 <= j < old_s.len() && #[trigger] old_s[j].0 == kv;
                lemma_seq_lt_irreflexive(kv);
                if j < i {
                    assert(seq_lt(old_s[j].0, kv));
                } else {
                    assert(seq_lt(kv, old_s[j].0));
                }
            }
        }
        entries.insert(i, (key, value));
        proof {
            let s = listing(entries@);
            assert(s =~= old_s.insert(i as int, (kv, value)));
            assert forall|a: int, b: int| 0 <= a < b < s.len() implies seq_lt(#[trigger] s[a].0, #[trigger] s[b].0) by {
                if b < i {
                    assert(seq_lt(old_s[a].0, old_s[b].0));
                } else if a < i && b == i {
                } else if a < i && b > i {
                    assert(seq_lt(old_s[a].0, old_s[b - 1].0));
                } else if a == i {
                    assert(seq_lt(kv, old_s[b - 1].0));
                } else {
                    assert(seq_lt(old_s[a - 1].0, old_s[b - 1].0));
                }
            }
            lemma_sorted_distinct(s);
            assert forall|k: Seq<char>| #[trigger] seq_get(s, k) == if k == kv {
                Some(value)
            } else {
                seq_get(old_s, k)
            } by {
                lemma_get_at(s, i as int);
                if k != kv {
                    if seq_has(s, k) {
                        let j = choose|j: int| 0 <= j < s.len() && #[trigger] s[j].0 == k;
                        lemma_get_at(s, j);
                        if j < i {
                            lemma_get_at(old_s, j);
                        } else {
                            lemma_get_at(old_s, j - 1);
                        }
                    }
                    if seq_has(old_s, k) {
                        let j = choose|j: int| 0 <= j < old_s.len() && #[trigger] old_s[j].0 == k;
                        if j < i {
                            assert(s[j].0 == k);
                        } else {
                            assert(s[j + 1].0 == k);
                        }
                    }
                }
            }
        }
    }
}



/// The value under `k`: from `newer` when it holds `k`, otherwise from `older`.
pub open spec fn merged_get<V>(older: Seq<(Seq<char>, V)>, newer: Seq<(Seq<char>, V)>, k: Seq<char>) -> Option<V> {
    if seq_has(newer, k) {
        seq_get(newer, k)
    } else {
        seq_get(older, k)
    }
}

impl<V> StrMap<V> {
    /// Stores every entry of `other`, in `other`'s order: its values replace
    /// those already stored, and its new keys follow the stored ones.
    pub fn extend(&mut self, other: StrMap<V>)
        ensures
            final(self).wf(),
            final(self)@ == seq_extend(old(self)@, other@),
            forall|k: Seq<char>| #[trigger] seq_get(final(self)@, k) == merged_get(old(self)@, other@, k),
    {
        proof {
            use_type_invariant(&*self);
            use_type_invariant(&other);
        }
        let ghost o = other@;
        let ghost start = self@;
        let mut entries = other.entries;
        let ghost n = o.len();
        let mut i: usize = 0;
        let ghost len0 = entries.len();
        assert(o.take(0) =~= Seq::<(Seq<char>, V)>::empty());
        assert(listing(entries@) =~= o.skip(0));
        assert(n == len0);
        while entries.len() > 0
            invariant
                self.wf(),
                keys_distinct(o),
                n == o.len(),
                n <= usize::MAX,
                i <= n,
                entries@.len() == n - i,
                listing(entries@) == o.skip(i as int),
                self@ == seq_extend(start, o.take(i as int)),
                forall|k: Seq<char>| #[trigger] seq_get(self@, k) == if seq_has(o.take(i as int), k) {
                    seq_get(o, k)
                } else {
                    seq_get(start, k)
                },
            decreases entries@.len(),
        {
            let ghost ev = entries@;
            let (k, v) = entries.remove(0);
            proof {
                assert(listing(ev)[0] == o.skip(i as int)[0]);
                assert((k@, v) == o[i as int]);
                assert forall|j: int| 0 <= j < entries@.len() implies #[trigger] listing(entries@)[j] == o.skip(i + 1)[j] by {
                    assert(entries@[j] == ev[j + 1]);
                    assert(listing(ev)[j + 1] == o.skip(i as int)[j + 1]);
                }
                assert(listing(entries@) =~= o.skip(i + 1));
                assert(o.take(i + 1).drop_last() =~= o.take(i as int));
                assert(o.take(i + 1).last() == o[i as int]);
            }
            let ghost kv = k@;
            let ghost before = self@;
            self.insert(k, v);
            proof {
                lemma_get_at(o, i as int);
                assert forall|k2: Seq<char>| #[trigger] seq_get(self@, k2) == if seq_has(o.take(i + 1), k2) {
                    seq_get(o, k2)
                } else {
                    seq_get(start, k2)
                } by {
                    if k2 == kv {
                        assert(o.take(i + 1)[i as int].0 == k2);
                    } else {
                        if seq_has(o.take(i + 1), k2) {
                            let j = choose|j: int| 0 <= j < o.take(i + 1).len() && #[trigger] o.take(i + 1)[j].0 == k2;
                            assert(j != i);
                            assert(o.take(i as int)[j].0 == k2);
                        }
                        if seq_has(o.take(i as int), k2) {
                            let j = choose|j: int| 0 <= j < o.take(i as int).len() && #[trigger] o.take(i as int)[j].0 == k2;
                            assert(o.take(i + 1)[j].0 == k2);
                        }
                    }
                }
            }
            i = i + 1;
        }
        proof {
            assert(o.take(n as int) =~= o);
            assert forall|k: Seq<char>| #[trigger] seq_get(self@, k) == merged_get(start, o, k) by {}
        }
    }

    /// Appends the entries of `other` whose keys are not stored yet, in
    /// `other`'s order; stored entries and values are kept.
    pub fn extend_missing(&mut self, other: StrMap<V>)
        ensures
            final(self).wf(),
            final(self)@ == seq_extend_missing(old(self)@, other@),
            forall|k: Seq<char>| #[trigger] seq_get(final(self)@, k) == merged_get(other@, old(self)@, k),
    {
        proof {
            use_type_invariant(&*self);
            use_type_invariant(&other);
        }
        let ghost o = other@;
        let ghost start = self@;
        let mut entries = other.entries;
        let ghost n = o.len();
        let mut i: usize = 0;
        let ghost len0 = entries.len();
        assert(o.take(0) =~= Seq::<(Seq<char>, V)>::empty());
        assert(listing(entries@) =~= o.skip(0));
        assert(n == len0);
        while entries.len() > 0
            invariant
                self.wf(),
                keys_distinct(o),
                keys_distinct(start),
                n == o.len(),
                n <= usize::MAX,
                i <= n,
                entries@.len() == n - i,
                listing(entries@) == o.skip(i as int),
                self@ == seq_extend_missing(start, o.take(i as int)),
                forall|k: Seq<char>| #[trigger] seq_get(self@, k) == if seq_has(start, k) {
                    seq_get(start, k)
                } else if seq_has(o.take(i as int), k) {
                    seq_get(o, k)
                } else {
                    None
                },
            decreases entries@.len(),
        {
            let ghost ev = entries@;
            let (k, v) = entries.remove(0);
            proof {
                assert(listing(ev)[0] == o.skip(i as int)[0]);
                assert((k@, v) == o[i as int]);
                assert forall|j: int| 0 <= j < entries@.len() implies #[trigger] listing(entries@)[j] == o.skip(i + 1)[j] by {
                    assert(entries@[j] == ev[j + 1]);
                    assert(listing(ev)[j + 1] == o.skip(i as int)[j + 1]);
                }
                assert(listing(entries@) =~= o.skip(i + 1));
                assert(o.take(i + 1).drop_last() =~= o.take(i as int));
                assert(o.take(i + 1).last() == o[i as int]);
                lemma_get_at(o, i as int);
            }
            let ghost kv = k@;
            let ghost before = self@;
            if !self.contains_key(k.as_str()) {
                self.insert(k, v);
                proof {
                    assert(seq_insert(before, kv, v) == before.push((kv, v)));
                }
            }
            proof {
                assert forall|k2: Seq<char>| #[trigger] seq_get(self@, k2) == if seq_has(start, k2) {
                    seq_get(start, k2)
                } else if seq_has(o.take(i + 1), k2) {
                    seq_get(o, k2)
                } else {
                    None
                } by {
                    if k2 == kv {
                        assert(o.take(i + 1)[i as int].0 == k2);
                        if !seq_has(start, k2) && seq_has(before, k2) {
                            assert(seq_get(before, k2) is Some);
                        }
                    } else {
                        if seq_has(o.take(i + 1), k2) {
                            let j = choose|j: int| 0 <= j < o.take(i + 1).len() && #[trigger] o.take(i + 1)[j].0 == k2;
                            assert(j != i);
                            assert(o.take(i as int)[j].0 == k2);
                        }
                        if seq_has(o.take(i as int), k2) {
                            let j = choose|j: int| 0 <= j < o.take(i as int).len() && #[trigger] o.take(i as int)[j].0 == k2;
                            assert(o.take(i + 1)[j].0 == k2);
                        }
                    }
                }
            }
            i = i + 1;
        }
        proof {
            assert(o.take(n as int) =~= o);
            assert forall|k: Seq<char>| #[trigger] seq_get(self@, k) == merged_get(o, start, k) by {}
        }
    }
}

impl<V: Clone> Clone for StrMap<V> {
    /// A copy with the same keys, in the same order, each value cloned.
    fn clone(&self) -> (r: Self)
        ensures
            r@.len() == self@.len(),
            forall|i: int| 0 <= i < r@.len() ==> #[trigger] r@[i].0 == self@[i].0,
            forall|i: int| 0 <= i < r@.len() ==> cloned::<V>(self@[i].1, #[trigger] r@[i].1),
    {
        proof {
            use_type_invariant(self);
        }
        let mut entries: Vec<(String, V)> = Vec::new();
        let mut i: usize = 0;
        while i < self.entries.len()
            invariant
                i <= self.entries@.len(),
                entries@.len() == i,
                keys_distinct(self@),
                forall|j: int| 0 <= j < i ==> #[trigger] listing(entries@)[j].0 == self@[j].0,
                forall|j: int| 0 <= j < i ==> cloned::<V>(self@[j].1, #[trigger] listing(entries@)[j].1),
            decreases self.entries@.len() - i,
        {
            let k = self.entries[i].0.clone();
            let v = self.entries[i].1.clone();
            assert(k@ == self@[i as int].0);
            let ghost before = entries@;
            let ghost kv = k@;
            entries.push((k, v));
            assert(listing(entries@) =~= listing(before).push((kv, entries@[i as int].1)));
            assert(cloned::<V>(self@[i as int].1, listing(entries@)[i as int].1));
            i = i + 1;
        }
        proof {
            let s = listing(entries@);
            assert forall|a: int, b: int| 0 <= a < b < s.len() implies #[trigger] s[a].0 != #[trigger] s[b].0 by {
                assert(s[a].0 == self@[a].0);
                assert(s[b].0 == self@[b].0);
            }
        }
        StrMap { entries }
    }
}

impl<V> Default for StrMap<V> {
    fn default() -> (m: Self)
        ensures
            m@ == Seq::<(Seq<char>, V)>::empty(),
            m.wf(),
    {
        StrMap::new()
    }
}

/// `t` lists the entries of `s` by ascending key.
pub open spec fn sorted_as<V>(t: Seq<(Seq<char>, V)>, s: Seq<(Seq<char>, V)>) -> bool {
    &&& keys_sorted(t)
    &&& t.len() == s.len()
    &&& forall|k: Seq<char>| #[trigger] seq_get(t, k) == seq_get(s, k)
}

/// The entries of `s` by ascending key (for distinct keys there is exactly one such listing).
pub open spec fn sorted_pairs<V>(s: Seq<(Seq<char>, V)>) -> Seq<(Seq<char>, V)> {
    choose|t: Seq<(Seq<char>, V)>| sorted_as(t, s)
}

proof fn lemma_drop_last_get<V>(t: Seq<(Seq<char>, V)>, k: Seq<char>)
    requires
        keys_distinct(t),
        t.len() > 0,
    ensures
        seq_get(t.drop_last(), k) == if k == t.last().0 {
            None
        } else {
            seq_get(t, k)
        },
{
    let d = t.drop_last();
    let n = t.len() - 1;
    if seq_has(d, k) {
        let j = choose|j: int| 0 <= j < d.len() && #[trigger] d[j].0 == k;
        assert(t[j].0 == k);
        if k == t.last().0 {
            assert(t[j].0 != t[n].0);
        }
        assert(keys_distinct(d));
        lemma_get_at(d, j);
        lemma_get_at(t, j);
    }
    if seq_has(t, k) && k != t.last().0 {
        let j = choose|j: int| 0 <= j < t.len() && #[trigger] t[j].0 == k;
        assert(j != n);
        assert(d[j].0 == k);
    }
}

/// Two key-sorted listings of the same entries are equal.
pub proof fn lemma_sorted_unique<V>(t1: Seq<(Seq<char>, V)>, t2: Seq<(Seq<char>, V)>)
    requires
        keys_sorted(t1),
        keys_sorted(t2),
        t1.len() == t2.len(),
        forall|k: Seq<char>| #[trigger] seq_get(t1, k) == seq_get(t2, k),
    ensures
        t1 == t2,
    decreases t1.len(),
{
    lemma_sorted_distinct(t1);
    lemma_sorted_distinct(t2);
    if t1.len() == 0 {
        assert(t1 =~= t2);
    } else {
        let n = t1.len() - 1;
        let a = t1[n].0;
        let b = t2[n].0;
        lemma_get_at(t1, n);
        lemma_get_at(t2, n);
        assert(seq_get(t2, a) == seq_get(t1, a));
        assert(seq_get(t1, b) == seq_get(t2, b));
        let j = seq_index_of(t2, a);
        let i = seq_index_of(t1, b);
        assert(t2[j].0 == a);
        assert(t1[i].0 == b);
        if a != b {
            assert(j != n);
            assert(i != n);
            assert(seq_lt(t2[j].0, t2[n].0));
            assert(seq_lt(t1[i].0, t1[n].0));
            lemma_seq_lt_transitive(a, b, a);
            lemma_seq_lt_irreflexive(a);
        }
        assert(t1[n].1 == t2[n].1);
        let d1 = t1.drop_last();
        let d2 = t2.drop_last();
        assert forall|k: Seq<char>| #[trigger] seq_get(d1, k) == seq_get(d2, k) by {
            lemma_drop_last_get(t1, k);
            lemma_drop_last_get(t2, k);
            assert(seq_get(t1, k) == seq_get(t2, k));
        }
        lemma_sorted_unique(d1, d2);
        assert(t1 =~= d1.push(t1[n]));
        assert(t2 =~= d2.push(t2[n]));
    }
}

impl StrMap<String> {
    /// A copy of the map with its entries by ascending key.
    pub fn sorted_by_key(&self) -> (r: StrMap<String>)
        ensures
            r@ == sorted_pairs(self@),
            sorted_as(r@, self@),
    {
        proof {
            use_type_invariant(self);
        }
        let ghost s = self@;
        let n = self.entries.len();
        let mut sv: Vec<(String, String)> = Vec::new();
        let mut i: usize = 0;
        proof {
            assert forall|x: Seq<char>| #[trigger] seq_get(listing(sv@), x) == seq_get(s.take(0), x) by {
                assert(!seq_has(listing(sv@), x));
                assert(!seq_has(s.take(0), x));
            }
        }
        while i < n
            invariant
                n == s.len(),
                s == self@,
                keys_distinct(s),
                i <= n,
                sv@.len() == i,
                keys_sorted(listing(sv@)),
                forall|x: Seq<char>| #[trigger] seq_get(listing(sv@), x) == seq_get(s.take(i as int), x),
            decreases n - i,
        {
            let ghost before = listing(sv@);
            let key = self.entries[i].0.clone();
            let value = self.entries[i].1.clone();
            let ghost kv = key@;
            assert(s[i as int] == (kv, value));
            insert_sorted(&mut sv, key, value);
            proof {
                let t = s.take(i as int);
                let t1 = s.take(i + 1);
                assert(t1 =~= t.push(s[i as int]));
                assert(!seq_has(t, kv)) by {
                    if seq_has(t, kv) {
                        let j = choose|j: int| 0 <= j < t.len() && #[trigger] t[j].0 == kv;
                        assert(s[j].0 != s[i as int].0);
                    }
                }
                assert(keys_distinct(t)) by {
                    assert forall|a: int, b: int| 0 <= a < b < t.len() implies #[trigger] t[a].0 != #[trigger] t[b].0 by {
                        assert(s[a].0 != s[b].0);
                    }
                }
                assert(seq_get(before, kv) == seq_get(t, kv));
                assert(!seq_has(before, kv));
                assert(seq_insert(t, kv, value) == t.push((kv, value)));
                lemma_seq_insert(t, kv, value);
                assert forall|x: Seq<char>| #[trigger] seq_get(listing(sv@), x) == seq_get(t1, x) by {
                    assert(seq_get(before, x) == seq_get(t, x));
                    assert(seq_get(t1, x) == seq_get(seq_insert(t, kv, value), x));
                }
            }
            i = i + 1;
        }
        proof {
            assert(s.take(n as int) =~= s);
            lemma_sorted_distinct(listing(sv@));
            assert(sorted_as(listing(sv@), s));
            let c = sorted_pairs(s);
            assert(sorted_as(c, s));
            lemma_sorted_unique(listing(sv@), c);
        }
        StrMap { entries: sv }
    }
}

} // verus!
