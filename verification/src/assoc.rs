//! Ordered maps from keys to integers, kept as vectors sorted by key.
//!
//! A map is seen as a `Map` from key views to values; the order of its keys
//! is that of the key type's `key_lt`, which for the library's keys is the
//! order that a derived `Ord` gives them.
use crate::integer::Integer;
use crate::text::{lemma_text_lt_irreflexive, lemma_text_lt_total, lemma_text_lt_transitive, text_less, text_lt};
use vstd::prelude::*;

verus! {

/// Keys with a strict total order on their views.
pub trait OrderedKey: View + Sized {
    spec fn key_lt(a: Self::V, b: Self::V) -> bool;

    proof fn lemma_key_lt_irreflexive(a: Self::V)
        ensures
            !Self::key_lt(a, a),
    ;

    proof fn lemma_key_lt_transitive(a: Self::V, b: Self::V, c: Self::V)
        requires
            Self::key_lt(a, b),
            Self::key_lt(b, c),
        ensures
            Self::key_lt(a, c),
    ;

    proof fn lemma_key_lt_total(a: Self::V, b: Self::V)
        ensures
            Self::key_lt(a, b) || Self::key_lt(b, a) || a == b,
    ;

    fn less(&self, other: &Self) -> (r: bool)
        ensures
            r == Self::key_lt(self@, other@),
    ;

    fn copy_key(&self) -> (r: Self)
        ensures
            r@ == self@,
    ;
}

impl OrderedKey for String {
    open spec fn key_lt(a: Seq<char>, b: Seq<char>) -> bool {
        text_lt(a, b)
    }

    proof fn lemma_key_lt_irreflexive(a: Seq<char>) {
        lemma_text_lt_irreflexive(a);
    }

    proof fn lemma_key_lt_transitive(a: Seq<char>, b: Seq<char>, c: Seq<char>) {
        lemma_text_lt_transitive(a, b, c);
    }

    proof fn lemma_key_lt_total(a: Seq<char>, b: Seq<char>) {
        lemma_text_lt_total(a, b);
    }

    fn less(&self, other: &Self) -> (r: bool) {
        text_less(self.as_str(), other.as_str())
    }

    fn copy_key(&self) -> (r: Self) {
        self.clone()
    }
}

/// Keys in strictly increasing order.
pub open spec fn strictly_sorted<K: OrderedKey>(s: Seq<(K::V, int)>) -> bool {
    forall|i: int, j: int| #![trigger s[i], s[j]] 0 <= i < j < s.len() ==> K::key_lt(s[i].0, s[j].0)
}

/// Whether `k` is the key of some entry.
pub open spec fn has_key<KV>(s: Seq<(KV, int)>, k: KV) -> bool {
    exists|i: int| 0 <= i < s.len() && #[trigger] s[i].0 == k
}

/// The map that a sequence of entries with distinct keys stands for.
pub open spec fn entries_map<KV>(s: Seq<(KV, int)>) -> Map<KV, int> {
    Map::new(|k: KV| has_key(s, k), |k: KV| s[choose|i: int| 0 <= i < s.len() && #[trigger] s[i].0 == k].1)
}

pub proof fn lemma_entries_map<K: OrderedKey>(s: Seq<(K::V, int)>)
    requires
        strictly_sorted::<K>(s),
    ensures
        forall|i: int| 0 <= i < s.len() ==> #[trigger] entries_map(s).dom().contains(s[i].0) && entries_map(s)[s[i].0] == s[i].1,
        forall|k: K::V| #[trigger] entries_map(s).dom().contains(k) <==> has_key(s, k),
        entries_map(s).dom().finite(),
        entries_map(s).dom().len() == s.len(),
{
    assert forall|i: int| 0 <= i < s.len() implies #[trigger] entries_map(s).dom().contains(s[i].0) && entries_map(s)[s[i].0] == s[i].1 by {
        assert(has_key(s, s[i].0));
        let j = choose|j: int| 0 <= j < s.len() && #[trigger] s[j].0 == s[i].0;
        if j < i {
            K::lemma_key_lt_irreflexive(s[i].0);
        } else if j > i {
            K::lemma_key_lt_irreflexive(s[i].0);
        }
    }
    lemma_entries_map_len::<K>(s);
}

proof fn lemma_entries_map_len<K: OrderedKey>(s: Seq<(K::V, int)>)
    requires
        strictly_sorted::<K>(s),
    ensures
        entries_map(s).dom().finite(),
        entries_map(s).dom().len() == s.len(),
    decreases s.len(),
{
    if s.len() == 0 {
        assert(entries_map(s).dom() =~= Set::empty());
    } else {
        let t = s.drop_last();
        assert(strictly_sorted::<K>(t)) by {
            assert forall|i: int, j: int| 0 <= i < j < t.len() implies K::key_lt(#[trigger] t[i].0, #[trigger] t[j].0) by {
                assert(t[i] == s[i] && t[j] == s[j]);
            }
        }
        lemma_entries_map_len::<K>(t);
        let last = s.last().0;
        assert(!has_key(t, last)) by {
            if has_key(t, last) {
                let i = choose|i: int| 0 <= i < t.len() && #[trigger] t[i].0 == last;
                assert(t[i] == s[i]);
                assert(K::key_lt(s[i].0, s[s.len() - 1].0));
                K::lemma_key_lt_irreflexive(last);
            }
        }
        assert(entries_map(s).dom() =~= entries_map(t).dom().insert(last)) by {
            assert forall|k: K::V| #[trigger] entries_map(s).dom().contains(k) implies entries_map(t).dom().insert(last).contains(k) by {
                let i = choose|i: int| 0 <= i < s.len() && #[trigger] s[i].0 == k;
                if i < s.len() - 1 {
                    assert(t[i] == s[i]);
                }
            }
            assert forall|k: K::V| #[trigger] entries_map(t).dom().insert(last).contains(k) implies entries_map(s).dom().contains(k) by {
                if k == last {
                    assert(s[s.len() - 1].0 == k);
                } else {
                    let i = choose|i: int| 0 <= i < t.len() && #[trigger] t[i].0 == k;
                    assert(s[i] == t[i]);
                }
            }
        }
    }
}

proof fn lemma_entries_map_finite<KV>(s: Seq<(KV, int)>)
    ensures
        entries_map(s).dom().finite(),
{
    let keys = s.map_values(|e: (KV, int)| e.0);
    assert(entries_map(s).dom() =~= keys.to_set()) by {
        assert forall|k: KV| #[trigger] entries_map(s).dom().contains(k) <==> keys.to_set().contains(k) by {
            if has_key(s, k) {
                let i = choose|i: int| 0 <= i < s.len() && #[trigger] s[i].0 == k;
                assert(keys[i] == k);
            }
            if keys.contains(k) {
                let i = choose|i: int| 0 <= i < keys.len() && keys[i] == k;
                assert(s[i].0 == k);
            }
        }
    }
    vstd::seq_lib::seq_to_set_is_finite(keys);
}

/// The entries of a map, in key order.
pub open spec fn ordered_entries<K: OrderedKey>(m: Map<K::V, int>) -> Seq<(K::V, int)> {
    choose|s: Seq<(K::V, int)>| strictly_sorted::<K>(s) && entries_map(s) == m
}

proof fn lemma_entries_drop_first<K: OrderedKey>(s: Seq<(K::V, int)>)
    requires
        strictly_sorted::<K>(s),
        s.len() > 0,
    ensures
        strictly_sorted::<K>(s.drop_first()),
        entries_map(s.drop_first()) == entries_map(s).remove(s[0].0),
{
    let t = s.drop_first();
    assert(strictly_sorted::<K>(t)) by {
        assert forall|i: int, j: int| 0 <= i < j < t.len() implies K::key_lt(#[trigger] t[i].0, #[trigger] t[j].0) by {
            assert(t[i] == s[i + 1] && t[j] == s[j + 1]);
        }
    }
    lemma_entries_map::<K>(s);
    lemma_entries_map::<K>(t);
    assert forall|k: K::V| #[trigger] entries_map(t).dom().contains(k) <==> entries_map(s).remove(s[0].0).dom().contains(k) by {
        if has_key(t, k) {
            let i = choose|i: int| 0 <= i < t.len() && #[trigger] t[i].0 == k;
            assert(t[i] == s[i + 1]);
            assert(K::key_lt(s[0].0, s[i + 1].0));
            if k == s[0].0 {
                K::lemma_key_lt_irreflexive(k);
            }
        }
        if has_key(s, k) && k != s[0].0 {
            let i = choose|i: int| 0 <= i < s.len() && #[trigger] s[i].0 == k;
            assert(i > 0);
            assert(t[i - 1] == s[i]);
        }
    }
    assert forall|k: K::V| #[trigger] entries_map(t).dom().contains(k) implies entries_map(t)[k] == entries_map(s)[k] by {
        let i = choose|i: int| 0 <= i < t.len() && #[trigger] t[i].0 == k;
        assert(t[i] == s[i + 1]);
    }
    assert(entries_map(t) =~= entries_map(s).remove(s[0].0));
}

/// Two key-ordered entry sequences of one map are the same sequence.
pub proof fn lemma_sorted_entries_unique<K: OrderedKey>(s1: Seq<(K::V, int)>, s2: Seq<(K::V, int)>)
    requires
        strictly_sorted::<K>(s1),
        strictly_sorted::<K>(s2),
        entries_map(s1) == entries_map(s2),
    ensures
        s1 == s2,
    decreases s1.len(),
{
    lemma_entries_map::<K>(s1);
    lemma_entries_map::<K>(s2);
    if s1.len() == 0 {
        assert(s2.len() == 0);
        assert(s1 =~= s2);
    } else {
        let a = s1[0].0;
        let b = s2[0].0;
        assert(entries_map(s1).dom().contains(a));
        assert(entries_map(s2).dom().contains(b));
        if a != b {
            let j = choose|j: int| 0 <= j < s2.len() && #[trigger] s2[j].0 == a;
            let i = choose|i: int| 0 <= i < s1.len() && #[trigger] s1[i].0 == b;
            assert(j > 0 && i > 0);
            assert(K::key_lt(s2[0].0, s2[j].0));
            assert(K::key_lt(s1[0].0, s1[i].0));
            K::lemma_key_lt_transitive(a, b, a);
            K::lemma_key_lt_irreflexive(a);
        }
        assert(s1[0].1 == entries_map(s1)[a]);
        assert(s2[0].1 == entries_map(s2)[b]);
        lemma_entries_drop_first::<K>(s1);
        lemma_entries_drop_first::<K>(s2);
        lemma_sorted_entries_unique::<K>(s1.drop_first(), s2.drop_first());
        assert forall|i: int| 0 <= i < s1.len() implies s1[i] == s2[i] by {
            if i > 0 {
                assert(s1[i] == s1.drop_first()[i - 1]);
                assert(s2[i] == s2.drop_first()[i - 1]);
            }
        }
        assert(s1 =~= s2);
    }
}

/// `k` is the least key, in key order, whose value is positive.
pub open spec fn least_positive_key<K: OrderedKey>(m: Map<K::V, int>, k: K::V) -> bool {
    &&& m.dom().contains(k)
    &&& m[k] > 0
    &&& forall|j: K::V| #[trigger] m.dom().contains(j) && m[j] > 0 && j != k ==> K::key_lt(k, j)
}

/// The least key whose value is positive, if there is one.
pub open spec fn first_positive_key<K: OrderedKey>(m: Map<K::V, int>) -> Option<K::V> {
    if exists|k: K::V| least_positive_key::<K>(m, k) {
        Some(choose|k: K::V| least_positive_key::<K>(m, k))
    } else {
        None
    }
}

/// Only one key can be the least positive one.
pub proof fn lemma_least_positive_unique<K: OrderedKey>(m: Map<K::V, int>, a: K::V, b: K::V)
    requires
        least_positive_key::<K>(m, a),
        least_positive_key::<K>(m, b),
    ensures
        a == b,
{
    if a != b {
        assert(K::key_lt(a, b));
        assert(K::key_lt(b, a));
        K::lemma_key_lt_transitive(a, b, a);
        K::lemma_key_lt_irreflexive(a);
    }
}

proof fn lemma_least_in<K: OrderedKey>(m: Map<K::V, int>, s: Set<K::V>, x: K::V) -> (k: K::V)
    requires
        s.finite(),
        s.contains(x),
        m[x] > 0,
    ensures
        s.contains(k),
        m[k] > 0,
        forall|j: K::V| #[trigger] s.contains(j) && m[j] > 0 && j != k ==> K::key_lt(k, j),
    decreases s.len(),
{
    let rest = s.remove(x);
    if exists|y: K::V| rest.contains(y) && m[y] > 0 {
        let y = choose|y: K::V| rest.contains(y) && m[y] > 0;
        let k1 = lemma_least_in::<K>(m, rest, y);
        K::lemma_key_lt_total(x, k1);
        if K::key_lt(x, k1) {
            assert forall|j: K::V| #[trigger] s.contains(j) && m[j] > 0 && j != x implies K::key_lt(x, j) by {
                assert(rest.contains(j));
                if j != k1 {
                    K::lemma_key_lt_transitive(x, k1, j);
                }
            }
            x
        } else {
            assert forall|j: K::V| #[trigger] s.contains(j) && m[j] > 0 && j != k1 implies K::key_lt(k1, j) by {
                if j != x {
                    assert(rest.contains(j));
                }
            }
            k1
        }
    } else {
        assert forall|j: K::V| #[trigger] s.contains(j) && m[j] > 0 && j != x implies K::key_lt(x, j) by {
            assert(rest.contains(j));
        }
        x
    }
}

/// A finite map in which some value is positive has a least positive key.
pub proof fn lemma_positive_has_least<K: OrderedKey>(m: Map<K::V, int>, x: K::V)
    requires
        m.dom().finite(),
        m.dom().contains(x),
        m[x] > 0,
    ensures
        first_positive_key::<K>(m) is Some,
{
    let k = lemma_least_in::<K>(m, m.dom(), x);
    assert(least_positive_key::<K>(m, k));
}

/// The entries of a map as plain values.
pub open spec fn entries_view<K: View>(s: Seq<(K, Integer)>) -> Seq<(K::V, int)> {
    s.map_values(|e: (K, Integer)| (e.0@, e.1@))
}

/// A map from keys to integers, its entries sorted by key.
#[derive(Debug, PartialEq, Eq)]
pub struct SortedMap<K: OrderedKey> {
    entries: Vec<(K, Integer)>,
}

impl<K: OrderedKey> SortedMap<K> {
    #[verifier::type_invariant]
    closed spec fn sorted(&self) -> bool {
        strictly_sorted::<K>(entries_view(self.entries@))
    }

    /// The entries, in key order.
    pub closed spec fn entry_seq(&self) -> Seq<(K::V, int)> {
        entries_view(self.entries@)
    }
}

impl<K: OrderedKey> View for SortedMap<K> {
    type V = Map<K::V, int>;

    closed spec fn view(&self) -> Map<K::V, int> {
        entries_map(entries_view(self.entries@))
    }
}

impl<K: OrderedKey> SortedMap<K> {
    /// A map has finitely many keys.
    pub proof fn lemma_finite(&self)
        ensures
            self@.dom().finite(),
    {
        lemma_entries_map_finite(self.entry_seq());
    }

    /// An empty map.
    pub fn new() -> (r: Self)
        ensures
            r@ == Map::<K::V, int>::empty(),
    {
        let r = SortedMap { entries: Vec::new() };
        assert(entries_view(r.entries@) =~= Seq::empty());
        assert(r@ =~= Map::<K::V, int>::empty());
        r
    }

    /// The number of keys.
    pub fn len(&self) -> (r: usize)
        ensures
            r == self@.dom().len(),
    {
        proof { use_type_invariant(self); lemma_entries_map::<K>(self.entry_seq()); }
        self.entries.len()
    }

    /// Whether there is no key.
    pub fn is_empty(&self) -> (r: bool)
        ensures
            r == (self@.dom().len() == 0),
    {
        proof { use_type_invariant(self); lemma_entries_map::<K>(self.entry_seq()); }
        self.entries.len() == 0
    }

    /// The first position whose key is not below `k`, and whether its key is `k`.
    fn position(&self, k: &K) -> (r: (usize, bool))
        ensures
            r.0 <= self.entry_seq().len(),
            forall|i: int| 0 <= i < r.0 ==> K::key_lt(#[trigger] self.entry_seq()[i].0, k@),
            r.0 < self.entry_seq().len() ==> !K::key_lt(self.entry_seq()[r.0 as int].0, k@),
            r.1 == (r.0 < self.entry_seq().len() && self.entry_seq()[r.0 as int].0 == k@),
            r.1 == self@.dom().contains(k@),
    {
        proof { use_type_invariant(self); lemma_entries_map::<K>(self.entry_seq()); }
        let ghost s = self.entry_seq();
        let mut i: usize = 0;
        while i < self.entries.len() && self.entries[i].0.less(k)
            invariant
                s == entries_view(self.entries@),
                strictly_sorted::<K>(s),
                i <= s.len(),
                forall|j: int| 0 <= j < i ==> K::key_lt(#[trigger] s[j].0, k@),
            decreases s.len() - i,
        {
            assert(s[i as int].0 == self.entries@[i as int].0@);
            i = i + 1;
        }
        if i < self.entries.len() {
            assert(s[i as int].0 == self.entries@[i as int].0@);
            let found = !k.less(&self.entries[i].0);
            proof {
                if found {
                    K::lemma_key_lt_total(s[i as int].0, k@);
                }
                if self@.dom().contains(k@) {
                    let j = choose|j: int| 0 <= j < s.len() && #[trigger] s[j].0 == k@;
                    if j < i {
                        K::lemma_key_lt_irreflexive(k@);
                    } else if j > i {
                        assert(K::key_lt(s[i as int].0, s[j].0));
                        if !found {
                            K::lemma_key_lt_irreflexive(k@);
                        }
                    }
                }
                if found {
                    K::lemma_key_lt_irreflexive(k@);
                }
            }
            (i, found)
        } else {
            proof {
                if self@.dom().contains(k@) {
                    let j = choose|j: int| 0 <= j < s.len() && #[trigger] s[j].0 == k@;
                    K::lemma_key_lt_irreflexive(k@);
                }
            }
            (i, false)
        }
    }

    /// The value at `k`, if any.
    pub fn get(&self, k: &K) -> (r: Option<&Integer>)
        ensures
            match r {
                Some(v) => self@.dom().contains(k@) && self@[k@] == v@,
                None => !self@.dom().contains(k@),
            },
    {
        proof { use_type_invariant(self); lemma_entries_map::<K>(self.entry_seq()); }
        let (i, found) = self.position(k);
        if found {
            assert(self.entry_seq()[i as int].1 == self.entries@[i as int].1@);
            Some(&self.entries[i].1)
        } else {
            None
        }
    }

    /// Whether `k` has a value.
    pub fn contains_key(&self, k: &K) -> (r: bool)
        ensures
            r == self@.dom().contains(k@),
    {
        self.position(k).1
    }

    /// Sets the value at `k`, giving back the value it replaces.
    pub fn insert(&mut self, k: K, v: Integer) -> (r: Option<Integer>)
        ensures
            final(self)@ == old(self)@.insert(k@, v@),
            match r {
                Some(o) => old(self)@.dom().contains(k@) && old(self)@[k@] == o@,
                None => !old(self)@.dom().contains(k@),
            },
    {
        proof { use_type_invariant(&*self); lemma_entries_map::<K>(self.entry_seq()); }
        let ghost s = self.entry_seq();
        let ghost kv = k@;
        let ghost vv = v@;
        let (i, found) = self.position(&k);
        if found {
            assert(s[i as int].1 == self.entries@[i as int].1@);
            let ghost t = s.update(i as int, (kv, vv));
            proof {
                assert(strictly_sorted::<K>(t)) by {
                    assert forall|a: int, b: int| 0 <= a < b < t.len() implies K::key_lt(#[trigger] t[a].0, #[trigger] t[b].0) by {
                        assert(t[a].0 == s[a].0 && t[b].0 == s[b].0);
                    }
                }
                lemma_entries_map::<K>(t);
                assert(entries_map(t) =~= entries_map(s).insert(kv, vv)) by {
                    assert forall|x: K::V| #[trigger] entries_map(t).dom().contains(x) <==> entries_map(s).insert(kv, vv).dom().contains(x) by {
                        if has_key(t, x) {
                            let j = choose|j: int| 0 <= j < t.len() && #[trigger] t[j].0 == x;
                            assert(s[j].0 == t[j].0);
                        }
                        if has_key(s, x) {
                            let j = choose|j: int| 0 <= j < s.len() && #[trigger] s[j].0 == x;
                            assert(s[j].0 == t[j].0);
                        }
                    }
                    assert forall|x: K::V| #[trigger] entries_map(t).dom().contains(x) implies entries_map(t)[x] == entries_map(s).insert(kv, vv)[x] by {
                        let j = choose|j: int| 0 <= j < t.len() && #[trigger] t[j].0 == x;
                        assert(s[j].0 == t[j].0);
                    }
                }
            }
            let old_value = self.entries[i].1.duplicate();
            let mut entries: Vec<(K, Integer)> = Vec::new();
            std::mem::swap(&mut entries, &mut self.entries);
            entries.set(i, (k, v));
            assert(entries_view(entries@) =~= t);
            self.entries = entries;
            Some(old_value)
        } else {
            let ghost t = s.insert(i as int, (kv, vv));
            proof {
                assert(strictly_sorted::<K>(t)) by {
                    assert forall|a: int, b: int| 0 <= a < b < t.len() implies K::key_lt(#[trigger] t[a].0, #[trigger] t[b].0) by {
                        if b < i {
                            assert(t[a] == s[a] && t[b] == s[b]);
                        } else if b == i {
                            assert(t[a] == s[a]);
                        } else if a == i {
                            assert(t[b] == s[b - 1]);
                            if b - 1 > i {
                                assert(K::key_lt(s[i as int].0, s[b - 1].0));
                                K::lemma_key_lt_total(s[i as int].0, kv);
                                K::lemma_key_lt_transitive(kv, s[i as int].0, s[b - 1].0);
                            } else {
                                K::lemma_key_lt_total(s[i as int].0, kv);
                            }
                        } else if a < i {
                            assert(t[a] == s[a] && t[b] == s[b - 1]);
                        } else {
                            assert(t[a] == s[a - 1] && t[b] == s[b - 1]);
                        }
                    }
                }
                lemma_entries_map::<K>(t);
                assert(entries_map(t) =~= entries_map(s).insert(kv, vv)) by {
                    assert forall|x: K::V| #[trigger] entries_map(t).dom().contains(x) <==> entries_map(s).insert(kv, vv).dom().contains(x) by {
                        if has_key(t, x) {
                            let j = choose|j: int| 0 <= j < t.len() && #[trigger] t[j].0 == x;
                            if j < i {
                                assert(t[j] == s[j]);
                            } else if j > i {
                                assert(t[j] == s[j - 1]);
                            }
                        }
                        if has_key(s, x) {
                            let j = choose|j: int| 0 <= j < s.len() && #[trigger] s[j].0 == x;
                            if j < i {
                                assert(t[j] == s[j]);
                            } else {
                                assert(t[j + 1] == s[j]);
                            }
                        }
                        if x == kv {
                            assert(t[i as int].0 == kv);
                        }
                    }
                    assert forall|x: K::V| #[trigger] entries_map(t).dom().contains(x) implies entries_map(t)[x] == entries_map(s).insert(kv, vv)[x] by {
                        let j = choose|j: int| 0 <= j < t.len() && #[trigger] t[j].0 == x;
                        if j < i {
                            assert(t[j] == s[j]);
                        } else if j > i {
                            assert(t[j] == s[j - 1]);
                        }
                    }
                }
            }
            let mut entries: Vec<(K, Integer)> = Vec::new();
            std::mem::swap(&mut entries, &mut self.entries);
            entries.insert(i, (k, v));
            assert(entries_view(entries@) =~= t);
            self.entries = entries;
            None
        }
    }

    /// Removes `k`, giving back its value.
    pub fn remove(&mut self, k: &K) -> (r: Option<Integer>)
        ensures
            final(self)@ == old(self)@.remove(k@),
            match r {
                Some(o) => old(self)@.dom().contains(k@) && old(self)@[k@] == o@,
                None => !old(self)@.dom().contains(k@),
            },
    {
        proof { use_type_invariant(&*self); lemma_entries_map::<K>(self.entry_seq()); }
        let ghost s = self.entry_seq();
        let (i, found) = self.position(k);
        if found {
            let ghost t = s.remove(i as int);
            proof {
                assert(strictly_sorted::<K>(t)) by {
                    assert forall|a: int, b: int| 0 <= a < b < t.len() implies K::key_lt(#[trigger] t[a].0, #[trigger] t[b].0) by {
                        if b < i {
                            assert(t[a] == s[a] && t[b] == s[b]);
                        } else if a < i {
                            assert(t[a] == s[a] && t[b] == s[b + 1]);
                        } else {
                            assert(t[a] == s[a + 1] && t[b] == s[b + 1]);
                        }
                    }
                }
                lemma_entries_map::<K>(t);
                assert(entries_map(t) =~= entries_map(s).remove(k@)) by {
                    assert forall|x: K::V| #[trigger] entries_map(t).dom().contains(x) <==> entries_map(s).remove(k@).dom().contains(x) by {
                        if has_key(t, x) {
                            let j = choose|j: int| 0 <= j < t.len() && #[trigger] t[j].0 == x;
                            if j < i {
                                assert(t[j] == s[j]);
                                assert(K::key_lt(s[j].0, s[i as int].0));
                                if x == k@ {
                                    K::lemma_key_lt_irreflexive(x);
                                }
                            } else {
                                assert(t[j] == s[j + 1]);
                                assert(K::key_lt(s[i as int].0, s[j + 1].0));
                                if x == k@ {
                                    K::lemma_key_lt_irreflexive(x);
                                }
                            }
                        }
                        if has_key(s, x) && x != k@ {
                            let j = choose|j: int| 0 <= j < s.len() && #[trigger] s[j].0 == x;
                            if j < i {
                                assert(t[j] == s[j]);
                            } else {
                                assert(t[j - 1] == s[j]);
                            }
                        }
                    }
                    assert forall|x: K::V| #[trigger] entries_map(t).dom().contains(x) implies entries_map(t)[x] == entries_map(s).remove(k@)[x] by {
                        let j = choose|j: int| 0 <= j < t.len() && #[trigger] t[j].0 == x;
                        if j < i {
                            assert(t[j] == s[j]);
                        } else {
                            assert(t[j] == s[j + 1]);
                        }
                    }
                }
            }
            let mut entries: Vec<(K, Integer)> = Vec::new();
            std::mem::swap(&mut entries, &mut self.entries);
            let (_, old_value) = entries.remove(i);
            assert(entries_view(entries@) =~= t);
            self.entries = entries;
            Some(old_value)
        } else {
            assert(entries_map(s).remove(k@) =~= entries_map(s));
            None
        }
    }

    /// The entry of the least key whose value is positive, if any.
    pub fn first_positive(&self) -> (r: Option<(K, Integer)>)
        ensures
            match r {
                Some(e) => first_positive_key::<K>(self@) == Some(e.0@) && self@[e.0@] == e.1@,
                None => first_positive_key::<K>(self@) is None && forall|k: K::V| #[trigger] self@.dom().contains(k) ==> self@[k] <= 0,
            },
    {
        proof { use_type_invariant(self); lemma_entries_map::<K>(self.entry_seq()); }
        let ghost s = self.entry_seq();
        let mut i: usize = 0;
        while i < self.entries.len()
            invariant
                s == entries_view(self.entries@),
                strictly_sorted::<K>(s),
                i <= s.len(),
                forall|j: int| 0 <= j < i ==> #[trigger] s[j].1 <= 0,
                self@ == entries_map(s),
            decreases s.len() - i,
        {
            assert(s[i as int] == (self.entries@[i as int].0@, self.entries@[i as int].1@));
            if self.entries[i].1.is_positive() {
                let k = self.entries[i].0.copy_key();
                let v = self.entries[i].1.duplicate();
                proof {
                    lemma_entries_map::<K>(s);
                    let m = self@;
                    assert(s.len() == self.entries@.len());
                    assert(k@ == s[i as int].0);
                    let ii: int = i as int;
                    assert(0 <= ii < s.len());
                    assert(strictly_sorted::<K>(s));
                    assert(entries_map(s).dom().contains(s[ii].0));
                    assert(entries_map(s)[s[ii].0] == s[ii].1);
                    assert forall|j: K::V| #[trigger] m.dom().contains(j) && m[j] > 0 && j != k@ implies K::key_lt(k@, j) by {
                        let x = choose|x: int| 0 <= x < s.len() && #[trigger] s[x].0 == j;
                        if x < i {
                        } else if x == i {
                        } else {
                            assert(K::key_lt(s[i as int].0, s[x].0));
                        }
                    }
                    assert(least_positive_key::<K>(m, k@));
                    let c = choose|c: K::V| least_positive_key::<K>(m, c);
                    lemma_least_positive_unique::<K>(m, c, k@);
                }
                return Some((k, v));
            }
            i = i + 1;
        }
        proof {
            lemma_entries_map::<K>(s);
            let m = self@;
            assert forall|k: K::V| #[trigger] m.dom().contains(k) implies m[k] <= 0 by {
                let x = choose|x: int| 0 <= x < s.len() && #[trigger] s[x].0 == k;
            }
        }
        None
    }

    /// A copy of the map.
    pub fn duplicate(&self) -> (r: Self)
        ensures
            r@ == self@,
            r.entry_seq() == self.entry_seq(),
    {
        proof { use_type_invariant(self); }
        let ghost s = self.entry_seq();
        let mut entries: Vec<(K, Integer)> = Vec::new();
        let mut i: usize = 0;
        while i < self.entries.len()
            invariant
                s == entries_view(self.entries@),
                i <= s.len(),
                entries_view(entries@) == s.subrange(0, i as int),
            decreases s.len() - i,
        {
            let k = self.entries[i].0.copy_key();
            let v = self.entries[i].1.duplicate();
            assert(s[i as int] == (k@, v@));
            let ghost before = entries@;
            entries.push((k, v));
            assert(entries_view(entries@) =~= entries_view(before).push((k@, v@)));
            i = i + 1;
            assert(entries_view(entries@) =~= s.subrange(0, i as int));
        }
        assert(entries_view(entries@) =~= s);
        SortedMap { entries }
    }

    /// The entries in key order.
    pub fn entries(&self) -> (r: &Vec<(K, Integer)>)
        ensures
            entries_view(r@) == self.entry_seq(),
            entries_view(r@) == ordered_entries::<K>(self@),
    {
        proof {
            use_type_invariant(self);
            let s = self.entry_seq();
            let o = ordered_entries::<K>(self@);
            assert(strictly_sorted::<K>(s) && entries_map(s) == self@);
            lemma_sorted_entries_unique::<K>(o, s);
        }
        &self.entries
    }
}

} // verus!
