//! Executable maps and sets keyed by 64-bit party and round identifiers,
//! each carrying a mathematical view (`Map` or `Set`) that the engine's
//! contracts are stated over.

use vstd::prelude::*;
use vstd::pervasive::cloned;
use crate::errors::{LocalError, ProtocolValidationError};

verus! {

/// No two entries of the sequence share a key.
pub open spec fn distinct_keys<V>(s: Seq<(u64, V)>) -> bool {
    forall|i: int, j: int| 0 <= i < j < s.len() ==> (#[trigger] s[i]).0 != (#[trigger] s[j]).0
}

/// The mathematical map described by a key-value sequence; later entries win.
pub open spec fn kv_map<V>(s: Seq<(u64, V)>) -> Map<u64, V>
    decreases s.len(),
{
    if s.len() == 0 {
        Map::empty()
    } else {
        kv_map(s.drop_last()).insert(s.last().0, s.last().1)
    }
}

/// Some entry of the sequence carries the key.
pub open spec fn has_key<V>(s: Seq<(u64, V)>, k: u64) -> bool {
    exists|i: int| 0 <= i < s.len() && (#[trigger] s[i]).0 == k
}

proof fn lemma_kv_map_dom<V>(s: Seq<(u64, V)>)
    ensures
        forall|k: u64| #[trigger] kv_map(s).dom().contains(k) <==> has_key(s, k),
    decreases s.len(),
{
    if s.len() == 0 {
    } else {
        let dl = s.drop_last();
        lemma_kv_map_dom(dl);
        assert forall|k: u64| #[trigger] kv_map(s).dom().contains(k) <==> has_key(s, k) by {
            if kv_map(s).dom().contains(k) {
                if k == s.last().0 {
                    assert((s[s.len() - 1]).0 == k);
                } else {
                    assert(kv_map(dl).dom().contains(k));
                    assert(has_key(dl, k));
                    let i = choose|i: int| 0 <= i < dl.len() && (#[trigger] dl[i]).0 == k;
                    assert((s[i]).0 == k);
                }
            }
            if has_key(s, k) {
                let i = choose|i: int| 0 <= i < s.len() && (#[trigger] s[i]).0 == k;
                if i < s.len() - 1 {
                    assert((dl[i]).0 == k);
                    assert(has_key(dl, k));
                    assert(kv_map(dl).dom().contains(k));
                    assert(kv_map(s).dom().contains(k));
                } else {
                    assert(k == s.last().0);
                    assert(kv_map(s).dom().contains(k));
                }
            }
        }
    }
}

proof fn lemma_kv_map_vals<V>(s: Seq<(u64, V)>)
    requires
        distinct_keys(s),
    ensures
        forall|i: int| 0 <= i < s.len() ==> kv_map(s)[(#[trigger] s[i]).0] == s[i].1,
    decreases s.len(),
{
    if s.len() == 0 {
    } else {
        let dl = s.drop_last();
        lemma_kv_map_vals(dl);
        assert forall|i: int| 0 <= i < s.len() implies kv_map(s)[(#[trigger] s[i]).0] == s[i].1 by {
            if i < s.len() - 1 {
                assert((dl[i]).0 == s[i].0 && (dl[i]).1 == s[i].1);
                assert(s[i].0 != s.last().0);
            }
        }
    }
}

/// An executable finite map from 64-bit identifiers to values.
///
/// Its view is a `Map<u64, V>`; `elems()` additionally exposes the entry
/// order, which callers use to iterate.
#[derive(Debug)]
pub struct IdMap<V> {
    entries: Vec<(u64, V)>,
}

impl<V> View for IdMap<V> {
    type V = Map<u64, V>;

    closed spec fn view(&self) -> Map<u64, V> {
        kv_map(self.entries@)
    }
}

impl<V> IdMap<V> {
    #[verifier::type_invariant]
    spec fn inv(self) -> bool {
        distinct_keys(self.entries@)
    }

    /// The entries in iteration order.
    pub closed spec fn elems(self) -> Seq<(u64, V)> {
        self.entries@
    }

    /// Makes the relation between the entry sequence and the map view
    /// available to the caller; has no run-time effect.
    pub fn entries_facts(&self)
        ensures
            self.elems().len() <= usize::MAX,
            distinct_keys(self.elems()),
            forall|k: u64| #[trigger] self@.dom().contains(k) <==> has_key(self.elems(), k),
            forall|i: int| 0 <= i < self.elems().len() ==> self@.contains_pair(
                (#[trigger] self.elems()[i]).0,
                self.elems()[i].1,
            ),
    {
        let n = self.entries.len();
        proof {
            use_type_invariant(self);
            lemma_kv_map_dom(self.entries@);
            lemma_kv_map_vals(self.entries@);
            assert forall|i: int| 0 <= i < self.elems().len() implies self@.contains_pair(
                (#[trigger] self.elems()[i]).0,
                self.elems()[i].1,
            ) by {
                assert(has_key(self.entries@, (self.entries@[i]).0));
            }
        }
    }

    /// An empty map.
    pub fn new() -> (r: Self)
        ensures
            r@ == Map::<u64, V>::empty(),
            r.elems() == Seq::<(u64, V)>::empty(),
    {
        IdMap { entries: Vec::new() }
    }

    /// The number of entries.
    pub fn len(&self) -> (r: usize)
        ensures
            r == self.elems().len(),
    {
        self.entries.len()
    }

    /// Whether the map has no entries.
    pub fn is_empty(&self) -> (r: bool)
        ensures
            r == (self.elems().len() == 0),
            r == self@.dom().is_empty(),
    {
        proof {
            use_type_invariant(self);
            lemma_kv_map_dom(self.entries@);
            if self.entries@.len() > 0 {
                assert(has_key(self.entries@, (self.entries@[0]).0));
                assert(self@.dom().contains((self.entries@[0]).0));
                assert(!self@.dom().is_empty());
            } else {
                assert(self@.dom() =~= Set::<u64>::empty());
                assert(self@.dom().is_empty());
            }
        }
        self.entries.len() == 0
    }

    /// Whether a value is filed under the key.
    pub fn contains_key(&self, k: u64) -> (r: bool)
        ensures
            r == self@.dom().contains(k),
    {
        proof {
            use_type_invariant(self);
            lemma_kv_map_dom(self.entries@);
        }
        let n = self.entries.len();
        let mut i: usize = 0;
        while i < n
            invariant
                i <= n,
                forall|j: int| 0 <= j < i ==> (#[trigger] self.entries@[j]).0 != k,
            decreases n - i,
        {
            if self.entries[i].0 == k {
                assert(has_key(self.entries@, k));
                return true;
            }
            i += 1;
        }
        assert(!has_key(self.entries@, k));
        false
    }

    /// The value filed under the key, if any.
    pub fn get(&self, k: u64) -> (r: Option<&V>)
        ensures
            match r {
                Some(v) => self@.dom().contains(k) && *v == self@[k],
                None => !self@.dom().contains(k),
            },
    {
        proof {
            use_type_invariant(self);
            lemma_kv_map_dom(self.entries@);
            lemma_kv_map_vals(self.entries@);
        }
        let n = self.entries.len();
        let mut i: usize = 0;
        while i < n
            invariant
                i <= n,
                forall|j: int| 0 <= j < i ==> (#[trigger] self.entries@[j]).0 != k,
            decreases n - i,
        {
            if self.entries[i].0 == k {
                assert(has_key(self.entries@, k));
                return Some(&self.entries[i].1);
            }
            i += 1;
        }
        assert(!has_key(self.entries@, k));
        None
    }

    /// Files a value under a key not yet present.
    pub fn insert(&mut self, k: u64, v: V)
        requires
            !old(self)@.dom().contains(k),
        ensures
            final(self)@ == old(self)@.insert(k, v),
            final(self).elems() == old(self).elems().push((k, v)),
    {
        proof {
            use_type_invariant(&*self);
            lemma_kv_map_dom(self.entries@);
        }
        let ghost s0 = self.entries@;
        let mut entries = Vec::new();
        core::mem::swap(&mut entries, &mut self.entries);
        entries.push((k, v));
        proof {
            assert(forall|j: int| 0 <= j < s0.len() ==> (#[trigger] s0[j]).0 != k);
            assert(entries@.drop_last() =~= s0);
        }
        core::mem::swap(&mut entries, &mut self.entries);
    }

    /// Removes and returns the value filed under the key, if any.
    pub fn remove(&mut self, k: u64) -> (r: Option<V>)
        ensures
            final(self)@ == old(self)@.remove(k),
            match r {
                Some(v) => old(self)@.dom().contains(k) && v == old(self)@[k],
                None => !old(self)@.dom().contains(k) && final(self).elems() == old(self).elems(),
            },
    {
        proof {
            use_type_invariant(&*self);
            lemma_kv_map_dom(self.entries@);
            lemma_kv_map_vals(self.entries@);
        }
        let ghost s0 = self.entries@;
        let n = self.entries.len();
        let mut i: usize = 0;
        while i < n
            invariant
                i <= n,
                self.entries@ == s0,
                n == s0.len(),
                forall|j: int| 0 <= j < i ==> (#[trigger] self.entries@[j]).0 != k,
            decreases n - i,
        {
            if self.entries[i].0 == k {
                assert(has_key(s0, k));
                let mut entries = Vec::new();
                core::mem::swap(&mut entries, &mut self.entries);
                let (_, v) = entries.remove(i);
                proof {
                    lemma_kv_map_remove_idx(s0, i as int);
                }
                core::mem::swap(&mut entries, &mut self.entries);
                return Some(v);
            }
            i += 1;
        }
        proof {
            assert(!has_key(s0, k));
            assert(kv_map(s0).remove(k) =~= kv_map(s0));
        }
        None
    }

    /// Removes and returns the most recently filed entry, if any.
    pub fn pop(&mut self) -> (r: Option<(u64, V)>)
        ensures
            old(self).elems().len() == 0 ==> r is None && final(self).elems() == old(self).elems()
                && final(self)@ == old(self)@,
            old(self).elems().len() > 0 ==> {
                &&& r == Some(old(self).elems().last())
                &&& final(self).elems() == old(self).elems().drop_last()
                &&& final(self)@ == old(self)@.remove(old(self).elems().last().0)
            },
    {
        proof {
            use_type_invariant(&*self);
            lemma_kv_map_dom(self.entries@);
        }
        let ghost s0 = self.entries@;
        let mut entries = Vec::new();
        core::mem::swap(&mut entries, &mut self.entries);
        let r = entries.pop();
        proof {
            if s0.len() > 0 {
                let dl = s0.drop_last();
                lemma_kv_map_dom(dl);
                assert(!has_key(dl, s0.last().0)) by {
                    if has_key(dl, s0.last().0) {
                        let i = choose|i: int|
                            0 <= i < dl.len() && (#[trigger] dl[i]).0 == s0.last().0;
                        assert((s0[i]).0 == (s0[s0.len() - 1]).0);
                    }
                }
                assert(kv_map(dl) =~= kv_map(s0).remove(s0.last().0));
            }
        }
        core::mem::swap(&mut entries, &mut self.entries);
        r
    }

    /// The key of the entry at the given position.
    pub fn key_at(&self, i: usize) -> (r: u64)
        requires
            i < self.elems().len(),
        ensures
            r == self.elems()[i as int].0,
    {
        self.entries[i].0
    }

    /// A reference to the value of the entry at the given position.
    pub fn value_at(&self, i: usize) -> (r: &V)
        requires
            i < self.elems().len(),
        ensures
            *r == self.elems()[i as int].1,
    {
        &self.entries[i].1
    }
}

impl<V: Clone> Clone for IdMap<V> {
    /// Clones the map entry-wise; each value is related to its original by
    /// what `V::clone` ensures.
    fn clone(&self) -> (r: Self)
        ensures
            r.elems().len() == self.elems().len(),
            forall|i: int| 0 <= i < self.elems().len() ==> (#[trigger] r.elems()[i]).0
                == self.elems()[i].0 && cloned::<V>(self.elems()[i].1, r.elems()[i].1),
    {
        proof {
            use_type_invariant(self);
        }
        let n = self.entries.len();
        let mut entries: Vec<(u64, V)> = Vec::new();
        let mut i: usize = 0;
        while i < n
            invariant
                i <= n,
                n == self.entries@.len(),
                entries@.len() == i,
                distinct_keys(self.entries@),
                forall|j: int| 0 <= j < i ==> (#[trigger] entries@[j]).0 == self.entries@[j].0
                    && cloned::<V>(self.entries@[j].1, entries@[j].1),
            decreases n - i,
        {
            let k = self.entries[i].0;
            let v = self.entries[i].1.clone();
            entries.push((k, v));
            i += 1;
        }
        proof {
            assert(distinct_keys(entries@));
        }
        IdMap { entries }
    }
}

proof fn lemma_kv_map_remove_idx<V>(s: Seq<(u64, V)>, i: int)
    requires
        distinct_keys(s),
        0 <= i < s.len(),
    ensures
        distinct_keys(s.remove(i)),
        kv_map(s.remove(i)) =~= kv_map(s).remove(s[i].0),
{
    let s2 = s.remove(i);
    s.remove_ensures(i);
    lemma_kv_map_dom(s);
    lemma_kv_map_dom(s2);
    lemma_kv_map_vals(s);
    assert(distinct_keys(s2)) by {
        assert forall|a: int, b: int| 0 <= a < b < s2.len() implies (#[trigger] s2[a]).0 != (
        #[trigger] s2[b]).0 by {
            let a0 = if a < i { a } else { a + 1 };
            let b0 = if b < i { b } else { b + 1 };
            assert(s2[a] == s[a0] && s2[b] == s[b0]);
        }
    }
    lemma_kv_map_vals(s2);
    let k0 = s[i].0;
    assert forall|k: u64| #[trigger] kv_map(s2).dom().contains(k) <==> kv_map(s).remove(
        k0,
    ).dom().contains(k) by {
        if has_key(s2, k) {
            let j = choose|j: int| 0 <= j < s2.len() && (#[trigger] s2[j]).0 == k;
            let j0 = if j < i { j } else { j + 1 };
            assert(s2[j] == s[j0]);
            assert(has_key(s, k));
            assert(k != k0);
        }
        if has_key(s, k) && k != k0 {
            let j0 = choose|j0: int| 0 <= j0 < s.len() && (#[trigger] s[j0]).0 == k;
            let j = if j0 < i { j0 } else { j0 - 1 };
            assert(s2[j] == s[j0]);
            assert(has_key(s2, k));
        }
    }
    assert forall|k: u64| #[trigger] kv_map(s2).dom().contains(k) implies kv_map(s2)[k] == kv_map(
        s,
    ).remove(k0)[k] by {
        let j = choose|j: int| 0 <= j < s2.len() && (#[trigger] s2[j]).0 == k;
        let j0 = if j < i { j } else { j + 1 };
        assert(s2[j] == s[j0]);
    }
}

/// No two elements of the sequence are equal.
pub open spec fn distinct_ids(s: Seq<u64>) -> bool {
    forall|i: int, j: int| 0 <= i < j < s.len() ==> s[i] != s[j]
}

/// The mathematical set of the sequence's elements.
pub open spec fn ids_set(s: Seq<u64>) -> Set<u64>
    decreases s.len(),
{
    if s.len() == 0 {
        Set::empty()
    } else {
        ids_set(s.drop_last()).insert(s.last())
    }
}

/// Some element of the sequence equals the id.
pub open spec fn has_id(s: Seq<u64>, x: u64) -> bool {
    exists|i: int| 0 <= i < s.len() && s[i] == x
}

proof fn lemma_ids_set_elems(s: Seq<u64>)
    ensures
        forall|x: u64| #[trigger] ids_set(s).contains(x) <==> has_id(s, x),
        ids_set(s).finite(),
    decreases s.len(),
{
    if s.len() == 0 {
    } else {
        let dl = s.drop_last();
        lemma_ids_set_elems(dl);
        assert forall|x: u64| #[trigger] ids_set(s).contains(x) <==> has_id(s, x) by {
            if ids_set(s).contains(x) {
                if x == s.last() {
                    assert(s[s.len() - 1] == x);
                } else {
                    let i = choose|i: int| 0 <= i < dl.len() && dl[i] == x;
                    assert(s[i] == x);
                }
            }
            if has_id(s, x) {
                let i = choose|i: int| 0 <= i < s.len() && s[i] == x;
                if i < s.len() - 1 {
                    assert(dl[i] == x);
                }
            }
        }
    }
}

/// An executable finite set of 64-bit identifiers.
///
/// Its view is a `Set<u64>`; `elems()` exposes the element order.
#[derive(Debug)]
pub struct IdSet {
    items: Vec<u64>,
}

impl View for IdSet {
    type V = Set<u64>;

    closed spec fn view(&self) -> Set<u64> {
        ids_set(self.items@)
    }
}

impl IdSet {
    #[verifier::type_invariant]
    spec fn inv(self) -> bool {
        distinct_ids(self.items@)
    }

    /// The elements in iteration order.
    pub closed spec fn elems(self) -> Seq<u64> {
        self.items@
    }

    /// Makes the relation between the element sequence and the set view
    /// available to the caller; has no run-time effect.
    pub fn elems_facts(&self)
        ensures
            self.elems().len() <= usize::MAX,
            distinct_ids(self.elems()),
            forall|x: u64| #[trigger] self@.contains(x) <==> has_id(self.elems(), x),
            self@.finite(),
            self@.is_empty() <==> self.elems().len() == 0,
    {
        let n = self.items.len();
        proof {
            use_type_invariant(self);
            lemma_ids_set_elems(self.items@);
            if self.items@.len() > 0 {
                assert(has_id(self.items@, self.items@[0]));
                assert(self@.contains(self.items@[0]));
            }
        }
    }

    /// An empty set.
    pub fn new() -> (r: Self)
        ensures
            r@ == Set::<u64>::empty(),
            r.elems() == Seq::<u64>::empty(),
    {
        IdSet { items: Vec::new() }
    }

    /// The number of elements.
    pub fn len(&self) -> (r: usize)
        ensures
            r == self.elems().len(),
    {
        self.items.len()
    }

    /// Whether the set has no elements.
    pub fn is_empty(&self) -> (r: bool)
        ensures
            r == (self.elems().len() == 0),
            r == self@.is_empty(),
    {
        proof {
            use_type_invariant(self);
            lemma_ids_set_elems(self.items@);
            if self.items@.len() > 0 {
                assert(has_id(self.items@, self.items@[0]));
                assert(self@.contains(self.items@[0]));
                assert(!self@.is_empty());
            } else {
                assert(self@ =~= Set::<u64>::empty());
                assert(self@.is_empty());
            }
        }
        self.items.len() == 0
    }

    /// Whether the id is an element.
    pub fn contains(&self, x: u64) -> (r: bool)
        ensures
            r == self@.contains(x),
    {
        proof {
            use_type_invariant(self);
            lemma_ids_set_elems(self.items@);
        }
        let n = self.items.len();
        let mut i: usize = 0;
        while i < n
            invariant
                i <= n,
                forall|j: int| 0 <= j < i ==> self.items@[j] != x,
            decreases n - i,
        {
            if self.items[i] == x {
                assert(has_id(self.items@, x));
                return true;
            }
            i += 1;
        }
        assert(!has_id(self.items@, x));
        false
    }

    /// Adds an id not yet present.
    pub fn insert(&mut self, x: u64)
        requires
            !old(self)@.contains(x),
        ensures
            final(self)@ == old(self)@.insert(x),
            final(self).elems() == old(self).elems().push(x),
    {
        proof {
            use_type_invariant(&*self);
            lemma_ids_set_elems(self.items@);
        }
        let ghost s0 = self.items@;
        let mut items = Vec::new();
        core::mem::swap(&mut items, &mut self.items);
        items.push(x);
        proof {
            assert(forall|j: int| 0 <= j < s0.len() ==> s0[j] != x);
            assert(items@.drop_last() =~= s0);
        }
        core::mem::swap(&mut items, &mut self.items);
    }

    /// Removes the id if present; says whether it was.
    pub fn remove(&mut self, x: u64) -> (r: bool)
        ensures
            final(self)@ == old(self)@.remove(x),
            r == old(self)@.contains(x),
    {
        proof {
            use_type_invariant(&*self);
            lemma_ids_set_elems(self.items@);
        }
        let ghost s0 = self.items@;
        let n = self.items.len();
        let mut i: usize = 0;
        while i < n
            invariant
                i <= n,
                self.items@ == s0,
                n == s0.len(),
                forall|j: int| 0 <= j < i ==> self.items@[j] != x,
            decreases n - i,
        {
            if self.items[i] == x {
                assert(has_id(s0, x));
                let mut items = Vec::new();
                core::mem::swap(&mut items, &mut self.items);
                items.remove(i);
                proof {
                    lemma_ids_set_remove_idx(s0, i as int);
                }
                core::mem::swap(&mut items, &mut self.items);
                return true;
            }
            i += 1;
        }
        proof {
            assert(!has_id(s0, x));
            assert(ids_set(s0).remove(x) =~= ids_set(s0));
        }
        false
    }

    /// The element at the given position.
    pub fn at(&self, i: usize) -> (r: u64)
        requires
            i < self.elems().len(),
        ensures
            r == self.elems()[i as int],
            self@.contains(self.elems()[i as int]),
    {
        proof {
            use_type_invariant(self);
            lemma_ids_set_elems(self.items@);
            assert(has_id(self.elems(), self.elems()[i as int]));
        }
        self.items[i]
    }
}

impl Clone for IdSet {
    /// Clones the set, keeping the elements and their order exactly.
    fn clone(&self) -> (r: Self)
        ensures
            r.elems() == self.elems(),
            r@ == self@,
    {
        proof {
            use_type_invariant(self);
        }
        let items = self.items.clone();
        proof {
            assert(items@ =~= self.items@);
        }
        IdSet { items }
    }
}

proof fn lemma_ids_set_remove_idx(s: Seq<u64>, i: int)
    requires
        distinct_ids(s),
        0 <= i < s.len(),
    ensures
        distinct_ids(s.remove(i)),
        ids_set(s.remove(i)) =~= ids_set(s).remove(s[i]),
{
    let s2 = s.remove(i);
    s.remove_ensures(i);
    lemma_ids_set_elems(s);
    lemma_ids_set_elems(s2);
    assert(distinct_ids(s2)) by {
        assert forall|a: int, b: int| 0 <= a < b < s2.len() implies s2[a] != s2[b] by {
            let a0 = if a < i { a } else { a + 1 };
            let b0 = if b < i { b } else { b + 1 };
            assert(s2[a] == s[a0] && s2[b] == s[b0]);
        }
    }
    let x0 = s[i];
    assert forall|x: u64| #[trigger] ids_set(s2).contains(x) <==> ids_set(s).remove(x0).contains(
        x,
    ) by {
        if has_id(s2, x) {
            let j = choose|j: int| 0 <= j < s2.len() && s2[j] == x;
            let j0 = if j < i { j } else { j + 1 };
            assert(s2[j] == s[j0]);
            assert(has_id(s, x));
            assert(x != x0);
        }
        if has_id(s, x) && x != x0 {
            let j0 = choose|j0: int| 0 <= j0 < s.len() && s[j0] == x;
            let j = if j0 < i { j0 } else { j0 - 1 };
            assert(s2[j] == s[j0]);
            assert(has_id(s2, x));
        }
    }
}

/// Implemented by collections allowing removal of a specific item.
pub trait Without<T>: Sized {
    /// Returns `self` with `item` removed.
    fn without(self, item: &T) -> Self;
}

impl Without<u64> for IdSet {
    fn without(self, item: &u64) -> Self {
        let mut s = self;
        s.remove(*item);
        s
    }
}

impl<V> Without<u64> for IdMap<V> {
    fn without(self, item: &u64) -> Self {
        let mut m = self;
        m.remove(*item);
        m
    }
}

/// Implemented by map-like collections allowing getting a value by key,
/// returning a context-appropriate error.
pub trait SafeGet<V> {
    /// Returns the value for `key`, which the surrounding logic expects to be
    /// present; `container` describes the map for the error message.
    fn safe_get(&self, container: &str, key: &u64) -> Result<&V, LocalError>;

    /// Returns the value for `key` in a map supplied from an external source;
    /// `container` describes the map for the error message.
    fn try_get(&self, container: &str, key: &u64) -> Result<&V, ProtocolValidationError>;
}

impl<V> SafeGet<V> for IdMap<V> {
    fn safe_get(&self, container: &str, key: &u64) -> Result<&V, LocalError> {
        match self.get(*key) {
            Some(v) => Ok(v),
            None => Err(LocalError::new(container.to_owned())),
        }
    }

    fn try_get(&self, container: &str, key: &u64) -> Result<&V, ProtocolValidationError> {
        match self.get(*key) {
            Some(v) => Ok(v),
            None => Err(ProtocolValidationError::InvalidEvidence(container.to_owned())),
        }
    }
}

/// Returns an error if `condition` is false.
///
/// A shortcut to use in evidence checking logic.
pub fn verify_that(condition: bool) -> (r: Result<(), ProtocolValidationError>)
    ensures
        r is Ok <==> condition,
        r matches Err(e) ==> e is InvalidEvidence,
{
    if condition {
        Ok(())
    } else {
        Err(
            ProtocolValidationError::InvalidEvidence(
                "the reported error cannot be reproduced".to_owned(),
            ),
        )
    }
}


/// Implemented by map-like collections keyed by round, allowing a lookup by
/// round number where the mapping was supplied from an external source.
pub trait GetRound<V> {
    /// Returns the value filed under the regular round with this number.
    ///
    /// This would generally be used in evidence checking logic.
    fn get_round(&self, round_num: u8) -> Result<&V, ProtocolValidationError>;
}

impl<V> GetRound<V> for IdMap<V> {
    fn get_round(&self, round_num: u8) -> Result<&V, ProtocolValidationError> {
        match self.get(crate::round_id::RoundId::new(round_num).key()) {
            Some(v) => Ok(v),
            None => Err(
                ProtocolValidationError::InvalidEvidence(
                    "the entry for the round is not present".to_owned(),
                ),
            ),
        }
    }
}

} // verus!
