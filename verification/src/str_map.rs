//! A map from text to values that is walked in dictionary order of its keys.
use vstd::prelude::*;

use crate::text::{
    precedes, precedes_irreflexive, precedes_total, precedes_transitive, same, text_precedes, texts,
};

verus! {

/// The value under the first entry whose key is `k`.
pub open spec fn lookup<W>(s: Seq<(Seq<char>, W)>, k: Seq<char>) -> Option<W>
    decreases s.len(),
{
    if s.len() == 0 {
        None
    } else if s[0].0 == k {
        Some(s[0].1)
    } else {
        lookup(s.drop_first(), k)
    }
}

/// `s` with `v` under the key `k`: in place of the entry that has that key, or
/// else in front of the first entry with a later key.
pub open spec fn inserted<W>(s: Seq<(Seq<char>, W)>, k: Seq<char>, v: W) -> Seq<(Seq<char>, W)>
    decreases s.len(),
{
    if s.len() == 0 {
        seq![(k, v)]
    } else if s[0].0 == k {
        seq![(k, v)] + s.drop_first()
    } else if precedes(k, s[0].0) {
        seq![(k, v)] + s
    } else {
        seq![s[0]] + inserted(s.drop_first(), k, v)
    }
}

/// The keys stand in strictly ascending dictionary order, so none occurs twice.
pub open spec fn ascending<W>(s: Seq<(Seq<char>, W)>) -> bool {
    forall|i: int, j: int| 0 <= i < j < s.len() ==> precedes(#[trigger] s[i].0, #[trigger] s[j].0)
}

/// Inserting keeps the keys in ascending order.
pub proof fn inserted_ascending<W>(s: Seq<(Seq<char>, W)>, k: Seq<char>, v: W)
    requires
        ascending(s),
    ensures
        ascending(inserted(s, k, v)),
    decreases s.len(),
{
    let t = inserted(s, k, v);
    if s.len() > 0 {
        let rest = s.drop_first();
        assert forall|i: int, j: int| 0 <= i < j < rest.len() implies precedes(
            #[trigger] rest[i].0,
            #[trigger] rest[j].0,
        ) by {
            assert(precedes(s[i + 1].0, s[j + 1].0));
        }
        if s[0].0 == k {
            assert forall|i: int, j: int| 0 <= i < j < t.len() implies precedes(
                #[trigger] t[i].0,
                #[trigger] t[j].0,
            ) by {
                assert(precedes(s[i].0, s[j].0));
            }
        } else if precedes(k, s[0].0) {
            assert forall|i: int, j: int| 0 <= i < j < t.len() implies precedes(
                #[trigger] t[i].0,
                #[trigger] t[j].0,
            ) by {
                if i > 0 {
                    assert(precedes(s[i - 1].0, s[j - 1].0));
                } else if j > 1 {
                    assert(precedes(s[0].0, s[j - 1].0));
                    precedes_transitive(k, s[0].0, s[j - 1].0);
                }
            }
        } else {
            precedes_total(k, s[0].0);
            inserted_ascending(rest, k, v);
            let u = inserted(rest, k, v);
            assert forall|i: int| 0 <= i < u.len() implies precedes(s[0].0, #[trigger] u[i].0) by {
                inserted_entry(rest, k, v, i);
                if u[i] != (k, v) {
                    let m = choose|m: int| 0 <= m < rest.len() && #[trigger] rest[m] == u[i];
                    assert(precedes(s[0].0, s[m + 1].0));
                }
            }
            assert forall|i: int, j: int| 0 <= i < j < t.len() implies precedes(
                #[trigger] t[i].0,
                #[trigger] t[j].0,
            ) by {
                if i > 0 {
                    assert(precedes(u[i - 1].0, u[j - 1].0));
                } else {
                    assert(precedes(s[0].0, u[j - 1].0));
                }
            }
        }
    }
}

/// What a map holds after a key was put in: the key with its value, or what was there.
pub proof fn inserted_entry<W>(s: Seq<(Seq<char>, W)>, k: Seq<char>, v: W, i: int)
    requires
        0 <= i < inserted(s, k, v).len(),
    ensures
        inserted(s, k, v)[i] == (k, v) || exists|m: int|
            0 <= m < s.len() && #[trigger] s[m] == inserted(s, k, v)[i],
    decreases s.len(),
{
    let t = inserted(s, k, v);
    if s.len() > 0 {
        if s[0].0 == k {
            if i > 0 {
                assert(t[i] == s[i]);
            }
        } else if precedes(k, s[0].0) {
            if i > 0 {
                assert(t[i] == s[i - 1]);
            }
        } else if i == 0 {
            assert(t[0] == s[0]);
        } else {
            let rest = s.drop_first();
            inserted_entry(rest, k, v, i - 1);
            assert(t[i] == inserted(rest, k, v)[i - 1]);
            if t[i] != (k, v) {
                let m = choose|m: int| 0 <= m < rest.len() && #[trigger] rest[m] == t[i];
                assert(s[m + 1] == t[i]);
            }
        }
    }
}

/// What was inserted is found again, and the entries under other keys are as before.
pub proof fn lookup_inserted<W>(s: Seq<(Seq<char>, W)>, k: Seq<char>, v: W, other: Seq<char>)
    ensures
        lookup(inserted(s, k, v), other) == if other == k {
            Some(v)
        } else {
            lookup(s, other)
        },
    decreases s.len(),
{
    let t = inserted(s, k, v);
    reveal_with_fuel(lookup, 2);
    if s.len() == 0 {
        assert(t =~= seq![(k, v)]);
        assert(t.drop_first() =~= Seq::empty());
    } else {
        let rest = s.drop_first();
        if s[0].0 == k {
            assert(t[0] == (k, v));
            assert(t.drop_first() =~= rest);
        } else if precedes(k, s[0].0) {
            assert(t[0] == (k, v));
            assert(t.drop_first() =~= s);
        } else {
            assert(t[0] == s[0]);
            assert(t.drop_first() =~= inserted(rest, k, v));
            lookup_inserted(rest, k, v, other);
        }
    }
}

/// An entry is found under its key where keys are ascending.
pub proof fn lookup_at<W>(s: Seq<(Seq<char>, W)>, i: int)
    requires
        ascending(s),
        0 <= i < s.len(),
    ensures
        lookup(s, s[i].0) == Some(s[i].1),
    decreases s.len(),
{
    if i > 0 {
        let rest = s.drop_first();
        precedes_irreflexive(s[i].0);
        assert(precedes(s[0].0, s[i].0));
        assert forall|a: int, b: int| 0 <= a < b < rest.len() implies precedes(
            #[trigger] rest[a].0,
            #[trigger] rest[b].0,
        ) by {
            assert(precedes(s[a + 1].0, s[b + 1].0));
        }
        lookup_at(rest, i - 1);
        assert(rest[i - 1] == s[i]);
    }
}

/// What is found stands under its key.
pub proof fn lookup_found<W>(s: Seq<(Seq<char>, W)>, k: Seq<char>)
    ensures
        lookup(s, k) is Some <==> exists|i: int| 0 <= i < s.len() && #[trigger] s[i].0 == k,
        lookup(s, k) matches Some(w) ==> exists|i: int|
            0 <= i < s.len() && #[trigger] s[i] == (k, w),
    decreases s.len(),
{
    if s.len() > 0 {
        let rest = s.drop_first();
        lookup_found(rest, k);
        if s[0].0 == k {
            assert(s[0] == (k, s[0].1));
        } else {
            if lookup(s, k) is Some {
                let w = lookup(s, k)->0;
                let i = choose|i: int| 0 <= i < rest.len() && #[trigger] rest[i] == (k, w);
                assert(s[i + 1] == (k, w));
            }
            if exists|i: int| 0 <= i < s.len() && #[trigger] s[i].0 == k {
                let i = choose|i: int| 0 <= i < s.len() && #[trigger] s[i].0 == k;
                assert(rest[i - 1].0 == k);
            }
        }
    }
}

/// `s` without the entries under the key `k`.
pub open spec fn removed<W>(s: Seq<(Seq<char>, W)>, k: Seq<char>) -> Seq<(Seq<char>, W)>
    decreases s.len(),
{
    if s.len() == 0 {
        s
    } else if s[0].0 == k {
        removed(s.drop_first(), k)
    } else {
        seq![s[0]] + removed(s.drop_first(), k)
    }
}

/// What was removed is found no more, and the entries under other keys are as before.
pub proof fn lookup_removed<W>(s: Seq<(Seq<char>, W)>, k: Seq<char>, other: Seq<char>)
    ensures
        lookup(removed(s, k), other) == if other == k {
            None
        } else {
            lookup(s, other)
        },
    decreases s.len(),
{
    if s.len() > 0 {
        let rest = s.drop_first();
        lookup_removed(rest, k, other);
        if s[0].0 != k {
            let t = removed(s, k);
            assert(t[0] == s[0]);
            assert(t.drop_first() =~= removed(rest, k));
        }
    }
}

/// A key that comes after all others is inserted at the end.
pub proof fn inserted_last<W>(s: Seq<(Seq<char>, W)>, k: Seq<char>, v: W)
    requires
        forall|i: int| 0 <= i < s.len() ==> precedes(#[trigger] s[i].0, k),
    ensures
        inserted(s, k, v) == s.push((k, v)),
    decreases s.len(),
{
    if s.len() > 0 {
        let rest = s.drop_first();
        assert forall|i: int| 0 <= i < rest.len() implies precedes(#[trigger] rest[i].0, k) by {
            assert(precedes(s[i + 1].0, k));
        }
        inserted_last(rest, k, v);
        precedes_irreflexive(k);
        assert(precedes(s[0].0, k));
        if precedes(k, s[0].0) {
            precedes_transitive(k, s[0].0, k);
        }
    }
    assert(inserted(s, k, v) =~= s.push((k, v)));
}

/// A map from text to `V`, walked in dictionary order of the keys.
#[derive(Debug, Clone, PartialEq)]
pub struct StrMap<V> {
    entries: Vec<(String, V)>,
}

impl<V: View> View for StrMap<V> {
    type V = Seq<(Seq<char>, V::V)>;

    closed spec fn view(&self) -> Seq<(Seq<char>, V::V)> {
        self.entries@.map_values(|e: (String, V)| (e.0@, e.1@))
    }
}

impl<V: View> StrMap<V> {
    /// The empty map.
    pub fn new() -> (m: Self)
        ensures
            m@ == Seq::<(Seq<char>, V::V)>::empty(),
            ascending(m@),
    {
        let m = StrMap { entries: Vec::new() };
        assert(m@ =~= Seq::empty());
        m
    }

    /// The number of keys.
    pub fn len(&self) -> (n: usize)
        ensures
            n == self@.len(),
    {
        self.entries.len()
    }

    /// Whether there is no key.
    pub fn is_empty(&self) -> (r: bool)
        ensures
            r == (self@.len() == 0),
    {
        self.entries.len() == 0
    }

    /// The key at position `i` of the walk.
    pub fn key_at(&self, i: usize) -> (k: &String)
        requires
            i < self@.len(),
        ensures
            k@ == self@[i as int].0,
    {
        &self.entries[i].0
    }

    /// The value at position `i` of the walk.
    pub fn value_at(&self, i: usize) -> (v: &V)
        requires
            i < self@.len(),
        ensures
            v@ == self@[i as int].1,
    {
        &self.entries[i].1
    }

    /// The value under `key`.
    pub fn get(&self, key: &str) -> (r: Option<&V>)
        ensures
            match r {
                Some(v) => lookup(self@, key@) == Some(v@),
                None => lookup(self@, key@) is None,
            },
    {
        let mut i: usize = 0;
        assert(self@.skip(0) == self@);
        while i < self.entries.len()
            invariant
                i <= self.entries@.len(),
                self@.len() == self.entries@.len(),
                lookup(self@, key@) == lookup(self@.skip(i as int), key@),
            decreases self.entries@.len() - i,
        {
            assert(self@.skip(i as int)[0] == self@[i as int]);
            assert(self@.skip(i as int).drop_first() == self@.skip(i + 1));
            if same(self.entries[i].0.as_str(), key) {
                return Some(&self.entries[i].1);
            }
            i += 1;
        }
        None
    }

    /// Whether `key` has a value.
    pub fn contains_key(&self, key: &str) -> (r: bool)
        ensures
            r == (lookup(self@, key@) is Some),
    {
        self.get(key).is_some()
    }

    /// Puts `value` under `key`.
    pub fn insert(&mut self, key: String, value: V)
        ensures
            final(self)@ == inserted(old(self)@, key@, value@),
            ascending(old(self)@) ==> ascending(final(self)@),
    {
        let ghost before = self@;
        let ghost k = key@;
        let ghost w = value@;
        proof {
            if ascending(before) {
                inserted_ascending(before, k, w);
            }
        }
        let mut i: usize = 0;
        assert(before.skip(0) == before);
        assert(before.take(0) + inserted(before, k, w) =~= inserted(before, k, w));
        while i < self.entries.len() && text_precedes(
            self.entries[i].0.as_str(),
            key.as_str(),
        )
            invariant
                i <= self.entries@.len(),
                self@ == before,
                key@ == k,
                before.len() == self.entries@.len(),
                inserted(before, k, w) == before.take(i as int) + inserted(
                    before.skip(i as int),
                    k,
                    w,
                ),
            decreases self.entries@.len() - i,
        {
            proof {
                let s = before.skip(i as int);
                assert(s[0] == before[i as int]);
                assert(s.drop_first() == before.skip(i + 1));
                precedes_irreflexive(k);
                if precedes(k, s[0].0) {
                    precedes_transitive(k, s[0].0, k);
                }
                assert(inserted(s, k, w) == seq![s[0]] + inserted(s.drop_first(), k, w));
                assert(before.take(i as int) + (seq![s[0]] + inserted(s.drop_first(), k, w))
                    =~= before.take(i + 1) + inserted(before.skip(i + 1), k, w));
            }
            i += 1;
        }
        let ghost tail = before.skip(i as int);
        if i < self.entries.len() {
            assert(tail[0] == before[i as int]);
            if same(self.entries[i].0.as_str(), key.as_str()) {
                let _gone = self.entries.remove(i);
                self.entries.insert(i, (key, value));
                assert(self@ =~= before.take(i as int) + (seq![(k, w)] + tail.drop_first()));
            } else {
                proof {
                    precedes_total(k, tail[0].0);
                }
                self.entries.insert(i, (key, value));
                assert(self@ =~= before.take(i as int) + (seq![(k, w)] + tail));
            }
        } else {
            self.entries.insert(i, (key, value));
            assert(self@ =~= before.take(i as int) + seq![(k, w)]);
        }
    }

    /// Takes the entry under `key` out.
    pub fn remove(&mut self, key: &str)
        ensures
            final(self)@ == removed(old(self)@, key@),
    {
        let ghost before = self@;
        let mut i: usize = 0;
        assert(before.take(0) + removed(before.skip(0), key@) =~= removed(before, key@)) by {
            assert(before.skip(0) == before);
        }
        while i < self.entries.len()
            invariant
                i <= self.entries@.len(),
                self@.len() == self.entries@.len(),
                removed(before, key@) == self@.take(i as int) + removed(self@.skip(i as int), key@),
            decreases self.entries@.len() - i,
        {
            let ghost now = self@;
            let ghost rest = now.skip(i as int);
            assert(rest[0] == now[i as int]);
            if same(self.entries[i].0.as_str(), key) {
                let _gone = self.entries.remove(i);
                assert(self@.skip(i as int) =~= rest.drop_first());
                assert(self@.take(i as int) =~= now.take(i as int));
            } else {
                assert(now.skip(i + 1) =~= rest.drop_first());
                assert(now.take(i as int) + (seq![rest[0]] + removed(rest.drop_first(), key@))
                    =~= now.take(i + 1) + removed(now.skip(i + 1), key@));
                i += 1;
            }
        }
        assert(self@.skip(i as int) =~= Seq::empty());
        assert(self@.take(i as int) + removed(self@.skip(i as int), key@) =~= self@);
    }

    /// The keys in dictionary order.
    pub fn keys(&self) -> (r: Vec<String>)
        ensures
            r@.len() == self@.len(),
            forall|i: int| 0 <= i < r@.len() ==> #[trigger] r@[i]@ == self@[i].0,
    {
        let mut r: Vec<String> = Vec::new();
        let mut i: usize = 0;
        while i < self.entries.len()
            invariant
                i <= self.entries@.len(),
                self@.len() == self.entries@.len(),
                r@.len() == i,
                forall|j: int| 0 <= j < i ==> #[trigger] r@[j]@ == self@[j].0,
            decreases self.entries@.len() - i,
        {
            r.push(self.entries[i].0.clone());
            i += 1;
        }
        r
    }
}

/// A set of texts, walked in the order in which they came.
#[derive(Debug, Clone, PartialEq)]
pub struct StrSet {
    items: Vec<String>,
}

impl View for StrSet {
    type V = Seq<Seq<char>>;

    closed spec fn view(&self) -> Seq<Seq<char>> {
        texts(self.items@)
    }
}

/// The members of a set after `k` was put in: it comes last where it is new.
pub open spec fn included(s: Seq<Seq<char>>, k: Seq<char>) -> Seq<Seq<char>> {
    if s.contains(k) {
        s
    } else {
        s.push(k)
    }
}

impl StrSet {
    /// The empty set.
    pub fn new() -> (r: Self)
        ensures
            r@ == Seq::<Seq<char>>::empty(),
    {
        let r = StrSet { items: Vec::new() };
        assert(r@ =~= Seq::empty());
        r
    }

    /// The number of members.
    pub fn len(&self) -> (n: usize)
        ensures
            n == self@.len(),
    {
        self.items.len()
    }

    /// Whether `k` is a member.
    pub fn contains(&self, k: &str) -> (r: bool)
        ensures
            r == self@.contains(k@),
    {
        let mut i: usize = 0;
        while i < self.items.len()
            invariant
                i <= self.items@.len(),
                self@.len() == self.items@.len(),
                forall|j: int| 0 <= j < i ==> self@[j] != k@,
            decreases self.items@.len() - i,
        {
            assert(self@[i as int] == self.items@[i as int]@);
            if same(self.items[i].as_str(), k) {
                return true;
            }
            i += 1;
        }
        false
    }

    /// Puts `k` in, and says whether it is new.
    pub fn insert(&mut self, k: String) -> (r: bool)
        ensures
            final(self)@ == included(old(self)@, k@),
            r == !old(self)@.contains(k@),
    {
        if self.contains(k.as_str()) {
            false
        } else {
            let ghost before = self@;
            let ghost t = k@;
            self.items.push(k);
            assert(self@ =~= before.push(t));
            true
        }
    }
}

} // verus!
