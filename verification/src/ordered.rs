//! A map from names to values that keeps its entries in the order of the
//! names.

use vstd::prelude::*;
use crate::text::{less, same, text_less};

verus! {

/// The entries `entries`, which are in the order of their keys, with the
/// value `value` for `key`: in place of the entry with that key where
/// there is one, else before the first entry with a greater key.
pub open spec fn sorted_insert<V>(entries: Seq<(Seq<char>, V)>, key: Seq<char>, value: V) -> Seq<
    (Seq<char>, V),
>
    decreases entries.len(),
{
    if entries.len() == 0 {
        seq![(key, value)]
    } else if entries[0].0 == key {
        seq![(key, value)] + entries.skip(1)
    } else if text_less(key, entries[0].0) {
        seq![(key, value)] + entries
    } else {
        seq![entries[0]] + sorted_insert(entries.skip(1), key, value)
    }
}

/// The value of the first entry with key `key`.
pub open spec fn find<V>(entries: Seq<(Seq<char>, V)>, key: Seq<char>) -> Option<V>
    decreases entries.len(),
{
    if entries.len() == 0 {
        None
    } else if entries[0].0 == key {
        Some(entries[0].1)
    } else {
        find(entries.skip(1), key)
    }
}

/// Whether an entry has the key `key`.
pub open spec fn has_key<V>(entries: Seq<(Seq<char>, V)>, key: Seq<char>) -> bool {
    exists|i: int| 0 <= i < entries.len() && (#[trigger] entries[i]).0 == key
}

/// A key is found exactly if an entry has it.
pub proof fn lemma_find_has_key<V>(entries: Seq<(Seq<char>, V)>, key: Seq<char>)
    ensures
        find(entries, key) is Some <==> has_key(entries, key),
    decreases entries.len(),
{
    if entries.len() > 0 && entries[0].0 != key {
        lemma_find_has_key(entries.skip(1), key);
        if has_key(entries.skip(1), key) {
            let i = choose|i: int|
                0 <= i < entries.skip(1).len() && (#[trigger] entries.skip(1)[i]).0 == key;
            assert(entries[i + 1].0 == key);
        }
        if has_key(entries, key) {
            let i = choose|i: int| 0 <= i < entries.len() && (#[trigger] entries[i]).0 == key;
            assert(entries.skip(1)[i - 1].0 == key);
        }
    }
}

/// A map from names to values whose entries are kept in the order of the
/// names.
#[derive(Debug)]
pub struct OrderedMap<V: DeepView> {
    entries: Vec<(String, V)>,
}

impl<V: DeepView> OrderedMap<V> {
    /// The entries, in order, each with the text of its key.
    pub closed spec fn view(&self) -> Seq<(Seq<char>, V::V)> {
        Seq::new(
            self.entries@.len(),
            |i: int| (self.entries@[i].0@, self.entries@[i].1.deep_view()),
        )
    }

    /// An empty map.
    pub fn new() -> (r: Self)
        ensures
            r@ == Seq::<(Seq<char>, V::V)>::empty(),
    {
        let r = OrderedMap { entries: Vec::new() };
        assert(r@ =~= Seq::<(Seq<char>, V::V)>::empty());
        r
    }

    /// The number of entries.
    pub fn len(&self) -> (n: usize)
        ensures
            n == self@.len(),
    {
        self.entries.len()
    }

    /// Whether the map has no entry.
    pub fn is_empty(&self) -> (r: bool)
        ensures
            r == (self@.len() == 0),
    {
        self.entries.len() == 0
    }

    /// The key of the `i`-th entry.
    pub fn key(&self, i: usize) -> (r: &String)
        requires
            i < self@.len(),
        ensures
            r@ == self@[i as int].0,
    {
        &self.entries[i].0
    }

    /// The value of the `i`-th entry.
    pub fn value(&self, i: usize) -> (r: &V)
        requires
            i < self@.len(),
        ensures
            r.deep_view() == self@[i as int].1,
    {
        &self.entries[i].1
    }

    /// The value for `key`.
    pub fn get(&self, key: &str) -> (r: Option<&V>)
        ensures
            match r {
                Some(v) => find(self@, key@) == Some(v.deep_view()),
                None => find(self@, key@) is None,
            },
    {
        let mut i: usize = 0;
        assert(self@.skip(0) =~= self@);
        while i < self.entries.len()
            invariant
                i <= self@.len(),
                self@.len() == self.entries@.len(),
                find(self@, key@) == find(self@.skip(i as int), key@),
            decreases self.entries@.len() - i,
        {
            assert(self@.skip(i as int)[0] == self@[i as int]);
            if same(self.entries[i].0.as_str(), key) {
                return Some(&self.entries[i].1);
            }
            assert(self@.skip(i as int).skip(1) =~= self@.skip(i as int + 1));
            i += 1;
        }
        assert(self@.skip(i as int).len() == 0);
        None
    }

    /// Whether the map has an entry for `key`.
    pub fn contains_key(&self, key: &str) -> (r: bool)
        ensures
            r == has_key(self@, key@),
    {
        proof {
            lemma_find_has_key(self@, key@);
        }
        self.get(key).is_some()
    }

    /// Sets the value for `key`, keeping the entries in the order of their
    /// keys: the value takes the place of the entry with that key where
    /// there is one.
    pub fn insert(&mut self, key: String, value: V)
        ensures
            final(self)@ == sorted_insert(old(self)@, key@, value.deep_view()),
    {
        let ghost before = self@;
        let mut i: usize = 0;
        let mut replace = false;
        assert(before.skip(0) =~= before);
        assert(before.take(0) + sorted_insert(before.skip(0), key@, value.deep_view()) =~= sorted_insert(
            before,
            key@,
            value.deep_view(),
        ));
        while i < self.entries.len()
            invariant_except_break
                !replace,
                sorted_insert(before, key@, value.deep_view()) == before.take(i as int) + sorted_insert(
                    before.skip(i as int),
                    key@,
                    value.deep_view(),
                ),
            invariant
                i <= before.len(),
                self@ == before,
                before.len() == self.entries@.len(),
            ensures
                replace ==> i < before.len(),
                sorted_insert(before, key@, value.deep_view()) == before.take(i as int) + (if replace {
                    seq![(key@, value.deep_view())] + before.skip(i as int + 1)
                } else {
                    seq![(key@, value.deep_view())] + before.skip(i as int)
                }),
            decreases self.entries@.len() - i,
        {
            let ghost rest = before.skip(i as int);
            assert(rest[0] == before[i as int]);
            if same(self.entries[i].0.as_str(), key.as_str()) {
                assert(sorted_insert(rest, key@, value.deep_view()) == seq![(key@, value.deep_view())] + rest.skip(1));
                assert(rest.skip(1) =~= before.skip(i as int + 1));
                replace = true;
                break ;
            }
            if less(key.as_str(), self.entries[i].0.as_str()) {
                assert(sorted_insert(rest, key@, value.deep_view()) == seq![(key@, value.deep_view())] + rest);
                break ;
            }
            assert(sorted_insert(rest, key@, value.deep_view()) == seq![rest[0]] + sorted_insert(
                rest.skip(1),
                key@,
                value.deep_view(),
            ));
            assert(before.take(i as int) + (seq![rest[0]] + sorted_insert(
                rest.skip(1),
                key@,
                value.deep_view(),
            )) =~= before.take(i as int + 1) + sorted_insert(before.skip(i as int + 1), key@, value.deep_view()))
                by {
                assert(rest.skip(1) =~= before.skip(i as int + 1));
                assert(before.take(i as int) + seq![rest[0]] =~= before.take(i as int + 1));
            }
            i += 1;
        }
        if replace {
            let mut entry = (key, value);
            self.entries.set_and_swap(i, &mut entry);
            assert(self@ =~= before.take(i as int) + (seq![(key@, value.deep_view())] + before.skip(
                i as int + 1,
            )));
        } else {
            self.entries.insert(i, (key, value));
            assert(self@ =~= before.take(i as int) + (seq![(key@, value.deep_view())] + before.skip(i as int)));
        }
    }
}

impl<V: DeepView> Default for OrderedMap<V> {
    fn default() -> (r: Self)
        ensures
            r@ == Seq::<(Seq<char>, V::V)>::empty(),
    {
        OrderedMap::new()
    }
}

} // verus!
