//! Configuration of a generation run.

use vstd::prelude::*;
use crate::text::same;

verus! {

/// Whether generated types own their contents or borrow them.
#[derive(Debug, Clone, Copy)]
pub enum Ownership {
    /// Generated types are composed entirely of owning fields, whether or
    /// not they are used as parameters.
    Owning,
    /// Generated types that are used only as parameters borrow their
    /// contents.
    Borrowing {
        /// Whether a type that is used both as a parameter and as a result
        /// gets two definitions, a borrowing one and an owning one.
        duplicate_if_necessary: bool,
    },
}

impl Default for Ownership {
    fn default() -> (r: Self)
        ensures
            r == Ownership::Owning,
    {
        Ownership::Owning
    }
}

/// An error type of the schema that host functions report through a
/// generated error type able to carry a trap as well.
#[derive(Debug, Clone)]
pub struct TrappableError {
    /// The name of the error type in the schema.
    pub wit_name: String,
    /// The name of the interface or world that owns the error type; `None`
    /// matches a type of that name in any interface.
    pub wit_owner: Option<String>,
    /// The name of the error type to generate.
    pub rust_name: String,
}

/// A map from names to names that keeps the order in which its keys were
/// first inserted.
#[derive(Debug, Clone)]
pub struct NameMap {
    entries: Vec<(String, String)>,
}

/// The value that the first entry with key `key` holds, if there is one.
pub open spec fn lookup(entries: Seq<(Seq<char>, Seq<char>)>, key: Seq<char>) -> Option<
    Seq<char>,
>
    decreases entries.len(),
{
    if entries.len() == 0 {
        None
    } else if entries[0].0 == key {
        Some(entries[0].1)
    } else {
        lookup(entries.skip(1), key)
    }
}

impl NameMap {
    /// The entries in the order in which their keys were first inserted.
    pub closed spec fn view(&self) -> Seq<(Seq<char>, Seq<char>)> {
        Seq::new(self.entries@.len(), |i: int| (self.entries@[i].0@, self.entries@[i].1@))
    }

    /// The value that the map holds for `key`.
    pub open spec fn value_of(&self, key: Seq<char>) -> Option<Seq<char>> {
        lookup(self@, key)
    }

    /// Whether no key occurs twice.
    pub open spec fn wf(&self) -> bool {
        forall|i: int, j: int|
            0 <= i < j < self@.len() ==> (#[trigger] self@[i]).0 != (#[trigger] self@[j]).0
    }

    /// An empty map.
    pub fn new() -> (r: Self)
        ensures
            r@ == Seq::<(Seq<char>, Seq<char>)>::empty(),
            r.wf(),
    {
        let r = NameMap { entries: Vec::new() };
        assert(r@ =~= Seq::<(Seq<char>, Seq<char>)>::empty());
        r
    }

    /// The number of entries.
    pub fn len(&self) -> (n: usize)
        ensures
            n == self@.len(),
    {
        self.entries.len()
    }

    /// Whether the map has no entry.
    pub fn is_empty(&self) -> (r: bool)
        ensures
            r == (self@.len() == 0),
    {
        self.entries.len() == 0
    }

    /// The key of the `i`-th entry.
    pub fn key(&self, i: usize) -> (r: &String)
        requires
            i < self@.len(),
        ensures
            r@ == self@[i as int].0,
    {
        &self.entries[i].0
    }

    /// The value of the `i`-th entry.
    pub fn value(&self, i: usize) -> (r: &String)
        requires
            i < self@.len(),
        ensures
            r@ == self@[i as int].1,
    {
        &self.entries[i].1
    }

    fn position(&self, key: &str) -> (r: Option<usize>)
        ensures
            match r {
                Some(i) => {
                    &&& i < self@.len()
                    &&& self@[i as int].0 == key@
                    &&& forall|j: int| 0 <= j < i ==> (#[trigger] self@[j]).0 != key@
                    &&& lookup(self@, key@) == Some(self@[i as int].1)
                },
                None => {
                    &&& forall|j: int| 0 <= j < self@.len() ==> (#[trigger] self@[j]).0 != key@
                    &&& lookup(self@, key@) is None
                },
            },
    {
        let mut i: usize = 0;
        assert(self@.skip(0) =~= self@);
        while i < self.entries.len()
            invariant
                i <= self@.len(),
                self@.len() == self.entries@.len(),
                forall|j: int| 0 <= j < i ==> (#[trigger] self@[j]).0 != key@,
                lookup(self@, key@) == lookup(self@.skip(i as int), key@),
            decreases self.entries@.len() - i,
        {
            if same(self.entries[i].0.as_str(), key) {
                assert(self@.skip(i as int)[0] == self@[i as int]);
                return Some(i);
            }
            assert(self@.skip(i as int)[0] == self@[i as int]);
            assert(self@.skip(i as int).skip(1) =~= self@.skip(i as int + 1));
            i += 1;
        }
        assert(self@.skip(i as int).len() == 0);
        None
    }

    /// The value that the map holds for `key`.
    pub fn get(&self, key: &str) -> (r: Option<&String>)
        ensures
            crate::text::opt_ref_text(r) == self.value_of(key@),
    {
        match self.position(key) {
            Some(i) => Some(&self.entries[i].1),
            None => None,
        }
    }

    /// Sets the value for `key`: in place where the map has the key, as a
    /// new last entry where it has not.  Returns the value that was
    /// replaced.
    pub fn insert(&mut self, key: String, value: String) -> (r: Option<String>)
        requires
            old(self).wf(),
        ensures
            final(self).wf(),
            crate::text::opt_text(r) == old(self).value_of(key@),
            final(self).value_of(key@) == Some(value@),
            match r {
                Some(_) => exists|i: int|
                    0 <= i < old(self)@.len() && old(self)@[i].0 == key@ && final(self)@ == old(
                        self,
                    )@.update(i, (key@, value@)),
                None => final(self)@ == old(self)@.push((key@, value@)),
            },
    {
        match self.position(key.as_str()) {
            Some(i) => {
                let ghost before = self@;
                let mut entry = (key, value);
                self.entries.set_and_swap(i, &mut entry);
                assert(self@ =~= before.update(i as int, (key@, value@)));
                proof {
                    assert forall|a: int, b: int| 0 <= a < b < self@.len() implies (
                    #[trigger] self@[a]).0 != (#[trigger] self@[b]).0 by {
                        assert(before[a].0 != before[b].0);
                    }
                    lemma_lookup_first(self@, key@, i as int);
                }
                Some(entry.1)
            },
            None => {
                let ghost before = self@;
                self.entries.push((key, value));
                assert(self@ =~= before.push((key@, value@)));
                proof {
                    lemma_lookup_first(self@, key@, before.len() as int);
                }
                None
            },
        }
    }
}

/// Where `i` is the first entry with key `key`, the lookup of `key` gives
/// its value.
pub proof fn lemma_lookup_first(entries: Seq<(Seq<char>, Seq<char>)>, key: Seq<char>, i: int)
    requires
        0 <= i < entries.len(),
        entries[i].0 == key,
        forall|j: int| 0 <= j < i ==> (#[trigger] entries[j]).0 != key,
    ensures
        lookup(entries, key) == Some(entries[i].1),
    decreases i,
{
    if i > 0 {
        assert(entries[0].0 != key);
        assert forall|j: int| 0 <= j < i - 1 implies (#[trigger] entries.skip(1)[j]).0 != key by {
            assert(entries[j + 1].0 != key);
        }
        lemma_lookup_first(entries.skip(1), key, i - 1);
    }
}

impl Default for NameMap {
    fn default() -> (r: Self)
        ensures
            r@ == Seq::<(Seq<char>, Seq<char>)>::empty(),
            r.wf(),
    {
        NameMap::new()
    }
}

/// The options of a generation run.
#[derive(Debug, Clone)]
pub struct Opts {
    /// Whether the generated text is to be formatted with `rustfmt`.
    pub rustfmt: bool,
    /// Whether the generated code emits `tracing` events on function entry
    /// and exit.
    pub tracing: bool,
    /// Whether the generated functions and traits are `async`.
    pub async_: bool,
    /// The error types that replace the `E` of a `result<T, E>`.
    pub trappable_error_type: Vec<TrappableError>,
    /// Whether generated types own or borrow.
    pub ownership: Ownership,
    /// Whether only the interfaces of the world are generated.
    pub only_interfaces: bool,
    /// Remapping of interface names to paths of existing Rust modules.
    pub with: NameMap,
    /// The host type that implements each resource, by resource name.
    pub resources: NameMap,
}

impl Default for Opts {
    fn default() -> (r: Self)
        ensures
            !r.rustfmt,
            !r.tracing,
            !r.async_,
            r.trappable_error_type@.len() == 0,
            r.ownership == Ownership::Owning,
            !r.only_interfaces,
            r.with@.len() == 0,
            r.with.wf(),
            r.resources@.len() == 0,
            r.resources.wf(),
    {
        Opts {
            rustfmt: false,
            tracing: false,
            async_: false,
            trappable_error_type: Vec::new(),
            ownership: Ownership::Owning,
            only_interfaces: false,
            with: NameMap::new(),
            resources: NameMap::new(),
        }
    }
}

} // verus!
