//! Maps and sets keyed by domain names.
//!
//! Names are keys by their labels. A map holds at most one entry for a
//! name, and keeps its entries in the order in which they were added.

use crate::name::LowerName;
use vstd::prelude::*;

verus! {

/// A name and what is held for it.
#[derive(Debug)]
pub struct Named<V> {
    pub name: LowerName,
    pub value: V,
}

/// Whether the entry at `i` is for the name with labels `key`.
pub open spec fn named_at<V>(entries: Seq<Named<V>>, i: int, key: Seq<Seq<u8>>) -> bool {
    0 <= i < entries.len() && entries[i].name.key() == key
}

/// Whether no two entries are for the same name.
pub open spec fn distinct_named<V>(entries: Seq<Named<V>>) -> bool {
    forall|a: int, b: int|
        0 <= a < b < entries.len() ==> (#[trigger] entries[a]).name.key() != (
        #[trigger] entries[b]).name.key()
}

/// Whether some entry is for the name with labels `key`.
pub open spec fn holds_key<V>(entries: Seq<Named<V>>, key: Seq<Seq<u8>>) -> bool {
    exists|i: int| named_at(entries, i, key)
}

/// What the entries hold for the name with labels `key`.
pub open spec fn value_of<V>(entries: Seq<Named<V>>, key: Seq<Seq<u8>>) -> Option<V> {
    if holds_key(entries, key) {
        Some(entries[choose|i: int| named_at(entries, i, key)].value)
    } else {
        None
    }
}

/// Among entries with distinct names, the entry for a name is the one that
/// holds its value.
pub proof fn lemma_value_at<V>(entries: Seq<Named<V>>, i: int)
    requires
        distinct_named(entries),
        0 <= i < entries.len(),
    ensures
        value_of(entries, entries[i].name.key()) == Some(entries[i].value),
{
    let key = entries[i].name.key();
    assert(named_at(entries, i, key));
    let j = choose|j: int| named_at(entries, j, key);
    if i < j {
        assert(entries[i].name.key() != entries[j].name.key());
    } else if j < i {
        assert(entries[j].name.key() != entries[i].name.key());
    }
}

/// An entry for a new name adds that name with its value and keeps the
/// rest.
pub proof fn lemma_value_push<V>(entries: Seq<Named<V>>, entry: Named<V>, key: Seq<Seq<u8>>)
    requires
        distinct_named(entries),
        !holds_key(entries, entry.name.key()),
    ensures
        distinct_named(entries.push(entry)),
        value_of(entries.push(entry), key) == if key == entry.name.key() {
            Some(entry.value)
        } else {
            value_of(entries, key)
        },
{
    let after = entries.push(entry);
    let last = entries.len() as int;
    assert forall|a: int, b: int| 0 <= a < b < after.len() implies after[a].name.key()
        != after[b].name.key() by {
        if b == last {
            assert(!named_at(entries, a, entry.name.key()));
        }
    }
    if key == entry.name.key() {
        lemma_value_at(after, last);
    } else if holds_key(entries, key) {
        let i = choose|i: int| named_at(entries, i, key);
        assert(named_at(after, i, key));
        lemma_value_at(entries, i);
        lemma_value_at(after, i);
    } else {
        if holds_key(after, key) {
            let i = choose|i: int| named_at(after, i, key);
            assert(named_at(entries, i, key));
        }
    }
}

/// A map from domain names to values. No name has more than one entry.
#[derive(Debug)]
pub struct NameMap<V> {
    entries: Vec<Named<V>>,
}

impl<V> NameMap<V> {
    #[verifier::type_invariant]
    spec fn inv(&self) -> bool {
        distinct_named(self.entries@)
    }

    /// The entries, in the order in which they were added.
    pub closed spec fn entries(&self) -> Seq<Named<V>> {
        self.entries@
    }

    /// What the map holds for the name with labels `key`.
    pub open spec fn value(&self, key: Seq<Seq<u8>>) -> Option<V> {
        value_of(self.entries(), key)
    }

    /// Whether the map has an entry for the name with labels `key`.
    pub open spec fn holds(&self, key: Seq<Seq<u8>>) -> bool {
        holds_key(self.entries(), key)
    }

    /// An empty map.
    pub fn new() -> (map: NameMap<V>)
        ensures
            map.entries().len() == 0,
    {
        NameMap { entries: Vec::new() }
    }

    /// The entries of the map. No two are for the same name.
    pub fn as_entries(&self) -> (entries: &Vec<Named<V>>)
        ensures
            entries@ == self.entries(),
            distinct_named(self.entries()),
    {
        proof {
            use_type_invariant(self);
        }
        &self.entries
    }

    /// Index of the entry for `name`, if there is one.
    fn position(&self, name: &LowerName) -> (found: Option<usize>)
        ensures
            match found {
                Some(i) => named_at(self.entries@, i as int, name.key()),
                None => !holds_key(self.entries@, name.key()),
            },
    {
        let mut i: usize = 0;
        while i < self.entries.len()
            invariant
                i <= self.entries.len(),
                forall|j: int| 0 <= j < i ==> !named_at(self.entries@, j, name.key()),
            decreases self.entries.len() - i,
        {
            if self.entries[i].name.same_as(name) {
                return Some(i);
            }
            i = i + 1;
        }
        None
    }

    /// What the map holds for `name`, if it has an entry for it.
    pub fn get(&self, name: &LowerName) -> (found: Option<&V>)
        ensures
            match found {
                Some(value) => self.value(name.key()) == Some(*value),
                None => self.value(name.key()) is None,
            },
    {
        proof {
            use_type_invariant(self);
        }
        match self.position(name) {
            Some(i) => {
                proof {
                    lemma_value_at(self.entries@, i as int);
                }
                Some(&self.entries[i].value)
            },
            None => None,
        }
    }

    /// Whether the map has an entry for `name`.
    pub fn contains(&self, name: &LowerName) -> (found: bool)
        ensures
            found == self.holds(name.key()),
    {
        self.position(name).is_some()
    }

    /// The map with an entry more, for a name that it does not hold yet.
    /// An entry for a name that it holds is dropped: the entry that the map
    /// has counts.
    pub fn with(self, name: LowerName, value: V) -> (map: NameMap<V>)
        ensures
            map.entries() == if self.holds(name.key()) {
                self.entries()
            } else {
                self.entries().push(Named { name, value })
            },
            forall|key: Seq<Seq<u8>>|
                #[trigger] map.value(key) == if key == name.key() && !self.holds(name.key()) {
                    Some(value)
                } else {
                    self.value(key)
                },
    {
        proof {
            use_type_invariant(&self);
        }
        if self.position(&name).is_some() {
            return self;
        }
        let mut entries = self.entries;
        let entry = Named { name, value };
        proof {
            assert forall|key: Seq<Seq<u8>>|
                #[trigger] value_of(entries@.push(entry), key) == if key == name.key() {
                    Some(value)
                } else {
                    value_of(entries@, key)
                } by {
                lemma_value_push(entries@, entry, key);
            }
            lemma_value_push(entries@, entry, name.key());
        }
        entries.push(entry);
        NameMap { entries }
    }
}

/// A set of domain names. No name occurs twice.
#[derive(Debug)]
pub struct NameSet {
    names: NameMap<()>,
}

impl NameSet {
    /// The names, in the order in which they were added.
    pub closed spec fn names(&self) -> Seq<Named<()>> {
        self.names.entries()
    }

    /// Whether the set holds the name with labels `key`.
    pub open spec fn holds(&self, key: Seq<Seq<u8>>) -> bool {
        holds_key(self.names(), key)
    }

    /// An empty set.
    pub fn new() -> (set: NameSet)
        ensures
            set.names().len() == 0,
    {
        NameSet { names: NameMap::new() }
    }

    /// Whether the set holds `name`.
    pub fn contains(&self, name: &LowerName) -> (found: bool)
        ensures
            found == self.holds(name.key()),
    {
        self.names.contains(name)
    }

    /// The set with `name` added, unless it holds the name already.
    pub fn with(self, name: LowerName) -> (set: NameSet)
        ensures
            set.names() == if self.holds(name.key()) {
                self.names()
            } else {
                self.names().push(Named { name, value: () })
            },
    {
        NameSet { names: self.names.with(name, ()) }
    }

    /// The names of the set. No two are the same.
    pub fn as_entries(&self) -> (entries: &Vec<Named<()>>)
        ensures
            entries@ == self.names(),
            distinct_named(self.names()),
    {
        self.names.as_entries()
    }
}

} // verus!
