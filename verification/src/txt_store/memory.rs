//! A TXT store held in memory, lost when the process ends.

use crate::error::Error;
use crate::name::{LowerName, NameView};
use crate::txt_store::{pushed, texts, values_in, Contents, TxtStore, MAX_TXT_VALUES};
use std::collections::VecDeque;
use vstd::prelude::*;

verus! {

/// The values written under one name.
#[derive(Debug)]
pub struct TxtRecord {
    pub name: LowerName,
    pub values: VecDeque<String>,
}

/// Whether the record at `i` is for the name with labels `key`.
pub open spec fn record_at(records: Seq<TxtRecord>, i: int, key: Seq<Seq<u8>>) -> bool {
    0 <= i < records.len() && records[i].name.key() == key
}

/// Whether no two records are for the same name.
pub open spec fn distinct_names(records: Seq<TxtRecord>) -> bool {
    forall|i: int, j: int|
        0 <= i < j < records.len() ==> (#[trigger] records[i]).name.key() != (
        #[trigger] records[j]).name.key()
}

/// What a list of records holds: for the name of each record, its values.
pub open spec fn contents_of(records: Seq<TxtRecord>) -> Contents {
    Map::new(
        |key: Seq<Seq<u8>>| exists|i: int| record_at(records, i, key),
        |key: Seq<Seq<u8>>| texts(records[choose|i: int| record_at(records, i, key)].values@),
    )
}

/// Among records with distinct names, the record for a name is the one
/// that holds its values.
pub proof fn lemma_contents_at(records: Seq<TxtRecord>, i: int)
    requires
        distinct_names(records),
        0 <= i < records.len(),
    ensures
        contents_of(records).contains_key(records[i].name.key()),
        contents_of(records)[records[i].name.key()] == texts(records[i].values@),
{
    let key = records[i].name.key();
    assert(record_at(records, i, key));
    let j = choose|j: int| record_at(records, j, key);
    if i < j {
        assert(records[i].name.key() != records[j].name.key());
    } else if j < i {
        assert(records[j].name.key() != records[i].name.key());
    }
}

/// A record for a new name adds that name with its values and keeps the
/// rest.
pub proof fn lemma_contents_push(records: Seq<TxtRecord>, record: TxtRecord)
    requires
        distinct_names(records),
        forall|i: int| !record_at(records, i, record.name.key()),
    ensures
        distinct_names(records.push(record)),
        contents_of(records.push(record)) == contents_of(records).insert(
            record.name.key(),
            texts(record.values@),
        ),
{
    let after = records.push(record);
    let last = records.len() as int;
    assert forall|i: int, j: int| 0 <= i < j < after.len() implies after[i].name.key()
        != after[j].name.key() by {
        if j == last {
            assert(!record_at(records, i, record.name.key()));
        }
    }
    let wanted = contents_of(records).insert(record.name.key(), texts(record.values@));
    assert forall|key: Seq<Seq<u8>>| contents_of(after).contains_key(key) == wanted.contains_key(
        key,
    ) by {
        if exists|i: int| record_at(after, i, key) {
            let i = choose|i: int| record_at(after, i, key);
            if i < last {
                assert(record_at(records, i, key));
            }
        }
        if exists|i: int| record_at(records, i, key) {
            let i = choose|i: int| record_at(records, i, key);
            assert(record_at(after, i, key));
        }
        if key == record.name.key() {
            assert(record_at(after, last, key));
        }
    }
    assert forall|key: Seq<Seq<u8>>| contents_of(after).contains_key(key) implies contents_of(
        after,
    )[key] == wanted[key] by {
        let i = choose|i: int| record_at(after, i, key);
        lemma_contents_at(after, i);
        if i < last {
            lemma_contents_at(records, i);
        }
    }
    assert(contents_of(after) =~= wanted);
}

/// New values for the record at `i` change the values of its name and keep
/// the rest.
pub proof fn lemma_contents_update(records: Seq<TxtRecord>, i: int, record: TxtRecord)
    requires
        distinct_names(records),
        0 <= i < records.len(),
        record.name.key() == records[i].name.key(),
    ensures
        distinct_names(records.update(i, record)),
        contents_of(records.update(i, record)) == contents_of(records).insert(
            record.name.key(),
            texts(record.values@),
        ),
{
    let after = records.update(i, record);
    assert forall|a: int, b: int| 0 <= a < b < after.len() implies after[a].name.key()
        != after[b].name.key() by {
        assert(records[a].name.key() != records[b].name.key());
    }
    let wanted = contents_of(records).insert(record.name.key(), texts(record.values@));
    assert forall|key: Seq<Seq<u8>>| contents_of(after).contains_key(key) == wanted.contains_key(
        key,
    ) by {
        if exists|j: int| record_at(after, j, key) {
            let j = choose|j: int| record_at(after, j, key);
            assert(record_at(records, j, key));
        }
        if exists|j: int| record_at(records, j, key) {
            let j = choose|j: int| record_at(records, j, key);
            assert(record_at(after, j, key));
        }
        if key == record.name.key() {
            assert(record_at(after, i, key));
        }
    }
    assert forall|key: Seq<Seq<u8>>| contents_of(after).contains_key(key) implies contents_of(
        after,
    )[key] == wanted[key] by {
        let j = choose|j: int| record_at(after, j, key);
        lemma_contents_at(after, j);
        lemma_contents_at(records, j);
    }
    assert(contents_of(after) =~= wanted);
}

/// A copy of a list of strings.
pub fn copy_values(values: &VecDeque<String>) -> (copy: VecDeque<String>)
    ensures
        texts(copy@) == texts(values@),
{
    let mut out: VecDeque<String> = VecDeque::new();
    let mut i: usize = 0;
    proof {
        vstd::std_specs::vecdeque::axiom_spec_len(values);
    }
    while i < values.len()
        invariant
            i <= values@.len(),
            values.len() == values@.len(),
            out@.len() == i,
            forall|j: int| 0 <= j < i ==> out@[j]@ == values@[j]@,
        decreases values@.len() - i,
    {
        out.push_back(values[i].clone());
        i = i + 1;
    }
    assert(texts(out@) =~= texts(values@));
    out
}

/// Index of the record for `fqdn`, if there is one.
pub fn position_of(records: &Vec<TxtRecord>, fqdn: &LowerName) -> (found: Option<usize>)
    ensures
        match found {
            Some(i) => record_at(records@, i as int, fqdn.key()),
            None => forall|i: int| !record_at(records@, i, fqdn.key()),
        },
{
    let mut i: usize = 0;
    while i < records.len()
        invariant
            i <= records.len(),
            forall|j: int| 0 <= j < i ==> !record_at(records@, j, fqdn.key()),
        decreases records.len() - i,
    {
        if records[i].name.same_as(fqdn) {
            return Some(i);
        }
        i = i + 1;
    }
    None
}

/// An in-memory TXT store. Up to two values are kept per name: a new value
/// goes to the front and the oldest falls off the end. No name has more
/// than one record.
#[derive(Debug)]
pub struct InMemoryTxtStore {
    txt_records: Vec<TxtRecord>,
}

impl InMemoryTxtStore {
    #[verifier::type_invariant]
    spec fn inv(&self) -> bool {
        distinct_names(self.txt_records@)
    }

    /// The records, one for each name that was written, in the order in
    /// which the names were first written.
    pub closed spec fn records(&self) -> Seq<TxtRecord> {
        self.txt_records@
    }

    /// An empty store.
    pub fn new() -> (store: InMemoryTxtStore)
        ensures
            store.contents() == Map::<Seq<Seq<u8>>, Seq<Seq<char>>>::empty(),
            store.records().len() == 0,
    {
        let store = InMemoryTxtStore { txt_records: Vec::new() };
        assert(store.contents() =~= Map::<Seq<Seq<u8>>, Seq<Seq<char>>>::empty());
        store
    }

    /// The records of the store. No two are for the same name.
    pub fn as_records(&self) -> (records: &Vec<TxtRecord>)
        ensures
            records@ == self.records(),
            distinct_names(self.records()),
    {
        proof {
            use_type_invariant(self);
        }
        &self.txt_records
    }

    /// A store with a record more, for a name that it does not hold yet.
    /// A record for a name that it holds is dropped: the record that the
    /// store has counts.
    pub fn with_record(self, record: TxtRecord) -> (store: InMemoryTxtStore)
        ensures
            store.contents() == if self.contents().contains_key(record.name.key()) {
                self.contents()
            } else {
                self.contents().insert(record.name.key(), texts(record.values@))
            },
            store.records() == if self.contents().contains_key(record.name.key()) {
                self.records()
            } else {
                self.records().push(record)
            },
    {
        proof {
            use_type_invariant(&self);
        }
        let mut records = self.txt_records;
        match position_of(&records, &record.name) {
            Some(i) => {
                proof {
                    lemma_contents_at(records@, i as int);
                }
                InMemoryTxtStore { txt_records: records }
            },
            None => {
                proof {
                    lemma_contents_push(records@, record);
                }
                records.push(record);
                InMemoryTxtStore { txt_records: records }
            },
        }
    }

    /// What the store holds is what its records hold.
    pub proof fn lemma_contents(&self)
        ensures
            self.contents() == contents_of(self.records()),
    {
    }
}

impl Default for InMemoryTxtStore {
    /// An empty store.
    fn default() -> (store: InMemoryTxtStore)
        ensures
            store.contents() == Map::<Seq<Seq<u8>>, Seq<Seq<char>>>::empty(),
            store.records().len() == 0,
    {
        InMemoryTxtStore::new()
    }
}

impl TxtStore for InMemoryTxtStore {
    closed spec fn contents(&self) -> Contents {
        contents_of(self.txt_records@)
    }

    /// A write to this store succeeds unless the name is refused, and a
    /// refused write leaves the records as they were.
    open spec fn wrote(
        &self,
        before: &Self,
        fqdn: NameView,
        value: Seq<char>,
        res: Result<(), Error>,
    ) -> bool {
        &&& fqdn.fqdn ==> res is Ok
        &&& !fqdn.fqdn ==> self.records() == before.records()
    }

    /// Adds the value. Nothing but a name that is not fully qualified
    /// makes this fail.
    fn add_txt(&mut self, fqdn: LowerName, value: String) -> (res: Result<(), Error>) {
        proof {
            use_type_invariant(&*self);
        }
        if !fqdn.is_fqdn() {
            return Err(Error::NotFQDN(fqdn));
        }
        let ghost key = fqdn.key();
        let mut records: Vec<TxtRecord> = Vec::new();
        core::mem::swap(&mut self.txt_records, &mut records);
        let ghost before = records@;
        match position_of(&records, &fqdn) {
            Some(i) => {
                let mut record = records.remove(i);
                let ghost old_values = record.values@;
                record.values.push_front(value);
                record.values.truncate(MAX_TXT_VALUES);
                proof {
                    vstd::std_specs::vecdeque::axiom_spec_len(&record.values);
                    lemma_contents_at(before, i as int);
                    lemma_contents_update(before, i as int, record);
                    assert(texts(record.values@) =~= pushed(texts(old_values), value@));
                }
                let ghost changed = record;
                records.insert(i, record);
                assert(records@ =~= before.update(i as int, changed));
            },
            None => {
                let mut values: VecDeque<String> = VecDeque::new();
                values.push_front(value);
                let record = TxtRecord { name: fqdn, values };
                proof {
                    lemma_contents_push(before, record);
                    assert(!contents_of(before).contains_key(key)) by {
                        if contents_of(before).contains_key(key) {
                            let i = choose|i: int| record_at(before, i, key);
                            assert(!record_at(before, i, key));
                        }
                    }
                    assert(texts(record.values@) =~= pushed(Seq::empty(), value@));
                }
                records.push(record);
            },
        }
        self.txt_records = records;
        assert(old(self).history(key) == values_in(old(self).contents(), key));
        Ok(())
    }

    /// A copy of the values held for `fqdn`.
    fn get_txt(&self, fqdn: &LowerName) -> (values: VecDeque<String>) {
        proof {
            use_type_invariant(self);
        }
        match position_of(&self.txt_records, fqdn) {
            Some(i) => {
                proof {
                    lemma_contents_at(self.txt_records@, i as int);
                    assert(self.history(fqdn.key()) == values_in(self.contents(), fqdn.key()));
                }
                copy_values(&self.txt_records[i].values)
            },
            None => {
                let values: VecDeque<String> = VecDeque::new();
                proof {
                    let key = fqdn.key();
                    assert(!contents_of(self.txt_records@).contains_key(key)) by {
                        if contents_of(self.txt_records@).contains_key(key) {
                            let i = choose|i: int| record_at(self.txt_records@, i, key);
                            assert(!record_at(self.txt_records@, i, key));
                        }
                    }
                    assert(texts(values@) =~= Seq::<Seq<char>>::empty());
                }
                values
            },
        }
    }
}

} // verus!
