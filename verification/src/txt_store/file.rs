//! A TXT store that keeps a JSON snapshot of itself for a file.
//!
//! The store never touches the file. After each update it holds the text
//! that the file should now contain, and its owner writes that text out
//! before letting go of the store.

use crate::error::Error;
use crate::name::{lower_labels, name_of_text, text_of_name, LowerName, NameView};
use crate::txt_store::memory::{contents_of, InMemoryTxtStore, TxtRecord};
use crate::txt_store::{texts, Contents, TxtStore};
use std::collections::VecDeque;
use trust_dns_proto::error::ProtoError;
use vstd::prelude::*;

verus! {

/// One member of the persisted JSON object: a name in presentation form and
/// the values held for it, newest first.
#[derive(Debug)]
pub struct JsonEntry {
    pub name: String,
    pub values: Vec<String>,
}

/// What a list of entries holds.
pub open spec fn entries_view(entries: Seq<JsonEntry>) -> Seq<(Seq<char>, Seq<Seq<char>>)> {
    entries.map_values(|e: JsonEntry| (e.name@, texts(e.values@)))
}

/// The JSON text of an object with the given members, or `None` where the
/// members have no JSON text.
pub uninterp spec fn json_of_entries(entries: Seq<(Seq<char>, Seq<Seq<char>>)>) -> Option<
    Seq<char>,
>;

/// The members of the JSON object that `bytes` hold, ordered by name, or
/// `None` where the bytes are no JSON object of string arrays.
pub uninterp spec fn entries_of_json(bytes: Seq<u8>) -> Option<Seq<(Seq<char>, Seq<Seq<char>>)>>;

/// `serde_json::to_string_pretty` on a map from each entry's name to its
/// values. The outcome is a function of the entries alone, which the
/// contract names; a failure comes back as its message.
#[verifier::external_body]
fn encode_entries(entries: &Vec<JsonEntry>) -> (res: Result<String, String>)
    ensures
        match res {
            Ok(text) => json_of_entries(entries_view(entries@)) == Some(text@),
            Err(_) => json_of_entries(entries_view(entries@)) is None,
        },
{
    let map: std::collections::BTreeMap<&str, &Vec<String>> =
        entries.iter().map(|e| (e.name.as_str(), &e.values)).collect();
    serde_json::to_string_pretty(&map).map_err(|err| err.to_string())
}

/// `serde_json::from_slice` into a map from names to lists of strings,
/// handed over member by member in the map's order. The outcome is a
/// function of the bytes alone, which the contract names; a failure comes
/// back as its message.
#[verifier::external_body]
fn decode_entries(bytes: &Vec<u8>) -> (res: Result<Vec<JsonEntry>, String>)
    ensures
        match res {
            Ok(entries) => entries_of_json(bytes@) == Some(entries_view(entries@)),
            Err(_) => entries_of_json(bytes@) is None,
        },
{
    match serde_json::from_slice::<std::collections::BTreeMap<String, Vec<String>>>(bytes) {
        Ok(map) => Ok(map.into_iter().map(|(name, values)| JsonEntry { name, values }).collect()),
        Err(err) => Err(err.to_string()),
    }
}

/// `ProtoError::to_string`: the message of an error of the DNS protocol
/// library. Nothing is promised of the text.
#[verifier::external_body]
fn message_of(err: &ProtoError) -> (message: String) {
    err.to_string()
}

/// The entry that persists a record: the name in presentation form and the
/// record's values.
pub open spec fn entry_of_record(record: TxtRecord) -> (Seq<char>, Seq<Seq<char>>) {
    (text_of_name(record.name@.labels, record.name@.fqdn), texts(record.values@))
}

/// The entries that persist a list of records, in the same order.
pub open spec fn entries_of_records(records: Seq<TxtRecord>) -> Seq<(Seq<char>, Seq<Seq<char>>)> {
    records.map_values(|r: TxtRecord| entry_of_record(r))
}

/// The snapshot of a list of records: the JSON text of the entries that
/// persist them, where there is one.
pub open spec fn snapshot_of(records: Seq<TxtRecord>) -> Option<Seq<char>> {
    json_of_entries(entries_of_records(records))
}

/// Whether every entry's name denotes a domain name.
pub open spec fn names_parse(entries: Seq<(Seq<char>, Seq<Seq<char>>)>) -> bool {
    forall|i: int| 0 <= i < entries.len() ==> name_of_text(#[trigger] entries[i].0) is Some
}

/// The labels under which an entry is loaded: those of the name that its
/// text denotes, in lower case.
pub open spec fn key_of_entry(entry: (Seq<char>, Seq<Seq<char>>)) -> Seq<Seq<u8>> {
    match name_of_text(entry.0) {
        Some(parsed) => lower_labels(parsed.0),
        None => Seq::empty(),
    }
}

/// What a store holds after it loaded `entries` in order. Where two
/// entries are for one name, the first counts.
pub open spec fn loaded(entries: Seq<(Seq<char>, Seq<Seq<char>>)>) -> Contents
    decreases entries.len(),
{
    if entries.len() == 0 {
        Map::empty()
    } else {
        let before = loaded(entries.drop_last());
        let key = key_of_entry(entries.last());
        if before.contains_key(key) {
            before
        } else {
            before.insert(key, entries.last().1)
        }
    }
}

/// The values of a record as a list.
pub fn values_to_vec(values: &VecDeque<String>) -> (out: Vec<String>)
    ensures
        texts(out@) == texts(values@),
{
    let mut out: Vec<String> = Vec::new();
    let mut i: usize = 0;
    proof {
        vstd::std_specs::vecdeque::axiom_spec_len(values);
    }
    while i < values.len()
        invariant
            i <= values@.len(),
            values.len() == values@.len(),
            out@.len() == i,
            forall|j: int| 0 <= j < i ==> out@[j]@ == values@[j]@,
        decreases values@.len() - i,
    {
        out.push(values[i].clone());
        i = i + 1;
    }
    assert(texts(out@) =~= texts(values@));
    out
}

/// A list of values as a record's values.
pub fn values_from_vec(values: &Vec<String>) -> (out: VecDeque<String>)
    ensures
        texts(out@) == texts(values@),
{
    let mut out: VecDeque<String> = VecDeque::new();
    let mut i: usize = 0;
    while i < values.len()
        invariant
            i <= values.len(),
            out@.len() == i,
            forall|j: int| 0 <= j < i ==> out@[j]@ == values@[j]@,
        decreases values.len() - i,
    {
        out.push_back(values[i].clone());
        i = i + 1;
    }
    assert(texts(out@) =~= texts(values@));
    out
}

/// The entries that persist `records`.
pub fn records_to_entries(records: &Vec<TxtRecord>) -> (entries: Vec<JsonEntry>)
    ensures
        entries_view(entries@) == entries_of_records(records@),
{
    let mut entries: Vec<JsonEntry> = Vec::new();
    let mut i: usize = 0;
    while i < records.len()
        invariant
            i <= records.len(),
            entries.len() == i,
            forall|j: int|
                0 <= j < i ==> (#[trigger] entries@[j].name@, texts(entries@[j].values@))
                    == entry_of_record(records@[j]),
        decreases records.len() - i,
    {
        let record = &records[i];
        entries.push(
            JsonEntry { name: record.name.to_text(), values: values_to_vec(&record.values) },
        );
        i = i + 1;
    }
    assert(entries_view(entries@) =~= entries_of_records(records@));
    entries
}

/// The store that holds what `entries` load as. Fails, with the parser's
/// message, on the first entry whose name is no domain name.
pub fn load_entries(entries: &Vec<JsonEntry>) -> (res: Result<InMemoryTxtStore, Error>)
    ensures
        match res {
            Ok(store) => names_parse(entries_view(entries@)) && store.contents() == loaded(
                entries_view(entries@),
            ),
            Err(err) => err is InvalidJSON && !names_parse(entries_view(entries@)),
        },
{
    let ghost all = entries_view(entries@);
    let mut store = InMemoryTxtStore::new();
    let mut i: usize = 0;
    assert(all.take(0) =~= Seq::empty());
    while i < entries.len()
        invariant
            i <= entries.len(),
            all == entries_view(entries@),
            names_parse(all.take(i as int)),
            store.contents() == loaded(all.take(i as int)),
        decreases entries.len() - i,
    {
        let entry = &entries[i];
        proof {
            assert(all.take(i + 1).drop_last() =~= all.take(i as int));
            assert(all.take(i + 1).last() == all[i as int]);
            assert(all[i as int] == (entry.name@, texts(entry.values@)));
        }
        match LowerName::from_str(entry.name.as_str()) {
            Ok(name) => {
                let record = TxtRecord { name, values: values_from_vec(&entry.values) };
                store = store.with_record(record);
                assert(names_parse(all.take(i + 1))) by {
                    assert forall|j: int| 0 <= j < i + 1 implies name_of_text(
                        #[trigger] all.take(i + 1)[j].0,
                    ) is Some by {
                        if j < i {
                            assert(all.take(i as int)[j] == all.take(i + 1)[j]);
                        }
                    }
                }
            },
            Err(err) => {
                assert(name_of_text(all[i as int].0) is None);
                return Err(Error::InvalidJSON(message_of(&err)));
            },
        }
        i = i + 1;
    }
    assert(all.take(entries.len() as int) =~= all);
    Ok(store)
}

/// A TXT store backed by a JSON file. It works as an `InMemoryTxtStore`
/// does and, after each update, holds the snapshot that belongs in the file.
#[derive(Debug)]
pub struct FileTxtStore {
    txt_store: InMemoryTxtStore,
    path: String,
    unsaved: Option<String>,
}

impl FileTxtStore {
    /// The records of the store.
    pub closed spec fn records(&self) -> Seq<TxtRecord> {
        self.txt_store.records()
    }

    /// Where the snapshot belongs.
    pub closed spec fn path_view(&self) -> Seq<char> {
        self.path@
    }

    /// The snapshot that has not been handed out for writing yet.
    pub closed spec fn unsaved(&self) -> Option<Seq<char>> {
        match self.unsaved {
            Some(text) => Some(text@),
            None => None,
        }
    }

    /// What the store holds is what its records hold.
    pub proof fn lemma_contents(&self)
        ensures
            self.contents() == contents_of(self.records()),
    {
        self.txt_store.lemma_contents();
    }

    /// The state of the store as JSON: one member per record, from the name
    /// in presentation form to its values. This is the text to write to the
    /// store's path. It fails only where the records have no JSON text.
    pub fn save(&self) -> (res: Result<String, Error>)
        ensures
            match res {
                Ok(text) => snapshot_of(self.records()) == Some(text@),
                Err(err) => err is InvalidJSON && snapshot_of(self.records()) is None,
            },
    {
        let entries = records_to_entries(self.txt_store.as_records());
        match encode_entries(&entries) {
            Ok(text) => Ok(text),
            Err(message) => Err(Error::InvalidJSON(message)),
        }
    }

    /// The store for the file at `p`, whose contents are `contents`, or
    /// `None` where there is no such file yet.
    ///
    /// Without a file the store starts empty and holds the snapshot of the
    /// empty state, so that the file gets created. With a file the store
    /// holds what the file's JSON object says. Contents that are no such
    /// object, or that hold a name that is no domain name, are invalid
    /// JSON.
    pub fn try_from_file(p: &str, contents: Option<Vec<u8>>) -> (res: Result<FileTxtStore, Error>)
        ensures
            starts_empty(p@, contents, res),
            loads_contents(p@, contents, res),
    {
        match contents {
            None => {
                let nothing: Vec<JsonEntry> = Vec::new();
                assert(entries_view(nothing@) =~= Seq::empty());
                match encode_entries(&nothing) {
                    Ok(text) => {
                        let store = FileTxtStore {
                            txt_store: InMemoryTxtStore::new(),
                            path: p.to_owned(),
                            unsaved: Some(text),
                        };
                        assert(store.unsaved() == json_of_entries(Seq::empty()));
                        Ok(store)
                    },
                    Err(message) => Err(Error::InvalidJSON(message)),
                }
            },
            Some(bytes) => {
                match decode_entries(&bytes) {
                    Err(message) => Err(Error::InvalidJSON(message)),
                    Ok(entries) => {
                        match load_entries(&entries) {
                            Ok(txt_store) => {
                                let store = FileTxtStore {
                                    txt_store,
                                    path: p.to_owned(),
                                    unsaved: None,
                                };
                                assert(store.contents() == loaded(entries_view(entries@)));
                                assert(store.unsaved() is None);
                                Ok(store)
                            },
                            Err(err) => Err(err),
                        }
                    },
                }
            },
        }
    }

    /// The path of the file that the snapshots belong in.
    pub fn path(&self) -> (path: &String)
        ensures
            path@ == self.path_view(),
    {
        &self.path
    }

    /// Hands out the snapshot to write, if an update left one.
    pub fn take_unsaved(&mut self) -> (snapshot: Option<String>)
        ensures
            match snapshot {
                Some(text) => old(self).unsaved() == Some(text@),
                None => old(self).unsaved() is None,
            },
            final(self).unsaved() is None,
            final(self).records() == old(self).records(),
            final(self).path_view() == old(self).path_view(),
            final(self).contents() == old(self).contents(),
    {
        self.unsaved.take()
    }
}

/// What opening a store gives where no file exists yet: an empty store
/// for the path, with the snapshot of the empty state to write. It fails
/// only where the empty state has no JSON text.
pub open spec fn starts_empty(
    p: Seq<char>,
    contents: Option<Vec<u8>>,
    res: Result<FileTxtStore, Error>,
) -> bool {
    contents is None ==> match res {
        Ok(store) => {
            &&& json_of_entries(Seq::empty()) is Some
            &&& store.records().len() == 0
            &&& store.contents() == Map::<Seq<Seq<u8>>, Seq<Seq<char>>>::empty()
            &&& store.unsaved() == json_of_entries(Seq::empty())
            &&& store.path_view() == p
        },
        Err(err) => err is InvalidJSON && json_of_entries(Seq::empty()) is None,
    }
}

/// What opening a store gives for a file's contents: the store that holds
/// what the JSON object's members load as, with nothing to write. Contents
/// that are no such object, or with a member whose name is no domain name,
/// are invalid JSON.
pub open spec fn loads_contents(
    p: Seq<char>,
    contents: Option<Vec<u8>>,
    res: Result<FileTxtStore, Error>,
) -> bool {
    contents matches Some(bytes) ==> match res {
        Ok(store) => {
            &&& entries_of_json(bytes@) matches Some(entries)
            &&& names_parse(entries)
            &&& store.contents() == loaded(entries)
            &&& store.unsaved() is None
            &&& store.path_view() == p
        },
        Err(err) => {
            &&& err is InvalidJSON
            &&& entries_of_json(bytes@) matches Some(entries) ==> !names_parse(entries)
        },
    }
}

impl TxtStore for FileTxtStore {
    closed spec fn contents(&self) -> Contents {
        self.txt_store.contents()
    }

    /// A write to this store succeeds exactly where the new state has a
    /// snapshot, which the store then holds for writing. A refused write
    /// and a write without a snapshot leave the snapshot held before.
    open spec fn wrote(
        &self,
        before: &Self,
        fqdn: NameView,
        value: Seq<char>,
        res: Result<(), Error>,
    ) -> bool {
        &&& self.path_view() == before.path_view()
        &&& !fqdn.fqdn ==> self.records() == before.records() && self.unsaved() == before.unsaved()
        &&& fqdn.fqdn ==> match res {
            Ok(_) => snapshot_of(self.records()) is Some && self.unsaved() == snapshot_of(
                self.records(),
            ),
            Err(err) => err is InvalidJSON && snapshot_of(self.records()) is None
                && self.unsaved() == before.unsaved(),
        }
    }

    /// Adds the value in memory and then takes the snapshot of the new
    /// state. Where the new state has no snapshot the value stays added,
    /// and the snapshot held before stays as it was.
    fn add_txt(&mut self, fqdn: LowerName, value: String) -> (res: Result<(), Error>) {
        match self.txt_store.add_txt(fqdn, value) {
            Ok(()) => {},
            Err(err) => {
                return Err(err);
            },
        }
        match self.save() {
            Ok(text) => {
                self.unsaved = Some(text);
                Ok(())
            },
            Err(err) => Err(err),
        }
    }

    /// The values held in memory for `fqdn`.
    fn get_txt(&self, fqdn: &LowerName) -> (values: VecDeque<String>) {
        self.txt_store.get_txt(fqdn)
    }
}

} // verus!
