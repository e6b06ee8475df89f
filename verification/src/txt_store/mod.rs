//! Dynamic TXT record storage.
//!
//! A store keeps, for each fully qualified name, the values last written
//! under it: at most two, newest first. Two values let a name answer the
//! challenge for itself and for its wildcard at the same time.

pub mod file;
pub mod memory;

use crate::error::Error;
use crate::name::{LowerName, NameView};
use crate::txt_store::file::FileTxtStore;
use crate::txt_store::memory::InMemoryTxtStore;
use std::collections::VecDeque;
use vstd::prelude::*;

verus! {

/// How many values a store keeps for one name.
pub const MAX_TXT_VALUES: usize = 2;

/// The texts of a sequence of strings.
pub open spec fn texts(values: Seq<String>) -> Seq<Seq<char>> {
    values.map_values(|s: String| s@)
}

/// The history of a name after `value` has been written: the new value in
/// front, and of the older ones as many as still fit.
pub open spec fn pushed(history: Seq<Seq<char>>, value: Seq<char>) -> Seq<Seq<char>> {
    let all = seq![value] + history;
    if all.len() > MAX_TXT_VALUES {
        all.take(MAX_TXT_VALUES as int)
    } else {
        all
    }
}

/// The history of a name after each of `values` has been written in order,
/// starting from `history`.
pub open spec fn pushed_all(history: Seq<Seq<char>>, values: Seq<Seq<char>>) -> Seq<Seq<char>>
    decreases values.len(),
{
    if values.len() == 0 {
        history
    } else {
        pushed(pushed_all(history, values.drop_last()), values.last())
    }
}

/// What a store holds: for each name that was written, by its labels, the
/// values held for it, newest first.
pub type Contents = Map<Seq<Seq<u8>>, Seq<Seq<char>>>;

/// The values that `contents` hold for the name with labels `key`; none
/// for a name that was never written.
pub open spec fn values_in(contents: Contents, key: Seq<Seq<u8>>) -> Seq<Seq<char>> {
    if contents.contains_key(key) {
        contents[key]
    } else {
        Seq::empty()
    }
}

/// Storage of DNS-01 challenge response values, keyed by the fully
/// qualified name that they are served for.
pub trait TxtStore {
    /// What the store holds.
    spec fn contents(&self) -> Contents;

    /// What a write leaves behind besides the contents: when it succeeds,
    /// and whatever else the store keeps. `self` is the store after the
    /// write, `before` the store before it.
    spec fn wrote(
        &self,
        before: &Self,
        fqdn: NameView,
        value: Seq<char>,
        res: Result<(), Error>,
    ) -> bool;

    /// The values held for the name with the given labels, newest first.
    open spec fn history(&self, key: Seq<Seq<u8>>) -> Seq<Seq<char>> {
        values_in(self.contents(), key)
    }

    /// Adds a TXT value for `fqdn`. A name that is not fully qualified is
    /// refused and leaves the contents as they were. Otherwise the value is
    /// put in front of the name's history, whatever is returned, and no
    /// other name is touched.
    fn add_txt(&mut self, fqdn: LowerName, value: String) -> (res: Result<(), Error>)
        ensures
            !fqdn@.fqdn ==> (res matches Err(Error::NotFQDN(name)) && name@ == fqdn@),
            !fqdn@.fqdn ==> final(self).contents() == old(self).contents(),
            fqdn@.fqdn ==> final(self).contents() == old(self).contents().insert(
                fqdn.key(),
                pushed(old(self).history(fqdn.key()), value@),
            ),
            final(self).wrote(old(self), fqdn@, value@, res),
    ;

    /// The TXT values held for `fqdn`, newest first; none for a name that
    /// was never written.
    fn get_txt(&self, fqdn: &LowerName) -> (values: VecDeque<String>)
        ensures
            texts(values@) == self.history(fqdn.key()),
    ;
}

/// The store that a configuration asks for: in memory, or with a file
/// behind it.
#[derive(Debug)]
pub enum DynTxtStore {
    Memory(InMemoryTxtStore),
    File(FileTxtStore),
}

impl DynTxtStore {
    /// Hands out the snapshot to write, if the store keeps a file and an
    /// update left one, together with the file's path.
    pub fn take_unsaved(&mut self) -> (res: Option<(String, String)>)
        ensures
            final(self).contents() == old(self).contents(),
            match (*old(self), *final(self)) {
                (DynTxtStore::Memory(before), DynTxtStore::Memory(after)) => res is None && after
                    == before,
                (DynTxtStore::File(before), DynTxtStore::File(after)) => {
                    &&& match res {
                        Some((path, text)) => before.path_view() == path@ && before.unsaved()
                            == Some(text@),
                        None => before.unsaved() is None,
                    }
                    &&& after.unsaved() is None
                    &&& after.records() == before.records()
                    &&& after.path_view() == before.path_view()
                },
                _ => false,
            },
    {
        match self {
            DynTxtStore::Memory(_) => None,
            DynTxtStore::File(store) => {
                let path = store.path().clone();
                match store.take_unsaved() {
                    Some(text) => Some((path, text)),
                    None => None,
                }
            },
        }
    }
}

impl TxtStore for DynTxtStore {
    open spec fn contents(&self) -> Contents {
        match self {
            DynTxtStore::Memory(store) => store.contents(),
            DynTxtStore::File(store) => store.contents(),
        }
    }

    open spec fn wrote(
        &self,
        before: &Self,
        fqdn: NameView,
        value: Seq<char>,
        res: Result<(), Error>,
    ) -> bool {
        match (self, before) {
            (DynTxtStore::Memory(after), DynTxtStore::Memory(before)) => after.wrote(
                before,
                fqdn,
                value,
                res,
            ),
            (DynTxtStore::File(after), DynTxtStore::File(before)) => after.wrote(
                before,
                fqdn,
                value,
                res,
            ),
            _ => false,
        }
    }

    /// Adds the value to whichever store this is.
    fn add_txt(&mut self, fqdn: LowerName, value: String) -> (res: Result<(), Error>) {
        match self {
            DynTxtStore::Memory(store) => store.add_txt(fqdn, value),
            DynTxtStore::File(store) => store.add_txt(fqdn, value),
        }
    }

    /// The values that whichever store this is holds for `fqdn`.
    fn get_txt(&self, fqdn: &LowerName) -> (values: VecDeque<String>) {
        match self {
            DynTxtStore::Memory(store) => store.get_txt(fqdn),
            DynTxtStore::File(store) => store.get_txt(fqdn),
        }
    }
}

/// Writing a value puts it in front and keeps at most one older value.
pub proof fn lemma_pushed_shape(history: Seq<Seq<char>>, value: Seq<char>)
    ensures
        pushed(history, value).len() == if history.len() == 0 {
            1nat
        } else {
            2nat
        },
        pushed(history, value)[0] == value,
        history.len() > 0 ==> pushed(history, value)[1] == history[0],
{
}

/// After two or more values have been written under a name, in order, the
/// name holds exactly the last two of them, the most recent first,
/// whatever it held before.
pub proof fn lemma_last_two_values(history: Seq<Seq<char>>, values: Seq<Seq<char>>)
    requires
        values.len() >= 2,
    ensures
        pushed_all(history, values) == seq![
            values[values.len() - 1],
            values[values.len() - 2],
        ],
{
    let n = values.len() as int;
    let front = values.drop_last();
    let before = pushed_all(history, front.drop_last());
    assert(pushed_all(history, front) == pushed(before, front.last()));
    lemma_pushed_shape(before, front.last());
    let mid = pushed_all(history, front);
    assert(mid[0] == values[n - 2]);
    lemma_pushed_shape(mid, values.last());
    assert(pushed_all(history, values) =~= seq![values[n - 1], values[n - 2]]);
}

/// A name never holds more than `MAX_TXT_VALUES` values once something was
/// written under it.
pub proof fn lemma_history_bounded(history: Seq<Seq<char>>, value: Seq<char>)
    ensures
        1 <= pushed(history, value).len() <= MAX_TXT_VALUES,
{
}

} // verus!
