//! The store itself: the collection in memory and the rules by which it
//! follows the file.
//!
//! The store does not read or write. Its caller does, and hands over what
//! the file was found to hold: a decoded collection, or nothing where the
//! file was missing, empty or not to be decoded. In return the store says
//! when the file is to be written anew, always as a whole and from a
//! collection that the store names.
//!
//! Reading goes in one step ([`DataBase::get`]), and so do opening
//! ([`DataBase::open`]) and deleting ([`DataBase::del`]), each followed by
//! at most one write. Inserting reads the file between two decisions and
//! writes it after the second, so it goes in three: [`DataBase::push`],
//! [`Staged::merge`] and [`DataBase::commit`]. A caller that fails to read
//! or write stops there and drops what it holds: the store is then as it
//! was before [`DataBase::push`].

use crate::docs::Docs;
use crate::error::Error;
use crate::identity::{fresh_id, is_random_uuid};
use crate::record::{reports, MemoDoc};
use vstd::prelude::*;

verus! {

/// The collection that the file is taken to hold: the one that was decoded
/// from it, and the empty one where nothing could be decoded.
pub open spec fn held<T>(stored: Option<Docs<T>>) -> Map<Seq<char>, T> {
    match stored {
        Some(docs) => docs@,
        None => Map::empty(),
    }
}

/// What a lookup under `id` in `docs` may answer: a copy of the record
/// kept there, or nothing where none is kept.
pub open spec fn answers<T: Clone>(
    docs: Map<Seq<char>, T>,
    id: Seq<char>,
    found: Option<T>,
) -> bool {
    match found {
        Some(copy) => docs.contains_key(id) && cloned(docs[id], copy),
        None => !docs.contains_key(id),
    }
}

/// How the store judges the identity `id` of a record that is to go into
/// `docs`: one that is taken is refused, one that is free passes, and in
/// place of the empty one the store gives a fresh one.
pub open spec fn judged<T>(
    docs: Map<Seq<char>, T>,
    id: Seq<char>,
    ruling: Result<Option<String>, Error>,
) -> bool {
    match ruling {
        Err(e) => id.len() > 0 && docs.contains_key(id) && e == Error::AlreadyExists,
        Ok(None) => id.len() > 0 && !docs.contains_key(id),
        Ok(Some(fresh)) => id.len() == 0 && is_random_uuid(fresh@),
    }
}

/// What the store hands on for the record `data` that reported the
/// identity `id`: nothing where the identity is refused, the record as it
/// came and under that identity where it passes, and under a fresh identity
/// a record that had none.
pub open spec fn staged_as<T>(
    docs: Map<Seq<char>, T>,
    id: Seq<char>,
    data: T,
    staged: Result<Staged<T>, Error>,
) -> bool {
    match staged {
        Err(e) => judged(docs, id, Err(e)),
        Ok(entry) => if id.len() > 0 {
            judged(docs, id, Ok(None)) && entry.key@ == id && entry.doc == data
        } else {
            judged(docs, id, Ok(Some(entry.key)))
        },
    }
}

/// How a deletion under `id` turns the collection `before` into `after`:
/// the record kept there leaves and is handed out, and where none is kept
/// the collection stays and the identity comes back in the error.
pub open spec fn deleted<T>(
    before: Map<Seq<char>, T>,
    id: Seq<char>,
    after: Map<Seq<char>, T>,
    outcome: Result<T, Error>,
) -> bool {
    match outcome {
        Ok(doc) => {
            &&& before.contains_key(id)
            &&& doc == before[id]
            &&& after == before.remove(id)
        },
        Err(Error::NotFound(missing)) => {
            &&& !before.contains_key(id)
            &&& after == before
            &&& missing@ == id
        },
        Err(_) => false,
    }
}

/// A store of records of one type, each under its own identity.
///
/// The store is read as its collection, a map from identity to record. The
/// collection mirrors the file at the store's path: after every completed
/// request it is what the file was last read to hold or written from.
#[derive(Debug)]
pub struct DataBase<T: MemoDoc + Clone> {
    file_path: String,
    docs: Docs<T>,
}

impl<T: MemoDoc + Clone> View for DataBase<T> {
    type V = Map<Seq<char>, T>;

    closed spec fn view(&self) -> Map<Seq<char>, T> {
        self.docs@
    }
}

/// A record on its way into the store: [`DataBase::push`] let it pass, and
/// `key` is the identity under which it will be kept.
#[derive(Debug)]
pub struct Staged<T> {
    /// The identity under which the record will be kept; never empty when
    /// it comes from [`DataBase::push`].
    pub key: String,
    /// The record.
    pub doc: T,
}

impl<T> Staged<T> {
    /// Puts the record into the collection that the file was just read to
    /// hold, in place of a record that the file may hold under the same
    /// identity.
    ///
    /// The result is what the caller now writes to the file and, once that
    /// is done, hands to [`DataBase::commit`].
    pub fn merge(self, stored: Option<Docs<T>>) -> (merged: Docs<T>)
        ensures
            merged@ == held(stored).insert(self.key@, self.doc),
    {
        let mut docs = match stored {
            Some(docs) => docs,
            None => Docs::new(),
        };
        docs.insert(self.key, self.doc);
        docs
    }
}

impl<T: MemoDoc + Clone> DataBase<T> {
    /// The path of the file that the store mirrors. No request changes it.
    pub closed spec fn path(&self) -> Seq<char> {
        self.file_path@
    }

    /// Makes the store for the file at `path`, which was read to hold
    /// `stored`.
    ///
    /// The second result tells whether the file is to be written: it is
    /// where nothing could be decoded from it. The caller then creates or
    /// overwrites it from the store's collection, which is empty, before
    /// the store is used.
    pub fn open(path: &str, stored: Option<Docs<T>>) -> (opened: (DataBase<T>, bool))
        ensures
            opened.0.path() == path@,
            opened.0@ == held(stored),
            opened.1 == (stored is None),
    {
        match stored {
            Some(docs) => (DataBase { file_path: path.to_owned(), docs }, false),
            None => (DataBase { file_path: path.to_owned(), docs: Docs::new() }, true),
        }
    }

    /// Judges the identity `id` that a record reported, before anything is
    /// read from the file.
    ///
    /// The empty identity is never looked up: the record gets the fresh
    /// one that is returned. A fresh identity is drawn at random and not
    /// compared with those in the collection.
    pub fn judge(&self, id: &str) -> (ruling: Result<Option<String>, Error>)
        ensures
            judged(self@, id@, ruling),
    {
        if id.is_empty() {
            Ok(Some(fresh_id()))
        } else if self.docs.contains_key(id) {
            Err(Error::AlreadyExists)
        } else {
            Ok(None)
        }
    }

    /// Starts the insertion of `data`: asks the record for its identity,
    /// judges it as [`DataBase::judge`] does, and hands a record without
    /// identity the fresh one through `set_id`.
    ///
    /// Nothing changes yet. After `Ok` the caller reads the file and goes
    /// on with [`Staged::merge`]; after `Err` the file is left alone.
    ///
    /// The contract speaks of whatever `get_id` answered and of whatever
    /// `set_id` made of the record.
    pub fn push(&self, data: T) -> (staged: Result<Staged<T>, Error>)
        ensures
            staged matches Ok(entry) ==> entry.key@.len() > 0,
            exists|id: Seq<char>|
                #![trigger reports(data, id)]
                reports(data, id) && staged_as(self@, id, data, staged) && (staged matches Ok(entry)
                    ==> id.len() > 0 || exists|record: &mut T, given: &str|
                    #![trigger call_ensures(T::set_id, (record, given), ())]
                    call_ensures(T::set_id, (record, given), ()) && *record == data
                        && given@ == entry.key@ && *final(record) == entry.doc),
    {
        let id = data.get_id().to_owned();
        assert(reports(data, id@));
        match self.judge(id.as_str()) {
            Err(e) => Err(e),
            Ok(None) => Ok(Staged { key: id, doc: data }),
            Ok(Some(fresh)) => {
                let mut doc = data;
                doc.set_id(fresh.as_str());
                Ok(Staged { key: fresh, doc })
            },
        }
    }

    /// Ends an insertion: takes `docs`, which the file was just written
    /// from, as the collection in memory.
    pub fn commit(&mut self, docs: Docs<T>)
        ensures
            final(self).path() == old(self).path(),
            final(self)@ == docs@,
    {
        self.docs = docs;
    }

    /// Takes the record kept under `id` out of the collection and returns
    /// it.
    ///
    /// After `Ok` the caller writes the file from the collection that is
    /// left. After `Err` nothing has changed and nothing is to be written.
    pub fn del(&mut self, id: &str) -> (outcome: Result<T, Error>)
        ensures
            final(self).path() == old(self).path(),
            deleted(old(self)@, id@, final(self)@, outcome),
    {
        match self.docs.remove(id) {
            Some(doc) => Ok(doc),
            None => Err(Error::NotFound(id.to_owned())),
        }
    }

    /// Returns a copy of the record kept under `id`, if there is one.
    pub fn get(&self, id: &str) -> (found: Option<T>)
        ensures
            answers(self@, id@, found),
    {
        self.docs.get(id).cloned()
    }

    /// Returns the path of the file that the store mirrors.
    pub fn file_path(&self) -> (path: &str)
        ensures
            path@ == self.path(),
    {
        self.file_path.as_str()
    }

    /// Returns the collection in memory.
    pub fn docs(&self) -> (docs: &Docs<T>)
        ensures
            docs@ == self@,
    {
        &self.docs
    }
}

impl<T: MemoDoc + Clone> Clone for DataBase<T> {
    /// Copies the store: the same path and identities, and under each
    /// identity a copy of its record.
    fn clone(&self) -> (copy: Self)
        ensures
            copy.path() == self.path(),
            copy@.dom() == self@.dom(),
            forall|key: Seq<char>|
                self@.contains_key(key) ==> cloned(self@[key], #[trigger] copy@[key]),
    {
        DataBase { file_path: self.file_path.clone(), docs: self.docs.clone() }
    }
}

} // verus!
