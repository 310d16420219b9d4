//! What holds of the store across its requests.
//!
//! Each law follows a record through more than one request. A request
//! stands here as what its contract promises: a collection is a map, the
//! file is what was decoded from it, and a write leaves in the file the
//! collection that it was made from.

use crate::database::{answers, deleted, held, judged};
use crate::docs::Docs;
use crate::error::Error;
use vstd::prelude::*;

verus! {

/// Once a store is opened it holds what the file holds. A file that was
/// decoded stays as it is. A file that was not is written from the store's
/// collection, which is empty.
pub proof fn lemma_opened_mirrors_the_file<T>(
    stored: Option<Docs<T>>,
    opened: Map<Seq<char>, T>,
    rewrite: bool,
    written: Docs<T>,
)
    requires
        opened == held(stored),
        rewrite == (stored is None),
        written@ == opened,
    ensures
        !rewrite ==> held(stored) == opened,
        rewrite ==> held(Some(written)) == opened && opened == Map::<Seq<char>, T>::empty(),
{
}

/// A record whose identity is taken is refused, and only such a record is.
/// A record without identity gets one that is not empty, and only such a
/// record gets one.
pub proof fn lemma_judged_by_identity<T>(
    docs: Map<Seq<char>, T>,
    id: Seq<char>,
    ruling: Result<Option<String>, Error>,
)
    requires
        judged(docs, id, ruling),
    ensures
        id.len() > 0 && docs.contains_key(id)
            <==> ruling == Err::<Option<String>, Error>(Error::AlreadyExists),
        id.len() > 0 && docs.contains_key(id) <==> ruling is Err,
        id.len() == 0 <==> (ruling matches Ok(Some(fresh)) && fresh@.len() > 0),
{
}

/// A record that goes in under an identity that is neither empty nor taken
/// is found again: the store lets it pass as it is, and once the insertion
/// is through, a lookup under that identity answers with a copy of the
/// record, whatever the file held.
pub proof fn lemma_pushed_then_found<T: Clone>(
    before: Map<Seq<char>, T>,
    id: Seq<char>,
    doc: T,
    ruling: Result<Option<String>, Error>,
    stored: Option<Docs<T>>,
    after: Map<Seq<char>, T>,
    found: Option<T>,
)
    requires
        id.len() > 0,
        !before.contains_key(id),
        judged(before, id, ruling),
        after == held(stored).insert(id, doc),
        answers(after, id, found),
    ensures
        ruling == Ok::<Option<String>, Error>(None),
        found matches Some(copy) && cloned(doc, copy),
{
}

/// A record that goes in under an identity that the file does not hold
/// pushes none out: the collection grows by one, and every record that the
/// file held stays under its identity.
pub proof fn lemma_pushed_beside_the_others<T>(
    stored: Option<Docs<T>>,
    key: Seq<char>,
    doc: T,
    after: Map<Seq<char>, T>,
)
    requires
        !held(stored).contains_key(key),
        after == held(stored).insert(key, doc),
    ensures
        after.len() == held(stored).len() + 1,
        forall|other: Seq<char>|
            held(stored).contains_key(other)
                ==> after.contains_key(other) && after[other] == held(stored)[other],
{
    if let Some(docs) = stored {
        docs.lemma_finite();
    }
}

/// A record that was inserted outlasts the store: a store that is opened on
/// the file written from the collection with the record in it holds the
/// record under its identity, and a lookup there answers with a copy of
/// it.
pub proof fn lemma_pushed_then_reopened<T: Clone>(
    stored: Option<Docs<T>>,
    key: Seq<char>,
    doc: T,
    written: Docs<T>,
    found: Option<T>,
)
    requires
        written@ == held(stored).insert(key, doc),
        answers(held(Some(written)), key, found),
    ensures
        held(Some(written)).contains_key(key),
        held(Some(written))[key] == doc,
        found matches Some(copy) && cloned(doc, copy),
{
}

/// A record that was deleted is gone from the collection that is left, and
/// from a store that is opened on the file written from it: a lookup under
/// its identity finds nothing there, and every other record is still
/// there.
pub proof fn lemma_deleted_then_gone<T: Clone>(
    before: Map<Seq<char>, T>,
    id: Seq<char>,
    outcome: Result<T, Error>,
    written: Docs<T>,
    found: Option<T>,
)
    requires
        before.contains_key(id),
        deleted(before, id, written@, outcome),
        answers(held(Some(written)), id, found),
    ensures
        outcome == Ok::<T, Error>(before[id]),
        !held(Some(written)).contains_key(id),
        found is None,
        forall|other: Seq<char>|
            other != id && before.contains_key(other)
                ==> held(Some(written)).contains_key(other) && held(Some(written))[other]
                == before[other],
{
}

/// A deletion under an identity that is not kept fails and leaves the
/// collection as it was, and only such a deletion fails.
pub proof fn lemma_deleted_only_what_is_kept<T>(
    before: Map<Seq<char>, T>,
    id: Seq<char>,
    after: Map<Seq<char>, T>,
    outcome: Result<T, Error>,
)
    requires
        deleted(before, id, after, outcome),
    ensures
        !before.contains_key(id) <==> outcome is Err,
        outcome is Err ==> after == before,
{
}

} // verus!
