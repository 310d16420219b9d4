//! The capability that every stored record has: an identity that can be
//! read and replaced.

use vstd::prelude::*;

verus! {

/// A record that carries its own identity.
///
/// The empty identity means that none was assigned yet. The store asks
/// nothing else of a record type, and it takes nothing about the two methods
/// on trust: where it calls them, its contracts speak of whatever they
/// returned.
pub trait MemoDoc {
    /// Returns the record's identity.
    fn get_id(&self) -> &str;

    /// Replaces the record's identity by `id`.
    fn set_id(&mut self, id: &str);
}

/// Whether `get_id` may answer `id` when it is asked about `doc`.
pub open spec fn reports<T: MemoDoc>(doc: T, id: Seq<char>) -> bool {
    exists|answer: &str| #[trigger] call_ensures(T::get_id, (&doc,), answer) && answer@ == id
}

} // verus!
