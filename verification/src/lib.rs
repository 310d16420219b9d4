//! A small document store: a collection of records of one type, each under
//! its own identity, mirrored in memory and kept in one file.
//!
//! The crate holds the store's rules and proves them. It never touches the
//! file: the caller reads and writes it, and tells the store what it found.
//!
//! * [`DataBase::open`] makes the store from what the file holds, and says
//!   whether the file is to be written first.
//! * [`DataBase::get`] looks a record up in memory.
//! * [`DataBase::del`] takes a record out; the caller then writes the file.
//! * [`DataBase::push`] lets a record in or refuses it; the caller then
//!   reads the file, [`Staged::merge`] puts the record into what it holds,
//!   the caller writes the result and [`DataBase::commit`] takes it over.
//!
//! A record type says how its identity is read and set by [`MemoDoc`]. The
//! collection is a [`Docs`], and [`laws`] states what holds across several
//! requests.

pub mod database;
pub mod docs;
pub mod error;
pub mod identity;
pub mod laws;
pub mod record;

pub use database::{DataBase, Staged};
pub use docs::Docs;
pub use error::Error;
pub use record::MemoDoc;
