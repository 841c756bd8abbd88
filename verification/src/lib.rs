//! Reconstruction of a navigable, typed object model from a directory-service
//! database artifact: schema resolution, record indexing, attribute decoding
//! (security identifiers, Windows-epoch timestamps, hashes, security
//! descriptors), and the structured queries built on top of them.

use vstd::prelude::*;

pub mod bytes;
pub mod cell;
pub mod datatable;
pub mod descriptor;
pub mod error;
pub mod fmt;
pub mod index;
pub mod links;
pub mod objects;
pub mod record;
pub mod schema;
pub mod search;
pub mod sid;
pub mod timeline;
pub mod timestamp;
pub mod tree;

verus! {

/// Unique address of one row in one source table. Immutable once created;
/// equality covers both fields.
#[derive(Clone, Copy, PartialEq, Eq, Structural, Debug, Hash)]
pub struct RecordPointer {
    pub table: u32,
    pub row: u32,
}

impl RecordPointer {
    pub fn new(table: u32, row: u32) -> (r: RecordPointer)
        ensures
            r.table == table,
            r.row == row,
    {
        RecordPointer { table, row }
    }
}

} // verus!
