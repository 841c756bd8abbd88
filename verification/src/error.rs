//! The typed error taxonomy. Fatal errors (schema resolution, index
//! consistency) abort an operation; per-record decode errors are caught at the
//! record boundary by the bulk operations and counted as skipped.

use vstd::prelude::*;

verus! {

/// Every failure the engine can report.
#[derive(Debug)]
pub enum Error {
    /// A required attribute is absent.
    ValueIsMissing,
    /// The on-disk variant did not match the expected decoder.
    InvalidValueDetected { value: String, expected: String },
    /// A numeric coercion failed (value out of range for the target type).
    IntegerConversionError { value: String, intended_type: String },
    /// A structural coercion failed.
    MiscConversionError { value: String, intended_type: String },
    /// A required reserved column is absent from the table's column listing.
    MissingColumn { name: String },
    /// No record with the schema anchor name exists in the data table.
    MissingSchemaRecord,
    /// The schema anchor record has no children at all.
    SchemaRecordHasNoChildren,
    /// A required well-known type definition was not found under the anchor.
    MissingTypeDefinition { name: String },
    /// A security descriptor blob failed to decode; the blob itself is kept,
    /// encoded, for offline inspection.
    DescriptorDecodeError { encoded: String },
    /// Two rows of the data table carry the same record id.
    DuplicateRecordId { record_id: i32 },
    /// A relationship row points at a record id that is not indexed.
    DanglingLinkTarget { record_id: i32 },
}

} // verus!
