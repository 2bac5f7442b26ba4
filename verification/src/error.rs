//! The error taxonomy of the assembler.
//!
//! Every failure of an assembly run is one of these variants, each carrying
//! enough context to pinpoint the faulty input file and field. All of them
//! are terminal for the current run: no partial matrix or document is ever
//! returned alongside an error.

use vstd::prelude::*;

verus! {

/// One variant per failure mode of an assembly or search run.
#[derive(Debug, Clone, PartialEq, Eq)]
pub enum MicroarrayError {
    /// A path could not be opened or read; carries the failing path or the
    /// reader's message. Produced only by callers that perform I/O.
    IoError { detail: String },
    /// A sample file's text did not tokenize into a header record followed by
    /// exactly one data record; `records` is the number of records found.
    MalformedRecordError { records: usize },
    /// The metadata block did not hold exactly three records of equal width.
    /// `records` is the record count found; when the count is right but the
    /// widths differ, `expected_columns` is the width of the first record and
    /// `actual_columns` the width of the first record that differs.
    MetadataShapeError { records: usize, expected_columns: usize, actual_columns: usize },
    /// A value column of a sample held a token that does not parse as a
    /// decimal number. `sample` is the sample identifier, `column` the index
    /// within that sample's value columns, `raw` the offending token.
    ValueParseError { sample: String, column: usize, raw: String },
    /// A sample's value count differs from the probe count. `sample_index`
    /// is the index of the first such sample in the caller-supplied order.
    ShapeMismatchError { sample_index: usize, expected: usize, actual: usize },
    /// A field contains the delimiter or a line break, which the quoting-free
    /// output format cannot carry; `field` is the offending text.
    SerializationError { field: String },
    /// The rendered document is not valid text in the output encoding.
    EncodingError,
    /// The sample store could not be queried; carries the store's message.
    /// Produced only by callers that talk to a store.
    DatabaseError { detail: String },
}

} // verus!
