//! Verified assembly of gene-expression matrices.
//!
//! The library joins a metadata file (three parallel identifier rows) with a
//! set of per-sample measurement rows, transposes the sample-major values into
//! a probe-major matrix, and renders the result as a tab-delimited document.
//! Expression values are carried as the bit patterns of 64-bit floats, so the
//! assembly and serialization logic is verified end to end; turning raw text
//! into bits and bits back into decimal text happens outside the library.

use vstd::prelude::*;

mod assemble;
mod error;
mod metadata;
mod sample;
mod search;
mod serialize;
mod tsv;

pub use assemble::{ExpressionData, assemble};
pub use error::MicroarrayError;
pub use metadata::{IdentifierTriple, metadata_shape_ok, parse_metadata};
pub use sample::{RawSampleRecord, SampleRow, build_sample_row, parse_sample_record,
    sample_shape_ok};
pub use search::{MicroarraySample, contains_str, filter_matching, find_matching_samples,
    is_substring, lemma_empty_query_matches_all, sample_matches, spec_sample_matches};
pub use serialize::{doc_fields_ok, document_lines, header_fields, lemma_column_order,
    lemma_document_shape, row_fields, spec_document};
pub use tsv::{field_ok, fields_ok, free_of, join_lines, join_with, records_of, spec_records,
    split_on, split_str_on, str_free_of};

verus! {

/// A handle on a dataset directory: the metadata file and one file per sample
/// live beneath this path.
pub struct Microarray {
    path: String,
}

impl Microarray {
    /// The directory path this handle was created from.
    pub closed spec fn spec_path(&self) -> Seq<char> {
        self.path@
    }

    /// Creates a handle on the dataset directory at `path`.
    pub fn new(path: &str) -> (r: Self)
        ensures
            r.spec_path() == path@,
    {
        Microarray { path: String::from_str(path) }
    }

    /// The dataset directory path, for callers that resolve files themselves.
    pub fn path(&self) -> (r: &str)
        ensures
            r@ == self.spec_path(),
    {
        self.path.as_str()
    }
}

} // verus!
