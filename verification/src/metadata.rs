//! The metadata loader.
//!
//! A metadata block holds exactly three records of equal width: probe ids,
//! entrez ids and gene symbols, in that order. The first column of each
//! record is a row label and is discarded; the remaining columns populate
//! the three parallel identifier sequences.

use vstd::prelude::*;

use crate::error::MicroarrayError;
use crate::tsv::{lemma_split_on_nonempty, spec_records, split_on, records_of, split_str_on};

verus! {

/// The three parallel per-probe identifier sequences; index `i` across all
/// three refers to the same probe.
#[derive(Debug)]
pub struct IdentifierTriple {
    pub probe_ids: Vec<String>,
    pub entrez_ids: Vec<String>,
    pub gene_symbols: Vec<String>,
}

impl IdentifierTriple {
    /// The probe count: the shared length of the three sequences.
    pub open spec fn n_probes(&self) -> nat {
        self.probe_ids@.len()
    }

    /// The three sequences have equal length.
    pub open spec fn wf(&self) -> bool {
        self.entrez_ids@.len() == self.n_probes() && self.gene_symbols@.len() == self.n_probes()
    }
}

/// True when `text` tokenizes into exactly three records of equal width.
pub open spec fn metadata_shape_ok(text: Seq<char>) -> bool {
    let recs = spec_records(text);
    recs.len() == 3 && split_on(recs[1], '\t').len() == split_on(recs[0], '\t').len() && split_on(
        recs[2],
        '\t',
    ).len() == split_on(recs[0], '\t').len()
}

/// Reads the three identifier records from the text of a metadata block.
///
/// Succeeds exactly when the text holds three records of equal width; the
/// first field of each record is the row label and is dropped, the rest
/// populate the identifier sequences in record order.
pub fn parse_metadata(text: &str) -> (r: Result<IdentifierTriple, MicroarrayError>)
    ensures
        match r {
            Ok(t) => metadata_shape_ok(text@) && t.wf() && t.probe_ids.deep_view() == split_on(
                spec_records(text@)[0],
                '\t',
            ).drop_first() && t.entrez_ids.deep_view() == split_on(
                spec_records(text@)[1],
                '\t',
            ).drop_first() && t.gene_symbols.deep_view() == split_on(
                spec_records(text@)[2],
                '\t',
            ).drop_first(),
            Err(e) => !metadata_shape_ok(text@) && match e {
                MicroarrayError::MetadataShapeError { records, expected_columns, actual_columns } => {
                    let recs = spec_records(text@);
                    &&& records == recs.len()
                    &&& if recs.len() != 3 {
                        expected_columns == 0 && actual_columns == 0
                    } else {
                        let w0 = split_on(recs[0], '\t').len();
                        let w1 = split_on(recs[1], '\t').len();
                        let w2 = split_on(recs[2], '\t').len();
                        expected_columns == w0 && ((actual_columns == w1 && w1 != w0) || (w1 == w0
                            && actual_columns == w2 && w2 != w0))
                    }
                },
                _ => false,
            },
        },
{
    let recs = records_of(text);
    if recs.len() != 3 {
        return Err(
            MicroarrayError::MetadataShapeError {
                records: recs.len(),
                expected_columns: 0,
                actual_columns: 0,
            },
        );
    }
    let mut probe_fields = split_str_on(recs[0].as_str(), '\t');
    let mut entrez_fields = split_str_on(recs[1].as_str(), '\t');
    let mut symbol_fields = split_str_on(recs[2].as_str(), '\t');
    proof {
        assert(recs@[0]@ == spec_records(text@)[0]);
        assert(recs@[1]@ == spec_records(text@)[1]);
        assert(recs@[2]@ == spec_records(text@)[2]);
    }
    if entrez_fields.len() != probe_fields.len() {
        return Err(
            MicroarrayError::MetadataShapeError {
                records: 3,
                expected_columns: probe_fields.len(),
                actual_columns: entrez_fields.len(),
            },
        );
    }
    if symbol_fields.len() != probe_fields.len() {
        return Err(
            MicroarrayError::MetadataShapeError {
                records: 3,
                expected_columns: probe_fields.len(),
                actual_columns: symbol_fields.len(),
            },
        );
    }
    proof {
        lemma_split_on_nonempty(spec_records(text@)[0], '\t');
    }
    let ghost pdv = probe_fields.deep_view();
    let ghost edv = entrez_fields.deep_view();
    let ghost sdv = symbol_fields.deep_view();
    let _ = probe_fields.remove(0);
    let _ = entrez_fields.remove(0);
    let _ = symbol_fields.remove(0);
    proof {
        assert(probe_fields.deep_view() =~= pdv.drop_first());
        assert(entrez_fields.deep_view() =~= edv.drop_first());
        assert(symbol_fields.deep_view() =~= sdv.drop_first());
    }
    Ok(
        IdentifierTriple {
            probe_ids: probe_fields,
            entrez_ids: entrez_fields,
            gene_symbols: symbol_fields,
        },
    )
}

} // verus!
