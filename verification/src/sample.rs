//! The sample loader.
//!
//! A sample file holds a header record that carries no field names, then
//! exactly one data record: the sample's display name in the first column
//! and one decimal expression value per probe in the remaining columns.
//! The loader splits the record here; turning each value token into the bit
//! pattern of a 64-bit float happens outside the library, and
//! `build_sample_row` then accepts or rejects the whole row given the
//! outcome of every token.

use vstd::prelude::*;

use crate::error::MicroarrayError;
use crate::tsv::{lemma_split_on_nonempty, records_of, spec_records, split_on, split_str_on};

verus! {

/// The raw data record of one sample file: the display name and the
/// unparsed value tokens, in column order.
#[derive(Debug)]
pub struct RawSampleRecord {
    pub display_name: String,
    pub raw_values: Vec<String>,
}

/// One loaded sample: its display name and one value per probe, each value
/// the bit pattern of a 64-bit float.
#[derive(Debug)]
pub struct SampleRow {
    pub display_name: String,
    pub values: Vec<u64>,
}

/// True when `text` tokenizes into exactly two records: the header and the
/// single data record.
pub open spec fn sample_shape_ok(text: Seq<char>) -> bool {
    spec_records(text).len() == 2
}

/// Splits the text of a sample file into its display name and raw value
/// tokens.
///
/// Succeeds exactly when the text holds two records; the data record's
/// first field becomes the display name and the remaining fields the value
/// tokens, in column order.
pub fn parse_sample_record(text: &str) -> (r: Result<RawSampleRecord, MicroarrayError>)
    ensures
        match r {
            Ok(raw) => sample_shape_ok(text@) && {
                let fields = split_on(spec_records(text@)[1], '\t');
                raw.display_name@ == fields[0] && raw.raw_values.deep_view()
                    == fields.drop_first()
            },
            Err(e) => !sample_shape_ok(text@) && match e {
                MicroarrayError::MalformedRecordError { records } => records == spec_records(
                    text@,
                ).len(),
                _ => false,
            },
        },
{
    let recs = records_of(text);
    if recs.len() != 2 {
        return Err(MicroarrayError::MalformedRecordError { records: recs.len() });
    }
    let mut fields = split_str_on(recs[1].as_str(), '\t');
    proof {
        assert(recs@[1]@ == spec_records(text@)[1]);
        lemma_split_on_nonempty(spec_records(text@)[1], '\t');
    }
    let ghost fdv = fields.deep_view();
    let display_name = fields.remove(0);
    proof {
        assert(fields.deep_view() =~= fdv.drop_first());
    }
    Ok(RawSampleRecord { display_name, raw_values: fields })
}

/// Accepts or rejects one sample given the parse outcome of every value
/// token.
///
/// `parsed` holds, for each raw token in column order, the bit pattern its
/// text denotes, or nothing when the token is not a decimal number.
/// Succeeds exactly when every token parsed; otherwise reports the sample
/// identifier, the index of the first unparsable column and its raw text,
/// before any matrix is built.
pub fn build_sample_row(
    sample_id: &str,
    record: RawSampleRecord,
    parsed: &Vec<Option<u64>>,
) -> (r: Result<SampleRow, MicroarrayError>)
    requires
        parsed@.len() == record.raw_values@.len(),
    ensures
        match r {
            Ok(row) => (forall|i: int| 0 <= i < parsed@.len() ==> #[trigger] parsed@[i] is Some)
                && row.display_name == record.display_name && row.values@.len() == parsed@.len()
                && forall|i: int|
                0 <= i < parsed@.len() ==> #[trigger] parsed@[i] == Some(row.values@[i]),
            Err(e) => match e {
                MicroarrayError::ValueParseError { sample, column, raw } => sample@ == sample_id@
                    && column < parsed@.len() && parsed@[column as int] is None && (forall|j: int|
                    0 <= j < column ==> #[trigger] parsed@[j] is Some) && raw@
                    == record.raw_values@[column as int]@,
                _ => false,
            },
        },
{
    let mut values: Vec<u64> = Vec::new();
    let n = parsed.len();
    let mut i: usize = 0;
    while i < n
        invariant
            i <= n,
            n == parsed@.len(),
            parsed@.len() == record.raw_values@.len(),
            values@.len() == i,
            forall|j: int| 0 <= j < i ==> #[trigger] parsed@[j] == Some(values@[j]),
        decreases n - i,
    {
        match parsed[i] {
            Some(v) => {
                values.push(v);
            },
            None => {
                let raw = record.raw_values[i].clone();
                return Err(
                    MicroarrayError::ValueParseError {
                        sample: String::from_str(sample_id),
                        column: i,
                        raw,
                    },
                );
            },
        }
        i = i + 1;
    }
    Ok(SampleRow { display_name: record.display_name, values })
}

} // verus!
