//! The matrix assembler.
//!
//! Given the identifier triple and the loaded samples, the assembler checks
//! that every sample carries one value per probe and transposes the
//! sample-major rows into a probe-major matrix. Values pass through
//! unchanged; a single sample of the wrong width aborts the whole assembly
//! and no partial matrix is produced.

use vstd::prelude::*;

use crate::error::MicroarrayError;
use crate::metadata::IdentifierTriple;
use crate::sample::SampleRow;

verus! {

/// A probe-major expression matrix: `data[p][s]` holds the value of probe
/// `p` for sample `s`, `headers` the sample display names in the
/// caller-supplied order, and the three identifier sequences one entry per
/// probe. Values are bit patterns of 64-bit floats.
#[derive(Debug)]
pub struct ExpressionData {
    pub data: Vec<Vec<u64>>,
    pub headers: Vec<String>,
    pub probe_ids: Vec<String>,
    pub entrez_ids: Vec<String>,
    pub gene_symbols: Vec<String>,
}

impl ExpressionData {
    /// The probe count: the number of matrix rows.
    pub open spec fn n_probes(&self) -> nat {
        self.probe_ids@.len()
    }

    /// The sample count: the number of matrix columns.
    pub open spec fn n_samples(&self) -> nat {
        self.headers@.len()
    }

    /// The shape invariant: identifier sequences one entry per probe, and a
    /// full `n_probes` by `n_samples` grid.
    pub open spec fn wf(&self) -> bool {
        &&& self.entrez_ids@.len() == self.n_probes()
        &&& self.gene_symbols@.len() == self.n_probes()
        &&& self.data@.len() == self.n_probes()
        &&& forall|p: int|
            0 <= p < self.data@.len() ==> (#[trigger] self.data@[p])@.len() == self.n_samples()
    }
}

/// Builds the probe-major matrix from the identifier triple and the loaded
/// samples.
///
/// Succeeds exactly when every sample holds one value per probe; the matrix
/// is then the transpose of the sample rows, the headers are the display
/// names in the caller-supplied order, and the identifier sequences pass
/// through unchanged. Otherwise reports the first sample of the wrong
/// width, and no matrix is produced.
#[verifier::loop_isolation(false)]
pub fn assemble(meta: IdentifierTriple, samples: Vec<SampleRow>) -> (r: Result<
    ExpressionData,
    MicroarrayError,
>)
    requires
        meta.wf(),
    ensures
        match r {
            Ok(exp) => {
                &&& exp.wf()
                &&& forall|s: int|
                    0 <= s < samples@.len() ==> (#[trigger] samples@[s]).values@.len()
                        == meta.n_probes()
                &&& exp.probe_ids@ == meta.probe_ids@
                &&& exp.entrez_ids@ == meta.entrez_ids@
                &&& exp.gene_symbols@ == meta.gene_symbols@
                &&& exp.n_probes() == meta.n_probes()
                &&& exp.n_samples() == samples@.len()
                &&& forall|s: int|
                    0 <= s < samples@.len() ==> #[trigger] exp.headers@[s]
                        == samples@[s].display_name
                &&& forall|p: int, s: int|
                    0 <= p < exp.n_probes() && 0 <= s < samples@.len()
                        ==> #[trigger] (exp.data@[p])@[s] == samples@[s].values@[p]
            },
            Err(e) => match e {
                MicroarrayError::ShapeMismatchError { sample_index, expected, actual } => {
                    &&& sample_index < samples@.len()
                    &&& expected == meta.n_probes()
                    &&& actual == samples@[sample_index as int].values@.len()
                    &&& actual != expected
                    &&& forall|j: int|
                        0 <= j < sample_index ==> (#[trigger] samples@[j]).values@.len()
                            == meta.n_probes()
                },
                _ => false,
            },
        },
{
    let n_probes = meta.probe_ids.len();
    let ghost orig = samples@;
    let mut pending = samples;
    proof {
        assert(pending@ == orig);
    }
    let n_samples = pending.len();
    let mut names: Vec<String> = Vec::new();
    let mut rows: Vec<Vec<u64>> = Vec::new();
    let mut k: usize = 0;
    proof {
        assert(pending@ =~= orig.skip(0));
    }
    while pending.len() > 0
        invariant
            k <= n_samples,
            n_samples == orig.len(),
            k + pending@.len() == orig.len(),
            pending@ == orig.skip(k as int),
            names@.len() == k,
            rows@.len() == k,
            n_probes == meta.probe_ids@.len(),
            forall|j: int| 0 <= j < k ==> #[trigger] names@[j] == orig[j].display_name,
            forall|j: int| 0 <= j < k ==> #[trigger] rows@[j] == orig[j].values,
            forall|j: int| 0 <= j < k ==> (#[trigger] orig[j]).values@.len() == n_probes,
        decreases pending@.len(),
    {
        let sr = pending.remove(0);
        proof {
            assert(sr == orig[k as int]);
            assert(pending@ =~= orig.skip(k as int + 1));
        }
        if sr.values.len() != n_probes {
            return Err(
                MicroarrayError::ShapeMismatchError {
                    sample_index: k,
                    expected: n_probes,
                    actual: sr.values.len(),
                },
            );
        }
        names.push(sr.display_name);
        rows.push(sr.values);
        k = k + 1;
    }
    let mut data: Vec<Vec<u64>> = Vec::new();
    let mut p: usize = 0;
    while p < n_probes
        invariant
            p <= n_probes,
            data@.len() == p,
            rows@.len() == n_samples,
            n_samples == orig.len(),
            forall|j: int| 0 <= j < n_samples ==> #[trigger] rows@[j] == orig[j].values,
            forall|j: int| 0 <= j < n_samples ==> (#[trigger] orig[j]).values@.len() == n_probes,
            forall|q: int|
                0 <= q < p ==> (#[trigger] data@[q])@.len() == n_samples,
            forall|q: int, s: int|
                0 <= q < p && 0 <= s < n_samples ==> #[trigger] (data@[q])@[s] == orig[s].values@[q],
        decreases n_probes - p,
    {
        let mut out_row: Vec<u64> = Vec::new();
        let mut s: usize = 0;
        while s < n_samples
            invariant
                s <= n_samples,
                p < n_probes,
                out_row@.len() == s,
                rows@.len() == n_samples,
                n_samples == orig.len(),
                forall|j: int| 0 <= j < n_samples ==> #[trigger] rows@[j] == orig[j].values,
                forall|j: int|
                    0 <= j < n_samples ==> (#[trigger] orig[j]).values@.len() == n_probes,
                forall|t: int| 0 <= t < s ==> #[trigger] out_row@[t] == orig[t].values@[p as int],
            decreases n_samples - s,
        {
            let v = rows[s][p];
            out_row.push(v);
            s = s + 1;
        }
        data.push(out_row);
        p = p + 1;
    }
    Ok(
        ExpressionData {
            data,
            headers: names,
            probe_ids: meta.probe_ids,
            entrez_ids: meta.entrez_ids,
            gene_symbols: meta.gene_symbols,
        },
    )
}

} // verus!
