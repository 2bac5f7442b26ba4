//! The serializer.
//!
//! The assembled matrix is rendered as a tab-delimited document: a header
//! record holding three fixed labels and the sample names, then one record
//! per probe holding its three identifiers and its values across samples,
//! every record ended by a line feed. No field is ever quoted or escaped,
//! so a field that itself contains a tab or a line break cannot be carried
//! and fails the serialization.
//!
//! The serializer takes the rendered decimal text of every value alongside
//! the matrix, since turning a 64-bit float bit pattern into its decimal
//! text happens outside the library.

use vstd::prelude::*;

use crate::assemble::ExpressionData;
use crate::error::MicroarrayError;
use crate::tsv::{field_ok, fields_ok, free_of, join_lines, join_with, lemma_join_lines_push,
    lemma_join_with_free, lemma_join_with_push, lemma_split_join, lemma_split_join_lines,
    spec_records, split_on};

verus! {

/// The fields of the header record: the three fixed labels, then the
/// sample display names in order.
pub open spec fn header_fields(headers: Seq<Seq<char>>) -> Seq<Seq<char>> {
    seq!["Probe Id"@, "Entrez"@, "Gene Symbol"@] + headers
}

/// The fields of one probe record: the probe's three identifiers, then its
/// rendered values across samples in order.
pub open spec fn row_fields(
    probe: Seq<char>,
    entrez: Seq<char>,
    symbol: Seq<char>,
    values: Seq<Seq<char>>,
) -> Seq<Seq<char>> {
    seq![probe, entrez, symbol] + values
}

/// True when every rendered value of every probe is a carriable field.
pub open spec fn matrix_fields_ok(m: Seq<Seq<Seq<char>>>) -> bool {
    forall|i: int| 0 <= i < m.len() ==> fields_ok(#[trigger] m[i])
}

/// True when every field the document would carry is free of tabs and line
/// breaks.
pub open spec fn doc_fields_ok(
    probe_ids: Seq<Seq<char>>,
    entrez_ids: Seq<Seq<char>>,
    gene_symbols: Seq<Seq<char>>,
    headers: Seq<Seq<char>>,
    rendered: Seq<Seq<Seq<char>>>,
) -> bool {
    fields_ok(probe_ids) && fields_ok(entrez_ids) && fields_ok(gene_symbols) && fields_ok(headers)
        && matrix_fields_ok(rendered)
}

/// The records of the document, already joined on tabs: the header record,
/// then one record per probe.
pub open spec fn document_lines(
    probe_ids: Seq<Seq<char>>,
    entrez_ids: Seq<Seq<char>>,
    gene_symbols: Seq<Seq<char>>,
    headers: Seq<Seq<char>>,
    rendered: Seq<Seq<Seq<char>>>,
) -> Seq<Seq<char>> {
    seq![join_with(header_fields(headers), '\t')] + Seq::new(
        probe_ids.len(),
        |p: int| join_with(row_fields(probe_ids[p], entrez_ids[p], gene_symbols[p], rendered[p]), '\t'),
    )
}

/// The full text of the document: every record joined on tabs and ended by
/// a line feed.
pub open spec fn spec_document(
    probe_ids: Seq<Seq<char>>,
    entrez_ids: Seq<Seq<char>>,
    gene_symbols: Seq<Seq<char>>,
    headers: Seq<Seq<char>>,
    rendered: Seq<Seq<Seq<char>>>,
) -> Seq<char> {
    join_lines(document_lines(probe_ids, entrez_ids, gene_symbols, headers, rendered))
}

/// The three fixed header labels are carriable fields.
pub proof fn lemma_labels_ok()
    ensures
        field_ok("Probe Id"@),
        field_ok("Entrez"@),
        field_ok("Gene Symbol"@),
{
    reveal_strlit("Probe Id");
    reveal_strlit("Entrez");
    reveal_strlit("Gene Symbol");
}

/// Returns a copy of the first field of `v` that cannot be carried, if any.
fn find_dirty(v: &Vec<String>) -> (r: Option<String>)
    ensures
        match r {
            None => fields_ok(v.deep_view()),
            Some(f) => !field_ok(f@) && exists|i: int|
                0 <= i < v.deep_view().len() && v.deep_view()[i] == f@,
        },
{
    let n = v.len();
    let mut i: usize = 0;
    while i < n
        invariant
            i <= n,
            n == v@.len(),
            forall|j: int| 0 <= j < i ==> field_ok(#[trigger] v.deep_view()[j]),
        decreases n - i,
    {
        let clean_tab = crate::tsv::str_free_of(v[i].as_str(), '\t');
        let clean_nl = crate::tsv::str_free_of(v[i].as_str(), '\n');
        if !(clean_tab && clean_nl) {
            let f = v[i].clone();
            proof {
                let w = i as int;
                assert(0 <= w < v.deep_view().len() && v.deep_view()[w] == f@);
                assert(!field_ok(f@));
            }
            return Some(f);
        }
        i = i + 1;
    }
    None
}

/// Joins the fields of one record on tabs.
fn join_row(fields: &Vec<String>) -> (r: String)
    requires
        fields@.len() >= 1,
    ensures
        r@ == join_with(fields.deep_view(), '\t'),
{
    let ghost dv = fields.deep_view();
    let mut out = fields[0].clone();
    let mut i: usize = 1;
    proof {
        assert(dv.take(1) =~= seq![dv[0]]);
    }
    while i < fields.len()
        invariant
            1 <= i <= fields@.len(),
            dv == fields.deep_view(),
            dv.len() == fields@.len(),
            out@ == join_with(dv.take(i as int), '\t'),
        decreases fields@.len() - i,
    {
        out.append("\t");
        out.append(fields[i].as_str());
        proof {
            reveal_strlit("\t");
            assert(("\t")@ =~= seq!['\t']);
            lemma_join_with_push(dv.take(i as int), dv[i as int], '\t');
            assert(dv.take(i as int + 1) =~= dv.take(i as int).push(dv[i as int]));
        }
        i = i + 1;
    }
    proof {
        assert(dv.take(fields@.len() as int) =~= dv);
    }
    out
}

impl ExpressionData {
    /// Renders the matrix as a tab-delimited document with a header record,
    /// one record per probe, and a line feed after every record.
    ///
    /// `rendered` holds the decimal text of every matrix value, probe-major
    /// like the matrix itself. Succeeds exactly when every field is free of
    /// tabs and line breaks, and then returns precisely the document that
    /// `spec_document` describes; otherwise reports an offending field and
    /// produces no document.
    #[verifier::loop_isolation(false)]
    pub fn make_tsv_document(&self, rendered: &Vec<Vec<String>>) -> (r: Result<
        String,
        MicroarrayError,
    >)
        requires
            self.wf(),
            rendered@.len() == self.n_probes(),
            forall|p: int|
                0 <= p < rendered@.len() ==> (#[trigger] rendered@[p])@.len() == self.n_samples(),
        ensures
            ({
                let pdv = self.probe_ids.deep_view();
                let edv = self.entrez_ids.deep_view();
                let gdv = self.gene_symbols.deep_view();
                let hdv = self.headers.deep_view();
                let rdv = rendered.deep_view();
                match r {
                    Ok(doc) => doc_fields_ok(pdv, edv, gdv, hdv, rdv) && doc@ == spec_document(
                        pdv,
                        edv,
                        gdv,
                        hdv,
                        rdv,
                    ),
                    Err(e) => match e {
                        MicroarrayError::SerializationError { field } => !field_ok(field@)
                            && !doc_fields_ok(pdv, edv, gdv, hdv, rdv),
                        _ => false,
                    },
                }
            }),
    {
        let ghost pdv = self.probe_ids.deep_view();
        let ghost edv = self.entrez_ids.deep_view();
        let ghost gdv = self.gene_symbols.deep_view();
        let ghost hdv = self.headers.deep_view();
        let ghost rdv = rendered.deep_view();
        if let Some(f) = find_dirty(&self.probe_ids) {
            proof {
                assert(!fields_ok(pdv));
            }
            return Err(MicroarrayError::SerializationError { field: f });
        }
        if let Some(f) = find_dirty(&self.entrez_ids) {
            proof {
                assert(!fields_ok(edv));
            }
            return Err(MicroarrayError::SerializationError { field: f });
        }
        if let Some(f) = find_dirty(&self.gene_symbols) {
            proof {
                assert(!fields_ok(gdv));
            }
            return Err(MicroarrayError::SerializationError { field: f });
        }
        if let Some(f) = find_dirty(&self.headers) {
            proof {
                assert(!fields_ok(hdv));
            }
            return Err(MicroarrayError::SerializationError { field: f });
        }
        let n_probes = self.probe_ids.len();
        let n_samples = self.headers.len();
        let mut p: usize = 0;
        while p < n_probes
            invariant
                p <= n_probes,
                forall|q: int| 0 <= q < p ==> fields_ok(#[trigger] rdv[q]),
            decreases n_probes - p,
        {
            if let Some(f) = find_dirty(&rendered[p]) {
                proof {
                    assert(!fields_ok(rdv[p as int]));
                    assert(!matrix_fields_ok(rdv));
                }
                return Err(MicroarrayError::SerializationError { field: f });
            }
            p = p + 1;
        }
        proof {
            assert(matrix_fields_ok(rdv));
        }
        let ghost lines = document_lines(pdv, edv, gdv, hdv, rdv);
        let mut hfields: Vec<String> = Vec::new();
        hfields.push(String::from_str("Probe Id"));
        hfields.push(String::from_str("Entrez"));
        hfields.push(String::from_str("Gene Symbol"));
        proof {
            assert(hfields.deep_view() =~= header_fields(hdv).take(3));
        }
        let mut s: usize = 0;
        while s < n_samples
            invariant
                s <= n_samples,
                hfields@.len() == 3 + s,
                hfields.deep_view() == header_fields(hdv).take(3 + s as int),
            decreases n_samples - s,
        {
            let ghost dv0 = hfields.deep_view();
            hfields.push(self.headers[s].clone());
            proof {
                assert(hfields.deep_view() =~= dv0.push(hdv[s as int]));
                assert(header_fields(hdv).take(3 + s as int + 1) =~= header_fields(hdv).take(
                    3 + s as int,
                ).push(header_fields(hdv)[3 + s as int]));
                assert(header_fields(hdv)[3 + s as int] == hdv[s as int]);
            }
            s = s + 1;
        }
        proof {
            assert(hfields.deep_view() =~= header_fields(hdv));
        }
        let mut doc = join_row(&hfields);
        doc.append("\n");
        proof {
            reveal_strlit("\n");
            assert(("\n")@ =~= seq!['\n']);
            let l1 = lines.take(1);
            assert(l1[0] == lines[0]);
            assert(l1.drop_first() =~= Seq::<Seq<char>>::empty());
            assert(join_lines(Seq::<Seq<char>>::empty()) == Seq::<char>::empty());
            assert(join_lines(l1) == l1[0] + seq!['\n'] + join_lines(l1.drop_first()));
            assert(lines[0] == join_with(header_fields(hdv), '\t'));
            assert(doc@ == join_lines(lines.take(1)));
        }
        let mut p: usize = 0;
        while p < n_probes
            invariant
                p <= n_probes,
                doc@ == join_lines(lines.take(1 + p as int)),
            decreases n_probes - p,
        {
            let ghost rf = row_fields(pdv[p as int], edv[p as int], gdv[p as int], rdv[p as int]);
            let mut rfields: Vec<String> = Vec::new();
            rfields.push(self.probe_ids[p].clone());
            rfields.push(self.entrez_ids[p].clone());
            rfields.push(self.gene_symbols[p].clone());
            proof {
                assert(rf.len() == 3 + rdv[p as int].len());
                assert(rfields.deep_view() =~= rf.take(3));
            }
            let rrow = &rendered[p];
            let mut s: usize = 0;
            while s < n_samples
                invariant
                    s <= n_samples,
                    p < n_probes,
                    rrow@ == (rendered@[p as int])@,
                    rfields@.len() == 3 + s,
                    rfields.deep_view() == rf.take(3 + s as int),
                decreases n_samples - s,
            {
                let ghost dv0 = rfields.deep_view();
                rfields.push(rrow[s].clone());
                proof {
                    assert((rrow@[s as int])@ == rdv[p as int][s as int]);
                    assert(rfields.deep_view() =~= dv0.push(rdv[p as int][s as int]));
                    assert(rf.take(3 + s as int + 1) =~= rf.take(3 + s as int).push(
                        rf[3 + s as int],
                    ));
                    assert(rf[3 + s as int] == rdv[p as int][s as int]);
                }
                s = s + 1;
            }
            proof {
                assert(rfields.deep_view() =~= rf);
            }
            let line = join_row(&rfields);
            doc.append(line.as_str());
            doc.append("\n");
            proof {
                reveal_strlit("\n");
                assert(("\n")@ =~= seq!['\n']);
                lemma_join_lines_push(lines.take(1 + p as int), lines[1 + p as int]);
                assert(lines.take(1 + p as int + 1) =~= lines.take(1 + p as int).push(
                    lines[1 + p as int],
                ));
                assert(line@ == lines[1 + p as int]);
            }
            p = p + 1;
        }
        proof {
            assert(lines.take(1 + n_probes as int) =~= lines);
        }
        Ok(doc)
    }
}

/// The shape of every document the serializer can produce: splitting it on
/// line feeds gives the header record and one record per probe followed by
/// one empty trailing segment, and splitting any record on tabs gives three
/// identifier fields and one field per sample.
pub proof fn lemma_document_shape(
    probe_ids: Seq<Seq<char>>,
    entrez_ids: Seq<Seq<char>>,
    gene_symbols: Seq<Seq<char>>,
    headers: Seq<Seq<char>>,
    rendered: Seq<Seq<Seq<char>>>,
)
    requires
        entrez_ids.len() == probe_ids.len(),
        gene_symbols.len() == probe_ids.len(),
        rendered.len() == probe_ids.len(),
        forall|p: int| 0 <= p < rendered.len() ==> (#[trigger] rendered[p]).len() == headers.len(),
        doc_fields_ok(probe_ids, entrez_ids, gene_symbols, headers, rendered),
    ensures
        spec_records(spec_document(probe_ids, entrez_ids, gene_symbols, headers, rendered))
            == document_lines(probe_ids, entrez_ids, gene_symbols, headers, rendered),
        spec_records(spec_document(probe_ids, entrez_ids, gene_symbols, headers, rendered)).len()
            == probe_ids.len() + 1,
        forall|i: int|
            0 <= i < probe_ids.len() + 1 ==> split_on(
                #[trigger] spec_records(
                    spec_document(probe_ids, entrez_ids, gene_symbols, headers, rendered),
                )[i],
                '\t',
            ).len() == 3 + headers.len(),
        split_on(
            spec_records(spec_document(probe_ids, entrez_ids, gene_symbols, headers, rendered))[0],
            '\t',
        ) == header_fields(headers),
        forall|p: int|
            0 <= p < probe_ids.len() ==> split_on(
                #[trigger] spec_records(
                    spec_document(probe_ids, entrez_ids, gene_symbols, headers, rendered),
                )[p + 1],
                '\t',
            ) == row_fields(probe_ids[p], entrez_ids[p], gene_symbols[p], rendered[p]),
{
    let lines = document_lines(probe_ids, entrez_ids, gene_symbols, headers, rendered);
    let doc = spec_document(probe_ids, entrez_ids, gene_symbols, headers, rendered);
    lemma_labels_ok();
    assert(fields_ok(header_fields(headers))) by {
        assert(forall|j: int|
            0 <= j < headers.len() ==> header_fields(headers)[j + 3] == #[trigger] headers[j]);
    }
    assert forall|p: int| 0 <= p < probe_ids.len() implies fields_ok(
        row_fields(probe_ids[p], entrez_ids[p], gene_symbols[p], rendered[p]),
    ) by {
        let rf = row_fields(probe_ids[p], entrez_ids[p], gene_symbols[p], rendered[p]);
        assert(forall|j: int| 0 <= j < rendered[p].len() ==> rf[j + 3] == #[trigger] rendered[p][j]);
    }
    assert forall|i: int| 0 <= i < lines.len() implies free_of(#[trigger] lines[i], '\n') by {
        if i == 0 {
            lemma_join_with_free(header_fields(headers), '\t', '\n');
        } else {
            lemma_join_with_free(
                row_fields(probe_ids[i - 1], entrez_ids[i - 1], gene_symbols[i - 1], rendered[i - 1]),
                '\t',
                '\n',
            );
        }
    }
    lemma_split_join_lines(lines);
    assert(split_on(doc, '\n') == lines.push(Seq::<char>::empty()));
    assert(split_on(doc, '\n')[split_on(doc, '\n').len() - 1].len() == 0);
    assert(spec_records(doc) =~= lines);
    assert forall|i: int| 0 <= i < probe_ids.len() + 1 implies split_on(
        #[trigger] spec_records(doc)[i],
        '\t',
    ) == (if i == 0 {
        header_fields(headers)
    } else {
        row_fields(probe_ids[i - 1], entrez_ids[i - 1], gene_symbols[i - 1], rendered[i - 1])
    }) by {
        if i == 0 {
            lemma_split_join(header_fields(headers), '\t');
        } else {
            lemma_split_join(
                row_fields(probe_ids[i - 1], entrez_ids[i - 1], gene_symbols[i - 1], rendered[i - 1]),
                '\t',
            );
        }
    }
}

/// The sample columns of the document stand in the caller-supplied sample
/// order: field `3 + s` of the header record is the display name of the
/// `s`-th sample handed to the assembler, and field `3 + s` of the record
/// of probe `p` is the rendered value of `rendered[p][s]`.
pub proof fn lemma_column_order(
    exp: ExpressionData,
    samples: Seq<crate::sample::SampleRow>,
    rendered: Seq<Seq<Seq<char>>>,
)
    requires
        exp.wf(),
        exp.n_samples() == samples.len(),
        forall|s: int| 0 <= s < samples.len() ==> exp.headers@[s] == samples[s].display_name,
        rendered.len() == exp.n_probes(),
        forall|p: int| 0 <= p < rendered.len() ==> (#[trigger] rendered[p]).len() == samples.len(),
        doc_fields_ok(
            exp.probe_ids.deep_view(),
            exp.entrez_ids.deep_view(),
            exp.gene_symbols.deep_view(),
            exp.headers.deep_view(),
            rendered,
        ),
    ensures
        forall|s: int|
            0 <= s < samples.len() ==> split_on(
                spec_records(
                    spec_document(
                        exp.probe_ids.deep_view(),
                        exp.entrez_ids.deep_view(),
                        exp.gene_symbols.deep_view(),
                        exp.headers.deep_view(),
                        rendered,
                    ),
                )[0],
                '\t',
            )[3 + s] == samples[s].display_name@,
        forall|p: int, s: int|
            0 <= p < exp.n_probes() && 0 <= s < samples.len() ==> #[trigger] split_on(
                spec_records(
                    spec_document(
                        exp.probe_ids.deep_view(),
                        exp.entrez_ids.deep_view(),
                        exp.gene_symbols.deep_view(),
                        exp.headers.deep_view(),
                        rendered,
                    ),
                )[p + 1],
                '\t',
            )[3 + s] == rendered[p][s],
{
    let pdv = exp.probe_ids.deep_view();
    let edv = exp.entrez_ids.deep_view();
    let gdv = exp.gene_symbols.deep_view();
    let hdv = exp.headers.deep_view();
    lemma_document_shape(pdv, edv, gdv, hdv, rendered);
    assert forall|s: int| 0 <= s < samples.len() implies split_on(
        spec_records(spec_document(pdv, edv, gdv, hdv, rendered))[0],
        '\t',
    )[3 + s] == samples[s].display_name@ by {
        assert(header_fields(hdv)[3 + s] == hdv[s]);
        assert(hdv[s] == (exp.headers@[s])@);
    }
    assert forall|p: int, s: int|
        0 <= p < exp.n_probes() && 0 <= s < samples.len() implies #[trigger] split_on(
        spec_records(spec_document(pdv, edv, gdv, hdv, rendered))[p + 1],
        '\t',
    )[3 + s] == rendered[p][s] by {
        assert(row_fields(pdv[p], edv[p], gdv[p], rendered[p])[3 + s] == rendered[p][s]);
    }
}

} // verus!
