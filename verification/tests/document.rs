use microarray::{
    assemble, build_sample_row, parse_metadata, parse_sample_record, ExpressionData, Microarray,
    MicroarrayError,
};

fn load_rows(texts: &[&str]) -> Vec<microarray::SampleRow> {
    let mut rows = Vec::new();
    for (i, t) in texts.iter().enumerate() {
        let raw = parse_sample_record(t).unwrap();
        let parsed: Vec<Option<u64>> =
            raw.raw_values.iter().map(|t| t.parse::<f64>().ok().map(|f| f.to_bits())).collect();
        rows.push(build_sample_row(&format!("id{}", i), raw, &parsed).unwrap());
    }
    rows
}

fn render(exp: &ExpressionData) -> Vec<Vec<String>> {
    exp.data
        .iter()
        .map(|row| row.iter().map(|b| format!("{}", f64::from_bits(*b))).collect())
        .collect()
}

#[test]
fn end_to_end_two_probes_two_samples() {
    let meta = parse_metadata("probes\tP1\tP2\nentrez\tE1\tE2\nsymbols\tG1\tG2\n").unwrap();
    let rows = load_rows(&["h\nS1\t1.0\t2.0\n", "h\nS2\t3.0\t4.0\n"]);
    let exp = assemble(meta, rows).unwrap();
    let doc = exp.make_tsv_document(&render(&exp)).unwrap();
    let expected = "Probe Id\tEntrez\tGene Symbol\tS1\tS2\nP1\tE1\tG1\t1\t3\nP2\tE2\tG2\t2\t4\n";
    assert_eq!(doc, expected);
}

#[test]
fn document_shape_counts() {
    let meta = parse_metadata("p\tP1\tP2\tP3\ne\tE1\tE2\tE3\ns\tG1\tG2\tG3\n").unwrap();
    let rows = load_rows(&["h\nA\t1\t2\t3\n", "h\nB\t4\t5\t6\n"]);
    let exp = assemble(meta, rows).unwrap();
    let n_probes = exp.probe_ids.len();
    let n_samples = exp.headers.len();
    let doc = exp.make_tsv_document(&render(&exp)).unwrap();
    let lines: Vec<&str> = doc.split('\n').collect();
    assert_eq!(lines.last(), Some(&""));
    let records = &lines[..lines.len() - 1];
    assert_eq!(records.len(), n_probes + 1);
    for rec in records {
        assert_eq!(rec.split('\t').count(), 3 + n_samples);
    }
}

#[test]
fn rendering_keeps_decimal_values() {
    let meta = parse_metadata("p\tP1\ne\tE1\ns\tG1\n").unwrap();
    let rows = load_rows(&["h\nS\t-0.5\n"]);
    let exp = assemble(meta, rows).unwrap();
    let doc = exp.make_tsv_document(&render(&exp)).unwrap();
    assert_eq!(doc, "Probe Id\tEntrez\tGene Symbol\tS\nP1\tE1\tG1\t-0.5\n");
}

#[test]
fn delimiter_in_field_fails_serialization() {
    let exp = ExpressionData {
        data: vec![vec![0]],
        headers: vec!["S1".to_string()],
        probe_ids: vec!["bad\tprobe".to_string()],
        entrez_ids: vec!["E1".to_string()],
        gene_symbols: vec!["G1".to_string()],
    };
    let rendered = vec![vec!["0".to_string()]];
    let err = exp.make_tsv_document(&rendered).unwrap_err();
    assert_eq!(err, MicroarrayError::SerializationError { field: "bad\tprobe".to_string() });
}

#[test]
fn line_break_in_sample_name_fails_serialization() {
    let exp = ExpressionData {
        data: vec![vec![0]],
        headers: vec!["two\nlines".to_string()],
        probe_ids: vec!["P1".to_string()],
        entrez_ids: vec!["E1".to_string()],
        gene_symbols: vec!["G1".to_string()],
    };
    let rendered = vec![vec!["0".to_string()]];
    let err = exp.make_tsv_document(&rendered).unwrap_err();
    assert_eq!(err, MicroarrayError::SerializationError { field: "two\nlines".to_string() });
}

#[test]
fn zero_probes_give_header_only() {
    let meta = parse_metadata("p\ne\ns\n").unwrap();
    let rows = load_rows(&["h\nS1\n"]);
    let exp = assemble(meta, rows).unwrap();
    assert_eq!(exp.data.len(), 0);
    let doc = exp.make_tsv_document(&render(&exp)).unwrap();
    assert_eq!(doc, "Probe Id\tEntrez\tGene Symbol\tS1\n");
}

#[test]
fn scientific_notation_token_is_numeric() {
    let meta = parse_metadata("p\tP1\ne\tE1\ns\tG1\n").unwrap();
    let rows = load_rows(&["h\nS\t1e3\n"]);
    let exp = assemble(meta, rows).unwrap();
    let doc = exp.make_tsv_document(&render(&exp)).unwrap();
    assert_eq!(doc, "Probe Id\tEntrez\tGene Symbol\tS\nP1\tE1\tG1\t1000\n");
}

#[test]
fn dataset_handle_keeps_path() {
    let m = Microarray::new("data/hgu133");
    assert_eq!(m.path(), "data/hgu133");
}
