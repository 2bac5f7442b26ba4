use microarray::{
    assemble, build_sample_row, parse_metadata, parse_sample_record, MicroarrayError,
};

fn parse_bits(raw: &[String]) -> Vec<Option<u64>> {
    raw.iter().map(|t| t.parse::<f64>().ok().map(|f| f.to_bits())).collect()
}

#[test]
fn metadata_three_records() {
    let text = "probes\tP1\tP2\nentrez\tE1\tE2\nsymbols\tG1\tG2\n";
    let triple = parse_metadata(text).unwrap();
    assert_eq!(triple.probe_ids, vec!["P1".to_string(), "P2".to_string()]);
    assert_eq!(triple.entrez_ids, vec!["E1".to_string(), "E2".to_string()]);
    assert_eq!(triple.gene_symbols, vec!["G1".to_string(), "G2".to_string()]);
}

#[test]
fn metadata_without_trailing_newline() {
    let text = "p\tA\ne\tB\ns\tC";
    let triple = parse_metadata(text).unwrap();
    assert_eq!(triple.probe_ids, vec!["A".to_string()]);
    assert_eq!(triple.entrez_ids, vec!["B".to_string()]);
    assert_eq!(triple.gene_symbols, vec!["C".to_string()]);
}

#[test]
fn metadata_too_few_records() {
    let text = "probes\tP1\tP2\nentrez\tE1\tE2\n";
    let err = parse_metadata(text).unwrap_err();
    assert_eq!(
        err,
        MicroarrayError::MetadataShapeError { records: 2, expected_columns: 0, actual_columns: 0 }
    );
}

#[test]
fn metadata_too_many_records() {
    let text = "a\t1\nb\t2\nc\t3\nd\t4\n";
    let err = parse_metadata(text).unwrap_err();
    assert_eq!(
        err,
        MicroarrayError::MetadataShapeError { records: 4, expected_columns: 0, actual_columns: 0 }
    );
}

#[test]
fn metadata_unequal_columns() {
    let text = "probes\tP1\tP2\nentrez\tE1\nsymbols\tG1\tG2\n";
    let err = parse_metadata(text).unwrap_err();
    assert_eq!(
        err,
        MicroarrayError::MetadataShapeError { records: 3, expected_columns: 3, actual_columns: 2 }
    );
}

#[test]
fn sample_record_name_and_tokens() {
    let text = "ignored\th1\th2\nS1\t1.5\t-2.25\n";
    let raw = parse_sample_record(text).unwrap();
    assert_eq!(raw.display_name, "S1");
    assert_eq!(raw.raw_values, vec!["1.5".to_string(), "-2.25".to_string()]);
}

#[test]
fn sample_record_wrong_record_count() {
    let only_header = "just one line\n";
    let err = parse_sample_record(only_header).unwrap_err();
    assert_eq!(err, MicroarrayError::MalformedRecordError { records: 1 });

    let extra = "h\nS1\t1\nS2\t2\n";
    let err = parse_sample_record(extra).unwrap_err();
    assert_eq!(err, MicroarrayError::MalformedRecordError { records: 3 });
}

#[test]
fn non_numeric_value_is_named() {
    let text = "h\tv1\tv2\ns2 name\t5.5\tabc\n";
    let raw = parse_sample_record(text).unwrap();
    let parsed = parse_bits(&raw.raw_values);
    let err = build_sample_row("s2", raw, &parsed).unwrap_err();
    assert_eq!(
        err,
        MicroarrayError::ValueParseError {
            sample: "s2".to_string(),
            column: 1,
            raw: "abc".to_string(),
        }
    );
}

#[test]
fn transpose_is_probe_major() {
    let meta = parse_metadata("p\tP1\tP2\tP3\ne\tE1\tE2\tE3\ns\tG1\tG2\tG3\n").unwrap();
    let texts = ["h\nA\t1\t2\t3\n", "h\nB\t4\t5\t6\n"];
    let mut rows = Vec::new();
    for (i, t) in texts.iter().enumerate() {
        let raw = parse_sample_record(t).unwrap();
        let parsed = parse_bits(&raw.raw_values);
        rows.push(build_sample_row(&format!("id{}", i), raw, &parsed).unwrap());
    }
    let exp = assemble(meta, rows).unwrap();
    assert_eq!(exp.headers, vec!["A".to_string(), "B".to_string()]);
    assert_eq!(exp.data.len(), 3);
    for row in &exp.data {
        assert_eq!(row.len(), 2);
    }
    let as_f64: Vec<Vec<f64>> =
        exp.data.iter().map(|r| r.iter().map(|b| f64::from_bits(*b)).collect()).collect();
    assert_eq!(as_f64[0], vec![1.0, 4.0]);
    assert_eq!(as_f64[1], vec![2.0, 5.0]);
    assert_eq!(as_f64[2], vec![3.0, 6.0]);
}

#[test]
fn sample_order_is_preserved() {
    let meta = parse_metadata("p\tP1\ne\tE1\ns\tG1\n").unwrap();
    let names = ["zeta", "alpha", "mid"];
    let mut rows = Vec::new();
    for n in names.iter() {
        let raw = parse_sample_record(&format!("h\n{}\t1.0\n", n)).unwrap();
        let parsed = parse_bits(&raw.raw_values);
        rows.push(build_sample_row(n, raw, &parsed).unwrap());
    }
    let exp = assemble(meta, rows).unwrap();
    assert_eq!(
        exp.headers,
        vec!["zeta".to_string(), "alpha".to_string(), "mid".to_string()]
    );
}

#[test]
fn shape_mismatch_fails_assembly() {
    let meta = parse_metadata("p\tP1\tP2\ne\tE1\tE2\ns\tG1\tG2\n").unwrap();
    let good = parse_sample_record("h\nA\t1\t2\n").unwrap();
    let bad = parse_sample_record("h\nB\t9\n").unwrap();
    let mut rows = Vec::new();
    for raw in [good, bad] {
        let parsed = parse_bits(&raw.raw_values);
        rows.push(build_sample_row("x", raw, &parsed).unwrap());
    }
    let err = assemble(meta, rows).unwrap_err();
    assert_eq!(
        err,
        MicroarrayError::ShapeMismatchError { sample_index: 1, expected: 2, actual: 1 }
    );
}

#[test]
fn empty_sample_list_gives_empty_columns() {
    let meta = parse_metadata("p\tP1\tP2\ne\tE1\tE2\ns\tG1\tG2\n").unwrap();
    let exp = assemble(meta, Vec::new()).unwrap();
    assert_eq!(exp.headers.len(), 0);
    assert_eq!(exp.data.len(), 2);
    assert_eq!(exp.data[0].len(), 0);
    assert_eq!(exp.data[1].len(), 0);
}
