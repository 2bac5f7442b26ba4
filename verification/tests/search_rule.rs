use microarray::{contains_str, find_matching_samples, sample_matches, MicroarraySample};

fn store() -> Vec<MicroarraySample> {
    vec![
        MicroarraySample {
            id: 1,
            uuid: "u-alpha".to_string(),
            array: "hgu133".to_string(),
            name: "alpha".to_string(),
        },
        MicroarraySample {
            id: 2,
            uuid: "u-beta".to_string(),
            array: "hgu133".to_string(),
            name: "beta".to_string(),
        },
    ]
}

#[test]
fn query_al_returns_only_alpha() {
    let found = find_matching_samples(store(), "al");
    assert_eq!(found.len(), 1);
    assert_eq!(found[0].name, "alpha");
    assert_eq!(found[0].id, 1);
}

#[test]
fn empty_query_returns_all() {
    let found = find_matching_samples(store(), "");
    assert_eq!(found, store());
}

#[test]
fn query_matches_uuid_too() {
    let found = find_matching_samples(store(), "u-beta");
    assert_eq!(found.len(), 1);
    assert_eq!(found[0].name, "beta");
}

#[test]
fn match_is_case_sensitive() {
    let found = find_matching_samples(store(), "ALPHA");
    assert_eq!(found.len(), 0);
}

#[test]
fn storage_order_is_kept() {
    let found = find_matching_samples(store(), "a");
    let names: Vec<&str> = found.iter().map(|s| s.name.as_str()).collect();
    assert_eq!(names, vec!["alpha", "beta"]);
}

#[test]
fn substring_edges() {
    assert!(contains_str("hello", ""));
    assert!(contains_str("hello", "hello"));
    assert!(contains_str("hello", "ell"));
    assert!(!contains_str("hello", "hellos"));
    assert!(!contains_str("", "x"));
    assert!(contains_str("", ""));
}

#[test]
fn sample_matches_name_or_uuid() {
    let s = MicroarraySample {
        id: 7,
        uuid: "0c3b8a19".to_string(),
        array: "x".to_string(),
        name: "liver".to_string(),
    };
    assert!(sample_matches(&s, "liv"));
    assert!(sample_matches(&s, "3b8"));
    assert!(!sample_matches(&s, "kidney"));
}
