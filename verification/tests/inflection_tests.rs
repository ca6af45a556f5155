use edpdgen::inflection::validate_inflection_db_version;

fn version_rows(commit_id: &str, middle: &str, repository: &str) -> Vec<Vec<Vec<String>>> {
    vec![vec![vec![
        commit_id.to_string(),
        middle.to_string(),
        repository.to_string(),
    ]]]
}

#[test]
fn accepts_forty_character_commit_id() {
    let rows = version_rows(
        "0123456789012345678901234567890123456789",
        "2021-01-01",
        "some/other-repository",
    );
    assert!(validate_inflection_db_version(rows).is_ok());
}

#[test]
fn accepts_expected_repository() {
    let rows = version_rows("short", "2021-01-01", "digitalpalitools/inflection-generator");
    assert!(validate_inflection_db_version(rows).is_ok());
}

#[test]
fn rejects_unexpected_shape() {
    let e = validate_inflection_db_version(Vec::new()).unwrap_err();
    assert_eq!(e, "Invalid inflection db. Unexpected data in _version table.");

    let two_cells = vec![vec![vec!["a".to_string(), "b".to_string()]]];
    let e = validate_inflection_db_version(two_cells).unwrap_err();
    assert_eq!(e, "Invalid inflection db. Unexpected data in _version table.");
}

#[test]
fn rejects_bad_commit_and_repository() {
    let rows = version_rows("short", "2021-01-01", "other/repo");
    let e = validate_inflection_db_version(rows).unwrap_err();
    assert_eq!(
        e,
        "Invalid inflection db: commit_id: short, repository: other/repo."
    );
}
