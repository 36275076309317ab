use doris_cli::client::{parse_version_range, CompactionStatus, QueryResult};

#[test]
fn parses_single_version() {
    assert_eq!(parse_version_range("[35-35]"), Some((35, 35)));
}

#[test]
fn parses_range_with_trailing_metadata() {
    assert_eq!(
        parse_version_range("[40-42] 5 DATA OVERLAPPING 574.00 B"),
        Some((40, 42))
    );
}

#[test]
fn rejects_garbage() {
    assert_eq!(parse_version_range("not a version"), None);
    assert_eq!(parse_version_range("[abc-def]"), None);
    assert_eq!(parse_version_range("[12]"), None);
}

fn strings_of(v: Option<&serde_json::Value>) -> Vec<String> {
    match v.and_then(|x| x.as_array()) {
        Some(items) => items
            .iter()
            .filter_map(|i| i.as_str().map(|s| s.to_string()))
            .collect(),
        None => Vec::new(),
    }
}

#[test]
fn deserializes_compaction_status() {
    let json = r#"{"rowsets":["[0-34] 10 DATA"],"missing_rowsets":["[35-35]","[40-42] 2 DATA"]}"#;
    let v: serde_json::Value = serde_json::from_str(json).unwrap();
    let s = CompactionStatus {
        rowsets: strings_of(v.get("rowsets")),
        missing_rowsets: strings_of(v.get("missing_rowsets")),
    };
    assert_eq!(s.missing_rowsets.len(), 2);
    let ranges: Vec<_> = s
        .missing_rowsets
        .iter()
        .filter_map(|r| parse_version_range(r))
        .collect();
    assert_eq!(ranges, vec![(35, 35), (40, 42)]);
}

#[test]
fn query_result_lookup() {
    let r = QueryResult {
        columns: vec!["BackendId".to_string(), "Host".to_string()],
        rows: vec![vec!["10".to_string(), "h1".to_string()], vec!["11".to_string()]],
    };
    assert_eq!(r.col("host"), Some(1));
    assert_eq!(r.col("Port"), None);
    assert_eq!(r.get(0, "HOST"), Some("h1"));
    assert_eq!(r.get(1, "Host"), None);
    assert_eq!(r.get(2, "BackendId"), None);
    assert_eq!(r.get(1, "backendid"), Some("11"));
    assert!(QueryResult::new().columns.is_empty());
}
