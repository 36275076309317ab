use doris_cli::cli::PadRowsetArgs;
use doris_cli::client::{check_pad_reply, compaction_url, pad_reply_outcome, pad_rowset_url, CompactionStatus, QueryResult};
use doris_cli::version_gap::{
    actionable_count, backends_from, gap_from_fetch, gap_report, inspect_plan, missing_range_count,
    pad_calls, pad_confirm_message, pad_targets, padded_message, recheck_verdict,
    replica_targets_from, Inspection, PadTargets, ReplicaTarget,
};

fn s(v: &str) -> String {
    v.to_string()
}

fn backends() -> QueryResult {
    QueryResult {
        columns: vec![s("BackendId"), s("Host"), s("HttpPort"), s("Alive")],
        rows: vec![
            vec![s("10"), s("h1"), s("8041"), s("true")],
            vec![s("11"), s("h2"), s("x"), s("false")],
            vec![s(""), s("h3"), s("1"), s("true")],
        ],
    }
}

fn target(t: &str, b: &str) -> ReplicaTarget {
    ReplicaTarget { tablet_id: s(t), backend_id: s(b), status: s("VERSION_ERROR") }
}

#[test]
fn replica_targets() {
    let r = QueryResult {
        columns: vec![s("TabletId"), s("BackendId"), s("Status")],
        rows: vec![vec![s("1001"), s("10"), s("VERSION_ERROR")]],
    };
    let t = replica_targets_from(&r).unwrap();
    assert_eq!(t[0].tablet_id, "1001");
    assert_eq!(t[0].status, "VERSION_ERROR");
    let no_status = QueryResult { columns: vec![s("TabletId"), s("BackendId")], rows: vec![vec![s("1"), s("2")]] };
    assert_eq!(replica_targets_from(&no_status).unwrap()[0].status, "UNKNOWN");
    let missing = QueryResult { columns: vec![s("TabletId")], rows: vec![] };
    assert_eq!(replica_targets_from(&missing).unwrap_err(), "BackendId column missing from ADMIN SHOW REPLICA STATUS");
    let empty = QueryResult { columns: vec![s("TabletId"), s("BackendId")], rows: vec![vec![s(""), s("2")]] };
    assert_eq!(replica_targets_from(&empty).unwrap_err(), "empty TabletId in replica status");
}

#[test]
fn backends_by_id() {
    let m = backends_from(&backends(), 8040).unwrap();
    assert_eq!(m.len(), 2);
    assert_eq!(m.get("10").unwrap().http_port, 8041);
    assert_eq!(m.get("11").unwrap().http_port, 8040);
    assert!(!m.get("11").unwrap().alive);
    let no_host = QueryResult { columns: vec![s("BackendId")], rows: vec![] };
    assert_eq!(backends_from(&no_host, 8040).unwrap_err(), "Host missing from SHOW BACKENDS");
}

#[test]
fn inspection_decisions() {
    let m = backends_from(&backends(), 8040).unwrap();
    match inspect_plan(&m, &target("1", "99")) {
        Inspection::Done(g) => assert_eq!(g.error.as_deref(), Some("backend 99 not found in SHOW BACKENDS")),
        _ => panic!("unknown backend must be reported"),
    }
    match inspect_plan(&m, &target("1", "11")) {
        Inspection::Done(g) => assert_eq!(g.error.as_deref(), Some("backend 11 (h2) is not alive")),
        _ => panic!("dead backend must be reported"),
    }
    match inspect_plan(&m, &target("1", "10")) {
        Inspection::Fetch { base_url, host } => {
            assert_eq!(base_url, "http://h1:8041");
            assert_eq!(host, "h1");
        }
        _ => panic!("alive backend must be fetched"),
    }
}

#[test]
fn gaps_and_pad_plan() {
    let m = backends_from(&backends(), 8040).unwrap();
    let status = CompactionStatus { rowsets: vec![s("[0-34] 10 DATA")], missing_rowsets: vec![s("[35-35]"), s("junk"), s("[40-42] 2 DATA")] };
    let g = gap_from_fetch(&target("1001", "10"), "h1", Ok(status));
    assert_eq!(g.ranges, vec![(35, 35), (40, 42)]);
    let failed = gap_from_fetch(&target("1002", "10"), "h1", Err(s("HTTP 500")));
    assert!(failed.ranges.is_empty());
    let gaps = vec![g, failed];
    assert_eq!(actionable_count(&gaps), 1);
    assert_eq!(missing_range_count(&gaps), 2);
    let (calls, err) = pad_calls(&gaps, &m);
    assert!(err.is_none());
    assert_eq!(calls.len(), 2);
    assert_eq!(calls[1].base_url, "http://h1:8041");
    assert_eq!((calls[1].start, calls[1].end), (40, 42));
    assert_eq!(padded_message(&calls[0]), "padded tablet 1001 backend 10 [35,35]");
    assert_eq!(
        doris_cli::version_gap::pad_failed_message(&calls[1]),
        "pad_rowset failed for tablet 1001 on backend 10 versions [40,42]"
    );
    let report = gap_report(&gaps);
    assert_eq!(report[0], (false, s("tablet 1001 | backend 10 (h1) | status VERSION_ERROR | missing: [35-35], junk, [40-42] 2 DATA")));
    assert_eq!(report[1], (true, s("tablet 1002 backend 10 (h1): HTTP 500")));
    assert_eq!(pad_confirm_message(2, 1), "pad 2 missing rowset range(s) across 1 tablet replica(s)?");
    assert_eq!(recheck_verdict(2, 0), (true, s("re-check passed: padded 2 range(s), no missing rowsets remain")));
    assert!(!recheck_verdict(2, 1).0);
    assert_eq!(
        recheck_verdict(2, 3).1,
        "re-check: 3 missing rowset range(s) still present — inspect with `dcli ops version-gaps`"
    );
}

#[test]
fn pad_targets_from_args() {
    let mut a = PadRowsetArgs { db: None, table: None, tablet_id: Some(s("1")), backend_id: None, dry_run: false, yes: false };
    assert_eq!(pad_targets(&a).unwrap_err(), "--tablet-id and --backend-id must be used together");
    a.backend_id = Some(s("2"));
    match pad_targets(&a).unwrap() {
        PadTargets::Manual(t) => assert_eq!(t.status, "manual"),
        _ => panic!("manual target expected"),
    }
    let b = PadRowsetArgs { db: Some(s("db")), table: None, tablet_id: None, backend_id: None, dry_run: false, yes: false };
    assert_eq!(pad_targets(&b).unwrap_err(), "--table is required unless --tablet-id and --backend-id are set");
}

#[test]
fn pad_replies() {
    let url = pad_rowset_url("http://h:8040", "7", 3, 4);
    assert_eq!(url, "http://h:8040/api/pad_rowset?tablet_id=7&start_version=3&end_version=4");
    assert_eq!(compaction_url("http://h:8040", "7"), "http://h:8040/api/compaction/show?tablet_id=7");
    assert!(check_pad_reply(true, "200 OK", &url, "{\"msg\":\"OK\",\"code\":0}").is_ok());
    assert_eq!(
        check_pad_reply(true, "200 OK", &url, "{\"code\":1}").unwrap_err(),
        "BE returned code 1: {\"code\":1}"
    );
    assert_eq!(
        check_pad_reply(true, "200 OK", &url, "{\"msg\":\"fail\"}").unwrap_err(),
        "BE returned msg 'fail': {\"msg\":\"fail\"}"
    );
    assert!(check_pad_reply(true, "200 OK", &url, "not json").is_ok());
    assert_eq!(
        check_pad_reply(false, "500 Internal Server Error", "u", "boom").unwrap_err(),
        "HTTP 500 Internal Server Error from u: boom"
    );
    assert!(pad_reply_outcome(true, "200", "u", "b", Some((None, Some(s("ok"))))).is_ok());
}
