use doris_cli::client::QueryResult;
use doris_cli::tui::{
    backends_from_result, bool_cell, cell, count_tablet_problem_rows, frontends_from_result,
    latest_of, overview_from, Tab, TAB_COUNT,
};

fn s(v: &str) -> String {
    v.to_string()
}

#[test]
fn summarizes_frontends() {
    let snapshot = frontends_from_result(QueryResult {
        columns: vec![s("Name"), s("Host"), s("Alive"), s("IsMaster")],
        rows: vec![
            vec![s("fe1"), s("127.0.0.1"), s("true"), s("true")],
            vec![s("fe2"), s("127.0.0.2"), s("false"), s("false")],
        ],
    });

    assert_eq!(snapshot.summary.total, 2);
    assert_eq!(snapshot.summary.alive, 1);
    assert_eq!(snapshot.summary.down, 1);
    assert!(snapshot.nodes[0].is_master);
}

#[test]
fn summarizes_backends() {
    let snapshot = backends_from_result(QueryResult {
        columns: vec![s("BackendId"), s("Host"), s("Alive"), s("SystemDecommissioned")],
        rows: vec![
            vec![s("1"), s("127.0.0.1"), s("true"), s("false")],
            vec![s("2"), s("127.0.0.2"), s("false"), s("true")],
        ],
    });

    assert_eq!(snapshot.summary.total, 2);
    assert_eq!(snapshot.summary.alive, 1);
    assert_eq!(snapshot.summary.down, 1);
    assert_eq!(snapshot.summary.decommissioning, 1);
}

#[test]
fn counts_tablet_problem_rows() {
    let result = QueryResult {
        columns: vec![s("DbName"), s("ReplicaMissingNum"), s("VersionIncompleteNum")],
        rows: vec![
            vec![s("ok"), s("0"), s("0")],
            vec![s("bad"), s("1"), s("0")],
            vec![s("also_bad"), s("0"), s("2")],
        ],
    };

    assert_eq!(count_tablet_problem_rows(&result), 2);
}

#[test]
fn problem_rows_ignore_non_numbers() {
    let result = QueryResult {
        columns: vec![s("DbName"), s("UnrecoverableNum")],
        rows: vec![vec![s("x"), s("n/a")], vec![s("y"), s("-3")]],
    };
    assert_eq!(count_tablet_problem_rows(&result), 0);
}

#[test]
fn cells_are_trimmed_and_null_is_absent() {
    let r = QueryResult {
        columns: vec![s("Host"), s("Version"), s("Alive")],
        rows: vec![vec![s("  10.0.0.1 "), s("null"), s("YES")]],
    };
    let row = &r.rows[0];
    assert_eq!(cell(&r, row, "host"), Some(s("10.0.0.1")));
    assert_eq!(cell(&r, row, "Version"), None);
    assert_eq!(cell(&r, row, "Missing"), None);
    assert!(bool_cell(&r, row, "Alive"));
    let one = QueryResult { columns: vec![s("Alive")], rows: vec![vec![s("1")], vec![s(" 1")]] };
    assert!(bool_cell(&one, &one.rows[0], "Alive"));
    assert!(!bool_cell(&one, &one.rows[1], "Alive"));
}

#[test]
fn frontend_nodes_carry_cells() {
    let snap = frontends_from_result(QueryResult {
        columns: vec![s("Name"), s("Host"), s("Role"), s("Alive"), s("ErrMsg")],
        rows: vec![vec![s("fe1"), s("h1"), s("FOLLOWER"), s("true"), s("")]],
    });
    assert_eq!(snap.nodes[0].name.as_deref(), Some("fe1"));
    assert_eq!(snap.nodes[0].role.as_deref(), Some("FOLLOWER"));
    assert_eq!(snap.nodes[0].error, None);
    assert!(!snap.nodes[0].is_master);
    assert_eq!(snap.raw.rows.len(), 1);
}

#[test]
fn tab_titles_and_steps() {
    assert_eq!(Tab::at(0).title(), "Overview");
    assert_eq!(Tab::at(1).title(), "FE");
    assert_eq!(Tab::at(5).title(), "Logs");
    assert_eq!(Tab::at(2).title(), "BE");
    assert_eq!(Tab::at(3).title(), "SQL");
    assert_eq!(Tab::at(4).title(), "Ops");
    assert_eq!(TAB_COUNT, 6);
}

#[test]
fn latest_time_wins() {
    assert_eq!(latest_of(&vec![3, 9, 4]), 9);
    assert_eq!(latest_of(&vec![7]), 7);
    assert!(latest_of(&Vec::new()) > 0);
}

#[test]
fn overview_takes_later_time() {
    let f = frontends_from_result(QueryResult { columns: vec![], rows: vec![] });
    let b = backends_from_result(QueryResult { columns: vec![], rows: vec![] });
    let o = overview_from(&f, &b);
    assert_eq!(o.loaded_at, f.loaded_at.max(b.loaded_at));
    assert_eq!(o.frontends.total, 0);
}

use doris_cli::tui::{
    cluster_snapshot_from, footer_help, overview_rows, summary_text, ClusterSummary, DashKey,
    Dashboard, KeyAction,
};

fn summary() -> ClusterSummary {
    ClusterSummary {
        fe_total: 3,
        fe_alive: 2,
        fe_down: 1,
        be_total: 4,
        be_alive: 4,
        be_down: 0,
        be_decommissioning: 1,
        tablet_health_rows: 5,
        tablet_problem_rows: 2,
    }
}

#[test]
fn dashboard_tabs_and_scrolling() {
    let mut d = Dashboard::new();
    assert_eq!(d.tab(), Tab::Overview);
    assert_eq!(d.handle_key(DashKey::Previous), KeyAction::Nothing);
    assert_eq!(d.tab(), Tab::Logs);
    d.next_tab();
    assert_eq!(d.tab(), Tab::Overview);
    d.next_tab();
    d.scroll_down();
    d.scroll_down();
    d.scroll_up();
    assert_eq!(d.table_offset(), 1);
    d.previous_tab();
    d.next_tab();
    assert_eq!(d.tab(), Tab::Frontends);
    assert_eq!(d.table_offset(), 0);
    d.scroll_up();
    assert_eq!(d.table_offset(), 0);
    assert_eq!(d.handle_key(DashKey::CtrlEnter), KeyAction::Nothing);
    assert_eq!(d.handle_key(DashKey::Refresh), KeyAction::Refresh);
    d.next_tab();
    d.next_tab();
    assert_eq!(d.tab(), Tab::Sql);
    assert_eq!(d.handle_key(DashKey::Down), KeyAction::Nothing);
    assert_eq!(d.sql_offset(), 1);
    assert_eq!(d.table_offset(), 0);
    assert_eq!(d.handle_key(DashKey::CtrlEnter), KeyAction::RunSql);
    d.reset_sql_offset();
    assert_eq!(d.sql_offset(), 0);
    assert_eq!(d.active_tab(), 3);
    assert!(!d.should_quit());
    assert_eq!(d.handle_key(DashKey::Other), KeyAction::Nothing);
    assert_eq!(d.handle_key(DashKey::Quit), KeyAction::Nothing);
    assert!(d.should_quit());
}

#[test]
fn next_then_previous_returns_with_table_at_top() {
    for start in 0..TAB_COUNT {
        let mut d = Dashboard::new();
        for _ in 0..start {
            d.next_tab();
        }
        d.scroll_down();
        d.next_tab();
        d.previous_tab();
        assert_eq!(d.active_tab(), start);
        assert_eq!(d.table_offset(), 0);
        d.scroll_down();
        d.previous_tab();
        d.next_tab();
        assert_eq!(d.active_tab(), start);
        assert_eq!(d.table_offset(), 0);
    }
}

#[test]
fn header_footer_and_overview_text() {
    assert_eq!(summary_text(None), "snapshot unavailable");
    assert_eq!(
        summary_text(Some(summary())),
        "FE 2/3 alive | BE 4/4 alive | decom 1 | tablet problem rows 2"
    );
    let rows = overview_rows(&summary());
    assert_eq!(rows[0], (s("Frontends"), s("2/3 alive")));
    assert_eq!(rows[1], (s("Backends"), s("4/4 alive, 1 decommissioning")));
    assert_eq!(rows[2], (s("Tablet health"), s("5 db row(s), 2 problem row(s)")));
    assert_eq!(
        footer_help(Tab::Sql),
        "Tab/Arrows switch | Ctrl+Enter run SQL | Alt+Up/Down result scroll | r refresh | q quit"
    );
    assert_eq!(footer_help(Tab::Ops), "Tab/Arrows switch | j/k scroll | r or F5 refresh | q quit");
}

#[test]
fn snapshot_summary_from_queries() {
    let fes = QueryResult {
        columns: vec![s("Name"), s("Host"), s("Alive")],
        rows: vec![vec![s("fe1"), s("h1"), s("true")], vec![s("fe2"), s("h2"), s("false")]],
    };
    let bes = QueryResult {
        columns: vec![s("BackendId"), s("Host"), s("Alive"), s("SystemDecommissioned")],
        rows: vec![vec![s("1"), s("h3"), s("true"), s("true")]],
    };
    let health = QueryResult {
        columns: vec![s("DbName"), s("ReplicaMissingNum")],
        rows: vec![vec![s("db1"), s("0")], vec![s("db2"), s("3")]],
    };
    let f = frontends_from_result(fes);
    let b = backends_from_result(bes);
    let (ft, bt) = (f.loaded_at, b.loaded_at);
    let snap = cluster_snapshot_from(f, b, health);
    assert!(snap.loaded_at >= ft && snap.loaded_at >= bt);
    assert_eq!(
        (snap.summary.fe_total, snap.summary.fe_alive, snap.summary.fe_down),
        (2, 1, 1)
    );
    assert_eq!(
        (snap.summary.be_total, snap.summary.be_alive, snap.summary.be_decommissioning),
        (1, 1, 1)
    );
    assert_eq!((snap.summary.tablet_health_rows, snap.summary.tablet_problem_rows), (2, 1));
    assert_eq!(snap.frontends.rows.len(), 2);
}
