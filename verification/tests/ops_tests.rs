use doris_cli::cli::{BalanceCmd, BeHostsArgs, FeNodeArgs};
use doris_cli::client::QueryResult;
use doris_cli::ops::{
    balance_plan, decommission_view, health_warnings, qualified, repair_done_message, repair_sql,
    replica_status_sql,
};
use doris_cli::scale::{be_scale_plan, fe_role, fe_scale_plan, host_list, quoted_csv, with_port, BeScaleOp};

fn s(v: &str) -> String {
    v.to_string()
}

#[test]
fn table_references_are_backticked() {
    assert_eq!(qualified("`db`", "t``"), "`db`.`t`");
    assert_eq!(qualified("db", "t"), "`db`.`t`");
    assert_eq!(
        replica_status_sql("db", "t", true),
        "ADMIN SHOW REPLICA STATUS FROM `db`.`t` WHERE STATUS != \"OK\""
    );
    assert_eq!(replica_status_sql("db", "t", false), "ADMIN SHOW REPLICA STATUS FROM `db`.`t`");
}

#[test]
fn repair_statements() {
    assert_eq!(repair_sql("db", "t", None, false), "ADMIN REPAIR TABLE `db`.`t`");
    assert_eq!(
        repair_sql("db", "t", Some(" p1, ,p2 "), true),
        "ADMIN CANCEL REPAIR TABLE `db`.`t` PARTITION (p1, p2)"
    );
    assert_eq!(repair_done_message("db", "t", true), "cancelled repair for `db`.`t`");
    assert_eq!(
        repair_done_message("db", "t", false),
        "scheduled high-priority repair for `db`.`t`; check progress with `dcli ops tablets --db db --table t`"
    );
}

#[test]
fn health_flags_problem_counters() {
    let r = QueryResult {
        columns: vec![s("DbName"), s("ReplicaMissingNum"), s("UnrecoverableNum")],
        rows: vec![
            vec![s("ok"), s("0"), s("0")],
            vec![s("bad"), s("2"), s("x")],
            vec![s("worse"), s("1"), s("3")],
        ],
    };
    assert_eq!(
        health_warnings(&r),
        vec![
            "db bad: ReplicaMissingNum = 2",
            "db worse: ReplicaMissingNum = 1",
            "db worse: UnrecoverableNum = 3",
        ]
    );
}

#[test]
fn decommissioning_backends_only() {
    let r = QueryResult {
        columns: vec![s("BackendId"), s("Host"), s("SystemDecommissioned"), s("TabletNum")],
        rows: vec![
            vec![s("1"), s("h1"), s("false"), s("10")],
            vec![s("2"), s("h2"), s("TRUE"), s("4")],
        ],
    };
    let v = decommission_view(&r);
    assert_eq!(v.columns, vec!["BackendId", "Host", "SystemDecommissioned", "TabletNum"]);
    assert_eq!(v.rows, vec![vec![s("2"), s("h2"), s("TRUE"), s("4")]]);
}

#[test]
fn balance_statements() {
    let show = balance_plan(&BalanceCmd::Show);
    assert!(show.is_query);
    assert_eq!(show.sql, "ADMIN SHOW FRONTEND CONFIG LIKE '%disable_balance%'");
    let off = balance_plan(&BalanceCmd::Disable);
    assert_eq!(off.sql, "ADMIN SET FRONTEND CONFIG (\"disable_balance\" = \"true\")");
    assert_eq!(off.done, Some("tablet balancing disabled (disable_balance = true)"));
}

#[test]
fn host_ports() {
    assert_eq!(with_port("10.0.0.1", 9050), "10.0.0.1:9050");
    assert_eq!(with_port("10.0.0.1:9051", 9050), "10.0.0.1:9051");
    assert_eq!(with_port(&with_port("h", 1), 2), "h:1");
    assert_eq!(host_list(" a, b:1 ,", 9050), vec!["a:9050", "b:1"]);
    assert_eq!(quoted_csv(&vec![s("a:1"), s("b:2")]), "\"a:1\", \"b:2\"");
}

#[test]
fn drop_uses_dropp_and_asks_first() {
    let args = BeHostsArgs { hosts: "h1,h2".into(), yes: false };
    let p = be_scale_plan(BeScaleOp::Drop, &args, 9050);
    assert_eq!(p.sql, "ALTER SYSTEM DROPP BACKEND \"h1:9050\", \"h2:9050\"");
    assert_eq!(p.warnings.len(), 2);
    assert_eq!(p.confirm.as_deref(), Some("Force-drop 2 backend(s)? [h1:9050, h2:9050]"));
    assert_eq!(p.done, "dropped 2 backend(s)");
    let yes = be_scale_plan(BeScaleOp::Drop, &BeHostsArgs { hosts: "h1".into(), yes: true }, 9050);
    assert!(yes.confirm.is_none());
    assert!(yes.warnings.is_empty());
}

#[test]
fn other_backend_operations() {
    let args = BeHostsArgs { hosts: "h1".into(), yes: false };
    let add = be_scale_plan(BeScaleOp::Add, &args, 9050);
    assert_eq!(add.sql, "ALTER SYSTEM ADD BACKEND \"h1:9050\"");
    assert!(add.confirm.is_none());
    assert_eq!(add.done, "added 1 backend(s): h1:9050");
    let dec = be_scale_plan(BeScaleOp::Decommission, &args, 9050);
    assert_eq!(dec.sql, "ALTER SYSTEM DECOMMISSION BACKEND \"h1:9050\"");
    assert_eq!(dec.confirm.as_deref(), Some("Decommission 1 backend(s)? Data will be migrated first (safe). [h1:9050]"));
    let cancel = be_scale_plan(BeScaleOp::CancelDecommission, &args, 9050);
    assert_eq!(cancel.sql, "ALTER SYSTEM CANCEL DECOMMISSION BACKEND \"h1:9050\"");
    assert_eq!(cancel.done, "cancelled decommission for h1:9050");
}

#[test]
fn frontend_roles() {
    assert_eq!(fe_role("Follower"), Ok("FOLLOWER"));
    assert_eq!(fe_role("observer"), Ok("OBSERVER"));
    assert_eq!(fe_role("Leader").unwrap_err(), "invalid FE role 'leader' (expected follower or observer)");
    let add = fe_scale_plan(true, &FeNodeArgs { host: "h".into(), role: "follower".into(), yes: false }, 9010).unwrap();
    assert_eq!(add.sql, "ALTER SYSTEM ADD FOLLOWER \"h:9010\"");
    assert!(add.confirm.is_none());
    assert!(add.info.is_some());
    let drop = fe_scale_plan(false, &FeNodeArgs { host: "h:1".into(), role: "observer".into(), yes: false }, 9010).unwrap();
    assert_eq!(drop.sql, "ALTER SYSTEM DROP OBSERVER \"h:1\"");
    assert_eq!(drop.confirm.as_deref(), Some("Drop OBSERVER h:1?"));
    assert_eq!(drop.done, "dropped OBSERVER h:1");
    assert!(fe_scale_plan(false, &FeNodeArgs { host: "h".into(), role: "x".into(), yes: true }, 9010).is_err());
}
