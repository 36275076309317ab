use doris_cli::config::{
    BeNode, Config, DeployArchitecture, FeNode, SeparatedDeployConfig, StorageVaultConfig, Topology,
};
use doris_cli::deploy::default_deploy;
use doris_cli::lifecycle::{
    extract_script, fe_joins, fetch_script, install_package, is_remote_package, non_empty,
    register_backends_sql, remote_package_path, render_be_conf_script, render_fe_conf_script,
    start_be_script, start_fe_script, status_row, stop_script, storage_vault_sqls, vault_step,
    leader_wait_step, Ctx, LeaderWait, VaultStep, LEADER_WAIT_ATTEMPTS, SET_CONF_FN,
};
use doris_cli::ssh::CmdOutput;
use doris_cli::strmap::StrMap;

fn base() -> Config {
    let mut cfg = Config::from_fe("fe1".into(), 9030, "root".into(), String::new());
    let mut d = default_deploy();
    d.install_dir = "/opt/d".into();
    d.java_home = Some("  /jdk17 ".into());
    d.priority_networks = Some("10.0.0.0/24".into());
    d.package = Some(" /tmp/apache-doris-4.1.1-bin-x64.tar.gz ".into());
    cfg.deploy = Some(d);
    cfg.topology = Some(Topology {
        frontends: vec![
            FeNode { host: "fe1".into(), role: "follower".into() },
            FeNode { host: "fe2".into(), role: "LEADER".into() },
            FeNode { host: "fe3".into(), role: "Observer".into() },
        ],
        backends: vec![BeNode { host: "be1".into() }, BeNode { host: "be2".into() }],
    });
    cfg
}

#[test]
fn context_trims_settings() {
    let ctx = Ctx::new(&base(), "me");
    assert_eq!(ctx.install_dir, "/opt/d");
    assert_eq!(ctx.java_home.as_deref(), Some("/jdk17"));
    assert_eq!(ctx.meta_dir, None);
    assert_eq!(ctx.export_java(), "export JAVA_HOME=\"/jdk17\"\n");
    assert_eq!(non_empty(&Some("  ".into())), None);
    assert_eq!(ctx.leader_config().unwrap().fe.host, "fe2");
    assert!(!ctx.is_separated());
    assert_eq!(ctx.topology().unwrap().backends.len(), 2);
    assert_eq!(doris_cli::lifecycle::set_conf_fn(), SET_CONF_FN);
    let bare = Ctx::new(&Config::from_fe("h".into(), 9030, "root".into(), String::new()), "me");
    assert_eq!(bare.install_dir, "/opt/doris");
    assert_eq!(bare.export_java(), "");
    assert_eq!(bare.topology().unwrap_err(), "no topology configured; run `dcli deploy init` first");
    assert_eq!(bare.ssh.username(), "me");
}

#[test]
fn fe_conf_lines() {
    let ctx = Ctx::new(&base(), "me");
    let s = render_fe_conf_script(&ctx);
    let expected = format!(
        "set -e\ntouch '/opt/d/fe/conf/fe.conf'\n{SET_CONF_FN}set_conf '/opt/d/fe/conf/fe.conf' priority_networks '10.0.0.0/24'\nset_conf '/opt/d/fe/conf/fe.conf' http_port '8030'\nset_conf '/opt/d/fe/conf/fe.conf' query_port '9030'\nset_conf '/opt/d/fe/conf/fe.conf' edit_log_port '9010'\n"
    );
    assert_eq!(s, expected);
}

#[test]
fn separated_conf_lines() {
    let mut cfg = base();
    let d = cfg.deploy.as_mut().unwrap();
    d.architecture = DeployArchitecture::Separated;
    d.separated = Some(SeparatedDeployConfig {
        cluster_id: Some(42),
        meta_service_endpoint: "ms:5000".into(),
        meta_service_hosts: vec![],
        file_cache_path: None,
        fdb_cluster: None,
        storage_vault: None,
    });
    let ctx = Ctx::new(&cfg, "me");
    assert!(ctx.is_separated());
    let fe = render_fe_conf_script(&ctx);
    assert!(fe.ends_with("deploy_mode 'cloud'\nset_conf '/opt/d/fe/conf/fe.conf' cluster_id '42'\nset_conf '/opt/d/fe/conf/fe.conf' meta_service_endpoint 'ms:5000'\n"));
    let be = render_be_conf_script(&ctx);
    assert!(be.contains("mkdir -p '/opt/d/file_cache'\n"));
    assert!(be.contains("file_cache_path '[{\"path\":\"/opt/d/file_cache\",\"total_size\":-1}]'"));
    assert!(be.ends_with("webserver_port '8040'\nset_conf '/opt/d/be/conf/be.conf' heartbeat_service_port '9050'\n"));
    assert!(matches!(vault_step(&ctx), VaultStep::Warn));
}

#[test]
fn package_handling() {
    assert_eq!(install_package(&base()).unwrap(), "/tmp/apache-doris-4.1.1-bin-x64.tar.gz");
    let plain = Config::from_fe("h".into(), 9030, "root".into(), String::new());
    assert_eq!(install_package(&plain).unwrap_err(), "deploy.package is not set in config");
    assert!(is_remote_package("https://x/y.tar.gz"));
    assert!(!is_remote_package("/tmp/y.tar.gz"));
    assert_eq!(remote_package_path("https://h/a/doris.tar.gz"), "/tmp/doris.tar.gz");
    assert_eq!(remote_package_path("/pkgs/x.tgz/"), "/tmp/x.tgz");
    assert_eq!(remote_package_path("/pkgs/.."), "/tmp/doris-package.tar.gz");
    assert_eq!(remote_package_path(""), "/tmp/doris-package.tar.gz");
    assert_eq!(
        fetch_script("/tmp/p", "http://u"),
        "set -e\ncurl -fSL -o '/tmp/p' 'http://u' 2>/dev/null || wget -q -O '/tmp/p' 'http://u'\n"
    );
    assert_eq!(
        extract_script("/opt/d", "/tmp/p"),
        "set -e\nmkdir -p '/opt/d'\ntar xzf '/tmp/p' -C '/opt/d' --strip-components=1\n"
    );
}

#[test]
fn start_order() {
    let cfg = base();
    let ctx = Ctx::new(&cfg, "me");
    assert_eq!(start_fe_script(&ctx, None), "export JAVA_HOME=\"/jdk17\"\ncd '/opt/d/fe'\nbin/start_fe.sh --daemon\n");
    let joins = fe_joins(&ctx, cfg.topology.as_ref().unwrap());
    assert_eq!(joins.len(), 2);
    assert_eq!(joins[0].register_sql, "ALTER SYSTEM ADD FOLLOWER \"fe1:9010\"");
    assert_eq!(joins[1].role, "OBSERVER");
    assert!(joins[1].start_script.contains("--helper 'fe2:9010'"));
    assert_eq!(start_be_script(&ctx), "export JAVA_HOME=\"/jdk17\"\ncd '/opt/d/be'\nbin/start_be.sh --daemon\n");
    assert_eq!(
        register_backends_sql(cfg.topology.as_ref().unwrap(), 9050).unwrap(),
        "ALTER SYSTEM ADD BACKEND \"be1:9050\", \"be2:9050\""
    );
    assert!(register_backends_sql(&Topology { frontends: vec![], backends: vec![] }, 9050).is_none());
    assert_eq!(stop_script(&ctx, true), "cd '/opt/d/fe' && bin/stop_fe.sh || true\n");
}

#[test]
fn vault_statements() {
    let mut props = StrMap::new();
    props.insert("s3.endpoint".to_string(), "http://s3".to_string());
    props.insert("s3.bucket".to_string(), "b".to_string());
    let v = StorageVaultConfig { name: "v1".into(), vault_type: "S3".into(), properties: props };
    let (create, set) = storage_vault_sqls(&v);
    assert_eq!(
        create,
        "CREATE STORAGE VAULT IF NOT EXISTS v1 PROPERTIES (\"type\"=\"S3\", \"s3.bucket\"=\"b\", \"s3.endpoint\"=\"http://s3\")"
    );
    assert_eq!(set, "SET v1 AS DEFAULT STORAGE VAULT");

    let mut cfg = base();
    let d = cfg.deploy.as_mut().unwrap();
    d.architecture = DeployArchitecture::Separated;
    d.separated = Some(SeparatedDeployConfig {
        cluster_id: None,
        meta_service_endpoint: "ms:5000".into(),
        meta_service_hosts: vec![],
        file_cache_path: None,
        fdb_cluster: None,
        storage_vault: Some(v),
    });
    match vault_step(&Ctx::new(&cfg, "me")) {
        VaultStep::Create { name, create_sql, default_sql } => {
            assert_eq!(name, "v1");
            assert_eq!(create_sql, create);
            assert_eq!(default_sql, "SET v1 AS DEFAULT STORAGE VAULT");
        }
        other => panic!("expected the vault to be created, got {other:?}"),
    }
    assert!(matches!(vault_step(&Ctx::new(&base(), "me")), VaultStep::Skip));
}

#[test]
fn status_rows() {
    let cfg = base();
    let t = cfg.topology.as_ref().unwrap();
    let out = CmdOutput { code: 0, stdout: "fe=running\nbe=stopped\n".into(), stderr: String::new() };
    assert_eq!(status_row(t, "fe1", Some(&out)), vec!["fe1", "FE/follower", "running", "-"]);
    assert_eq!(status_row(t, "be1", Some(&out)), vec!["be1", "BE", "-", "stopped"]);
    assert_eq!(status_row(t, "be2", None), vec!["be2", "BE", "unreachable", "unreachable"]);
}

#[test]
fn leader_wait_policy() {
    assert!(matches!(leader_wait_step(1, true), LeaderWait::Ready));
    assert!(matches!(leader_wait_step(30, true), LeaderWait::Ready));
    match leader_wait_step(3, false) {
        LeaderWait::Wait { note, last } => assert_eq!((note, last), (None, false)),
        _ => panic!("a failed try waits"),
    }
    match leader_wait_step(10, false) {
        LeaderWait::Wait { note, last } => {
            assert_eq!(note.as_deref(), Some("still waiting for leader FE (10/30)"));
            assert!(!last);
        }
        _ => panic!("a failed try waits"),
    }
    match leader_wait_step(LEADER_WAIT_ATTEMPTS, false) {
        LeaderWait::Wait { note, last } => {
            assert_eq!(note.as_deref(), Some("still waiting for leader FE (30/30)"));
            assert!(last);
        }
        _ => panic!("a failed try waits"),
    }
}
