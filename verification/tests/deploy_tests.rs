use doris_cli::config::{Config, DeployArchitecture, DeployMethod, FeNode, BeNode, Topology};
use doris_cli::deploy::{
    answer_is_yes, apply_init, choose_leader, cluster_id_from_seed, default_deploy,
    ensure_dcli_supported, init_backends, init_fe_hosts, init_frontends, init_summary,
    leader_prompt, manual_only_warning, opt, parse_architecture, parse_cluster_id, parse_method,
    plan_lines, random_cluster_id, resolve_release_choice, separated_from_answers,
    vault_from_answers, InitAnswers,
};
use doris_cli::release::DorisRelease;
use doris_cli::strmap::StrMap;

fn release(tag: &str, version: &str) -> DorisRelease {
    DorisRelease { tag: tag.into(), version: version.into(), published_at: String::new(), binaries: StrMap::new() }
}

#[test]
fn only_manual_is_automated() {
    let mut cfg = Config::from_fe("h".into(), 9030, "root".into(), String::new());
    assert!(ensure_dcli_supported(&cfg).is_ok());
    let mut d = default_deploy();
    d.method = DeployMethod::Kubernetes;
    cfg.deploy = Some(d);
    let e = ensure_dcli_supported(&cfg).unwrap_err();
    assert!(e.starts_with("deploy.method=kubernetes (Doris Operator) is not automated by dcli (SSH manual deploy only).\nSee: "));
    assert!(manual_only_warning(DeployMethod::Cloud).starts_with("dcli only automates SSH manual deploy; for "));
}

#[test]
fn release_choice() {
    let rs = vec![release("4.1.1", "4.1.1"), release("4.0.4-release", "4.0.4"), release("4.0.2", "4.0.2")];
    assert_eq!(resolve_release_choice(&rs, " Latest ").unwrap().version, "4.1.1");
    assert_eq!(resolve_release_choice(&rs, "stable").unwrap().version, "4.0.4");
    assert_eq!(resolve_release_choice(&rs, "v4.0.2").unwrap().version, "4.0.2");
    assert_eq!(
        resolve_release_choice(&rs, "9.9").unwrap_err(),
        "version '9.9' not found; try `dcli deploy versions`"
    );
    let old = vec![release("3.0.1", "3.0.1")];
    assert_eq!(resolve_release_choice(&old, "stable").unwrap_err(), "no stable (4.0.x) release found");
    assert_eq!(resolve_release_choice(&[], "latest").unwrap_err(), "no latest release found");
}

#[test]
fn wizard_words() {
    assert_eq!(parse_architecture(" I "), Ok(DeployArchitecture::Integrated));
    assert_eq!(parse_architecture("存算分离"), Ok(DeployArchitecture::Separated));
    assert_eq!(parse_architecture("cloud"), Ok(DeployArchitecture::Separated));
    assert_eq!(parse_architecture("Mixed").unwrap_err(), "unknown architecture 'mixed'; use integrated or separated");
    assert_eq!(parse_method("K8S"), Ok(DeployMethod::Kubernetes));
    assert_eq!(parse_method("cloud"), Ok(DeployMethod::Cloud));
    assert_eq!(parse_method("x").unwrap_err(), "unknown method 'x'; use manual, kubernetes, or cloud");
    assert!(answer_is_yes("YES"));
    assert!(!answer_is_yes("no"));
    assert_eq!(parse_cluster_id("  "), Ok(None));
    assert_eq!(parse_cluster_id("12"), Ok(Some(12)));
    assert_eq!(parse_cluster_id("x").unwrap_err(), "cluster_id must be an integer");
    assert_eq!(opt("  a ".into()), Some("a".into()));
    assert_eq!(opt(" ".into()), None);
}

#[test]
fn wizard_topology() {
    assert_eq!(init_fe_hosts(" , ").unwrap_err(), "at least one FE host is required");
    let fes = init_fe_hosts("h1,h2").unwrap();
    assert_eq!(leader_prompt(&fes), "Which FE is the leader? (h1/h2)");
    assert_eq!(choose_leader(&fes, "h3").unwrap_err(), "leader must be one of the FE hosts");
    assert_eq!(choose_leader(&fes, "h2").unwrap(), "h2");
    let one = init_fe_hosts("solo").unwrap();
    assert_eq!(choose_leader(&one, "").unwrap(), "solo");
    let nodes = init_frontends(&fes, "h2");
    assert_eq!(nodes[0].role, "follower");
    assert_eq!(nodes[1].role, "leader");
    assert_eq!(init_backends("b1, b2").len(), 2);
}

#[test]
fn wizard_answers_applied() {
    let mut cfg = Config::from_fe("127.0.0.1".into(), 9030, "root".into(), String::new());
    let sep = separated_from_answers("ms:5000".into(), "m1, m2", None, " ".into(), "".into(), Some(vault_from_answers("v".into(), "hdfs".into(), "hdfs://nn".into(), "".into())));
    assert_eq!(sep.meta_service_hosts, vec!["m1", "m2"]);
    assert_eq!(sep.fdb_cluster, None);
    apply_init(&mut cfg, InitAnswers {
        architecture: DeployArchitecture::Separated,
        method: DeployMethod::Manual,
        leader: "h1".into(),
        frontends: vec![FeNode { host: "h1".into(), role: "leader".into() }],
        backends: vec![BeNode { host: "b1".into() }],
        separated: Some(sep),
        install_dir: "/opt/doris".into(),
        version: Some("4.1.1".into()),
        arch: None,
        package: None,
        java_home: " ".into(),
        priority_networks: "10.0.0.0/8".into(),
        ssh_user: "root".into(),
        ssh_key: "~/.ssh/id_rsa".into(),
        fe_user: "admin".into(),
        fe_password: "pw".into(),
    });
    assert_eq!(cfg.fe.host, "h1");
    assert_eq!(cfg.fe.user, "admin");
    let d = cfg.deploy.as_ref().unwrap();
    assert_eq!(d.java_home, None);
    assert_eq!(d.priority_networks.as_deref(), Some("10.0.0.0/8"));
    let s = d.separated.as_ref().unwrap();
    assert!(s.cluster_id.unwrap() >= 0);
    assert_eq!(s.storage_vault.as_ref().unwrap().properties.get("fs.defaultFS").map(|v| v.as_str()), Some("hdfs://nn"));
    assert_eq!(cfg.ssh.as_ref().unwrap().port, 22);
    let t = cfg.topology.as_ref().unwrap();
    assert_eq!(init_summary("h1", t), "\nLeader FE: h1\nFEs: h1\nBEs: b1\n");
}

#[test]
fn s3_vault_answers() {
    let v = vault_from_answers("s3_vault".into(), "s3".into(), "http://e".into(), "bkt".into());
    assert_eq!(v.properties.len(), 2);
    assert_eq!(v.properties.get("s3.bucket").map(|b| b.as_str()), Some("bkt"));
    let nb = vault_from_answers("s3_vault".into(), "S3".into(), "http://e".into(), "".into());
    assert_eq!(nb.properties.len(), 1);
}

#[test]
fn cluster_ids() {
    assert_eq!(cluster_id_from_seed(0), 0);
    assert_eq!(cluster_id_from_seed(0x8000), 1);
    assert_eq!(cluster_id_from_seed(u64::MAX), ((u64::MAX >> 15) | 0x7fff) as i64);
    let r = random_cluster_id();
    assert!(r >= 0);
}

#[test]
fn plan_text() {
    let mut cfg = Config::from_fe("h".into(), 9030, "root".into(), String::new());
    let lines = plan_lines(&cfg);
    let texts: Vec<_> = lines.iter().map(|l| l.text.clone()).collect();
    assert_eq!(texts[0], "Deploy plan for cluster 'default':\n");
    assert!(texts.contains(&"no topology configured; run `dcli deploy init` first".to_string()));
    assert!(lines.iter().any(|l| l.warn));
    assert!(texts.contains(&"  install_dir: /opt/doris".to_string()));
    assert_eq!(texts.last().unwrap(), "    4. register  — ALTER SYSTEM ADD FOLLOWER/OBSERVER/BACKEND");
    cfg.topology = Some(Topology {
        frontends: vec![FeNode { host: "f1".into(), role: "follower".into() }],
        backends: vec![BeNode { host: "b1".into() }],
    });
    let t2: Vec<_> = plan_lines(&cfg).into_iter().map(|l| l.text).collect();
    assert!(t2.contains(&"\n  Leader FE: f1".to_string()));
    assert!(t2.contains(&"    FE f1 (follower)".to_string()));
    assert!(t2.contains(&"    BE b1".to_string()));
    let mut d = default_deploy();
    d.method = DeployMethod::Cloud;
    cfg.deploy = Some(d);
    let t3 = plan_lines(&cfg);
    assert!(t3.last().unwrap().warn);
    assert_eq!(t3.len(), 4);
}
