use doris_cli::config::{Config, DeployArchitecture, SeparatedDeployConfig, Topology, FeNode, BeNode};
use doris_cli::deploy::default_deploy;
use doris_cli::detect::{
    check_host, cluster_precheck, detect_row, detect_script, detect_targets, host_info_from_error,
    host_info_from_output, parse_facts, precheck_failed, shorten_java, sort_by_host, HostInfo,
    Severity,
};
use doris_cli::ssh::CmdOutput;
use doris_cli::strmap::StrMap;

fn good_output() -> String {
    [
        "os=Ubuntu 22.04",
        "arch=x86_64",
        "cpu_cores=16",
        "mem_total_kb=33554432",
        "disk_avail_gb=500",
        "java_version=openjdk version 17.0.10 2024-01-16",
        "max_map_count=2000000",
        "swappiness=0",
        "ulimit_nofile=655350",
        "install_dir_ok=yes",
    ]
    .join("\n")
}

fn info(host: &str, out: &str) -> HostInfo {
    host_info_from_output(host, &CmdOutput { code: 0, stdout: out.to_string(), stderr: String::new() }, "root", "~/.ssh/id_rsa", "me")
}

#[test]
fn facts_are_key_value_lines() {
    let m = parse_facts("a = 1\nno equals\nb=x=y\r\na=2\n");
    assert_eq!(m.get("a").map(|s| s.as_str()), Some("2"));
    assert_eq!(m.get("b").map(|s| s.as_str()), Some("x=y"));
    assert_eq!(m.len(), 2);
}

#[test]
fn healthy_host_passes() {
    let i = info("h1", &good_output());
    assert!(i.reachable);
    assert_eq!(i.get("os"), "Ubuntu 22.04");
    assert_eq!(i.get_i64("cpu_cores"), 16);
    assert_eq!(i.get_i64("missing"), 0);
    let checks = check_host(&i);
    assert_eq!(checks.len(), 8);
    assert!(checks.iter().all(|c| c.severity == Severity::Pass));
    assert_eq!(checks[1].value, "32 GB");
    assert_eq!(checks[3].value, "17.0.10");
}

#[test]
fn low_map_count_and_missing_java_fail() {
    let out = good_output().replace("max_map_count=2000000", "max_map_count=65530").replace("java_version=openjdk version 17.0.10 2024-01-16", "java_version=");
    let i = info("h1", &out);
    let checks = check_host(&i);
    assert_eq!(checks[4].name, "vm.max_map_count");
    assert_eq!(checks[4].severity, Severity::Fail);
    assert_eq!(checks[4].note, "set: sysctl -w vm.max_map_count=2000000");
    assert_eq!(checks[3].value, "not found");
    assert_eq!(checks[3].severity, Severity::Fail);
    assert_eq!(Severity::Fail.label(), "FAIL");
}

#[test]
fn warnings_for_small_hosts() {
    let out = "cpu_cores=2\nmem_total_kb=4194304\ndisk_avail_gb=10\njava_version=1.8\nmax_map_count=2000000\nswappiness=60\nulimit_nofile=1024";
    let checks = check_host(&info("h", out));
    assert_eq!(checks.len(), 7);
    assert_eq!(checks[0].severity, Severity::Warn);
    assert_eq!(checks[1].value, "4 GB");
    assert_eq!(checks[1].severity, Severity::Warn);
    assert_eq!(checks[2].severity, Severity::Warn);
    assert_eq!(checks[5].severity, Severity::Warn);
    assert_eq!(checks[6].severity, Severity::Warn);
    let none = check_host(&info("h", "swappiness=x"));
    assert_eq!(none[0].severity, Severity::Fail);
    assert_eq!(none[5].value, "-1");
}

#[test]
fn java_version_is_shortened() {
    assert_eq!(shorten_java("openjdk version 17.0.10 2024-01-16"), "17.0.10");
    assert_eq!(shorten_java("java version 1.8.0_352"), "1.8.0_352");
    assert_eq!(shorten_java("no digits here"), "no digits here");
    assert_eq!(shorten_java("x17 y"), "x17 y");
}

#[test]
fn probe_failure_carries_hint() {
    let out = CmdOutput { code: 255, stdout: String::new(), stderr: " Permission denied (publickey) ".to_string() };
    let i = host_info_from_output("10.0.0.1", &out, "root", "~/.ssh/id_rsa", "me");
    assert!(!i.reachable);
    let e = i.error.unwrap();
    assert!(e.starts_with("Permission denied (publickey)\n  hint: try ssh.user='me'"));
    let quiet = host_info_from_output("h", &CmdOutput { code: 1, stdout: String::new(), stderr: String::new() }, "u", "k", "me");
    assert_eq!(quiet.error.unwrap(), "test manually: ssh u@h true");
    let dead = host_info_from_error("h", "boom");
    assert_eq!(dead.error.as_deref(), Some("boom"));
}

#[test]
fn script_names_install_dir_twice() {
    let s = detect_script("/data/doris");
    assert_eq!(s.matches("/data/doris").count(), 2);
    assert!(s.starts_with("\nd=\"/data/doris\""));
    assert!(s.ends_with("fi\n"));
}

fn topo_cfg() -> Config {
    let mut cfg = Config::from_fe("h1".into(), 9030, "root".into(), String::new());
    cfg.topology = Some(Topology {
        frontends: vec![FeNode { host: "b".into(), role: "leader".into() }],
        backends: vec![BeNode { host: "a".into() }, BeNode { host: "b".into() }],
    });
    cfg
}

#[test]
fn targets_need_topology() {
    let cfg = Config::from_fe("h1".into(), 9030, "root".into(), String::new());
    assert_eq!(detect_targets(&cfg).unwrap_err(), "no topology configured; run `dcli deploy init` first");
    let (hosts, script) = detect_targets(&topo_cfg()).unwrap();
    assert_eq!(hosts, vec!["a".to_string(), "b".to_string()]);
    assert!(script.contains("/opt/doris"));
    let mut empty = topo_cfg();
    empty.topology = Some(Topology { frontends: vec![], backends: vec![] });
    assert_eq!(detect_targets(&empty).unwrap_err(), "topology has no hosts");
}

#[test]
fn probes_sorted_by_host() {
    let v = vec![host_info_from_error("c", "x"), host_info_from_error("a", "y"), host_info_from_error("b", "z")];
    let s = sort_by_host(v);
    let hosts: Vec<_> = s.iter().map(|i| i.host.clone()).collect();
    assert_eq!(hosts, vec!["a", "b", "c"]);
}

#[test]
fn separated_prerequisites() {
    let mut cfg = topo_cfg();
    assert!(cluster_precheck(&cfg).is_none());
    let mut d = default_deploy();
    d.architecture = DeployArchitecture::Separated;
    d.separated = Some(SeparatedDeployConfig {
        cluster_id: None,
        meta_service_endpoint: "ms1".into(),
        meta_service_hosts: vec![],
        file_cache_path: None,
        fdb_cluster: None,
        storage_vault: None,
    });
    cfg.deploy = Some(d);
    let rows = cluster_precheck(&cfg).unwrap();
    assert_eq!(rows.len(), 3);
    assert_eq!(rows[0].severity, Severity::Fail);
    assert_eq!(rows[1].value, "(not set)");
    assert_eq!(rows[1].severity, Severity::Warn);
    assert_eq!(rows[2].severity, Severity::Warn);
    let healthy = vec![info("a", &good_output())];
    assert!(precheck_failed(&cfg, &healthy));
    let plain = topo_cfg();
    assert!(!precheck_failed(&plain, &healthy));
    assert!(precheck_failed(&plain, &vec![host_info_from_error("a", "down")]));
}

#[test]
fn detect_rows() {
    let row = detect_row(&info("h1", &good_output()));
    assert_eq!(row, vec!["h1", "Ubuntu 22.04", "x86_64", "16", "32", "500", "17.0.10", "2000000"]);
    let down = detect_row(&host_info_from_error("h2", "no route"));
    assert_eq!(down[1], "UNREACHABLE: no route");
    assert_eq!(down[7], "-");
    let _ = StrMap::<String>::new();
}
