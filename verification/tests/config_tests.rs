use doris_cli::cli::{Cli, Command, ConfigCmd};
use doris_cli::cluster::{cluster_status, status_report};
use doris_cli::client::QueryResult;
use doris_cli::commands::resolve_config;
use doris_cli::config::{config_home, resolve_config_path};
use doris_cli::output::Format;
use doris_cli::profile::{
    current_profile_message, profile_list_lines, profile_names, profile_show_target, sort_texts,
    validate_profile_name, yaml_stem_of,
};

fn s(v: &str) -> String {
    v.to_string()
}

fn cli(fe_host: Option<&str>) -> Cli {
    Cli {
        config: None,
        profile: None,
        format: s("table"),
        fe_host: fe_host.map(|h| h.to_string()),
        fe_port: 9031,
        user: s("admin"),
        password: s("pw"),
        command: Command::Config(ConfigCmd::Show),
    }
}

#[test]
fn flags_override_config_file() {
    let c = resolve_config(&cli(Some("10.0.0.1"))).unwrap();
    assert_eq!(c.fe.host, "10.0.0.1");
    assert_eq!(c.fe.query_port, 9031);
    assert_eq!(c.fe.http_port, 8030);
    assert_eq!(c.fe.user, "admin");
    assert!(resolve_config(&cli(None)).is_none());
}

#[test]
fn config_path_priority() {
    let h = Some("/home/u");
    assert_eq!(resolve_config_path(Some("/x.yaml"), Some("p"), Some("/e"), Some("a"), h).unwrap(), "/x.yaml");
    assert_eq!(resolve_config_path(None, Some("p"), Some("/e"), Some("a"), h).unwrap(), "/home/u/.doris-cli/profiles/p.yaml");
    assert_eq!(resolve_config_path(None, None, Some("/e"), Some("a"), h).unwrap(), "/e");
    assert_eq!(resolve_config_path(None, None, None, Some("a"), h).unwrap(), "/home/u/.doris-cli/profiles/a.yaml");
    assert_eq!(resolve_config_path(None, None, None, None, h).unwrap(), "/home/u/.doris-cli/cluster.yaml");
    assert!(resolve_config_path(None, None, None, None, None).is_none());
    assert!(resolve_config_path(None, Some("p"), Some("/e"), None, None).is_none());
}

#[test]
fn home_based_paths() {
    if let Some(h) = config_home() {
        assert!(h.ends_with(".doris-cli"));
    }
}

#[test]
fn formats() {
    assert_eq!(Format::parse("JSON"), Format::Json);
    assert_eq!(Format::parse("table"), Format::Table);
    assert_eq!(Format::parse("yaml"), Format::Table);
}

#[test]
fn profile_files() {
    assert_eq!(yaml_stem_of("prod.yaml"), Some(s("prod")));
    assert_eq!(yaml_stem_of("a.b.yaml"), Some(s("a.b")));
    assert_eq!(yaml_stem_of(".yaml"), None);
    assert_eq!(yaml_stem_of("x.yml"), None);
    assert_eq!(yaml_stem_of("..yaml"), Some(s(".")));
    let names = profile_names(&vec![s("b.yaml"), s("notes.txt"), s("a.yaml"), s("C.yaml")]);
    assert_eq!(names, vec!["C", "a", "b"]);
    assert_eq!(sort_texts(vec![s("b"), s("a"), s("b")]), vec!["a", "b", "b"]);
    assert_eq!(profile_list_lines(&names, Some("a")), vec!["  C", "* a", "  b"]);
}

#[test]
fn profile_rules() {
    assert_eq!(validate_profile_name("").unwrap_err(), "profile name must not be empty");
    assert_eq!(validate_profile_name(".").unwrap_err(), "invalid profile name '.'");
    assert!(validate_profile_name("prod").is_ok());
    assert_eq!(profile_show_target(None, &Some(s("flag")), Some(s("act"))), Some(s("flag")));
    assert_eq!(profile_show_target(None, &None, Some(s("act"))), Some(s("act")));
    assert_eq!(profile_show_target(Some("n"), &None, None), Some(s("n")));
    assert_eq!(current_profile_message("p", Some("/x")), "active profile: p (/x)");
    assert_eq!(current_profile_message("p", None), "active profile: p");
}

#[test]
fn cluster_status_counts() {
    let fes = QueryResult { columns: vec![s("Alive")], rows: vec![vec![s("true")], vec![s("false")]] };
    let bes = QueryResult {
        columns: vec![s("Alive"), s("SystemDecommissioned")],
        rows: vec![vec![s("TRUE"), s("true")], vec![s("true"), s("false")], vec![s("false"), s("false")]],
    };
    let st = cluster_status(&fes, &bes);
    assert_eq!((st.fe_total, st.fe_alive, st.be_total, st.be_alive, st.be_decommissioning), (2, 1, 3, 2, 1));
    let (lines, warnings) = status_report(&st);
    assert_eq!(lines, vec!["Cluster status", "  Frontends: 1/2 alive", "  Backends:  2/3 alive, 1 decommissioning"]);
    assert_eq!(warnings, vec!["1 backend(s) are DOWN", "1 frontend(s) are DOWN"]);
}

use doris_cli::config::{
    active_profile_file_in, active_profile_from, config_home_in, default_be_http_port,
    default_cluster_name, default_edit_log_port, default_fe_http_port, default_fe_role,
    default_heartbeat_port, default_install_dir, default_query_port, default_ssh_port,
    default_ssh_user, default_user, join_path, profile_path_in, profiles_dir_in, BeNode, Config,
    DeployArchitecture, DeployMethod, FeNode, Topology,
};

fn fe(host: &str, role: &str) -> FeNode {
    FeNode { host: s(host), role: s(role) }
}

fn be(host: &str) -> BeNode {
    BeNode { host: s(host) }
}

#[test]
fn state_paths_under_home() {
    assert_eq!(config_home_in("/home/u"), "/home/u/.doris-cli");
    assert_eq!(profiles_dir_in("/home/u/"), "/home/u/.doris-cli/profiles");
    assert_eq!(active_profile_file_in("/home/u"), "/home/u/.doris-cli/active_profile");
    assert_eq!(profile_path_in("/home/u", "prod"), "/home/u/.doris-cli/profiles/prod.yaml");
    assert_eq!(join_path("/a", "/b"), "/b");
    assert_eq!(join_path("", "b"), "b");
    assert_eq!(join_path("/a/", "b"), "/a/b");
}

#[test]
fn active_profile_marker() {
    assert_eq!(active_profile_from(Some("  staging\n")).as_deref(), Some("staging"));
    assert_eq!(active_profile_from(Some(" \n")), None);
    assert_eq!(active_profile_from(None), None);
}

#[test]
fn defaults_and_sample() {
    assert_eq!(default_cluster_name(), "default");
    assert_eq!(default_fe_role(), "follower");
    assert_eq!((default_query_port(), default_fe_http_port(), default_edit_log_port()), (9030, 8030, 9010));
    assert_eq!((default_heartbeat_port(), default_be_http_port()), (9050, 8040));
    assert_eq!(default_user(), "root");
    assert_eq!((default_ssh_user(), default_ssh_port()), (s("root"), 22));
    assert_eq!(default_install_dir(), "/opt/doris");
    assert!(Config::sample_yaml().starts_with("# doris-cli cluster configuration\nname: prod\n"));
    let c = Config::from_fe(s("h"), 9131, s("u"), s("p"));
    assert_eq!(c.name, "default");
    assert_eq!((c.fe.http_port, c.fe.edit_log_port), (8030, 9010));
    assert_eq!((c.be.heartbeat_port, c.be.http_port), (9050, 8040));
    assert!(c.ssh.is_none() && c.deploy.is_none() && c.topology.is_none());
}

#[test]
fn deploy_modes_labels() {
    assert_eq!(DeployArchitecture::Integrated.label(), "integrated (存算一体)");
    assert_eq!(DeployArchitecture::Separated.label(), "separated (存算分离)");
    assert_eq!(
        DeployArchitecture::Separated.doc_url(),
        "https://doris.apache.org/zh-CN/docs/4.x/install/deploy-manually/separating-storage-compute-deploy-manually"
    );
    assert_eq!(DeployMethod::Kubernetes.label(), "kubernetes (Doris Operator)");
    assert_eq!(DeployMethod::Cloud.doc_url(), "https://doris.apache.org/zh-CN/docs/4.x/install/deploy-on-cloud/intro");
    assert!(DeployMethod::Manual.dcli_automated());
    assert!(!DeployMethod::Kubernetes.dcli_automated());
    assert!(!DeployMethod::Cloud.dcli_automated());
}

#[test]
fn topology_leader_and_hosts() {
    let t = Topology {
        frontends: vec![fe("10.0.0.2", "follower"), fe("10.0.0.1", "Leader"), fe("10.0.0.3", "observer")],
        backends: vec![be("10.0.0.3"), be("10.0.0.0")],
    };
    assert_eq!(t.leader().unwrap().host, "10.0.0.1");
    let others: Vec<&str> = t.non_leader_fes().iter().map(|f| f.host.as_str()).collect();
    assert_eq!(others, vec!["10.0.0.2", "10.0.0.3"]);
    assert_eq!(t.all_hosts(), vec!["10.0.0.0", "10.0.0.1", "10.0.0.2", "10.0.0.3"]);

    let no_leader = Topology { frontends: vec![fe("b", "follower"), fe("a", "observer")], backends: vec![] };
    assert_eq!(no_leader.leader().unwrap().host, "b");
    assert_eq!(no_leader.non_leader_fes().len(), 1);
    let empty = Topology::new();
    assert!(empty.leader().is_none());
    assert!(empty.non_leader_fes().is_empty());
    assert!(empty.all_hosts().is_empty());
}
