use doris_cli::cluster_meta::{
    add_cluster, check_add, cluster_menu, config_from_answers, default_menu_choice, list_lines,
    pick_menu_choice, port_answer, prompt_answer, remove_cluster, require_saved, show_cluster,
    split_hosts, tui_config_source, use_cluster, validate_name, ClusterAnswers, TuiSource,
};
use doris_cli::cluster_store::{active_cluster, load_cluster, ClusterStore};
use doris_cli::config::Config;

fn cfg(host: &str) -> Config {
    Config::from_fe(host.to_string(), 9030, "root".to_string(), "secret".to_string())
}

#[test]
fn host_lists_are_trimmed() {
    assert_eq!(split_hosts(" a, b,,c ,"), vec!["a", "b", "c"]);
    assert!(split_hosts("  ").is_empty());
}

#[test]
fn names_are_checked() {
    assert!(validate_name("prod-1.a_b").is_ok());
    assert_eq!(validate_name("").unwrap_err(), "cluster name must not be empty");
    assert_eq!(
        validate_name("a b").unwrap_err(),
        "cluster name 'a b' may only contain letters, digits, '-', '_', '.'"
    );
    assert_eq!(validate_name("..").unwrap_err(), "invalid cluster name '..'");
    assert_eq!(validate_name("a/b").unwrap_err(), "cluster name 'a/b' may only contain letters, digits, '-', '_', '.'");
}

#[test]
fn first_added_cluster_becomes_active() {
    let mut store = ClusterStore::new();
    assert!(check_add(&store, "prod", false).is_ok());
    add_cluster(&mut store, "prod".to_string(), cfg("10.0.0.1"));
    add_cluster(&mut store, "dev".to_string(), cfg("10.0.0.2"));
    assert_eq!(store.active.as_deref(), Some("prod"));
    assert_eq!(store.get("dev").unwrap().fe.host, "10.0.0.2");
    assert_eq!(store.names(), vec!["dev", "prod"]);
    assert_eq!(
        check_add(&store, "prod", false).unwrap_err(),
        "saved cluster 'prod' already exists (use --force to overwrite)"
    );
    assert!(check_add(&store, "prod", true).is_ok());
    assert_eq!(active_cluster(&store).unwrap().fe.host, "10.0.0.1");
    assert_eq!(store.active_config().unwrap().fe.host, "10.0.0.1");
    store.active = Some("gone".to_string());
    assert!(store.active_config().is_none());
    store.active = Some("prod".to_string());
    assert_eq!(load_cluster(&store, "nope").unwrap_err(), "saved cluster 'nope' does not exist");
}

#[test]
fn use_and_remove_keep_active_saved() {
    let mut store = ClusterStore::new();
    add_cluster(&mut store, "b".to_string(), cfg("hb"));
    add_cluster(&mut store, "a".to_string(), cfg("ha"));
    add_cluster(&mut store, "c".to_string(), cfg("hc"));
    assert_eq!(use_cluster(&mut store, "zz").unwrap_err(), "saved cluster 'zz' does not exist");
    assert!(use_cluster(&mut store, "c").is_ok());
    assert_eq!(store.active.as_deref(), Some("c"));
    assert!(remove_cluster(&mut store, "c").is_ok());
    assert!(store.get("c").is_none());
    assert_eq!(store.active.as_deref(), Some("a"));
    assert!(remove_cluster(&mut store, "b").is_ok());
    assert_eq!(store.active.as_deref(), Some("a"));
    assert!(remove_cluster(&mut store, "a").is_ok());
    assert_eq!(store.active, None);
    assert!(require_saved(&store, "a").is_err());
}

#[test]
fn list_marks_active() {
    let mut store = ClusterStore::new();
    add_cluster(&mut store, "prod".to_string(), cfg("1"));
    add_cluster(&mut store, "dev".to_string(), cfg("2"));
    assert_eq!(list_lines(&store), vec!["  dev", "* prod"]);
}

#[test]
fn show_masks_password() {
    let mut store = ClusterStore::new();
    assert_eq!(show_cluster(&store, None, false).unwrap_err(), "no active saved cluster; pass a name");
    add_cluster(&mut store, "prod".to_string(), cfg("1"));
    let (name, c) = show_cluster(&store, None, false).unwrap();
    assert_eq!(name, "prod");
    assert_eq!(c.fe.password, "******");
    let (_, c2) = show_cluster(&store, Some("prod"), true).unwrap();
    assert_eq!(c2.fe.password, "secret");
    assert_eq!(show_cluster(&store, Some("x"), true).unwrap_err(), "saved cluster 'x' does not exist");
}

#[test]
fn answers_build_config() {
    let c = config_from_answers(ClusterAnswers {
        name: "prod".into(),
        fe_host: "10.0.0.1".into(),
        query_port: 9030,
        http_port: 8030,
        edit_log_port: 9010,
        user: "root".into(),
        password: String::new(),
        be_heartbeat_port: 9050,
        be_http_port: 8040,
        frontend_hosts: "10.0.0.1, 10.0.0.2".into(),
        backend_hosts: "10.0.0.3".into(),
    });
    let t = c.topology.unwrap();
    assert_eq!(t.frontends[0].role, "leader");
    assert_eq!(t.frontends[1].role, "follower");
    assert_eq!(t.backends[0].host, "10.0.0.3");
    assert!(c.ssh.is_none());
    let none = config_from_answers(ClusterAnswers {
        name: "x".into(),
        fe_host: "h".into(),
        query_port: 1,
        http_port: 2,
        edit_log_port: 3,
        user: "u".into(),
        password: "p".into(),
        be_heartbeat_port: 4,
        be_http_port: 5,
        frontend_hosts: " , ".into(),
        backend_hosts: String::new(),
    });
    assert!(none.topology.is_none());
}

#[test]
fn prompt_answers() {
    assert_eq!(prompt_answer("  \n", "root"), "root");
    assert_eq!(prompt_answer(" admin \n", "root"), "admin");
    assert_eq!(port_answer("FE query port", "9030"), Ok(9030));
    assert_eq!(port_answer("FE query port", "70000").unwrap_err(), "FE query port must be a valid port");
    assert!(port_answer("p", "+80").is_ok());
}

#[test]
fn dashboard_cluster_choice() {
    let mut store = ClusterStore::new();
    assert!(matches!(tui_config_source(false, &store), TuiSource::Flags));
    add_cluster(&mut store, "b".to_string(), cfg("hb"));
    match tui_config_source(false, &store) {
        TuiSource::Saved(c) => assert_eq!(c.fe.host, "hb"),
        _ => panic!("expected the only saved cluster"),
    }
    assert!(matches!(tui_config_source(true, &store), TuiSource::Flags));
    add_cluster(&mut store, "a".to_string(), cfg("ha"));
    assert!(matches!(tui_config_source(false, &store), TuiSource::Choose));
    assert_eq!(cluster_menu(&store), vec!["  1.   a", "  2. * b"]);
    assert_eq!(default_menu_choice(&store), 2);
    assert_eq!(pick_menu_choice(&store, "1").unwrap().fe.host, "ha");
    assert_eq!(pick_menu_choice(&store, "3").unwrap_err(), "invalid cluster selection '3'");
    assert_eq!(pick_menu_choice(&store, "x").unwrap_err(), "invalid cluster selection 'x'");
}
