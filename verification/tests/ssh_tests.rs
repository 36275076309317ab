use doris_cli::config::SshConfig;
use doris_cli::ssh::{
    check_remote_output, discover_ssh_key_from, expand_tilde, resolve_ssh_key, ssh_failure_hint,
    CmdOutput, Ssh,
};

fn out(code: i32, stdout: &str, stderr: &str) -> CmdOutput {
    CmdOutput { code, stdout: stdout.to_string(), stderr: stderr.to_string() }
}

#[test]
fn remote_output_checked() {
    assert_eq!(check_remote_output("h1", out(0, "fine\n", "warn")).unwrap(), "fine\n");
    assert_eq!(
        check_remote_output("h1", out(2, "", "  boom \n")).unwrap_err(),
        "remote command on h1 failed (exit 2):\nboom"
    );
    assert_eq!(
        check_remote_output("h1", out(-1, "", "")).unwrap_err(),
        "remote command on h1 failed (exit -1):\n"
    );
}

#[test]
fn ssh_settings_and_arguments() {
    let cfg = SshConfig { user: "doris".to_string(), port: 2222, key: Some("~/.ssh/k".to_string()) };
    let ssh = Ssh::from_cfg(Some(&cfg), "me");
    assert_eq!(ssh.username(), "doris");
    assert_eq!(ssh.port(), 2222);
    assert_eq!(ssh.key().map(|k| k.as_str()), Some("~/.ssh/k"));
    assert_eq!(ssh.target("10.0.0.1"), "doris@10.0.0.1");
    let key = "/home/me/.ssh/k".to_string();
    assert_eq!(
        ssh.run_args("10.0.0.1", Some(&key)),
        vec![
            "-o", "BatchMode=yes", "-o", "StrictHostKeyChecking=accept-new", "-o", "ConnectTimeout=10",
            "-i", "/home/me/.ssh/k", "-p", "2222", "doris@10.0.0.1", "bash -s",
        ]
    );
    assert_eq!(
        ssh.upload_args("10.0.0.1", "/tmp/p.tar.gz", "/tmp/r.tar.gz", None),
        vec![
            "-o", "BatchMode=yes", "-o", "StrictHostKeyChecking=accept-new", "-o", "ConnectTimeout=10",
            "-P", "2222", "/tmp/p.tar.gz", "doris@10.0.0.1:/tmp/r.tar.gz",
        ]
    );
    let local = Ssh::from_cfg(None, "me");
    assert_eq!(local.username(), "me");
    assert_eq!(local.port(), 22);
    assert!(local.key().is_none());
    assert_eq!(local.common_opts(None).len(), 6);
}

#[test]
fn tilde_and_keys() {
    assert_eq!(expand_tilde("~/.ssh/id_rsa", Some("/home/me")), "/home/me/.ssh/id_rsa");
    assert_eq!(expand_tilde("~", Some("/home/me")), "/home/me");
    assert_eq!(expand_tilde("/abs/key", Some("/home/me")), "/abs/key");
    assert_eq!(expand_tilde("~/.ssh/id_rsa", None), "~/.ssh/id_rsa");
    assert_eq!(discover_ssh_key_from(false, true, true).as_deref(), Some("~/.ssh/id_rsa"));
    assert_eq!(discover_ssh_key_from(true, true, true).as_deref(), Some("~/.ssh/id_ed25519"));
    assert_eq!(discover_ssh_key_from(false, false, true).as_deref(), Some("~/.ssh/id_ecdsa"));
    assert_eq!(discover_ssh_key_from(false, false, false), None);
    assert_eq!(Ssh::default_key_hint(None), "~/.ssh/id_ed25519");
    assert_eq!(Ssh::default_key_hint(Some("~/.ssh/id_rsa".to_string())), "~/.ssh/id_rsa");

    let configured = " ~/.ssh/work ".to_string();
    assert_eq!(
        resolve_ssh_key(Some(&configured), Some("/home/me"), true, Some("~/.ssh/id_rsa")).as_deref(),
        Some("/home/me/.ssh/work")
    );
    assert_eq!(
        resolve_ssh_key(Some(&configured), Some("/home/me"), false, Some("~/.ssh/id_rsa")).as_deref(),
        Some("/home/me/.ssh/id_rsa")
    );
    let blank = "  ".to_string();
    assert_eq!(resolve_ssh_key(Some(&blank), Some("/home/me"), false, None), None);
    assert_eq!(
        resolve_ssh_key(None, Some("/home/me"), false, Some("~/.ssh/id_ed25519")).as_deref(),
        Some("/home/me/.ssh/id_ed25519")
    );
}

#[test]
fn failure_hints() {
    assert_eq!(
        ssh_failure_hint("h", "root", "Connection timed out", "~/.ssh/id_rsa", "me"),
        "test manually: ssh root@h true"
    );
    assert_eq!(
        ssh_failure_hint("h", "root", "root@h: Permission denied (publickey)", "~/.ssh/id_rsa", "me"),
        "try ssh.user='me' instead of 'root' for localhost/WSL; test manually: ssh -o BatchMode=yes root@h true"
    );
    assert_eq!(
        ssh_failure_hint("h", "root", "Warning: Identity file /k not accessible: No such file", "~/.ssh/id_rsa", "me"),
        "SSH key missing; set ssh.key in config or run `dcli deploy init` again (detected: ~/.ssh/id_rsa)"
    );
}
