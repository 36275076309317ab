//! Remote execution through the system `ssh`/`scp`: the options and argument
//! lists passed to them, key selection, and the hints shown when SSH fails.
use vstd::prelude::*;

use crate::config::{join_path, path_join, SshConfig};
use crate::text::{
    contains, contains_str, int_dec, join, owned, push_i64, push_str, push_u64, dec, starts_with,
    string_views, to_chars, trim, trim_string, join_strings,
};

verus! {

/// Result of a remote command.
#[derive(Debug)]
pub struct CmdOutput {
    pub code: i32,
    pub stdout: String,
    pub stderr: String,
}

impl CmdOutput {
    pub fn ok(&self) -> (r: bool)
        ensures
            r == (self.code == 0),
    {
        self.code == 0
    }
}

pub open spec fn remote_failure_message(host: Seq<char>, code: i32, stderr: Seq<char>) -> Seq<
    char,
> {
    "remote command on "@ + host + " failed (exit "@ + int_dec(code as int) + "):\n"@ + trim(stderr)
}

/// The outcome of a checked remote command: its stdout when the exit code is
/// zero, else an error with the exit code and the trimmed stderr.
pub fn check_remote_output(host: &str, out: CmdOutput) -> (r: Result<String, String>)
    ensures
        out.code == 0 ==> (r matches Ok(s) && s@ == out.stdout@),
        out.code != 0 ==> (r matches Err(m) && m@ == remote_failure_message(
            host@,
            out.code,
            out.stderr@,
        )),
{
    if out.ok() {
        Ok(out.stdout)
    } else {
        let mut m = owned("remote command on ");
        push_str(&mut m, host);
        push_str(&mut m, " failed (exit ");
        push_i64(&mut m, out.code as i64);
        push_str(&mut m, "):\n");
        let ec = to_chars(out.stderr.as_str());
        let t = trim_string(ec.as_slice());
        push_str(&mut m, t.as_str());
        Err(m)
    }
}

/// SSH access settings used to reach every host.
#[derive(Debug)]
pub struct Ssh {
    user: String,
    port: u16,
    key: Option<String>,
    connect_timeout: u32,
}

pub ghost struct SshView {
    pub user: Seq<char>,
    pub port: u16,
    pub key: Option<Seq<char>>,
    pub connect_timeout: u32,
}

impl View for Ssh {
    type V = SshView;

    closed spec fn view(&self) -> SshView {
        SshView {
            user: self.user@,
            port: self.port,
            key: crate::config::opt_view(self.key),
            connect_timeout: self.connect_timeout,
        }
    }
}

impl Clone for Ssh {
    fn clone(&self) -> (r: Self)
        ensures
            r@ == self@,
    {
        Ssh {
            user: self.user.clone(),
            port: self.port,
            key: crate::config::clone_opt_string(&self.key),
            connect_timeout: self.connect_timeout,
        }
    }
}

/// The ssh options that every invocation carries.
pub open spec fn common_opts_of(timeout: u32, key: Option<Seq<char>>) -> Seq<Seq<char>> {
    let base = seq![
        "-o"@,
        "BatchMode=yes"@,
        "-o"@,
        "StrictHostKeyChecking=accept-new"@,
        "-o"@,
        "ConnectTimeout="@ + dec(timeout as nat),
    ];
    match key {
        Some(k) => base + seq!["-i"@, k],
        None => base,
    }
}

/// The SSH settings of a config's `ssh` section, else the local user on
/// port 22 with no key; the connect timeout is 10 seconds.
pub open spec fn ssh_view_of(cfg: Option<crate::config::SshConfigView>, local_user: Seq<char>) -> SshView {
    match cfg {
        Some(c) => SshView { user: c.user, port: c.port, key: c.key, connect_timeout: 10 },
        None => SshView { user: local_user, port: 22, key: None, connect_timeout: 10 },
    }
}

impl Ssh {
    /// Settings from the config's `ssh` section, else the local user on port
    /// 22 with no key; the connect timeout is 10 seconds.
    pub fn from_cfg(cfg: Option<&SshConfig>, local_user: &str) -> (r: Self)
        ensures
            cfg matches Some(c) ==> r@ == (SshView {
                user: c.user@,
                port: c.port,
                key: crate::config::opt_view(c.key),
                connect_timeout: 10,
            }),
            cfg is None ==> r@ == (SshView {
                user: local_user@,
                port: 22,
                key: None,
                connect_timeout: 10,
            }),
            r@ == ssh_view_of(
                match cfg {
                    Some(c) => Some(c@),
                    None => None,
                },
                local_user@,
            ),
    {
        match cfg {
            Some(s) => Ssh {
                user: s.user.clone(),
                port: s.port,
                key: crate::config::clone_opt_string(&s.key),
                connect_timeout: 10,
            },
            None => Ssh { user: owned(local_user), port: 22, key: None, connect_timeout: 10 },
        }
    }

    /// Best default private key path for prompts and the sample config: the
    /// discovered key, else `~/.ssh/id_ed25519`.
    pub fn default_key_hint(discovered: Option<String>) -> (r: String)
        ensures
            discovered matches Some(d) ==> r@ == d@,
            discovered is None ==> r@ == "~/.ssh/id_ed25519"@,
    {
        match discovered {
            Some(d) => d,
            None => owned("~/.ssh/id_ed25519"),
        }
    }

    pub fn username(&self) -> (r: &str)
        ensures
            r@ == self@.user,
    {
        self.user.as_str()
    }

    pub fn port(&self) -> (r: u16)
        ensures
            r == self@.port,
    {
        self.port
    }

    /// The configured key path, if any.
    pub fn key(&self) -> (r: Option<&String>)
        ensures
            crate::config::opt_view(
                match r {
                    Some(k) => Some(*k),
                    None => None,
                },
            ) == self@.key,
    {
        match &self.key {
            Some(k) => Some(k),
            None => None,
        }
    }

    /// The options common to ssh and scp, with `-i <key>` when a key was
    /// resolved.
    pub fn common_opts(&self, resolved_key: Option<&String>) -> (r: Vec<String>)
        ensures
            string_views(r@) == common_opts_of(
                self@.connect_timeout,
                match resolved_key {
                    Some(k) => Some(k@),
                    None => None,
                },
            ),
    {
        let mut a: Vec<String> = Vec::new();
        a.push(owned("-o"));
        a.push(owned("BatchMode=yes"));
        a.push(owned("-o"));
        a.push(owned("StrictHostKeyChecking=accept-new"));
        a.push(owned("-o"));
        let mut t = owned("ConnectTimeout=");
        push_u64(&mut t, self.connect_timeout as u64);
        a.push(t);
        match resolved_key {
            Some(k) => {
                a.push(owned("-i"));
                a.push(k.clone());
            },
            None => {},
        }
        proof {
            let ghost kv: Option<Seq<char>> = match resolved_key {
                Some(k) => Some(k@),
                None => None,
            };
            assert(string_views(a@) =~= common_opts_of(self@.connect_timeout, kv));
        }
        a
    }

    /// `user@host`.
    pub fn target(&self, host: &str) -> (r: String)
        ensures
            r@ == self@.user + "@"@ + host@,
    {
        let mut t = self.user.clone();
        push_str(&mut t, "@");
        push_str(&mut t, host);
        t
    }

    /// Arguments of `ssh` that runs a script piped to `bash -s` on `host`.
    pub fn run_args(&self, host: &str, resolved_key: Option<&String>) -> (r: Vec<String>)
        ensures
            string_views(r@) == common_opts_of(
                self@.connect_timeout,
                match resolved_key {
                    Some(k) => Some(k@),
                    None => None,
                },
            ) + seq!["-p"@, dec(self@.port as nat), self@.user + "@"@ + host@, "bash -s"@],
    {
        let mut a = self.common_opts(resolved_key);
        a.push(owned("-p"));
        a.push(crate::text::u64_to_string(self.port as u64));
        a.push(self.target(host));
        a.push(owned("bash -s"));
        proof {
            let ghost kv: Option<Seq<char>> = match resolved_key {
                Some(k) => Some(k@),
                None => None,
            };
            assert(string_views(a@) =~= common_opts_of(self@.connect_timeout, kv) + seq![
                "-p"@,
                dec(self@.port as nat),
                self@.user + "@"@ + host@,
                "bash -s"@,
            ]);
        }
        a
    }

    /// Arguments of `scp` that copies the local file to `remote` on `host`
    /// (scp takes the port as upper-case `-P`).
    pub fn upload_args(
        &self,
        host: &str,
        local: &str,
        remote: &str,
        resolved_key: Option<&String>,
    ) -> (r: Vec<String>)
        ensures
            string_views(r@) == common_opts_of(
                self@.connect_timeout,
                match resolved_key {
                    Some(k) => Some(k@),
                    None => None,
                },
            ) + seq!["-P"@, dec(self@.port as nat), local@, self@.user + "@"@ + host@ + ":"@ + remote@],
    {
        let mut a = self.common_opts(resolved_key);
        a.push(owned("-P"));
        a.push(crate::text::u64_to_string(self.port as u64));
        a.push(owned(local));
        let mut dest = self.target(host);
        push_str(&mut dest, ":");
        push_str(&mut dest, remote);
        a.push(dest);
        proof {
            let ghost kv: Option<Seq<char>> = match resolved_key {
                Some(k) => Some(k@),
                None => None,
            };
            assert(string_views(a@) =~= common_opts_of(self@.connect_timeout, kv) + seq![
                "-P"@,
                dec(self@.port as nat),
                local@,
                self@.user + "@"@ + host@ + ":"@ + remote@,
            ]);
        }
        a
    }
}

/// `~/rest` and `~` expanded against the home directory, when there is one.
pub open spec fn expanded(path: Seq<char>, home: Option<Seq<char>>) -> Seq<char> {
    match home {
        Some(h) => if starts_with(path, "~/"@) {
            path_join(h, path.subrange(2, path.len() as int))
        } else if path == "~"@ {
            h
        } else {
            path
        },
        None => path,
    }
}

pub fn expand_tilde(path: &str, home: Option<&str>) -> (r: String)
    ensures
        r@ == expanded(
            path@,
            match home {
                Some(h) => Some(h@),
                None => None,
            },
        ),
{
    match home {
        Some(h) => {
            let pc = to_chars(path);
            if crate::text::starts_with_str(pc.as_slice(), "~/") {
                proof {
                    reveal_strlit("~/");
                }
                let rest = crate::text::slice_string(pc.as_slice(), 2, pc.len());
                join_path(h, rest.as_str())
            } else if crate::release::str_is(pc.as_slice(), "~") {
                owned(h)
            } else {
                owned(path)
            }
        },
        None => owned(path),
    }
}

/// The first of `id_ed25519`, `id_rsa`, `id_ecdsa` that exists in `~/.ssh`.
pub open spec fn discovered_key(ed25519: bool, rsa: bool, ecdsa: bool) -> Option<Seq<char>> {
    if ed25519 {
        Some("~/.ssh/id_ed25519"@)
    } else if rsa {
        Some("~/.ssh/id_rsa"@)
    } else if ecdsa {
        Some("~/.ssh/id_ecdsa"@)
    } else {
        None
    }
}

/// The key to offer given which of the default key files exist.
pub fn discover_ssh_key_from(ed25519: bool, rsa: bool, ecdsa: bool) -> (r: Option<String>)
    ensures
        opt_seq(r) == discovered_key(ed25519, rsa, ecdsa),
{
    if ed25519 {
        Some(owned("~/.ssh/id_ed25519"))
    } else if rsa {
        Some(owned("~/.ssh/id_rsa"))
    } else if ecdsa {
        Some(owned("~/.ssh/id_ecdsa"))
    } else {
        None
    }
}

pub open spec fn opt_seq(o: Option<String>) -> Option<Seq<char>> {
    crate::config::opt_view(o)
}

/// The key passed to ssh: the configured key (trimmed, `~` expanded) when it
/// names an existing file, else the discovered default key (expanded), else
/// none. `configured_exists` tells whether the expanded configured path is a
/// file.
pub open spec fn resolved_key(
    configured: Option<Seq<char>>,
    home: Option<Seq<char>>,
    configured_exists: bool,
    discovered: Option<Seq<char>>,
) -> Option<Seq<char>> {
    let fallback = match discovered {
        Some(d) => Some(expanded(d, home)),
        None => None,
    };
    match configured {
        Some(k) => if trim(k).len() > 0 && configured_exists {
            Some(expanded(trim(k), home))
        } else {
            fallback
        },
        None => fallback,
    }
}

/// Resolve which key to pass to ssh; a configured path that does not exist is
/// skipped (avoids openssh warnings).
pub fn resolve_ssh_key(
    configured: Option<&String>,
    home: Option<&str>,
    configured_exists: bool,
    discovered: Option<&str>,
) -> (r: Option<String>)
    ensures
        opt_seq(r) == resolved_key(
            match configured {
                Some(k) => Some(k@),
                None => None,
            },
            match home {
                Some(h) => Some(h@),
                None => None,
            },
            configured_exists,
            match discovered {
                Some(d) => Some(d@),
                None => None,
            },
        ),
{
    let fallback = match discovered {
        Some(d) => Some(expand_tilde(d, home)),
        None => None,
    };
    match configured {
        Some(k) => {
            let kc = to_chars(k.as_str());
            let t = trim_string(kc.as_slice());
            let tc = to_chars(t.as_str());
            if tc.len() > 0 && configured_exists {
                Some(expand_tilde(t.as_str(), home))
            } else {
                fallback
            }
        },
        None => fallback,
    }
}

/// The hints shown when SSH to a host fails.
pub open spec fn failure_hints(
    host: Seq<char>,
    user: Seq<char>,
    stderr: Seq<char>,
    detected_key: Seq<char>,
    local_user: Seq<char>,
) -> Seq<Seq<char>> {
    let missing = contains(stderr, "not accessible"@) || contains(stderr, "No such file"@);
    let denied = contains(stderr, "Permission denied"@);
    let h1: Seq<Seq<char>> = if missing {
        seq![
            "SSH key missing; set ssh.key in config or run `dcli deploy init` again (detected: "@
                + detected_key + ")"@,
        ]
    } else {
        Seq::empty()
    };
    let h2: Seq<Seq<char>> = if denied {
        seq![
            "try ssh.user='"@ + local_user + "' instead of '"@ + user + "' for localhost/WSL"@,
            "test manually: ssh -o BatchMode=yes "@ + user + "@"@ + host + " true"@,
        ]
    } else {
        Seq::empty()
    };
    if !missing && !denied {
        seq!["test manually: ssh "@ + user + "@"@ + host + " true"@]
    } else {
        h1 + h2
    }
}

/// Actionable hint when SSH to a host fails during deploy precheck; the hints
/// are joined with `; `.
pub fn ssh_failure_hint(
    host: &str,
    user: &str,
    stderr: &str,
    detected_key: &str,
    local_user: &str,
) -> (r: String)
    ensures
        r@ == join(failure_hints(host@, user@, stderr@, detected_key@, local_user@), "; "@),
{
    let ec = to_chars(stderr);
    let missing = contains_str(ec.as_slice(), "not accessible") || contains_str(
        ec.as_slice(),
        "No such file",
    );
    let denied = contains_str(ec.as_slice(), "Permission denied");
    let mut hints: Vec<String> = Vec::new();
    if missing {
        let mut h = owned(
            "SSH key missing; set ssh.key in config or run `dcli deploy init` again (detected: ",
        );
        push_str(&mut h, detected_key);
        push_str(&mut h, ")");
        hints.push(h);
    }
    if denied {
        let mut h = owned("try ssh.user='");
        push_str(&mut h, local_user);
        push_str(&mut h, "' instead of '");
        push_str(&mut h, user);
        push_str(&mut h, "' for localhost/WSL");
        hints.push(h);
        let mut t = owned("test manually: ssh -o BatchMode=yes ");
        push_str(&mut t, user);
        push_str(&mut t, "@");
        push_str(&mut t, host);
        push_str(&mut t, " true");
        hints.push(t);
    }
    if hints.len() == 0 {
        let mut t = owned("test manually: ssh ");
        push_str(&mut t, user);
        push_str(&mut t, "@");
        push_str(&mut t, host);
        push_str(&mut t, " true");
        hints.push(t);
    }
    assert(string_views(hints@) =~= failure_hints(host@, user@, stderr@, detected_key@, local_user@));
    join_strings(&hints, "; ")
}

} // verus!
