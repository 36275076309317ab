//! Deploy lifecycle: the deploy context derived from the config, and every
//! script and statement that `deploy install/start/stop/status` sends to the
//! hosts and the leader FE.
use vstd::prelude::*;

use crate::config::{
    fes_without_host, leader_index, opt_view, Config, ConfigView, DeployArchitecture, FeNode,
    SeparatedView, StorageVaultConfig, Topology, be_views,
};
use crate::ssh::{CmdOutput, Ssh};
use crate::text::{
    dec, eq_ignore_case, from_chars, int_dec, join, join_strings, lines, lines_of, lower, owned,
    push_i64, push_str, push_u64, starts_with, starts_with_str, string_views, to_chars,
    to_lower, trim, trim_chars, vec_views,
};

verus! {

/// `Some(trimmed)` for a value that is not blank after trimming.
pub open spec fn non_empty_of(s: Option<Seq<char>>) -> Option<Seq<char>> {
    match s {
        Some(v) => if trim(v).len() > 0 {
            Some(trim(v))
        } else {
            None
        },
        None => None,
    }
}

pub fn non_empty(s: &Option<String>) -> (r: Option<String>)
    ensures
        opt_view(r) == non_empty_of(opt_view(*s)),
{
    match s {
        Some(v) => {
            let vc = to_chars(v.as_str());
            let t = trim_chars(vc.as_slice());
            if t.len() > 0 {
                Some(from_chars(t.as_slice()))
            } else {
                None
            }
        },
        None => None,
    }
}

// ---------------------------------------------------------------------------
// Deploy context
// ---------------------------------------------------------------------------

/// Shared deploy context derived from config.
#[derive(Debug)]
pub struct Ctx {
    pub cfg: Config,
    pub ssh: Ssh,
    pub install_dir: String,
    pub java_home: Option<String>,
    pub meta_dir: Option<String>,
    pub be_storage: Option<String>,
    pub priority_networks: Option<String>,
}

/// The install directory of a config (`/opt/doris` without a deploy section).
pub open spec fn install_dir_of(c: ConfigView) -> Seq<char> {
    match c.deploy {
        Some(d) => d.install_dir,
        None => "/opt/doris"@,
    }
}

/// A deploy setting, blank values treated as unset.
pub open spec fn deploy_setting(c: ConfigView, which: int) -> Option<Seq<char>> {
    match c.deploy {
        Some(d) => non_empty_of(
            if which == 0 {
                d.java_home
            } else if which == 1 {
                d.meta_dir
            } else if which == 2 {
                d.be_storage
            } else {
                d.priority_networks
            },
        ),
        None => None,
    }
}

/// The config deploys storage and compute separated.
pub open spec fn separated_mode(c: ConfigView) -> bool {
    match c.deploy {
        Some(d) => d.architecture == DeployArchitecture::Separated,
        None => false,
    }
}

pub open spec fn separated_of(c: ConfigView) -> Option<SeparatedView> {
    match c.deploy {
        Some(d) => d.separated,
        None => None,
    }
}

impl Ctx {
    /// The context of `cfg`; `local_user` is the SSH user when the config has
    /// no `ssh` section.
    pub fn new(cfg: &Config, local_user: &str) -> (r: Self)
        ensures
            r.cfg@ == cfg@,
            r.install_dir@ == install_dir_of(cfg@),
            opt_view(r.java_home) == deploy_setting(cfg@, 0),
            opt_view(r.meta_dir) == deploy_setting(cfg@, 1),
            opt_view(r.be_storage) == deploy_setting(cfg@, 2),
            opt_view(r.priority_networks) == deploy_setting(cfg@, 3),
            r.ssh@ == crate::ssh::ssh_view_of(cfg@.ssh, local_user@),
    {
        let install_dir = match &cfg.deploy {
            Some(d) => d.install_dir.clone(),
            None => owned("/opt/doris"),
        };
        let (java_home, meta_dir, be_storage, priority_networks) = match &cfg.deploy {
            Some(d) => (
                non_empty(&d.java_home),
                non_empty(&d.meta_dir),
                non_empty(&d.be_storage),
                non_empty(&d.priority_networks),
            ),
            None => (None, None, None, None),
        };
        let ssh = Ssh::from_cfg(cfg.ssh.as_ref(), local_user);
        Ctx {
            cfg: cfg.clone(),
            ssh,
            install_dir,
            java_home,
            meta_dir,
            be_storage,
            priority_networks,
        }
    }

    /// The configured topology, or the error shown when there is none.
    pub fn topology(&self) -> (r: Result<&Topology, String>)
        ensures
            self.cfg.topology is None ==> (r matches Err(m) && m@
                == "no topology configured; run `dcli deploy init` first"@),
            self.cfg.topology matches Some(t) ==> (r matches Ok(u) && *u == t),
    {
        match &self.cfg.topology {
            Some(t) => Ok(t),
            None => Err(owned("no topology configured; run `dcli deploy init` first")),
        }
    }

    /// The config pointed at the leader FE (what the leader client connects
    /// with).
    pub fn leader_config(&self) -> (r: Result<Config, String>)
        ensures
            self.cfg.topology is None ==> (r matches Err(m) && m@
                == "no topology configured; run `dcli deploy init` first"@),
            self.cfg.topology matches Some(t) ==> (leader_index(t.frontends@) is None ==> (r matches Err(
                m,
            ) && m@ == "topology has no frontends"@)),
            self.cfg.topology matches Some(t) ==> (leader_index(t.frontends@) matches Some(l) ==> (r matches Ok(
                c,
            ) && c@.fe.host == t.frontends@[l].host@ && c@.fe.query_port == self.cfg@.fe.query_port
                && c@.fe.http_port == self.cfg@.fe.http_port && c@.fe.edit_log_port
                == self.cfg@.fe.edit_log_port && c@.fe.user == self.cfg@.fe.user && c@.fe.password
                == self.cfg@.fe.password && c@.name == self.cfg@.name && c@.be == self.cfg@.be
                && c@.ssh == self.cfg@.ssh && c@.deploy == self.cfg@.deploy && c@.topology
                == self.cfg@.topology)),
    {
        let topo = self.topology()?;
        let leader = match topo.leader() {
            Some(l) => l,
            None => return Err(owned("topology has no frontends")),
        };
        let mut cfg = self.cfg.clone();
        cfg.fe.host = leader.host.clone();
        Ok(cfg)
    }

    pub fn is_separated(&self) -> (r: bool)
        ensures
            r == separated_mode(self.cfg@),
    {
        match &self.cfg.deploy {
            Some(d) => d.architecture == DeployArchitecture::Separated,
            None => false,
        }
    }

    /// `export JAVA_HOME="..."` plus a newline when a Java home is set.
    pub fn export_java(&self) -> (r: String)
        ensures
            r@ == export_java_of(opt_view(self.java_home)),
    {
        match &self.java_home {
            Some(j) => {
                let mut s = owned("export JAVA_HOME=\"");
                push_str(&mut s, j.as_str());
                push_str(&mut s, "\"\n");
                s
            },
            None => String::new(),
        }
    }
}

pub open spec fn export_java_of(java_home: Option<Seq<char>>) -> Seq<char> {
    match java_home {
        Some(j) => "export JAVA_HOME=\""@ + j + "\"\n"@,
        None => Seq::empty(),
    }
}

// ---------------------------------------------------------------------------
// fe.conf / be.conf
// ---------------------------------------------------------------------------

/// Remote shell helper that removes existing lines of a key, then appends
/// `key = value`.
pub const SET_CONF_FN: &'static str = "set_conf(){ sed -i \"\\#^[[:space:]]*$2[[:space:]]*=#d\" \"$1\"; echo \"$2 = $3\" >> \"$1\"; }\n";

pub fn set_conf_fn() -> (r: &'static str)
    ensures
        r@ == SET_CONF_FN@,
{
    SET_CONF_FN
}

pub open spec fn conf_line(file: Seq<char>, key: Seq<char>, value: Seq<char>) -> Seq<char> {
    "set_conf '"@ + file + "' "@ + key + " '"@ + value + "'\n"@
}

pub open spec fn opt_conf_line(file: Seq<char>, key: Seq<char>, value: Option<Seq<char>>) -> Seq<char> {
    match value {
        Some(v) => conf_line(file, key, v),
        None => Seq::empty(),
    }
}

fn push_conf(s: &mut String, file: &str, key: &str, value: &str)
    ensures
        final(s)@ == old(s)@ + conf_line(file@, key@, value@),
{
    push_str(s, "set_conf '");
    push_str(s, file);
    push_str(s, "' ");
    push_str(s, key);
    push_str(s, " '");
    push_str(s, value);
    push_str(s, "'\n");
}

fn push_opt_conf(s: &mut String, file: &str, key: &str, value: &Option<String>)
    ensures
        final(s)@ == old(s)@ + opt_conf_line(file@, key@, opt_view(*value)),
{
    match value {
        Some(v) => push_conf(s, file, key, v.as_str()),
        None => {
            assert(old(s)@ + Seq::<char>::empty() =~= old(s)@);
        },
    }
}

fn port_text(p: u16) -> (r: String)
    ensures
        r@ == dec(p as nat),
{
    let mut s = String::new();
    push_u64(&mut s, p as u64);
    assert(s@ =~= dec(p as nat));
    s
}

/// The cloud-mode lines of fe.conf.
pub open spec fn fe_cloud_lines(file: Seq<char>, sep: Option<SeparatedView>) -> Seq<char> {
    let tail = match sep {
        Some(s) => {
            let id_line = match s.cluster_id {
                Some(id) => conf_line(file, "cluster_id"@, int_dec(id as int)),
                None => Seq::empty(),
            };
            id_line + conf_line(file, "meta_service_endpoint"@, s.meta_service_endpoint)
        },
        None => Seq::empty(),
    };
    conf_line(file, "deploy_mode"@, "cloud"@) + tail
}

/// The script that writes the settings of fe.conf on an FE host.
pub open spec fn fe_conf_script_of(c: ConfigView, dir: Seq<char>, pn: Option<Seq<char>>, md: Option<Seq<char>>) -> Seq<char> {
    let f = dir + "/fe/conf/fe.conf"@;
    let cloud_lines = if separated_mode(c) {
        fe_cloud_lines(f, separated_of(c))
    } else {
        Seq::empty()
    };
    "set -e\n"@ + "touch '"@ + f + "'\n"@ + SET_CONF_FN@ + opt_conf_line(f, "priority_networks"@, pn)
        + opt_conf_line(f, "meta_dir"@, md) + conf_line(f, "http_port"@, dec(c.fe.http_port as nat))
        + conf_line(f, "query_port"@, dec(c.fe.query_port as nat)) + conf_line(
        f,
        "edit_log_port"@,
        dec(c.fe.edit_log_port as nat),
    ) + cloud_lines
}

pub fn render_fe_conf_script(ctx: &Ctx) -> (r: String)
    ensures
        r@ == fe_conf_script_of(
            ctx.cfg@,
            ctx.install_dir@,
            opt_view(ctx.priority_networks),
            opt_view(ctx.meta_dir),
        ),
{
    let mut f = ctx.install_dir.clone();
    push_str(&mut f, "/fe/conf/fe.conf");
    let mut s = owned("set -e\n");
    push_str(&mut s, "touch '");
    push_str(&mut s, f.as_str());
    push_str(&mut s, "'\n");
    push_str(&mut s, set_conf_fn());
    push_opt_conf(&mut s, f.as_str(), "priority_networks", &ctx.priority_networks);
    push_opt_conf(&mut s, f.as_str(), "meta_dir", &ctx.meta_dir);
    let hp = port_text(ctx.cfg.fe.http_port);
    push_conf(&mut s, f.as_str(), "http_port", hp.as_str());
    let qp = port_text(ctx.cfg.fe.query_port);
    push_conf(&mut s, f.as_str(), "query_port", qp.as_str());
    let ep = port_text(ctx.cfg.fe.edit_log_port);
    push_conf(&mut s, f.as_str(), "edit_log_port", ep.as_str());
    let ghost before_cloud = s@;
    if ctx.is_separated() {
        push_conf(&mut s, f.as_str(), "deploy_mode", "cloud");
        match &ctx.cfg.deploy {
            Some(d) => match &d.separated {
                Some(sep) => {
                    match sep.cluster_id {
                        Some(id) => {
                            let mut idt = String::new();
                            push_i64(&mut idt, id);
                            assert(idt@ =~= int_dec(id as int));
                            push_conf(&mut s, f.as_str(), "cluster_id", idt.as_str());
                        },
                        None => {},
                    }
                    push_conf(
                        &mut s,
                        f.as_str(),
                        "meta_service_endpoint",
                        sep.meta_service_endpoint.as_str(),
                    );
                },
                None => {},
            },
            None => {},
        }
        assert(s@ =~= before_cloud + fe_cloud_lines(f@, separated_of(ctx.cfg@)));
    }
    assert(s@ =~= fe_conf_script_of(
        ctx.cfg@,
        ctx.install_dir@,
        opt_view(ctx.priority_networks),
        opt_view(ctx.meta_dir),
    ));
    s
}

/// The default BE file cache: one path under the install directory, unbounded.
pub open spec fn default_file_cache(dir: Seq<char>) -> Seq<char> {
    "[{\"path\":\""@ + dir + "/file_cache\",\"total_size\":-1}]"@
}

/// The file cache setting: the configured one, else the default.
pub open spec fn file_cache_of(dir: Seq<char>, sep: Option<SeparatedView>) -> Seq<char> {
    match sep {
        Some(s) => match non_empty_of(s.file_cache_path) {
            Some(p) => p,
            None => default_file_cache(dir),
        },
        None => default_file_cache(dir),
    }
}

/// The script that writes the settings of be.conf on a BE host.
pub open spec fn be_conf_script_of(
    c: ConfigView,
    dir: Seq<char>,
    pn: Option<Seq<char>>,
    storage: Option<Seq<char>>,
) -> Seq<char> {
    let f = dir + "/be/conf/be.conf"@;
    let storage_lines = match storage {
        Some(st) => "mkdir -p '"@ + st + "'\n"@ + conf_line(f, "storage_root_path"@, st),
        None => Seq::empty(),
    };
    let cloud_lines = if separated_mode(c) {
        conf_line(f, "deploy_mode"@, "cloud"@) + "mkdir -p '"@ + dir + "/file_cache'\n"@ + conf_line(
            f,
            "file_cache_path"@,
            file_cache_of(dir, separated_of(c)),
        )
    } else {
        Seq::empty()
    };
    "set -e\n"@ + "touch '"@ + f + "'\n"@ + SET_CONF_FN@ + opt_conf_line(f, "priority_networks"@, pn)
        + storage_lines + cloud_lines + conf_line(f, "webserver_port"@, dec(c.be.http_port as nat)) + conf_line(
        f,
        "heartbeat_service_port"@,
        dec(c.be.heartbeat_port as nat),
    )
}

/// With a BE storage path `st` configured, the be.conf script creates that
/// directory and sets `storage_root_path` to it in
/// `<install_dir>/be/conf/be.conf`.
pub proof fn lemma_be_conf_sets_storage_root(
    c: ConfigView,
    dir: Seq<char>,
    pn: Option<Seq<char>>,
    st: Seq<char>,
)
    ensures
        crate::text::contains(
            be_conf_script_of(c, dir, pn, Some(st)),
            conf_line(dir + "/be/conf/be.conf"@, "storage_root_path"@, st),
        ),
        crate::text::contains(be_conf_script_of(c, dir, pn, Some(st)), "mkdir -p '"@ + st + "'\n"@),
{
    let f = dir + "/be/conf/be.conf"@;
    let head = "set -e\n"@ + "touch '"@ + f + "'\n"@ + SET_CONF_FN@ + opt_conf_line(
        f,
        "priority_networks"@,
        pn,
    );
    let mk = "mkdir -p '"@ + st + "'\n"@;
    let line = conf_line(f, "storage_root_path"@, st);
    let script = be_conf_script_of(c, dir, pn, Some(st));
    let a: int = head.len() as int;
    let b: int = a + mk.len();
    let e: int = b + line.len();
    let tail = script.subrange(e, script.len() as int);
    assert(script =~= head + mk + line + tail);
    assert(script.subrange(b, e) =~= line);
    crate::text::lemma_occurs_contains(script, line, b);
    assert(script.subrange(a, b) =~= mk);
    crate::text::lemma_occurs_contains(script, mk, a);
}

pub fn render_be_conf_script(ctx: &Ctx) -> (r: String)
    ensures
        r@ == be_conf_script_of(
            ctx.cfg@,
            ctx.install_dir@,
            opt_view(ctx.priority_networks),
            opt_view(ctx.be_storage),
        ),
        ctx.be_storage matches Some(st) ==> crate::text::contains(
            r@,
            conf_line(ctx.install_dir@ + "/be/conf/be.conf"@, "storage_root_path"@, st@),
        ),
{
    proof {
        if ctx.be_storage is Some {
            lemma_be_conf_sets_storage_root(
                ctx.cfg@,
                ctx.install_dir@,
                opt_view(ctx.priority_networks),
                ctx.be_storage->0@,
            );
        }
    }
    let mut f = ctx.install_dir.clone();
    push_str(&mut f, "/be/conf/be.conf");
    let mut s = owned("set -e\n");
    push_str(&mut s, "touch '");
    push_str(&mut s, f.as_str());
    push_str(&mut s, "'\n");
    push_str(&mut s, set_conf_fn());
    push_opt_conf(&mut s, f.as_str(), "priority_networks", &ctx.priority_networks);
    match &ctx.be_storage {
        Some(st) => {
            push_str(&mut s, "mkdir -p '");
            push_str(&mut s, st.as_str());
            push_str(&mut s, "'\n");
            push_conf(&mut s, f.as_str(), "storage_root_path", st.as_str());
        },
        None => {},
    }
    let ghost before_cloud = s@;
    if ctx.is_separated() {
        push_conf(&mut s, f.as_str(), "deploy_mode", "cloud");
        let configured = match &ctx.cfg.deploy {
            Some(d) => match &d.separated {
                Some(sep) => non_empty(&sep.file_cache_path),
                None => None,
            },
            None => None,
        };
        let cache = match configured {
            Some(p) => p,
            None => {
                let mut c = owned("[{\"path\":\"");
                push_str(&mut c, ctx.install_dir.as_str());
                push_str(&mut c, "/file_cache\",\"total_size\":-1}]");
                c
            },
        };
        assert(cache@ == file_cache_of(ctx.install_dir@, separated_of(ctx.cfg@)));
        push_str(&mut s, "mkdir -p '");
        push_str(&mut s, ctx.install_dir.as_str());
        push_str(&mut s, "/file_cache'\n");
        push_conf(&mut s, f.as_str(), "file_cache_path", cache.as_str());
    }
    let wp = port_text(ctx.cfg.be.http_port);
    push_conf(&mut s, f.as_str(), "webserver_port", wp.as_str());
    let hb = port_text(ctx.cfg.be.heartbeat_port);
    push_conf(&mut s, f.as_str(), "heartbeat_service_port", hb.as_str());
    assert(s@ =~= be_conf_script_of(
        ctx.cfg@,
        ctx.install_dir@,
        opt_view(ctx.priority_networks),
        opt_view(ctx.be_storage),
    ));
    s
}

// ---------------------------------------------------------------------------
// install
// ---------------------------------------------------------------------------

/// The package to install: `deploy.package`, trimmed and not blank.
pub open spec fn package_of(c: ConfigView) -> Option<Seq<char>> {
    match c.deploy {
        Some(d) => non_empty_of(d.package),
        None => None,
    }
}

/// The package `deploy install` distributes, or the error when none is set.
pub fn install_package(cfg: &Config) -> (r: Result<String, String>)
    ensures
        package_of(cfg@) matches Some(p) ==> (r matches Ok(q) && q@ == p),
        package_of(cfg@) is None ==> (r matches Err(m) && m@ == "deploy.package is not set in config"@),
{
    let p = match &cfg.deploy {
        Some(d) => non_empty(&d.package),
        None => None,
    };
    match p {
        Some(p) => Ok(p),
        None => Err(owned("deploy.package is not set in config")),
    }
}

/// A package given as an `http://` or `https://` URL (fetched by each host).
pub open spec fn is_url(package: Seq<char>) -> bool {
    starts_with(package, "http://"@) || starts_with(package, "https://"@)
}

pub fn is_remote_package(package: &str) -> (r: bool)
    ensures
        r == is_url(package@),
{
    let pc = to_chars(package);
    starts_with_str(pc.as_slice(), "http://") || starts_with_str(pc.as_slice(), "https://")
}

/// The path components that name something: not empty and not `.`.
pub open spec fn named_components(parts: Seq<Seq<char>>) -> Seq<Seq<char>>
    decreases parts.len(),
{
    if parts.len() == 0 {
        Seq::empty()
    } else {
        let rest = named_components(parts.drop_last());
        let c = parts.last();
        if c.len() == 0 || c == "."@ {
            rest
        } else {
            rest.push(c)
        }
    }
}

/// `Path::file_name`: the last component, unless there is none or it is `..`.
pub open spec fn file_name_of(path: Seq<char>) -> Option<Seq<char>> {
    let comps = named_components(crate::text::split(path, '/'));
    if comps.len() == 0 || comps.last() == ".."@ {
        None
    } else {
        Some(comps.last())
    }
}

/// Where a package lands on each host: `/tmp/<file name>`.
pub open spec fn remote_package_of(package: Seq<char>) -> Seq<char> {
    "/tmp/"@ + match file_name_of(package) {
        Some(n) => n,
        None => "doris-package.tar.gz"@,
    }
}

pub fn remote_package_path(package: &str) -> (r: String)
    ensures
        r@ == remote_package_of(package@),
{
    let pc = to_chars(package);
    let parts = crate::text::split_char(pc.as_slice(), '/');
    let ghost pv = vec_views(parts@);
    let dot = to_chars(".");
    let mut comps: Vec<Vec<char>> = Vec::new();
    let mut i: usize = 0;
    while i < parts.len()
        invariant
            i <= parts@.len(),
            pv == vec_views(parts@),
            pv == crate::text::split(package@, '/'),
            dot@ == "."@,
            vec_views(comps@) == named_components(pv.subrange(0, i as int)),
        decreases parts@.len() - i,
    {
        assert(pv.subrange(0, i + 1).drop_last() =~= pv.subrange(0, i as int));
        let c = &parts[i];
        if c.len() > 0 && !crate::text::chars_eq(c.as_slice(), dot.as_slice()) {
            let ghost before = comps@;
            comps.push(crate::text::copy_range(c.as_slice(), 0, c.len()));
            assert(c@.subrange(0, c@.len() as int) =~= c@);
            assert(vec_views(comps@) =~= vec_views(before).push(c@));
        }
        i = i + 1;
    }
    assert(pv.subrange(0, i as int) =~= pv);
    let mut r = owned("/tmp/");
    let dots = to_chars("..");
    if comps.len() == 0 || crate::text::chars_eq(comps[comps.len() - 1].as_slice(), dots.as_slice()) {
        push_str(&mut r, "doris-package.tar.gz");
    } else {
        let last = from_chars(comps[comps.len() - 1].as_slice());
        push_str(&mut r, last.as_str());
    }
    r
}

pub open spec fn fetch_script_of(remote: Seq<char>, package: Seq<char>) -> Seq<char> {
    "set -e\ncurl -fSL -o '"@ + remote + "' '"@ + package + "' 2>/dev/null || wget -q -O '"@ + remote
        + "' '"@ + package + "'\n"@
}

/// The script a host runs to download a package given as a URL.
pub fn fetch_script(remote: &str, package: &str) -> (r: String)
    ensures
        r@ == fetch_script_of(remote@, package@),
{
    let mut s = owned("set -e\ncurl -fSL -o '");
    push_str(&mut s, remote);
    push_str(&mut s, "' '");
    push_str(&mut s, package);
    push_str(&mut s, "' 2>/dev/null || wget -q -O '");
    push_str(&mut s, remote);
    push_str(&mut s, "' '");
    push_str(&mut s, package);
    push_str(&mut s, "'\n");
    s
}

pub open spec fn extract_script_of(install_dir: Seq<char>, remote: Seq<char>) -> Seq<char> {
    "set -e\nmkdir -p '"@ + install_dir + "'\ntar xzf '"@ + remote + "' -C '"@ + install_dir
        + "' --strip-components=1\n"@
}

/// The script a host runs to unpack the package into the install directory.
pub fn extract_script(install_dir: &str, remote: &str) -> (r: String)
    ensures
        r@ == extract_script_of(install_dir@, remote@),
{
    let mut s = owned("set -e\nmkdir -p '");
    push_str(&mut s, install_dir);
    push_str(&mut s, "'\ntar xzf '");
    push_str(&mut s, remote);
    push_str(&mut s, "' -C '");
    push_str(&mut s, install_dir);
    push_str(&mut s, "' --strip-components=1\n");
    s
}

// ---------------------------------------------------------------------------
// start
// ---------------------------------------------------------------------------

pub open spec fn start_fe_script_of(java: Seq<char>, dir: Seq<char>, helper: Option<Seq<char>>) -> Seq<char> {
    java + "cd '"@ + dir + "/fe'\n"@ + match helper {
        Some(h) => "bin/start_fe.sh --helper '"@ + h + "' --daemon\n"@,
        None => "bin/start_fe.sh --daemon\n"@,
    }
}

/// The script that starts an FE: the leader alone, the others with the
/// leader as helper.
pub fn start_fe_script(ctx: &Ctx, helper: Option<&str>) -> (r: String)
    ensures
        r@ == start_fe_script_of(
            export_java_of(opt_view(ctx.java_home)),
            ctx.install_dir@,
            crate::cluster_meta::opt_str_view(helper),
        ),
{
    let mut s = ctx.export_java();
    push_str(&mut s, "cd '");
    push_str(&mut s, ctx.install_dir.as_str());
    push_str(&mut s, "/fe'\n");
    match helper {
        Some(h) => {
            push_str(&mut s, "bin/start_fe.sh --helper '");
            push_str(&mut s, h);
            push_str(&mut s, "' --daemon\n");
        },
        None => push_str(&mut s, "bin/start_fe.sh --daemon\n"),
    }
    s
}

pub open spec fn start_be_script_of(java: Seq<char>, dir: Seq<char>) -> Seq<char> {
    java + "cd '"@ + dir + "/be'\nbin/start_be.sh --daemon\n"@
}

/// The script that starts a BE.
pub fn start_be_script(ctx: &Ctx) -> (r: String)
    ensures
        r@ == start_be_script_of(export_java_of(opt_view(ctx.java_home)), ctx.install_dir@),
{
    let mut s = ctx.export_java();
    push_str(&mut s, "cd '");
    push_str(&mut s, ctx.install_dir.as_str());
    push_str(&mut s, "/be'\nbin/start_be.sh --daemon\n");
    s
}

pub open spec fn host_port_of(host: Seq<char>, port: u16) -> Seq<char> {
    host + ":"@ + dec(port as nat)
}

fn host_port(host: &str, port: u16) -> (r: String)
    ensures
        r@ == host_port_of(host@, port),
{
    let mut s = owned(host);
    push_str(&mut s, ":");
    push_u64(&mut s, port as u64);
    s
}

/// An FE to register with the leader and start with it as helper.
#[derive(Debug)]
pub struct FeJoin {
    pub host: String,
    pub role: &'static str,
    pub addr: String,
    pub register_sql: String,
    pub start_script: String,
}

/// The `ALTER SYSTEM ADD` keyword for a non-leader FE: observers stay
/// observers, any other role joins as follower.
pub open spec fn join_role_of(role: Seq<char>) -> Seq<char> {
    if lower(role) == "observer"@ {
        "OBSERVER"@
    } else {
        "FOLLOWER"@
    }
}

pub open spec fn fe_join_ok(j: FeJoin, n: FeNode, leader_host: Seq<char>, port: u16, script_base: (Seq<char>, Seq<char>)) -> bool {
    let addr = host_port_of(n.host@, port);
    &&& j.host@ == n.host@
    &&& j.role@ == join_role_of(n.role@)
    &&& j.addr@ == addr
    &&& j.register_sql@ == "ALTER SYSTEM ADD "@ + join_role_of(n.role@) + " \""@ + addr + "\""@
    &&& j.start_script@ == start_fe_script_of(
        script_base.0,
        script_base.1,
        Some(host_port_of(leader_host, port)),
    )
}

/// Step 3 of `deploy start`: every FE other than the leader, in topology
/// order, with its registration statement and start script.
pub fn fe_joins(ctx: &Ctx, topo: &Topology) -> (r: Vec<FeJoin>)
    ensures
        leader_index(topo.frontends@) is None ==> r@.len() == 0,
        leader_index(topo.frontends@) matches Some(l) ==> ({
            let others = fes_without_host(topo.frontends@, topo.frontends@[l].host@);
            &&& r@.len() == others.len()
            &&& forall|i: int|
                0 <= i < r@.len() ==> fe_join_ok(
                    #[trigger] r@[i],
                    others[i],
                    topo.frontends@[l].host@,
                    ctx.cfg.fe.edit_log_port,
                    (export_java_of(opt_view(ctx.java_home)), ctx.install_dir@),
                )
        }),
{
    let port = ctx.cfg.fe.edit_log_port;
    let leader = match topo.leader() {
        Some(l) => l,
        None => return Vec::new(),
    };
    let helper = host_port(leader.host.as_str(), port);
    let others = topo.non_leader_fes();
    let ghost ov = others@.map_values(|f: &FeNode| *f);
    let mut r: Vec<FeJoin> = Vec::new();
    let mut i: usize = 0;
    while i < others.len()
        invariant
            i <= others@.len(),
            ov == others@.map_values(|f: &FeNode| *f),
            helper@ == host_port_of(leader.host@, port),
            port == ctx.cfg.fe.edit_log_port,
            r@.len() == i,
            forall|k: int|
                0 <= k < i ==> fe_join_ok(
                    #[trigger] r@[k],
                    ov[k],
                    leader.host@,
                    port,
                    (export_java_of(opt_view(ctx.java_home)), ctx.install_dir@),
                ),
        decreases others@.len() - i,
    {
        let n = others[i];
        assert(*n == ov[i as int]);
        let rc = to_chars(n.role.as_str());
        let lc = to_lower(rc.as_slice());
        let obs = to_chars("observer");
        let role: &'static str = if crate::text::chars_eq(lc.as_slice(), obs.as_slice()) {
            "OBSERVER"
        } else {
            "FOLLOWER"
        };
        let addr = host_port(n.host.as_str(), port);
        let mut sql = owned("ALTER SYSTEM ADD ");
        push_str(&mut sql, role);
        push_str(&mut sql, " \"");
        push_str(&mut sql, addr.as_str());
        push_str(&mut sql, "\"");
        let script = start_fe_script(ctx, Some(helper.as_str()));
        r.push(FeJoin { host: n.host.clone(), role, addr, register_sql: sql, start_script: script });
        i = i + 1;
    }
    r
}

/// Registration of all BEs with their heartbeat port, or none without BEs.
pub open spec fn register_backends_of(hosts: Seq<Seq<char>>, port: u16) -> Option<Seq<char>> {
    if hosts.len() == 0 {
        None
    } else {
        Some(
            "ALTER SYSTEM ADD BACKEND "@ + join(
                Seq::new(hosts.len(), |i: int| "\""@ + host_port_of(hosts[i], port) + "\""@),
                ", "@,
            ),
        )
    }
}

pub fn register_backends_sql(topo: &Topology, heartbeat_port: u16) -> (r: Option<String>)
    ensures
        opt_view(r) == register_backends_of(be_views(topo.backends@), heartbeat_port),
{
    if topo.backends.len() == 0 {
        return None;
    }
    let ghost hv = be_views(topo.backends@);
    let mut q: Vec<String> = Vec::new();
    let mut i: usize = 0;
    while i < topo.backends.len()
        invariant
            i <= topo.backends@.len(),
            hv == be_views(topo.backends@),
            q@.len() == i,
            forall|k: int|
                0 <= k < i ==> (#[trigger] q@[k])@ == "\""@ + host_port_of(hv[k], heartbeat_port)
                    + "\""@,
        decreases topo.backends@.len() - i,
    {
        let hp = host_port(topo.backends[i].host.as_str(), heartbeat_port);
        let mut s = owned("\"");
        push_str(&mut s, hp.as_str());
        push_str(&mut s, "\"");
        q.push(s);
        i = i + 1;
    }
    let list = join_strings(&q, ", ");
    assert(string_views(q@) =~= Seq::new(
        hv.len(),
        |i: int| "\""@ + host_port_of(hv[i], heartbeat_port) + "\""@,
    ));
    let mut sql = owned("ALTER SYSTEM ADD BACKEND ");
    push_str(&mut sql, list.as_str());
    Some(sql)
}

/// The `CREATE STORAGE VAULT` statement: the vault type first, then the
/// properties in key order.
pub open spec fn vault_properties_of(vault: crate::config::StorageVaultView, keys: Seq<Seq<char>>) -> Seq<Seq<char>> {
    seq!["\"type\"=\""@ + vault.vault_type + "\""@] + Seq::new(
        keys.len(),
        |i: int| "\""@ + keys[i] + "\"=\""@ + vault.properties[keys[i]] + "\""@,
    )
}

/// The statement that creates a storage vault: its type first, then its
/// properties in key order.
pub open spec fn vault_create_sql_of(vault: StorageVaultConfig) -> Seq<char> {
    "CREATE STORAGE VAULT IF NOT EXISTS "@ + vault.name@ + " PROPERTIES ("@ + join(
        vault_properties_of(vault@, vault.properties.keys_in_order()),
        ", "@,
    ) + ")"@
}

/// The statement that makes a storage vault the default.
pub open spec fn vault_default_sql_of(vault: StorageVaultConfig) -> Seq<char> {
    "SET "@ + vault.name@ + " AS DEFAULT STORAGE VAULT"@
}

/// The two statements that create a storage vault and make it the default.
pub fn storage_vault_sqls(vault: &StorageVaultConfig) -> (r: (String, String))
    ensures
        r.0@ == vault_create_sql_of(*vault),
        r.1@ == vault_default_sql_of(*vault),
{
    proof {
        use_type_invariant(&vault.properties);
        vault.properties.lemma_keys();
    }
    let ghost keys = vault.properties.keys_in_order();
    let ghost want = vault_properties_of(vault@, keys);
    let mut props: Vec<String> = Vec::new();
    let mut t = owned("\"type\"=\"");
    push_str(&mut t, vault.vault_type.as_str());
    push_str(&mut t, "\"");
    props.push(t);
    assert(string_views(props@) =~= want.subrange(0, 1));
    let n = vault.properties.len();
    let mut i: usize = 0;
    while i < n
        invariant
            n == vault.properties.entry_seq().len(),
            i <= n,
            keys == vault.properties.keys_in_order(),
            want == vault_properties_of(vault@, keys),
            keys.len() == n,
            forall|k: int|
                0 <= k < n ==> #[trigger] vault.properties.entry_seq()[k].0@ == keys[k]
                    && vault.properties@[keys[k]] == vault.properties.entry_seq()[k].1@,
            props@.len() == i + 1,
            vault@.properties == vault.properties@,
            string_views(props@) == want.subrange(0, i + 1),
        decreases n - i,
    {
        let (k, v) = vault.properties.entry_at(i);
        let mut p = owned("\"");
        push_str(&mut p, k.as_str());
        push_str(&mut p, "\"=\"");
        push_str(&mut p, v.as_str());
        push_str(&mut p, "\"");
        let ghost before = props@;
        assert(p@ == want[i + 1]);
        props.push(p);
        assert forall|q: int| 0 <= q <= i implies #[trigger] props@[q]@ == want[q] by {
            assert(props@[q] == before[q]);
            assert(string_views(before)[q] == want.subrange(0, i + 1)[q]);
        }
        assert(string_views(props@) =~= want.subrange(0, i + 2));
        i = i + 1;
    }
    assert(want.subrange(0, n + 1) =~= want);
    let list = join_strings(&props, ", ");
    let mut create = owned("CREATE STORAGE VAULT IF NOT EXISTS ");
    push_str(&mut create, vault.name.as_str());
    push_str(&mut create, " PROPERTIES (");
    push_str(&mut create, list.as_str());
    push_str(&mut create, ")");
    let mut set = owned("SET ");
    push_str(&mut set, vault.name.as_str());
    push_str(&mut set, " AS DEFAULT STORAGE VAULT");
    (create, set)
}

/// What `deploy start` does about a storage vault once backends run.
#[derive(Debug)]
pub enum VaultStep {
    /// Not separated, or no separated section: nothing.
    Skip,
    /// Create the configured vault and make it the default.
    Create { name: String, create_sql: String, default_sql: String },
    /// Separated without a configured vault: only a warning.
    Warn,
}

/// Decide the storage-vault step of `deploy start`.
pub fn vault_step(ctx: &Ctx) -> (r: VaultStep)
    ensures
        !separated_mode(ctx.cfg@) ==> r is Skip,
        separated_mode(ctx.cfg@) && separated_of(ctx.cfg@) is None ==> r is Skip,
        separated_mode(ctx.cfg@) ==> (separated_of(ctx.cfg@) matches Some(s) ==> (s.storage_vault is None
            <==> r is Warn)),
        r matches VaultStep::Create { name, .. } ==> (separated_of(ctx.cfg@) matches Some(s) && (
        s.storage_vault matches Some(v) && name@ == v.name)),
        separated_mode(ctx.cfg@) && (ctx.cfg.deploy matches Some(d) && (d.separated matches Some(
            s,
        ) && s.storage_vault is Some)) ==> r is Create,
        r matches VaultStep::Create { name, create_sql, default_sql } ==> (ctx.cfg.deploy matches Some(
            d,
        ) && (d.separated matches Some(s) && (s.storage_vault matches Some(v) && name@ == v.name@
            && create_sql@ == vault_create_sql_of(v) && default_sql@ == vault_default_sql_of(v)))),
{
    if !ctx.is_separated() {
        return VaultStep::Skip;
    }
    match &ctx.cfg.deploy {
        Some(d) => match &d.separated {
            Some(sep) => match &sep.storage_vault {
                Some(v) => {
                    let (create_sql, default_sql) = storage_vault_sqls(v);
                    VaultStep::Create { name: v.name.clone(), create_sql, default_sql }
                },
                None => VaultStep::Warn,
            },
            None => VaultStep::Skip,
        },
        None => VaultStep::Skip,
    }
}

/// How many times `deploy start` tries to reach the leader FE.
pub const LEADER_WAIT_ATTEMPTS: u32 = 30;

/// Seconds to wait after a failed try before the next one.
pub const LEADER_WAIT_SECS: u64 = 2;

/// What to do after one try to reach the leader FE.
#[derive(Debug)]
pub enum LeaderWait {
    /// The leader answered: use this connection.
    Ready,
    /// Print `note` if there is one, wait `LEADER_WAIT_SECS`, then try again,
    /// or give up with the last error when `last`.
    Wait { note: Option<String>, last: bool },
}

/// The progress note after failed try number `attempt` (every fifth try).
pub open spec fn leader_wait_note(attempt: u32) -> Option<Seq<char>> {
    if attempt % 5 == 0 {
        Some("still waiting for leader FE ("@ + dec(attempt as nat) + "/30)"@)
    } else {
        None
    }
}

/// The waiting policy for the leader FE: ready as soon as a try succeeds;
/// after a failed try, a progress note every fifth try, a pause, and giving
/// up after the last of `LEADER_WAIT_ATTEMPTS` tries.
pub fn leader_wait_step(attempt: u32, ready: bool) -> (r: LeaderWait)
    ensures
        ready ==> r is Ready,
        !ready ==> (r matches LeaderWait::Wait { note, last } && opt_view(note) == leader_wait_note(
            attempt,
        ) && last == (attempt >= LEADER_WAIT_ATTEMPTS)),
{
    if ready {
        return LeaderWait::Ready;
    }
    let note = if attempt % 5 == 0 {
        let mut n = owned("still waiting for leader FE (");
        push_u64(&mut n, attempt as u64);
        push_str(&mut n, "/30)");
        Some(n)
    } else {
        None
    };
    LeaderWait::Wait { note, last: attempt >= LEADER_WAIT_ATTEMPTS }
}

// ---------------------------------------------------------------------------
// stop / status
// ---------------------------------------------------------------------------

pub open spec fn stop_script_of(dir: Seq<char>, fe: bool) -> Seq<char> {
    if fe {
        "cd '"@ + dir + "/fe' && bin/stop_fe.sh || true\n"@
    } else {
        "cd '"@ + dir + "/be' && bin/stop_be.sh || true\n"@
    }
}

/// The script that stops the FE (`fe`) or the BE on a host.
pub fn stop_script(ctx: &Ctx, fe: bool) -> (r: String)
    ensures
        r@ == stop_script_of(ctx.install_dir@, fe),
{
    let mut s = owned("cd '");
    push_str(&mut s, ctx.install_dir.as_str());
    if fe {
        push_str(&mut s, "/fe' && bin/stop_fe.sh || true\n");
    } else {
        push_str(&mut s, "/be' && bin/stop_be.sh || true\n");
    }
    s
}

/// The probe that prints `fe=running|stopped` and `be=running|stopped`.
pub const STATUS_SCRIPT: &'static str = "fe=$(pgrep -af 'DorisFE|PaloFe' | head -1)\nbe=$(pgrep -af 'doris_be|palo_be' | head -1)\necho \"fe=$([ -n \"$fe\" ] && echo running || echo stopped)\"\necho \"be=$([ -n \"$be\" ] && echo running || echo stopped)\"\n";

/// The value of the last line starting with `prefix` among the first `n`
/// lines, or `default`.
pub open spec fn last_value(ls: Seq<Seq<char>>, prefix: Seq<char>, n: int, default: Seq<char>) -> Seq<char>
    decreases n,
{
    if n <= 0 {
        default
    } else if starts_with(ls[n - 1], prefix) {
        ls[n - 1].subrange(prefix.len() as int, ls[n - 1].len() as int)
    } else {
        last_value(ls, prefix, n - 1, default)
    }
}

/// The FE or BE state reported for a host: `-` for a role the host does not
/// have, `unreachable` when the probe failed.
pub open spec fn state_of(out: Option<CmdOutput>, has_role: bool, prefix: Seq<char>) -> Seq<char> {
    match out {
        Some(o) => if o.code == 0 {
            if has_role {
                let ls = lines(o.stdout@);
                last_value(ls, prefix, ls.len() as int, "-"@)
            } else {
                "-"@
            }
        } else {
            "unreachable"@
        },
        None => "unreachable"@,
    }
}

/// In `deploy status`, a host whose probe failed to run or exited non-zero
/// reads `unreachable` for both its FE and BE state, whatever the probe
/// printed and whatever roles the host has; a probe that succeeded never
/// reads `unreachable` for a role the host does not have (`-`).
pub proof fn lemma_failed_probe_unreachable(o: CmdOutput, has_role: bool, prefix: Seq<char>)
    ensures
        o.code != 0 ==> state_of(Some(o), has_role, prefix) == "unreachable"@,
        state_of(None, has_role, prefix) == "unreachable"@,
        o.code == 0 && !has_role ==> state_of(Some(o), has_role, prefix) == "-"@,
{
}

/// The first frontend on `host`, if any.
pub open spec fn fe_on(fes: Seq<FeNode>, host: Seq<char>, i: int) -> Option<int>
    decreases fes.len() - i,
{
    if i < 0 || i >= fes.len() {
        None
    } else if fes[i].host@ == host {
        Some(i)
    } else {
        fe_on(fes, host, i + 1)
    }
}

/// The roles column: `FE/<role>` for an FE host, `BE` for a BE host.
pub open spec fn roles_of(t: Topology, host: Seq<char>) -> Seq<char> {
    let fe = fe_on(t.frontends@, host, 0);
    let is_be = be_views(t.backends@).contains(host);
    let fe_part: Seq<Seq<char>> = match fe {
        Some(i) => seq!["FE/"@ + t.frontends@[i].role@],
        None => Seq::empty(),
    };
    let be_part: Seq<Seq<char>> = if is_be {
        seq!["BE"@]
    } else {
        Seq::empty()
    };
    join(fe_part + be_part, ","@)
}

fn value_after(ls: &Vec<Vec<char>>, prefix: &str, default: &str) -> (r: String)
    ensures
        r@ == last_value(vec_views(ls@), prefix@, ls@.len() as int, default@),
{
    let pc = to_chars(prefix);
    let mut i = ls.len();
    while i > 0
        invariant
            i <= ls@.len(),
            pc@ == prefix@,
            forall|k: int|
                i <= k < ls@.len() ==> !starts_with(#[trigger] vec_views(ls@)[k], prefix@),
            last_value(vec_views(ls@), prefix@, ls@.len() as int, default@) == last_value(
                vec_views(ls@),
                prefix@,
                i as int,
                default@,
            ),
        decreases i,
    {
        let l = &ls[i - 1];
        if crate::text::matches_at(l.as_slice(), pc.as_slice(), 0) {
            assert(vec_views(ls@)[i - 1] == l@);
            return crate::text::slice_string(l.as_slice(), pc.len(), l.len());
        }
        assert(vec_views(ls@)[i - 1] == l@);
        i = i - 1;
    }
    owned(default)
}

/// One row of `deploy status`: host, roles, FE state, BE state. `out` is the
/// probe's output, `None` when the probe could not run.
pub fn status_row(topo: &Topology, host: &str, out: Option<&CmdOutput>) -> (r: Vec<String>)
    ensures
        string_views(r@) == seq![
            host@,
            roles_of(*topo, host@),
            state_of(
                match out {
                    Some(o) => Some(*o),
                    None => None,
                },
                fe_on(topo.frontends@, host@, 0) is Some,
                "fe="@,
            ),
            state_of(
                match out {
                    Some(o) => Some(*o),
                    None => None,
                },
                be_views(topo.backends@).contains(host@),
                "be="@,
            ),
        ],
        out matches Some(o) && o.code != 0 ==> r@[2]@ == "unreachable"@ && r@[3]@ == "unreachable"@,
        out is None ==> r@[2]@ == "unreachable"@ && r@[3]@ == "unreachable"@,
{
    proof {
        if out is Some {
            lemma_failed_probe_unreachable(*out->0, fe_on(topo.frontends@, host@, 0) is Some, "fe="@);
            lemma_failed_probe_unreachable(*out->0, be_views(topo.backends@).contains(host@), "be="@);
        }
    }
    let hc = to_chars(host);
    let fe_idx = first_fe_on(&topo.frontends, hc.as_slice());
    let mut is_be = false;
    let mut j: usize = 0;
    while j < topo.backends.len()
        invariant
            j <= topo.backends@.len(),
            hc@ == host@,
            is_be == be_views(topo.backends@).subrange(0, j as int).contains(host@),
        decreases topo.backends@.len() - j,
    {
        let bc = to_chars(topo.backends[j].host.as_str());
        let ghost pre = be_views(topo.backends@).subrange(0, j as int);
        let ghost cur = be_views(topo.backends@).subrange(0, j + 1);
        assert(cur =~= pre.push(topo.backends@[j as int].host@));
        if crate::text::chars_eq(bc.as_slice(), hc.as_slice()) {
            is_be = true;
            assert(cur[j as int] == host@);
        } else if !is_be {
            assert forall|k: int| 0 <= k < cur.len() implies cur[k] != host@ by {
                if k < j {
                    assert(cur[k] == pre[k]);
                }
            }
        } else {
            proof {
                let w = choose|k: int| 0 <= k < pre.len() && pre[k] == host@;
                assert(cur[w] == host@);
            }
        }
        j = j + 1;
    }
    assert(be_views(topo.backends@).subrange(0, j as int) =~= be_views(topo.backends@));
    let mut roles: Vec<String> = Vec::new();
    match fe_idx {
        Some(k) => {
            let mut r = owned("FE/");
            push_str(&mut r, topo.frontends[k].role.as_str());
            roles.push(r);
        },
        None => {},
    }
    if is_be {
        roles.push(owned("BE"));
    }
    let ghost fe_part: Seq<Seq<char>> = match fe_on(topo.frontends@, host@, 0) {
        Some(i) => seq!["FE/"@ + topo.frontends@[i].role@],
        None => Seq::empty(),
    };
    let ghost be_part: Seq<Seq<char>> = if is_be {
        seq!["BE"@]
    } else {
        Seq::empty()
    };
    assert(string_views(roles@) =~= fe_part + be_part);
    let roles_text = join_strings(&roles, ",");
    let (fe_state, be_state) = match out {
        Some(o) => if o.ok() {
            let sc = to_chars(o.stdout.as_str());
            let ls = lines_of(sc.as_slice());
            let f = if fe_idx.is_some() {
                value_after(&ls, "fe=", "-")
            } else {
                owned("-")
            };
            let b = if is_be {
                value_after(&ls, "be=", "-")
            } else {
                owned("-")
            };
            (f, b)
        } else {
            (owned("unreachable"), owned("unreachable"))
        },
        None => (owned("unreachable"), owned("unreachable")),
    };
    let mut row: Vec<String> = Vec::new();
    row.push(owned(host));
    row.push(roles_text);
    row.push(fe_state);
    row.push(be_state);
    assert(string_views(row@) =~= seq![
        host@,
        roles_of(*topo, host@),
        state_of(
            match out {
                Some(o) => Some(*o),
                None => None,
            },
            fe_on(topo.frontends@, host@, 0) is Some,
            "fe="@,
        ),
        state_of(
            match out {
                Some(o) => Some(*o),
                None => None,
            },
            be_views(topo.backends@).contains(host@),
            "be="@,
        ),
    ]);
    row
}

fn first_fe_on(fes: &Vec<FeNode>, host: &[char]) -> (r: Option<usize>)
    ensures
        r matches Some(k) ==> fe_on(fes@, host@, 0) == Some(k as int) && k < fes@.len(),
        r is None ==> fe_on(fes@, host@, 0) is None,
{
    let mut i: usize = 0;
    while i < fes.len()
        invariant
            i <= fes@.len(),
            fe_on(fes@, host@, 0) == fe_on(fes@, host@, i as int),
        decreases fes@.len() - i,
    {
        let fc = to_chars(fes[i].host.as_str());
        if crate::text::chars_eq(fc.as_slice(), host) {
            return Some(i);
        }
        i = i + 1;
    }
    None
}

} // verus!
