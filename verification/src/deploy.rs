//! Deploy commands: which methods dcli automates, release selection, the
//! answers of the `deploy init` wizard turned into config, and the text of
//! `deploy plan`.
use vstd::prelude::*;

use crate::cluster_meta::{host_names, split_hosts};
use crate::config::{
    architecture_doc_url, architecture_label, method_doc_url, method_label, opt_view, BeNode,
    leader_index, Config, ConfigView, DeployArchitecture, DeployConfig, DeployMethod, DeployView, FeNode,
    SeparatedDeployConfig, SshConfig, StorageVaultConfig, Topology, TopologyView,
};
use crate::lifecycle::{non_empty, non_empty_of};
use crate::release::{
    find_release, is_stable_choice, normalized, on_stable_line, pick_latest, pick_stable,
    release_matches, DorisRelease,
};
use crate::strmap::StrMap;
use crate::text::{
    eq_ignore_ascii_case_str, eq_ignore_case, join, join_strings, lower, owned, push_i64,
    push_str, string_views, to_chars, to_lower, trim, trim_chars, from_chars,
};

verus! {

/// The deploy method of a config (`manual` without a deploy section).
pub open spec fn method_of(c: ConfigView) -> DeployMethod {
    match c.deploy {
        Some(d) => d.method,
        None => DeployMethod::Manual,
    }
}

pub open spec fn architecture_of(c: ConfigView) -> DeployArchitecture {
    match c.deploy {
        Some(d) => d.architecture,
        None => DeployArchitecture::Integrated,
    }
}

/// Only the SSH manual method is automated; any other is refused with a
/// pointer to its official guide.
pub fn ensure_dcli_supported(cfg: &Config) -> (r: Result<(), String>)
    ensures
        r is Ok == (method_of(cfg@) == DeployMethod::Manual),
        r matches Err(m) ==> m@ == "deploy.method="@ + method_label(method_of(cfg@))
            + " is not automated by dcli (SSH manual deploy only).\nSee: "@ + method_doc_url(
            method_of(cfg@),
        ),
{
    let method = match &cfg.deploy {
        Some(d) => d.method,
        None => DeployMethod::default(),
    };
    if method.dcli_automated() {
        return Ok(());
    }
    let mut m = owned("deploy.method=");
    push_str(&mut m, method.label());
    push_str(&mut m, " is not automated by dcli (SSH manual deploy only).\nSee: ");
    push_str(&mut m, method.doc_url());
    Err(m)
}

/// How a `--release` / version answer is read: `latest`, `stable` (ASCII
/// case and surrounding whitespace ignored), or an exact version.
pub open spec fn release_word(version: Seq<char>) -> Seq<char> {
    lower(trim(version))
}

/// The release that a version answer names among `releases` (newest first).
pub fn resolve_release_choice<'a>(releases: &'a [DorisRelease], version: &str) -> (r: Result<
    &'a DorisRelease,
    String,
>)
    ensures
        release_word(version@) == "latest"@ ==> ({
            &&& r is Ok == (releases@.len() > 0)
            &&& r matches Ok(x) ==> *x == releases@[0]
            &&& r matches Err(m) ==> m@ == "no latest release found"@
        }),
        release_word(version@) == "stable"@ ==> ({
            &&& r is Ok == exists|j: int| 0 <= j < releases@.len() && on_stable_line(releases@[j])
            &&& r matches Ok(x) ==> exists|k: int| is_stable_choice(releases@, k) && *x == releases@[k]
            &&& r matches Err(m) ==> m@ == "no stable (4.0.x) release found"@
        }),
        release_word(version@) != "latest"@ && release_word(version@) != "stable"@ ==> ({
            &&& r is Ok == exists|j: int|
                0 <= j < releases@.len() && release_matches(releases@[j], normalized(version@))
            &&& r matches Ok(x) ==> exists|k: int|
                0 <= k < releases@.len() && *x == releases@[k] && release_matches(
                    releases@[k],
                    normalized(version@),
                ) && forall|j: int|
                    0 <= j < k ==> !release_matches(releases@[j], normalized(version@))
            &&& r matches Err(m) ==> m@ == "version '"@ + version@
                + "' not found; try `dcli deploy versions`"@
        }),
{
    let vc = to_chars(version);
    let t = trim_chars(vc.as_slice());
    let v = to_lower(t.as_slice());
    let latest = to_chars("latest");
    let stable = to_chars("stable");
    proof {
        reveal_strlit("latest");
        reveal_strlit("stable");
        assert("latest"@[0] != "stable"@[0]);
    }
    if crate::text::chars_eq(v.as_slice(), latest.as_slice()) {
        match pick_latest(releases) {
            Some(x) => Ok(x),
            None => Err(owned("no latest release found")),
        }
    } else if crate::text::chars_eq(v.as_slice(), stable.as_slice()) {
        match pick_stable(releases) {
            Some(x) => Ok(x),
            None => Err(owned("no stable (4.0.x) release found")),
        }
    } else {
        match find_release(releases, version) {
            Some(x) => Ok(x),
            None => {
                let mut m = owned("version '");
                push_str(&mut m, version);
                push_str(&mut m, "' not found; try `dcli deploy versions`");
                Err(m)
            },
        }
    }
}

/// A deploy section with every setting at its default.
pub fn default_deploy() -> (r: DeployConfig)
    ensures
        r@ == (DeployView {
            architecture: DeployArchitecture::Integrated,
            method: DeployMethod::Manual,
            version: None,
            arch: None,
            install_dir: "/opt/doris"@,
            package: None,
            java_home: None,
            meta_dir: None,
            be_storage: None,
            priority_networks: None,
            separated: None,
        }),
{
    DeployConfig {
        architecture: DeployArchitecture::default(),
        method: DeployMethod::default(),
        version: None,
        arch: None,
        install_dir: owned("/opt/doris"),
        package: None,
        java_home: None,
        meta_dir: None,
        be_storage: None,
        priority_networks: None,
        separated: None,
    }
}

// ---------------------------------------------------------------------------
// Wizard answers
// ---------------------------------------------------------------------------

/// `s`, trimmed, unless blank.
pub fn opt(s: String) -> (r: Option<String>)
    ensures
        opt_view(r) == non_empty_of(Some(s@)),
{
    non_empty(&Some(s))
}

pub open spec fn is_one_of(s: Seq<char>, words: Seq<Seq<char>>) -> bool {
    words.contains(s)
}

fn word_in(v: &[char], words: &Vec<&str>) -> (r: bool)
    ensures
        r == Seq::new(words@.len(), |i: int| words@[i]@).contains(v@),
{
    let ghost ws = Seq::new(words@.len(), |i: int| words@[i]@);
    let mut i: usize = 0;
    while i < words.len()
        invariant
            i <= words@.len(),
            ws == Seq::new(words@.len(), |i: int| words@[i]@),
            forall|k: int| 0 <= k < i ==> ws[k] != v@,
        decreases words@.len() - i,
    {
        let w = to_chars(words[i]);
        if crate::text::chars_eq(v, w.as_slice()) {
            assert(ws[i as int] == v@);
            return true;
        }
        i = i + 1;
    }
    false
}

pub open spec fn integrated_words() -> Seq<Seq<char>> {
    seq!["integrated"@, "i"@, "一体"@, "存算一体"@]
}

pub open spec fn separated_words() -> Seq<Seq<char>> {
    seq!["separated"@, "s"@, "分离"@, "存算分离"@, "cloud"@]
}

/// The architecture answered at the wizard prompt.
pub fn parse_architecture(raw: &str) -> (r: Result<DeployArchitecture, String>)
    ensures
        is_one_of(lower(trim(raw@)), integrated_words()) ==> r == Ok::<DeployArchitecture, String>(
            DeployArchitecture::Integrated,
        ),
        !is_one_of(lower(trim(raw@)), integrated_words()) && is_one_of(
            lower(trim(raw@)),
            separated_words(),
        ) ==> r == Ok::<DeployArchitecture, String>(DeployArchitecture::Separated),
        !is_one_of(lower(trim(raw@)), integrated_words()) && !is_one_of(
            lower(trim(raw@)),
            separated_words(),
        ) ==> (r matches Err(m) && m@ == "unknown architecture '"@ + lower(trim(raw@))
            + "'; use integrated or separated"@),
{
    let rc = to_chars(raw);
    let t = trim_chars(rc.as_slice());
    let v = to_lower(t.as_slice());
    let iw: Vec<&str> = vec!["integrated", "i", "一体", "存算一体"];
    let sw: Vec<&str> = vec!["separated", "s", "分离", "存算分离", "cloud"];
    assert(Seq::new(iw@.len(), |i: int| iw@[i]@) =~= integrated_words());
    assert(Seq::new(sw@.len(), |i: int| sw@[i]@) =~= separated_words());
    if word_in(v.as_slice(), &iw) {
        Ok(DeployArchitecture::Integrated)
    } else if word_in(v.as_slice(), &sw) {
        Ok(DeployArchitecture::Separated)
    } else {
        let mut m = owned("unknown architecture '");
        let vs = from_chars(v.as_slice());
        push_str(&mut m, vs.as_str());
        push_str(&mut m, "'; use integrated or separated");
        Err(m)
    }
}

pub open spec fn manual_words() -> Seq<Seq<char>> {
    seq!["manual"@, "m"@, "手动"@]
}

pub open spec fn kubernetes_words() -> Seq<Seq<char>> {
    seq!["kubernetes"@, "k8s"@, "k"@]
}

pub open spec fn cloud_words() -> Seq<Seq<char>> {
    seq!["cloud"@, "c"@, "云"@]
}

/// The deploy method answered at the wizard prompt.
pub fn parse_method(raw: &str) -> (r: Result<DeployMethod, String>)
    ensures
        is_one_of(lower(trim(raw@)), manual_words()) ==> r == Ok::<DeployMethod, String>(
            DeployMethod::Manual,
        ),
        !is_one_of(lower(trim(raw@)), manual_words()) && is_one_of(
            lower(trim(raw@)),
            kubernetes_words(),
        ) ==> r == Ok::<DeployMethod, String>(DeployMethod::Kubernetes),
        !is_one_of(lower(trim(raw@)), manual_words()) && !is_one_of(
            lower(trim(raw@)),
            kubernetes_words(),
        ) && is_one_of(lower(trim(raw@)), cloud_words()) ==> r == Ok::<DeployMethod, String>(
            DeployMethod::Cloud,
        ),
        !is_one_of(lower(trim(raw@)), manual_words()) && !is_one_of(
            lower(trim(raw@)),
            kubernetes_words(),
        ) && !is_one_of(lower(trim(raw@)), cloud_words()) ==> (r matches Err(m) && m@
            == "unknown method '"@ + lower(trim(raw@)) + "'; use manual, kubernetes, or cloud"@),
{
    let rc = to_chars(raw);
    let t = trim_chars(rc.as_slice());
    let v = to_lower(t.as_slice());
    let mw: Vec<&str> = vec!["manual", "m", "手动"];
    let kw: Vec<&str> = vec!["kubernetes", "k8s", "k"];
    let cw: Vec<&str> = vec!["cloud", "c", "云"];
    assert(Seq::new(mw@.len(), |i: int| mw@[i]@) =~= manual_words());
    assert(Seq::new(kw@.len(), |i: int| kw@[i]@) =~= kubernetes_words());
    assert(Seq::new(cw@.len(), |i: int| cw@[i]@) =~= cloud_words());
    if word_in(v.as_slice(), &mw) {
        Ok(DeployMethod::Manual)
    } else if word_in(v.as_slice(), &kw) {
        Ok(DeployMethod::Kubernetes)
    } else if word_in(v.as_slice(), &cw) {
        Ok(DeployMethod::Cloud)
    } else {
        let mut m = owned("unknown method '");
        let vs = from_chars(v.as_slice());
        push_str(&mut m, vs.as_str());
        push_str(&mut m, "'; use manual, kubernetes, or cloud");
        Err(m)
    }
}

/// A yes answer: `y` or `yes`, ASCII case ignored.
pub fn answer_is_yes(raw: &str) -> (r: bool)
    ensures
        r == (lower(raw@) == "y"@ || lower(raw@) == "yes"@),
{
    let rc = to_chars(raw);
    let v = to_lower(rc.as_slice());
    let y = to_chars("y");
    let yes = to_chars("yes");
    crate::text::chars_eq(v.as_slice(), y.as_slice()) || crate::text::chars_eq(
        v.as_slice(),
        yes.as_slice(),
    )
}

/// The `cluster_id` answer: none when blank, else the answer read as `i64`.
pub fn parse_cluster_id(raw: &str) -> (r: Result<Option<i64>, String>)
    ensures
        trim(raw@).len() == 0 ==> r == Ok::<Option<i64>, String>(None),
        trim(raw@).len() > 0 ==> match crate::text::parse_i64(raw@) {
            Some(v) => r == Ok::<Option<i64>, String>(Some(v as i64)),
            None => r matches Err(m) && m@ == "cluster_id must be an integer"@,
        },
{
    let rc = to_chars(raw);
    let t = trim_chars(rc.as_slice());
    if t.len() == 0 {
        return Ok(None);
    }
    match crate::text::parse_i64_chars(rc.as_slice()) {
        Some(v) => Ok(Some(v)),
        None => Err(owned("cluster_id must be an integer")),
    }
}

/// The storage vault answered in the wizard: an S3 vault (type `s3`, ASCII
/// case ignored) gets `s3.endpoint` and, when given, `s3.bucket`; any other
/// type gets `fs.defaultFS`.
pub fn vault_from_answers(name: String, vault_type: String, endpoint: String, bucket: String) -> (r: StorageVaultConfig)
    ensures
        r.name@ == name@,
        r.vault_type@ == vault_type@,
        eq_ignore_case(vault_type@, "s3"@) ==> r.properties@ == if bucket@.len() > 0 {
            map!["s3.endpoint"@ => endpoint@, "s3.bucket"@ => bucket@]
        } else {
            map!["s3.endpoint"@ => endpoint@]
        },
        !eq_ignore_case(vault_type@, "s3"@) ==> r.properties@ == map!["fs.defaultFS"@ => endpoint@],
{
    let mut properties: StrMap<String> = StrMap::new();
    let tc = to_chars(vault_type.as_str());
    if eq_ignore_ascii_case_str(tc.as_slice(), "s3") {
        properties.insert(owned("s3.endpoint"), endpoint);
        if bucket.unicode_len() > 0 {
            properties.insert(owned("s3.bucket"), bucket);
        }
    } else {
        properties.insert(owned("fs.defaultFS"), endpoint);
    }
    StorageVaultConfig { name, vault_type, properties }
}

/// The separated-mode section answered in the wizard.
pub fn separated_from_answers(
    meta_service_endpoint: String,
    meta_service_hosts: &str,
    cluster_id: Option<i64>,
    fdb_cluster: String,
    file_cache_path: String,
    storage_vault: Option<StorageVaultConfig>,
) -> (r: SeparatedDeployConfig)
    ensures
        r.cluster_id == cluster_id,
        r.meta_service_endpoint@ == meta_service_endpoint@,
        string_views(r.meta_service_hosts@) == host_names(meta_service_hosts@),
        opt_view(r.file_cache_path) == non_empty_of(Some(file_cache_path@)),
        opt_view(r.fdb_cluster) == non_empty_of(Some(fdb_cluster@)),
        r.storage_vault == storage_vault,
{
    SeparatedDeployConfig {
        cluster_id,
        meta_service_endpoint,
        meta_service_hosts: split_hosts(meta_service_hosts),
        file_cache_path: opt(file_cache_path),
        fdb_cluster: opt(fdb_cluster),
        storage_vault,
    }
}

/// A cluster id from a clock reading: the high bits shifted down, with the
/// low 15 bits kept, which is never negative.
pub open spec fn cluster_id_of(seed: u64) -> int {
    ((seed >> 15u64) | (seed & 0x7fffu64)) as int
}

pub fn cluster_id_from_seed(seed: u64) -> (r: i64)
    ensures
        r as int == cluster_id_of(seed),
        0 <= r,
{
    let hi = seed >> 15u64;
    let lo = seed & 0x7fffu64;
    let v = hi | lo;
    assert(hi | lo <= 0x1ffff_ffff_ffffu64) by (bit_vector)
        requires
            hi == seed >> 15u64,
            lo == seed & 0x7fffu64,
    ;
    v as i64
}

/// A fresh cluster id for separated mode, derived from the clock: the id
/// of some clock reading (nanoseconds since the epoch).
pub fn random_cluster_id() -> (r: i64)
    ensures
        exists|seed: u64| r as int == #[trigger] cluster_id_of(seed),
        0 <= r <= 0x1ffff_ffff_ffff,
{
    let seed = crate::clock::clock_nanos();
    let r = cluster_id_from_seed(seed);
    assert(((seed >> 15u64) | (seed & 0x7fffu64)) <= 0x1ffff_ffff_ffffu64) by (bit_vector);
    r
}

// ---------------------------------------------------------------------------
// deploy init
// ---------------------------------------------------------------------------

/// The FE hosts answered in the wizard; at least one is required.
pub fn init_fe_hosts(raw: &str) -> (r: Result<Vec<String>, String>)
    ensures
        r is Ok == (host_names(raw@).len() > 0),
        r matches Ok(v) ==> string_views(v@) == host_names(raw@),
        r matches Err(m) ==> m@ == "at least one FE host is required"@,
{
    let v = split_hosts(raw);
    if v.len() == 0 {
        return Err(owned("at least one FE host is required"));
    }
    Ok(v)
}

/// The question that picks the leader among several FE hosts.
pub fn leader_prompt(fe_hosts: &Vec<String>) -> (r: String)
    ensures
        r@ == "Which FE is the leader? ("@ + join(string_views(fe_hosts@), "/"@) + ")"@,
{
    let mut s = owned("Which FE is the leader? (");
    let j = join_strings(fe_hosts, "/");
    push_str(&mut s, j.as_str());
    push_str(&mut s, ")");
    s
}

/// The leader FE: the only host, or the answered one, which must be one of
/// the FE hosts.
pub fn choose_leader(fe_hosts: &Vec<String>, answer: &str) -> (r: Result<String, String>)
    requires
        fe_hosts@.len() > 0,
    ensures
        fe_hosts@.len() == 1 ==> (r matches Ok(l) && l@ == fe_hosts@[0]@),
        fe_hosts@.len() > 1 ==> (r is Ok == string_views(fe_hosts@).contains(answer@)),
        fe_hosts@.len() > 1 ==> (r matches Ok(l) ==> l@ == answer@),
        r matches Err(m) ==> m@ == "leader must be one of the FE hosts"@,
{
    if fe_hosts.len() == 1 {
        return Ok(fe_hosts[0].clone());
    }
    let ac = to_chars(answer);
    let mut i: usize = 0;
    while i < fe_hosts.len()
        invariant
            i <= fe_hosts@.len(),
            ac@ == answer@,
            forall|k: int| 0 <= k < i ==> string_views(fe_hosts@)[k] != answer@,
        decreases fe_hosts@.len() - i,
    {
        let hc = to_chars(fe_hosts[i].as_str());
        if crate::text::chars_eq(hc.as_slice(), ac.as_slice()) {
            assert(string_views(fe_hosts@)[i as int] == answer@);
            return Ok(owned(answer));
        }
        i = i + 1;
    }
    Err(owned("leader must be one of the FE hosts"))
}

/// FE nodes of the wizard: the leader host has role `leader`, every other
/// host `follower`.
pub open spec fn init_fe_nodes(hosts: Seq<Seq<char>>, leader: Seq<char>) -> Seq<crate::config::FeNodeView> {
    Seq::new(
        hosts.len(),
        |i: int|
            crate::config::FeNodeView {
                host: hosts[i],
                role: if hosts[i] == leader {
                    "leader"@
                } else {
                    "follower"@
                },
            },
    )
}

pub fn init_frontends(fe_hosts: &Vec<String>, leader: &str) -> (r: Vec<FeNode>)
    ensures
        crate::config::fe_views(r@) == init_fe_nodes(string_views(fe_hosts@), leader@),
{
    let lc = to_chars(leader);
    let ghost want = init_fe_nodes(string_views(fe_hosts@), leader@);
    let mut r: Vec<FeNode> = Vec::new();
    let mut i: usize = 0;
    while i < fe_hosts.len()
        invariant
            i <= fe_hosts@.len(),
            lc@ == leader@,
            want == init_fe_nodes(string_views(fe_hosts@), leader@),
            r@.len() == i,
            forall|k: int| 0 <= k < i ==> (#[trigger] r@[k])@ == want[k],
        decreases fe_hosts@.len() - i,
    {
        let hc = to_chars(fe_hosts[i].as_str());
        let role = if crate::text::chars_eq(hc.as_slice(), lc.as_slice()) {
            owned("leader")
        } else {
            owned("follower")
        };
        r.push(FeNode { host: fe_hosts[i].clone(), role });
        i = i + 1;
    }
    assert(crate::config::fe_views(r@) =~= want);
    r
}

/// BE nodes of the answered BE host list.
pub fn init_backends(raw: &str) -> (r: Vec<BeNode>)
    ensures
        crate::config::be_views(r@) == host_names(raw@),
{
    let hosts = split_hosts(raw);
    let mut r: Vec<BeNode> = Vec::new();
    let mut i: usize = 0;
    while i < hosts.len()
        invariant
            i <= hosts@.len(),
            string_views(hosts@) == host_names(raw@),
            r@.len() == i,
            forall|k: int| 0 <= k < i ==> (#[trigger] r@[k])@ == hosts@[k]@,
        decreases hosts@.len() - i,
    {
        r.push(BeNode { host: hosts[i].clone() });
        i = i + 1;
    }
    assert(crate::config::be_views(r@) =~= string_views(hosts@));
    r
}

/// Everything the `deploy init` wizard collected.
#[derive(Debug)]
pub struct InitAnswers {
    pub architecture: DeployArchitecture,
    pub method: DeployMethod,
    pub leader: String,
    pub frontends: Vec<FeNode>,
    pub backends: Vec<BeNode>,
    pub separated: Option<SeparatedDeployConfig>,
    pub install_dir: String,
    pub version: Option<String>,
    pub arch: Option<String>,
    pub package: Option<String>,
    pub java_home: String,
    pub priority_networks: String,
    pub ssh_user: String,
    pub ssh_key: String,
    pub fe_user: String,
    pub fe_password: String,
}

/// Write the wizard's answers into `cfg`: FE endpoint and credentials,
/// topology, SSH settings and the deploy section; a separated section
/// without a cluster id gets a fresh one.
pub fn apply_init(cfg: &mut Config, a: InitAnswers)
    ensures
        final(cfg).name == old(cfg).name,
        final(cfg).be == old(cfg).be,
        final(cfg).fe.host@ == a.leader@,
        final(cfg).fe.user@ == a.fe_user@,
        final(cfg).fe.password@ == a.fe_password@,
        final(cfg).fe.query_port == old(cfg).fe.query_port,
        final(cfg).fe.http_port == old(cfg).fe.http_port,
        final(cfg).fe.edit_log_port == old(cfg).fe.edit_log_port,
        final(cfg).topology matches Some(t) && t.frontends == a.frontends && t.backends
            == a.backends,
        final(cfg).ssh matches Some(s) && s.user == a.ssh_user && s.port == 22 && s.key == Some(
            a.ssh_key,
        ),
        final(cfg).deploy matches Some(d) && ({
            &&& d.architecture == a.architecture
            &&& d.method == a.method
            &&& d.version == a.version
            &&& d.arch == a.arch
            &&& d.install_dir == a.install_dir
            &&& d.package == a.package
            &&& opt_view(d.java_home) == non_empty_of(Some(a.java_home@))
            &&& d.meta_dir is None
            &&& d.be_storage is None
            &&& opt_view(d.priority_networks) == non_empty_of(Some(a.priority_networks@))
            &&& (a.separated is None <==> d.separated is None)
            &&& (a.separated matches Some(s) ==> (d.separated matches Some(t) && ({
                &&& t.meta_service_endpoint == s.meta_service_endpoint
                &&& t.meta_service_hosts == s.meta_service_hosts
                &&& t.file_cache_path == s.file_cache_path
                &&& t.fdb_cluster == s.fdb_cluster
                &&& t.storage_vault == s.storage_vault
                &&& s.cluster_id is Some ==> t.cluster_id == s.cluster_id
                &&& s.cluster_id is None ==> (t.cluster_id matches Some(id) && 0 <= id
                    <= 0x1ffff_ffff_ffff)
            })))
        }),
{
    let separated = match a.separated {
        Some(mut s) => {
            if s.cluster_id.is_none() {
                s.cluster_id = Some(random_cluster_id());
            }
            Some(s)
        },
        None => None,
    };
    cfg.fe.host = a.leader;
    cfg.fe.user = a.fe_user;
    cfg.fe.password = a.fe_password;
    cfg.topology = Some(Topology { frontends: a.frontends, backends: a.backends });
    cfg.ssh = Some(SshConfig { user: a.ssh_user, port: 22, key: Some(a.ssh_key) });
    cfg.deploy = Some(
        DeployConfig {
            architecture: a.architecture,
            method: a.method,
            version: a.version,
            arch: a.arch,
            install_dir: a.install_dir,
            package: a.package,
            java_home: opt(a.java_home),
            meta_dir: None,
            be_storage: None,
            priority_networks: opt(a.priority_networks),
            separated,
        },
    );
}

/// The warning of `deploy init` for a method dcli does not automate.
pub fn manual_only_warning(method: DeployMethod) -> (r: String)
    ensures
        r@ == "dcli only automates SSH manual deploy; for "@ + method_label(method) + " see "@
            + method_doc_url(method),
{
    let mut s = owned("dcli only automates SSH manual deploy; for ");
    push_str(&mut s, method.label());
    push_str(&mut s, " see ");
    push_str(&mut s, method.doc_url());
    s
}

pub open spec fn fe_hosts_of(t: Topology) -> Seq<Seq<char>> {
    Seq::new(t.frontends@.len(), |i: int| t.frontends@[i].host@)
}

/// The topology summary printed at the end of `deploy init`.
pub fn init_summary(leader: &str, topo: &Topology) -> (r: String)
    ensures
        r@ == "\nLeader FE: "@ + leader@ + "\nFEs: "@ + join(fe_hosts_of(*topo), ", "@) + "\nBEs: "@
            + join(crate::config::be_views(topo.backends@), ", "@) + "\n"@,
{
    let mut fes: Vec<String> = Vec::new();
    let mut i: usize = 0;
    while i < topo.frontends.len()
        invariant
            i <= topo.frontends@.len(),
            fes@.len() == i,
            forall|k: int| 0 <= k < i ==> (#[trigger] fes@[k])@ == topo.frontends@[k].host@,
        decreases topo.frontends@.len() - i,
    {
        fes.push(topo.frontends[i].host.clone());
        i = i + 1;
    }
    let mut bes: Vec<String> = Vec::new();
    let mut j: usize = 0;
    while j < topo.backends.len()
        invariant
            j <= topo.backends@.len(),
            bes@.len() == j,
            forall|k: int| 0 <= k < j ==> (#[trigger] bes@[k])@ == topo.backends@[k].host@,
        decreases topo.backends@.len() - j,
    {
        bes.push(topo.backends[j].host.clone());
        j = j + 1;
    }
    assert(string_views(fes@) =~= fe_hosts_of(*topo));
    assert(string_views(bes@) =~= crate::config::be_views(topo.backends@));
    let mut s = owned("\nLeader FE: ");
    push_str(&mut s, leader);
    push_str(&mut s, "\nFEs: ");
    let fj = join_strings(&fes, ", ");
    push_str(&mut s, fj.as_str());
    push_str(&mut s, "\nBEs: ");
    let bj = join_strings(&bes, ", ");
    push_str(&mut s, bj.as_str());
    push_str(&mut s, "\n");
    s
}

// ---------------------------------------------------------------------------
// deploy plan
// ---------------------------------------------------------------------------

/// One printed line of `deploy plan`; `warn` lines go out as warnings.
#[derive(Debug)]
pub struct PlanLine {
    pub warn: bool,
    pub text: String,
}

pub open spec fn plan_line_views(v: Seq<PlanLine>) -> Seq<(bool, Seq<char>)> {
    Seq::new(v.len(), |i: int| (v[i].warn, v[i].text@))
}

pub open spec fn opt_line(label: Seq<char>, v: Option<Seq<char>>) -> Seq<(bool, Seq<char>)> {
    match v {
        Some(x) => seq![(false, label + x)],
        None => Seq::empty(),
    }
}

pub open spec fn separated_steps() -> Seq<Seq<char>> {
    seq![
        "\n  Separated-mode prerequisites (manual, before bootstrap):"@,
        "    1. FoundationDB 7.1.x cluster"@,
        "    2. S3 or HDFS shared storage"@,
        "    3. Meta Service (doris_cloud) on port 5000"@,
        "    4. Optional: recycler process"@,
        "\n  Steps performed by `dcli deploy bootstrap` (after prerequisites):"@,
        "    1. precheck  — SSH detect + validate CPU/mem/JDK/sysctl/limits"@,
        "    2. install   — scp package, extract, render fe.conf/be.conf (deploy_mode=cloud)"@,
        "    3. start     — leader FE → follower/observer FEs → BEs"@,
        "    4. register  — ALTER SYSTEM ADD FOLLOWER/OBSERVER/BACKEND"@,
        "    5. vault     — CREATE STORAGE VAULT (if configured)"@,
    ]
}

pub open spec fn integrated_steps() -> Seq<Seq<char>> {
    seq![
        "\n  Steps performed by `dcli deploy bootstrap`:"@,
        "    1. precheck  — SSH detect + validate CPU/mem/JDK/sysctl/limits"@,
        "    2. install   — scp package, extract, render fe.conf/be.conf"@,
        "    3. start     — leader FE → follower/observer FEs (--helper) → BEs"@,
        "    4. register  — ALTER SYSTEM ADD FOLLOWER/OBSERVER/BACKEND"@,
    ]
}

pub open spec fn plain(lines: Seq<Seq<char>>) -> Seq<(bool, Seq<char>)> {
    Seq::new(lines.len(), |i: int| (false, lines[i]))
}

/// The topology part of the plan.
pub open spec fn topology_lines(t: Option<Topology>) -> Seq<(bool, Seq<char>)> {
    match t {
        Some(t) => {
            let fes = t.frontends@;
            let leader: Seq<(bool, Seq<char>)> = match leader_index(fes) {
                Some(l) => seq![(false, "\n  Leader FE: "@ + fes[l].host@)],
                None => Seq::empty(),
            };
            leader + Seq::new(
                fes.len(),
                |i: int| (false, "    FE "@ + fes[i].host@ + " ("@ + fes[i].role@ + ")"@),
            ) + Seq::new(t.backends@.len(), |i: int| (false, "    BE "@ + t.backends@[i].host@))
                + seq![(false, ""@)]
        },
        None => seq![(true, "no topology configured; run `dcli deploy init` first"@)],
    }
}

/// The separated-mode details and the step list of the plan.
pub open spec fn mode_lines(c: ConfigView) -> Seq<(bool, Seq<char>)> {
    if architecture_of(c) == DeployArchitecture::Separated {
        let details: Seq<(bool, Seq<char>)> = match crate::lifecycle::separated_of(c) {
            Some(s) => {
                let hosts: Seq<(bool, Seq<char>)> = if s.meta_service_hosts.len() > 0 {
                    seq![(false, "  ms hosts:     "@ + join(s.meta_service_hosts, ", "@))]
                } else {
                    Seq::empty()
                };
                let id: Seq<(bool, Seq<char>)> = match s.cluster_id {
                    Some(id) => seq![(false, "  cluster_id:   "@ + crate::text::int_dec(id as int))],
                    None => Seq::empty(),
                };
                seq![(false, "  meta_service: "@ + s.meta_service_endpoint)] + hosts + id
            },
            None => Seq::empty(),
        };
        details + plain(separated_steps())
    } else {
        plain(integrated_steps())
    }
}

/// The lines of `deploy plan` for a config.
pub open spec fn plan_of(cfg: Config) -> Seq<(bool, Seq<char>)> {
    let c = cfg@;
    let arch = architecture_of(c);
    let method = method_of(c);
    let head = seq![
        (false, "Deploy plan for cluster '"@ + c.name + "':\n"@),
        (false, "  architecture: "@ + architecture_label(arch) + "  ("@ + architecture_doc_url(arch) + ")"@),
        (false, "  method:       "@ + method_label(method) + "  ("@ + method_doc_url(method) + ")"@),
    ];
    let details = match c.deploy {
        Some(d) => opt_line("  version:      "@, d.version) + opt_line("  binary arch:  "@, d.arch)
            + opt_line("  package:      "@, d.package),
        None => Seq::empty(),
    };
    if method != DeployMethod::Manual {
        head + details + seq![
            (true, "dcli does not automate install/start for this method; use the official guide"@),
        ]
    } else {
        head + details + topology_lines(cfg.topology) + seq![
            (false, "  install_dir: "@ + crate::lifecycle::install_dir_of(c)),
        ] + mode_lines(c)
    }
}

fn push_line(out: &mut Vec<PlanLine>, warn: bool, text: String)
    ensures
        plan_line_views(final(out)@) == plan_line_views(old(out)@).push((warn, text@)),
{
    let ghost before = out@;
    out.push(PlanLine { warn, text });
    assert(plan_line_views(out@) =~= plan_line_views(before).push((warn, text@)));
}

fn text2(a: &str, b: &str) -> (r: String)
    ensures
        r@ == a@ + b@,
{
    let mut s = owned(a);
    push_str(&mut s, b);
    s
}

fn push_steps(out: &mut Vec<PlanLine>, separated: bool)
    ensures
        plan_line_views(final(out)@) == plan_line_views(old(out)@) + plain(
            if separated {
                separated_steps()
            } else {
                integrated_steps()
            },
        ),
{
    let ghost before = plan_line_views(out@);
    if separated {
        out.push(PlanLine { warn: false, text: owned("\n  Separated-mode prerequisites (manual, before bootstrap):") });
        out.push(PlanLine { warn: false, text: owned("    1. FoundationDB 7.1.x cluster") });
        out.push(PlanLine { warn: false, text: owned("    2. S3 or HDFS shared storage") });
        out.push(PlanLine { warn: false, text: owned("    3. Meta Service (doris_cloud) on port 5000") });
        out.push(PlanLine { warn: false, text: owned("    4. Optional: recycler process") });
        out.push(PlanLine { warn: false, text: owned("\n  Steps performed by `dcli deploy bootstrap` (after prerequisites):") });
        out.push(PlanLine { warn: false, text: owned("    1. precheck  — SSH detect + validate CPU/mem/JDK/sysctl/limits") });
        out.push(PlanLine { warn: false, text: owned("    2. install   — scp package, extract, render fe.conf/be.conf (deploy_mode=cloud)") });
        out.push(PlanLine { warn: false, text: owned("    3. start     — leader FE → follower/observer FEs → BEs") });
        out.push(PlanLine { warn: false, text: owned("    4. register  — ALTER SYSTEM ADD FOLLOWER/OBSERVER/BACKEND") });
        out.push(PlanLine { warn: false, text: owned("    5. vault     — CREATE STORAGE VAULT (if configured)") });
        assert(plan_line_views(out@) =~= before + plain(separated_steps()));
    } else {
        out.push(PlanLine { warn: false, text: owned("\n  Steps performed by `dcli deploy bootstrap`:") });
        out.push(PlanLine { warn: false, text: owned("    1. precheck  — SSH detect + validate CPU/mem/JDK/sysctl/limits") });
        out.push(PlanLine { warn: false, text: owned("    2. install   — scp package, extract, render fe.conf/be.conf") });
        out.push(PlanLine { warn: false, text: owned("    3. start     — leader FE → follower/observer FEs (--helper) → BEs") });
        out.push(PlanLine { warn: false, text: owned("    4. register  — ALTER SYSTEM ADD FOLLOWER/OBSERVER/BACKEND") });
        assert(plan_line_views(out@) =~= before + plain(integrated_steps()));
    }
}

fn push_topology_lines(out: &mut Vec<PlanLine>, topology: &Option<Topology>)
    ensures
        plan_line_views(final(out)@) == plan_line_views(old(out)@) + topology_lines(*topology),
{
    let ghost start = plan_line_views(out@);
    match topology {
        Some(topo) => {
            match topo.leader() {
                Some(l) => push_line(out, false, text2("\n  Leader FE: ", l.host.as_str())),
                None => {},
            }
            let ghost with_leader = plan_line_views(out@);
            let mut i: usize = 0;
            while i < topo.frontends.len()
                invariant
                    i <= topo.frontends@.len(),
                    plan_line_views(out@) == with_leader + Seq::new(
                        i as nat,
                        |k: int|
                            (
                                false,
                                "    FE "@ + topo.frontends@[k].host@ + " ("@ + topo.frontends@[k].role@
                                    + ")"@,
                            ),
                    ),
                decreases topo.frontends@.len() - i,
            {
                let f = &topo.frontends[i];
                let mut t = owned("    FE ");
                push_str(&mut t, f.host.as_str());
                push_str(&mut t, " (");
                push_str(&mut t, f.role.as_str());
                push_str(&mut t, ")");
                push_line(out, false, t);
                i = i + 1;
                assert(plan_line_views(out@) =~= with_leader + Seq::new(
                    i as nat,
                    |k: int|
                        (
                            false,
                            "    FE "@ + topo.frontends@[k].host@ + " ("@ + topo.frontends@[k].role@
                                + ")"@,
                        ),
                ));
            }
            let ghost with_fes = plan_line_views(out@);
            let mut j: usize = 0;
            while j < topo.backends.len()
                invariant
                    j <= topo.backends@.len(),
                    plan_line_views(out@) == with_fes + Seq::new(
                        j as nat,
                        |k: int| (false, "    BE "@ + topo.backends@[k].host@),
                    ),
                decreases topo.backends@.len() - j,
            {
                let t = text2("    BE ", topo.backends[j].host.as_str());
                push_line(out, false, t);
                j = j + 1;
                assert(plan_line_views(out@) =~= with_fes + Seq::new(
                    j as nat,
                    |k: int| (false, "    BE "@ + topo.backends@[k].host@),
                ));
            }
            push_line(out, false, owned(""));
            assert(plan_line_views(out@) =~= start + topology_lines(*topology));
        },
        None => {
            push_line(out, true, owned("no topology configured; run `dcli deploy init` first"));
            assert(plan_line_views(out@) =~= start + topology_lines(*topology));
        },
    }
}

fn push_mode_lines(out: &mut Vec<PlanLine>, cfg: &Config)
    ensures
        plan_line_views(final(out)@) == plan_line_views(old(out)@) + mode_lines(cfg@),
{
    let ghost start = plan_line_views(out@);
    let arch = match &cfg.deploy {
        Some(d) => d.architecture,
        None => DeployArchitecture::default(),
    };
    if arch == DeployArchitecture::Separated {
        match &cfg.deploy {
            Some(d) => match &d.separated {
                Some(sep) => {
                    push_line(
                        out,
                        false,
                        text2("  meta_service: ", sep.meta_service_endpoint.as_str()),
                    );
                    if sep.meta_service_hosts.len() > 0 {
                        let j = join_strings(&sep.meta_service_hosts, ", ");
                        push_line(out, false, text2("  ms hosts:     ", j.as_str()));
                    }
                    match sep.cluster_id {
                        Some(id) => {
                            let mut t = owned("  cluster_id:   ");
                            push_i64(&mut t, id);
                            push_line(out, false, t);
                        },
                        None => {},
                    }
                },
                None => {},
            },
            None => {},
        }
        push_steps(out, true);
        assert(plan_line_views(out@) =~= start + mode_lines(cfg@));
    } else {
        push_steps(out, false);
        assert(plan_line_views(out@) =~= start + mode_lines(cfg@));
    }
}

fn push_plan_head(out: &mut Vec<PlanLine>, cfg: &Config)
    requires
        old(out)@.len() == 0,
    ensures
        plan_line_views(final(out)@) == ({
            let c = cfg@;
            let arch = architecture_of(c);
            let method = method_of(c);
            seq![
                (false, "Deploy plan for cluster '"@ + c.name + "':\n"@),
                (false, "  architecture: "@ + architecture_label(arch) + "  ("@ + architecture_doc_url(arch) + ")"@),
                (false, "  method:       "@ + method_label(method) + "  ("@ + method_doc_url(method) + ")"@),
            ] + match c.deploy {
                Some(d) => opt_line("  version:      "@, d.version) + opt_line("  binary arch:  "@, d.arch)
                    + opt_line("  package:      "@, d.package),
                None => Seq::empty(),
            }
        }),
{
    let (arch, method) = match &cfg.deploy {
        Some(d) => (d.architecture, d.method),
        None => (DeployArchitecture::default(), DeployMethod::default()),
    };
    let mut l1 = owned("Deploy plan for cluster '");
    push_str(&mut l1, cfg.name.as_str());
    push_str(&mut l1, "':\n");
    push_line(out, false, l1);
    let mut l2 = owned("  architecture: ");
    push_str(&mut l2, arch.label());
    push_str(&mut l2, "  (");
    push_str(&mut l2, arch.doc_url());
    push_str(&mut l2, ")");
    push_line(out, false, l2);
    let mut l3 = owned("  method:       ");
    push_str(&mut l3, method.label());
    push_str(&mut l3, "  (");
    push_str(&mut l3, method.doc_url());
    push_str(&mut l3, ")");
    push_line(out, false, l3);
    let ghost head = plan_line_views(out@);
    match &cfg.deploy {
        Some(d) => {
            match &d.version {
                Some(v) => push_line(out, false, text2("  version:      ", v.as_str())),
                None => {},
            }
            match &d.arch {
                Some(a) => push_line(out, false, text2("  binary arch:  ", a.as_str())),
                None => {},
            }
            match &d.package {
                Some(p) => push_line(out, false, text2("  package:      ", p.as_str())),
                None => {},
            }
            assert(plan_line_views(out@) =~= head + opt_line("  version:      "@, opt_view(d.version))
                + opt_line("  binary arch:  "@, opt_view(d.arch)) + opt_line(
                "  package:      "@,
                opt_view(d.package),
            ));
        },
        None => {
            assert(plan_line_views(out@) =~= head + Seq::<(bool, Seq<char>)>::empty());
        },
    }
}

/// The lines that `deploy plan` prints for `cfg`.
pub fn plan_lines(cfg: &Config) -> (r: Vec<PlanLine>)
    ensures
        plan_line_views(r@) == plan_of(*cfg),
{
    let mut out: Vec<PlanLine> = Vec::new();
    push_plan_head(&mut out, cfg);
    let method = match &cfg.deploy {
        Some(d) => d.method,
        None => DeployMethod::default(),
    };
    if !method.dcli_automated() {
        push_line(
            &mut out,
            true,
            owned("dcli does not automate install/start for this method; use the official guide"),
        );
        return out;
    }
    push_topology_lines(&mut out, &cfg.topology);
    let install = match &cfg.deploy {
        Some(d) => d.install_dir.clone(),
        None => owned("/opt/doris"),
    };
    push_line(&mut out, false, text2("  install_dir: ", install.as_str()));
    push_mode_lines(&mut out, cfg);
    out
}

} // verus!
