//! Cluster configuration model: FE/BE endpoints, SSH access, deploy settings
//! and topology, with the defaults that a missing YAML field takes.
use vstd::prelude::*;

use crate::strmap::{lex_lt, StrMap};
use crate::text::{eq_ignore_ascii_case_str, eq_ignore_case, owned, string_views, to_chars};

verus! {

/// Storage-compute architecture.
#[derive(Debug, Clone, Copy, PartialEq, Eq, Structural)]
pub enum DeployArchitecture {
    /// Integrated storage-compute (FE + BE on local disks).
    Integrated,
    /// Separated storage-compute (cloud mode: Meta Service + shared storage).
    Separated,
}

/// How the cluster is operated. Only `Manual` is automated by dcli.
#[derive(Debug, Clone, Copy, PartialEq, Eq, Structural)]
pub enum DeployMethod {
    Manual,
    Kubernetes,
    Cloud,
}

impl Default for DeployArchitecture {
    fn default() -> (r: Self)
        ensures
            r == DeployArchitecture::Integrated,
    {
        DeployArchitecture::Integrated
    }
}

impl Default for DeployMethod {
    fn default() -> (r: Self)
        ensures
            r == DeployMethod::Manual,
    {
        DeployMethod::Manual
    }
}

pub open spec fn architecture_label(a: DeployArchitecture) -> Seq<char> {
    match a {
        DeployArchitecture::Integrated => "integrated (存算一体)"@,
        DeployArchitecture::Separated => "separated (存算分离)"@,
    }
}

pub open spec fn architecture_doc_url(a: DeployArchitecture) -> Seq<char> {
    match a {
        DeployArchitecture::Integrated => "https://doris.apache.org/zh-CN/docs/4.x/install/deploy-manually/integrated-storage-compute-deploy-manually"@,
        DeployArchitecture::Separated => "https://doris.apache.org/zh-CN/docs/4.x/install/deploy-manually/separating-storage-compute-deploy-manually"@,
    }
}

pub open spec fn method_label(m: DeployMethod) -> Seq<char> {
    match m {
        DeployMethod::Manual => "manual (手动部署)"@,
        DeployMethod::Kubernetes => "kubernetes (Doris Operator)"@,
        DeployMethod::Cloud => "cloud (云平台)"@,
    }
}

pub open spec fn method_doc_url(m: DeployMethod) -> Seq<char> {
    match m {
        DeployMethod::Manual => "https://doris.apache.org/zh-CN/docs/4.x/install/deploy-manually/intro"@,
        DeployMethod::Kubernetes => "https://doris.apache.org/zh-CN/docs/4.x/install/deploy-on-kubernetes/intro"@,
        DeployMethod::Cloud => "https://doris.apache.org/zh-CN/docs/4.x/install/deploy-on-cloud/intro"@,
    }
}

impl DeployArchitecture {
    pub fn label(&self) -> (r: &'static str)
        ensures
            r@ == architecture_label(*self),
    {
        match self {
            DeployArchitecture::Integrated => "integrated (存算一体)",
            DeployArchitecture::Separated => "separated (存算分离)",
        }
    }

    pub fn doc_url(&self) -> (r: &'static str)
        ensures
            r@ == architecture_doc_url(*self),
    {
        match self {
            DeployArchitecture::Integrated => "https://doris.apache.org/zh-CN/docs/4.x/install/deploy-manually/integrated-storage-compute-deploy-manually",
            DeployArchitecture::Separated => "https://doris.apache.org/zh-CN/docs/4.x/install/deploy-manually/separating-storage-compute-deploy-manually",
        }
    }
}

impl DeployMethod {
    pub fn label(&self) -> (r: &'static str)
        ensures
            r@ == method_label(*self),
    {
        match self {
            DeployMethod::Manual => "manual (手动部署)",
            DeployMethod::Kubernetes => "kubernetes (Doris Operator)",
            DeployMethod::Cloud => "cloud (云平台)",
        }
    }

    pub fn doc_url(&self) -> (r: &'static str)
        ensures
            r@ == method_doc_url(*self),
    {
        match self {
            DeployMethod::Manual => "https://doris.apache.org/zh-CN/docs/4.x/install/deploy-manually/intro",
            DeployMethod::Kubernetes => "https://doris.apache.org/zh-CN/docs/4.x/install/deploy-on-kubernetes/intro",
            DeployMethod::Cloud => "https://doris.apache.org/zh-CN/docs/4.x/install/deploy-on-cloud/intro",
        }
    }

    /// Only the manual (SSH) method is automated by dcli.
    pub fn dcli_automated(&self) -> (r: bool)
        ensures
            r == (*self == DeployMethod::Manual),
    {
        match self {
            DeployMethod::Manual => true,
            _ => false,
        }
    }
}

/// The view of an optional string.
pub open spec fn opt_view(o: Option<String>) -> Option<Seq<char>> {
    match o {
        Some(s) => Some(s@),
        None => None,
    }
}

pub fn clone_opt_string(o: &Option<String>) -> (r: Option<String>)
    ensures
        opt_view(r) == opt_view(*o),
{
    match o {
        Some(s) => Some(s.clone()),
        None => None,
    }
}

pub fn clone_strings(v: &Vec<String>) -> (r: Vec<String>)
    ensures
        string_views(r@) == string_views(v@),
{
    let r = v.clone();
    assert(string_views(r@) =~= string_views(v@));
    r
}

// ---------------------------------------------------------------------------
// Topology
// ---------------------------------------------------------------------------

#[derive(Debug)]
pub struct FeNode {
    pub host: String,
    /// One of: leader | follower | observer.
    pub role: String,
}

pub ghost struct FeNodeView {
    pub host: Seq<char>,
    pub role: Seq<char>,
}

impl View for FeNode {
    type V = FeNodeView;

    open spec fn view(&self) -> FeNodeView {
        FeNodeView { host: self.host@, role: self.role@ }
    }
}

impl Clone for FeNode {
    fn clone(&self) -> (r: Self)
        ensures
            r@ == self@,
    {
        FeNode { host: self.host.clone(), role: self.role.clone() }
    }
}

#[derive(Debug)]
pub struct BeNode {
    pub host: String,
}

impl View for BeNode {
    type V = Seq<char>;

    open spec fn view(&self) -> Seq<char> {
        self.host@
    }
}

impl Clone for BeNode {
    fn clone(&self) -> (r: Self)
        ensures
            r@ == self@,
    {
        BeNode { host: self.host.clone() }
    }
}

#[derive(Debug)]
pub struct Topology {
    pub frontends: Vec<FeNode>,
    pub backends: Vec<BeNode>,
}

pub ghost struct TopologyView {
    pub frontends: Seq<FeNodeView>,
    pub backends: Seq<Seq<char>>,
}

pub open spec fn fe_views(v: Seq<FeNode>) -> Seq<FeNodeView> {
    Seq::new(v.len(), |i: int| v[i]@)
}

pub open spec fn be_views(v: Seq<BeNode>) -> Seq<Seq<char>> {
    Seq::new(v.len(), |i: int| v[i]@)
}

impl View for Topology {
    type V = TopologyView;

    open spec fn view(&self) -> TopologyView {
        TopologyView { frontends: fe_views(self.frontends@), backends: be_views(self.backends@) }
    }
}

impl Clone for Topology {
    fn clone(&self) -> (r: Self)
        ensures
            r@ == self@,
    {
        let frontends = self.frontends.clone();
        let backends = self.backends.clone();
        assert(fe_views(frontends@) =~= fe_views(self.frontends@));
        assert(be_views(backends@) =~= be_views(self.backends@));
        Topology { frontends, backends }
    }
}

/// Index of the leader FE: the first whose role is `leader` (ASCII case
/// ignored), else the first frontend; none when there are no frontends.
pub open spec fn leader_from(fes: Seq<FeNode>, i: int) -> Option<int>
    decreases fes.len() - i,
{
    if i >= fes.len() {
        None
    } else if eq_ignore_case(fes[i].role@, "leader"@) {
        Some(i)
    } else {
        leader_from(fes, i + 1)
    }
}

pub open spec fn leader_index(fes: Seq<FeNode>) -> Option<int> {
    match leader_from(fes, 0) {
        Some(i) => Some(i),
        None => if fes.len() > 0 {
            Some(0)
        } else {
            None
        },
    }
}

pub proof fn lemma_leader_from_bounds(fes: Seq<FeNode>, i: int)
    requires
        0 <= i,
    ensures
        leader_from(fes, i) matches Some(k) ==> i <= k < fes.len() && eq_ignore_case(
            fes[k].role@,
            "leader"@,
        ) && forall|j: int| i <= j < k ==> !eq_ignore_case(fes[j].role@, "leader"@),
        leader_from(fes, i) is None ==> forall|j: int|
            i <= j < fes.len() ==> !eq_ignore_case(fes[j].role@, "leader"@),
    decreases fes.len() - i,
{
    if i < fes.len() && !eq_ignore_case(fes[i].role@, "leader"@) {
        lemma_leader_from_bounds(fes, i + 1);
    }
}

/// The frontends whose host differs from `h`, in order.
pub open spec fn fes_without_host(fes: Seq<FeNode>, h: Seq<char>) -> Seq<FeNode>
    decreases fes.len(),
{
    if fes.len() == 0 {
        Seq::empty()
    } else if fes.last().host@ != h {
        fes_without_host(fes.drop_last(), h).push(fes.last())
    } else {
        fes_without_host(fes.drop_last(), h)
    }
}

/// All hosts of the topology, frontends first, then backends.
pub open spec fn topology_hosts(t: Topology) -> Seq<Seq<char>> {
    Seq::new(t.frontends@.len(), |i: int| t.frontends@[i].host@) + be_views(t.backends@)
}

impl Topology {
    pub fn new() -> (r: Self)
        ensures
            r.frontends@.len() == 0,
            r.backends@.len() == 0,
    {
        Topology { frontends: Vec::new(), backends: Vec::new() }
    }

    /// The designated leader FE, falling back to the first frontend.
    pub fn leader(&self) -> (r: Option<&FeNode>)
        ensures
            r is Some == leader_index(self.frontends@) is Some,
            r matches Some(f) ==> *f == self.frontends@[leader_index(self.frontends@)->0],
    {
        let mut i: usize = 0;
        while i < self.frontends.len()
            invariant
                i <= self.frontends@.len(),
                leader_from(self.frontends@, 0) == leader_from(self.frontends@, i as int),
            decreases self.frontends@.len() - i,
        {
            let role = to_chars(self.frontends[i].role.as_str());
            if eq_ignore_ascii_case_str(role.as_slice(), "leader") {
                return Some(&self.frontends[i]);
            }
            i = i + 1;
        }
        if self.frontends.len() > 0 {
            Some(&self.frontends[0])
        } else {
            None
        }
    }

    /// FEs that are not the leader (followers/observers): every frontend whose
    /// host differs from the leader's host.
    pub fn non_leader_fes(&self) -> (r: Vec<&FeNode>)
        ensures
            leader_index(self.frontends@) is None ==> r@.len() == 0,
            leader_index(self.frontends@) matches Some(l) ==> r@.map_values(|f: &FeNode| *f)
                == fes_without_host(self.frontends@, self.frontends@[l].host@),
    {
        let leader = self.leader();
        let mut r: Vec<&FeNode> = Vec::new();
        match leader {
            None => {
                proof {
                    lemma_leader_from_bounds(self.frontends@, 0);
                }
                r
            },
            Some(l) => {
                let lh = to_chars(l.host.as_str());
                let ghost h = l.host@;
                let mut i: usize = 0;
                while i < self.frontends.len()
                    invariant
                        i <= self.frontends@.len(),
                        lh@ == h,
                        r@.map_values(|f: &FeNode| *f) == fes_without_host(
                            self.frontends@.subrange(0, i as int),
                            h,
                        ),
                    decreases self.frontends@.len() - i,
                {
                    let f = &self.frontends[i];
                    let fh = to_chars(f.host.as_str());
                    let ghost before = r@;
                    let ghost pre = self.frontends@.subrange(0, i as int);
                    let ghost cur = self.frontends@.subrange(0, i + 1);
                    assert(cur.drop_last() =~= pre);
                    assert(cur.last() == *f);
                    if !crate::text::chars_eq(fh.as_slice(), lh.as_slice()) {
                        r.push(f);
                        assert(r@.map_values(|f: &FeNode| *f) =~= before.map_values(
                            |f: &FeNode| *f,
                        ).push(*f));
                    }
                    i = i + 1;
                }
                assert(self.frontends@.subrange(0, i as int) =~= self.frontends@);
                r
            },
        }
    }

    /// All unique hosts in the topology, in ascending order.
    pub fn all_hosts(&self) -> (r: Vec<String>)
        ensures
            forall|i: int, j: int|
                0 <= i < j < r@.len() ==> lex_lt(#[trigger] r@[i]@, #[trigger] r@[j]@),
            forall|h: Seq<char>|
                string_views(r@).contains(h) <==> topology_hosts(*self).contains(h),
    {
        let mut set: StrMap<()> = StrMap::new();
        let ghost all = topology_hosts(*self);
        let nf = self.frontends.len();
        let mut i: usize = 0;
        while i < nf
            invariant
                nf == self.frontends@.len(),
                i <= nf,
                all == topology_hosts(*self),
                forall|h: Seq<char>| set@.contains_key(h) <==> all.subrange(0, i as int).contains(h),
            decreases nf - i,
        {
            let h = self.frontends[i].host.clone();
            proof {
                assert(all[i as int] == h@);
            }
            set.insert(h, ());
            i = i + 1;
            assert forall|x: Seq<char>| set@.contains_key(x) <==> all.subrange(0, i as int).contains(
                x,
            ) by {
                assert(all.subrange(0, i as int) =~= all.subrange(0, i - 1).push(all[i - 1]));
                crate::strmap::lemma_push_contains(all.subrange(0, i - 1), all[i - 1], x);
            }
        }
        let nb = self.backends.len();
        let mut j: usize = 0;
        while j < nb
            invariant
                nf == self.frontends@.len(),
                nb == self.backends@.len(),
                j <= nb,
                all == topology_hosts(*self),
                all.len() == nf + nb,
                forall|h: Seq<char>| set@.contains_key(h) <==> all.subrange(0, nf + j).contains(h),
            decreases nb - j,
        {
            let h = self.backends[j].host.clone();
            proof {
                assert(all[nf + j] == h@);
            }
            set.insert(h, ());
            j = j + 1;
            assert forall|x: Seq<char>| set@.contains_key(x) <==> all.subrange(0, nf + j).contains(
                x,
            ) by {
                assert(all.subrange(0, nf + j) =~= all.subrange(0, nf + j - 1).push(
                    all[nf + j - 1],
                ));
                crate::strmap::lemma_push_contains(all.subrange(0, nf + j - 1), all[nf + j - 1], x);
            }
        }
        assert(all.subrange(0, nf + nb) =~= all);
        let r = set.keys();
        proof {
            use_type_invariant(&set);
            set.lemma_keys();
            assert forall|a: int, b: int| 0 <= a < b < r@.len() implies lex_lt(
                #[trigger] r@[a]@,
                #[trigger] r@[b]@,
            ) by {
                assert(r@[a]@ == set.keys_in_order()[a]);
                assert(r@[b]@ == set.keys_in_order()[b]);
            }
        }
        r
    }
}

// ---------------------------------------------------------------------------
// FE / BE / SSH / deploy settings
// ---------------------------------------------------------------------------

#[derive(Debug)]
pub struct FeConfig {
    /// FE host used for the MySQL/query connection.
    pub host: String,
    /// MySQL protocol query port (default 9030).
    pub query_port: u16,
    /// FE HTTP port (default 8030).
    pub http_port: u16,
    /// FE edit-log port, needed when adding follower/observer FEs (default 9010).
    pub edit_log_port: u16,
    pub user: String,
    pub password: String,
}

pub ghost struct FeConfigView {
    pub host: Seq<char>,
    pub query_port: u16,
    pub http_port: u16,
    pub edit_log_port: u16,
    pub user: Seq<char>,
    pub password: Seq<char>,
}

impl View for FeConfig {
    type V = FeConfigView;

    open spec fn view(&self) -> FeConfigView {
        FeConfigView {
            host: self.host@,
            query_port: self.query_port,
            http_port: self.http_port,
            edit_log_port: self.edit_log_port,
            user: self.user@,
            password: self.password@,
        }
    }
}

impl Clone for FeConfig {
    fn clone(&self) -> (r: Self)
        ensures
            r@ == self@,
    {
        FeConfig {
            host: self.host.clone(),
            query_port: self.query_port,
            http_port: self.http_port,
            edit_log_port: self.edit_log_port,
            user: self.user.clone(),
            password: self.password.clone(),
        }
    }
}

#[derive(Debug, Clone, Copy, PartialEq, Eq, Structural)]
pub struct BeConfig {
    /// BE heartbeat service port, used in ADD/DROP BACKEND (default 9050).
    pub heartbeat_port: u16,
    /// BE HTTP/webserver port (default 8040).
    pub http_port: u16,
}

impl Default for BeConfig {
    fn default() -> (r: Self)
        ensures
            r.heartbeat_port == 9050,
            r.http_port == 8040,
    {
        BeConfig { heartbeat_port: default_heartbeat_port(), http_port: default_be_http_port() }
    }
}

#[derive(Debug)]
pub struct SshConfig {
    pub user: String,
    pub port: u16,
    /// Path to the private key; the system ssh agent/defaults are used if unset.
    pub key: Option<String>,
}

pub ghost struct SshConfigView {
    pub user: Seq<char>,
    pub port: u16,
    pub key: Option<Seq<char>>,
}

impl View for SshConfig {
    type V = SshConfigView;

    open spec fn view(&self) -> SshConfigView {
        SshConfigView { user: self.user@, port: self.port, key: opt_view(self.key) }
    }
}

impl Clone for SshConfig {
    fn clone(&self) -> (r: Self)
        ensures
            r@ == self@,
    {
        SshConfig { user: self.user.clone(), port: self.port, key: clone_opt_string(&self.key) }
    }
}

#[derive(Debug)]
pub struct StorageVaultConfig {
    pub name: String,
    /// `S3` or `hdfs`.
    pub vault_type: String,
    pub properties: StrMap<String>,
}

pub ghost struct StorageVaultView {
    pub name: Seq<char>,
    pub vault_type: Seq<char>,
    pub properties: Map<Seq<char>, Seq<char>>,
}

impl View for StorageVaultConfig {
    type V = StorageVaultView;

    open spec fn view(&self) -> StorageVaultView {
        StorageVaultView {
            name: self.name@,
            vault_type: self.vault_type@,
            properties: self.properties@,
        }
    }
}

/// Copy a string map entry by entry.
pub fn clone_string_map(m: &StrMap<String>) -> (r: StrMap<String>)
    ensures
        r@ == m@,
{
    proof {
        use_type_invariant(m);
        m.lemma_keys();
    }
    let mut r: StrMap<String> = StrMap::new();
    let n = m.len();
    let mut i: usize = 0;
    while i < n
        invariant
            n == m.keys_in_order().len(),
            i <= n,
            forall|k: Seq<char>|
                r@.contains_key(k) <==> m.keys_in_order().subrange(0, i as int).contains(k),
            forall|k: Seq<char>| r@.contains_key(k) ==> r@[k] == m@[k],
            forall|k: Seq<char>| m@.contains_key(k) <==> m.keys_in_order().contains(k),
            forall|j: int|
                0 <= j < m.entry_seq().len() ==> #[trigger] m.entry_seq()[j].0@
                    == m.keys_in_order()[j] && m@[m.keys_in_order()[j]] == m.entry_seq()[j].1@,
            m.keys_in_order().len() == m.entry_seq().len(),
        decreases n - i,
    {
        let (k, v) = m.entry_at(i);
        assert(m.entry_seq()[i as int].0@ == m.keys_in_order()[i as int]);
        r.insert(k.clone(), v.clone());
        i = i + 1;
        assert forall|x: Seq<char>|
            r@.contains_key(x) <==> m.keys_in_order().subrange(0, i as int).contains(x) by {
            assert(m.keys_in_order().subrange(0, i as int) =~= m.keys_in_order().subrange(
                0,
                i - 1,
            ).push(m.keys_in_order()[i - 1]));
            crate::strmap::lemma_push_contains(
                m.keys_in_order().subrange(0, i - 1),
                m.keys_in_order()[i - 1],
                x,
            );
        }
    }
    assert(m.keys_in_order().subrange(0, n as int) =~= m.keys_in_order());
    assert(r@ =~= m@);
    r
}

impl Clone for StorageVaultConfig {
    fn clone(&self) -> (r: Self)
        ensures
            r@ == self@,
    {
        StorageVaultConfig {
            name: self.name.clone(),
            vault_type: self.vault_type.clone(),
            properties: clone_string_map(&self.properties),
        }
    }
}

/// Cloud / separated-mode settings.
#[derive(Debug)]
pub struct SeparatedDeployConfig {
    /// Unique cluster id (fe.conf `cluster_id`). Auto-generated if unset.
    pub cluster_id: Option<i64>,
    /// Meta Service endpoint(s), e.g. `10.0.0.1:5000` or a comma-separated list.
    pub meta_service_endpoint: String,
    /// Hosts that run Meta Service (for plan/status; optional).
    pub meta_service_hosts: Vec<String>,
    /// BE file_cache_path JSON for be.conf (separated mode).
    pub file_cache_path: Option<String>,
    /// FoundationDB cluster connection string (for precheck hints).
    pub fdb_cluster: Option<String>,
    /// Storage Vault to create after bootstrap (optional).
    pub storage_vault: Option<StorageVaultConfig>,
}

pub ghost struct SeparatedView {
    pub cluster_id: Option<i64>,
    pub meta_service_endpoint: Seq<char>,
    pub meta_service_hosts: Seq<Seq<char>>,
    pub file_cache_path: Option<Seq<char>>,
    pub fdb_cluster: Option<Seq<char>>,
    pub storage_vault: Option<StorageVaultView>,
}

pub open spec fn opt_vault_view(v: Option<StorageVaultConfig>) -> Option<StorageVaultView> {
    match v {
        Some(x) => Some(x@),
        None => None,
    }
}

impl View for SeparatedDeployConfig {
    type V = SeparatedView;

    open spec fn view(&self) -> SeparatedView {
        SeparatedView {
            cluster_id: self.cluster_id,
            meta_service_endpoint: self.meta_service_endpoint@,
            meta_service_hosts: string_views(self.meta_service_hosts@),
            file_cache_path: opt_view(self.file_cache_path),
            fdb_cluster: opt_view(self.fdb_cluster),
            storage_vault: opt_vault_view(self.storage_vault),
        }
    }
}

impl Clone for SeparatedDeployConfig {
    fn clone(&self) -> (r: Self)
        ensures
            r@ == self@,
    {
        let storage_vault = match &self.storage_vault {
            Some(v) => Some(v.clone()),
            None => None,
        };
        SeparatedDeployConfig {
            cluster_id: self.cluster_id,
            meta_service_endpoint: self.meta_service_endpoint.clone(),
            meta_service_hosts: clone_strings(&self.meta_service_hosts),
            file_cache_path: clone_opt_string(&self.file_cache_path),
            fdb_cluster: clone_opt_string(&self.fdb_cluster),
            storage_vault,
        }
    }
}

#[derive(Debug)]
pub struct DeployConfig {
    /// Integrated vs separated storage-compute architecture.
    pub architecture: DeployArchitecture,
    /// Manual vs Kubernetes vs cloud deployment method.
    pub method: DeployMethod,
    /// Doris release version (e.g. 4.1.1). Informational; package may override.
    pub version: Option<String>,
    /// Binary architecture: x64 | x64-noavx2 | arm64.
    pub arch: Option<String>,
    /// Base directory where Doris is installed on remote hosts.
    pub install_dir: String,
    /// Local path or http(s) URL to the Doris distribution tarball.
    pub package: Option<String>,
    /// JAVA_HOME exported before start scripts run.
    pub java_home: Option<String>,
    /// FE metadata dir; defaults to <install_dir>/fe/doris-meta on the remote.
    pub meta_dir: Option<String>,
    /// BE storage root path(s); defaults to <install_dir>/be/storage on the remote.
    pub be_storage: Option<String>,
    /// CIDR for priority_networks (recommended on multi-NIC hosts).
    pub priority_networks: Option<String>,
    /// Extra settings required for separated (cloud) mode.
    pub separated: Option<SeparatedDeployConfig>,
}

pub ghost struct DeployView {
    pub architecture: DeployArchitecture,
    pub method: DeployMethod,
    pub version: Option<Seq<char>>,
    pub arch: Option<Seq<char>>,
    pub install_dir: Seq<char>,
    pub package: Option<Seq<char>>,
    pub java_home: Option<Seq<char>>,
    pub meta_dir: Option<Seq<char>>,
    pub be_storage: Option<Seq<char>>,
    pub priority_networks: Option<Seq<char>>,
    pub separated: Option<SeparatedView>,
}

pub open spec fn opt_separated_view(v: Option<SeparatedDeployConfig>) -> Option<SeparatedView> {
    match v {
        Some(x) => Some(x@),
        None => None,
    }
}

impl View for DeployConfig {
    type V = DeployView;

    open spec fn view(&self) -> DeployView {
        DeployView {
            architecture: self.architecture,
            method: self.method,
            version: opt_view(self.version),
            arch: opt_view(self.arch),
            install_dir: self.install_dir@,
            package: opt_view(self.package),
            java_home: opt_view(self.java_home),
            meta_dir: opt_view(self.meta_dir),
            be_storage: opt_view(self.be_storage),
            priority_networks: opt_view(self.priority_networks),
            separated: opt_separated_view(self.separated),
        }
    }
}

impl Clone for DeployConfig {
    fn clone(&self) -> (r: Self)
        ensures
            r@ == self@,
    {
        let separated = match &self.separated {
            Some(v) => Some(v.clone()),
            None => None,
        };
        DeployConfig {
            architecture: self.architecture,
            method: self.method,
            version: clone_opt_string(&self.version),
            arch: clone_opt_string(&self.arch),
            install_dir: self.install_dir.clone(),
            package: clone_opt_string(&self.package),
            java_home: clone_opt_string(&self.java_home),
            meta_dir: clone_opt_string(&self.meta_dir),
            be_storage: clone_opt_string(&self.be_storage),
            priority_networks: clone_opt_string(&self.priority_networks),
            separated,
        }
    }
}

/// Top-level cluster configuration.
#[derive(Debug)]
pub struct Config {
    /// Logical cluster name (for display only).
    pub name: String,
    pub fe: FeConfig,
    pub be: BeConfig,
    pub ssh: Option<SshConfig>,
    pub deploy: Option<DeployConfig>,
    /// Cluster topology: which hosts are FE (and the leader) and which are BE.
    pub topology: Option<Topology>,
}

pub ghost struct ConfigView {
    pub name: Seq<char>,
    pub fe: FeConfigView,
    pub be: BeConfig,
    pub ssh: Option<SshConfigView>,
    pub deploy: Option<DeployView>,
    pub topology: Option<TopologyView>,
}

impl View for Config {
    type V = ConfigView;

    open spec fn view(&self) -> ConfigView {
        ConfigView {
            name: self.name@,
            fe: self.fe@,
            be: self.be,
            ssh: match self.ssh {
                Some(s) => Some(s@),
                None => None,
            },
            deploy: match self.deploy {
                Some(d) => Some(d@),
                None => None,
            },
            topology: match self.topology {
                Some(t) => Some(t@),
                None => None,
            },
        }
    }
}

impl Clone for Config {
    fn clone(&self) -> (r: Self)
        ensures
            r@ == self@,
    {
        let ssh = match &self.ssh {
            Some(s) => Some(s.clone()),
            None => None,
        };
        let deploy = match &self.deploy {
            Some(d) => Some(d.clone()),
            None => None,
        };
        let topology = match &self.topology {
            Some(t) => Some(t.clone()),
            None => None,
        };
        Config { name: self.name.clone(), fe: self.fe.clone(), be: self.be, ssh, deploy, topology }
    }
}

// ---------------------------------------------------------------------------
// Defaults of omitted YAML fields
// ---------------------------------------------------------------------------

pub fn default_fe_role() -> (r: String)
    ensures
        r@ == "follower"@,
{
    owned("follower")
}

pub fn default_cluster_name() -> (r: String)
    ensures
        r@ == "default"@,
{
    owned("default")
}

pub fn default_query_port() -> (r: u16)
    ensures
        r == 9030,
{
    9030
}

pub fn default_fe_http_port() -> (r: u16)
    ensures
        r == 8030,
{
    8030
}

pub fn default_edit_log_port() -> (r: u16)
    ensures
        r == 9010,
{
    9010
}

pub fn default_user() -> (r: String)
    ensures
        r@ == "root"@,
{
    owned("root")
}

pub fn default_heartbeat_port() -> (r: u16)
    ensures
        r == 9050,
{
    9050
}

pub fn default_be_http_port() -> (r: u16)
    ensures
        r == 8040,
{
    8040
}

pub fn default_ssh_user() -> (r: String)
    ensures
        r@ == "root"@,
{
    owned("root")
}

pub fn default_ssh_port() -> (r: u16)
    ensures
        r == 22,
{
    22
}

pub fn default_install_dir() -> (r: String)
    ensures
        r@ == "/opt/doris"@,
{
    owned("/opt/doris")
}

/// The sample configuration written by `dcli config init`.
pub const SAMPLE_YAML: &'static str = "# doris-cli cluster configuration
name: prod
fe:
  host: 127.0.0.1
  query_port: 9030      # MySQL protocol port
  http_port: 8030       # FE HTTP port
  edit_log_port: 9010   # used when adding follower/observer FEs
  user: root
  password: \"\"
be:
  heartbeat_port: 9050
  http_port: 8040
ssh:                    # optional, only needed for deploy/remote ops
  user: root
  port: 22
  key: ~/.ssh/id_ed25519   # blank = auto-detect id_ed25519/id_rsa; omit -i if missing
deploy:                 # optional, only needed for deploy
  architecture: integrated  # integrated | separated (存算一体 | 存算分离)
  method: manual            # manual | kubernetes | cloud
  version: \"\"               # e.g. 4.1.1 (use `dcli deploy versions` / `download`)
  arch: \"\"                  # x64 | x64-noavx2 | arm64 (blank = auto-detect)
  install_dir: /opt/doris
  package: \"\"           # local path or http(s) URL to apache-doris-x.y.z-bin.tar.gz
  java_home: \"\"         # e.g. /usr/lib/jvm/java-17-openjdk
  meta_dir: \"\"          # default <install_dir>/fe/doris-meta
  be_storage: \"\"        # default <install_dir>/be/storage
  priority_networks: \"\" # e.g. 10.0.0.0/24 (recommended on multi-NIC hosts)
  separated:            # only for architecture=separated
    cluster_id: 0       # auto-generated if 0/omitted
    meta_service_endpoint: \"10.0.0.1:5000\"
    meta_service_hosts: []
    file_cache_path: \"\"
    fdb_cluster: \"\"
    storage_vault:
      name: s3_vault
      type: S3
      properties:
        s3.endpoint: \"https://s3.example.com\"
        s3.bucket: doris
topology:               # who is FE/BE and which FE is the leader
  frontends:
    - host: 10.0.0.1
      role: leader      # leader | follower | observer
    - host: 10.0.0.2
      role: follower
  backends:
    - host: 10.0.0.11
    - host: 10.0.0.12
";

impl Config {
    /// A config built purely from CLI flags (no file), used by `--fe-host`
    /// style overrides: the given FE endpoint and credentials, every other
    /// field at its default, and no ssh/deploy/topology sections.
    pub fn from_fe(host: String, query_port: u16, user: String, password: String) -> (r: Self)
        ensures
            r.name@ == "default"@,
            r.fe.host@ == host@,
            r.fe.query_port == query_port,
            r.fe.http_port == 8030,
            r.fe.edit_log_port == 9010,
            r.fe.user@ == user@,
            r.fe.password@ == password@,
            r.be.heartbeat_port == 9050,
            r.be.http_port == 8040,
            r.ssh is None,
            r.deploy is None,
            r.topology is None,
    {
        Config {
            name: default_cluster_name(),
            fe: FeConfig {
                host,
                query_port,
                http_port: default_fe_http_port(),
                edit_log_port: default_edit_log_port(),
                user,
                password,
            },
            be: BeConfig::default(),
            ssh: None,
            deploy: None,
            topology: None,
        }
    }

    pub fn sample_yaml() -> (r: &'static str)
        ensures
            r@ == SAMPLE_YAML@,
    {
        SAMPLE_YAML
    }
}

// ---------------------------------------------------------------------------
// State directory layout (`~/.doris-cli`)
// ---------------------------------------------------------------------------

/// The user's home directory (`dirs::home_dir`), converted to a string.
/// Nothing is claimed of the result: it comes from the environment.
#[verifier::external_body]
pub(crate) fn home_dir() -> Option<String> {
    match dirs::home_dir() {
        Some(p) => Some(p.to_string_lossy().into_owned()),
        None => None,
    }
}

/// `Path::join` on Unix paths: an absolute `part` replaces `base`; otherwise a
/// `/` separates them unless `base` is empty or already ends with one.
pub open spec fn path_join(base: Seq<char>, part: Seq<char>) -> Seq<char> {
    if part.len() > 0 && part[0] == '/' {
        part
    } else if base.len() == 0 || base.last() == '/' {
        base + part
    } else {
        base + seq!['/'] + part
    }
}

pub fn join_path(base: &str, part: &str) -> (r: String)
    ensures
        r@ == path_join(base@, part@),
{
    let b = to_chars(base);
    let p = to_chars(part);
    if p.len() > 0 && p[0] == '/' {
        return crate::text::from_chars(p.as_slice());
    }
    let mut r = crate::text::from_chars(b.as_slice());
    if !(b.len() == 0 || b[b.len() - 1] == '/') {
        crate::text::push_char(&mut r, '/');
    }
    crate::text::push_chars(&mut r, p.as_slice());
    r
}

pub open spec fn config_home_of(home: Seq<char>) -> Seq<char> {
    path_join(home, ".doris-cli"@)
}

pub open spec fn profiles_dir_of(home: Seq<char>) -> Seq<char> {
    path_join(config_home_of(home), "profiles"@)
}

pub open spec fn profile_path_of(home: Seq<char>, name: Seq<char>) -> Seq<char> {
    path_join(profiles_dir_of(home), name + ".yaml"@)
}

pub open spec fn active_profile_file_of(home: Seq<char>) -> Seq<char> {
    path_join(config_home_of(home), "active_profile"@)
}

/// Base directory for doris-cli state under the given home directory.
pub fn config_home_in(home: &str) -> (r: String)
    ensures
        r@ == config_home_of(home@),
{
    join_path(home, ".doris-cli")
}

/// Base directory for doris-cli state (`~/.doris-cli`); none without a home
/// directory.
pub fn config_home() -> (r: Option<String>)
    ensures
        r matches Some(p) ==> exists|h: Seq<char>| p@ == config_home_of(h),
{
    match home_dir() {
        Some(h) => Some(config_home_in(h.as_str())),
        None => None,
    }
}

pub fn profiles_dir_in(home: &str) -> (r: String)
    ensures
        r@ == profiles_dir_of(home@),
{
    let h = config_home_in(home);
    join_path(h.as_str(), "profiles")
}

/// Directory holding named cluster profiles (`~/.doris-cli/profiles`).
pub fn profiles_dir() -> (r: Option<String>)
    ensures
        r matches Some(p) ==> exists|h: Seq<char>| p@ == profiles_dir_of(h),
{
    match home_dir() {
        Some(h) => Some(profiles_dir_in(h.as_str())),
        None => None,
    }
}

pub fn active_profile_file_in(home: &str) -> (r: String)
    ensures
        r@ == active_profile_file_of(home@),
{
    let h = config_home_in(home);
    join_path(h.as_str(), "active_profile")
}

/// File recording the name of the currently active profile.
pub fn active_profile_file() -> (r: Option<String>)
    ensures
        r matches Some(p) ==> exists|h: Seq<char>| p@ == active_profile_file_of(h),
{
    match home_dir() {
        Some(h) => Some(active_profile_file_in(h.as_str())),
        None => None,
    }
}

pub fn profile_path_in(home: &str, name: &str) -> (r: String)
    ensures
        r@ == profile_path_of(home@, name@),
{
    let d = profiles_dir_in(home);
    let mut file = owned(name);
    crate::text::push_str(&mut file, ".yaml");
    join_path(d.as_str(), file.as_str())
}

/// Path to a named profile's YAML file (`~/.doris-cli/profiles/<name>.yaml`).
pub fn profile_path(name: &str) -> (r: Option<String>)
    ensures
        r matches Some(p) ==> exists|h: Seq<char>| p@ == profile_path_of(h, name@),
{
    match home_dir() {
        Some(h) => Some(profile_path_in(h.as_str(), name)),
        None => None,
    }
}

/// The active profile recorded in the marker file: its contents trimmed, or
/// none when the file is missing or blank.
pub fn active_profile_from(contents: Option<&str>) -> (r: Option<String>)
    ensures
        contents is None ==> r is None,
        contents matches Some(c) ==> (if crate::text::trim(c@).len() == 0 {
            r is None
        } else {
            r matches Some(n) && n@ == crate::text::trim(c@)
        }),
{
    match contents {
        None => None,
        Some(c) => {
            let cs = to_chars(c);
            let t = crate::text::trim_string(cs.as_slice());
            let tc = to_chars(t.as_str());
            if tc.len() == 0 {
                None
            } else {
                Some(t)
            }
        },
    }
}

/// The default config file under a home directory.
pub open spec fn default_config_path_of(home: Seq<char>) -> Seq<char> {
    path_join(config_home_of(home), "cluster.yaml"@)
}

/// Where the config is read from, in priority order: the explicit path, the
/// named profile, `DORIS_CLI_CONFIG`, the active profile, then
/// `~/.doris-cli/cluster.yaml`; profile paths and the default need a home
/// directory.
pub open spec fn config_path_of(
    explicit: Option<Seq<char>>,
    profile: Option<Seq<char>>,
    env_config: Option<Seq<char>>,
    active: Option<Seq<char>>,
    home: Option<Seq<char>>,
) -> Option<Seq<char>> {
    match explicit {
        Some(p) => Some(p),
        None => match profile {
            Some(n) => match home {
                Some(h) => Some(profile_path_of(h, n)),
                None => None,
            },
            None => match env_config {
                Some(e) => Some(e),
                None => match home {
                    Some(h) => match active {
                        Some(a) => Some(profile_path_of(h, a)),
                        None => Some(default_config_path_of(h)),
                    },
                    None => None,
                },
            },
        },
    }
}

/// `Config::resolve_path` given what it reads from the environment: the
/// `DORIS_CLI_CONFIG` variable, the active profile and the home directory.
pub fn resolve_config_path(
    explicit: Option<&str>,
    profile: Option<&str>,
    env_config: Option<&str>,
    active: Option<&str>,
    home: Option<&str>,
) -> (r: Option<String>)
    ensures
        opt_view(r) == config_path_of(
            crate::cluster_meta::opt_str_view(explicit),
            crate::cluster_meta::opt_str_view(profile),
            crate::cluster_meta::opt_str_view(env_config),
            crate::cluster_meta::opt_str_view(active),
            crate::cluster_meta::opt_str_view(home),
        ),
{
    if let Some(p) = explicit {
        return Some(owned(p));
    }
    if let Some(n) = profile {
        return match home {
            Some(h) => Some(profile_path_in(h, n)),
            None => None,
        };
    }
    if let Some(e) = env_config {
        return Some(owned(e));
    }
    match home {
        Some(h) => match active {
            Some(a) => Some(profile_path_in(h, a)),
            None => {
                let c = config_home_in(h);
                Some(join_path(c.as_str(), "cluster.yaml"))
            },
        },
        None => None,
    }
}

} // verus!
