//! Saved-cluster management: name rules, the store transitions behind
//! `clusters add/use/remove/show/list`, and the config built from the answers
//! of the interactive `clusters add` prompts.
use vstd::prelude::*;

use crate::cluster_store::{missing_cluster_message, ClusterStore};
use crate::config::{
    opt_view, BeConfig, BeNode, Config, ConfigView, FeConfig, FeConfigView, FeNode, FeNodeView,
    Topology, TopologyView,
};
use crate::text::{
    chars_eq, contains, contains_str, from_chars, is_alnum, is_ascii_alpha, is_ascii_digit,
    owned, parse_u16, push_str, split, split_char, string_eq_str, to_chars, trim, trim_chars,
    vec_views,
};

verus! {

// ---------------------------------------------------------------------------
// Host lists (`a, b,,c` -> [a, b, c])
// ---------------------------------------------------------------------------

/// The trimmed, non-empty pieces of `parts`, in order.
pub open spec fn nonempty_trimmed(parts: Seq<Seq<char>>) -> Seq<Seq<char>>
    decreases parts.len(),
{
    if parts.len() == 0 {
        Seq::empty()
    } else {
        let rest = nonempty_trimmed(parts.drop_last());
        let t = trim(parts.last());
        if t.len() > 0 {
            rest.push(t)
        } else {
            rest
        }
    }
}

/// Host names of a comma-separated list: each piece trimmed, empty ones dropped.
pub open spec fn host_names(raw: Seq<char>) -> Seq<Seq<char>> {
    nonempty_trimmed(split(raw, ','))
}

/// `raw.split(',').map(str::trim).filter(|s| !s.is_empty())`.
pub fn split_hosts(raw: &str) -> (r: Vec<String>)
    ensures
        crate::text::string_views(r@) == host_names(raw@),
{
    let rc = to_chars(raw);
    let parts = split_char(rc.as_slice(), ',');
    let ghost ps = vec_views(parts@);
    let mut r: Vec<String> = Vec::new();
    let mut i: usize = 0;
    while i < parts.len()
        invariant
            i <= parts@.len(),
            ps == vec_views(parts@),
            ps == split(raw@, ','),
            crate::text::string_views(r@) == nonempty_trimmed(ps.subrange(0, i as int)),
        decreases parts@.len() - i,
    {
        let t = trim_chars(parts[i].as_slice());
        assert(ps.subrange(0, i + 1).drop_last() =~= ps.subrange(0, i as int));
        assert(ps.subrange(0, i + 1).last() == parts@[i as int]@);
        if t.len() > 0 {
            let ghost before = r@;
            r.push(from_chars(t.as_slice()));
            assert(crate::text::string_views(r@) =~= crate::text::string_views(before).push(t@));
        }
        i = i + 1;
    }
    assert(ps.subrange(0, i as int) =~= ps);
    r
}

// ---------------------------------------------------------------------------
// Cluster names
// ---------------------------------------------------------------------------

pub open spec fn name_char_ok(c: char) -> bool {
    is_alnum(c) || c == '-' || c == '_' || c == '.'
}

/// Why `name` cannot name a saved `kind` (`cluster`, `profile`), if it
/// cannot: it must be non-empty, hold only ASCII letters, digits, `-`, `_`,
/// `.`, and be neither `.` nor `..` nor contain `/`.
pub open spec fn name_error_of(kind: Seq<char>, name: Seq<char>) -> Option<Seq<char>> {
    if name.len() == 0 {
        Some(kind + " name must not be empty"@)
    } else if !(forall|i: int| 0 <= i < name.len() ==> name_char_ok(#[trigger] name[i])) {
        Some(kind + " name '"@ + name + "' may only contain letters, digits, '-', '_', '.'"@)
    } else if name == "."@ || name == ".."@ || contains(name, "/"@) {
        Some("invalid "@ + kind + " name '"@ + name + "'"@)
    } else {
        None
    }
}

/// Why `name` cannot name a saved cluster, if it cannot.
pub open spec fn name_error(name: Seq<char>) -> Option<Seq<char>> {
    name_error_of("cluster"@, name)
}

fn quoted_message(head: &str, name: &str, tail: &str) -> (r: String)
    ensures
        r@ == head@ + name@ + tail@,
{
    let mut m = owned(head);
    push_str(&mut m, name);
    push_str(&mut m, tail);
    m
}

/// Check a name for a saved `kind` against [`name_error_of`].
pub fn validate_kind_name(kind: &str, name: &str) -> (r: Result<(), String>)
    ensures
        r is Ok == name_error_of(kind@, name@) is None,
        r matches Err(m) ==> name_error_of(kind@, name@) == Some(m@),
{
    let nc = to_chars(name);
    if nc.len() == 0 {
        let mut m = owned(kind);
        push_str(&mut m, " name must not be empty");
        return Err(m);
    }
    let mut i: usize = 0;
    while i < nc.len()
        invariant
            nc@ == name@,
            i <= nc@.len(),
            forall|j: int| 0 <= j < i ==> name_char_ok(#[trigger] nc@[j]),
        decreases nc@.len() - i,
    {
        let c = nc[i];
        if !(is_ascii_digit(c) || is_ascii_alpha(c) || c == '-' || c == '_' || c == '.') {
            assert(!name_char_ok(name@[i as int]));
            let mut m = owned(kind);
            push_str(&mut m, " name '");
            push_str(&mut m, name);
            push_str(&mut m, "' may only contain letters, digits, '-', '_', '.'");
            return Err(m);
        }
        i = i + 1;
    }
    let dot = to_chars(".");
    let dots = to_chars("..");
    if chars_eq(nc.as_slice(), dot.as_slice()) || chars_eq(nc.as_slice(), dots.as_slice())
        || contains_str(nc.as_slice(), "/") {
        let mut m = owned("invalid ");
        push_str(&mut m, kind);
        push_str(&mut m, " name '");
        push_str(&mut m, name);
        push_str(&mut m, "'");
        return Err(m);
    }
    Ok(())
}

/// Check a saved-cluster name: non-empty, only ASCII letters, digits, `-`,
/// `_`, `.`, and not `.`, `..` or containing `/`.
pub fn validate_name(name: &str) -> (r: Result<(), String>)
    ensures
        r is Ok == name_error(name@) is None,
        r matches Err(m) ==> name_error(name@) == Some(m@),
{
    validate_kind_name("cluster", name)
}

// ---------------------------------------------------------------------------
// Store transitions
// ---------------------------------------------------------------------------

/// The active name, when there is one, names a saved cluster.
pub open spec fn active_is_saved(s: ClusterStore) -> bool {
    s.active matches Some(a) ==> s.clusters@.contains_key(a@)
}

pub open spec fn exists_message(name: Seq<char>) -> Seq<char> {
    "saved cluster '"@ + name + "' already exists (use --force to overwrite)"@
}

/// Whether `clusters add` may save under `name`: a valid name, and not taken
/// unless `force` is given.
pub fn check_add(store: &ClusterStore, name: &str, force: bool) -> (r: Result<(), String>)
    ensures
        r is Ok == (name_error(name@) is None && (force || !store.clusters@.contains_key(name@))),
        r matches Err(m) ==> m@ == match name_error(name@) {
            Some(e) => e,
            None => exists_message(name@),
        },
{
    validate_name(name)?;
    if store.clusters.contains_key(name) && !force {
        return Err(
            quoted_message("saved cluster '", name, "' already exists (use --force to overwrite)"),
        );
    }
    Ok(())
}

/// Save `cfg` under `name`; the first saved cluster becomes the active one.
pub fn add_cluster(store: &mut ClusterStore, name: String, cfg: Config)
    ensures
        final(store).clusters@ == old(store).clusters@.insert(name@, cfg@),
        final(store).clusters@[name@] == cfg@,
        opt_view(final(store).active) == match old(store).active {
            Some(a) => Some(a@),
            None => Some(name@),
        },
        active_is_saved(*old(store)) ==> active_is_saved(*final(store)),
{
    let is_none = store.active.is_none();
    if is_none {
        store.active = Some(name.clone());
    }
    store.clusters.insert(name, cfg);
}

/// Whether `name` is a valid name of a saved cluster (`clusters use/remove`).
pub fn require_saved(store: &ClusterStore, name: &str) -> (r: Result<(), String>)
    ensures
        r is Ok == (name_error(name@) is None && store.clusters@.contains_key(name@)),
        r matches Err(m) ==> m@ == match name_error(name@) {
            Some(e) => e,
            None => missing_cluster_message(name@),
        },
{
    validate_name(name)?;
    if !store.clusters.contains_key(name) {
        return Err(quoted_message("saved cluster '", name, "' does not exist"));
    }
    Ok(())
}

/// `clusters use`: make the saved cluster `name` the active one.
pub fn use_cluster(store: &mut ClusterStore, name: &str) -> (r: Result<(), String>)
    ensures
        r is Ok == (name_error(name@) is None && old(store).clusters@.contains_key(name@)),
        r matches Err(m) ==> m@ == match name_error(name@) {
            Some(e) => e,
            None => missing_cluster_message(name@),
        },
        final(store).clusters@ == old(store).clusters@,
        r is Ok ==> opt_view(final(store).active) == Some(name@),
        r is Err ==> final(store).active == old(store).active,
        r is Ok ==> active_is_saved(*final(store)),
        active_is_saved(*old(store)) ==> active_is_saved(*final(store)),
{
    require_saved(store, name)?;
    store.active = Some(owned(name));
    Ok(())
}

/// The active name after `name` was removed: unchanged unless it was `name`,
/// in which case the smallest remaining name (if any) takes its place.
pub open spec fn active_after_remove(
    active: Option<Seq<char>>,
    name: Seq<char>,
    remaining: Seq<Seq<char>>,
) -> Option<Seq<char>> {
    if active == Some(name) {
        if remaining.len() == 0 {
            None
        } else {
            Some(remaining[0])
        }
    } else {
        active
    }
}

/// `clusters remove`: forget the saved cluster `name`.
pub fn remove_cluster(store: &mut ClusterStore, name: &str) -> (r: Result<(), String>)
    ensures
        r is Ok == (name_error(name@) is None && old(store).clusters@.contains_key(name@)),
        r matches Err(m) ==> m@ == match name_error(name@) {
            Some(e) => e,
            None => missing_cluster_message(name@),
        },
        r is Err ==> final(store).clusters@ == old(store).clusters@ && final(store).active == old(
            store,
        ).active,
        r is Ok ==> final(store).clusters@ == old(store).clusters@.remove(name@),
        r is Ok ==> !final(store).clusters@.contains_key(name@),
        r is Ok ==> opt_view(final(store).active) == active_after_remove(
            opt_view(old(store).active),
            name@,
            final(store).clusters.keys_in_order(),
        ),
        active_is_saved(*old(store)) ==> active_is_saved(*final(store)),
{
    require_saved(store, name)?;
    store.clusters.remove(name);
    let was_active = match &store.active {
        Some(a) => string_eq_str(a, name),
        None => false,
    };
    if was_active {
        let first = store.clusters.first_key();
        proof {
            use_type_invariant(&store.clusters);
            store.clusters.lemma_keys();
            if store.clusters.keys_in_order().len() > 0 {
                assert(store.clusters.keys_in_order().contains(store.clusters.keys_in_order()[0]));
            }
        }
        store.active = first;
    }
    Ok(())
}

/// What `clusters list` prints for one saved name.
pub open spec fn list_line(name: Seq<char>, active: Option<Seq<char>>) -> Seq<char> {
    if active == Some(name) {
        "* "@ + name
    } else {
        "  "@ + name
    }
}

/// The lines of `clusters list`: the saved names ascending, the active one
/// marked with `*`.
pub fn list_lines(store: &ClusterStore) -> (r: Vec<String>)
    ensures
        r@.len() == store.clusters.keys_in_order().len(),
        forall|i: int|
            0 <= i < r@.len() ==> #[trigger] r@[i]@ == list_line(
                store.clusters.keys_in_order()[i],
                opt_view(store.active),
            ),
{
    let names = store.names();
    let mut r: Vec<String> = Vec::new();
    let mut i: usize = 0;
    while i < names.len()
        invariant
            i <= names@.len(),
            crate::text::string_views(names@) == store.clusters.keys_in_order(),
            r@.len() == i,
            forall|j: int|
                0 <= j < i ==> #[trigger] r@[j]@ == list_line(
                    store.clusters.keys_in_order()[j],
                    opt_view(store.active),
                ),
        decreases names@.len() - i,
    {
        let n = &names[i];
        assert(n@ == store.clusters.keys_in_order()[i as int]);
        let is_active = match &store.active {
            Some(a) => string_eq_str(a, n.as_str()),
            None => false,
        };
        let mut line = if is_active {
            owned("* ")
        } else {
            owned("  ")
        };
        push_str(&mut line, n.as_str());
        r.push(line);
        i = i + 1;
    }
    r
}

/// The password as `clusters show` prints it.
pub open spec fn shown_fe(fe: FeConfigView, reveal_secrets: bool) -> FeConfigView {
    if !reveal_secrets && fe.password.len() > 0 {
        FeConfigView {
            host: fe.host,
            query_port: fe.query_port,
            http_port: fe.http_port,
            edit_log_port: fe.edit_log_port,
            user: fe.user,
            password: "******"@,
        }
    } else {
        fe
    }
}

/// The name `clusters show` looks up: the one given, else the active one.
pub open spec fn show_target(store: ClusterStore, name: Option<Seq<char>>) -> Option<Seq<char>> {
    match name {
        Some(n) => Some(n),
        None => opt_view(store.active),
    }
}

/// `clusters show`: the name shown and its config, the FE password masked
/// unless `reveal_secrets`.
pub fn show_cluster(store: &ClusterStore, name: Option<&str>, reveal_secrets: bool) -> (r: Result<
    (String, Config),
    String,
>)
    ensures
        r is Ok == (show_target(*store, opt_str_view(name)) matches Some(n)
            && store.clusters@.contains_key(n)),
        show_target(*store, opt_str_view(name)) is None ==> (r matches Err(m) && m@
            == "no active saved cluster; pass a name"@),
        show_target(*store, opt_str_view(name)) matches Some(n) ==> (!store.clusters@.contains_key(n)
            ==> (r matches Err(m) && m@ == missing_cluster_message(n))),
        r matches Ok((n, c)) ==> show_target(*store, opt_str_view(name)) == Some(n@) && ({
            let saved = store.clusters@[n@];
            &&& c@.name == saved.name
            &&& c@.fe == shown_fe(saved.fe, reveal_secrets)
            &&& c@.be == saved.be
            &&& c@.ssh == saved.ssh
            &&& c@.deploy == saved.deploy
            &&& c@.topology == saved.topology
        }),
{
    let target: String = match name {
        Some(n) => owned(n),
        None => match &store.active {
            Some(a) => a.clone(),
            None => return Err(owned("no active saved cluster; pass a name")),
        },
    };
    let mut cfg = match store.get(target.as_str()) {
        Some(c) => c,
        None => return Err(quoted_message("saved cluster '", target.as_str(), "' does not exist")),
    };
    if !reveal_secrets && cfg.fe.password.unicode_len() > 0 {
        cfg.fe.password = owned("******");
    }
    Ok((target, cfg))
}

pub open spec fn opt_str_view(o: Option<&str>) -> Option<Seq<char>> {
    match o {
        Some(s) => Some(s@),
        None => None,
    }
}

// ---------------------------------------------------------------------------
// The interactive `clusters add` form
// ---------------------------------------------------------------------------

/// A prompted line: the trimmed input, or the default when it is blank.
pub open spec fn answer_or_default(input: Seq<char>, default: Seq<char>) -> Seq<char> {
    if trim(input).len() == 0 {
        default
    } else {
        trim(input)
    }
}

/// What a prompt returns for the line the user typed.
pub fn prompt_answer(input: &str, default: &str) -> (r: String)
    ensures
        r@ == answer_or_default(input@, default@),
{
    let ic = to_chars(input);
    let t = trim_chars(ic.as_slice());
    if t.len() == 0 {
        owned(default)
    } else {
        from_chars(t.as_slice())
    }
}

/// A port typed at a prompt, or the error naming the prompt.
pub fn port_answer(prompt: &str, answer: &str) -> (r: Result<u16, String>)
    ensures
        r is Ok == parse_u16(answer@) is Some,
        r matches Ok(p) ==> parse_u16(answer@) == Some(p as int),
        r matches Err(m) ==> m@ == prompt@ + " must be a valid port"@,
{
    let ac = to_chars(answer);
    match crate::text::parse_u16_chars(ac.as_slice()) {
        Some(p) => Ok(p),
        None => {
            let mut m = owned(prompt);
            push_str(&mut m, " must be a valid port");
            Err(m)
        },
    }
}

/// The answers of the `clusters add` prompts.
pub struct ClusterAnswers {
    pub name: String,
    pub fe_host: String,
    pub query_port: u16,
    pub http_port: u16,
    pub edit_log_port: u16,
    pub user: String,
    pub password: String,
    pub be_heartbeat_port: u16,
    pub be_http_port: u16,
    pub frontend_hosts: String,
    pub backend_hosts: String,
}

/// The FE nodes of a host list: the first is the leader, the rest followers.
pub open spec fn fe_nodes_of(hosts: Seq<Seq<char>>) -> Seq<FeNodeView> {
    Seq::new(
        hosts.len(),
        |i: int|
            FeNodeView {
                host: hosts[i],
                role: if i == 0 {
                    "leader"@
                } else {
                    "follower"@
                },
            },
    )
}

/// The topology of the answered host lists; none when both are empty.
pub open spec fn answered_topology(fe_hosts: Seq<char>, be_hosts: Seq<char>) -> Option<TopologyView> {
    let fes = host_names(fe_hosts);
    let bes = host_names(be_hosts);
    if fes.len() == 0 && bes.len() == 0 {
        None
    } else {
        Some(TopologyView { frontends: fe_nodes_of(fes), backends: bes })
    }
}

/// The config that the `clusters add` prompts describe.
pub fn config_from_answers(a: ClusterAnswers) -> (c: Config)
    ensures
        c@ == (ConfigView {
            name: a.name@,
            fe: FeConfigView {
                host: a.fe_host@,
                query_port: a.query_port,
                http_port: a.http_port,
                edit_log_port: a.edit_log_port,
                user: a.user@,
                password: a.password@,
            },
            be: BeConfig { heartbeat_port: a.be_heartbeat_port, http_port: a.be_http_port },
            ssh: None,
            deploy: None,
            topology: answered_topology(a.frontend_hosts@, a.backend_hosts@),
        }),
{
    let fe_hosts = split_hosts(a.frontend_hosts.as_str());
    let be_hosts = split_hosts(a.backend_hosts.as_str());
    let ghost fh = crate::text::string_views(fe_hosts@);
    let ghost bh = crate::text::string_views(be_hosts@);
    let mut frontends: Vec<FeNode> = Vec::new();
    let mut i: usize = 0;
    while i < fe_hosts.len()
        invariant
            i <= fe_hosts@.len(),
            fh == crate::text::string_views(fe_hosts@),
            frontends@.len() == i,
            crate::config::fe_views(frontends@) == fe_nodes_of(fh).subrange(0, i as int),
        decreases fe_hosts@.len() - i,
    {
        let role = if i == 0 {
            owned("leader")
        } else {
            owned("follower")
        };
        let ghost before = frontends@;
        let node = FeNode { host: fe_hosts[i].clone(), role };
        assert(node@ == fe_nodes_of(fh)[i as int]);
        frontends.push(node);
        assert forall|k: int| 0 <= k < i implies #[trigger] frontends@[k]@ == fe_nodes_of(fh)[k] by {
            assert(frontends@[k] == before[k]);
            assert(crate::config::fe_views(before)[k] == fe_nodes_of(fh).subrange(0, i as int)[k]);
        }
        assert(crate::config::fe_views(frontends@) =~= fe_nodes_of(fh).subrange(0, i + 1));
        i = i + 1;
    }
    assert(fe_nodes_of(fh).subrange(0, i as int) =~= fe_nodes_of(fh));
    let mut backends: Vec<BeNode> = Vec::new();
    let mut j: usize = 0;
    while j < be_hosts.len()
        invariant
            j <= be_hosts@.len(),
            bh == crate::text::string_views(be_hosts@),
            backends@.len() == j,
            crate::config::be_views(backends@) == bh.subrange(0, j as int),
        decreases be_hosts@.len() - j,
    {
        let ghost before = backends@;
        let node = BeNode { host: be_hosts[j].clone() };
        assert(node@ == bh[j as int]);
        backends.push(node);
        assert forall|k: int| 0 <= k < j implies #[trigger] backends@[k]@ == bh[k] by {
            assert(backends@[k] == before[k]);
            assert(crate::config::be_views(before)[k] == bh.subrange(0, j as int)[k]);
        }
        assert(crate::config::be_views(backends@) =~= bh.subrange(0, j + 1));
        j = j + 1;
    }
    assert(bh.subrange(0, j as int) =~= bh);
    let topology = if frontends.len() == 0 && backends.len() == 0 {
        None
    } else {
        Some(Topology { frontends, backends })
    };
    Config {
        name: a.name,
        fe: FeConfig {
            host: a.fe_host,
            query_port: a.query_port,
            http_port: a.http_port,
            edit_log_port: a.edit_log_port,
            user: a.user,
            password: a.password,
        },
        be: BeConfig { heartbeat_port: a.be_heartbeat_port, http_port: a.be_http_port },
        ssh: None,
        deploy: None,
        topology,
    }
}

// ---------------------------------------------------------------------------
// Choosing the dashboard's cluster
// ---------------------------------------------------------------------------

/// Where the dashboard takes its config from.
#[derive(Debug)]
pub enum TuiSource {
    /// The command-line flags and config file, as every other command.
    Flags,
    /// The only saved cluster.
    Saved(Config),
    /// Several saved clusters: the user picks one.
    Choose,
}

/// Decide the dashboard's config source: explicit settings (flags, config
/// file, environment, an active profile) or an empty store mean the usual
/// config; a single saved cluster is used directly; several are offered.
pub fn tui_config_source(explicit: bool, store: &ClusterStore) -> (r: TuiSource)
    ensures
        (explicit || store.clusters.keys_in_order().len() == 0) ==> r is Flags,
        (!explicit && store.clusters.keys_in_order().len() == 1) ==> (r matches TuiSource::Saved(c)
            && c@ == store.clusters@[store.clusters.keys_in_order()[0]]),
        (!explicit && store.clusters.keys_in_order().len() > 1) ==> r is Choose,
{
    proof {
        use_type_invariant(&store.clusters);
        store.clusters.lemma_keys();
    }
    let n = store.clusters.len();
    if explicit || n == 0 {
        return TuiSource::Flags;
    }
    if n == 1 {
        let (_k, v) = store.clusters.entry_at(0);
        assert(store.clusters.entry_seq()[0].0@ == store.clusters.keys_in_order()[0]);
        return TuiSource::Saved(v.clone());
    }
    TuiSource::Choose
}

/// One line of the cluster menu: its 1-based number, `*` for the active one.
pub open spec fn menu_line(i: int, name: Seq<char>, active: Option<Seq<char>>) -> Seq<char> {
    "  "@ + crate::text::dec((i + 1) as nat) + ". "@ + (if active == Some(name) {
        "*"@
    } else {
        " "@
    }) + " "@ + name
}

/// The numbered menu of saved clusters.
pub fn cluster_menu(store: &ClusterStore) -> (r: Vec<String>)
    ensures
        r@.len() == store.clusters.keys_in_order().len(),
        forall|i: int|
            0 <= i < r@.len() ==> #[trigger] r@[i]@ == menu_line(
                i,
                store.clusters.keys_in_order()[i],
                opt_view(store.active),
            ),
{
    let names = store.names();
    let mut r: Vec<String> = Vec::new();
    let mut i: usize = 0;
    while i < names.len()
        invariant
            i <= names@.len(),
            crate::text::string_views(names@) == store.clusters.keys_in_order(),
            r@.len() == i,
            forall|k: int|
                0 <= k < i ==> #[trigger] r@[k]@ == menu_line(
                    k,
                    store.clusters.keys_in_order()[k],
                    opt_view(store.active),
                ),
        decreases names@.len() - i,
    {
        let n = &names[i];
        assert(n@ == store.clusters.keys_in_order()[i as int]);
        let is_active = match &store.active {
            Some(a) => string_eq_str(a, n.as_str()),
            None => false,
        };
        let mut line = owned("  ");
        crate::text::push_u64(&mut line, (i as u64) + 1);
        push_str(&mut line, ". ");
        push_str(&mut line, if is_active {
            "*"
        } else {
            " "
        });
        push_str(&mut line, " ");
        push_str(&mut line, n.as_str());
        r.push(line);
        i = i + 1;
    }
    r
}

/// Position of `name` among `names`, if present.
pub open spec fn position_of(names: Seq<Seq<char>>, name: Seq<char>, i: int) -> Option<int>
    decreases names.len() - i,
{
    if i < 0 || i >= names.len() {
        None
    } else if names[i] == name {
        Some(i)
    } else {
        position_of(names, name, i + 1)
    }
}

/// The menu number offered by default: the active cluster's, else 1.
pub fn default_menu_choice(store: &ClusterStore) -> (r: usize)
    ensures
        r as int == match store.active {
            Some(a) => match position_of(store.clusters.keys_in_order(), a@, 0) {
                Some(k) => k + 1,
                None => 1,
            },
            None => 1,
        },
{
    let names = store.names();
    match &store.active {
        None => 1,
        Some(a) => {
            let mut i: usize = 0;
            while i < names.len()
                invariant
                    i <= names@.len(),
                    store.active == Some(*a),
                    crate::text::string_views(names@) == store.clusters.keys_in_order(),
                    position_of(store.clusters.keys_in_order(), a@, 0) == position_of(
                        store.clusters.keys_in_order(),
                        a@,
                        i as int,
                    ),
                decreases names@.len() - i,
            {
                assert(names@[i as int]@ == store.clusters.keys_in_order()[i as int]);
                if string_eq_str(&names[i], a.as_str()) {
                    assert(store.clusters.keys_in_order()[i as int] == a@);
                    assert(position_of(store.clusters.keys_in_order(), a@, i as int) == Some(
                        i as int,
                    ));
                    return i + 1;
                }
                i = i + 1;
            }
            1
        },
    }
}

/// The saved cluster picked by a menu answer: a number from 1 to the count.
pub fn pick_menu_choice(store: &ClusterStore, choice: &str) -> (r: Result<Config, String>)
    ensures
        ({
            let names = store.clusters.keys_in_order();
            let n = crate::text::parse_u64(choice@);
            &&& n matches Some(k) ==> (1 <= k <= names.len() ==> (r matches Ok(c) && c@
                == store.clusters@[names[k - 1]]))
            &&& (n is None || !(1 <= n->0 <= names.len())) ==> (r matches Err(m) && m@
                == "invalid cluster selection '"@ + choice@ + "'"@)
        }),
{
    proof {
        use_type_invariant(&store.clusters);
        store.clusters.lemma_keys();
    }
    let names = store.names();
    let cc = to_chars(choice);
    let picked = match crate::text::parse_u64_chars(cc.as_slice()) {
        Some(k) => if k >= 1 && k <= names.len() as u64 {
            Some((k - 1) as usize)
        } else {
            None
        },
        None => None,
    };
    match picked {
        Some(i) => {
            let name = &names[i];
            assert(name@ == store.clusters.keys_in_order()[i as int]);
            assert(store.clusters.keys_in_order().contains(name@));
            match store.get(name.as_str()) {
                Some(c) => Ok(c),
                None => Err(quoted_message("saved cluster '", name.as_str(), "' does not exist")),
            }
        },
        None => Err(quoted_message("invalid cluster selection '", choice, "'")),
    }
}

} // verus!
