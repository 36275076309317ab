//! Host prechecks for deployment: the fact-collecting script run on each
//! host, the parsing of its `key=value` output, and the rules that grade each
//! host (and a storage-compute separated cluster) against Doris requirements.
use vstd::prelude::*;

use crate::config::{
    default_install_dir, topology_hosts, Config, ConfigView, DeployArchitecture,
};
use crate::ssh::{failure_hints, ssh_failure_hint, CmdOutput};
use crate::strmap::{lex_less, lex_lt, StrMap};
use crate::text::{
    contains, contains_str, copy_range, index_of_char, index_of_char_from, int_dec, is_digit,
    is_ascii_digit, is_whitespace, is_ws, join, lines, lines_of, owned, parse_i64,
    parse_i64_chars, push_str, string_eq_str, to_chars, trim, trim_chars, trim_string,
    from_chars, i64_to_string, vec_views,
};

verus! {

// ---------------------------------------------------------------------------
// The fact-collecting script
// ---------------------------------------------------------------------------

/// Script text before the install directory is first named.
pub const DETECT_SCRIPT_HEAD: &'static str = r#"
d=""#;

/// Script text between the two mentions of the install directory.
pub const DETECT_SCRIPT_MID: &'static str = r#""; while [ ! -d "$d" ] && [ "$d" != "/" ]; do d=$(dirname "$d"); done
echo "os=$(. /etc/os-release 2>/dev/null; echo "${PRETTY_NAME:-$(uname -s)}")"
echo "kernel=$(uname -r)"
echo "arch=$(uname -m)"
echo "cpu_cores=$(nproc 2>/dev/null || echo 0)"
echo "mem_total_kb=$(awk '/MemTotal/{print $2}' /proc/meminfo 2>/dev/null || echo 0)"
echo "disk_avail_gb=$(df -BG "$d" 2>/dev/null | awk 'NR==2{gsub(/G/,"",$4); print $4}')"
echo "java_version=$(java -version 2>&1 | head -1 | tr -d '"')"
echo "java_home=${JAVA_HOME:-}"
echo "max_map_count=$(cat /proc/sys/vm/max_map_count 2>/dev/null || echo 0)"
echo "swappiness=$(cat /proc/sys/vm/swappiness 2>/dev/null || echo -1)"
echo "overcommit=$(cat /proc/sys/vm/overcommit_memory 2>/dev/null || echo -1)"
echo "ulimit_nofile=$(ulimit -n)"
id=""#;

/// Script text after the second mention of the install directory.
pub const DETECT_SCRIPT_TAIL: &'static str = r#""
if mkdir -p "$id" 2>/dev/null; then echo "install_dir_ok=yes"; else echo "install_dir_ok=no"; fi
"#;

/// The script that prints a host's facts as `key=value` lines; it checks
/// that `install_dir` can be created and measures free space on it.
pub open spec fn detect_script_of(install_dir: Seq<char>) -> Seq<char> {
    DETECT_SCRIPT_HEAD@ + install_dir + DETECT_SCRIPT_MID@ + install_dir + DETECT_SCRIPT_TAIL@
}

pub fn detect_script(install_dir: &str) -> (r: String)
    ensures
        r@ == detect_script_of(install_dir@),
{
    let mut s = owned(DETECT_SCRIPT_HEAD);
    push_str(&mut s, install_dir);
    push_str(&mut s, DETECT_SCRIPT_MID);
    push_str(&mut s, install_dir);
    push_str(&mut s, DETECT_SCRIPT_TAIL);
    s
}

/// The hosts to probe and the script to run on them, or why there is nothing
/// to probe.
pub fn detect_targets(cfg: &Config) -> (r: Result<(Vec<String>, String), String>)
    ensures
        cfg.topology is None ==> (r matches Err(m) && m@
            == "no topology configured; run `dcli deploy init` first"@),
        cfg.topology matches Some(t) ==> (topology_hosts(t).len() == 0 <==> r is Err),
        cfg.topology matches Some(t) ==> (topology_hosts(t).len() == 0 ==> (r matches Err(m) && m@
            == "topology has no hosts"@)),
        r matches Ok((hosts, script)) ==> ({
            let t = cfg.topology->0;
            &&& forall|i: int, j: int|
                0 <= i < j < hosts@.len() ==> lex_lt(#[trigger] hosts@[i]@, #[trigger] hosts@[j]@)
            &&& forall|h: Seq<char>|
                crate::text::string_views(hosts@).contains(h) <==> topology_hosts(t).contains(h)
            &&& script@ == detect_script_of(
                match cfg@.deploy {
                    Some(d) => d.install_dir,
                    None => "/opt/doris"@,
                },
            )
        }),
{
    let topo = match &cfg.topology {
        Some(t) => t,
        None => return Err(owned("no topology configured; run `dcli deploy init` first")),
    };
    let hosts = topo.all_hosts();
    if hosts.len() == 0 {
        proof {
            if topology_hosts(*topo).len() > 0 {
                assert(topology_hosts(*topo).contains(topology_hosts(*topo)[0]));
            }
        }
        return Err(owned("topology has no hosts"));
    }
    proof {
        let h0 = crate::text::string_views(hosts@)[0];
        assert(crate::text::string_views(hosts@).contains(h0));
        assert(topology_hosts(*topo).contains(h0));
    }
    let install_dir = match &cfg.deploy {
        Some(d) => d.install_dir.clone(),
        None => default_install_dir(),
    };
    let script = detect_script(install_dir.as_str());
    Ok((hosts, script))
}

// ---------------------------------------------------------------------------
// Parsed facts
// ---------------------------------------------------------------------------

/// Parsed machine facts for one host.
#[derive(Debug)]
pub struct HostInfo {
    pub host: String,
    pub reachable: bool,
    pub error: Option<String>,
    pub raw: StrMap<String>,
}

/// The value recorded for `key`, or the empty string.
pub open spec fn fact(raw: Map<Seq<char>, Seq<char>>, key: Seq<char>) -> Seq<char> {
    if raw.contains_key(key) {
        raw[key]
    } else {
        Seq::empty()
    }
}

/// `s.parse::<i64>().unwrap_or(d)`.
pub open spec fn int_or(s: Seq<char>, d: int) -> int {
    match parse_i64(s) {
        Some(v) => v,
        None => d,
    }
}

fn parse_i64_or(s: &str, d: i64) -> (r: i64)
    ensures
        r == int_or(s@, d as int),
{
    let sc = to_chars(s);
    match parse_i64_chars(sc.as_slice()) {
        Some(v) => v,
        None => d,
    }
}

impl HostInfo {
    /// The fact recorded under `key`, or `""`.
    pub fn get(&self, key: &str) -> (r: &str)
        ensures
            r@ == fact(self.raw@, key@),
    {
        match self.raw.get(key) {
            Some(v) => v.as_str(),
            None => {
                proof {
                    reveal_strlit("");
                }
                ""
            },
        }
    }

    /// The fact under `key` read as an integer, 0 when absent or not a number.
    pub fn get_i64(&self, key: &str) -> (r: i64)
        ensures
            r == int_or(fact(self.raw@, key@), 0),
    {
        parse_i64_or(self.get(key), 0)
    }
}

/// `line.split_once('=')` with both sides trimmed, if the line has a `=`.
pub open spec fn fact_of_line(line: Seq<char>) -> Option<(Seq<char>, Seq<char>)> {
    let i = index_of_char_from(line, '=', 0);
    if i >= line.len() {
        None
    } else {
        Some((trim(line.subrange(0, i)), trim(line.subrange(i + 1, line.len() as int))))
    }
}

/// The facts of a sequence of output lines; a later line wins over an
/// earlier one with the same key.
pub open spec fn facts_of_lines(ls: Seq<Seq<char>>) -> Map<Seq<char>, Seq<char>>
    decreases ls.len(),
{
    if ls.len() == 0 {
        Map::empty()
    } else {
        let m = facts_of_lines(ls.drop_last());
        match fact_of_line(ls.last()) {
            Some(kv) => m.insert(kv.0, kv.1),
            None => m,
        }
    }
}

/// The facts printed by the detect script.
pub open spec fn facts_of(stdout: Seq<char>) -> Map<Seq<char>, Seq<char>> {
    facts_of_lines(lines(stdout))
}

/// Parse `key=value` lines (later keys overwrite earlier ones).
pub fn parse_facts(stdout: &str) -> (r: StrMap<String>)
    ensures
        r@ == facts_of(stdout@),
{
    let sc = to_chars(stdout);
    let ls = lines_of(sc.as_slice());
    let ghost lv = vec_views(ls@);
    let mut m: StrMap<String> = StrMap::new();
    let mut i: usize = 0;
    while i < ls.len()
        invariant
            i <= ls@.len(),
            lv == vec_views(ls@),
            lv == lines(stdout@),
            m@ == facts_of_lines(lv.subrange(0, i as int)),
        decreases ls@.len() - i,
    {
        let line = &ls[i];
        assert(lv.subrange(0, i + 1).drop_last() =~= lv.subrange(0, i as int));
        assert(lv.subrange(0, i + 1).last() == line@);
        let e = index_of_char(line.as_slice(), '=', 0);
        if e < line.len() {
            let k = copy_range(line.as_slice(), 0, e);
            let v = copy_range(line.as_slice(), e + 1, line.len());
            let kt = trim_string(k.as_slice());
            let vt = trim_string(v.as_slice());
            m.insert(kt, vt);
        }
        i = i + 1;
    }
    assert(lv.subrange(0, i as int) =~= lv);
    m
}

/// The error recorded for a host whose probe exited non-zero: the trimmed
/// stderr followed by the SSH hint, or the hint alone.
pub open spec fn probe_error(
    host: Seq<char>,
    user: Seq<char>,
    stderr: Seq<char>,
    detected_key: Seq<char>,
    local_user: Seq<char>,
) -> Seq<char> {
    let e = trim(stderr);
    let hint = join(failure_hints(host, user, e, detected_key, local_user), "; "@);
    if e.len() == 0 {
        hint
    } else {
        e + "\n  hint: "@ + hint
    }
}

/// What one probe tells about a host: its facts when the script exited 0,
/// else the failure with an SSH hint.
pub fn host_info_from_output(
    host: &str,
    out: &CmdOutput,
    user: &str,
    detected_key: &str,
    local_user: &str,
) -> (r: HostInfo)
    ensures
        r.host@ == host@,
        r.reachable == (out.code == 0),
        out.code == 0 ==> r.error is None && r.raw@ == facts_of(out.stdout@),
        out.code != 0 ==> r.raw@ == Map::<Seq<char>, Seq<char>>::empty() && (r.error matches Some(
            e,
        ) && e@ == probe_error(
            host@,
            user@,
            out.stderr@,
            detected_key@,
            local_user@,
        )),
{
    if out.ok() {
        HostInfo {
            host: owned(host),
            reachable: true,
            error: None,
            raw: parse_facts(out.stdout.as_str()),
        }
    } else {
        let ec = to_chars(out.stderr.as_str());
        let e = trim_string(ec.as_slice());
        let hint = ssh_failure_hint(host, user, e.as_str(), detected_key, local_user);
        let msg = if e.unicode_len() == 0 {
            hint
        } else {
            let mut m = e.clone();
            push_str(&mut m, "\n  hint: ");
            push_str(&mut m, hint.as_str());
            m
        };
        HostInfo { host: owned(host), reachable: false, error: Some(msg), raw: StrMap::new() }
    }
}

/// A host whose probe could not run at all.
pub fn host_info_from_error(host: &str, message: &str) -> (r: HostInfo)
    ensures
        r.host@ == host@,
        !r.reachable,
        r.error matches Some(e) && e@ == message@,
        r.raw@ == Map::<Seq<char>, Seq<char>>::empty(),
{
    HostInfo { host: owned(host), reachable: false, error: Some(owned(message)), raw: StrMap::new() }
}

/// Host `a` does not come after host `b`.
pub open spec fn host_le(a: HostInfo, b: HostInfo) -> bool {
    !lex_lt(b.host@, a.host@)
}

fn host_before(a: &HostInfo, b: &HostInfo) -> (r: bool)
    ensures
        r == lex_lt(a.host@, b.host@),
{
    let ac = to_chars(a.host.as_str());
    let bc = to_chars(b.host.as_str());
    lex_less(ac.as_slice(), bc.as_slice())
}

/// Index of a host that no other host in `v` comes before.
fn index_of_first_host(v: &Vec<HostInfo>) -> (r: usize)
    requires
        v@.len() > 0,
    ensures
        r < v@.len(),
        forall|j: int| 0 <= j < v@.len() ==> host_le(v@[r as int], #[trigger] v@[j]),
{
    let mut best: usize = 0;
    let mut i: usize = 1;
    proof {
        crate::strmap::lemma_lex_irreflexive(v@[0].host@);
    }
    while i < v.len()
        invariant
            0 < v@.len(),
            best < i <= v@.len(),
            forall|j: int| 0 <= j < i ==> host_le(v@[best as int], #[trigger] v@[j]),
        decreases v@.len() - i,
    {
        if host_before(&v[i], &v[best]) {
            proof {
                assert forall|j: int| 0 <= j < i implies host_le(v@[i as int], #[trigger] v@[j]) by {
                    crate::strmap::lemma_lex_asymmetric(v@[i as int].host@, v@[best as int].host@);
                    if lex_lt(v@[j].host@, v@[i as int].host@) {
                        crate::strmap::lemma_lex_transitive(
                            v@[j].host@,
                            v@[i as int].host@,
                            v@[best as int].host@,
                        );
                        crate::strmap::lemma_lex_total(v@[j].host@, v@[best as int].host@);
                    }
                }
                crate::strmap::lemma_lex_irreflexive(v@[i as int].host@);
            }
            best = i;
        }
        i = i + 1;
    }
    best
}

/// The probed hosts ordered by host name (the probes finish in any order).
pub fn sort_by_host(v: Vec<HostInfo>) -> (r: Vec<HostInfo>)
    ensures
        r@.to_multiset() == v@.to_multiset(),
        forall|i: int, j: int| 0 <= i < j < r@.len() ==> host_le(#[trigger] r@[i], #[trigger] r@[j]),
{
    let ghost orig = v@;
    let mut rest = v;
    let mut r: Vec<HostInfo> = Vec::new();
    proof {
        r@.to_multiset_ensures();
        vstd::multiset::lemma_multiset_empty_len(r@.to_multiset());
        assert(r@.to_multiset().add(rest@.to_multiset()) =~= orig.to_multiset());
    }
    while rest.len() > 0
        invariant
            r@.to_multiset().add(rest@.to_multiset()) == orig.to_multiset(),
            forall|i: int, j: int|
                0 <= i < j < r@.len() ==> host_le(#[trigger] r@[i], #[trigger] r@[j]),
            forall|i: int, j: int|
                0 <= i < r@.len() && 0 <= j < rest@.len() ==> host_le(
                    #[trigger] r@[i],
                    #[trigger] rest@[j],
                ),
        decreases rest@.len(),
    {
        let k = index_of_first_host(&rest);
        let ghost before_rest = rest@;
        let ghost before_r = r@;
        let x = rest.remove(k);
        proof {
            before_rest.to_multiset_ensures();
            before_r.to_multiset_ensures();
        }
        assert(before_rest.remove(k as int) == rest@);
        assert(rest@.to_multiset() == before_rest.to_multiset().remove(x));
        r.push(x);
        assert(r@ == before_r.push(x));
        assert(r@.to_multiset() == before_r.to_multiset().insert(x));
        assert(before_rest.to_multiset().count(x) > 0) by {
            assert(before_rest[k as int] == x);
            assert(before_rest.contains(x));
        }
        assert(r@.to_multiset().add(rest@.to_multiset()) =~= orig.to_multiset());
        assert forall|j: int| 0 <= j < rest@.len() implies host_le(x, #[trigger] rest@[j]) by {
            if j < k {
                assert(rest@[j] == before_rest[j]);
            } else {
                assert(rest@[j] == before_rest[j + 1]);
            }
        }
        assert forall|i: int, j: int|
            0 <= i < r@.len() && 0 <= j < rest@.len() implies host_le(
                #[trigger] r@[i],
                #[trigger] rest@[j],
            ) by {
            if i < before_r.len() {
                if j < k {
                    assert(rest@[j] == before_rest[j]);
                } else {
                    assert(rest@[j] == before_rest[j + 1]);
                }
            }
        }
        assert forall|i: int, j: int| 0 <= i < j < r@.len() implies host_le(
            #[trigger] r@[i],
            #[trigger] r@[j],
        ) by {
            if j == before_r.len() {
                assert(before_rest[k as int] == x);
            }
        }
    }
    proof {
        rest@.to_multiset_ensures();
        vstd::multiset::lemma_multiset_empty_len(rest@.to_multiset());
    }
    assert(r@.to_multiset() =~= r@.to_multiset().add(rest@.to_multiset()));
    r
}

// ---------------------------------------------------------------------------
// Grading
// ---------------------------------------------------------------------------

#[derive(Debug, Clone, Copy, PartialEq, Eq, Structural)]
pub enum Severity {
    Pass,
    Warn,
    Fail,
}

pub open spec fn severity_label(s: Severity) -> Seq<char> {
    match s {
        Severity::Pass => "OK"@,
        Severity::Warn => "WARN"@,
        Severity::Fail => "FAIL"@,
    }
}

impl Severity {
    pub fn label(&self) -> (r: &'static str)
        ensures
            r@ == severity_label(*self),
    {
        match self {
            Severity::Pass => "OK",
            Severity::Warn => "WARN",
            Severity::Fail => "FAIL",
        }
    }
}

/// One precheck finding.
#[derive(Debug)]
pub struct Check {
    pub name: String,
    pub value: String,
    pub severity: Severity,
    pub note: String,
}

pub ghost struct CheckView {
    pub name: Seq<char>,
    pub value: Seq<char>,
    pub severity: Severity,
    pub note: Seq<char>,
}

impl View for Check {
    type V = CheckView;

    open spec fn view(&self) -> CheckView {
        CheckView { name: self.name@, value: self.value@, severity: self.severity, note: self.note@ }
    }
}

pub open spec fn check_views(v: Seq<Check>) -> Seq<CheckView> {
    Seq::new(v.len(), |i: int| v[i]@)
}

fn check(name: &str, value: String, severity: Severity, note: &str) -> (r: Check)
    ensures
        r@ == (CheckView { name: name@, value: value@, severity, note: note@ }),
{
    Check { name: owned(name), value, severity, note: owned(note) }
}

/// The first whitespace-separated token of `s` from `i` on that starts with
/// an ASCII digit; `inside` says whether `i` is inside a token already.
pub open spec fn digit_token_from(s: Seq<char>, i: int, inside: bool) -> Option<Seq<char>>
    decreases s.len() - i,
{
    if i < 0 || i >= s.len() {
        None
    } else if is_ws(s[i]) {
        digit_token_from(s, i + 1, false)
    } else if !inside && is_digit(s[i]) {
        Some(s.subrange(i, token_end(s, i)))
    } else {
        digit_token_from(s, i + 1, true)
    }
}

/// End of the token that runs from `i`: the next whitespace, or the end.
pub open spec fn token_end(s: Seq<char>, i: int) -> int
    decreases s.len() - i,
{
    if i < 0 || i >= s.len() {
        s.len() as int
    } else if is_ws(s[i]) {
        i
    } else {
        token_end(s, i + 1)
    }
}

/// The version token of a `java -version` line
/// (`openjdk version 17.0.10 2024-01-16` gives `17.0.10`); the line itself
/// when no token starts with a digit.
pub open spec fn short_java(v: Seq<char>) -> Seq<char> {
    match digit_token_from(v, 0, false) {
        Some(t) => t,
        None => v,
    }
}

proof fn lemma_token_end_bounds(s: Seq<char>, i: int)
    requires
        0 <= i <= s.len(),
    ensures
        i <= token_end(s, i) <= s.len(),
    decreases s.len() - i,
{
    if i < s.len() && !is_ws(s[i]) {
        lemma_token_end_bounds(s, i + 1);
    }
}

pub fn shorten_java(v: &str) -> (r: String)
    ensures
        r@ == short_java(v@),
{
    let vc = to_chars(v);
    let n = vc.len();
    let mut i: usize = 0;
    let mut inside = false;
    while i < n
        invariant
            n == vc@.len(),
            vc@ == v@,
            i <= n,
            digit_token_from(v@, 0, false) == digit_token_from(v@, i as int, inside),
        decreases n - i,
    {
        let c = vc[i];
        if is_whitespace(c) {
            inside = false;
        } else if !inside && is_ascii_digit(c) {
            let mut j = i;
            while j < n && !is_whitespace(vc[j])
                invariant
                    n == vc@.len(),
                    i <= j <= n,
                    token_end(vc@, i as int) == token_end(vc@, j as int),
                decreases n - j,
            {
                j = j + 1;
            }
            return from_chars(copy_range(vc.as_slice(), i, j).as_slice());
        } else {
            inside = true;
        }
        i = i + 1;
    }
    owned(v)
}

/// `i` read as an integer, or `d`.
pub open spec fn num(raw: Map<Seq<char>, Seq<char>>, key: Seq<char>, d: int) -> int {
    int_or(fact(raw, key), d)
}

/// Whole GiB in a KiB count, truncated toward zero as `/ 1024 / 1024` on
/// `i64` does.
pub open spec fn kb_to_gb(kb: int) -> int {
    if kb >= 0 {
        kb / 1024 / 1024
    } else {
        -((-kb) / 1024 / 1024)
    }
}

fn kb_to_gb_exec(kb: i64) -> (r: i64)
    ensures
        r == kb_to_gb(kb as int),
{
    if kb >= 0 {
        let u = kb as u64;
        (u / 1024 / 1024) as i64
    } else {
        let mag: u64 = if kb == i64::MIN {
            9223372036854775808u64
        } else {
            (-kb) as u64
        };
        let g = mag / 1024 / 1024;
        assert(g <= 8796093022208);
        -(g as i64)
    }
}

pub open spec fn cpu_check(raw: Map<Seq<char>, Seq<char>>) -> CheckView {
    let cpu = num(raw, "cpu_cores"@, 0);
    CheckView {
        name: "cpu_cores"@,
        value: int_dec(cpu),
        severity: if cpu == 0 {
            Severity::Fail
        } else if cpu < 4 {
            Severity::Warn
        } else {
            Severity::Pass
        },
        note: if cpu < 4 {
            "recommend >= 8 cores"@
        } else {
            ""@
        },
    }
}

pub open spec fn memory_check(raw: Map<Seq<char>, Seq<char>>) -> CheckView {
    let gb = kb_to_gb(num(raw, "mem_total_kb"@, 0));
    CheckView {
        name: "memory"@,
        value: int_dec(gb) + " GB"@,
        severity: if gb < 8 {
            Severity::Warn
        } else {
            Severity::Pass
        },
        note: if gb < 8 {
            "recommend >= 16 GB"@
        } else {
            ""@
        },
    }
}

pub open spec fn disk_check(raw: Map<Seq<char>, Seq<char>>) -> CheckView {
    let disk = num(raw, "disk_avail_gb"@, 0);
    CheckView {
        name: "disk_avail"@,
        value: int_dec(disk) + " GB"@,
        severity: if 0 < disk < 20 {
            Severity::Warn
        } else {
            Severity::Pass
        },
        note: if 0 < disk < 20 {
            "low free space on install path"@
        } else {
            ""@
        },
    }
}

pub open spec fn java_check(raw: Map<Seq<char>, Seq<char>>) -> CheckView {
    let java = fact(raw, "java_version"@);
    CheckView {
        name: "java"@,
        value: if java.len() == 0 {
            "not found"@
        } else {
            short_java(java)
        },
        severity: if java.len() == 0 {
            Severity::Fail
        } else {
            Severity::Pass
        },
        note: if java.len() == 0 {
            "install JDK 8 (Doris 2.0) or JDK 17 (Doris 2.1+/3.x) and set JAVA_HOME"@
        } else {
            ""@
        },
    }
}

pub open spec fn map_count_check(raw: Map<Seq<char>, Seq<char>>) -> CheckView {
    let mmc = num(raw, "max_map_count"@, 0);
    CheckView {
        name: "vm.max_map_count"@,
        value: int_dec(mmc),
        severity: if mmc < 2000000 {
            Severity::Fail
        } else {
            Severity::Pass
        },
        note: if mmc < 2000000 {
            "set: sysctl -w vm.max_map_count=2000000"@
        } else {
            ""@
        },
    }
}

pub open spec fn swappiness_check(raw: Map<Seq<char>, Seq<char>>) -> CheckView {
    let swap = num(raw, "swappiness"@, -1);
    CheckView {
        name: "vm.swappiness"@,
        value: int_dec(swap),
        severity: if swap > 10 {
            Severity::Warn
        } else {
            Severity::Pass
        },
        note: if swap > 10 {
            "recommend 0: sysctl -w vm.swappiness=0"@
        } else {
            ""@
        },
    }
}

pub open spec fn nofile_check(raw: Map<Seq<char>, Seq<char>>) -> CheckView {
    let nofile = num(raw, "ulimit_nofile"@, 0);
    CheckView {
        name: "ulimit -n"@,
        value: int_dec(nofile),
        severity: if nofile < 65536 {
            Severity::Warn
        } else {
            Severity::Pass
        },
        note: if nofile < 65536 {
            "recommend >= 1000000 (limits.conf nofile)"@
        } else {
            ""@
        },
    }
}

/// The install-directory finding, absent when the script did not report it.
pub open spec fn install_dir_checks(raw: Map<Seq<char>, Seq<char>>) -> Seq<CheckView> {
    let ok = fact(raw, "install_dir_ok"@);
    if ok.len() == 0 {
        Seq::empty()
    } else {
        seq![
            CheckView {
                name: "install_dir"@,
                value: ok,
                severity: if ok == "yes"@ {
                    Severity::Pass
                } else {
                    Severity::Fail
                },
                note: if ok == "yes"@ {
                    ""@
                } else {
                    "install_dir not writable; use ~/doris or run SSH as root"@
                },
            },
        ]
    }
}

/// All findings for a host's facts, in report order.
pub open spec fn host_checks(raw: Map<Seq<char>, Seq<char>>) -> Seq<CheckView> {
    seq![
        cpu_check(raw),
        memory_check(raw),
        disk_check(raw),
        java_check(raw),
        map_count_check(raw),
        swappiness_check(raw),
        nofile_check(raw),
    ] + install_dir_checks(raw)
}

fn push_gb(n: i64) -> (r: String)
    ensures
        r@ == int_dec(n as int) + " GB"@,
{
    let mut s = i64_to_string(n);
    push_str(&mut s, " GB");
    s
}

/// Validate a host against Doris requirements and recommendations.
pub fn check_host(i: &HostInfo) -> (r: Vec<Check>)
    ensures
        check_views(r@) == host_checks(i.raw@),
        fact(i.raw@, "install_dir_ok"@).len() > 0 && fact(i.raw@, "install_dir_ok"@) != "yes"@
            ==> exists|k: int| 0 <= k < r@.len() && (#[trigger] r@[k]).severity == Severity::Fail,
{
    proof {
        lemma_unwritable_install_dir_fails(i.raw@);
    }
    let ghost raw = i.raw@;
    let mut checks: Vec<Check> = Vec::new();

    let cpu = i.get_i64("cpu_cores");
    let sev = if cpu == 0 {
        Severity::Fail
    } else if cpu < 4 {
        Severity::Warn
    } else {
        Severity::Pass
    };
    checks.push(
        check(
            "cpu_cores",
            i64_to_string(cpu),
            sev,
            if cpu < 4 {
                "recommend >= 8 cores"
            } else {
                ""
            },
        ),
    );

    let mem_gb = kb_to_gb_exec(i.get_i64("mem_total_kb"));
    checks.push(
        check(
            "memory",
            push_gb(mem_gb),
            if mem_gb < 8 {
                Severity::Warn
            } else {
                Severity::Pass
            },
            if mem_gb < 8 {
                "recommend >= 16 GB"
            } else {
                ""
            },
        ),
    );

    let disk = parse_i64_or(i.get("disk_avail_gb"), 0);
    let low = disk > 0 && disk < 20;
    checks.push(
        check(
            "disk_avail",
            push_gb(disk),
            if low {
                Severity::Warn
            } else {
                Severity::Pass
            },
            if low {
                "low free space on install path"
            } else {
                ""
            },
        ),
    );

    let java = i.get("java_version");
    let no_java = java.unicode_len() == 0;
    checks.push(
        check(
            "java",
            if no_java {
                owned("not found")
            } else {
                shorten_java(java)
            },
            if no_java {
                Severity::Fail
            } else {
                Severity::Pass
            },
            if no_java {
                "install JDK 8 (Doris 2.0) or JDK 17 (Doris 2.1+/3.x) and set JAVA_HOME"
            } else {
                ""
            },
        ),
    );

    let mmc = i.get_i64("max_map_count");
    checks.push(
        check(
            "vm.max_map_count",
            i64_to_string(mmc),
            if mmc < 2000000 {
                Severity::Fail
            } else {
                Severity::Pass
            },
            if mmc < 2000000 {
                "set: sysctl -w vm.max_map_count=2000000"
            } else {
                ""
            },
        ),
    );

    let swap = parse_i64_or(i.get("swappiness"), -1);
    checks.push(
        check(
            "vm.swappiness",
            i64_to_string(swap),
            if swap > 10 {
                Severity::Warn
            } else {
                Severity::Pass
            },
            if swap > 10 {
                "recommend 0: sysctl -w vm.swappiness=0"
            } else {
                ""
            },
        ),
    );

    let nofile = i.get_i64("ulimit_nofile");
    checks.push(
        check(
            "ulimit -n",
            i64_to_string(nofile),
            if nofile < 65536 {
                Severity::Warn
            } else {
                Severity::Pass
            },
            if nofile < 65536 {
                "recommend >= 1000000 (limits.conf nofile)"
            } else {
                ""
            },
        ),
    );
    let ghost first = checks@;
    assert(check_views(first) =~= seq![
        cpu_check(raw),
        memory_check(raw),
        disk_check(raw),
        java_check(raw),
        map_count_check(raw),
        swappiness_check(raw),
        nofile_check(raw),
    ]);

    let install_ok = i.get("install_dir_ok");
    if install_ok.unicode_len() > 0 {
        let yes = {
            let ic = to_chars(install_ok);
            let yc = to_chars("yes");
            crate::text::chars_eq(ic.as_slice(), yc.as_slice())
        };
        checks.push(
            check(
                "install_dir",
                owned(install_ok),
                if yes {
                    Severity::Pass
                } else {
                    Severity::Fail
                },
                if yes {
                    ""
                } else {
                    "install_dir not writable; use ~/doris or run SSH as root"
                },
            ),
        );
        assert(check_views(checks@) =~= check_views(first) + install_dir_checks(raw));
    } else {
        assert(check_views(checks@) =~= check_views(first) + install_dir_checks(raw));
    }
    checks
}

/// A check that failed.
pub open spec fn has_failure(cs: Seq<CheckView>) -> bool {
    exists|k: int| 0 <= k < cs.len() && (#[trigger] cs[k]).severity == Severity::Fail
}

/// Whether a host fails the precheck: unreachable, or some finding failed.
pub open spec fn host_fails(i: HostInfo) -> bool {
    !i.reachable || has_failure(host_checks(i.raw@))
}

/// The separated-mode prerequisite findings: Meta Service endpoint (must be
/// set, as `host:port`), FoundationDB cluster string and storage vault.
pub open spec fn separated_checks(sep: Option<crate::config::SeparatedView>) -> Seq<CheckView> {
    let endpoint = match sep {
        Some(s) => s.meta_service_endpoint,
        None => Seq::<char>::empty(),
    };
    let ep_ok = endpoint.len() > 0 && contains(endpoint, ":"@);
    let fdb = match sep {
        Some(s) => match s.fdb_cluster {
            Some(f) => f,
            None => Seq::<char>::empty(),
        },
        None => Seq::<char>::empty(),
    };
    let vault = match sep {
        Some(s) => s.storage_vault,
        None => None,
    };
    seq![
        CheckView {
            name: "meta_service_endpoint"@,
            value: if endpoint.len() == 0 {
                "(not set)"@
            } else {
                endpoint
            },
            severity: if ep_ok {
                Severity::Pass
            } else {
                Severity::Fail
            },
            note: if ep_ok {
                ""@
            } else {
                "set deploy.separated.meta_service_endpoint (host:5000)"@
            },
        },
        CheckView {
            name: "fdb_cluster"@,
            value: if fdb.len() == 0 {
                "(not set)"@
            } else {
                fdb
            },
            severity: if fdb.len() == 0 {
                Severity::Warn
            } else {
                Severity::Pass
            },
            note: if fdb.len() == 0 {
                "FoundationDB 7.1.x required before Meta Service"@
            } else {
                ""@
            },
        },
        CheckView {
            name: "storage_vault"@,
            value: match vault {
                Some(v) => v.name,
                None => "(not set)"@,
            },
            severity: if vault is Some {
                Severity::Pass
            } else {
                Severity::Warn
            },
            note: if vault is Some {
                ""@
            } else {
                "configure deploy.separated.storage_vault or create manually"@
            },
        },
    ]
}

/// The cluster-level findings: present only for a separated deployment.
pub open spec fn cluster_checks(c: ConfigView) -> Option<Seq<CheckView>> {
    match c.deploy {
        Some(d) => if d.architecture == DeployArchitecture::Separated {
            Some(separated_checks(d.separated))
        } else {
            None
        },
        None => None,
    }
}

/// The separated-mode prerequisites of `cfg`, when it deploys separated.
pub fn cluster_precheck(cfg: &Config) -> (r: Option<Vec<Check>>)
    ensures
        r is Some == cluster_checks(cfg@) is Some,
        r matches Some(v) ==> Some(check_views(v@)) == cluster_checks(cfg@),
{
    let deploy = match &cfg.deploy {
        Some(d) => d,
        None => return None,
    };
    if deploy.architecture != DeployArchitecture::Separated {
        return None;
    }
    let sep = &deploy.separated;
    let endpoint: String = match sep {
        Some(s) => s.meta_service_endpoint.clone(),
        None => String::new(),
    };
    let ec = to_chars(endpoint.as_str());
    let ep_ok = ec.len() > 0 && contains_str(ec.as_slice(), ":");
    let ep_value = if ec.len() == 0 {
        owned("(not set)")
    } else {
        endpoint
    };
    let fdb: String = match sep {
        Some(s) => match &s.fdb_cluster {
            Some(f) => f.clone(),
            None => String::new(),
        },
        None => String::new(),
    };
    let fdb_empty = fdb.unicode_len() == 0;
    let vault_name: Option<String> = match sep {
        Some(s) => match &s.storage_vault {
            Some(v) => Some(v.name.clone()),
            None => None,
        },
        None => None,
    };
    let has_vault = vault_name.is_some();
    let mut rows: Vec<Check> = Vec::new();
    rows.push(
        check(
            "meta_service_endpoint",
            ep_value,
            if ep_ok {
                Severity::Pass
            } else {
                Severity::Fail
            },
            if ep_ok {
                ""
            } else {
                "set deploy.separated.meta_service_endpoint (host:5000)"
            },
        ),
    );
    rows.push(
        check(
            "fdb_cluster",
            if fdb_empty {
                owned("(not set)")
            } else {
                fdb
            },
            if fdb_empty {
                Severity::Warn
            } else {
                Severity::Pass
            },
            if fdb_empty {
                "FoundationDB 7.1.x required before Meta Service"
            } else {
                ""
            },
        ),
    );
    rows.push(
        check(
            "storage_vault",
            match vault_name {
                Some(n) => n,
                None => owned("(not set)"),
            },
            if has_vault {
                Severity::Pass
            } else {
                Severity::Warn
            },
            if has_vault {
                ""
            } else {
                "configure deploy.separated.storage_vault or create manually"
            },
        ),
    );
    assert(check_views(rows@) =~= separated_checks(cfg@.deploy->0.separated));
    Some(rows)
}

/// Whether the whole precheck fails: a failed separated-mode prerequisite,
/// or a host that fails.
pub open spec fn precheck_fails(c: ConfigView, infos: Seq<HostInfo>) -> bool {
    (match cluster_checks(c) {
        Some(cs) => has_failure(cs),
        None => false,
    }) || exists|k: int| 0 <= k < infos.len() && host_fails(#[trigger] infos[k])
}

fn any_failure(cs: &Vec<Check>) -> (r: bool)
    ensures
        r == has_failure(check_views(cs@)),
{
    let mut i: usize = 0;
    while i < cs.len()
        invariant
            i <= cs@.len(),
            forall|k: int| 0 <= k < i ==> (#[trigger] cs@[k]).severity != Severity::Fail,
        decreases cs@.len() - i,
    {
        if cs[i].severity == Severity::Fail {
            assert(check_views(cs@)[i as int].severity == Severity::Fail);
            return true;
        }
        i = i + 1;
    }
    assert forall|k: int| 0 <= k < check_views(cs@).len() implies (#[trigger] check_views(
        cs@,
    )[k]).severity != Severity::Fail by {
        assert(check_views(cs@)[k] == cs@[k]@);
    }
    false
}

/// `true` when some finding of the precheck is a failure.
pub fn precheck_failed(cfg: &Config, infos: &Vec<HostInfo>) -> (r: bool)
    ensures
        r == precheck_fails(cfg@, infos@),
{
    let cluster_fail = match cluster_precheck(cfg) {
        Some(rows) => any_failure(&rows),
        None => false,
    };
    if cluster_fail {
        return true;
    }
    let mut i: usize = 0;
    while i < infos.len()
        invariant
            i <= infos@.len(),
            forall|k: int| 0 <= k < i ==> !host_fails(#[trigger] infos@[k]),
        decreases infos@.len() - i,
    {
        let info = &infos[i];
        if !info.reachable {
            assert(host_fails(infos@[i as int]));
            return true;
        }
        let cs = check_host(info);
        if any_failure(&cs) {
            assert(host_fails(infos@[i as int]));
            return true;
        }
        i = i + 1;
    }
    false
}

/// The cells of one `deploy detect` table row.
pub open spec fn detect_row_of(i: HostInfo) -> Seq<Seq<char>> {
    if !i.reachable {
        seq![
            i.host@,
            "UNREACHABLE: "@ + match i.error {
                Some(e) => e@,
                None => ""@,
            },
            "-"@,
            "-"@,
            "-"@,
            "-"@,
            "-"@,
            "-"@,
        ]
    } else {
        seq![
            i.host@,
            fact(i.raw@, "os"@),
            fact(i.raw@, "arch"@),
            fact(i.raw@, "cpu_cores"@),
            int_dec(kb_to_gb(num(i.raw@, "mem_total_kb"@, 0))),
            fact(i.raw@, "disk_avail_gb"@),
            short_java(fact(i.raw@, "java_version"@)),
            fact(i.raw@, "max_map_count"@),
        ]
    }
}

/// Host, OS, arch, CPU, memory (GB), free disk (GB), Java, max_map_count.
pub fn detect_row(i: &HostInfo) -> (r: Vec<String>)
    ensures
        crate::text::string_views(r@) == detect_row_of(*i),
{
    let mut row: Vec<String> = Vec::new();
    row.push(i.host.clone());
    if !i.reachable {
        let mut e = owned("UNREACHABLE: ");
        match &i.error {
            Some(m) => push_str(&mut e, m.as_str()),
            None => {},
        }
        proof {
            if i.error is None {
                reveal_strlit("");
                assert(e@ =~= "UNREACHABLE: "@ + ""@);
            }
        }
        row.push(e);
        let mut k: usize = 0;
        while k < 6
            invariant
                0 <= k <= 6,
                row@.len() == 2 + k,
                forall|j: int| 2 <= j < 2 + k ==> (#[trigger] row@[j])@ == "-"@,
                row@[0]@ == i.host@,
                row@[1]@ == "UNREACHABLE: "@ + match i.error {
                    Some(m) => m@,
                    None => ""@,
                },
            decreases 6 - k,
        {
            row.push(owned("-"));
            k = k + 1;
        }
        assert(crate::text::string_views(row@) =~= detect_row_of(*i));
    } else {
        row.push(owned(i.get("os")));
        row.push(owned(i.get("arch")));
        row.push(owned(i.get("cpu_cores")));
        row.push(i64_to_string(kb_to_gb_exec(i.get_i64("mem_total_kb"))));
        row.push(owned(i.get("disk_avail_gb")));
        row.push(shorten_java(i.get("java_version")));
        row.push(owned(i.get("max_map_count")));
        assert(crate::text::string_views(row@) =~= detect_row_of(*i));
    }
    row
}

/// A host whose `vm.max_map_count` is below 2000000 (or unreadable) fails
/// the precheck, whatever else it reports.
pub proof fn lemma_low_map_count_fails(raw: Map<Seq<char>, Seq<char>>)
    requires
        num(raw, "max_map_count"@, 0) < 2000000,
    ensures
        has_failure(host_checks(raw)),
{
    assert(host_checks(raw)[4] == map_count_check(raw));
}

/// A host without a Java runtime fails the precheck, whatever else it
/// reports.
pub proof fn lemma_missing_java_fails(raw: Map<Seq<char>, Seq<char>>)
    requires
        fact(raw, "java_version"@).len() == 0,
    ensures
        has_failure(host_checks(raw)),
{
    assert(host_checks(raw)[3] == java_check(raw));
}

/// A host whose probe reports an install directory that is not writable
/// (`install_dir_ok` present and other than `yes`) fails the precheck,
/// whatever else it reports; one that reports `yes` has that finding pass.
pub proof fn lemma_unwritable_install_dir_fails(raw: Map<Seq<char>, Seq<char>>)
    ensures
        fact(raw, "install_dir_ok"@).len() > 0 && fact(raw, "install_dir_ok"@) != "yes"@
            ==> has_failure(host_checks(raw)),
        fact(raw, "install_dir_ok"@) == "yes"@ ==> host_checks(raw).len() == 8 && host_checks(
            raw,
        )[7].name == "install_dir"@ && host_checks(raw)[7].severity == Severity::Pass,
{
    reveal_strlit("yes");
    let ok = fact(raw, "install_dir_ok"@);
    let hc = host_checks(raw);
    if ok.len() > 0 {
        assert(hc.len() == 8);
        assert(hc[7] == install_dir_checks(raw)[0]);
    }
}

/// An unreachable host fails the precheck.
pub proof fn lemma_unreachable_fails(i: HostInfo)
    requires
        !i.reachable,
    ensures
        host_fails(i),
{
}

} // verus!
