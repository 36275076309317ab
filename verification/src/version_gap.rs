//! Version gaps of tablet replicas: which replicas to inspect, where their
//! backends are, what BE `compaction/show` says is missing, and the plan of
//! `pad_rowset` calls that closes the gaps.
use vstd::prelude::*;

use crate::cli::PadRowsetArgs;
use crate::client::{cell_of, col_index, parse_version_range, version_range_of, CompactionStatus, QueryResult};
use crate::config::opt_view;
use crate::ops::cell_or_empty;
use crate::strmap::StrMap;
use crate::text::{
    dec, eq_ignore_ascii_case, eq_ignore_case, int_dec, join, join_strings, owned, parse_u16,
    push_i64, push_str, push_u64, string_views, to_chars,
};

verus! {

// ---------------------------------------------------------------------------
// Replica targets (`ADMIN SHOW REPLICA STATUS`)
// ---------------------------------------------------------------------------

/// A tablet replica to inspect.
#[derive(Debug)]
pub struct ReplicaTarget {
    pub tablet_id: String,
    pub backend_id: String,
    pub status: String,
}

pub ghost struct TargetView {
    pub tablet_id: Seq<char>,
    pub backend_id: Seq<char>,
    pub status: Seq<char>,
}

impl View for ReplicaTarget {
    type V = TargetView;

    open spec fn view(&self) -> TargetView {
        TargetView { tablet_id: self.tablet_id@, backend_id: self.backend_id@, status: self.status@ }
    }
}

pub open spec fn target_views(v: Seq<ReplicaTarget>) -> Seq<TargetView> {
    Seq::new(v.len(), |i: int| v[i]@)
}

/// The replica target of one status row, or why the row is unusable.
pub open spec fn target_of_row(cols: Seq<String>, row: Seq<String>) -> Result<TargetView, Seq<char>> {
    let t = cell_or_empty(cols, row, "TabletId"@);
    let b = cell_or_empty(cols, row, "BackendId"@);
    if t.len() == 0 {
        Err("empty TabletId in replica status"@)
    } else if b.len() == 0 {
        Err("empty BackendId in replica status"@)
    } else {
        Ok(
            TargetView {
                tablet_id: t,
                backend_id: b,
                status: match cell_of(cols, row, "Status"@) {
                    Some(s) => s,
                    None => "UNKNOWN"@,
                },
            },
        )
    }
}

/// The targets of the first `n` rows; the first unusable row is the error.
pub open spec fn targets_upto(cols: Seq<String>, rows: Seq<Vec<String>>, n: int) -> Result<
    Seq<TargetView>,
    Seq<char>,
>
    decreases n,
{
    if n <= 0 {
        Ok(Seq::empty())
    } else {
        match targets_upto(cols, rows, n - 1) {
            Err(e) => Err(e),
            Ok(ts) => match target_of_row(cols, rows[n - 1]@) {
                Err(e) => Err(e),
                Ok(t) => Ok(ts.push(t)),
            },
        }
    }
}

proof fn lemma_targets_err_persists(cols: Seq<String>, rows: Seq<Vec<String>>, k: int, n: int)
    requires
        0 <= k <= n,
        targets_upto(cols, rows, k) is Err,
    ensures
        targets_upto(cols, rows, n) == targets_upto(cols, rows, k),
    decreases n - k,
{
    if k < n {
        lemma_targets_err_persists(cols, rows, k, n - 1);
    }
}

/// The replica targets of an `ADMIN SHOW REPLICA STATUS` result.
pub open spec fn targets_of(cols: Seq<String>, rows: Seq<Vec<String>>) -> Result<
    Seq<TargetView>,
    Seq<char>,
> {
    if col_index(cols, "TabletId"@) is None {
        Err("TabletId column missing from ADMIN SHOW REPLICA STATUS"@)
    } else if col_index(cols, "BackendId"@) is None {
        Err("BackendId column missing from ADMIN SHOW REPLICA STATUS"@)
    } else {
        targets_upto(cols, rows, rows.len() as int)
    }
}

fn cell_text(r: &QueryResult, row: &Vec<String>, name: &str) -> (c: Option<String>)
    ensures
        c matches Some(v) ==> cell_of(r.columns@, row@, name@) == Some(v@),
        c is None ==> cell_of(r.columns@, row@, name@) is None,
{
    match r.col(name) {
        Some(i) => if i < row.len() {
            Some(row[i].clone())
        } else {
            None
        },
        None => None,
    }
}

fn cell_text_or_empty(r: &QueryResult, row: &Vec<String>, name: &str) -> (c: String)
    ensures
        c@ == cell_or_empty(r.columns@, row@, name@),
{
    match cell_text(r, row, name) {
        Some(v) => v,
        None => String::new(),
    }
}

/// Read the replica targets from `ADMIN SHOW REPLICA STATUS`.
pub fn replica_targets_from(r: &QueryResult) -> (out: Result<Vec<ReplicaTarget>, String>)
    ensures
        out is Ok == targets_of(r.columns@, r.rows@) is Ok,
        out matches Ok(v) ==> targets_of(r.columns@, r.rows@) == Ok::<Seq<TargetView>, Seq<char>>(
            target_views(v@),
        ),
        out matches Err(m) ==> targets_of(r.columns@, r.rows@) == Err::<Seq<TargetView>, Seq<char>>(
            m@,
        ),
{
    if r.col("TabletId").is_none() {
        return Err(owned("TabletId column missing from ADMIN SHOW REPLICA STATUS"));
    }
    if r.col("BackendId").is_none() {
        return Err(owned("BackendId column missing from ADMIN SHOW REPLICA STATUS"));
    }
    let mut out: Vec<ReplicaTarget> = Vec::new();
    let mut i: usize = 0;
    assert(target_views(out@) =~= Seq::<TargetView>::empty());
    while i < r.rows.len()
        invariant
            i <= r.rows@.len(),
            out@.len() == i,
            col_index(r.columns@, "TabletId"@) is Some,
            col_index(r.columns@, "BackendId"@) is Some,
            targets_upto(r.columns@, r.rows@, i as int) == Ok::<Seq<TargetView>, Seq<char>>(
                target_views(out@),
            ),
        decreases r.rows@.len() - i,
    {
        let row = &r.rows[i];
        let t = cell_text_or_empty(r, row, "TabletId");
        if t.unicode_len() == 0 {
            proof {
                lemma_targets_err_persists(r.columns@, r.rows@, i + 1, r.rows@.len() as int);
            }
            return Err(owned("empty TabletId in replica status"));
        }
        let b = cell_text_or_empty(r, row, "BackendId");
        if b.unicode_len() == 0 {
            proof {
                lemma_targets_err_persists(r.columns@, r.rows@, i + 1, r.rows@.len() as int);
            }
            return Err(owned("empty BackendId in replica status"));
        }
        let status = match cell_text(r, row, "Status") {
            Some(s) => s,
            None => owned("UNKNOWN"),
        };
        let ghost before = out@;
        out.push(ReplicaTarget { tablet_id: t, backend_id: b, status });
        assert(target_views(out@) =~= target_views(before).push(out@[i as int]@));
        i = i + 1;
    }
    Ok(out)
}

// ---------------------------------------------------------------------------
// Backends (`SHOW BACKENDS`)
// ---------------------------------------------------------------------------

/// Where a backend's HTTP API is, and whether FE sees it alive.
#[derive(Debug)]
pub struct BackendInfo {
    pub id: String,
    pub host: String,
    pub http_port: u16,
    pub alive: bool,
}

pub ghost struct BackendView {
    pub id: Seq<char>,
    pub host: Seq<char>,
    pub http_port: u16,
    pub alive: bool,
}

impl View for BackendInfo {
    type V = BackendView;

    open spec fn view(&self) -> BackendView {
        BackendView { id: self.id@, host: self.host@, http_port: self.http_port, alive: self.alive }
    }
}

/// The backend a `SHOW BACKENDS` row describes (its id may be empty).
pub open spec fn backend_of_row(cols: Seq<String>, row: Seq<String>, default_http_port: u16) -> BackendView {
    BackendView {
        id: cell_or_empty(cols, row, "BackendId"@),
        host: cell_or_empty(cols, row, "Host"@),
        http_port: match cell_of(cols, row, "HttpPort"@) {
            Some(p) => match parse_u16(p) {
                Some(v) => v as u16,
                None => default_http_port,
            },
            None => default_http_port,
        },
        alive: match cell_of(cols, row, "Alive"@) {
            Some(a) => eq_ignore_case(a, "true"@),
            None => false,
        },
    }
}

/// Backends of the first `n` rows by id; rows without an id are skipped and
/// a later row wins over an earlier one with the same id.
pub open spec fn backends_upto(
    cols: Seq<String>,
    rows: Seq<Vec<String>>,
    n: int,
    default_http_port: u16,
) -> Map<Seq<char>, BackendView>
    decreases n,
{
    if n <= 0 {
        Map::empty()
    } else {
        let m = backends_upto(cols, rows, n - 1, default_http_port);
        let b = backend_of_row(cols, rows[n - 1]@, default_http_port);
        if b.id.len() == 0 {
            m
        } else {
            m.insert(b.id, b)
        }
    }
}

pub open spec fn backends_of(cols: Seq<String>, rows: Seq<Vec<String>>, default_http_port: u16) -> Result<
    Map<Seq<char>, BackendView>,
    Seq<char>,
> {
    if col_index(cols, "BackendId"@) is None {
        Err("BackendId missing from SHOW BACKENDS"@)
    } else if col_index(cols, "Host"@) is None {
        Err("Host missing from SHOW BACKENDS"@)
    } else {
        Ok(backends_upto(cols, rows, rows.len() as int, default_http_port))
    }
}

/// Read the backends from `SHOW BACKENDS`, keyed by backend id.
pub fn backends_from(r: &QueryResult, default_http_port: u16) -> (out: Result<StrMap<BackendInfo>, String>)
    ensures
        out is Ok == backends_of(r.columns@, r.rows@, default_http_port) is Ok,
        out matches Ok(m) ==> backends_of(r.columns@, r.rows@, default_http_port) == Ok::<
            Map<Seq<char>, BackendView>,
            Seq<char>,
        >(m@),
        out matches Err(e) ==> backends_of(r.columns@, r.rows@, default_http_port) == Err::<
            Map<Seq<char>, BackendView>,
            Seq<char>,
        >(e@),
{
    if r.col("BackendId").is_none() {
        return Err(owned("BackendId missing from SHOW BACKENDS"));
    }
    if r.col("Host").is_none() {
        return Err(owned("Host missing from SHOW BACKENDS"));
    }
    let mut m: StrMap<BackendInfo> = StrMap::new();
    let mut i: usize = 0;
    while i < r.rows.len()
        invariant
            i <= r.rows@.len(),
            m@ == backends_upto(r.columns@, r.rows@, i as int, default_http_port),
        decreases r.rows@.len() - i,
    {
        let row = &r.rows[i];
        let id = cell_text_or_empty(r, row, "BackendId");
        if id.unicode_len() > 0 {
            let host = cell_text_or_empty(r, row, "Host");
            let http_port = match cell_text(r, row, "HttpPort") {
                Some(p) => {
                    let pc = to_chars(p.as_str());
                    match crate::text::parse_u16_chars(pc.as_slice()) {
                        Some(v) => v,
                        None => default_http_port,
                    }
                },
                None => default_http_port,
            };
            let alive = match cell_text(r, row, "Alive") {
                Some(a) => {
                    let ac = to_chars(a.as_str());
                    let t = to_chars("true");
                    eq_ignore_ascii_case(ac.as_slice(), t.as_slice())
                },
                None => false,
            };
            let key = id.clone();
            let info = BackendInfo { id, host, http_port, alive };
            assert(info@ == backend_of_row(r.columns@, row@, default_http_port));
            m.insert(key, info);
        }
        i = i + 1;
    }
    Ok(m)
}

// ---------------------------------------------------------------------------
// Inspecting one replica
// ---------------------------------------------------------------------------

/// What BE `compaction/show` reported for one replica.
#[derive(Debug)]
pub struct VersionGap {
    pub tablet_id: String,
    pub backend_id: String,
    pub backend_host: String,
    pub status: String,
    pub compaction: CompactionStatus,
    pub ranges: Vec<(i64, i64)>,
    pub error: Option<String>,
}

/// The next step for one replica: a finished report (backend unknown or not
/// alive), or the BE HTTP base URL to ask `compaction/show`.
#[derive(Debug)]
pub enum Inspection {
    Done(VersionGap),
    Fetch { base_url: String, host: String },
}

pub open spec fn base_url_of(host: Seq<char>, port: u16) -> Seq<char> {
    "http://"@ + host + ":"@ + dec(port as nat)
}

pub fn base_url(host: &str, port: u16) -> (r: String)
    ensures
        r@ == base_url_of(host@, port),
{
    let mut s = owned("http://");
    push_str(&mut s, host);
    push_str(&mut s, ":");
    push_u64(&mut s, port as u64);
    s
}

/// A report that carries only an error.
pub open spec fn failed_gap(g: VersionGap, t: TargetView, host: Seq<char>, error: Seq<char>) -> bool {
    &&& g.tablet_id@ == t.tablet_id
    &&& g.backend_id@ == t.backend_id
    &&& g.backend_host@ == host
    &&& g.status@ == t.status
    &&& g.compaction.rowsets@.len() == 0
    &&& g.compaction.missing_rowsets@.len() == 0
    &&& g.ranges@.len() == 0
    &&& g.error matches Some(e) && e@ == error
}

fn error_gap(target: &ReplicaTarget, host: String, error: String) -> (g: VersionGap)
    ensures
        failed_gap(g, target@, host@, error@),
{
    VersionGap {
        tablet_id: target.tablet_id.clone(),
        backend_id: target.backend_id.clone(),
        backend_host: host,
        status: target.status.clone(),
        compaction: CompactionStatus::new(),
        ranges: Vec::new(),
        error: Some(error),
    }
}

/// Decide how to inspect a replica from what `SHOW BACKENDS` says of its
/// backend.
pub fn inspect_plan(backends: &StrMap<BackendInfo>, target: &ReplicaTarget) -> (r: Inspection)
    ensures
        !backends@.contains_key(target.backend_id@) ==> (r matches Inspection::Done(g) && failed_gap(
            g,
            target@,
            Seq::empty(),
            "backend "@ + target.backend_id@ + " not found in SHOW BACKENDS"@,
        )),
        backends@.contains_key(target.backend_id@) ==> ({
            let b = backends@[target.backend_id@];
            &&& !b.alive ==> (r matches Inspection::Done(g) && failed_gap(
                g,
                target@,
                b.host,
                "backend "@ + b.id + " ("@ + b.host + ") is not alive"@,
            ))
            &&& b.alive ==> (r matches Inspection::Fetch { base_url, host } && base_url@
                == base_url_of(b.host, b.http_port) && host@ == b.host)
        }),
{
    match backends.get(target.backend_id.as_str()) {
        None => {
            let mut e = owned("backend ");
            push_str(&mut e, target.backend_id.as_str());
            push_str(&mut e, " not found in SHOW BACKENDS");
            Inspection::Done(error_gap(target, String::new(), e))
        },
        Some(b) => {
            if !b.alive {
                let mut e = owned("backend ");
                push_str(&mut e, b.id.as_str());
                push_str(&mut e, " (");
                push_str(&mut e, b.host.as_str());
                push_str(&mut e, ") is not alive");
                Inspection::Done(error_gap(target, b.host.clone(), e))
            } else {
                Inspection::Fetch {
                    base_url: base_url(b.host.as_str(), b.http_port),
                    host: b.host.clone(),
                }
            }
        },
    }
}

/// The version ranges of the missing-rowset descriptions that parse.
pub open spec fn ranges_of(missing: Seq<String>) -> Seq<(int, int)>
    decreases missing.len(),
{
    if missing.len() == 0 {
        Seq::empty()
    } else {
        let rest = ranges_of(missing.drop_last());
        match version_range_of(missing.last()@) {
            Some(p) => rest.push(p),
            None => rest,
        }
    }
}

pub open spec fn range_ints(v: Seq<(i64, i64)>) -> Seq<(int, int)> {
    Seq::new(v.len(), |i: int| (v[i].0 as int, v[i].1 as int))
}

fn parse_ranges(missing: &Vec<String>) -> (r: Vec<(i64, i64)>)
    ensures
        range_ints(r@) == ranges_of(missing@),
{
    let mut r: Vec<(i64, i64)> = Vec::new();
    let mut i: usize = 0;
    while i < missing.len()
        invariant
            i <= missing@.len(),
            range_ints(r@) == ranges_of(missing@.subrange(0, i as int)),
        decreases missing@.len() - i,
    {
        assert(missing@.subrange(0, i + 1).drop_last() =~= missing@.subrange(0, i as int));
        match parse_version_range(missing[i].as_str()) {
            Some(p) => {
                let ghost before = r@;
                r.push(p);
                assert(range_ints(r@) =~= range_ints(before).push((p.0 as int, p.1 as int)));
            },
            None => {},
        }
        i = i + 1;
    }
    assert(missing@.subrange(0, i as int) =~= missing@);
    r
}

/// The report of a replica once `compaction/show` answered (or failed).
pub fn gap_from_fetch(target: &ReplicaTarget, host: &str, fetched: Result<CompactionStatus, String>) -> (g: VersionGap)
    ensures
        fetched is Err ==> failed_gap(g, target@, host@, fetched->Err_0@),
        fetched is Ok ==> ({
            &&& g.tablet_id@ == target.tablet_id@
            &&& g.backend_id@ == target.backend_id@
            &&& g.backend_host@ == host@
            &&& g.status@ == target.status@
            &&& g.compaction == fetched->Ok_0
            &&& range_ints(g.ranges@) == ranges_of(fetched->Ok_0.missing_rowsets@)
            &&& g.error is None
        }),
{
    match fetched {
        Ok(compaction) => {
            let ranges = parse_ranges(&compaction.missing_rowsets);
            VersionGap {
                tablet_id: target.tablet_id.clone(),
                backend_id: target.backend_id.clone(),
                backend_host: owned(host),
                status: target.status.clone(),
                compaction,
                ranges,
                error: None,
            }
        },
        Err(e) => error_gap(target, owned(host), e),
    }
}

// ---------------------------------------------------------------------------
// Reporting and padding
// ---------------------------------------------------------------------------

/// A replica whose gaps can be padded: inspected without error and with at
/// least one parsed range.
pub open spec fn is_actionable(g: VersionGap) -> bool {
    g.error is None && g.ranges@.len() > 0
}

/// Number of actionable reports among the first `n`.
pub open spec fn actionable_upto(gs: Seq<VersionGap>, n: int) -> nat
    decreases n,
{
    if n <= 0 {
        0
    } else {
        actionable_upto(gs, n - 1) + if is_actionable(gs[n - 1]) {
            1nat
        } else {
            0nat
        }
    }
}

/// The reports that can be padded: inspected without error, with at least
/// one missing range.
pub open spec fn paddable_reports(gs: Seq<VersionGap>) -> Seq<VersionGap> {
    gs.filter(|g: VersionGap| g.error is None && g.ranges@.len() > 0)
}

proof fn lemma_actionable_prefix(gs: Seq<VersionGap>, n: int)
    requires
        0 <= n <= gs.len(),
    ensures
        actionable_upto(gs, n) == paddable_reports(gs.subrange(0, n)).len(),
    decreases n,
{
    reveal(Seq::filter);
    if n > 0 {
        lemma_actionable_prefix(gs, n - 1);
        let pre = gs.subrange(0, n);
        assert(pre.drop_last() =~= gs.subrange(0, n - 1));
        assert(pre.last() == gs[n - 1]);
    } else {
        assert(gs.subrange(0, 0) =~= Seq::<VersionGap>::empty());
    }
}

/// `ops pad-rowset` counts as actionable exactly the reports that were
/// inspected without error and list at least one missing range; a report
/// whose range list is empty never counts, and with no such report nothing
/// is padded.
pub proof fn lemma_actionable_count_is_paddable_reports(gs: Seq<VersionGap>)
    ensures
        actionable_upto(gs, gs.len() as int) == paddable_reports(gs).len(),
        (forall|k: int| 0 <= k < gs.len() ==> (#[trigger] gs[k]).ranges@.len() == 0)
            ==> actionable_upto(gs, gs.len() as int) == 0,
{
    lemma_actionable_prefix(gs, gs.len() as int);
    assert(gs.subrange(0, gs.len() as int) =~= gs);
    if forall|k: int| 0 <= k < gs.len() ==> (#[trigger] gs[k]).ranges@.len() == 0 {
        lemma_no_ranges_none_actionable(gs, gs.len() as int);
    }
}

proof fn lemma_no_ranges_none_actionable(gs: Seq<VersionGap>, n: int)
    requires
        0 <= n <= gs.len(),
        forall|k: int| 0 <= k < gs.len() ==> (#[trigger] gs[k]).ranges@.len() == 0,
    ensures
        actionable_upto(gs, n) == 0,
    decreases n,
{
    if n > 0 {
        lemma_no_ranges_none_actionable(gs, n - 1);
        assert(gs[n - 1].ranges@.len() == 0);
    }
}

/// Ranges of the reports among the first `n` that were inspected without
/// error (`actionable_only` keeps only actionable ones, which changes nothing
/// since an error-free report with no ranges adds none).
pub open spec fn ranges_upto(gs: Seq<VersionGap>, n: int) -> nat
    decreases n,
{
    if n <= 0 {
        0
    } else {
        ranges_upto(gs, n - 1) + if gs[n - 1].error is None {
            gs[n - 1].ranges@.len()
        } else {
            0nat
        }
    }
}

pub open spec fn saturate(n: nat) -> usize {
    if n > usize::MAX {
        usize::MAX
    } else {
        n as usize
    }
}

/// How many replicas can be padded.
pub fn actionable_count(gaps: &Vec<VersionGap>) -> (r: usize)
    ensures
        r == actionable_upto(gaps@, gaps@.len() as int),
        r == paddable_reports(gaps@).len(),
{
    proof {
        lemma_actionable_count_is_paddable_reports(gaps@);
    }
    let mut n: usize = 0;
    let mut i: usize = 0;
    while i < gaps.len()
        invariant
            i <= gaps@.len(),
            n == actionable_upto(gaps@, i as int),
            n <= i,
        decreases gaps@.len() - i,
    {
        if gaps[i].error.is_none() && gaps[i].ranges.len() > 0 {
            n = n + 1;
        }
        i = i + 1;
    }
    n
}

/// How many missing ranges the error-free reports hold (saturating at
/// `usize::MAX`): what `pad_rowset` asks to pad, and what a re-check finds
/// still missing.
pub fn missing_range_count(gaps: &Vec<VersionGap>) -> (r: usize)
    ensures
        r == saturate(ranges_upto(gaps@, gaps@.len() as int)),
{
    let mut n: usize = 0;
    let mut i: usize = 0;
    while i < gaps.len()
        invariant
            i <= gaps@.len(),
            n == saturate(ranges_upto(gaps@, i as int)),
        decreases gaps@.len() - i,
    {
        if gaps[i].error.is_none() {
            n = n.saturating_add(gaps[i].ranges.len());
        }
        i = i + 1;
    }
    n
}

/// One line of the text report: a warning for a replica that could not be
/// inspected, or the missing versions of a replica that has gaps.
pub open spec fn report_line(g: VersionGap) -> Option<(bool, Seq<char>)> {
    match g.error {
        Some(e) => Some(
            (
                true,
                "tablet "@ + g.tablet_id@ + " backend "@ + g.backend_id@ + " ("@ + g.backend_host@
                    + "): "@ + e@,
            ),
        ),
        None => if g.ranges@.len() == 0 {
            None
        } else {
            Some(
                (
                    false,
                    "tablet "@ + g.tablet_id@ + " | backend "@ + g.backend_id@ + " ("@
                        + g.backend_host@ + ") | status "@ + g.status@ + " | missing: "@ + join(
                        string_views(g.compaction.missing_rowsets@),
                        ", "@,
                    ),
                ),
            )
        },
    }
}

pub open spec fn report_upto(gs: Seq<VersionGap>, n: int) -> Seq<(bool, Seq<char>)>
    decreases n,
{
    if n <= 0 {
        Seq::empty()
    } else {
        match report_line(gs[n - 1]) {
            Some(l) => report_upto(gs, n - 1).push(l),
            None => report_upto(gs, n - 1),
        }
    }
}

pub open spec fn line_views(v: Seq<(bool, String)>) -> Seq<(bool, Seq<char>)> {
    Seq::new(v.len(), |i: int| (v[i].0, v[i].1@))
}

/// The text report of version gaps, in order; `true` marks a warning.
pub fn gap_report(gaps: &Vec<VersionGap>) -> (r: Vec<(bool, String)>)
    ensures
        line_views(r@) == report_upto(gaps@, gaps@.len() as int),
{
    let mut r: Vec<(bool, String)> = Vec::new();
    let mut i: usize = 0;
    while i < gaps.len()
        invariant
            i <= gaps@.len(),
            line_views(r@) == report_upto(gaps@, i as int),
        decreases gaps@.len() - i,
    {
        let g = &gaps[i];
        let ghost before = r@;
        match &g.error {
            Some(e) => {
                let mut m = owned("tablet ");
                push_str(&mut m, g.tablet_id.as_str());
                push_str(&mut m, " backend ");
                push_str(&mut m, g.backend_id.as_str());
                push_str(&mut m, " (");
                push_str(&mut m, g.backend_host.as_str());
                push_str(&mut m, "): ");
                push_str(&mut m, e.as_str());
                r.push((true, m));
                assert(line_views(r@) =~= line_views(before).push((true, m@)));
            },
            None => {
                if g.ranges.len() > 0 {
                    let mut m = owned("tablet ");
                    push_str(&mut m, g.tablet_id.as_str());
                    push_str(&mut m, " | backend ");
                    push_str(&mut m, g.backend_id.as_str());
                    push_str(&mut m, " (");
                    push_str(&mut m, g.backend_host.as_str());
                    push_str(&mut m, ") | status ");
                    push_str(&mut m, g.status.as_str());
                    push_str(&mut m, " | missing: ");
                    let missing = join_strings(&g.compaction.missing_rowsets, ", ");
                    push_str(&mut m, missing.as_str());
                    r.push((false, m));
                    assert(line_views(r@) =~= line_views(before).push((false, m@)));
                }
            },
        }
        i = i + 1;
    }
    r
}

/// One `pad_rowset` call.
#[derive(Debug)]
pub struct PadCall {
    pub tablet_id: String,
    pub backend_id: String,
    pub base_url: String,
    pub start: i64,
    pub end: i64,
}

pub ghost struct PadCallView {
    pub tablet_id: Seq<char>,
    pub backend_id: Seq<char>,
    pub base_url: Seq<char>,
    pub start: int,
    pub end: int,
}

impl View for PadCall {
    type V = PadCallView;

    open spec fn view(&self) -> PadCallView {
        PadCallView {
            tablet_id: self.tablet_id@,
            backend_id: self.backend_id@,
            base_url: self.base_url@,
            start: self.start as int,
            end: self.end as int,
        }
    }
}

pub open spec fn call_views(v: Seq<PadCall>) -> Seq<PadCallView> {
    Seq::new(v.len(), |i: int| v[i]@)
}

/// The calls that pad every range of one actionable report on its backend.
pub open spec fn calls_for(g: VersionGap, b: BackendView) -> Seq<PadCallView> {
    Seq::new(
        g.ranges@.len(),
        |k: int|
            PadCallView {
                tablet_id: g.tablet_id@,
                backend_id: g.backend_id@,
                base_url: base_url_of(b.host, b.http_port),
                start: g.ranges@[k].0 as int,
                end: g.ranges@[k].1 as int,
            },
    )
}

/// The pad calls for the reports from index `i` on, in order, and the error
/// met first: an actionable report whose backend is unknown stops the plan.
pub open spec fn pad_schedule(gs: Seq<VersionGap>, bm: Map<Seq<char>, BackendView>, i: int) -> (
    Seq<PadCallView>,
    Option<Seq<char>>,
)
    decreases gs.len() - i,
{
    if i < 0 || i >= gs.len() {
        (Seq::empty(), None)
    } else if !is_actionable(gs[i]) {
        pad_schedule(gs, bm, i + 1)
    } else if !bm.contains_key(gs[i].backend_id@) {
        (Seq::empty(), Some("backend "@ + gs[i].backend_id@ + " not found"@))
    } else {
        let rest = pad_schedule(gs, bm, i + 1);
        (calls_for(gs[i], bm[gs[i].backend_id@]) + rest.0, rest.1)
    }
}

/// The `pad_rowset` calls for the actionable reports, in order, and the
/// error to raise once they are done (a backend that is not known).
pub fn pad_calls(gaps: &Vec<VersionGap>, backends: &StrMap<BackendInfo>) -> (r: (
    Vec<PadCall>,
    Option<String>,
))
    ensures
        call_views(r.0@) == pad_schedule(gaps@, backends@, 0).0,
        opt_view(r.1) == pad_schedule(gaps@, backends@, 0).1,
{
    let mut calls: Vec<PadCall> = Vec::new();
    let mut i: usize = 0;
    while i < gaps.len()
        invariant
            i <= gaps@.len(),
            call_views(calls@) + pad_schedule(gaps@, backends@, i as int).0 == pad_schedule(
                gaps@,
                backends@,
                0,
            ).0,
            pad_schedule(gaps@, backends@, i as int).1 == pad_schedule(gaps@, backends@, 0).1,
        decreases gaps@.len() - i,
    {
        let g = &gaps[i];
        if g.error.is_none() && g.ranges.len() > 0 {
            match backends.get(g.backend_id.as_str()) {
                None => {
                    let mut e = owned("backend ");
                    push_str(&mut e, g.backend_id.as_str());
                    push_str(&mut e, " not found");
                    assert(call_views(calls@) =~= call_views(calls@) + Seq::<PadCallView>::empty());
                    return (calls, Some(e));
                },
                Some(b) => {
                    let url = base_url(b.host.as_str(), b.http_port);
                    let ghost start_calls = call_views(calls@);
                    let ghost want = calls_for(*g, backends@[g.backend_id@]);
                    let mut k: usize = 0;
                    while k < g.ranges.len()
                        invariant
                            k <= g.ranges@.len(),
                            g == gaps@[i as int],
                            url@ == base_url_of(b.host@, b.http_port),
                            b@ == backends@[g.backend_id@],
                            want == calls_for(*g, backends@[g.backend_id@]),
                            call_views(calls@) == start_calls + want.subrange(0, k as int),
                        decreases g.ranges@.len() - k,
                    {
                        let (s, e) = g.ranges[k];
                        let ghost before = call_views(calls@);
                        calls.push(
                            PadCall {
                                tablet_id: g.tablet_id.clone(),
                                backend_id: g.backend_id.clone(),
                                base_url: url.clone(),
                                start: s,
                                end: e,
                            },
                        );
                        assert(call_views(calls@) =~= before.push(want[k as int]));
                        assert(want.subrange(0, k + 1) =~= want.subrange(0, k as int).push(
                            want[k as int],
                        ));
                        k = k + 1;
                    }
                    assert(want.subrange(0, k as int) =~= want);
                    assert(call_views(calls@) + pad_schedule(gaps@, backends@, i + 1).0 =~= start_calls
                        + pad_schedule(gaps@, backends@, i as int).0);
                },
            }
        }
        i = i + 1;
    }
    assert(call_views(calls@) =~= call_views(calls@) + Seq::<PadCallView>::empty());
    (calls, None)
}

pub open spec fn pad_confirm_of(ranges: nat, replicas: nat) -> Seq<char> {
    "pad "@ + dec(ranges) + " missing rowset range(s) across "@ + dec(replicas)
        + " tablet replica(s)?"@
}

/// The question asked before padding.
pub fn pad_confirm_message(ranges: usize, replicas: usize) -> (r: String)
    ensures
        r@ == pad_confirm_of(ranges as nat, replicas as nat),
{
    let mut s = owned("pad ");
    push_u64(&mut s, ranges as u64);
    push_str(&mut s, " missing rowset range(s) across ");
    push_u64(&mut s, replicas as u64);
    push_str(&mut s, " tablet replica(s)?");
    s
}

fn push_range(s: &mut String, start: i64, end: i64)
    ensures
        final(s)@ == old(s)@ + "["@ + int_dec(start as int) + ","@ + int_dec(end as int) + "]"@,
{
    push_str(s, "[");
    push_i64(s, start);
    push_str(s, ",");
    push_i64(s, end);
    push_str(s, "]");
}

/// Context added to a failed `pad_rowset` call.
pub fn pad_failed_message(c: &PadCall) -> (r: String)
    ensures
        r@ == "pad_rowset failed for tablet "@ + c.tablet_id@ + " on backend "@ + c.backend_id@
            + " versions "@ + "["@ + int_dec(c.start as int) + ","@ + int_dec(c.end as int) + "]"@,
{
    let mut s = owned("pad_rowset failed for tablet ");
    push_str(&mut s, c.tablet_id.as_str());
    push_str(&mut s, " on backend ");
    push_str(&mut s, c.backend_id.as_str());
    push_str(&mut s, " versions ");
    push_range(&mut s, c.start, c.end);
    s
}

/// Report of one successful `pad_rowset` call.
pub fn padded_message(c: &PadCall) -> (r: String)
    ensures
        r@ == "padded tablet "@ + c.tablet_id@ + " backend "@ + c.backend_id@ + " "@ + "["@
            + int_dec(c.start as int) + ","@ + int_dec(c.end as int) + "]"@,
{
    let mut s = owned("padded tablet ");
    push_str(&mut s, c.tablet_id.as_str());
    push_str(&mut s, " backend ");
    push_str(&mut s, c.backend_id.as_str());
    push_str(&mut s, " ");
    push_range(&mut s, c.start, c.end);
    s
}

/// The verdict of the re-check after padding: passed (no range remains) and
/// its message.
pub fn recheck_verdict(padded: usize, remaining: usize) -> (r: (bool, String))
    ensures
        r.0 == (remaining == 0),
        r.0 ==> r.1@ == "re-check passed: padded "@ + dec(padded as nat)
            + " range(s), no missing rowsets remain"@,
        !r.0 ==> r.1@ == "re-check: "@ + dec(remaining as nat)
            + " missing rowset range(s) still present — inspect with `dcli ops version-gaps`"@,
{
    if remaining == 0 {
        let mut s = owned("re-check passed: padded ");
        push_u64(&mut s, padded as u64);
        push_str(&mut s, " range(s), no missing rowsets remain");
        (true, s)
    } else {
        let mut s = owned("re-check: ");
        push_u64(&mut s, remaining as u64);
        push_str(
            &mut s,
            " missing rowset range(s) still present — inspect with `dcli ops version-gaps`",
        );
        (false, s)
    }
}

/// Where `ops pad-rowset` takes its replicas from.
#[derive(Debug)]
pub enum PadTargets {
    /// The one replica named by `--tablet-id` and `--backend-id`.
    Manual(ReplicaTarget),
    /// The unhealthy replicas of a table.
    Table { db: String, table: String },
}

/// Choose the replicas `ops pad-rowset` works on from its arguments.
pub fn pad_targets(args: &PadRowsetArgs) -> (r: Result<PadTargets, String>)
    ensures
        (args.tablet_id is Some || args.backend_id is Some) ==> ({
            &&& (args.tablet_id is Some && args.backend_id is Some) <==> r is Ok
            &&& r matches Err(m) ==> m@ == "--tablet-id and --backend-id must be used together"@
            &&& r matches Ok(PadTargets::Manual(t)) ==> t@ == (TargetView {
                tablet_id: args.tablet_id->0@,
                backend_id: args.backend_id->0@,
                status: "manual"@,
            })
            &&& r matches Ok(PadTargets::Table { .. }) ==> false
        }),
        (args.tablet_id is None && args.backend_id is None) ==> ({
            &&& args.db is None ==> (r matches Err(m) && m@
                == "--db is required unless --tablet-id and --backend-id are set"@)
            &&& (args.db is Some && args.table is None) ==> (r matches Err(m) && m@
                == "--table is required unless --tablet-id and --backend-id are set"@)
            &&& (args.db is Some && args.table is Some) ==> (r matches Ok(
                PadTargets::Table { db, table },
            ) && db@ == args.db->0@ && table@ == args.table->0@)
        }),
{
    if args.tablet_id.is_some() || args.backend_id.is_some() {
        let tablet_id = match &args.tablet_id {
            Some(t) => t.clone(),
            None => return Err(owned("--tablet-id and --backend-id must be used together")),
        };
        let backend_id = match &args.backend_id {
            Some(b) => b.clone(),
            None => return Err(owned("--tablet-id and --backend-id must be used together")),
        };
        Ok(PadTargets::Manual(ReplicaTarget { tablet_id, backend_id, status: owned("manual") }))
    } else {
        let db = match &args.db {
            Some(d) => d.clone(),
            None => return Err(owned("--db is required unless --tablet-id and --backend-id are set")),
        };
        let table = match &args.table {
            Some(t) => t.clone(),
            None => return Err(
                owned("--table is required unless --tablet-id and --backend-id are set"),
            ),
        };
        Ok(PadTargets::Table { db, table })
    }
}

} // verus!
