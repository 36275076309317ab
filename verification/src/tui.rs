//! Data behind the terminal dashboard: snapshots of `SHOW FRONTENDS`,
//! `SHOW BACKENDS` and tablet health, their summaries, and the tab bar.
//! Times are nanoseconds since the Unix epoch.
use vstd::prelude::*;

use crate::client::{cell_of, QueryResult};
use crate::clock::clock_nanos;
use crate::config::opt_view;
use crate::ops::problem_columns;
use crate::text::{
    eq_ignore_ascii_case_str, eq_ignore_case, from_chars, parse_i64, to_chars, trim, trim_chars,
};

verus! {

pub const SHOW_FRONTENDS_SQL: &'static str = "SHOW FRONTENDS";

pub const SHOW_BACKENDS_SQL: &'static str = "SHOW BACKENDS";

pub const TABLET_HEALTH_SQL: &'static str = "SHOW PROC '/cluster_health/tablet_health'";

// ---------------------------------------------------------------------------
// Tabs
// ---------------------------------------------------------------------------

#[derive(Debug, Clone, Copy, PartialEq, Eq, Structural)]
pub enum Tab {
    Overview,
    Frontends,
    Backends,
    Sql,
    Ops,
    Logs,
}

/// Number of tabs.
pub const TAB_COUNT: usize = 6;

pub open spec fn tab_title(t: Tab) -> Seq<char> {
    match t {
        Tab::Overview => "Overview"@,
        Tab::Frontends => "FE"@,
        Tab::Backends => "BE"@,
        Tab::Sql => "SQL"@,
        Tab::Ops => "Ops"@,
        Tab::Logs => "Logs"@,
    }
}

/// The tab at a position of the tab bar.
pub open spec fn tab_at(i: int) -> Tab {
    if i == 0 {
        Tab::Overview
    } else if i == 1 {
        Tab::Frontends
    } else if i == 2 {
        Tab::Backends
    } else if i == 3 {
        Tab::Sql
    } else if i == 4 {
        Tab::Ops
    } else {
        Tab::Logs
    }
}

impl Tab {
    pub fn title(self) -> (r: &'static str)
        ensures
            r@ == tab_title(self),
    {
        match self {
            Tab::Overview => "Overview",
            Tab::Frontends => "FE",
            Tab::Backends => "BE",
            Tab::Sql => "SQL",
            Tab::Ops => "Ops",
            Tab::Logs => "Logs",
        }
    }

    /// The tab at position `i` of the tab bar.
    pub fn at(i: usize) -> (r: Tab)
        requires
            i < TAB_COUNT,
        ensures
            r == tab_at(i as int),
    {
        if i == 0 {
            Tab::Overview
        } else if i == 1 {
            Tab::Frontends
        } else if i == 2 {
            Tab::Backends
        } else if i == 3 {
            Tab::Sql
        } else if i == 4 {
            Tab::Ops
        } else {
            Tab::Logs
        }
    }
}

// ---------------------------------------------------------------------------
// Cells
// ---------------------------------------------------------------------------

/// A cell read as text: trimmed, absent when blank or `NULL` (ASCII case
/// ignored).
pub open spec fn cell_text_of(cols: Seq<String>, row: Seq<String>, name: Seq<char>) -> Option<Seq<char>> {
    match cell_of(cols, row, name) {
        Some(v) => {
            let t = trim(v);
            if t.len() > 0 && !eq_ignore_case(t, "NULL"@) {
                Some(t)
            } else {
                None
            }
        },
        None => None,
    }
}

/// A cell read as a flag: `true`, `yes` (ASCII case ignored) or `1`.
pub open spec fn cell_flag_of(cols: Seq<String>, row: Seq<String>, name: Seq<char>) -> bool {
    match cell_of(cols, row, name) {
        Some(v) => eq_ignore_case(v, "true"@) || eq_ignore_case(v, "yes"@) || v == "1"@,
        None => false,
    }
}

pub fn cell(result: &QueryResult, row: &Vec<String>, name: &str) -> (r: Option<String>)
    ensures
        opt_view(r) == cell_text_of(result.columns@, row@, name@),
{
    match crate::client::cell_chars(result, row, name) {
        Some(v) => {
            let t = trim_chars(v.as_slice());
            if t.len() > 0 && !eq_ignore_ascii_case_str(t.as_slice(), "NULL") {
                Some(from_chars(t.as_slice()))
            } else {
                None
            }
        },
        None => None,
    }
}

pub fn bool_cell(result: &QueryResult, row: &Vec<String>, name: &str) -> (r: bool)
    ensures
        r == cell_flag_of(result.columns@, row@, name@),
{
    match crate::client::cell_chars(result, row, name) {
        Some(v) => {
            let one = to_chars("1");
            eq_ignore_ascii_case_str(v.as_slice(), "true") || eq_ignore_ascii_case_str(
                v.as_slice(),
                "yes",
            ) || crate::text::chars_eq(v.as_slice(), one.as_slice())
        },
        None => false,
    }
}

// ---------------------------------------------------------------------------
// Frontends
// ---------------------------------------------------------------------------

#[derive(Debug)]
pub struct FrontendNodeSnapshot {
    pub name: Option<String>,
    pub host: Option<String>,
    pub role: Option<String>,
    pub alive: bool,
    pub is_master: bool,
    pub version: Option<String>,
    pub error: Option<String>,
}

pub ghost struct FrontendNodeView {
    pub name: Option<Seq<char>>,
    pub host: Option<Seq<char>>,
    pub role: Option<Seq<char>>,
    pub alive: bool,
    pub is_master: bool,
    pub version: Option<Seq<char>>,
    pub error: Option<Seq<char>>,
}

impl View for FrontendNodeSnapshot {
    type V = FrontendNodeView;

    open spec fn view(&self) -> FrontendNodeView {
        FrontendNodeView {
            name: opt_view(self.name),
            host: opt_view(self.host),
            role: opt_view(self.role),
            alive: self.alive,
            is_master: self.is_master,
            version: opt_view(self.version),
            error: opt_view(self.error),
        }
    }
}

/// The frontend a `SHOW FRONTENDS` row describes.
pub open spec fn frontend_of_row(cols: Seq<String>, row: Seq<String>) -> FrontendNodeView {
    FrontendNodeView {
        name: cell_text_of(cols, row, "Name"@),
        host: cell_text_of(cols, row, "Host"@),
        role: cell_text_of(cols, row, "Role"@),
        alive: cell_flag_of(cols, row, "Alive"@),
        is_master: cell_flag_of(cols, row, "IsMaster"@),
        version: cell_text_of(cols, row, "Version"@),
        error: cell_text_of(cols, row, "ErrMsg"@),
    }
}

#[derive(Debug, Clone, Copy, PartialEq, Eq, Structural)]
pub struct FrontendSummary {
    pub total: usize,
    pub alive: usize,
    pub down: usize,
}

/// How many of the first `n` flags are set.
pub open spec fn count_true(flags: Seq<bool>, n: int) -> nat
    decreases n,
{
    if n <= 0 {
        0
    } else {
        count_true(flags, n - 1) + if flags[n - 1] {
            1nat
        } else {
            0nat
        }
    }
}

proof fn lemma_count_true_le(flags: Seq<bool>, n: int)
    requires
        0 <= n <= flags.len(),
    ensures
        count_true(flags, n) <= n,
    decreases n,
{
    if n > 0 {
        lemma_count_true_le(flags, n - 1);
    }
}

pub open spec fn fe_alive_flags(nodes: Seq<FrontendNodeSnapshot>) -> Seq<bool> {
    Seq::new(nodes.len(), |i: int| nodes[i].alive)
}

pub fn summarize_frontends(nodes: &Vec<FrontendNodeSnapshot>) -> (r: FrontendSummary)
    ensures
        r.total == nodes@.len(),
        r.alive == count_true(fe_alive_flags(nodes@), nodes@.len() as int),
        r.down == r.total - r.alive,
{
    let ghost flags = fe_alive_flags(nodes@);
    let mut alive: usize = 0;
    let mut i: usize = 0;
    while i < nodes.len()
        invariant
            i <= nodes@.len(),
            flags == fe_alive_flags(nodes@),
            alive == count_true(flags, i as int),
        decreases nodes@.len() - i,
    {
        proof {
            lemma_count_true_le(flags, i as int);
        }
        if nodes[i].alive {
            alive = alive + 1;
        }
        i = i + 1;
    }
    proof {
        lemma_count_true_le(flags, nodes@.len() as int);
    }
    FrontendSummary { total: nodes.len(), alive, down: nodes.len() - alive }
}

#[derive(Debug)]
pub struct FrontendsSnapshot {
    pub loaded_at: u64,
    pub summary: FrontendSummary,
    pub nodes: Vec<FrontendNodeSnapshot>,
    pub raw: QueryResult,
}

pub open spec fn frontend_views(v: Seq<FrontendNodeSnapshot>) -> Seq<FrontendNodeView> {
    Seq::new(v.len(), |i: int| v[i]@)
}

/// The frontends snapshot of a `SHOW FRONTENDS` result, stamped now.
pub fn frontends_from_result(raw: QueryResult) -> (r: FrontendsSnapshot)
    ensures
        r.raw == raw,
        frontend_views(r.nodes@) == Seq::new(
            raw.rows@.len(),
            |i: int| frontend_of_row(raw.columns@, raw.rows@[i]@),
        ),
        r.summary.total == raw.rows@.len(),
        r.summary.alive == count_true(fe_alive_flags(r.nodes@), r.nodes@.len() as int),
        r.summary.down == r.summary.total - r.summary.alive,
{
    let mut nodes: Vec<FrontendNodeSnapshot> = Vec::new();
    let mut i: usize = 0;
    while i < raw.rows.len()
        invariant
            i <= raw.rows@.len(),
            nodes@.len() == i,
            forall|k: int|
                0 <= k < i ==> (#[trigger] nodes@[k])@ == frontend_of_row(
                    raw.columns@,
                    raw.rows@[k]@,
                ),
        decreases raw.rows@.len() - i,
    {
        let row = &raw.rows[i];
        nodes.push(
            FrontendNodeSnapshot {
                name: cell(&raw, row, "Name"),
                host: cell(&raw, row, "Host"),
                role: cell(&raw, row, "Role"),
                alive: bool_cell(&raw, row, "Alive"),
                is_master: bool_cell(&raw, row, "IsMaster"),
                version: cell(&raw, row, "Version"),
                error: cell(&raw, row, "ErrMsg"),
            },
        );
        i = i + 1;
    }
    assert(frontend_views(nodes@) =~= Seq::new(
        raw.rows@.len(),
        |i: int| frontend_of_row(raw.columns@, raw.rows@[i]@),
    ));
    let summary = summarize_frontends(&nodes);
    FrontendsSnapshot { loaded_at: clock_nanos(), summary, nodes, raw }
}

// ---------------------------------------------------------------------------
// Backends
// ---------------------------------------------------------------------------

#[derive(Debug)]
pub struct BackendNodeSnapshot {
    pub id: Option<String>,
    pub host: Option<String>,
    pub alive: bool,
    pub system_decommissioned: bool,
    pub tablet_num: Option<String>,
    pub data_used_capacity: Option<String>,
    pub max_disk_used_pct: Option<String>,
    pub version: Option<String>,
    pub error: Option<String>,
}

pub ghost struct BackendNodeView {
    pub id: Option<Seq<char>>,
    pub host: Option<Seq<char>>,
    pub alive: bool,
    pub system_decommissioned: bool,
    pub tablet_num: Option<Seq<char>>,
    pub data_used_capacity: Option<Seq<char>>,
    pub max_disk_used_pct: Option<Seq<char>>,
    pub version: Option<Seq<char>>,
    pub error: Option<Seq<char>>,
}

impl View for BackendNodeSnapshot {
    type V = BackendNodeView;

    open spec fn view(&self) -> BackendNodeView {
        BackendNodeView {
            id: opt_view(self.id),
            host: opt_view(self.host),
            alive: self.alive,
            system_decommissioned: self.system_decommissioned,
            tablet_num: opt_view(self.tablet_num),
            data_used_capacity: opt_view(self.data_used_capacity),
            max_disk_used_pct: opt_view(self.max_disk_used_pct),
            version: opt_view(self.version),
            error: opt_view(self.error),
        }
    }
}

/// The backend a `SHOW BACKENDS` row describes.
pub open spec fn backend_of_row(cols: Seq<String>, row: Seq<String>) -> BackendNodeView {
    BackendNodeView {
        id: cell_text_of(cols, row, "BackendId"@),
        host: cell_text_of(cols, row, "Host"@),
        alive: cell_flag_of(cols, row, "Alive"@),
        system_decommissioned: cell_flag_of(cols, row, "SystemDecommissioned"@),
        tablet_num: cell_text_of(cols, row, "TabletNum"@),
        data_used_capacity: cell_text_of(cols, row, "DataUsedCapacity"@),
        max_disk_used_pct: cell_text_of(cols, row, "MaxDiskUsedPct"@),
        version: cell_text_of(cols, row, "Version"@),
        error: cell_text_of(cols, row, "ErrMsg"@),
    }
}

#[derive(Debug, Clone, Copy, PartialEq, Eq, Structural)]
pub struct BackendSummary {
    pub total: usize,
    pub alive: usize,
    pub down: usize,
    pub decommissioning: usize,
}

pub open spec fn be_alive_flags(nodes: Seq<BackendNodeSnapshot>) -> Seq<bool> {
    Seq::new(nodes.len(), |i: int| nodes[i].alive)
}

pub open spec fn be_decommission_flags(nodes: Seq<BackendNodeSnapshot>) -> Seq<bool> {
    Seq::new(nodes.len(), |i: int| nodes[i].system_decommissioned)
}

pub fn summarize_backends(nodes: &Vec<BackendNodeSnapshot>) -> (r: BackendSummary)
    ensures
        r.total == nodes@.len(),
        r.alive == count_true(be_alive_flags(nodes@), nodes@.len() as int),
        r.down == r.total - r.alive,
        r.decommissioning == count_true(be_decommission_flags(nodes@), nodes@.len() as int),
{
    let ghost af = be_alive_flags(nodes@);
    let ghost df = be_decommission_flags(nodes@);
    let mut alive: usize = 0;
    let mut decom: usize = 0;
    let mut i: usize = 0;
    while i < nodes.len()
        invariant
            i <= nodes@.len(),
            af == be_alive_flags(nodes@),
            df == be_decommission_flags(nodes@),
            alive == count_true(af, i as int),
            decom == count_true(df, i as int),
        decreases nodes@.len() - i,
    {
        proof {
            lemma_count_true_le(af, i as int);
            lemma_count_true_le(df, i as int);
        }
        if nodes[i].alive {
            alive = alive + 1;
        }
        if nodes[i].system_decommissioned {
            decom = decom + 1;
        }
        i = i + 1;
    }
    proof {
        lemma_count_true_le(af, nodes@.len() as int);
    }
    BackendSummary { total: nodes.len(), alive, down: nodes.len() - alive, decommissioning: decom }
}

#[derive(Debug)]
pub struct BackendsSnapshot {
    pub loaded_at: u64,
    pub summary: BackendSummary,
    pub nodes: Vec<BackendNodeSnapshot>,
    pub raw: QueryResult,
}

pub open spec fn backend_views(v: Seq<BackendNodeSnapshot>) -> Seq<BackendNodeView> {
    Seq::new(v.len(), |i: int| v[i]@)
}

/// The backends snapshot of a `SHOW BACKENDS` result, stamped now.
pub fn backends_from_result(raw: QueryResult) -> (r: BackendsSnapshot)
    ensures
        r.raw == raw,
        backend_views(r.nodes@) == Seq::new(
            raw.rows@.len(),
            |i: int| backend_of_row(raw.columns@, raw.rows@[i]@),
        ),
        r.summary.total == raw.rows@.len(),
        r.summary.alive == count_true(be_alive_flags(r.nodes@), r.nodes@.len() as int),
        r.summary.down == r.summary.total - r.summary.alive,
        r.summary.decommissioning == count_true(
            be_decommission_flags(r.nodes@),
            r.nodes@.len() as int,
        ),
{
    let mut nodes: Vec<BackendNodeSnapshot> = Vec::new();
    let mut i: usize = 0;
    while i < raw.rows.len()
        invariant
            i <= raw.rows@.len(),
            nodes@.len() == i,
            forall|k: int|
                0 <= k < i ==> (#[trigger] nodes@[k])@ == backend_of_row(
                    raw.columns@,
                    raw.rows@[k]@,
                ),
        decreases raw.rows@.len() - i,
    {
        let row = &raw.rows[i];
        nodes.push(
            BackendNodeSnapshot {
                id: cell(&raw, row, "BackendId"),
                host: cell(&raw, row, "Host"),
                alive: bool_cell(&raw, row, "Alive"),
                system_decommissioned: bool_cell(&raw, row, "SystemDecommissioned"),
                tablet_num: cell(&raw, row, "TabletNum"),
                data_used_capacity: cell(&raw, row, "DataUsedCapacity"),
                max_disk_used_pct: cell(&raw, row, "MaxDiskUsedPct"),
                version: cell(&raw, row, "Version"),
                error: cell(&raw, row, "ErrMsg"),
            },
        );
        i = i + 1;
    }
    assert(backend_views(nodes@) =~= Seq::new(
        raw.rows@.len(),
        |i: int| backend_of_row(raw.columns@, raw.rows@[i]@),
    ));
    let summary = summarize_backends(&nodes);
    BackendsSnapshot { loaded_at: clock_nanos(), summary, nodes, raw }
}

// ---------------------------------------------------------------------------
// Tablet health and the whole-cluster snapshot
// ---------------------------------------------------------------------------

/// A tablet-health row with some problem counter above zero (a counter that
/// is not a number does not count).
pub open spec fn is_problem_row(cols: Seq<String>, row: Seq<String>) -> bool {
    exists|k: int|
        0 <= k < 4 && match cell_of(cols, row, #[trigger] problem_columns()[k]) {
            Some(v) => match parse_i64(v) {
                Some(n) => n > 0,
                None => false,
            },
            None => false,
        }
}

pub open spec fn problem_flags(cols: Seq<String>, rows: Seq<Vec<String>>) -> Seq<bool> {
    Seq::new(rows.len(), |i: int| is_problem_row(cols, rows[i]@))
}

fn counter_above_zero(result: &QueryResult, row: &Vec<String>, k: usize) -> (r: bool)
    requires
        k < 4,
    ensures
        r == match cell_of(result.columns@, row@, problem_columns()[k as int]) {
            Some(v) => match parse_i64(v) {
                Some(n) => n > 0,
                None => false,
            },
            None => false,
        },
{
    let name: &str = if k == 0 {
        "ReplicaMissingNum"
    } else if k == 1 {
        "VersionIncompleteNum"
    } else if k == 2 {
        "UnrecoverableNum"
    } else {
        "NeedFurtherRepairNum"
    };
    match crate::client::cell_chars(result, row, name) {
        Some(v) => match crate::text::parse_i64_chars(v.as_slice()) {
            Some(n) => n > 0,
            None => false,
        },
        None => false,
    }
}

/// Rows of the tablet-health result with some problem counter above zero.
pub fn count_tablet_problem_rows(result: &QueryResult) -> (r: usize)
    ensures
        r == count_true(
            problem_flags(result.columns@, result.rows@),
            result.rows@.len() as int,
        ),
{
    let ghost flags = problem_flags(result.columns@, result.rows@);
    let mut count: usize = 0;
    let mut i: usize = 0;
    while i < result.rows.len()
        invariant
            i <= result.rows@.len(),
            flags == problem_flags(result.columns@, result.rows@),
            count == count_true(flags, i as int),
        decreases result.rows@.len() - i,
    {
        proof {
            lemma_count_true_le(flags, i as int);
        }
        let row = &result.rows[i];
        let mut bad = false;
        let mut k: usize = 0;
        while k < 4 && !bad
            invariant
                k <= 4,
                i < result.rows@.len(),
                row == result.rows@[i as int],
                bad == is_problem_row(result.columns@, row@) || (!bad && forall|j: int|
                    0 <= j < k ==> !match cell_of(
                        result.columns@,
                        row@,
                        #[trigger] problem_columns()[j],
                    ) {
                        Some(v) => match parse_i64(v) {
                            Some(n) => n > 0,
                            None => false,
                        },
                        None => false,
                    }),
                bad ==> is_problem_row(result.columns@, row@),
            decreases 4 - k,
        {
            if counter_above_zero(result, row, k) {
                bad = true;
            }
            k = k + 1;
        }
        if bad {
            count = count + 1;
        }
        i = i + 1;
    }
    count
}

#[derive(Debug, Clone, Copy, PartialEq, Eq, Structural)]
pub struct ClusterSummary {
    pub fe_total: usize,
    pub fe_alive: usize,
    pub fe_down: usize,
    pub be_total: usize,
    pub be_alive: usize,
    pub be_down: usize,
    pub be_decommissioning: usize,
    pub tablet_health_rows: usize,
    pub tablet_problem_rows: usize,
}

#[derive(Debug)]
pub struct ClusterSnapshot {
    pub loaded_at: u64,
    pub frontends: QueryResult,
    pub backends: QueryResult,
    pub tablet_health: QueryResult,
    pub summary: ClusterSummary,
}

#[derive(Debug)]
pub struct OverviewSnapshot {
    pub loaded_at: u64,
    pub frontends: FrontendSummary,
    pub backends: BackendSummary,
}

/// The latest of some times; an empty list reads the clock.
pub fn latest_of(times: &Vec<u64>) -> (r: u64)
    ensures
        times@.len() > 0 ==> times@.contains(r),
        forall|i: int| 0 <= i < times@.len() ==> times@[i] <= r,
{
    if times.len() == 0 {
        return clock_nanos();
    }
    let mut best = times[0];
    let mut i: usize = 1;
    while i < times.len()
        invariant
            1 <= i <= times@.len(),
            times@.contains(best),
            forall|k: int| 0 <= k < i ==> times@[k] <= best,
        decreases times@.len() - i,
    {
        if times[i] > best {
            best = times[i];
        }
        i = i + 1;
    }
    best
}

/// The whole-cluster snapshot from its three query results; stamped with the
/// latest of the two snapshots' times and now.
pub fn cluster_snapshot_from(
    frontends: FrontendsSnapshot,
    backends: BackendsSnapshot,
    tablet_health: QueryResult,
) -> (r: ClusterSnapshot)
    ensures
        r.frontends == frontends.raw,
        r.backends == backends.raw,
        r.tablet_health == tablet_health,
        r.summary == (ClusterSummary {
            fe_total: frontends.summary.total,
            fe_alive: frontends.summary.alive,
            fe_down: frontends.summary.down,
            be_total: backends.summary.total,
            be_alive: backends.summary.alive,
            be_down: backends.summary.down,
            be_decommissioning: backends.summary.decommissioning,
            tablet_health_rows: tablet_health.rows@.len() as usize,
            tablet_problem_rows: count_true(
                problem_flags(tablet_health.columns@, tablet_health.rows@),
                tablet_health.rows@.len() as int,
            ) as usize,
        }),
        frontends.loaded_at <= r.loaded_at,
        backends.loaded_at <= r.loaded_at,
{
    let times = vec![frontends.loaded_at, backends.loaded_at, clock_nanos()];
    let loaded_at = latest_of(&times);
    assert(times@[0] == frontends.loaded_at && times@[1] == backends.loaded_at);
    let summary = ClusterSummary {
        fe_total: frontends.summary.total,
        fe_alive: frontends.summary.alive,
        fe_down: frontends.summary.down,
        be_total: backends.summary.total,
        be_alive: backends.summary.alive,
        be_down: backends.summary.down,
        be_decommissioning: backends.summary.decommissioning,
        tablet_health_rows: tablet_health.rows.len(),
        tablet_problem_rows: count_tablet_problem_rows(&tablet_health),
    };
    ClusterSnapshot {
        loaded_at,
        frontends: frontends.raw,
        backends: backends.raw,
        tablet_health,
        summary,
    }
}

/// The overview from the two snapshots: their summaries, stamped with the
/// later of their times.
pub fn overview_from(frontends: &FrontendsSnapshot, backends: &BackendsSnapshot) -> (r: OverviewSnapshot)
    ensures
        r.frontends == frontends.summary,
        r.backends == backends.summary,
        r.loaded_at == if frontends.loaded_at >= backends.loaded_at {
            frontends.loaded_at
        } else {
            backends.loaded_at
        },
{
    let times = vec![frontends.loaded_at, backends.loaded_at];
    let loaded_at = latest_of(&times);
    assert(times@[0] == frontends.loaded_at && times@[1] == backends.loaded_at);
    OverviewSnapshot { loaded_at, frontends: frontends.summary, backends: backends.summary }
}

// ---------------------------------------------------------------------------
// Dashboard state and keys
// ---------------------------------------------------------------------------

/// Where the dashboard is: the selected tab, the scroll offsets of the table
/// tabs and of the SQL result, and whether the user asked to quit.
#[derive(Debug)]
pub struct Dashboard {
    active_tab: usize,
    table_offset: usize,
    sql_offset: usize,
    should_quit: bool,
}

pub ghost struct DashboardView {
    pub active_tab: int,
    pub table_offset: int,
    pub sql_offset: int,
    pub should_quit: bool,
}

impl View for Dashboard {
    type V = DashboardView;

    closed spec fn view(&self) -> DashboardView {
        DashboardView {
            active_tab: self.active_tab as int,
            table_offset: self.table_offset as int,
            sql_offset: self.sql_offset as int,
            should_quit: self.should_quit,
        }
    }
}

/// A key as the dashboard reads it.
#[derive(Debug, Clone, Copy, PartialEq, Eq, Structural)]
pub enum DashKey {
    /// `q` or Esc.
    Quit,
    /// Tab or Right.
    Next,
    /// BackTab or Left.
    Previous,
    /// `r` or F5.
    Refresh,
    /// `j` or Down.
    Down,
    /// `k` or Up.
    Up,
    /// Enter with Ctrl held.
    CtrlEnter,
    Other,
}

/// What the application must do after a key.
#[derive(Debug, Clone, Copy, PartialEq, Eq, Structural)]
pub enum KeyAction {
    Nothing,
    Refresh,
    RunSql,
}

pub open spec fn sat_inc(n: int) -> int {
    if n >= usize::MAX {
        usize::MAX as int
    } else {
        n + 1
    }
}

pub open spec fn sat_dec(n: int) -> int {
    if n <= 0 {
        0
    } else {
        n - 1
    }
}

/// The dashboard after a key, and the action it calls for.
pub open spec fn after_key(d: DashboardView, key: DashKey) -> (DashboardView, KeyAction) {
    let on_sql = tab_at(d.active_tab) == Tab::Sql;
    match key {
        DashKey::Quit => (DashboardView { should_quit: true, ..d }, KeyAction::Nothing),
        DashKey::Next => (
            DashboardView { active_tab: (d.active_tab + 1) % (TAB_COUNT as int), table_offset: 0, ..d },
            KeyAction::Nothing,
        ),
        DashKey::Previous => (
            DashboardView {
                active_tab: if d.active_tab == 0 {
                    TAB_COUNT - 1
                } else {
                    d.active_tab - 1
                },
                table_offset: 0,
                ..d
            },
            KeyAction::Nothing,
        ),
        DashKey::Refresh => (d, KeyAction::Refresh),
        DashKey::Down => if on_sql {
            (DashboardView { sql_offset: sat_inc(d.sql_offset), ..d }, KeyAction::Nothing)
        } else {
            (DashboardView { table_offset: sat_inc(d.table_offset), ..d }, KeyAction::Nothing)
        },
        DashKey::Up => if on_sql {
            (DashboardView { sql_offset: sat_dec(d.sql_offset), ..d }, KeyAction::Nothing)
        } else {
            (DashboardView { table_offset: sat_dec(d.table_offset), ..d }, KeyAction::Nothing)
        },
        DashKey::CtrlEnter => (
            d,
            if on_sql {
                KeyAction::RunSql
            } else {
                KeyAction::Nothing
            },
        ),
        DashKey::Other => (d, KeyAction::Nothing),
    }
}

impl Dashboard {
    #[verifier::type_invariant]
    closed spec fn tab_in_range(&self) -> bool {
        self.active_tab < TAB_COUNT
    }

    /// The dashboard as it opens: the overview, nothing scrolled.
    pub fn new() -> (r: Self)
        ensures
            r@ == (DashboardView { active_tab: 0, table_offset: 0, sql_offset: 0, should_quit: false }),
    {
        Dashboard { active_tab: 0, table_offset: 0, sql_offset: 0, should_quit: false }
    }

    pub fn tab(&self) -> (r: Tab)
        ensures
            r == tab_at(self@.active_tab),
            0 <= self@.active_tab < TAB_COUNT,
    {
        proof {
            use_type_invariant(self);
        }
        Tab::at(self.active_tab)
    }

    pub fn active_tab(&self) -> (r: usize)
        ensures
            r == self@.active_tab,
            r < TAB_COUNT,
    {
        proof {
            use_type_invariant(self);
        }
        self.active_tab
    }

    pub fn table_offset(&self) -> (r: usize)
        ensures
            r == self@.table_offset,
    {
        self.table_offset
    }

    pub fn sql_offset(&self) -> (r: usize)
        ensures
            r == self@.sql_offset,
    {
        self.sql_offset
    }

    /// A new SQL result is shown from its first row.
    pub fn reset_sql_offset(&mut self)
        ensures
            final(self)@ == (DashboardView { sql_offset: 0, ..old(self)@ }),
    {
        proof {
            use_type_invariant(&*self);
        }
        self.sql_offset = 0;
    }

    pub fn should_quit(&self) -> (r: bool)
        ensures
            r == self@.should_quit,
    {
        self.should_quit
    }

    /// Select the next tab (wrapping around) and scroll its table to the top.
    pub fn next_tab(&mut self)
        ensures
            final(self)@ == after_key(old(self)@, DashKey::Next).0,
    {
        proof {
            use_type_invariant(&*self);
        }
        self.active_tab = (self.active_tab + 1) % TAB_COUNT;
        self.table_offset = 0;
    }

    /// Select the previous tab (wrapping around) and scroll its table to the
    /// top.
    pub fn previous_tab(&mut self)
        ensures
            final(self)@ == after_key(old(self)@, DashKey::Previous).0,
    {
        proof {
            use_type_invariant(&*self);
        }
        self.active_tab = if self.active_tab == 0 {
            TAB_COUNT - 1
        } else {
            self.active_tab - 1
        };
        self.table_offset = 0;
    }

    /// Scroll down one row: the SQL result on the SQL tab, else the table.
    pub fn scroll_down(&mut self)
        ensures
            final(self)@ == after_key(old(self)@, DashKey::Down).0,
    {
        proof {
            use_type_invariant(&*self);
        }
        if Tab::at(self.active_tab) == Tab::Sql {
            self.sql_offset = self.sql_offset.saturating_add(1);
        } else {
            self.table_offset = self.table_offset.saturating_add(1);
        }
    }

    /// Scroll up one row: the SQL result on the SQL tab, else the table.
    pub fn scroll_up(&mut self)
        ensures
            final(self)@ == after_key(old(self)@, DashKey::Up).0,
    {
        proof {
            use_type_invariant(&*self);
        }
        if Tab::at(self.active_tab) == Tab::Sql {
            self.sql_offset = self.sql_offset.saturating_sub(1);
        } else {
            self.table_offset = self.table_offset.saturating_sub(1);
        }
    }

    /// Apply a key; the returned action is for the application to perform.
    pub fn handle_key(&mut self, key: DashKey) -> (r: KeyAction)
        ensures
            (final(self)@, r) == after_key(old(self)@, key),
    {
        proof {
            use_type_invariant(&*self);
        }
        let on_sql = Tab::at(self.active_tab) == Tab::Sql;
        match key {
            DashKey::Quit => {
                self.should_quit = true;
                KeyAction::Nothing
            },
            DashKey::Next => {
                self.next_tab();
                KeyAction::Nothing
            },
            DashKey::Previous => {
                self.previous_tab();
                KeyAction::Nothing
            },
            DashKey::Refresh => KeyAction::Refresh,
            DashKey::Down => {
                self.scroll_down();
                KeyAction::Nothing
            },
            DashKey::Up => {
                self.scroll_up();
                KeyAction::Nothing
            },
            DashKey::CtrlEnter => if on_sql {
                KeyAction::RunSql
            } else {
                KeyAction::Nothing
            },
            DashKey::Other => KeyAction::Nothing,
        }
    }
}

/// Stepping to the next tab and back returns to the same tab, with the table
/// scrolled to the top.
pub proof fn lemma_next_then_previous(d: DashboardView)
    requires
        0 <= d.active_tab < TAB_COUNT,
    ensures
        after_key(after_key(d, DashKey::Next).0, DashKey::Previous).0 == (DashboardView {
            table_offset: 0,
            ..d
        }),
{
}

/// Stepping to the previous tab and forward again returns to the same tab,
/// with the table scrolled to the top.
pub proof fn lemma_previous_then_next(d: DashboardView)
    requires
        0 <= d.active_tab < TAB_COUNT,
    ensures
        after_key(after_key(d, DashKey::Previous).0, DashKey::Next).0 == (DashboardView {
            table_offset: 0,
            ..d
        }),
{
}

/// The help line of the footer.
pub fn footer_help(tab: Tab) -> (r: &'static str)
    ensures
        tab == Tab::Sql ==> r@
            == "Tab/Arrows switch | Ctrl+Enter run SQL | Alt+Up/Down result scroll | r refresh | q quit"@,
        tab != Tab::Sql ==> r@ == "Tab/Arrows switch | j/k scroll | r or F5 refresh | q quit"@,
{
    if tab == Tab::Sql {
        "Tab/Arrows switch | Ctrl+Enter run SQL | Alt+Up/Down result scroll | r refresh | q quit"
    } else {
        "Tab/Arrows switch | j/k scroll | r or F5 refresh | q quit"
    }
}

/// The summary shown in the header.
pub open spec fn summary_text_of(s: Option<ClusterSummary>) -> Seq<char> {
    match s {
        Some(s) => "FE "@ + crate::text::dec(s.fe_alive as nat) + "/"@ + crate::text::dec(
            s.fe_total as nat,
        ) + " alive | BE "@ + crate::text::dec(s.be_alive as nat) + "/"@ + crate::text::dec(
            s.be_total as nat,
        ) + " alive | decom "@ + crate::text::dec(s.be_decommissioning as nat)
            + " | tablet problem rows "@ + crate::text::dec(s.tablet_problem_rows as nat),
        None => "snapshot unavailable"@,
    }
}

pub fn summary_text(s: Option<ClusterSummary>) -> (r: String)
    ensures
        r@ == summary_text_of(s),
{
    match s {
        Some(s) => {
            let mut t = crate::text::owned("FE ");
            crate::text::push_u64(&mut t, s.fe_alive as u64);
            crate::text::push_str(&mut t, "/");
            crate::text::push_u64(&mut t, s.fe_total as u64);
            crate::text::push_str(&mut t, " alive | BE ");
            crate::text::push_u64(&mut t, s.be_alive as u64);
            crate::text::push_str(&mut t, "/");
            crate::text::push_u64(&mut t, s.be_total as u64);
            crate::text::push_str(&mut t, " alive | decom ");
            crate::text::push_u64(&mut t, s.be_decommissioning as u64);
            crate::text::push_str(&mut t, " | tablet problem rows ");
            crate::text::push_u64(&mut t, s.tablet_problem_rows as u64);
            t
        },
        None => crate::text::owned("snapshot unavailable"),
    }
}

/// The rows of the overview tab: label and text.
pub fn overview_rows(s: &ClusterSummary) -> (r: Vec<(String, String)>)
    ensures
        r@.len() == 3,
        r@[0].0@ == "Frontends"@ && r@[0].1@ == crate::text::dec(s.fe_alive as nat) + "/"@
            + crate::text::dec(s.fe_total as nat) + " alive"@,
        r@[1].0@ == "Backends"@ && r@[1].1@ == crate::text::dec(s.be_alive as nat) + "/"@
            + crate::text::dec(s.be_total as nat) + " alive, "@ + crate::text::dec(
            s.be_decommissioning as nat,
        ) + " decommissioning"@,
        r@[2].0@ == "Tablet health"@ && r@[2].1@ == crate::text::dec(s.tablet_health_rows as nat)
            + " db row(s), "@ + crate::text::dec(s.tablet_problem_rows as nat) + " problem row(s)"@,
{
    let mut f = String::new();
    crate::text::push_u64(&mut f, s.fe_alive as u64);
    crate::text::push_str(&mut f, "/");
    crate::text::push_u64(&mut f, s.fe_total as u64);
    crate::text::push_str(&mut f, " alive");
    let mut b = String::new();
    crate::text::push_u64(&mut b, s.be_alive as u64);
    crate::text::push_str(&mut b, "/");
    crate::text::push_u64(&mut b, s.be_total as u64);
    crate::text::push_str(&mut b, " alive, ");
    crate::text::push_u64(&mut b, s.be_decommissioning as u64);
    crate::text::push_str(&mut b, " decommissioning");
    let mut t = String::new();
    crate::text::push_u64(&mut t, s.tablet_health_rows as u64);
    crate::text::push_str(&mut t, " db row(s), ");
    crate::text::push_u64(&mut t, s.tablet_problem_rows as u64);
    crate::text::push_str(&mut t, " problem row(s)");
    let mut r: Vec<(String, String)> = Vec::new();
    r.push((crate::text::owned("Frontends"), f));
    r.push((crate::text::owned("Backends"), b));
    r.push((crate::text::owned("Tablet health"), t));
    r
}

} // verus!
