//! `cluster status`: frontend and backend availability from `SHOW FRONTENDS`
//! and `SHOW BACKENDS`.
use vstd::prelude::*;

use crate::client::{cell_of, QueryResult};
use crate::text::{dec, eq_ignore_case, eq_ignore_ascii_case_str, owned, push_str, push_u64, string_views};
use crate::tui::count_true;

verus! {

/// A cell that reads `true` (ASCII case ignored); a missing one does not.
pub open spec fn true_cell(cols: Seq<String>, row: Seq<String>, name: Seq<char>) -> bool {
    match cell_of(cols, row, name) {
        Some(v) => eq_ignore_case(v, "true"@),
        None => false,
    }
}

pub open spec fn true_flags(r: QueryResult, name: Seq<char>) -> Seq<bool> {
    Seq::new(r.rows@.len(), |i: int| true_cell(r.columns@, r.rows@[i]@, name))
}

/// Counts of `cluster status`.
#[derive(Debug, Clone, Copy, PartialEq, Eq, Structural)]
pub struct ClusterStatus {
    pub fe_total: usize,
    pub fe_alive: usize,
    pub be_total: usize,
    pub be_alive: usize,
    pub be_decommissioning: usize,
}

fn count_true_cells(r: &QueryResult, name: &str) -> (n: usize)
    ensures
        n == count_true(true_flags(*r, name@), r.rows@.len() as int),
        n <= r.rows@.len(),
{
    let ghost flags = true_flags(*r, name@);
    let mut n: usize = 0;
    let mut i: usize = 0;
    while i < r.rows.len()
        invariant
            i <= r.rows@.len(),
            flags == true_flags(*r, name@),
            n == count_true(flags, i as int),
            n <= i,
        decreases r.rows@.len() - i,
    {
        let yes = match crate::client::cell_chars(r, &r.rows[i], name) {
            Some(v) => eq_ignore_ascii_case_str(v.as_slice(), "true"),
            None => false,
        };
        if yes {
            n = n + 1;
        }
        i = i + 1;
    }
    n
}

/// Count frontends and backends, alive ones, and decommissioning backends.
pub fn cluster_status(frontends: &QueryResult, backends: &QueryResult) -> (s: ClusterStatus)
    ensures
        s.fe_total == frontends.rows@.len(),
        s.fe_alive == count_true(true_flags(*frontends, "Alive"@), frontends.rows@.len() as int),
        s.be_total == backends.rows@.len(),
        s.be_alive == count_true(true_flags(*backends, "Alive"@), backends.rows@.len() as int),
        s.be_decommissioning == count_true(
            true_flags(*backends, "SystemDecommissioned"@),
            backends.rows@.len() as int,
        ),
        s.fe_alive <= s.fe_total,
        s.be_alive <= s.be_total,
{
    ClusterStatus {
        fe_total: frontends.rows.len(),
        fe_alive: count_true_cells(frontends, "Alive"),
        be_total: backends.rows.len(),
        be_alive: count_true_cells(backends, "Alive"),
        be_decommissioning: count_true_cells(backends, "SystemDecommissioned"),
    }
}

pub open spec fn status_lines_of(s: ClusterStatus) -> Seq<Seq<char>> {
    seq![
        "Cluster status"@,
        "  Frontends: "@ + dec(s.fe_alive as nat) + "/"@ + dec(s.fe_total as nat) + " alive"@,
        "  Backends:  "@ + dec(s.be_alive as nat) + "/"@ + dec(s.be_total as nat) + " alive, "@
            + dec(s.be_decommissioning as nat) + " decommissioning"@,
    ]
}

pub open spec fn status_warnings_of(s: ClusterStatus) -> Seq<Seq<char>> {
    let be: Seq<Seq<char>> = if s.be_alive < s.be_total {
        seq![dec((s.be_total - s.be_alive) as nat) + " backend(s) are DOWN"@]
    } else {
        Seq::empty()
    };
    let fe: Seq<Seq<char>> = if s.fe_alive < s.fe_total {
        seq![dec((s.fe_total - s.fe_alive) as nat) + " frontend(s) are DOWN"@]
    } else {
        Seq::empty()
    };
    be + fe
}

/// The text report of `cluster status`: the printed lines, then warnings for
/// nodes that are down.
pub fn status_report(s: &ClusterStatus) -> (r: (Vec<String>, Vec<String>))
    requires
        s.fe_alive <= s.fe_total,
        s.be_alive <= s.be_total,
    ensures
        string_views(r.0@) == status_lines_of(*s),
        string_views(r.1@) == status_warnings_of(*s),
{
    let mut lines: Vec<String> = Vec::new();
    lines.push(owned("Cluster status"));
    let mut f = owned("  Frontends: ");
    push_u64(&mut f, s.fe_alive as u64);
    push_str(&mut f, "/");
    push_u64(&mut f, s.fe_total as u64);
    push_str(&mut f, " alive");
    lines.push(f);
    let mut b = owned("  Backends:  ");
    push_u64(&mut b, s.be_alive as u64);
    push_str(&mut b, "/");
    push_u64(&mut b, s.be_total as u64);
    push_str(&mut b, " alive, ");
    push_u64(&mut b, s.be_decommissioning as u64);
    push_str(&mut b, " decommissioning");
    lines.push(b);
    assert(string_views(lines@) =~= status_lines_of(*s));
    let mut warnings: Vec<String> = Vec::new();
    if s.be_alive < s.be_total {
        let mut w = String::new();
        push_u64(&mut w, (s.be_total - s.be_alive) as u64);
        push_str(&mut w, " backend(s) are DOWN");
        warnings.push(w);
    }
    if s.fe_alive < s.fe_total {
        let mut w = String::new();
        push_u64(&mut w, (s.fe_total - s.fe_alive) as u64);
        push_str(&mut w, " frontend(s) are DOWN");
        warnings.push(w);
    }
    assert(string_views(warnings@) =~= status_warnings_of(*s));
    (lines, warnings)
}

} // verus!
