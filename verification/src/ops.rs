//! Tablet operations: the statements behind `ops tablets/repair/balance`, the
//! problem counters flagged by `ops health`, and the decommission view of
//! `SHOW BACKENDS`.
use vstd::prelude::*;

use crate::cli::BalanceCmd;
use crate::client::{cell_of, col_index, col_of, QueryResult};
use crate::cluster_meta::{host_names, split_hosts};
use crate::text::{
    eq_ignore_ascii_case, eq_ignore_case, join, join_strings, owned, push_str, string_views,
    to_chars, trim_char, trim_char_string,
};
use crate::detect::int_or;

verus! {

/// `` `db`.`table` ``, with backticks already around either name removed.
pub open spec fn qualified_of(db: Seq<char>, table: Seq<char>) -> Seq<char> {
    "`"@ + trim_char(db, '`') + "`.`"@ + trim_char(table, '`') + "`"@
}

/// Quote a db.table reference defensively with backticks.
pub fn qualified(db: &str, table: &str) -> (r: String)
    ensures
        r@ == qualified_of(db@, table@),
{
    let mut s = owned("`");
    let d = trim_char_string(db, '`');
    push_str(&mut s, d.as_str());
    push_str(&mut s, "`.`");
    let t = trim_char_string(table, '`');
    push_str(&mut s, t.as_str());
    push_str(&mut s, "`");
    s
}

pub open spec fn replica_status_sql_of(db: Seq<char>, table: Seq<char>, unhealthy_only: bool) -> Seq<
    char,
> {
    "ADMIN SHOW REPLICA STATUS FROM "@ + qualified_of(db, table) + if unhealthy_only {
        " WHERE STATUS != \"OK\""@
    } else {
        ""@
    }
}

/// `ADMIN SHOW REPLICA STATUS` for a table, optionally only unhealthy replicas.
pub fn replica_status_sql(db: &str, table: &str, unhealthy_only: bool) -> (r: String)
    ensures
        r@ == replica_status_sql_of(db@, table@, unhealthy_only),
{
    let mut s = owned("ADMIN SHOW REPLICA STATUS FROM ");
    let q = qualified(db, table);
    push_str(&mut s, q.as_str());
    if unhealthy_only {
        push_str(&mut s, " WHERE STATUS != \"OK\"");
    } else {
        push_str(&mut s, "");
    }
    s
}

// ---------------------------------------------------------------------------
// ops repair / cancel-repair
// ---------------------------------------------------------------------------

pub open spec fn repair_sql_of(
    db: Seq<char>,
    table: Seq<char>,
    partitions: Option<Seq<char>>,
    cancel: bool,
) -> Seq<char> {
    let verb = if cancel {
        "ADMIN CANCEL REPAIR TABLE"@
    } else {
        "ADMIN REPAIR TABLE"@
    };
    verb + " "@ + qualified_of(db, table) + match partitions {
        Some(p) => " PARTITION ("@ + join(host_names(p), ", "@) + ")"@,
        None => ""@,
    }
}

/// `ADMIN [CANCEL] REPAIR TABLE`, limited to the listed partitions if given.
pub fn repair_sql(db: &str, table: &str, partitions: Option<&str>, cancel: bool) -> (r: String)
    ensures
        r@ == repair_sql_of(db@, table@, crate::cluster_meta::opt_str_view(partitions), cancel),
{
    let mut s = if cancel {
        owned("ADMIN CANCEL REPAIR TABLE")
    } else {
        owned("ADMIN REPAIR TABLE")
    };
    push_str(&mut s, " ");
    let q = qualified(db, table);
    push_str(&mut s, q.as_str());
    match partitions {
        Some(p) => {
            let parts = split_hosts(p);
            let list = join_strings(&parts, ", ");
            push_str(&mut s, " PARTITION (");
            push_str(&mut s, list.as_str());
            push_str(&mut s, ")");
        },
        None => {
            push_str(&mut s, "");
        },
    }
    s
}

pub open spec fn repair_done_of(db: Seq<char>, table: Seq<char>, cancel: bool) -> Seq<char> {
    if cancel {
        "cancelled repair for "@ + qualified_of(db, table)
    } else {
        "scheduled high-priority repair for "@ + qualified_of(db, table)
            + "; check progress with `dcli ops tablets --db "@ + db + " --table "@ + table + "`"@
    }
}

/// What `ops repair` / `ops cancel-repair` reports once the statement ran.
pub fn repair_done_message(db: &str, table: &str, cancel: bool) -> (r: String)
    ensures
        r@ == repair_done_of(db@, table@, cancel),
{
    let q = qualified(db, table);
    if cancel {
        let mut s = owned("cancelled repair for ");
        push_str(&mut s, q.as_str());
        s
    } else {
        let mut s = owned("scheduled high-priority repair for ");
        push_str(&mut s, q.as_str());
        push_str(&mut s, "; check progress with `dcli ops tablets --db ");
        push_str(&mut s, db);
        push_str(&mut s, " --table ");
        push_str(&mut s, table);
        push_str(&mut s, "`");
        s
    }
}

// ---------------------------------------------------------------------------
// ops health
// ---------------------------------------------------------------------------

/// The tablet-health counters that signal a problem when above zero.
pub open spec fn problem_columns() -> Seq<Seq<char>> {
    seq![
        "ReplicaMissingNum"@,
        "VersionIncompleteNum"@,
        "UnrecoverableNum"@,
        "NeedFurtherRepairNum"@,
    ]
}

fn problem_column(k: usize) -> (r: &'static str)
    requires
        k < 4,
    ensures
        r@ == problem_columns()[k as int],
{
    if k == 0 {
        "ReplicaMissingNum"
    } else if k == 1 {
        "VersionIncompleteNum"
    } else if k == 2 {
        "UnrecoverableNum"
    } else {
        "NeedFurtherRepairNum"
    }
}

/// The cell of `name` in a row, or the empty string.
pub open spec fn cell_or_empty(cols: Seq<String>, row: Seq<String>, name: Seq<char>) -> Seq<char> {
    match cell_of(cols, row, name) {
        Some(v) => v,
        None => Seq::empty(),
    }
}

/// Warnings for one row, over the first `k` problem counters.
pub open spec fn row_warnings(cols: Seq<String>, row: Seq<String>, k: int) -> Seq<Seq<char>>
    decreases k,
{
    if k <= 0 {
        Seq::empty()
    } else {
        let rest = row_warnings(cols, row, k - 1);
        let c = problem_columns()[k - 1];
        match cell_of(cols, row, c) {
            Some(v) => if int_or(v, 0) > 0 {
                rest.push(
                    "db "@ + cell_or_empty(cols, row, "DbName"@) + ": "@ + c + " = "@ + v,
                )
            } else {
                rest
            },
            None => rest,
        }
    }
}

/// Warnings for the first `n` rows, in row order.
pub open spec fn health_warnings_of(cols: Seq<String>, rows: Seq<Vec<String>>, n: int) -> Seq<
    Seq<char>,
>
    decreases n,
{
    if n <= 0 {
        Seq::empty()
    } else {
        health_warnings_of(cols, rows, n - 1) + row_warnings(cols, rows[n - 1]@, 4)
    }
}

/// A row's warnings for the first `k` counters hold the warning of every
/// counter among them that is above zero.
proof fn lemma_row_warns(cols: Seq<String>, row: Seq<String>, k: int, j: int, v: Seq<char>)
    requires
        0 <= j < k,
        cell_of(cols, row, problem_columns()[j]) == Some(v),
        int_or(v, 0) > 0,
    ensures
        row_warnings(cols, row, k).contains(
            "db "@ + cell_or_empty(cols, row, "DbName"@) + ": "@ + problem_columns()[j] + " = "@ + v,
        ),
    decreases k,
{
    let w = "db "@ + cell_or_empty(cols, row, "DbName"@) + ": "@ + problem_columns()[j] + " = "@ + v;
    let rest = row_warnings(cols, row, k - 1);
    if j == k - 1 {
        let r = row_warnings(cols, row, k);
        assert(r == rest.push(w));
        assert(r[rest.len() as int] == w);
    } else {
        lemma_row_warns(cols, row, k - 1, j, v);
        let x = choose|x: int| 0 <= x < rest.len() && rest[x] == w;
        let r = row_warnings(cols, row, k);
        assert(r[x] == w);
    }
}

/// The warnings of the first `n` rows hold every warning of each of them.
proof fn lemma_rows_warn(cols: Seq<String>, rows: Seq<Vec<String>>, n: int, i: int, w: Seq<char>)
    requires
        0 <= i < n,
        row_warnings(cols, rows[i]@, 4).contains(w),
    ensures
        health_warnings_of(cols, rows, n).contains(w),
    decreases n,
{
    let a = health_warnings_of(cols, rows, n - 1);
    let b = row_warnings(cols, rows[n - 1]@, 4);
    assert(health_warnings_of(cols, rows, n) == a + b);
    if i == n - 1 {
        let x = choose|x: int| 0 <= x < b.len() && b[x] == w;
        assert((a + b)[a.len() + x] == w);
    } else {
        lemma_rows_warn(cols, rows, n - 1, i, w);
        let x = choose|x: int| 0 <= x < a.len() && a[x] == w;
        assert((a + b)[x] == w);
    }
}

/// `ops health` warns of every database and every one of the four problem
/// counters (`ReplicaMissingNum`, `VersionIncompleteNum`, `UnrecoverableNum`,
/// `NeedFurtherRepairNum`) whose cell reads as an integer above zero, as
/// `db <DbName>: <counter> = <value>`.
pub proof fn lemma_every_positive_counter_warned(
    cols: Seq<String>,
    rows: Seq<Vec<String>>,
    i: int,
    counter: Seq<char>,
    v: Seq<char>,
    n: int,
)
    requires
        0 <= i < rows.len(),
        counter == "ReplicaMissingNum"@ || counter == "VersionIncompleteNum"@ || counter
            == "UnrecoverableNum"@ || counter == "NeedFurtherRepairNum"@,
        cell_of(cols, rows[i]@, counter) == Some(v),
        crate::text::parse_i64(v) == Some(n),
        n > 0,
    ensures
        health_warnings_of(cols, rows, rows.len() as int).contains(
            "db "@ + cell_or_empty(cols, rows[i]@, "DbName"@) + ": "@ + counter + " = "@ + v,
        ),
{
    let j: int = if counter == "ReplicaMissingNum"@ {
        0
    } else if counter == "VersionIncompleteNum"@ {
        1
    } else if counter == "UnrecoverableNum"@ {
        2
    } else {
        3
    };
    assert(problem_columns()[j] == counter);
    lemma_row_warns(cols, rows[i]@, 4, j, v);
    lemma_rows_warn(
        cols,
        rows,
        rows.len() as int,
        i,
        "db "@ + cell_or_empty(cols, rows[i]@, "DbName"@) + ": "@ + counter + " = "@ + v,
    );
}

fn cell_string(r: &QueryResult, row: &Vec<String>, name: &str) -> (c: Option<String>)
    ensures
        c matches Some(v) ==> cell_of(r.columns@, row@, name@) == Some(v@),
        c is None ==> cell_of(r.columns@, row@, name@) is None,
{
    match r.col(name) {
        Some(i) => if i < row.len() {
            Some(row[i].clone())
        } else {
            None
        },
        None => None,
    }
}

/// `ops health`: one warning per database and counter that is above zero,
/// `db <name>: <counter> = <value>` (values that are not numbers count as 0).
pub fn health_warnings(r: &QueryResult) -> (w: Vec<String>)
    ensures
        string_views(w@) == health_warnings_of(r.columns@, r.rows@, r.rows@.len() as int),
        forall|i: int, k: int|
            #![trigger r.rows@[i], problem_columns()[k]]
            0 <= i < r.rows@.len() && 0 <= k < 4 && cell_of(
                r.columns@,
                r.rows@[i]@,
                problem_columns()[k],
            ) is Some && int_or(cell_of(r.columns@, r.rows@[i]@, problem_columns()[k])->0, 0) > 0
                ==> string_views(w@).contains(
                "db "@ + cell_or_empty(r.columns@, r.rows@[i]@, "DbName"@) + ": "@
                    + problem_columns()[k] + " = "@ + cell_of(
                    r.columns@,
                    r.rows@[i]@,
                    problem_columns()[k],
                )->0,
            ),
{
    proof {
        assert forall|i: int, k: int|
            #![trigger r.rows@[i], problem_columns()[k]]
            0 <= i < r.rows@.len() && 0 <= k < 4 && cell_of(
                r.columns@,
                r.rows@[i]@,
                problem_columns()[k],
            ) is Some && int_or(cell_of(r.columns@, r.rows@[i]@, problem_columns()[k])->0, 0) > 0
                implies health_warnings_of(r.columns@, r.rows@, r.rows@.len() as int).contains(
            "db "@ + cell_or_empty(r.columns@, r.rows@[i]@, "DbName"@) + ": "@ + problem_columns()[k]
                + " = "@ + cell_of(r.columns@, r.rows@[i]@, problem_columns()[k])->0,
        ) by {
            let v = cell_of(r.columns@, r.rows@[i]@, problem_columns()[k])->0;
            let n = int_or(v, 0);
            assert(problem_columns()[k] == "ReplicaMissingNum"@ || problem_columns()[k]
                == "VersionIncompleteNum"@ || problem_columns()[k] == "UnrecoverableNum"@
                || problem_columns()[k] == "NeedFurtherRepairNum"@);
            lemma_every_positive_counter_warned(r.columns@, r.rows@, i, problem_columns()[k], v, n);
        }
    }
    let mut w: Vec<String> = Vec::new();
    let mut i: usize = 0;
    while i < r.rows.len()
        invariant
            i <= r.rows@.len(),
            string_views(w@) == health_warnings_of(r.columns@, r.rows@, i as int),
        decreases r.rows@.len() - i,
    {
        let row = &r.rows[i];
        let ghost base = string_views(w@);
        let mut k: usize = 0;
        while k < 4
            invariant
                k <= 4,
                i < r.rows@.len(),
                row == r.rows@[i as int],
                string_views(w@) == base + row_warnings(r.columns@, row@, k as int),
            decreases 4 - k,
        {
            let c = problem_column(k);
            match cell_string(r, row, c) {
                Some(v) => {
                    let vc = to_chars(v.as_str());
                    let n = match crate::text::parse_i64_chars(vc.as_slice()) {
                        Some(x) => x,
                        None => 0,
                    };
                    if n > 0 {
                        let db = match cell_string(r, row, "DbName") {
                            Some(d) => d,
                            None => String::new(),
                        };
                        let mut m = owned("db ");
                        push_str(&mut m, db.as_str());
                        push_str(&mut m, ": ");
                        push_str(&mut m, c);
                        push_str(&mut m, " = ");
                        push_str(&mut m, v.as_str());
                        let ghost before = w@;
                        w.push(m);
                        assert(string_views(w@) =~= string_views(before).push(m@));
                    }
                },
                None => {},
            }
            k = k + 1;
        }
        i = i + 1;
    }
    w
}

// ---------------------------------------------------------------------------
// ops decommission-status
// ---------------------------------------------------------------------------

/// The columns `ops decommission-status` shows, where `SHOW BACKENDS` has them.
pub open spec fn decommission_columns() -> Seq<Seq<char>> {
    seq![
        "BackendId"@,
        "Host"@,
        "Alive"@,
        "SystemDecommissioned"@,
        "TabletNum"@,
        "DataUsedCapacity"@,
    ]
}

fn decommission_column(k: usize) -> (r: &'static str)
    requires
        k < 6,
    ensures
        r@ == decommission_columns()[k as int],
{
    if k == 0 {
        "BackendId"
    } else if k == 1 {
        "Host"
    } else if k == 2 {
        "Alive"
    } else if k == 3 {
        "SystemDecommissioned"
    } else if k == 4 {
        "TabletNum"
    } else {
        "DataUsedCapacity"
    }
}

/// The wanted columns among the first `k` that the result has.
pub open spec fn present_columns(cols: Seq<String>, k: int) -> Seq<Seq<char>>
    decreases k,
{
    if k <= 0 {
        Seq::empty()
    } else {
        let rest = present_columns(cols, k - 1);
        let c = decommission_columns()[k - 1];
        if col_index(cols, c) is Some {
            rest.push(c)
        } else {
            rest
        }
    }
}

/// A backend row marked `SystemDecommissioned = true` (ASCII case ignored).
pub open spec fn is_decommissioning(cols: Seq<String>, row: Seq<String>) -> bool {
    match cell_of(cols, row, "SystemDecommissioned"@) {
        Some(v) => eq_ignore_case(v, "true"@),
        None => false,
    }
}

/// The cells of `row` in the columns `shown`, empty where missing.
pub open spec fn projected_row(cols: Seq<String>, row: Seq<String>, shown: Seq<Seq<char>>) -> Seq<
    Seq<char>,
> {
    Seq::new(shown.len(), |k: int| cell_or_empty(cols, row, shown[k]))
}

/// The projected decommissioning rows among the first `n` rows.
pub open spec fn decommission_rows(cols: Seq<String>, rows: Seq<Vec<String>>, n: int) -> Seq<
    Seq<Seq<char>>,
>
    decreases n,
{
    if n <= 0 {
        Seq::empty()
    } else {
        let rest = decommission_rows(cols, rows, n - 1);
        if is_decommissioning(cols, rows[n - 1]@) {
            rest.push(projected_row(cols, rows[n - 1]@, present_columns(cols, 6)))
        } else {
            rest
        }
    }
}

pub open spec fn row_views(rows: Seq<Vec<String>>) -> Seq<Seq<Seq<char>>> {
    Seq::new(rows.len(), |i: int| string_views(rows[i]@))
}

/// `SHOW BACKENDS` narrowed to decommissioning backends and the columns that
/// track their progress.
pub fn decommission_view(r: &QueryResult) -> (out: QueryResult)
    ensures
        string_views(out.columns@) == present_columns(r.columns@, 6),
        row_views(out.rows@) == decommission_rows(r.columns@, r.rows@, r.rows@.len() as int),
{
    let mut columns: Vec<String> = Vec::new();
    let mut k: usize = 0;
    while k < 6
        invariant
            k <= 6,
            string_views(columns@) == present_columns(r.columns@, k as int),
        decreases 6 - k,
    {
        let c = decommission_column(k);
        if r.col(c).is_some() {
            let ghost before = columns@;
            columns.push(owned(c));
            assert(string_views(columns@) =~= string_views(before).push(c@));
        }
        k = k + 1;
    }
    let ghost shown = string_views(columns@);
    let mut rows: Vec<Vec<String>> = Vec::new();
    let mut i: usize = 0;
    while i < r.rows.len()
        invariant
            i <= r.rows@.len(),
            shown == string_views(columns@),
            shown == present_columns(r.columns@, 6),
            row_views(rows@) == decommission_rows(r.columns@, r.rows@, i as int),
        decreases r.rows@.len() - i,
    {
        let row = &r.rows[i];
        let decom = match cell_string(r, row, "SystemDecommissioned") {
            Some(v) => {
                let vc = to_chars(v.as_str());
                let t = to_chars("true");
                eq_ignore_ascii_case(vc.as_slice(), t.as_slice())
            },
            None => false,
        };
        if decom {
            let mut projected: Vec<String> = Vec::new();
            let mut j: usize = 0;
            while j < columns.len()
                invariant
                    j <= columns@.len(),
                    shown == string_views(columns@),
                    i < r.rows@.len(),
                    row == r.rows@[i as int],
                    projected@.len() == j,
                    string_views(projected@) == projected_row(r.columns@, row@, shown).subrange(
                        0,
                        j as int,
                    ),
                decreases columns@.len() - j,
            {
                let cell = match cell_string(r, row, columns[j].as_str()) {
                    Some(v) => v,
                    None => String::new(),
                };
                assert(shown[j as int] == columns@[j as int]@);
                assert(cell@ == cell_or_empty(r.columns@, row@, shown[j as int]));
                let ghost before = projected@;
                projected.push(cell);
                assert forall|q: int| 0 <= q < j implies #[trigger] projected@[q]@
                    == projected_row(r.columns@, row@, shown)[q] by {
                    assert(projected@[q] == before[q]);
                    assert(string_views(before)[q] == projected_row(r.columns@, row@, shown).subrange(0, j as int)[q]);
                }
                assert(string_views(projected@) =~= projected_row(r.columns@, row@, shown).subrange(
                    0,
                    j + 1,
                ));
                j = j + 1;
            }
            assert(projected_row(r.columns@, row@, shown).subrange(0, j as int) =~= projected_row(
                r.columns@,
                row@,
                shown,
            ));
            let ghost before = rows@;
            rows.push(projected);
            assert(row_views(rows@) =~= row_views(before).push(string_views(projected@)));
        }
        i = i + 1;
    }
    QueryResult { columns, rows }
}

// ---------------------------------------------------------------------------
// ops balance
// ---------------------------------------------------------------------------

/// The statement behind an `ops balance` subcommand: a query whose result is
/// shown (`show`), or a setting whose change is reported.
#[derive(Debug)]
pub struct BalancePlan {
    pub is_query: bool,
    pub sql: &'static str,
    pub done: Option<&'static str>,
}

pub fn balance_plan(cmd: &BalanceCmd) -> (r: BalancePlan)
    ensures
        cmd is Show ==> r.is_query && r.sql@ == "ADMIN SHOW FRONTEND CONFIG LIKE '%disable_balance%'"@
            && r.done is None,
        cmd is Enable ==> !r.is_query && r.sql@
            == "ADMIN SET FRONTEND CONFIG (\"disable_balance\" = \"false\")"@ && (r.done matches Some(
            d,
        ) && d@ == "tablet balancing enabled (disable_balance = false)"@),
        cmd is Disable ==> !r.is_query && r.sql@
            == "ADMIN SET FRONTEND CONFIG (\"disable_balance\" = \"true\")"@ && (r.done matches Some(
            d,
        ) && d@ == "tablet balancing disabled (disable_balance = true)"@),
{
    match cmd {
        BalanceCmd::Show => BalancePlan {
            is_query: true,
            sql: "ADMIN SHOW FRONTEND CONFIG LIKE '%disable_balance%'",
            done: None,
        },
        BalanceCmd::Enable => BalancePlan {
            is_query: false,
            sql: "ADMIN SET FRONTEND CONFIG (\"disable_balance\" = \"false\")",
            done: Some("tablet balancing enabled (disable_balance = false)"),
        },
        BalanceCmd::Disable => BalancePlan {
            is_query: false,
            sql: "ADMIN SET FRONTEND CONFIG (\"disable_balance\" = \"true\")",
            done: Some("tablet balancing disabled (disable_balance = true)"),
        },
    }
}

} // verus!
