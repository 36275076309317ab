//! Data exchanged with the Doris FE (tabular query results) and BE HTTP API
//! (compaction status, `pad_rowset`), and the parsing of BE version ranges.
use vstd::prelude::*;

use crate::config::opt_view;
use crate::text::{
    eq_ignore_ascii_case, eq_ignore_case, index_of_char, index_of_char_from, int_dec,
    lemma_index_of_char_bounds, owned, parse_i64, parse_i64_chars, push_i64, push_str,
    string_views, to_chars, trim, trim_chars,
};

verus! {

// ---------------------------------------------------------------------------
// FE query results
// ---------------------------------------------------------------------------

/// A tabular result set returned from FE: column headers plus rows of
/// stringified cells.
#[derive(Debug)]
pub struct QueryResult {
    pub columns: Vec<String>,
    pub rows: Vec<Vec<String>>,
}

/// Index of the first column whose name equals `name`, ASCII case ignored.
pub open spec fn col_from(cols: Seq<String>, name: Seq<char>, i: int) -> Option<int>
    decreases cols.len() - i,
{
    if i < 0 || i >= cols.len() {
        None
    } else if eq_ignore_case(cols[i]@, name) {
        Some(i)
    } else {
        col_from(cols, name, i + 1)
    }
}

pub open spec fn col_index(cols: Seq<String>, name: Seq<char>) -> Option<int> {
    col_from(cols, name, 0)
}

pub proof fn lemma_col_from(cols: Seq<String>, name: Seq<char>, i: int)
    requires
        0 <= i,
    ensures
        col_from(cols, name, i) matches Some(k) ==> i <= k < cols.len() && eq_ignore_case(
            cols[k]@,
            name,
        ),
    decreases cols.len() - i,
{
    if i < cols.len() && !eq_ignore_case(cols[i]@, name) {
        lemma_col_from(cols, name, i + 1);
    }
}

/// The cell of `row` in the column named `name`, if both exist.
pub open spec fn cell_of(cols: Seq<String>, row: Seq<String>, name: Seq<char>) -> Option<
    Seq<char>,
> {
    match col_index(cols, name) {
        Some(i) => if i < row.len() {
            Some(row[i]@)
        } else {
            None
        },
        None => None,
    }
}

impl QueryResult {
    pub fn new() -> (r: Self)
        ensures
            r.columns@.len() == 0,
            r.rows@.len() == 0,
    {
        QueryResult { columns: Vec::new(), rows: Vec::new() }
    }

    /// Index of a column by (case-insensitive) name.
    pub fn col(&self, name: &str) -> (r: Option<usize>)
        ensures
            r matches Some(i) ==> col_index(self.columns@, name@) == Some(i as int),
            r is None ==> col_index(self.columns@, name@) is None,
    {
        let nc = to_chars(name);
        col_of(&self.columns, nc.as_slice())
    }

    /// Get a cell value by row index and column name.
    pub fn get(&self, row: usize, name: &str) -> (r: Option<&str>)
        ensures
            row >= self.rows@.len() ==> r is None,
            row < self.rows@.len() ==> (r matches Some(c) ==> cell_of(
                self.columns@,
                self.rows@[row as int]@,
                name@,
            ) == Some(c@)) && (r is None ==> cell_of(
                self.columns@,
                self.rows@[row as int]@,
                name@,
            ) is None),
    {
        let idx = match self.col(name) {
            Some(i) => i,
            None => return None,
        };
        if row < self.rows.len() {
            let r = &self.rows[row];
            if idx < r.len() {
                Some(r[idx].as_str())
            } else {
                None
            }
        } else {
            None
        }
    }
}

/// Column lookup on a header given as characters.
pub fn col_of(columns: &Vec<String>, name: &[char]) -> (r: Option<usize>)
    ensures
        r matches Some(i) ==> col_index(columns@, name@) == Some(i as int),
        r is None ==> col_index(columns@, name@) is None,
{
    let mut i: usize = 0;
    while i < columns.len()
        invariant
            i <= columns@.len(),
            col_index(columns@, name@) == col_from(columns@, name@, i as int),
        decreases columns@.len() - i,
    {
        let c = to_chars(columns[i].as_str());
        if eq_ignore_ascii_case(c.as_slice(), name) {
            return Some(i);
        }
        i = i + 1;
    }
    None
}

/// The cell of `row` in column `name` as characters.
pub fn cell_chars(r: &QueryResult, row: &Vec<String>, name: &str) -> (c: Option<Vec<char>>)
    ensures
        c matches Some(v) ==> cell_of(r.columns@, row@, name@) == Some(v@),
        c is None ==> cell_of(r.columns@, row@, name@) is None,
{
    match r.col(name) {
        Some(i) => if i < row.len() {
            Some(to_chars(row[i].as_str()))
        } else {
            None
        },
        None => None,
    }
}

// ---------------------------------------------------------------------------
// BE compaction status and version ranges
// ---------------------------------------------------------------------------

/// Subset of the BE `/api/compaction/show` response.
#[derive(Debug)]
pub struct CompactionStatus {
    pub rowsets: Vec<String>,
    pub missing_rowsets: Vec<String>,
}

impl CompactionStatus {
    pub fn new() -> (r: Self)
        ensures
            r.rowsets@.len() == 0,
            r.missing_rowsets@.len() == 0,
    {
        CompactionStatus { rowsets: Vec::new(), missing_rowsets: Vec::new() }
    }
}

/// The leading version range `[start-end]` of a rowset description: the text
/// between the first `[` and the next `]`, split at its first `-`, both sides
/// trimmed and read as `i64`.
pub open spec fn version_range_of(s0: Seq<char>) -> Option<(int, int)> {
    let s = trim(s0);
    let open = index_of_char_from(s, '[', 0);
    let close = index_of_char_from(s, ']', open);
    if open >= s.len() || close >= s.len() {
        None
    } else {
        let inner = s.subrange(open + 1, close);
        let dash = index_of_char_from(inner, '-', 0);
        if dash >= inner.len() {
            None
        } else {
            let a = parse_i64(trim(inner.subrange(0, dash)));
            let b = parse_i64(trim(inner.subrange(dash + 1, inner.len() as int)));
            if a is Some && b is Some {
                Some((a->0, b->0))
            } else {
                None
            }
        }
    }
}

fn sub_vec(s: &[char], from: usize, to: usize) -> (r: Vec<char>)
    requires
        from <= to <= s@.len(),
    ensures
        r@ == s@.subrange(from as int, to as int),
{
    let mut r: Vec<char> = Vec::new();
    let mut i = from;
    while i < to
        invariant
            from <= i <= to <= s@.len(),
            r@ == s@.subrange(from as int, i as int),
        decreases to - i,
    {
        r.push(s[i]);
        i = i + 1;
        assert(r@ =~= s@.subrange(from as int, i as int));
    }
    r
}

/// Parse a leading version range like `"[35-35] 2 DATA OVERLAPPING ..."` into
/// `(35, 35)`.
pub fn parse_version_range(s: &str) -> (r: Option<(i64, i64)>)
    ensures
        r matches Some(p) ==> version_range_of(s@) == Some((p.0 as int, p.1 as int)),
        r is None ==> version_range_of(s@) is None,
{
    let sc = to_chars(s);
    let t = trim_chars(sc.as_slice());
    let open = index_of_char(t.as_slice(), '[', 0);
    if open >= t.len() {
        return None;
    }
    let close = index_of_char(t.as_slice(), ']', open);
    if close >= t.len() {
        return None;
    }
    proof {
        lemma_index_of_char_bounds(t@, '[', 0);
        lemma_index_of_char_bounds(t@, ']', open as int);
        assert(t@[open as int] == '[');
        assert(close != open);
    }
    let inner = sub_vec(t.as_slice(), open + 1, close);
    let dash = index_of_char(inner.as_slice(), '-', 0);
    if dash >= inner.len() {
        return None;
    }
    let left = sub_vec(inner.as_slice(), 0, dash);
    let right = sub_vec(inner.as_slice(), dash + 1, inner.len());
    let lt = trim_chars(left.as_slice());
    let rt = trim_chars(right.as_slice());
    let a = parse_i64_chars(lt.as_slice());
    let b = parse_i64_chars(rt.as_slice());
    match (a, b) {
        (Some(x), Some(y)) => Some((x, y)),
        _ => None,
    }
}

// ---------------------------------------------------------------------------
// BE HTTP API
// ---------------------------------------------------------------------------

pub open spec fn compaction_url_of(base: Seq<char>, tablet: Seq<char>) -> Seq<char> {
    base + "/api/compaction/show?tablet_id="@ + tablet
}

/// URL of the compaction status of a tablet on a BE.
pub fn compaction_url(base_url: &str, tablet_id: &str) -> (r: String)
    ensures
        r@ == compaction_url_of(base_url@, tablet_id@),
{
    let mut r = owned(base_url);
    push_str(&mut r, "/api/compaction/show?tablet_id=");
    push_str(&mut r, tablet_id);
    r
}

pub open spec fn pad_rowset_url_of(base: Seq<char>, tablet: Seq<char>, start: i64, end: i64) -> Seq<
    char,
> {
    base + "/api/pad_rowset?tablet_id="@ + tablet + "&start_version="@ + int_dec(start as int)
        + "&end_version="@ + int_dec(end as int)
}

/// URL that pads the empty rowset `[start, end]` of a tablet on a BE.
pub fn pad_rowset_url(base_url: &str, tablet_id: &str, start: i64, end: i64) -> (r: String)
    ensures
        r@ == pad_rowset_url_of(base_url@, tablet_id@, start, end),
{
    let mut r = owned(base_url);
    push_str(&mut r, "/api/pad_rowset?tablet_id=");
    push_str(&mut r, tablet_id);
    push_str(&mut r, "&start_version=");
    push_i64(&mut r, start);
    push_str(&mut r, "&end_version=");
    push_i64(&mut r, end);
    r
}

/// What `serde_json` reads from a `pad_rowset` response body: `None` when the
/// body is not JSON, else the integer `code` field and the string `msg` field
/// where present.
pub uninterp spec fn json_code_msg(body: Seq<char>) -> Option<(Option<i64>, Option<Seq<char>>)>;

/// `serde_json::from_str::<Value>` on a response body, reduced to its `code`
/// (`Value::as_i64`) and `msg` (`Value::as_str`) fields. The contract names
/// the result only; what JSON text yields what fields is not stated.
#[verifier::external_body]
fn json_code_and_msg(body: &str) -> (r: Option<(Option<i64>, Option<String>)>)
    ensures
        r matches Some(p) ==> json_code_msg(body@) == Some((p.0, opt_view(p.1))),
        r is None ==> json_code_msg(body@) is None,
{
    let v: serde_json::Value = match serde_json::from_str(body) {
        Ok(v) => v,
        Err(_) => return None,
    };
    let code = match v.get("code") { Some(c) => c.as_i64(), None => None };
    let msg = match v.get("msg") { Some(m) => m.as_str(), None => None };
    Some((code, match msg { Some(m) => Some(m.to_string()), None => None }))
}

/// The verdict on a `pad_rowset` reply, given how its body reads as JSON: a
/// non-success HTTP status fails; a JSON body with a non-zero `code` fails;
/// a JSON body without `code` whose `msg` is not `OK` (ASCII case ignored)
/// fails; anything else succeeds.
pub open spec fn pad_reply_verdict(
    status_ok: bool,
    status: Seq<char>,
    url: Seq<char>,
    body: Seq<char>,
    json: Option<(Option<i64>, Option<Seq<char>>)>,
) -> Result<(), Seq<char>> {
    if !status_ok {
        Err("HTTP "@ + status + " from "@ + url + ": "@ + body)
    } else {
        match json {
            Some((Some(code), _)) => if code == 0 {
                Ok(())
            } else {
                Err("BE returned code "@ + int_dec(code as int) + ": "@ + body)
            },
            Some((None, Some(msg))) => if eq_ignore_case(msg, "OK"@) {
                Ok(())
            } else {
                Err("BE returned msg '"@ + msg + "': "@ + body)
            },
            _ => Ok(()),
        }
    }
}

pub open spec fn json_view(j: Option<(Option<i64>, Option<String>)>) -> Option<(Option<i64>, Option<Seq<char>>)> {
    match j {
        Some(p) => Some((p.0, opt_view(p.1))),
        None => None,
    }
}

/// Judge a `pad_rowset` reply from its status, its body and what the body
/// reads as JSON (`json`: none when it is not JSON, else its `code` and `msg`).
pub fn pad_reply_outcome(
    status_ok: bool,
    status: &str,
    url: &str,
    body: &str,
    json: Option<(Option<i64>, Option<String>)>,
) -> (r: Result<(), String>)
    ensures
        r is Ok == pad_reply_verdict(status_ok, status@, url@, body@, json_view(json)) is Ok,
        r matches Err(m) ==> pad_reply_verdict(status_ok, status@, url@, body@, json_view(json))
            == Err::<(), Seq<char>>(m@),
{
    if !status_ok {
        let mut m = owned("HTTP ");
        push_str(&mut m, status);
        push_str(&mut m, " from ");
        push_str(&mut m, url);
        push_str(&mut m, ": ");
        push_str(&mut m, body);
        return Err(m);
    }
    match json {
        Some((Some(code), _)) => {
            if code == 0 {
                Ok(())
            } else {
                let mut m = owned("BE returned code ");
                push_i64(&mut m, code);
                push_str(&mut m, ": ");
                push_str(&mut m, body);
                Err(m)
            }
        },
        Some((None, Some(msg))) => {
            let mc = to_chars(msg.as_str());
            let ok = to_chars("OK");
            if eq_ignore_ascii_case(mc.as_slice(), ok.as_slice()) {
                Ok(())
            } else {
                let mut m = owned("BE returned msg '");
                push_str(&mut m, msg.as_str());
                push_str(&mut m, "': ");
                push_str(&mut m, body);
                Err(m)
            }
        },
        _ => Ok(()),
    }
}

/// Judge a `pad_rowset` reply from its status and body, reading the body
/// with `serde_json`.
pub fn check_pad_reply(status_ok: bool, status: &str, url: &str, body: &str) -> (r: Result<
    (),
    String,
>)
    ensures
        r is Ok == pad_reply_verdict(status_ok, status@, url@, body@, json_code_msg(body@)) is Ok,
        r matches Err(m) ==> pad_reply_verdict(
            status_ok,
            status@,
            url@,
            body@,
            json_code_msg(body@),
        ) == Err::<(), Seq<char>>(m@),
{
    let json = if status_ok {
        json_code_and_msg(body)
    } else {
        None
    };
    proof {
        if status_ok {
            assert(json_view(json) == json_code_msg(body@));
        }
    }
    pad_reply_outcome(status_ok, status, url, body, json)
}

} // verus!
