//! Scaling the cluster: host lists with default ports, the `ALTER SYSTEM`
//! statements for backends and frontends, and what is confirmed, warned and
//! reported around them.
use vstd::prelude::*;

use crate::cli::{BeHostsArgs, FeNodeArgs};
use crate::cluster_meta::{host_names, split_hosts};
use crate::text::{
    contains, contains_str, dec, eq_ignore_case, join, join_strings, lower, owned, push_str,
    push_u64, string_views, to_chars, to_lower, from_chars,
};

verus! {

/// `host`, with `:port` appended unless it already names a port.
pub open spec fn with_port_of(host: Seq<char>, port: u16) -> Seq<char> {
    if contains(host, ":"@) {
        host
    } else {
        host + ":"@ + dec(port as nat)
    }
}

pub fn with_port(host: &str, default_port: u16) -> (r: String)
    ensures
        r@ == with_port_of(host@, default_port),
{
    let hc = to_chars(host);
    if contains_str(hc.as_slice(), ":") {
        owned(host)
    } else {
        let mut s = owned(host);
        push_str(&mut s, ":");
        push_u64(&mut s, default_port as u64);
        s
    }
}

/// A comma-separated host list, each host with the default port where it
/// names none.
pub open spec fn host_list_of(hosts: Seq<char>, port: u16) -> Seq<Seq<char>> {
    Seq::new(host_names(hosts).len(), |i: int| with_port_of(host_names(hosts)[i], port))
}

pub fn host_list(hosts: &str, default_port: u16) -> (r: Vec<String>)
    ensures
        string_views(r@) == host_list_of(hosts@, default_port),
{
    let names = split_hosts(hosts);
    let ghost nv = string_views(names@);
    let mut r: Vec<String> = Vec::new();
    let mut i: usize = 0;
    while i < names.len()
        invariant
            i <= names@.len(),
            nv == string_views(names@),
            nv == host_names(hosts@),
            r@.len() == i,
            forall|k: int| 0 <= k < i ==> (#[trigger] r@[k])@ == with_port_of(nv[k], default_port),
        decreases names@.len() - i,
    {
        r.push(with_port(names[i].as_str(), default_port));
        i = i + 1;
    }
    assert(string_views(r@) =~= host_list_of(hosts@, default_port));
    r
}

pub open spec fn quoted(items: Seq<Seq<char>>) -> Seq<Seq<char>> {
    Seq::new(items.len(), |i: int| "\""@ + items[i] + "\""@)
}

/// `"a", "b"`: each item in double quotes, joined with `, `.
pub fn quoted_csv(items: &Vec<String>) -> (r: String)
    ensures
        r@ == join(quoted(string_views(items@)), ", "@),
{
    let mut q: Vec<String> = Vec::new();
    let mut i: usize = 0;
    while i < items.len()
        invariant
            i <= items@.len(),
            q@.len() == i,
            forall|k: int|
                0 <= k < i ==> (#[trigger] q@[k])@ == "\""@ + items@[k]@ + "\""@,
        decreases items@.len() - i,
    {
        let mut s = owned("\"");
        push_str(&mut s, items[i].as_str());
        push_str(&mut s, "\"");
        q.push(s);
        i = i + 1;
    }
    assert(string_views(q@) =~= quoted(string_views(items@)));
    join_strings(&q, ", ")
}

/// What to do for one scaling command: the statement, the warnings and the
/// confirmation question shown first (when not pre-confirmed), and the
/// reports after it ran.
#[derive(Debug)]
pub struct ScalePlan {
    pub warnings: Vec<String>,
    pub confirm: Option<String>,
    pub sql: String,
    pub done: String,
    pub info: Option<String>,
}

/// The backend scaling operations.
#[derive(Debug, Clone, Copy, PartialEq, Eq, Structural)]
pub enum BeScaleOp {
    Add,
    Decommission,
    CancelDecommission,
    Drop,
}

pub open spec fn be_sql_of(op: BeScaleOp, list: Seq<Seq<char>>) -> Seq<char> {
    let csv = join(quoted(list), ", "@);
    match op {
        BeScaleOp::Add => "ALTER SYSTEM ADD BACKEND "@ + csv,
        BeScaleOp::Decommission => "ALTER SYSTEM DECOMMISSION BACKEND "@ + csv,
        BeScaleOp::CancelDecommission => "ALTER SYSTEM CANCEL DECOMMISSION BACKEND "@ + csv,
        // Doris intentionally requires the misspelled DROPP to avoid accidental data loss.
        BeScaleOp::Drop => "ALTER SYSTEM DROPP BACKEND "@ + csv,
    }
}

pub open spec fn be_confirm_of(op: BeScaleOp, list: Seq<Seq<char>>, yes: bool) -> Option<Seq<char>> {
    let n = dec(list.len());
    let joined = join(list, ", "@);
    if yes {
        None
    } else {
        match op {
            BeScaleOp::Decommission => Some(
                "Decommission "@ + n + " backend(s)? Data will be migrated first (safe). ["@
                    + joined + "]"@,
            ),
            BeScaleOp::Drop => Some("Force-drop "@ + n + " backend(s)? ["@ + joined + "]"@),
            _ => None,
        }
    }
}

pub open spec fn be_warnings_of(op: BeScaleOp, yes: bool) -> Seq<Seq<char>> {
    if !yes && op == BeScaleOp::Drop {
        seq![
            "DROP BACKEND removes the node WITHOUT migrating data; replicas on it are lost."@,
            "Prefer `scale decommission-be` for safe removal."@,
        ]
    } else {
        Seq::empty()
    }
}

pub open spec fn be_done_of(op: BeScaleOp, list: Seq<Seq<char>>) -> Seq<char> {
    let n = dec(list.len());
    match op {
        BeScaleOp::Add => "added "@ + n + " backend(s): "@ + join(list, ", "@),
        BeScaleOp::Decommission => "decommission started for "@ + n
            + " backend(s); track with `dcli ops decommission-status`"@,
        BeScaleOp::CancelDecommission => "cancelled decommission for "@ + join(list, ", "@),
        BeScaleOp::Drop => "dropped "@ + n + " backend(s)"@,
    }
}

fn count_text(n: usize) -> (r: String)
    ensures
        r@ == dec(n as nat),
{
    let mut s = String::new();
    push_u64(&mut s, n as u64);
    assert(s@ =~= dec(n as nat));
    s
}

/// `scale add-be | decommission-be | cancel-decommission | drop-be`.
pub fn be_scale_plan(op: BeScaleOp, args: &BeHostsArgs, default_port: u16) -> (r: ScalePlan)
    ensures
        ({
            let list = host_list_of(args.hosts@, default_port);
            &&& r.sql@ == be_sql_of(op, list)
            &&& crate::config::opt_view(r.confirm) == be_confirm_of(op, list, args.yes)
            &&& string_views(r.warnings@) == be_warnings_of(op, args.yes)
            &&& r.done@ == be_done_of(op, list)
            &&& r.info is None
        }),
{
    let list = host_list(args.hosts.as_str(), default_port);
    let csv = quoted_csv(&list);
    let joined = join_strings(&list, ", ");
    let n = count_text(list.len());
    let mut sql = match op {
        BeScaleOp::Add => owned("ALTER SYSTEM ADD BACKEND "),
        BeScaleOp::Decommission => owned("ALTER SYSTEM DECOMMISSION BACKEND "),
        BeScaleOp::CancelDecommission => owned("ALTER SYSTEM CANCEL DECOMMISSION BACKEND "),
        BeScaleOp::Drop => owned("ALTER SYSTEM DROPP BACKEND "),
    };
    push_str(&mut sql, csv.as_str());
    let mut warnings: Vec<String> = Vec::new();
    let confirm = if args.yes {
        None
    } else {
        match op {
            BeScaleOp::Decommission => {
                let mut c = owned("Decommission ");
                push_str(&mut c, n.as_str());
                push_str(&mut c, " backend(s)? Data will be migrated first (safe). [");
                push_str(&mut c, joined.as_str());
                push_str(&mut c, "]");
                Some(c)
            },
            BeScaleOp::Drop => {
                warnings.push(
                    owned(
                        "DROP BACKEND removes the node WITHOUT migrating data; replicas on it are lost.",
                    ),
                );
                warnings.push(owned("Prefer `scale decommission-be` for safe removal."));
                let mut c = owned("Force-drop ");
                push_str(&mut c, n.as_str());
                push_str(&mut c, " backend(s)? [");
                push_str(&mut c, joined.as_str());
                push_str(&mut c, "]");
                Some(c)
            },
            _ => None,
        }
    };
    assert(string_views(warnings@) =~= be_warnings_of(op, args.yes));
    let done = match op {
        BeScaleOp::Add => {
            let mut d = owned("added ");
            push_str(&mut d, n.as_str());
            push_str(&mut d, " backend(s): ");
            push_str(&mut d, joined.as_str());
            d
        },
        BeScaleOp::Decommission => {
            let mut d = owned("decommission started for ");
            push_str(&mut d, n.as_str());
            push_str(&mut d, " backend(s); track with `dcli ops decommission-status`");
            d
        },
        BeScaleOp::CancelDecommission => {
            let mut d = owned("cancelled decommission for ");
            push_str(&mut d, joined.as_str());
            d
        },
        BeScaleOp::Drop => {
            let mut d = owned("dropped ");
            push_str(&mut d, n.as_str());
            push_str(&mut d, " backend(s)");
            d
        },
    };
    ScalePlan { warnings, confirm, sql, done, info: None }
}

/// The `ALTER SYSTEM` keyword of an FE role (ASCII case ignored), or why the
/// role is not one.
pub open spec fn fe_role_of(role: Seq<char>) -> Result<Seq<char>, Seq<char>> {
    let l = lower(role);
    if l == "follower"@ {
        Ok("FOLLOWER"@)
    } else if l == "observer"@ {
        Ok("OBSERVER"@)
    } else {
        Err("invalid FE role '"@ + l + "' (expected follower or observer)"@)
    }
}

pub fn fe_role(role: &str) -> (r: Result<&'static str, String>)
    ensures
        r matches Ok(k) ==> fe_role_of(role@) == Ok::<Seq<char>, Seq<char>>(k@),
        r matches Err(m) ==> fe_role_of(role@) == Err::<Seq<char>, Seq<char>>(m@),
{
    let rc = to_chars(role);
    let l = to_lower(rc.as_slice());
    let f = to_chars("follower");
    let o = to_chars("observer");
    if crate::text::chars_eq(l.as_slice(), f.as_slice()) {
        Ok("FOLLOWER")
    } else if crate::text::chars_eq(l.as_slice(), o.as_slice()) {
        Ok("OBSERVER")
    } else {
        let mut m = owned("invalid FE role '");
        let ls = from_chars(l.as_slice());
        push_str(&mut m, ls.as_str());
        push_str(&mut m, "' (expected follower or observer)");
        Err(m)
    }
}

/// `scale add-fe` (`add`) or `scale drop-fe`, or the role error.
pub fn fe_scale_plan(add: bool, args: &FeNodeArgs, default_port: u16) -> (r: Result<ScalePlan, String>)
    ensures
        fe_role_of(args.role@) is Err ==> (r matches Err(m) && fe_role_of(args.role@) == Err::<
            Seq<char>,
            Seq<char>,
        >(m@)),
        fe_role_of(args.role@) matches Ok(role) ==> (r matches Ok(p) && ({
            let node = with_port_of(args.host@, default_port);
            &&& p.sql@ == (if add {
                "ALTER SYSTEM ADD "@
            } else {
                "ALTER SYSTEM DROP "@
            }) + role + " \""@ + node + "\""@
            &&& p.warnings@.len() == 0
            &&& crate::config::opt_view(p.confirm) == if add || args.yes {
                None
            } else {
                Some("Drop "@ + role + " "@ + node + "?"@)
            }
            &&& p.done@ == (if add {
                "added "@
            } else {
                "dropped "@
            }) + role + " "@ + node
            &&& crate::config::opt_view(p.info) == if add {
                Some(
                    "start the new FE with `--helper <existing_fe_host>:<edit_log_port>` on first boot"@,
                )
            } else {
                None
            }
        })),
{
    let role = fe_role(args.role.as_str())?;
    let node = with_port(args.host.as_str(), default_port);
    let mut sql = if add {
        owned("ALTER SYSTEM ADD ")
    } else {
        owned("ALTER SYSTEM DROP ")
    };
    push_str(&mut sql, role);
    push_str(&mut sql, " \"");
    push_str(&mut sql, node.as_str());
    push_str(&mut sql, "\"");
    let confirm = if add || args.yes {
        None
    } else {
        let mut c = owned("Drop ");
        push_str(&mut c, role);
        push_str(&mut c, " ");
        push_str(&mut c, node.as_str());
        push_str(&mut c, "?");
        Some(c)
    };
    let mut done = if add {
        owned("added ")
    } else {
        owned("dropped ")
    };
    push_str(&mut done, role);
    push_str(&mut done, " ");
    push_str(&mut done, node.as_str());
    let info = if add {
        Some(owned("start the new FE with `--helper <existing_fe_host>:<edit_log_port>` on first boot"))
    } else {
        None
    };
    Ok(ScalePlan { warnings: Vec::new(), confirm, sql, done, info })
}

/// Dangerous backend removals (decommission, drop) ask for confirmation
/// unless `--yes` is given; adding backends and cancelling a decommission
/// never ask.
pub proof fn lemma_dangerous_ops_confirmed(op: BeScaleOp, list: Seq<Seq<char>>, yes: bool)
    ensures
        (op == BeScaleOp::Decommission || op == BeScaleOp::Drop) ==> (be_confirm_of(op, list, yes)
            is Some <==> !yes),
        (op == BeScaleOp::Add || op == BeScaleOp::CancelDecommission) ==> be_confirm_of(
            op,
            list,
            yes,
        ) is None,
{
}

/// A host list entry always names a port, and naming a port again leaves
/// it unchanged.
pub proof fn lemma_with_port_idempotent(host: Seq<char>, p: u16, q: u16)
    ensures
        contains(with_port_of(host, p), ":"@),
        with_port_of(with_port_of(host, p), q) == with_port_of(host, p),
{
    if !contains(host, ":"@) {
        let w = host + ":"@ + dec(p as nat);
        reveal_strlit(":");
        let i = host.len() as int;
        assert(w.subrange(i, i + 1) =~= ":"@);
        assert(crate::text::occurs_at(w, ":"@, i));
        crate::text::lemma_occurs_contains(w, ":"@, i);
    }
}

} // verus!
