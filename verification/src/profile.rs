//! Named cluster profiles: name rules, the profile files found in the
//! profiles directory, and how `profile list/show` choose what to print.
use vstd::prelude::*;

use crate::cluster_meta::{list_line, name_error_of, validate_kind_name};
use crate::strmap::{lex_less, lex_lt};
use crate::text::{from_chars, owned, push_str, string_views, to_chars};

verus! {

/// Check a profile name (same rules as saved-cluster names).
pub fn validate_profile_name(name: &str) -> (r: Result<(), String>)
    ensures
        r is Ok == name_error_of("profile"@, name@) is None,
        r matches Err(m) ==> name_error_of("profile"@, name@) == Some(m@),
{
    validate_kind_name("profile", name)
}

/// Index of the last `c` before position `j`.
pub open spec fn last_index_before(s: Seq<char>, c: char, j: int) -> Option<int>
    decreases j,
{
    if j <= 0 || j > s.len() {
        None
    } else if s[j - 1] == c {
        Some(j - 1)
    } else {
        last_index_before(s, c, j - 1)
    }
}

/// The profile a file in the profiles directory holds: the file stem of a
/// name whose extension is `yaml` (a leading dot alone is no extension).
pub open spec fn yaml_stem(name: Seq<char>) -> Option<Seq<char>> {
    match last_index_before(name, '.', name.len() as int) {
        Some(i) => if i > 0 && name.subrange(i + 1, name.len() as int) == "yaml"@ {
            Some(name.subrange(0, i))
        } else {
            None
        },
        None => None,
    }
}

fn last_dot(s: &[char]) -> (r: Option<usize>)
    ensures
        r matches Some(i) ==> last_index_before(s@, '.', s@.len() as int) == Some(i as int) && i
            < s@.len(),
        r is None ==> last_index_before(s@, '.', s@.len() as int) is None,
{
    let mut j = s.len();
    while j > 0
        invariant
            j <= s@.len(),
            last_index_before(s@, '.', s@.len() as int) == last_index_before(s@, '.', j as int),
        decreases j,
    {
        if s[j - 1] == '.' {
            return Some(j - 1);
        }
        j = j - 1;
    }
    None
}

pub fn yaml_stem_of(name: &str) -> (r: Option<String>)
    ensures
        crate::config::opt_view(r) == yaml_stem(name@),
{
    let nc = to_chars(name);
    match last_dot(nc.as_slice()) {
        Some(i) => {
            if i == 0 {
                return None;
            }
            assert(nc@.len() == nc.len());
            let ext = crate::text::copy_range(nc.as_slice(), i + 1, nc.len());
            let y = to_chars("yaml");
            if crate::text::chars_eq(ext.as_slice(), y.as_slice()) {
                Some(crate::text::slice_string(nc.as_slice(), 0, i))
            } else {
                None
            }
        },
        None => None,
    }
}

/// The stems of the `*.yaml` names among the first `n`, in order.
pub open spec fn yaml_stems(names: Seq<Seq<char>>, n: int) -> Seq<Seq<char>>
    decreases n,
{
    if n <= 0 {
        Seq::empty()
    } else {
        match yaml_stem(names[n - 1]) {
            Some(s) => yaml_stems(names, n - 1).push(s),
            None => yaml_stems(names, n - 1),
        }
    }
}

/// Text `a` does not come after text `b`.
pub open spec fn text_le(a: String, b: String) -> bool {
    !lex_lt(b@, a@)
}

fn first_text(v: &Vec<String>) -> (r: usize)
    requires
        v@.len() > 0,
    ensures
        r < v@.len(),
        forall|j: int| 0 <= j < v@.len() ==> text_le(v@[r as int], #[trigger] v@[j]),
{
    let mut best: usize = 0;
    let mut i: usize = 1;
    proof {
        crate::strmap::lemma_lex_irreflexive(v@[0]@);
    }
    while i < v.len()
        invariant
            0 < v@.len(),
            best < i <= v@.len(),
            forall|j: int| 0 <= j < i ==> text_le(v@[best as int], #[trigger] v@[j]),
        decreases v@.len() - i,
    {
        let a = to_chars(v[i].as_str());
        let b = to_chars(v[best].as_str());
        if lex_less(a.as_slice(), b.as_slice()) {
            proof {
                assert forall|j: int| 0 <= j < i implies text_le(v@[i as int], #[trigger] v@[j]) by {
                    crate::strmap::lemma_lex_asymmetric(v@[i as int]@, v@[best as int]@);
                    if lex_lt(v@[j]@, v@[i as int]@) {
                        crate::strmap::lemma_lex_transitive(v@[j]@, v@[i as int]@, v@[best as int]@);
                    }
                }
                crate::strmap::lemma_lex_irreflexive(v@[i as int]@);
            }
            best = i;
        }
        i = i + 1;
    }
    best
}

/// Texts in ascending order (`sort`).
pub fn sort_texts(v: Vec<String>) -> (r: Vec<String>)
    ensures
        string_views(r@).to_multiset() == string_views(v@).to_multiset(),
        forall|i: int, j: int| 0 <= i < j < r@.len() ==> text_le(#[trigger] r@[i], #[trigger] r@[j]),
{
    let ghost orig = string_views(v@);
    let mut rest = v;
    let mut r: Vec<String> = Vec::new();
    proof {
        string_views(r@).to_multiset_ensures();
        vstd::multiset::lemma_multiset_empty_len(string_views(r@).to_multiset());
        assert(string_views(r@).to_multiset().add(string_views(rest@).to_multiset())
            =~= orig.to_multiset());
    }
    while rest.len() > 0
        invariant
            string_views(r@).to_multiset().add(string_views(rest@).to_multiset())
                == orig.to_multiset(),
            forall|i: int, j: int| 0 <= i < j < r@.len() ==> text_le(#[trigger] r@[i], #[trigger] r@[j]),
            forall|i: int, j: int|
                0 <= i < r@.len() && 0 <= j < rest@.len() ==> text_le(
                    #[trigger] r@[i],
                    #[trigger] rest@[j],
                ),
        decreases rest@.len(),
    {
        let k = first_text(&rest);
        let ghost before_rest = rest@;
        let ghost before_r = r@;
        let ghost bv = string_views(before_rest);
        let ghost rv = string_views(before_r);
        let x = rest.remove(k);
        proof {
            bv.to_multiset_ensures();
            rv.to_multiset_ensures();
        }
        assert(before_rest.remove(k as int) == rest@);
        assert(string_views(rest@) =~= bv.remove(k as int));
        assert(bv[k as int] == x@);
        assert(string_views(rest@).to_multiset() == bv.to_multiset().remove(x@));
        r.push(x);
        assert(string_views(r@) =~= rv.push(x@));
        assert(string_views(r@).to_multiset() == rv.to_multiset().insert(x@));
        assert(bv.to_multiset().count(x@) > 0) by {
            assert(bv.contains(x@));
        }
        assert(string_views(r@).to_multiset().add(string_views(rest@).to_multiset())
            =~= orig.to_multiset());
        assert forall|i: int, j: int|
            0 <= i < r@.len() && 0 <= j < rest@.len() implies text_le(
                #[trigger] r@[i],
                #[trigger] rest@[j],
            ) by {
            if j < k {
                assert(rest@[j] == before_rest[j]);
            } else {
                assert(rest@[j] == before_rest[j + 1]);
            }
        }
        assert forall|i: int, j: int| 0 <= i < j < r@.len() implies text_le(
            #[trigger] r@[i],
            #[trigger] r@[j],
        ) by {
            if j == before_r.len() {
                assert(before_rest[k as int] == r@[j]);
            }
        }
    }
    proof {
        string_views(rest@).to_multiset_ensures();
        vstd::multiset::lemma_multiset_empty_len(string_views(rest@).to_multiset());
    }
    assert(string_views(r@).to_multiset() =~= string_views(r@).to_multiset().add(
        string_views(rest@).to_multiset(),
    ));
    r
}

/// The profile names among the files of the profiles directory: the stems
/// of the `*.yaml` files, sorted.
pub fn profile_names(file_names: &Vec<String>) -> (r: Vec<String>)
    ensures
        string_views(r@).to_multiset() == yaml_stems(
            string_views(file_names@),
            file_names@.len() as int,
        ).to_multiset(),
        forall|i: int, j: int| 0 <= i < j < r@.len() ==> text_le(#[trigger] r@[i], #[trigger] r@[j]),
{
    let ghost fv = string_views(file_names@);
    let mut stems: Vec<String> = Vec::new();
    let mut i: usize = 0;
    while i < file_names.len()
        invariant
            i <= file_names@.len(),
            fv == string_views(file_names@),
            string_views(stems@) == yaml_stems(fv, i as int),
        decreases file_names@.len() - i,
    {
        match yaml_stem_of(file_names[i].as_str()) {
            Some(s) => {
                let ghost before = stems@;
                stems.push(s);
                assert(string_views(stems@) =~= string_views(before).push(s@));
            },
            None => {},
        }
        i = i + 1;
    }
    sort_texts(stems)
}

/// The lines of `profile list`: the names, the active one marked with `*`.
pub fn profile_list_lines(names: &Vec<String>, active: Option<&str>) -> (r: Vec<String>)
    ensures
        r@.len() == names@.len(),
        forall|i: int|
            0 <= i < r@.len() ==> #[trigger] r@[i]@ == list_line(
                names@[i]@,
                crate::cluster_meta::opt_str_view(active),
            ),
{
    let mut r: Vec<String> = Vec::new();
    let mut i: usize = 0;
    while i < names.len()
        invariant
            i <= names@.len(),
            r@.len() == i,
            forall|k: int|
                0 <= k < i ==> #[trigger] r@[k]@ == list_line(
                    names@[k]@,
                    crate::cluster_meta::opt_str_view(active),
                ),
        decreases names@.len() - i,
    {
        let is_active = match active {
            Some(a) => crate::text::string_eq_str(&names[i], a),
            None => false,
        };
        let mut line = if is_active {
            owned("* ")
        } else {
            owned("  ")
        };
        push_str(&mut line, names[i].as_str());
        r.push(line);
        i = i + 1;
    }
    r
}

/// The profile `profile show` prints: the one named, else the `--profile`
/// flag, else the active one.
pub fn profile_show_target(name: Option<&str>, cli_profile: &Option<String>, active: Option<String>) -> (r: Option<String>)
    ensures
        crate::config::opt_view(r) == match name {
            Some(n) => Some(n@),
            None => match cli_profile {
                Some(p) => Some(p@),
                None => crate::config::opt_view(active),
            },
        },
{
    match name {
        Some(n) => Some(owned(n)),
        None => match cli_profile {
            Some(p) => Some(p.clone()),
            None => active,
        },
    }
}

/// What `profile current` reports for the active profile and its path.
pub fn current_profile_message(name: &str, path: Option<&str>) -> (r: String)
    ensures
        r@ == "active profile: "@ + name@ + match path {
            Some(p) => " ("@ + p@ + ")"@,
            None => Seq::<char>::empty(),
        },
{
    let mut s = owned("active profile: ");
    push_str(&mut s, name);
    match path {
        Some(p) => {
            push_str(&mut s, " (");
            push_str(&mut s, p);
            push_str(&mut s, ")");
        },
        None => {},
    }
    s
}

} // verus!
