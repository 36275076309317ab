//! Official Doris releases: tag normalisation, release-note parsing of the
//! binary download links, channel selection and package paths/messages.
use vstd::prelude::*;

use crate::config::{home_dir, join_path, opt_view, path_join};
use crate::strmap::StrMap;
use crate::text::{lemma_skip_char_bounds, upper, upper_char, parse_u64, skip_char_from, 
    chars_eq, contains, contains_str, ends_with, ends_with_str, find, find_str, index_of_char,
    index_of_char_from, is_alpha, is_ascii_alpha, lemma_find_from_sound, lemma_index_of_char_bounds,
    lines, lines_of, lower, owned, slice_string, to_chars, to_lower, trim, trim_chars, vec_views,
    ws_end_from, ws_start_from, is_ws, trim_start, trim_end, lower_char, split, split_char,
    parse_u32, parse_u32_chars, starts_with, starts_with_str, join, join_strings, push_str, dec,
    push_u64, string_views,
};

verus! {

/// Binary CPU/arch variant of the official Doris packages.
#[derive(Debug, Clone, Copy, PartialEq, Eq, Structural)]
pub enum BinaryArch {
    X64,
    X64NoAvx2,
    Arm64,
}

pub open spec fn arch_slug(a: BinaryArch) -> Seq<char> {
    match a {
        BinaryArch::X64 => "x64"@,
        BinaryArch::X64NoAvx2 => "x64-noavx2"@,
        BinaryArch::Arm64 => "arm64"@,
    }
}

/// The architecture named by `s` (trimmed, ASCII case ignored).
pub open spec fn arch_named(s: Seq<char>) -> Option<BinaryArch> {
    let t = lower(trim(s));
    if t == "x64"@ || t == "amd64"@ || t == "x86_64"@ {
        Some(BinaryArch::X64)
    } else if t == "x64-noavx2"@ || t == "noavx2"@ {
        Some(BinaryArch::X64NoAvx2)
    } else if t == "arm64"@ || t == "aarch64"@ {
        Some(BinaryArch::Arm64)
    } else {
        None
    }
}

impl BinaryArch {
    pub fn slug(&self) -> (r: &'static str)
        ensures
            r@ == arch_slug(*self),
            arch_named(r@) == Some(*self),
            arch_named(seq![' ', ' '] + upper(r@) + seq![' ', ' ']) == Some(*self),
    {
        proof {
            lemma_arch_slug_roundtrip(*self);
        }
        match self {
            BinaryArch::X64 => "x64",
            BinaryArch::X64NoAvx2 => "x64-noavx2",
            BinaryArch::Arm64 => "arm64",
        }
    }

    pub fn parse(s: &str) -> (r: Option<Self>)
        ensures
            r == arch_named(s@),
    {
        let cs = to_chars(s);
        let t = trim_chars(cs.as_slice());
        let l = to_lower(t.as_slice());
        let ls = l.as_slice();
        if str_is(ls, "x64") || str_is(ls, "amd64") || str_is(ls, "x86_64") {
            Some(BinaryArch::X64)
        } else if str_is(ls, "x64-noavx2") || str_is(ls, "noavx2") {
            Some(BinaryArch::X64NoAvx2)
        } else if str_is(ls, "arm64") || str_is(ls, "aarch64") {
            Some(BinaryArch::Arm64)
        } else {
            None
        }
    }

    /// The package variant for the architecture the program was built for
    /// (`target_arch` is `std::env::consts::ARCH`): ARM for `aarch64` and
    /// `arm64`, x64 for anything else.
    pub fn detect_local(target_arch: &str) -> (r: Self)
        ensures
            r == (if target_arch@ == "aarch64"@ || target_arch@ == "arm64"@ {
                BinaryArch::Arm64
            } else {
                BinaryArch::X64
            }),
    {
        let cs = to_chars(target_arch);
        if str_is(cs.as_slice(), "aarch64") || str_is(cs.as_slice(), "arm64") {
            BinaryArch::Arm64
        } else {
            BinaryArch::X64
        }
    }
}

/// Characters equal to a literal.
pub fn str_is(s: &[char], lit: &str) -> (r: bool)
    ensures
        r == (s@ == lit@),
{
    let l = to_chars(lit);
    chars_eq(s, l.as_slice())
}

/// `BinaryArch::parse` gives every architecture back from its own slug, and
/// from any text that trims and lower-cases to it, such as the slug in upper
/// case with spaces around it.
pub proof fn lemma_arch_slug_roundtrip(a: BinaryArch)
    ensures
        arch_named(arch_slug(a)) == Some(a),
        forall|t: Seq<char>| lower(trim(t)) == arch_slug(a) ==> #[trigger] arch_named(t) == Some(a),
        arch_named(seq![' ', ' '] + upper(arch_slug(a)) + seq![' ', ' ']) == Some(a),
{
    let s = arch_slug(a);
    reveal_strlit("x64");
    reveal_strlit("x64-noavx2");
    reveal_strlit("arm64");
    reveal_strlit("amd64");
    reveal_strlit("x86_64");
    reveal_strlit("noavx2");
    reveal_strlit("aarch64");
    assert(!is_ws(s[0]));
    assert(!is_ws(s[s.len() - 1]));
    assert(ws_start_from(s, 0) == 0);
    assert(trim_start(s) =~= s);
    assert(ws_end_from(s, s.len() as int) == s.len());
    assert(trim_end(s) =~= s);
    assert(trim(s) == s);
    assert forall|i: int| 0 <= i < s.len() implies lower_char(s[i]) == s[i] by {
        assert(!(65 <= (s[i] as u32) <= 90));
    }
    assert(lower(s) =~= s);
    match a {
        BinaryArch::X64 => {
            assert(lower(trim(s)) == "x64"@);
        },
        BinaryArch::X64NoAvx2 => {
            assert(lower(trim(s)) == "x64-noavx2"@);
            assert("x64-noavx2"@ != "x64"@);
            assert("x64-noavx2"@ != "amd64"@);
            assert("x64-noavx2"@ != "x86_64"@);
        },
        BinaryArch::Arm64 => {
            assert(lower(trim(s)) == "arm64"@);
            assert("arm64"@ != "x64"@);
            assert("arm64"@[1] != "amd64"@[1]);
            assert("arm64"@ != "x86_64"@);
            assert("arm64"@ != "x64-noavx2"@);
            assert("arm64"@ != "noavx2"@);
        },
    }
    // the slug in upper case, with two spaces on each side
    let u = upper(s);
    let t = seq![' ', ' '] + u + seq![' ', ' '];
    assert(t.len() == u.len() + 4);
    assert(t[0] == ' ' && t[1] == ' ' && t[2] == u[0]);
    assert(u[0] == upper_char(s[0]));
    assert(!is_ws(u[0]));
    assert(ws_start_from(t, 2) == 2);
    assert(ws_start_from(t, 1) == 2);
    assert(ws_start_from(t, 0) == 2);
    let ts = trim_start(t);
    assert(ts =~= u + seq![' ', ' ']);
    let m = ts.len() as int;
    assert(ts[m - 1] == ' ' && ts[m - 2] == ' ' && ts[m - 3] == u[u.len() - 1]);
    assert(u[u.len() - 1] == upper_char(s[s.len() - 1]));
    assert(!is_ws(u[u.len() - 1]));
    assert(ws_end_from(ts, m - 2) == m - 2);
    assert(ws_end_from(ts, m - 1) == m - 2);
    assert(ws_end_from(ts, m) == m - 2);
    assert(trim(t) =~= u);
    assert forall|i: int| 0 <= i < s.len() implies lower_char(upper_char(s[i])) == s[i] by {
        assert(!(65 <= (s[i] as u32) <= 90));
    }
    assert(lower(trim(t)) =~= s);
}

/// Release channel hint aligned with doris.apache.org/download.
#[derive(Debug, Clone, Copy, PartialEq, Eq, Structural)]
pub enum VersionChannel {
    Latest,
    Stable,
}

/// One official release with its binary download links by architecture slug.
#[derive(Debug)]
pub struct DorisRelease {
    pub tag: String,
    pub version: String,
    pub published_at: String,
    pub binaries: StrMap<String>,
}

/// A release as listed by the GitHub releases API.
#[derive(Debug)]
pub struct GhRelease {
    pub tag_name: String,
    pub published_at: String,
    pub prerelease: bool,
    pub draft: bool,
    pub body: Option<String>,
}

// ---------------------------------------------------------------------------
// Tag normalisation
// ---------------------------------------------------------------------------

pub open spec fn alpha_or_underscore(s: Seq<char>) -> bool {
    forall|i: int| 0 <= i < s.len() ==> is_alpha(#[trigger] s[i]) || s[i] == '_'
}

/// `normalize_version`: leading `v`s removed, then a `-suffix` dropped when the
/// suffix after the first `-` is only ASCII letters and underscores.
pub open spec fn normalized(tag: Seq<char>) -> Seq<char> {
    let v = tag.subrange(skip_char_from(tag, 'v', 0), tag.len() as int);
    let idx = index_of_char_from(v, '-', 0);
    if idx < v.len() && alpha_or_underscore(v.subrange(idx + 1, v.len() as int)) {
        v.subrange(0, idx)
    } else {
        v
    }
}

/// Normalize tag names like `4.0.4-release` to `4.0.4` and `v4.1.1` to `4.1.1`.
pub fn normalize_version(tag: &str) -> (r: String)
    ensures
        r@ == normalized(tag@),
        normalized(r@) == r@,
        starts_with(without_leading_v(tag@), r@),
        !(r@.len() > 0 && r@[0] == 'v'),
{
    proof {
        lemma_normalized_idempotent(tag@);
    }
    let t = to_chars(tag);
    let n = t.len();
    let mut s: usize = 0;
    while s < n && t[s] == 'v'
        invariant
            n == t@.len(),
            s <= n,
            skip_char_from(t@, 'v', 0) == skip_char_from(t@, 'v', s as int),
        decreases n - s,
    {
        s = s + 1;
    }
    let ghost v = t@.subrange(s as int, n as int);
    let idx = index_of_char(t.as_slice(), '-', s);
    proof {
        lemma_index_of_char_bounds(t@, '-', s as int);
        lemma_index_of_char_shift(t@, '-', s as int);
    }
    if idx < n {
        let mut k = idx + 1;
        let mut ok = true;
        while k < n
            invariant
                idx < n,
                n == t@.len(),
                idx + 1 <= k <= n,
                ok == (forall|m: int| idx + 1 <= m < k ==> is_alpha(t@[m]) || t@[m] == '_'),
            decreases n - k,
        {
            if !(is_ascii_alpha(t[k]) || t[k] == '_') {
                ok = false;
            }
            k = k + 1;
        }
        assert(v.subrange(idx - s + 1, v.len() as int) =~= t@.subrange(idx + 1, n as int));
        assert(ok == alpha_or_underscore(t@.subrange(idx + 1, n as int))) by {
            if ok {
                assert forall|m: int| 0 <= m < n - idx - 1 implies is_alpha(
                    #[trigger] t@.subrange(idx + 1, n as int)[m],
                ) || t@.subrange(idx + 1, n as int)[m] == '_' by {
                    assert(t@.subrange(idx + 1, n as int)[m] == t@[idx + 1 + m]);
                }
            } else {
                let m = choose|m: int|
                    idx + 1 <= m < n && !(is_alpha(t@[m]) || t@[m] == '_');
                assert(t@.subrange(idx + 1, n as int)[m - idx - 1] == t@[m]);
            }
        }
        if ok {
            assert(v.subrange(0, idx - s) =~= t@.subrange(s as int, idx as int));
            return slice_string(t.as_slice(), s, idx);
        }
    }
    slice_string(t.as_slice(), s, n)
}

/// Searching a suffix for a character finds it at the shifted index.
pub proof fn lemma_index_of_char_shift(s: Seq<char>, c: char, start: int)
    requires
        0 <= start <= s.len(),
    ensures
        index_of_char_from(s.subrange(start, s.len() as int), c, 0) == index_of_char_from(
            s,
            c,
            start,
        ) - start,
{
    lemma_index_of_char_shift_from(s, c, start, start);
}

proof fn lemma_index_of_char_shift_from(s: Seq<char>, c: char, start: int, i: int)
    requires
        0 <= start <= i <= s.len(),
    ensures
        index_of_char_from(s.subrange(start, s.len() as int), c, i - start) == index_of_char_from(
            s,
            c,
            i,
        ) - start,
    decreases s.len() - i,
{
    let t = s.subrange(start, s.len() as int);
    if i < s.len() {
        assert(t[i - start] == s[i]);
        if s[i] != c {
            lemma_index_of_char_shift_from(s, c, start, i + 1);
        }
    }
}

/// The tag without its leading `v`s (`trim_start_matches('v')`).
pub open spec fn without_leading_v(tag: Seq<char>) -> Seq<char> {
    tag.subrange(skip_char_from(tag, 'v', 0), tag.len() as int)
}

/// Laws of `normalize_version`: normalising twice changes nothing more than
/// normalising once; the normalised version is a prefix of the tag without
/// its leading `v`s, and does not itself start with `v`.
pub proof fn lemma_normalized_idempotent(tag: Seq<char>)
    ensures
        normalized(normalized(tag)) == normalized(tag),
        starts_with(without_leading_v(tag), normalized(tag)),
        !(normalized(tag).len() > 0 && normalized(tag)[0] == 'v'),
{
    let v = tag.subrange(skip_char_from(tag, 'v', 0), tag.len() as int);
    lemma_skip_char_bounds(tag, 'v', 0);
    let idx = index_of_char_from(v, '-', 0);
    lemma_index_of_char_bounds(v, '-', 0);
    let n = normalized(tag);
    // `n` does not start with `v`
    if v.len() > 0 {
        assert(v[0] == tag[skip_char_from(tag, 'v', 0)]);
    }
    assert(skip_char_from(n, 'v', 0) == 0) by {
        if n.len() > 0 {
            assert(n[0] == v[0]);
        }
    }
    assert(n.subrange(0, n.len() as int) =~= n);
    if idx < v.len() && alpha_or_underscore(v.subrange(idx + 1, v.len() as int)) {
        // the first `-` was cut off together with everything after it
        lemma_index_of_char_bounds(n, '-', 0);
        assert forall|j: int| 0 <= j < n.len() implies n[j] != '-' by {
            assert(n[j] == v[j]);
        }
        if index_of_char_from(n, '-', 0) < n.len() {
            assert(n[index_of_char_from(n, '-', 0)] == '-');
        }
        assert(v.subrange(0, n.len() as int) =~= n);
    } else {
        assert(n == v);
        assert(v.subrange(0, n.len() as int) =~= n);
    }
}

// ---------------------------------------------------------------------------
// Release-note parsing
// ---------------------------------------------------------------------------

/// The target of the first markdown link `](http...)` on a line.
pub open spec fn markdown_url(line: Seq<char>) -> Option<Seq<char>> {
    match find(line, "](http"@) {
        Some(st) => {
            let rest = line.subrange(st + 2, line.len() as int);
            match find(rest, ")"@) {
                Some(e) => Some(rest.subrange(0, e)),
                None => None,
            }
        },
        None => None,
    }
}

/// The architecture slug a download line refers to.
pub open spec fn arch_of_line(line_lower: Seq<char>, url: Seq<char>) -> Option<Seq<char>> {
    if contains(line_lower, "arm64"@) || contains(url, "-arm64"@) {
        Some("arm64"@)
    } else if contains(line_lower, "noavx2"@) || contains(url, "-noavx2"@) {
        Some("x64-noavx2"@)
    } else if contains(line_lower, "x64"@) || contains(url, "-x64"@) {
        Some("x64"@)
    } else {
        None
    }
}

/// The (architecture, url) pair a release-note line contributes, if any.
pub open spec fn body_entry(line: Seq<char>) -> Option<(Seq<char>, Seq<char>)> {
    match markdown_url(line) {
        Some(url) => if contains(url, "-bin-"@) && ends_with(url, ".tar.gz"@) {
            match arch_of_line(lower(line), url) {
                Some(a) => Some((a, url)),
                None => None,
            }
        } else {
            None
        },
        None => None,
    }
}

/// Binary links found in the given lines; a later line for the same
/// architecture replaces an earlier one.
pub open spec fn binaries_of(ls: Seq<Seq<char>>) -> Map<Seq<char>, Seq<char>>
    decreases ls.len(),
{
    if ls.len() == 0 {
        Map::empty()
    } else {
        let m = binaries_of(ls.drop_last());
        match body_entry(ls.last()) {
            Some(e) => m.insert(e.0, e.1),
            None => m,
        }
    }
}

/// Binary download links parsed from a release body.
#[derive(Debug)]
pub struct ParsedBody {
    pub binaries: StrMap<String>,
}

pub fn extract_markdown_url(line: &[char]) -> (r: Option<String>)
    ensures
        r is Some == markdown_url(line@) is Some,
        r matches Some(u) ==> markdown_url(line@) == Some(u@),
{
    match find_str(line, "](http") {
        Some(st) => {
            proof {
                lemma_find_from_sound(line@, "](http"@, 0);
                reveal_strlit("](http");
                assert("](http"@.len() == 6);
                assert(line@.len() == line.len());
            }
            let rest = copy_tail(line, st + 2);
            match find_str(rest.as_slice(), ")") {
                Some(e) => {
                    proof {
                        lemma_find_from_sound(rest@, ")"@, 0);
                        reveal_strlit(")");
                    }
                    Some(slice_string(rest.as_slice(), 0, e))
                },
                None => None,
            }
        },
        None => None,
    }
}

fn copy_tail(s: &[char], from: usize) -> (r: Vec<char>)
    requires
        from <= s@.len(),
    ensures
        r@ == s@.subrange(from as int, s@.len() as int),
{
    let mut r: Vec<char> = Vec::new();
    let mut i = from;
    while i < s.len()
        invariant
            from <= i <= s@.len(),
            r@ == s@.subrange(from as int, i as int),
        decreases s@.len() - i,
    {
        r.push(s[i]);
        i = i + 1;
        assert(r@ =~= s@.subrange(from as int, i as int));
    }
    r
}

pub fn arch_from_line(line_lower: &[char], url: &[char]) -> (r: Option<String>)
    ensures
        r is Some == arch_of_line(line_lower@, url@) is Some,
        r matches Some(a) ==> arch_of_line(line_lower@, url@) == Some(a@),
{
    if contains_str(line_lower, "arm64") || contains_str(url, "-arm64") {
        Some(owned("arm64"))
    } else if contains_str(line_lower, "noavx2") || contains_str(url, "-noavx2") {
        Some(owned("x64-noavx2"))
    } else if contains_str(line_lower, "x64") || contains_str(url, "-x64") {
        Some(owned("x64"))
    } else {
        None
    }
}

/// Parse the binary download links out of a GitHub release body.
pub fn parse_release_body(body: &str) -> (r: ParsedBody)
    ensures
        r.binaries@ == binaries_of(lines(body@)),
{
    let bc = to_chars(body);
    let ls = lines_of(bc.as_slice());
    let ghost lv = vec_views(ls@);
    let mut binaries: StrMap<String> = StrMap::new();
    let mut i: usize = 0;
    while i < ls.len()
        invariant
            i <= ls@.len(),
            lv == vec_views(ls@),
            binaries@ == binaries_of(lv.subrange(0, i as int)),
        decreases ls@.len() - i,
    {
        let line = &ls[i];
        assert(line@ == lv[i as int]);
        let ghost pre = lv.subrange(0, i as int);
        assert(lv.subrange(0, i + 1).drop_last() =~= pre);
        assert(lv.subrange(0, i + 1).last() == line@);
        let lower_line = to_lower(line.as_slice());
        match extract_markdown_url(line.as_slice()) {
            Some(url) => {
                let uc = to_chars(url.as_str());
                if contains_str(uc.as_slice(), "-bin-") && ends_with_str(uc.as_slice(), ".tar.gz") {
                    match arch_from_line(lower_line.as_slice(), uc.as_slice()) {
                        Some(arch) => {
                            binaries.insert(arch, url);
                        },
                        None => {},
                    }
                }
            },
            None => {},
        }
        i = i + 1;
    }
    assert(lv.subrange(0, i as int) =~= lv);
    ParsedBody { binaries }
}

// ---------------------------------------------------------------------------
// Version numbers and channel selection
// ---------------------------------------------------------------------------

/// `(major, minor, patch)` from the first three `.`-separated parts.
pub open spec fn version_parts(v: Seq<char>) -> Option<(u32, u32, u32)> {
    let p = split(v, '.');
    if p.len() >= 3 && parse_u32(p[0]) is Some && parse_u32(p[1]) is Some && parse_u32(p[2]) is Some {
        Some(((parse_u32(p[0])->0) as u32, (parse_u32(p[1])->0) as u32, (parse_u32(p[2])->0) as u32))
    } else {
        None
    }
}

/// Lexicographic order on version triples.
pub open spec fn triple_le(a: (u32, u32, u32), b: (u32, u32, u32)) -> bool {
    a.0 < b.0 || (a.0 == b.0 && (a.1 < b.1 || (a.1 == b.1 && a.2 <= b.2)))
}

/// The ordering key of a release on the stable line; unparsable versions
/// rank as `0.0.0`.
pub open spec fn stable_key(r: DorisRelease) -> (u32, u32, u32) {
    match version_parts(r.version@) {
        Some(t) => t,
        None => (0, 0, 0),
    }
}

pub open spec fn on_stable_line(r: DorisRelease) -> bool {
    starts_with(r.version@, "4.0."@)
}

pub fn parse_version_parts(v: &str) -> (r: Option<(u32, u32, u32)>)
    ensures
        r == version_parts(v@),
{
    let vc = to_chars(v);
    let parts = split_char(vc.as_slice(), '.');
    if parts.len() < 3 {
        return None;
    }
    let ghost p = split(v@, '.');
    assert(parts[0]@ == p[0] && parts[1]@ == p[1] && parts[2]@ == p[2]) by {
        assert(vec_views(parts@)[0] == parts@[0]@);
        assert(vec_views(parts@)[1] == parts@[1]@);
        assert(vec_views(parts@)[2] == parts@[2]@);
    }
    let a = parse_u32_chars(parts[0].as_slice());
    let b = parse_u32_chars(parts[1].as_slice());
    let c = parse_u32_chars(parts[2].as_slice());
    match (a, b, c) {
        (Some(x), Some(y), Some(z)) => Some((x, y, z)),
        _ => None,
    }
}

fn release_key(r: &DorisRelease) -> (k: (u32, u32, u32))
    ensures
        k == stable_key(*r),
{
    match parse_version_parts(r.version.as_str()) {
        Some(t) => t,
        None => (0, 0, 0),
    }
}

fn key_le(a: (u32, u32, u32), b: (u32, u32, u32)) -> (r: bool)
    ensures
        r == triple_le(a, b),
{
    a.0 < b.0 || (a.0 == b.0 && (a.1 < b.1 || (a.1 == b.1 && a.2 <= b.2)))
}

/// The newest release overall: the first one listed.
pub fn pick_latest(releases: &[DorisRelease]) -> (r: Option<&DorisRelease>)
    ensures
        releases@.len() == 0 ==> r is None,
        releases@.len() > 0 ==> r == Some(&releases@[0]),
{
    if releases.len() == 0 {
        None
    } else {
        Some(&releases[0])
    }
}

/// The highest release of the `4.0.*` line (the official "stable" line), the
/// last one listed among equally high versions; none when no release is on
/// that line.
pub fn pick_stable(releases: &[DorisRelease]) -> (r: Option<&DorisRelease>)
    ensures
        r is None <==> forall|j: int| 0 <= j < releases@.len() ==> !on_stable_line(releases@[j]),
        r matches Some(x) ==> exists|k: int| is_stable_choice(releases@, k) && *x == releases@[k],
{
    let mut best: Option<usize> = None;
    let mut best_key: (u32, u32, u32) = (0, 0, 0);
    let mut i: usize = 0;
    while i < releases.len()
        invariant
            i <= releases@.len(),
            best is None ==> forall|j: int| 0 <= j < i ==> !on_stable_line(releases@[j]),
            best matches Some(b) ==> b < i && on_stable_line(releases@[b as int]) && best_key
                == stable_key(releases@[b as int]) && (forall|j: int|
                0 <= j < i && on_stable_line(#[trigger] releases@[j]) ==> triple_le(
                    stable_key(releases@[j]),
                    best_key,
                )) && (forall|j: int|
                b < j < i && on_stable_line(#[trigger] releases@[j]) ==> !triple_le(
                    best_key,
                    stable_key(releases@[j]),
                )),
        decreases releases@.len() - i,
    {
        let vc = to_chars(releases[i].version.as_str());
        if starts_with_str(vc.as_slice(), "4.0.") {
            let k = release_key(&releases[i]);
            match best {
                None => {
                    best = Some(i);
                    best_key = k;
                },
                Some(b) => {
                    if key_le(best_key, k) {
                        best = Some(i);
                        best_key = k;
                    }
                },
            }
        }
        i = i + 1;
    }
    match best {
        Some(b) => {
            assert(is_stable_choice(releases@, b as int));
            Some(&releases[b])
        },
        None => None,
    }
}

/// The release whose version, tag, or `v`-prefixed tag equals the normalized
/// `version`; the first such one.
pub open spec fn release_matches(r: DorisRelease, want: Seq<char>) -> bool {
    r.version@ == want || r.tag@ == want || r.tag@ == seq!['v'] + want
}

pub fn find_release<'a>(releases: &'a [DorisRelease], version: &str) -> (r: Option<
    &'a DorisRelease,
>)
    ensures
        r is None ==> forall|j: int|
            0 <= j < releases@.len() ==> !release_matches(releases@[j], normalized(version@)),
        r matches Some(x) ==> exists|k: int|
            0 <= k < releases@.len() && *x == releases@[k] && release_matches(
                releases@[k],
                normalized(version@),
            ) && forall|j: int|
                0 <= j < k ==> !release_matches(releases@[j], normalized(version@)),
{
    let want = normalize_version(version);
    let mut vwant = owned("v");
    crate::text::push_str(&mut vwant, want.as_str());
    let wc = to_chars(want.as_str());
    let vc = to_chars(vwant.as_str());
    assert(vc@ == seq!['v'] + normalized(version@)) by {
        reveal_strlit("v");
    }
    let mut i: usize = 0;
    while i < releases.len()
        invariant
            i <= releases@.len(),
            wc@ == normalized(version@),
            vc@ == seq!['v'] + normalized(version@),
            forall|j: int| 0 <= j < i ==> !release_matches(releases@[j], normalized(version@)),
        decreases releases@.len() - i,
    {
        let r = &releases[i];
        let rv = to_chars(r.version.as_str());
        let rt = to_chars(r.tag.as_str());
        if chars_eq(rv.as_slice(), wc.as_slice()) || chars_eq(rt.as_slice(), wc.as_slice())
            || chars_eq(rt.as_slice(), vc.as_slice()) {
            return Some(r);
        }
        i = i + 1;
    }
    None
}

pub open spec fn missing_binary_message(release: DorisRelease, arch: BinaryArch) -> Seq<char> {
    "no "@ + arch_slug(arch) + " binary for Doris "@ + release.version@ + "; available: "@ + join(
        release.binaries.keys_in_order(),
        ", "@,
    )
}

/// The download URL of `arch` in `release`, or an error naming the
/// architectures that are available.
pub fn resolve_binary_url(release: &DorisRelease, arch: BinaryArch) -> (r: Result<String, String>)
    ensures
        r is Ok == release.binaries@.contains_key(arch_slug(arch)),
        r matches Ok(u) ==> u@ == release.binaries@[arch_slug(arch)],
        r matches Err(m) ==> m@ == missing_binary_message(*release, arch),
{
    match release.binaries.get(arch.slug()) {
        Some(u) => Ok(u.clone()),
        None => {
            let keys = release.binaries.keys();
            let mut m = owned("no ");
            push_str(&mut m, arch.slug());
            push_str(&mut m, " binary for Doris ");
            push_str(&mut m, release.version.as_str());
            push_str(&mut m, "; available: ");
            let joined = join_strings(&keys, ", ");
            push_str(&mut m, joined.as_str());
            assert(m@ =~= missing_binary_message(*release, arch));
            Err(m)
        },
    }
}

// ---------------------------------------------------------------------------
// Local package cache
// ---------------------------------------------------------------------------

pub open spec fn packages_dir_of(home: Seq<char>) -> Seq<char> {
    path_join(path_join(home, ".doris-cli"@), "packages"@)
}

/// `<home>/.doris-cli/packages`.
pub fn packages_dir_in(home: &str) -> (r: String)
    ensures
        r@ == packages_dir_of(home@),
{
    let c = join_path(home, ".doris-cli");
    join_path(c.as_str(), "packages")
}

/// The package cache directory under the home directory, or the error when
/// there is no home directory.
pub fn packages_dir() -> (r: Result<String, String>)
    ensures
        r matches Ok(d) ==> exists|h: Seq<char>| d@ == packages_dir_of(h),
        r matches Err(m) ==> m@ == "could not resolve home directory"@,
{
    match home_dir() {
        Some(h) => Ok(packages_dir_in(h.as_str())),
        None => Err(owned("could not resolve home directory")),
    }
}

pub open spec fn package_file_name(version: Seq<char>, arch: BinaryArch) -> Seq<char> {
    "apache-doris-"@ + version + "-bin-"@ + arch_slug(arch) + ".tar.gz"@
}

/// Cache path of a package: under `~/.doris-cli/packages`, or under `/tmp`
/// when there is no home directory.
pub open spec fn cached_package_path_of(
    home: Option<Seq<char>>,
    version: Seq<char>,
    arch: BinaryArch,
) -> Seq<char> {
    let dir = match home {
        Some(h) => packages_dir_of(h),
        None => "/tmp"@,
    };
    path_join(dir, package_file_name(version, arch))
}

pub fn cached_package_path_in(home: Option<&str>, version: &str, arch: BinaryArch) -> (r: String)
    ensures
        r@ == cached_package_path_of(
            match home {
                Some(h) => Some(h@),
                None => None,
            },
            version@,
            arch,
        ),
{
    let dir = match home {
        Some(h) => packages_dir_in(h),
        None => owned("/tmp"),
    };
    let mut file = owned("apache-doris-");
    push_str(&mut file, version);
    push_str(&mut file, "-bin-");
    push_str(&mut file, arch.slug());
    push_str(&mut file, ".tar.gz");
    join_path(dir.as_str(), file.as_str())
}

/// Default cache path of the package of `version` for `arch`.
pub fn cached_package_path(version: &str, arch: BinaryArch) -> (r: String)
    ensures
        exists|h: Option<Seq<char>>| r@ == cached_package_path_of(h, version@, arch),
{
    let home = home_dir();
    match home {
        Some(h) => cached_package_path_in(Some(h.as_str()), version, arch),
        None => cached_package_path_in(None, version, arch),
    }
}

/// Where a downloaded package goes: the package file inside the `--output`
/// directory when one is given, else the default cache path.
pub fn download_path(output: Option<&str>, version: &str, arch: BinaryArch) -> (r: String)
    ensures
        output matches Some(d) ==> r@ == path_join(d@, package_file_name(version@, arch)),
        output is None ==> exists|h: Option<Seq<char>>| r@ == cached_package_path_of(h, version@, arch),
{
    match output {
        Some(d) => {
            let mut file = owned("apache-doris-");
            push_str(&mut file, version);
            push_str(&mut file, "-bin-");
            push_str(&mut file, arch.slug());
            push_str(&mut file, ".tar.gz");
            join_path(d, file.as_str())
        },
        None => cached_package_path(version, arch),
    }
}

pub open spec fn incomplete_message(
    path: Seq<char>,
    detail: Seq<char>,
    version: Option<Seq<char>>,
    arch: Option<BinaryArch>,
) -> Seq<char> {
    let head = "安装包不完整或已损坏: "@ + path + "\n  原因: "@ + detail + "\n  请删除后重新下载:"@;
    match (version, arch) {
        (Some(v), Some(a)) => head + "\n    dcli deploy download --release "@ + v + " --arch "@
            + arch_slug(a),
        _ => head + "\n    dcli deploy download --release <version> --arch x64"@,
    }
}

/// Actionable message for a corrupt or truncated package.
pub fn package_incomplete_message(
    path: &str,
    detail: &str,
    version: Option<&str>,
    arch: Option<BinaryArch>,
) -> (r: String)
    ensures
        r@ == incomplete_message(
            path@,
            detail@,
            match version {
                Some(v) => Some(v@),
                None => None,
            },
            arch,
        ),
{
    let mut m = owned("安装包不完整或已损坏: ");
    push_str(&mut m, path);
    push_str(&mut m, "\n  原因: ");
    push_str(&mut m, detail);
    push_str(&mut m, "\n  请删除后重新下载:");
    match (version, arch) {
        (Some(v), Some(a)) => {
            push_str(&mut m, "\n    dcli deploy download --release ");
            push_str(&mut m, v);
            push_str(&mut m, " --arch ");
            push_str(&mut m, a.slug());
        },
        _ => {
            push_str(&mut m, "\n    dcli deploy download --release <version> --arch x64");
        },
    }
    m
}

pub open spec fn size_check_result(path: Seq<char>, size: u64, expected: Option<u64>) -> Result<
    (),
    Seq<char>,
> {
    if size == 0 {
        Err("package file is empty: "@ + path)
    } else {
        match expected {
            Some(e) => if size != e {
                Err("package size mismatch: got "@ + dec(size as nat) + " bytes, expected "@ + dec(
                    e as nat,
                ) + " bytes"@)
            } else {
                Ok(())
            },
            None => Ok(()),
        }
    }
}

/// The size checks of a local package: it must be non-empty and, when a size
/// sidecar recorded the expected size, exactly that large.
pub fn package_size_check(path: &str, size: u64, expected: Option<u64>) -> (r: Result<(), String>)
    ensures
        r is Ok == size_check_result(path@, size, expected) is Ok,
        r matches Err(m) ==> size_check_result(path@, size, expected) == Err::<(), Seq<char>>(m@),
{
    if size == 0 {
        let mut m = owned("package file is empty: ");
        push_str(&mut m, path);
        return Err(m);
    }
    match expected {
        Some(e) => {
            if size != e {
                let mut m = owned("package size mismatch: got ");
                push_u64(&mut m, size);
                push_str(&mut m, " bytes, expected ");
                push_u64(&mut m, e);
                push_str(&mut m, " bytes");
                Err(m)
            } else {
                Ok(())
            }
        },
        None => Ok(()),
    }
}

/// Verify a local package before install: the outcome of the file checks is
/// passed through, a failure turned into the actionable incomplete-package
/// message.
pub fn ensure_local_package(path: &str, checked: Result<(), String>) -> (r: Result<(), String>)
    ensures
        r is Ok == checked is Ok,
        checked matches Err(d) ==> r matches Err(m) && m@ == incomplete_message(
            path@,
            d@,
            None,
            None,
        ),
{
    match checked {
        Ok(()) => Ok(()),
        Err(d) => Err(package_incomplete_message(path, d.as_str(), None, None)),
    }
}

/// The size sidecar of a package file: its path with `.size` appended.
pub fn size_sidecar_path(package: &str) -> (r: String)
    ensures
        r@ == package@ + ".size"@,
{
    let mut s = owned(package);
    push_str(&mut s, ".size");
    s
}

/// The expected size recorded in a sidecar: its trimmed text read as `u64`.
pub fn parse_size_sidecar(raw: &str) -> (r: Option<u64>)
    ensures
        r matches Some(n) ==> parse_u64(crate::text::trim(raw@)) == Some(n as int),
        r is None ==> parse_u64(crate::text::trim(raw@)) is None,
{
    let rc = to_chars(raw);
    let t = crate::text::trim_chars(rc.as_slice());
    crate::text::parse_u64_chars(t.as_slice())
}

/// What to do with a package already at the download path.
#[derive(Debug, Clone, Copy, PartialEq, Eq, Structural)]
pub enum CacheAction {
    /// Nothing is there: download.
    Fresh,
    /// A verified package of the right size is there: use it.
    Reuse,
    /// A verified package whose recorded size differs from the remote size:
    /// remove it and download again.
    ReplaceMismatch { local: u64, remote: u64 },
    /// A package that fails verification: remove it and download again.
    ReplaceCorrupt,
}

/// Decide about a cached package from whether it exists, whether it
/// verified, the remote size (HEAD `Content-Length`) and the size sidecar.
pub fn cache_action(exists: bool, verified: bool, remote: Option<u64>, sidecar: Option<u64>) -> (r: CacheAction)
    ensures
        !exists ==> r == CacheAction::Fresh,
        exists && !verified ==> r == CacheAction::ReplaceCorrupt,
        exists && verified ==> (match (remote, sidecar) {
            (Some(e), Some(l)) => if e != l {
                r == CacheAction::ReplaceMismatch { local: l, remote: e }
            } else {
                r == CacheAction::Reuse
            },
            _ => r == CacheAction::Reuse,
        }),
{
    if !exists {
        return CacheAction::Fresh;
    }
    if !verified {
        return CacheAction::ReplaceCorrupt;
    }
    match (remote, sidecar) {
        (Some(e), Some(l)) => if e != l {
            CacheAction::ReplaceMismatch { local: l, remote: e }
        } else {
            CacheAction::Reuse
        },
        _ => CacheAction::Reuse,
    }
}

/// Check a finished download against the expected total: a short or long
/// file is incomplete; otherwise the size to record in the sidecar, if known.
pub fn download_complete(downloaded: u64, total: Option<u64>) -> (r: Result<Option<u64>, String>)
    ensures
        total is None ==> r == Ok::<Option<u64>, String>(None),
        total matches Some(e) ==> (downloaded == e ==> r == Ok::<Option<u64>, String>(Some(e))),
        total matches Some(e) ==> (downloaded != e ==> (r matches Err(m) && m@
            == "download incomplete: got "@ + dec(downloaded as nat) + " bytes, expected "@ + dec(
            e as nat,
        ))),
{
    match total {
        None => Ok(None),
        Some(e) => {
            if downloaded != e {
                let mut m = owned("download incomplete: got ");
                push_u64(&mut m, downloaded);
                push_str(&mut m, " bytes, expected ");
                push_u64(&mut m, e);
                Err(m)
            } else {
                Ok(Some(e))
            }
        },
    }
}

// ---------------------------------------------------------------------------
// Release listing
// ---------------------------------------------------------------------------

pub const GH_API: &'static str = "https://api.github.com/repos/apache/doris/releases";

pub open spec fn releases_url_of(limit: usize) -> Seq<char> {
    GH_API@ + "?per_page="@ + dec(if limit < 100 { limit as nat } else { 100 })
}

/// URL of the GitHub releases listing, at most 100 per page.
pub fn releases_url(limit: usize) -> (r: String)
    ensures
        r@ == releases_url_of(limit),
{
    let mut r = owned(GH_API);
    push_str(&mut r, "?per_page=");
    let n: u64 = if limit < 100 { limit as u64 } else { 100 };
    push_u64(&mut r, n);
    r
}

/// Drafts and pre-releases are not offered.
pub open spec fn published(g: GhRelease) -> bool {
    !g.draft && !g.prerelease
}

/// The published releases, in listing order.
pub open spec fn published_releases(s: Seq<GhRelease>) -> Seq<GhRelease>
    decreases s.len(),
{
    if s.len() == 0 {
        Seq::empty()
    } else if published(s.last()) {
        published_releases(s.drop_last()).push(s.last())
    } else {
        published_releases(s.drop_last())
    }
}

pub open spec fn body_text(g: GhRelease) -> Seq<char> {
    match g.body {
        Some(b) => b@,
        None => Seq::empty(),
    }
}

/// `r` is the catalogue entry of the listed release `g`.
pub open spec fn release_of(r: DorisRelease, g: GhRelease) -> bool {
    &&& r.tag@ == g.tag_name@
    &&& r.version@ == normalized(g.tag_name@)
    &&& r.published_at@ == g.published_at@
    &&& r.binaries@ == binaries_of(lines(body_text(g)))
}

/// The release catalogue of a GitHub listing: drafts and pre-releases
/// skipped, tags normalized, binary links parsed from the release notes.
pub fn releases_from_listing(raw: &Vec<GhRelease>) -> (r: Vec<DorisRelease>)
    ensures
        r@.len() == published_releases(raw@).len(),
        forall|i: int| 0 <= i < r@.len() ==> release_of(#[trigger] r@[i], published_releases(raw@)[i]),
{
    let mut out: Vec<DorisRelease> = Vec::new();
    let mut i: usize = 0;
    while i < raw.len()
        invariant
            i <= raw@.len(),
            out@.len() == published_releases(raw@.subrange(0, i as int)).len(),
            forall|k: int|
                0 <= k < out@.len() ==> release_of(
                    #[trigger] out@[k],
                    published_releases(raw@.subrange(0, i as int))[k],
                ),
        decreases raw@.len() - i,
    {
        let g = &raw[i];
        let ghost pre = raw@.subrange(0, i as int);
        let ghost cur = raw@.subrange(0, i + 1);
        assert(cur.drop_last() =~= pre);
        assert(cur.last() == *g);
        if !g.draft && !g.prerelease {
            let version = normalize_version(g.tag_name.as_str());
            let parsed = match &g.body {
                Some(b) => parse_release_body(b.as_str()),
                None => {
                    let p = parse_release_body("");
                    proof {
                        reveal_strlit("");
                        assert(""@ =~= Seq::<char>::empty());
                    }
                    p
                },
            };
            let ghost before = out@;
            out.push(
                DorisRelease {
                    tag: g.tag_name.clone(),
                    version,
                    published_at: g.published_at.clone(),
                    binaries: parsed.binaries,
                },
            );
            assert forall|k: int| 0 <= k < out@.len() implies release_of(
                #[trigger] out@[k],
                published_releases(cur)[k],
            ) by {
                if k < before.len() {
                    assert(out@[k] == before[k]);
                }
            }
        }
        i = i + 1;
    }
    assert(raw@.subrange(0, raw@.len() as int) =~= raw@);
    out
}

/// One row of the versions table.
pub open spec fn version_row(
    r: DorisRelease,
    latest: Option<Seq<char>>,
    stable: Option<Seq<char>>,
) -> Seq<Seq<char>> {
    let published = r.published_at@.subrange(
        0,
        if r.published_at@.len() < 10 {
            r.published_at@.len() as int
        } else {
            10
        },
    );
    let is_latest = latest == Some(r.version@);
    let is_stable = stable == Some(r.version@);
    let channel = if is_latest && is_stable {
        "latest, stable"@
    } else if is_latest {
        "latest"@
    } else if is_stable {
        "stable"@
    } else {
        Seq::empty()
    };
    seq![r.version@, r.tag@, published, join(r.binaries.keys_in_order(), ", "@), channel]
}

/// The rows of the versions table (Version, Tag, Published, Binaries,
/// Channel) for the first `limit` releases; a release is marked `latest` or
/// `stable` when its version is that of the chosen latest or stable release.
pub fn versions_table_rows(releases: &[DorisRelease], limit: usize) -> (rows: Vec<Vec<String>>)
    ensures
        rows@.len() == if releases@.len() < limit {
            releases@.len()
        } else {
            limit as nat
        },
        forall|i: int|
            0 <= i < rows@.len() ==> string_views((#[trigger] rows@[i])@) == version_row(
                releases@[i],
                if releases@.len() > 0 {
                    Some(releases@[0].version@)
                } else {
                    None
                },
                match pick_stable_spec(releases@) {
                    Some(k) => Some(releases@[k].version@),
                    None => None,
                },
            ),
{
    let latest: Option<String> = match pick_latest(releases) {
        Some(r) => Some(r.version.clone()),
        None => None,
    };
    let stable_ref = pick_stable(releases);
    proof {
        lemma_pick_stable_unique(releases@);
    }
    let stable: Option<String> = match stable_ref {
        Some(r) => Some(r.version.clone()),
        None => None,
    };
    proof {
        match stable_ref {
            Some(x) => {
                let k = choose|k: int| is_stable_choice(releases@, k) && *x == releases@[k];
                assert(is_stable_choice(releases@, k));
            },
            None => {
                assert(!exists|k: int| is_stable_choice(releases@, k));
            },
        }
    }
    let ghost lv: Option<Seq<char>> = opt_view(latest);
    let ghost sv: Option<Seq<char>> = opt_view(stable);
    assert(sv == match pick_stable_spec(releases@) {
        Some(k) => Some(releases@[k].version@),
        None => None::<Seq<char>>,
    });
    let n = if releases.len() < limit {
        releases.len()
    } else {
        limit
    };
    let mut rows: Vec<Vec<String>> = Vec::new();
    let mut i: usize = 0;
    while i < n
        invariant
            n <= releases@.len(),
            i <= n,
            rows@.len() == i,
            forall|k: int|
                0 <= k < i ==> string_views((#[trigger] rows@[k])@) == version_row(
                    releases@[k],
                    lv,
                    sv,
                ),
            lv == opt_view(latest),
            sv == opt_view(stable),
        decreases n - i,
    {
        let r = &releases[i];
        let pc = to_chars(r.published_at.as_str());
        let cut = if pc.len() < 10 {
            pc.len()
        } else {
            10
        };
        let published = slice_string(pc.as_slice(), 0, cut);
        let keys = r.binaries.keys();
        let bins = join_strings(&keys, ", ");
        let is_latest = match &latest {
            Some(l) => {
                let lc = to_chars(l.as_str());
                let vc = to_chars(r.version.as_str());
                chars_eq(lc.as_slice(), vc.as_slice())
            },
            None => false,
        };
        let is_stable = match &stable {
            Some(x) => {
                let xc = to_chars(x.as_str());
                let vc = to_chars(r.version.as_str());
                chars_eq(xc.as_slice(), vc.as_slice())
            },
            None => false,
        };
        let channel = if is_latest && is_stable {
            owned("latest, stable")
        } else if is_latest {
            owned("latest")
        } else if is_stable {
            owned("stable")
        } else {
            String::new()
        };
        let mut row: Vec<String> = Vec::new();
        row.push(r.version.clone());
        row.push(r.tag.clone());
        row.push(published);
        row.push(bins);
        row.push(channel);
        let ghost before = rows@;
        assert(string_views(row@) =~= version_row(*r, lv, sv));
        rows.push(row);
        assert forall|k: int| 0 <= k < i + 1 implies string_views((#[trigger] rows@[k])@)
            == version_row(releases@[k], lv, sv) by {
            if k < i {
                assert(rows@[k] == before[k]);
            }
        }
        i = i + 1;
    }
    rows
}

/// The index `pick_stable` chooses.
pub open spec fn pick_stable_spec(rs: Seq<DorisRelease>) -> Option<int> {
    if exists|k: int| is_stable_choice(rs, k) {
        Some(choose|k: int| is_stable_choice(rs, k))
    } else {
        None
    }
}

pub open spec fn is_stable_choice(rs: Seq<DorisRelease>, k: int) -> bool {
    &&& 0 <= k < rs.len()
    &&& on_stable_line(rs[k])
    &&& forall|j: int|
        0 <= j < rs.len() && on_stable_line(#[trigger] rs[j]) ==> triple_le(
            stable_key(rs[j]),
            stable_key(rs[k]),
        )
    &&& forall|j: int|
        k < j < rs.len() && on_stable_line(#[trigger] rs[j]) ==> !triple_le(
            stable_key(rs[k]),
            stable_key(rs[j]),
        )
}

/// At most one index satisfies the stable choice.
pub proof fn lemma_pick_stable_unique(rs: Seq<DorisRelease>)
    ensures
        forall|a: int, b: int| is_stable_choice(rs, a) && is_stable_choice(rs, b) ==> a == b,
{
    assert forall|a: int, b: int| is_stable_choice(rs, a) && is_stable_choice(rs, b) implies a
        == b by {
        if a < b {
            assert(triple_le(stable_key(rs[a]), stable_key(rs[b])));
        } else if b < a {
            assert(triple_le(stable_key(rs[b]), stable_key(rs[a])));
        }
    }
}

} // verus!
