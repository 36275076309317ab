//! Character-level text operations with exact specifications.
//!
//! Strings are viewed as `Seq<char>`. The spec functions here state what the
//! corresponding `str` operations of Rust compute (trimming, ASCII case
//! folding, searching, splitting, decimal formatting and parsing); the exec
//! functions compute them on `&[char]` and are proved against those specs.
use vstd::prelude::*;

verus! {

// ---------------------------------------------------------------------------
// Conversions between `str`/`String` and `Vec<char>`
// ---------------------------------------------------------------------------

/// Append one character to a `String` (`String::push`): the view grows by
/// exactly that character.
#[verifier::external_body]
pub(crate) fn push_char(s: &mut String, c: char)
    ensures
        final(s)@ == old(s)@.push(c),
{
    s.push(c);
}

/// The characters of a string slice, in order.
pub fn to_chars(s: &str) -> (v: Vec<char>)
    ensures
        v@ == s@,
{
    let n = s.unicode_len();
    let mut v: Vec<char> = Vec::new();
    let mut i: usize = 0;
    while i < n
        invariant
            n == s@.len(),
            i <= n,
            v@ == s@.subrange(0, i as int),
        decreases n - i,
    {
        let c = s.get_char(i);
        v.push(c);
        i = i + 1;
        assert(v@ =~= s@.subrange(0, i as int));
    }
    assert(v@ =~= s@);
    v
}

/// A `String` holding exactly the given characters.
pub fn from_chars(v: &[char]) -> (s: String)
    ensures
        s@ == v@,
{
    let mut s = String::new();
    let mut i: usize = 0;
    while i < v.len()
        invariant
            i <= v@.len(),
            s@ == v@.subrange(0, i as int),
        decreases v@.len() - i,
    {
        push_char(&mut s, v[i]);
        i = i + 1;
        assert(s@ =~= v@.subrange(0, i as int));
    }
    assert(s@ =~= v@);
    s
}

/// A `String` holding the characters `v[from..to]`.
pub fn slice_string(v: &[char], from: usize, to: usize) -> (s: String)
    requires
        from <= to <= v@.len(),
    ensures
        s@ == v@.subrange(from as int, to as int),
{
    let mut s = String::new();
    let mut i: usize = from;
    while i < to
        invariant
            from <= i <= to,
            to <= v@.len(),
            s@ == v@.subrange(from as int, i as int),
        decreases to - i,
    {
        push_char(&mut s, v[i]);
        i = i + 1;
        assert(s@ =~= v@.subrange(from as int, i as int));
    }
    s
}

/// Append all characters of `v` to `s`.
pub fn push_chars(s: &mut String, v: &[char])
    ensures
        final(s)@ == old(s)@ + v@,
{
    let ghost start = s@;
    let mut i: usize = 0;
    while i < v.len()
        invariant
            i <= v@.len(),
            s@ == start + v@.subrange(0, i as int),
        decreases v@.len() - i,
    {
        push_char(s, v[i]);
        i = i + 1;
        assert(s@ =~= start + v@.subrange(0, i as int));
    }
    assert(v@.subrange(0, v@.len() as int) =~= v@);
}

/// Append a string slice to `s`.
pub fn push_str(s: &mut String, t: &str)
    ensures
        final(s)@ == old(s)@ + t@,
{
    let cs = to_chars(t);
    push_chars(s, cs.as_slice());
}

/// A `String` copy of a string slice.
pub fn owned(t: &str) -> (s: String)
    ensures
        s@ == t@,
{
    let mut s = String::new();
    push_str(&mut s, t);
    assert(s@ =~= t@);
    s
}

/// Exec equality of two character slices.
pub fn chars_eq(a: &[char], b: &[char]) -> (r: bool)
    ensures
        r == (a@ == b@),
{
    if a.len() != b.len() {
        return false;
    }
    let mut i: usize = 0;
    while i < a.len()
        invariant
            a@.len() == b@.len(),
            i <= a@.len(),
            forall|k: int| 0 <= k < i ==> a@[k] == b@[k],
        decreases a@.len() - i,
    {
        if a[i] != b[i] {
            return false;
        }
        i = i + 1;
    }
    assert(a@ =~= b@);
    true
}

/// Exec equality of a `String` with a string slice.
pub fn string_eq_str(a: &String, b: &str) -> (r: bool)
    ensures
        r == (a@ == b@),
{
    let ac = to_chars(a.as_str());
    let bc = to_chars(b);
    chars_eq(ac.as_slice(), bc.as_slice())
}

// ---------------------------------------------------------------------------
// Whitespace and trimming (`char::is_whitespace`, `str::trim`)
// ---------------------------------------------------------------------------

/// Unicode `White_Space` property, as used by `char::is_whitespace`.
pub open spec fn is_ws(c: char) -> bool {
    let u = c as u32;
    u == 0x20 || (0x09 <= u && u <= 0x0d) || u == 0x85 || u == 0xa0 || u == 0x1680 || (0x2000
        <= u && u <= 0x200a) || u == 0x2028 || u == 0x2029 || u == 0x202f || u == 0x205f || u
        == 0x3000
}

pub fn is_whitespace(c: char) -> (r: bool)
    ensures
        r == is_ws(c),
{
    let u = c as u32;
    u == 0x20 || (0x09 <= u && u <= 0x0d) || u == 0x85 || u == 0xa0 || u == 0x1680 || (0x2000
        <= u && u <= 0x200a) || u == 0x2028 || u == 0x2029 || u == 0x202f || u == 0x205f || u
        == 0x3000
}

/// Index of the first non-whitespace character at or after `i` (or the length).
pub open spec fn ws_start_from(s: Seq<char>, i: int) -> int
    decreases s.len() - i,
{
    if i >= s.len() {
        s.len() as int
    } else if !is_ws(s[i]) {
        i
    } else {
        ws_start_from(s, i + 1)
    }
}

/// One past the last non-whitespace character before `j` (or 0).
pub open spec fn ws_end_from(s: Seq<char>, j: int) -> int
    decreases j,
{
    if j <= 0 {
        0
    } else if !is_ws(s[j - 1]) {
        j
    } else {
        ws_end_from(s, j - 1)
    }
}

/// `str::trim_start`.
pub open spec fn trim_start(s: Seq<char>) -> Seq<char> {
    s.subrange(ws_start_from(s, 0), s.len() as int)
}

/// `str::trim_end`.
pub open spec fn trim_end(s: Seq<char>) -> Seq<char> {
    s.subrange(0, ws_end_from(s, s.len() as int))
}

/// `str::trim`.
pub open spec fn trim(s: Seq<char>) -> Seq<char> {
    trim_end(trim_start(s))
}

pub proof fn lemma_ws_start_bounds(s: Seq<char>, i: int)
    requires
        0 <= i <= s.len(),
    ensures
        i <= ws_start_from(s, i) <= s.len(),
    decreases s.len() - i,
{
    if i < s.len() && is_ws(s[i]) {
        lemma_ws_start_bounds(s, i + 1);
    }
}

pub proof fn lemma_ws_end_bounds(s: Seq<char>, j: int)
    requires
        0 <= j <= s.len(),
    ensures
        0 <= ws_end_from(s, j) <= j,
    decreases j,
{
    if j > 0 && is_ws(s[j - 1]) {
        lemma_ws_end_bounds(s, j - 1);
    }
}

/// Text without whitespace is its own trim.
pub proof fn lemma_trim_no_ws(s: Seq<char>)
    requires
        forall|i: int| 0 <= i < s.len() ==> !is_ws(#[trigger] s[i]),
    ensures
        trim(s) == s,
{
    if s.len() > 0 {
        assert(!is_ws(s[0]));
        assert(ws_start_from(s, 0) == 0);
        assert(s.subrange(0, s.len() as int) =~= s);
        assert(!is_ws(s[s.len() - 1]));
        assert(ws_end_from(s, s.len() as int) == s.len());
    } else {
        assert(s.subrange(0, 0) =~= s);
    }
}

/// The bounds `(start, end)` such that `s[start..end]` is `trim(s)`.
pub fn trim_bounds(s: &[char]) -> (r: (usize, usize))
    ensures
        r.0 <= r.1 <= s@.len(),
        s@.subrange(r.0 as int, r.1 as int) == trim(s@),
{
    let n = s.len();
    let mut i: usize = 0;
    while i < n && is_whitespace(s[i])
        invariant
            n == s@.len(),
            i <= n,
            ws_start_from(s@, 0) == ws_start_from(s@, i as int),
        decreases n - i,
    {
        i = i + 1;
    }
    let ghost t = s@.subrange(i as int, n as int);
    assert(trim_start(s@) == t);
    let mut j: usize = n;
    while j > i && is_whitespace(s[j - 1])
        invariant
            n == s@.len(),
            i <= j <= n,
            t == s@.subrange(i as int, n as int),
            ws_end_from(t, t.len() as int) == ws_end_from(t, (j - i) as int),
        decreases j,
    {
        assert(t[(j - i) - 1] == s@[j - 1]);
        j = j - 1;
    }
    if j > i {
        assert(t[(j - i) - 1] == s@[j - 1]);
    }
    assert(ws_end_from(t, (j - i) as int) == (j - i) as int);
    assert(s@.subrange(i as int, j as int) =~= t.subrange(0, (j - i) as int));
    (i, j)
}

/// `s.trim()` as an owned string.
pub fn trim_string(s: &[char]) -> (r: String)
    ensures
        r@ == trim(s@),
{
    let (a, b) = trim_bounds(s);
    slice_string(s, a, b)
}

/// `s.trim()` as characters.
pub fn trim_chars(s: &[char]) -> (r: Vec<char>)
    ensures
        r@ == trim(s@),
{
    let (a, b) = trim_bounds(s);
    let mut r: Vec<char> = Vec::new();
    let mut i = a;
    while i < b
        invariant
            a <= i <= b <= s@.len(),
            r@ == s@.subrange(a as int, i as int),
        decreases b - i,
    {
        r.push(s[i]);
        i = i + 1;
        assert(r@ =~= s@.subrange(a as int, i as int));
    }
    r
}


// ---------------------------------------------------------------------------
// Trimming a given character (`str::trim_matches(char)`)
// ---------------------------------------------------------------------------

/// Index of the first character at or after `i` that is not `c` (or the length).
pub open spec fn skip_char_from(s: Seq<char>, c: char, i: int) -> int
    decreases s.len() - i,
{
    if i >= s.len() {
        s.len() as int
    } else if s[i] != c {
        i
    } else {
        skip_char_from(s, c, i + 1)
    }
}

/// One past the last character before `j` that is not `c` (or 0).
pub open spec fn strip_end_from(s: Seq<char>, c: char, j: int) -> int
    decreases j,
{
    if j <= 0 {
        0
    } else if s[j - 1] != c {
        j
    } else {
        strip_end_from(s, c, j - 1)
    }
}

/// `s.trim_matches(c)`: every leading and trailing `c` removed.
pub open spec fn trim_char(s: Seq<char>, c: char) -> Seq<char> {
    let t = s.subrange(skip_char_from(s, c, 0), s.len() as int);
    t.subrange(0, strip_end_from(t, c, t.len() as int))
}

pub proof fn lemma_skip_char_bounds(s: Seq<char>, c: char, i: int)
    requires
        0 <= i <= s.len(),
    ensures
        i <= skip_char_from(s, c, i) <= s.len(),
        skip_char_from(s, c, i) < s.len() ==> s[skip_char_from(s, c, i)] != c,
    decreases s.len() - i,
{
    if i < s.len() && s[i] == c {
        lemma_skip_char_bounds(s, c, i + 1);
    }
}

pub fn trim_char_string(s: &str, c: char) -> (r: String)
    ensures
        r@ == trim_char(s@, c),
{
    let v = to_chars(s);
    let n = v.len();
    let mut i: usize = 0;
    while i < n && v[i] == c
        invariant
            n == v@.len(),
            i <= n,
            skip_char_from(v@, c, 0) == skip_char_from(v@, c, i as int),
        decreases n - i,
    {
        i = i + 1;
    }
    let ghost t = v@.subrange(i as int, n as int);
    let mut j: usize = n;
    while j > i && v[j - 1] == c
        invariant
            n == v@.len(),
            i <= j <= n,
            t == v@.subrange(i as int, n as int),
            strip_end_from(t, c, t.len() as int) == strip_end_from(t, c, (j - i) as int),
        decreases j,
    {
        assert(t[(j - i) - 1] == v@[j - 1]);
        j = j - 1;
    }
    if j > i {
        assert(t[(j - i) - 1] == v@[j - 1]);
    }
    assert(strip_end_from(t, c, (j - i) as int) == (j - i) as int);
    assert(v@.subrange(i as int, j as int) =~= t.subrange(0, (j - i) as int));
    slice_string(v.as_slice(), i, j)
}

// ---------------------------------------------------------------------------
// ASCII classes and case folding
// ---------------------------------------------------------------------------

pub open spec fn is_digit(c: char) -> bool {
    48 <= (c as u32) <= 57
}

pub open spec fn is_alpha(c: char) -> bool {
    (65 <= (c as u32) <= 90) || (97 <= (c as u32) <= 122)
}

pub open spec fn is_alnum(c: char) -> bool {
    is_digit(c) || is_alpha(c)
}

pub fn is_ascii_digit(c: char) -> (r: bool)
    ensures
        r == is_digit(c),
{
    let u = c as u32;
    48 <= u && u <= 57
}

pub fn is_ascii_alpha(c: char) -> (r: bool)
    ensures
        r == is_alpha(c),
{
    let u = c as u32;
    (65 <= u && u <= 90) || (97 <= u && u <= 122)
}

/// `char::to_ascii_lowercase`.
pub open spec fn lower_char(c: char) -> char {
    if 65 <= (c as u32) <= 90 {
        ((c as u32) + 32) as char
    } else {
        c
    }
}

/// `str::to_ascii_lowercase`.
pub open spec fn lower(s: Seq<char>) -> Seq<char> {
    Seq::new(s.len(), |i: int| lower_char(s[i]))
}

/// `char::to_ascii_uppercase`.
pub open spec fn upper_char(c: char) -> char {
    if 97 <= (c as u32) <= 122 {
        ((c as u32) - 32) as char
    } else {
        c
    }
}

/// `str::to_ascii_uppercase`.
pub open spec fn upper(s: Seq<char>) -> Seq<char> {
    Seq::new(s.len(), |i: int| upper_char(s[i]))
}

/// `str::eq_ignore_ascii_case`.
pub open spec fn eq_ignore_case(a: Seq<char>, b: Seq<char>) -> bool {
    lower(a) == lower(b)
}

pub fn to_lower_char(c: char) -> (r: char)
    ensures
        r == lower_char(c),
{
    let u = c as u32;
    if 65 <= u && u <= 90 {
        let b = (u + 32) as u8;
        b as char
    } else {
        c
    }
}

pub fn to_lower(s: &[char]) -> (r: Vec<char>)
    ensures
        r@ == lower(s@),
{
    let mut r: Vec<char> = Vec::new();
    let mut i: usize = 0;
    while i < s.len()
        invariant
            i <= s@.len(),
            r@ == lower(s@.subrange(0, i as int)),
        decreases s@.len() - i,
    {
        let c = to_lower_char(s[i]);
        r.push(c);
        i = i + 1;
        assert(r@ =~= lower(s@.subrange(0, i as int)));
    }
    assert(s@.subrange(0, s@.len() as int) =~= s@);
    r
}

pub fn eq_ignore_ascii_case(a: &[char], b: &[char]) -> (r: bool)
    ensures
        r == eq_ignore_case(a@, b@),
{
    if a.len() != b.len() {
        assert(lower(a@).len() != lower(b@).len());
        return false;
    }
    let mut i: usize = 0;
    while i < a.len()
        invariant
            a@.len() == b@.len(),
            i <= a@.len(),
            forall|k: int| 0 <= k < i ==> lower_char(a@[k]) == lower_char(b@[k]),
        decreases a@.len() - i,
    {
        if to_lower_char(a[i]) != to_lower_char(b[i]) {
            assert(lower(a@)[i as int] != lower(b@)[i as int]);
            return false;
        }
        i = i + 1;
    }
    assert(lower(a@) =~= lower(b@));
    true
}

/// Case-insensitive comparison of characters with a literal.
pub fn eq_ignore_ascii_case_str(a: &[char], b: &str) -> (r: bool)
    ensures
        r == eq_ignore_case(a@, b@),
{
    let bc = to_chars(b);
    eq_ignore_ascii_case(a, bc.as_slice())
}

// ---------------------------------------------------------------------------
// Prefixes, suffixes and searching
// ---------------------------------------------------------------------------

pub open spec fn starts_with(s: Seq<char>, p: Seq<char>) -> bool {
    p.len() <= s.len() && s.subrange(0, p.len() as int) == p
}

pub open spec fn ends_with(s: Seq<char>, p: Seq<char>) -> bool {
    p.len() <= s.len() && s.subrange(s.len() - p.len(), s.len() as int) == p
}

/// `p` occurs in `s` starting at index `i`.
pub open spec fn occurs_at(s: Seq<char>, p: Seq<char>, i: int) -> bool {
    0 <= i && i + p.len() <= s.len() && s.subrange(i, i + p.len()) == p
}

/// First occurrence of `p` in `s` at or after `i`.
pub open spec fn find_from(s: Seq<char>, p: Seq<char>, i: int) -> Option<int>
    decreases s.len() + 1 - i,
{
    if i < 0 || i + p.len() > s.len() {
        None
    } else if occurs_at(s, p, i) {
        Some(i)
    } else {
        find_from(s, p, i + 1)
    }
}

/// `str::find` with a string pattern, as a character index.
pub open spec fn find(s: Seq<char>, p: Seq<char>) -> Option<int> {
    find_from(s, p, 0)
}

/// `str::contains` with a string pattern.
pub open spec fn contains(s: Seq<char>, p: Seq<char>) -> bool {
    find(s, p) is Some
}

proof fn lemma_found_from(s: Seq<char>, p: Seq<char>, j: int, i: int)
    requires
        0 <= j <= i,
        occurs_at(s, p, i),
    ensures
        find_from(s, p, j) is Some,
    decreases i - j,
{
    if j < i && !occurs_at(s, p, j) {
        lemma_found_from(s, p, j + 1, i);
    }
}

/// A pattern that occurs somewhere is contained.
pub proof fn lemma_occurs_contains(s: Seq<char>, p: Seq<char>, i: int)
    requires
        occurs_at(s, p, i),
    ensures
        contains(s, p),
{
    lemma_found_from(s, p, 0, i);
}

pub proof fn lemma_find_from_sound(s: Seq<char>, p: Seq<char>, i: int)
    requires
        0 <= i,
    ensures
        find_from(s, p, i) matches Some(k) ==> i <= k && occurs_at(s, p, k) && forall|j: int|
            i <= j < k ==> !occurs_at(s, p, j),
        find_from(s, p, i) is None ==> forall|j: int| i <= j ==> !occurs_at(s, p, j),
    decreases s.len() + 1 - i,
{
    if i + p.len() > s.len() {
    } else if occurs_at(s, p, i) {
    } else {
        lemma_find_from_sound(s, p, i + 1);
    }
}

pub fn matches_at(s: &[char], p: &[char], i: usize) -> (r: bool)
    ensures
        r == occurs_at(s@, p@, i as int),
{
    if i > s.len() || p.len() > s.len() - i {
        return false;
    }
    let mut k: usize = 0;
    while k < p.len()
        invariant
            i + p@.len() <= s.len(),
            k <= p@.len(),
            forall|m: int| 0 <= m < k ==> s@[i + m] == p@[m],
        decreases p@.len() - k,
    {
        if s[i + k] != p[k] {
            assert(s@.subrange(i as int, i + p@.len())[k as int] != p@[k as int]);
            return false;
        }
        k = k + 1;
    }
    assert(s@.subrange(i as int, i + p@.len()) =~= p@);
    true
}

pub fn find_chars(s: &[char], p: &[char]) -> (r: Option<usize>)
    ensures
        r matches Some(k) ==> find(s@, p@) == Some(k as int),
        r is None ==> find(s@, p@) is None,
{
    if p.len() == 0 {
        assert(s@.subrange(0, 0) =~= p@);
        return Some(0);
    }
    let mut i: usize = 0;
    while i <= s.len() && p.len() <= s.len() - i
        invariant
            p@.len() > 0,
            i <= s@.len(),
            find(s@, p@) == find_from(s@, p@, i as int),
        decreases s@.len() + 1 - i,
    {
        if matches_at(s, p, i) {
            return Some(i);
        }
        i = i + 1;
    }
    None
}

pub fn find_str(s: &[char], p: &str) -> (r: Option<usize>)
    ensures
        r matches Some(k) ==> find(s@, p@) == Some(k as int),
        r is None ==> find(s@, p@) is None,
{
    let pc = to_chars(p);
    find_chars(s, pc.as_slice())
}

pub fn contains_str(s: &[char], p: &str) -> (r: bool)
    ensures
        r == contains(s@, p@),
{
    find_str(s, p).is_some()
}

pub fn starts_with_str(s: &[char], p: &str) -> (r: bool)
    ensures
        r == starts_with(s@, p@),
{
    let pc = to_chars(p);
    let r = matches_at(s, pc.as_slice(), 0);
    r
}

pub fn ends_with_str(s: &[char], p: &str) -> (r: bool)
    ensures
        r == ends_with(s@, p@),
{
    let pc = to_chars(p);
    if pc.len() > s.len() {
        return false;
    }
    matches_at(s, pc.as_slice(), s.len() - pc.len())
}


// ---------------------------------------------------------------------------
// Splitting (`str::split(char)`, `str::lines`)
// ---------------------------------------------------------------------------

/// Index of the first `c` at or after `i` (or the length).
pub open spec fn index_of_char_from(s: Seq<char>, c: char, i: int) -> int
    decreases s.len() - i,
{
    if i >= s.len() {
        s.len() as int
    } else if s[i] == c {
        i
    } else {
        index_of_char_from(s, c, i + 1)
    }
}

pub proof fn lemma_index_of_char_bounds(s: Seq<char>, c: char, i: int)
    requires
        0 <= i <= s.len(),
    ensures
        i <= index_of_char_from(s, c, i) <= s.len(),
        index_of_char_from(s, c, i) < s.len() ==> s[index_of_char_from(s, c, i)] == c,
        forall|j: int| i <= j < index_of_char_from(s, c, i) ==> s[j] != c,
    decreases s.len() - i,
{
    if i < s.len() && s[i] != c {
        lemma_index_of_char_bounds(s, c, i + 1);
    }
}

/// The pieces of `s[start..]` between occurrences of `c`.
pub open spec fn split_from(s: Seq<char>, c: char, start: int) -> Seq<Seq<char>>
    decreases s.len() - start,
{
    if start < 0 || start > s.len() {
        Seq::empty()
    } else {
        let e = index_of_char_from(s, c, start);
        if e >= s.len() {
            seq![s.subrange(start, s.len() as int)]
        } else {
            proof {
                lemma_index_of_char_bounds(s, c, start);
            }
            seq![s.subrange(start, e)] + split_from(s, c, e + 1)
        }
    }
}

/// `str::split(c)`: the pieces of `s` between occurrences of `c`, in order.
pub open spec fn split(s: Seq<char>, c: char) -> Seq<Seq<char>> {
    split_from(s, c, 0)
}

/// The views of a sequence of character vectors.
pub open spec fn vec_views(v: Seq<Vec<char>>) -> Seq<Seq<char>> {
    Seq::new(v.len(), |i: int| v[i]@)
}

/// The views of a sequence of strings.
pub open spec fn string_views(v: Seq<String>) -> Seq<Seq<char>> {
    Seq::new(v.len(), |i: int| v[i]@)
}

pub proof fn lemma_split_from_nonempty(s: Seq<char>, c: char, start: int)
    requires
        0 <= start <= s.len(),
    ensures
        split_from(s, c, start).len() >= 1,
{
    lemma_index_of_char_bounds(s, c, start);
}

pub fn index_of_char(s: &[char], c: char, start: usize) -> (r: usize)
    requires
        start <= s@.len(),
    ensures
        r == index_of_char_from(s@, c, start as int),
        start <= r <= s@.len(),
{
    let mut j = start;
    while j < s.len() && s[j] != c
        invariant
            start <= j <= s@.len(),
            index_of_char_from(s@, c, start as int) == index_of_char_from(s@, c, j as int),
        decreases s@.len() - j,
    {
        j = j + 1;
    }
    proof {
        lemma_index_of_char_bounds(s@, c, start as int);
    }
    j
}

pub fn copy_range(s: &[char], from: usize, to: usize) -> (r: Vec<char>)
    requires
        from <= to <= s@.len(),
    ensures
        r@ == s@.subrange(from as int, to as int),
{
    let mut r: Vec<char> = Vec::new();
    let mut i = from;
    while i < to
        invariant
            from <= i <= to <= s@.len(),
            r@ == s@.subrange(from as int, i as int),
        decreases to - i,
    {
        r.push(s[i]);
        i = i + 1;
        assert(r@ =~= s@.subrange(from as int, i as int));
    }
    r
}

/// `s.split(c)` as character vectors.
pub fn split_char(s: &[char], c: char) -> (r: Vec<Vec<char>>)
    ensures
        vec_views(r@) == split(s@, c),
{
    let mut r: Vec<Vec<char>> = Vec::new();
    let mut start: usize = 0;
    loop
        invariant
            start <= s@.len(),
            vec_views(r@) + split_from(s@, c, start as int) == split(s@, c),
        decreases s@.len() - start,
    {
        let e = index_of_char(s, c, start);
        let piece = copy_range(s, start, e);
        let ghost before = r@;
        r.push(piece);
        assert(vec_views(r@) =~= vec_views(before).push(s@.subrange(start as int, e as int)));
        if e >= s.len() {
            assert(split_from(s@, c, start as int) =~= seq![s@.subrange(start as int, s@.len() as int)]);
            assert(vec_views(r@) =~= vec_views(before) + split_from(s@, c, start as int));
            return r;
        }
        assert(split_from(s@, c, start as int) == seq![s@.subrange(start as int, e as int)]
            + split_from(s@, c, e + 1));
        assert(vec_views(r@) + split_from(s@, c, (e + 1) as int) =~= vec_views(before)
            + split_from(s@, c, start as int));
        start = e + 1;
    }
}

/// Drop one trailing carriage return.
pub open spec fn strip_cr(l: Seq<char>) -> Seq<char> {
    if l.len() > 0 && l.last() == '\r' {
        l.drop_last()
    } else {
        l
    }
}

/// `str::lines`: pieces split at `\n`, with a `\r` before the `\n` removed; a
/// final empty piece (the text ends with `\n`, or is empty) is not a line.
pub open spec fn lines(s: Seq<char>) -> Seq<Seq<char>> {
    let p = split(s, '\n');
    let inner = Seq::new((p.len() - 1) as nat, |i: int| strip_cr(p[i]));
    if p.last().len() == 0 {
        inner
    } else {
        inner.push(p.last())
    }
}

/// `s.lines()` as character vectors.
pub fn lines_of(s: &[char]) -> (r: Vec<Vec<char>>)
    ensures
        vec_views(r@) == lines(s@),
{
    let pieces = split_char(s, '\n');
    proof {
        lemma_split_from_nonempty(s@, '\n', 0);
    }
    let ghost p = split(s@, '\n');
    let n = pieces.len();
    let mut r: Vec<Vec<char>> = Vec::new();
    let mut i: usize = 0;
    while i + 1 < n
        invariant
            n == pieces@.len(),
            n >= 1,
            vec_views(pieces@) == p,
            i + 1 <= n,
            vec_views(r@) == Seq::new(i as nat, |k: int| strip_cr(p[k])),
        decreases n - i,
    {
        let piece = &pieces[i];
        assert(piece@ == vec_views(pieces@)[i as int]);
        let mut l: Vec<char> = Vec::new();
        let len = piece.len();
        if len > 0 && piece[len - 1] == '\r' {
            l = copy_range(piece.as_slice(), 0, len - 1);
            assert(l@ =~= piece@.drop_last());
        } else {
            l = copy_range(piece.as_slice(), 0, len);
            assert(l@ =~= piece@);
        }
        assert(piece@ == p[i as int]);
        assert(l@ == strip_cr(p[i as int]));
        let ghost before = r@;
        r.push(l);
        assert(vec_views(r@) =~= vec_views(before).push(strip_cr(p[i as int])));
        i = i + 1;
        assert(vec_views(r@) =~= Seq::new(i as nat, |k: int| strip_cr(p[k])));
    }
    let last = &pieces[n - 1];
    assert(last@ == vec_views(pieces@)[n - 1]);
    assert(last@ == p.last());
    if last.len() > 0 {
        let l = copy_range(last.as_slice(), 0, last.len());
        assert(l@ =~= last@);
        r.push(l);
        assert(vec_views(r@) =~= lines(s@));
    } else {
        assert(vec_views(r@) =~= lines(s@));
    }
    r
}

// ---------------------------------------------------------------------------
// Joining (`[String]::join`)
// ---------------------------------------------------------------------------

/// `parts.join(sep)`.
pub open spec fn join(parts: Seq<Seq<char>>, sep: Seq<char>) -> Seq<char>
    decreases parts.len(),
{
    if parts.len() == 0 {
        Seq::empty()
    } else if parts.len() == 1 {
        parts[0]
    } else {
        join(parts.drop_last(), sep) + sep + parts.last()
    }
}

pub fn join_strings(parts: &Vec<String>, sep: &str) -> (r: String)
    ensures
        r@ == join(string_views(parts@), sep@),
{
    let mut r = String::new();
    let mut i: usize = 0;
    while i < parts.len()
        invariant
            i <= parts@.len(),
            r@ == join(string_views(parts@.subrange(0, i as int)), sep@),
        decreases parts@.len() - i,
    {
        let ghost prev = string_views(parts@.subrange(0, i as int));
        if i > 0 {
            push_str(&mut r, sep);
        }
        push_str(&mut r, parts[i].as_str());
        i = i + 1;
        let ghost cur = string_views(parts@.subrange(0, i as int));
        assert(cur.drop_last() =~= prev);
        assert(cur.last() == parts@[i - 1]@);
        if i == 1 {
            assert(r@ =~= join(cur, sep@));
        } else {
            assert(r@ =~= join(cur, sep@));
        }
    }
    assert(parts@.subrange(0, parts@.len() as int) =~= parts@);
    r
}

// ---------------------------------------------------------------------------
// Decimal formatting (`Display` for integers)
// ---------------------------------------------------------------------------

pub open spec fn digit_char(d: int) -> char {
    (d + 48) as char
}

/// Decimal digits of a natural number, without leading zeros.
pub open spec fn dec(n: nat) -> Seq<char>
    decreases n,
{
    if n < 10 {
        seq![digit_char(n as int)]
    } else {
        dec(n / 10).push(digit_char((n % 10) as int))
    }
}

/// Decimal rendering of an integer, with a leading `-` when negative.
pub open spec fn int_dec(i: int) -> Seq<char> {
    if i < 0 {
        seq!['-'] + dec((-i) as nat)
    } else {
        dec(i as nat)
    }
}

pub fn push_u64(s: &mut String, n: u64)
    ensures
        final(s)@ == old(s)@ + dec(n as nat),
    decreases n,
{
    if n >= 10 {
        push_u64(s, n / 10);
    }
    let d = (n % 10) as u8;
    let c = (d + 48) as char;
    push_char(s, c);
    assert(final(s)@ =~= old(s)@ + dec(n as nat));
}

pub fn push_i64(s: &mut String, n: i64)
    ensures
        final(s)@ == old(s)@ + int_dec(n as int),
{
    if n < 0 {
        push_char(s, '-');
        let m: u64 = if n == i64::MIN {
            9223372036854775808u64
        } else {
            (-n) as u64
        };
        push_u64(s, m);
        assert(final(s)@ =~= old(s)@ + int_dec(n as int));
    } else {
        push_u64(s, n as u64);
    }
}

pub fn u64_to_string(n: u64) -> (r: String)
    ensures
        r@ == dec(n as nat),
{
    let mut r = String::new();
    push_u64(&mut r, n);
    assert(r@ =~= dec(n as nat));
    r
}

pub fn i64_to_string(n: i64) -> (r: String)
    ensures
        r@ == int_dec(n as int),
{
    let mut r = String::new();
    push_i64(&mut r, n);
    assert(r@ =~= int_dec(n as int));
    r
}

// ---------------------------------------------------------------------------
// Decimal parsing (`FromStr` for integers)
// ---------------------------------------------------------------------------

pub open spec fn all_digits(s: Seq<char>) -> bool {
    forall|i: int| 0 <= i < s.len() ==> is_digit(#[trigger] s[i])
}

/// Value of a string of decimal digits.
pub open spec fn digits_val(s: Seq<char>) -> nat
    decreases s.len(),
{
    if s.len() == 0 {
        0
    } else {
        digits_val(s.drop_last()) * 10 + ((s.last() as u32) - 48) as nat
    }
}

/// A non-empty run of decimal digits and its value.
pub open spec fn unsigned_digits(d: Seq<char>) -> Option<int> {
    if d.len() > 0 && all_digits(d) {
        Some(digits_val(d) as int)
    } else {
        None
    }
}

/// The integer that `FromStr` reads from `s`, before the range check of the
/// target type: an optional `+` (or `-` when `signed`) and at least one digit.
pub open spec fn parse_int(s: Seq<char>, signed: bool) -> Option<int> {
    if s.len() == 0 {
        None
    } else if (s[0] == '+' || s[0] == '-') && s.len() == 1 {
        None
    } else if s[0] == '+' {
        unsigned_digits(s.drop_first())
    } else if s[0] == '-' && signed {
        match unsigned_digits(s.drop_first()) {
            Some(v) => Some(-v),
            None => None,
        }
    } else {
        unsigned_digits(s)
    }
}

pub open spec fn within(v: Option<int>, lo: int, hi: int) -> Option<int> {
    match v {
        Some(x) => if lo <= x <= hi {
            Some(x)
        } else {
            None
        },
        None => None,
    }
}

/// `s.parse::<i64>().ok()`.
pub open spec fn parse_i64(s: Seq<char>) -> Option<int> {
    within(parse_int(s, true), i64::MIN as int, i64::MAX as int)
}

/// `s.parse::<u64>().ok()`.
pub open spec fn parse_u64(s: Seq<char>) -> Option<int> {
    within(parse_int(s, false), 0, u64::MAX as int)
}

/// `s.parse::<u32>().ok()`.
pub open spec fn parse_u32(s: Seq<char>) -> Option<int> {
    within(parse_int(s, false), 0, u32::MAX as int)
}

/// `s.parse::<u16>().ok()`.
pub open spec fn parse_u16(s: Seq<char>) -> Option<int> {
    within(parse_int(s, false), 0, u16::MAX as int)
}

pub proof fn lemma_digits_mono(s: Seq<char>, k: int)
    requires
        0 <= k <= s.len(),
    ensures
        digits_val(s.subrange(0, k)) <= digits_val(s),
    decreases s.len(),
{
    if k == s.len() {
        assert(s.subrange(0, k) =~= s);
    } else {
        lemma_digits_mono(s.drop_last(), k);
        assert(s.drop_last().subrange(0, k) =~= s.subrange(0, k));
    }
}

/// Value of the digits `s[from..]`, when they are a non-empty run of digits
/// whose value fits in `u64`.
fn parse_digits(s: &[char], from: usize) -> (r: Option<u64>)
    requires
        from <= s@.len(),
    ensures
        r matches Some(v) ==> unsigned_digits(s@.subrange(from as int, s@.len() as int)) == Some(
            v as int,
        ),
        r is None ==> match unsigned_digits(s@.subrange(from as int, s@.len() as int)) {
            Some(v) => v > u64::MAX,
            None => true,
        },
{
    let ghost d = s@.subrange(from as int, s@.len() as int);
    if from >= s.len() {
        return None;
    }
    let mut acc: u64 = 0;
    let mut i: usize = from;
    while i < s.len()
        invariant
            from <= i <= s@.len(),
            d == s@.subrange(from as int, s@.len() as int),
            all_digits(d.subrange(0, i - from)),
            acc as nat == digits_val(d.subrange(0, i - from)),
        decreases s@.len() - i,
    {
        let c = s[i];
        if !is_ascii_digit(c) {
            assert(d[i - from] == c);
            return None;
        }
        let dv = (c as u32 - 48) as u64;
        assert(d.subrange(0, i - from + 1).drop_last() =~= d.subrange(0, i - from));
        assert(d.subrange(0, i - from + 1).last() == c);
        match acc.checked_mul(10) {
            Some(m) => match m.checked_add(dv) {
                Some(a) => {
                    acc = a;
                },
                None => {
                    proof {
                        lemma_after_overflow(d, i - from);
                    }
                    return None;
                },
            },
            None => {
                proof {
                    lemma_after_overflow(d, i - from);
                }
                return None;
            },
        }
        i = i + 1;
        assert(all_digits(d.subrange(0, i - from)));
    }
    assert(d.subrange(0, i - from) =~= d);
    Some(acc)
}

proof fn lemma_after_overflow(d: Seq<char>, k: int)
    requires
        0 <= k < d.len(),
        is_digit(d[k]),
        digits_val(d.subrange(0, k)) * 10 + ((d[k] as u32) - 48) as nat > u64::MAX,
    ensures
        match unsigned_digits(d) {
            Some(v) => v > u64::MAX,
            None => true,
        },
{
    assert(d.subrange(0, k + 1).drop_last() =~= d.subrange(0, k));
    if all_digits(d) {
        lemma_digits_mono(d, k + 1);
    }
}

/// `s.parse::<i64>().ok()` on characters.
pub fn parse_i64_chars(s: &[char]) -> (r: Option<i64>)
    ensures
        r matches Some(v) ==> parse_i64(s@) == Some(v as int),
        r is None ==> parse_i64(s@) is None,
{
    if s.len() == 0 {
        return None;
    }
    if (s[0] == '+' || s[0] == '-') && s.len() == 1 {
        return None;
    }
    if s[0] == '+' || s[0] == '-' {
        let neg = s[0] == '-';
        assert(s@.subrange(1, s@.len() as int) =~= s@.drop_first());
        match parse_digits(s, 1) {
            Some(m) => {
                if neg {
                    if m <= 9223372036854775807u64 {
                        Some(-(m as i64))
                    } else if m == 9223372036854775808u64 {
                        Some(i64::MIN)
                    } else {
                        None
                    }
                } else {
                    if m <= 9223372036854775807u64 {
                        Some(m as i64)
                    } else {
                        None
                    }
                }
            },
            None => None,
        }
    } else {
        assert(s@.subrange(0, s@.len() as int) =~= s@);
        match parse_digits(s, 0) {
            Some(m) => {
                if m <= 9223372036854775807u64 {
                    Some(m as i64)
                } else {
                    None
                }
            },
            None => None,
        }
    }
}

/// `s.parse::<u64>().ok()` on characters.
pub fn parse_u64_chars(s: &[char]) -> (r: Option<u64>)
    ensures
        r matches Some(v) ==> parse_u64(s@) == Some(v as int),
        r is None ==> parse_u64(s@) is None,
{
    if s.len() == 0 {
        return None;
    }
    if (s[0] == '+' || s[0] == '-') && s.len() == 1 {
        return None;
    }
    if s[0] == '+' {
        assert(s@.subrange(1, s@.len() as int) =~= s@.drop_first());
        parse_digits(s, 1)
    } else {
        assert(s@.subrange(0, s@.len() as int) =~= s@);
        parse_digits(s, 0)
    }
}

/// `s.parse::<u32>().ok()` on characters.
pub fn parse_u32_chars(s: &[char]) -> (r: Option<u32>)
    ensures
        r matches Some(v) ==> parse_u32(s@) == Some(v as int),
        r is None ==> parse_u32(s@) is None,
{
    match parse_u64_chars(s) {
        Some(v) => if v <= 4294967295u64 {
            Some(v as u32)
        } else {
            None
        },
        None => None,
    }
}

/// `s.parse::<u16>().ok()` on characters.
pub fn parse_u16_chars(s: &[char]) -> (r: Option<u16>)
    ensures
        r matches Some(v) ==> parse_u16(s@) == Some(v as int),
        r is None ==> parse_u16(s@) is None,
{
    match parse_u64_chars(s) {
        Some(v) => if v <= 65535u64 {
            Some(v as u16)
        } else {
            None
        },
        None => None,
    }
}

} // verus!
