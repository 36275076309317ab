//! A map from strings to values that keeps its keys in ascending order, as
//! `BTreeMap<String, V>` does: keys are unique and ordered by `String`'s `Ord`,
//! which compares UTF-8 bytes and therefore compares characters by code point.
use vstd::prelude::*;

use crate::text::to_chars;

verus! {

/// Code point order on characters.
pub open spec fn char_lt(x: char, y: char) -> bool {
    x < y
}

/// Strict lexicographic order on character sequences (code point order).
pub open spec fn lex_lt(a: Seq<char>, b: Seq<char>) -> bool
    decreases a.len(),
{
    if a.len() == 0 {
        b.len() > 0
    } else if b.len() == 0 {
        false
    } else if a[0] != b[0] {
        char_lt(a[0], b[0])
    } else {
        lex_lt(a.drop_first(), b.drop_first())
    }
}

pub proof fn lemma_lex_irreflexive(a: Seq<char>)
    ensures
        !lex_lt(a, a),
    decreases a.len(),
{
    if a.len() > 0 {
        lemma_lex_irreflexive(a.drop_first());
    }
}

pub proof fn lemma_lex_asymmetric(a: Seq<char>, b: Seq<char>)
    ensures
        lex_lt(a, b) ==> !lex_lt(b, a),
    decreases a.len(),
{
    if a.len() > 0 && b.len() > 0 && a[0] == b[0] {
        lemma_lex_asymmetric(a.drop_first(), b.drop_first());
    }
}

pub proof fn lemma_lex_transitive(a: Seq<char>, b: Seq<char>, c: Seq<char>)
    requires
        lex_lt(a, b),
        lex_lt(b, c),
    ensures
        lex_lt(a, c),
    decreases a.len(),
{
    if a.len() > 0 && b.len() > 0 && c.len() > 0 && a[0] == b[0] && b[0] == c[0] {
        lemma_lex_transitive(a.drop_first(), b.drop_first(), c.drop_first());
    }
}

pub proof fn lemma_lex_total(a: Seq<char>, b: Seq<char>)
    requires
        a != b,
    ensures
        lex_lt(a, b) || lex_lt(b, a),
    decreases a.len(),
{
    if a.len() > 0 && b.len() > 0 && a[0] == b[0] {
        if a.drop_first() == b.drop_first() {
            assert(a.drop_first().len() == b.drop_first().len());
            assert(a.len() == b.len());
            assert forall|i: int| 0 <= i < a.len() implies a[i] == b[i] by {
                if i > 0 {
                    assert(a[i] == a.drop_first()[i - 1]);
                    assert(b[i] == b.drop_first()[i - 1]);
                }
            }
            assert(a =~= b);
        } else {
            lemma_lex_total(a.drop_first(), b.drop_first());
        }
    } else if a.len() == 0 && b.len() == 0 {
        assert(a =~= b);
    }
}

pub proof fn lemma_push_contains<A>(s: Seq<A>, a: A, x: A)
    ensures
        s.push(a).contains(x) <==> (s.contains(x) || x == a),
{
    if s.contains(x) {
        let i = choose|i: int| 0 <= i < s.len() && s[i] == x;
        assert(s.push(a)[i] == x);
    }
    if x == a {
        assert(s.push(a)[s.len() as int] == x);
    }
    if s.push(a).contains(x) {
        let i = choose|i: int| 0 <= i < s.push(a).len() && s.push(a)[i] == x;
        if i < s.len() {
            assert(s[i] == x);
        }
    }
}

/// Exec strict lexicographic comparison.
pub fn lex_less(a: &[char], b: &[char]) -> (r: bool)
    ensures
        r == lex_lt(a@, b@),
{
    let mut i: usize = 0;
    assert(a@.subrange(0, a@.len() as int) =~= a@);
    assert(b@.subrange(0, b@.len() as int) =~= b@);
    while i < a.len() && i < b.len() && a[i] == b[i]
        invariant
            i <= a@.len(),
            i <= b@.len(),
            lex_lt(a@, b@) == lex_lt(a@.subrange(i as int, a@.len() as int), b@.subrange(
                i as int,
                b@.len() as int,
            )),
        decreases a@.len() - i,
    {
        let ghost sa = a@.subrange(i as int, a@.len() as int);
        let ghost sb = b@.subrange(i as int, b@.len() as int);
        assert(sa.drop_first() =~= a@.subrange(i + 1, a@.len() as int));
        assert(sb.drop_first() =~= b@.subrange(i + 1, b@.len() as int));
        i = i + 1;
    }
    let ghost sa = a@.subrange(i as int, a@.len() as int);
    let ghost sb = b@.subrange(i as int, b@.len() as int);
    if i == a.len() {
        i < b.len()
    } else if i == b.len() {
        false
    } else {
        assert(sa[0] == a@[i as int] && sb[0] == b@[i as int]);
        let (x, y) = (a[i], b[i]);
        x < y
    }
}

/// Keys in strictly ascending order.
pub open spec fn sorted_keys<V>(s: Seq<(String, V)>) -> bool {
    forall|i: int, j: int| 0 <= i < j < s.len() ==> lex_lt(#[trigger] s[i].0@, #[trigger] s[j].0@)
}

/// The key views of the entries, in order.
pub open spec fn key_views<V>(s: Seq<(String, V)>) -> Seq<Seq<char>> {
    Seq::new(s.len(), |i: int| s[i].0@)
}

/// The abstract map held by a sequence of entries with unique keys.
pub open spec fn map_of<V: View>(s: Seq<(String, V)>) -> Map<Seq<char>, V::V> {
    Map::new(
        |k: Seq<char>| exists|i: int| 0 <= i < s.len() && s[i].0@ == k,
        |k: Seq<char>| s[choose|i: int| 0 <= i < s.len() && s[i].0@ == k].1@,
    )
}

pub proof fn lemma_sorted_unique<V>(s: Seq<(String, V)>, i: int, j: int)
    requires
        sorted_keys(s),
        0 <= i < s.len(),
        0 <= j < s.len(),
        s[i].0@ == s[j].0@,
    ensures
        i == j,
{
    if i < j {
        lemma_lex_irreflexive(s[i].0@);
        assert(lex_lt(s[i].0@, s[j].0@));
    } else if j < i {
        lemma_lex_irreflexive(s[i].0@);
        assert(lex_lt(s[j].0@, s[i].0@));
    }
}

pub proof fn lemma_map_of_at<V: View>(s: Seq<(String, V)>, i: int)
    requires
        sorted_keys(s),
        0 <= i < s.len(),
    ensures
        map_of(s).contains_key(s[i].0@),
        map_of(s)[s[i].0@] == s[i].1@,
{
    let k = s[i].0@;
    assert(exists|j: int| 0 <= j < s.len() && s[j].0@ == k);
    assert forall|a: int, b: int|
        0 <= a < s.len() && 0 <= b < s.len() && #[trigger] s[a].0@ == #[trigger] s[b].0@ implies a
        == b by {
        lemma_sorted_unique(s, a, b);
    }
    assert(map_of(s).contains_key(k));
}

fn key_less_at<V>(entries: &Vec<(String, V)>, i: usize, k: &[char]) -> (r: bool)
    requires
        i < entries@.len(),
    ensures
        r == lex_lt(entries@[i as int].0@, k@),
{
    let ec = to_chars(entries[i].0.as_str());
    lex_less(ec.as_slice(), k)
}

fn key_eq_at<V>(entries: &Vec<(String, V)>, i: usize, k: &[char]) -> (r: bool)
    requires
        i < entries@.len(),
    ensures
        r == (entries@[i as int].0@ == k@),
{
    let ec = to_chars(entries[i].0.as_str());
    crate::text::chars_eq(ec.as_slice(), k)
}

/// A string-keyed map whose entries are kept sorted by key.
#[derive(Debug)]
pub struct StrMap<V> {
    entries: Vec<(String, V)>,
}

impl<V: View> View for StrMap<V> {
    type V = Map<Seq<char>, V::V>;

    closed spec fn view(&self) -> Map<Seq<char>, V::V> {
        map_of(self.entries@)
    }
}

impl<V> StrMap<V> {
    /// Keys ascending and unique.
    #[verifier::type_invariant]
    pub closed spec fn wf(&self) -> bool {
        sorted_keys(self.entries@)
    }
}

impl<V: View> StrMap<V> {
    /// The keys in ascending order.
    pub closed spec fn keys_in_order(&self) -> Seq<Seq<char>> {
        key_views(self.entries@)
    }

    /// The entries in key order.
    pub closed spec fn entry_seq(&self) -> Seq<(String, V)> {
        self.entries@
    }

    /// The keys in order are exactly the domain of the map, ascending.
    pub proof fn lemma_keys(&self)
        requires
            self.wf(),
        ensures
            forall|k: Seq<char>| self@.contains_key(k) <==> self.keys_in_order().contains(k),
            forall|i: int, j: int|
                0 <= i < j < self.keys_in_order().len() ==> lex_lt(
                    #[trigger] self.keys_in_order()[i],
                    #[trigger] self.keys_in_order()[j],
                ),
            self.keys_in_order().no_duplicates(),
            self.keys_in_order().len() == self.entry_seq().len(),
            forall|i: int|
                0 <= i < self.entry_seq().len() ==> #[trigger] self.entry_seq()[i].0@
                    == self.keys_in_order()[i] && self@[self.keys_in_order()[i]]
                    == self.entry_seq()[i].1@,
    {
        let s = self.entries@;
        assert forall|k: Seq<char>| self@.contains_key(k) <==> self.keys_in_order().contains(k) by {
            if self@.contains_key(k) {
                let i = choose|i: int| 0 <= i < s.len() && s[i].0@ == k;
                assert(self.keys_in_order()[i] == k);
            }
            if self.keys_in_order().contains(k) {
                let i = choose|i: int|
                    0 <= i < self.keys_in_order().len() && self.keys_in_order()[i] == k;
                assert(s[i].0@ == k);
            }
        }
        assert forall|i: int, j: int|
            0 <= i < self.keys_in_order().len() && 0 <= j < self.keys_in_order().len() && i
                != j implies self.keys_in_order()[i] != self.keys_in_order()[j] by {
            if self.keys_in_order()[i] == self.keys_in_order()[j] {
                lemma_sorted_unique(s, i, j);
            }
        }
        assert forall|i: int| 0 <= i < s.len() implies #[trigger] s[i].0@
            == self.keys_in_order()[i] && self@[self.keys_in_order()[i]] == s[i].1@ by {
            lemma_map_of_at(s, i);
        }
    }

    pub fn new() -> (m: Self)
        ensures
            m.wf(),
            m@ == Map::<Seq<char>, V::V>::empty(),
            m.keys_in_order().len() == 0,
    {
        let m = StrMap { entries: Vec::new() };
        assert(m@ =~= Map::<Seq<char>, V::V>::empty());
        m
    }

    pub fn len(&self) -> (r: usize)
        ensures
            r == self.keys_in_order().len(),
    {
        self.entries.len()
    }

    pub fn is_empty(&self) -> (r: bool)
        ensures
            r == (self@.dom() =~= Set::empty()),
    {
        proof {
            use_type_invariant(self);
            self.lemma_keys();
        }
        if self.entries.len() == 0 {
            assert(self@.dom() =~= Set::empty());
            true
        } else {
            assert(self@.contains_key(self.keys_in_order()[0]));
            false
        }
    }

    /// Position of `k` among the entries, if present.
    fn position(&self, k: &[char]) -> (r: Option<usize>)
        ensures
            r matches Some(i) ==> i < self.entries@.len() && self.entries@[i as int].0@ == k@,
            r is None ==> forall|i: int|
                0 <= i < self.entries@.len() ==> self.entries@[i].0@ != k@,
    {
        let mut i: usize = 0;
        while i < self.entries.len()
            invariant
                i <= self.entries@.len(),
                forall|j: int| 0 <= j < i ==> self.entries@[j].0@ != k@,
            decreases self.entries@.len() - i,
        {
            let kc = to_chars(self.entries[i].0.as_str());
            if crate::text::chars_eq(kc.as_slice(), k) {
                return Some(i);
            }
            i = i + 1;
        }
        None
    }

    pub fn get(&self, k: &str) -> (r: Option<&V>)
        ensures
            r is Some == self@.contains_key(k@),
            r matches Some(v) ==> v@ == self@[k@],
    {
        proof {
            use_type_invariant(self);
        }
        let kc = to_chars(k);
        match self.position(kc.as_slice()) {
            Some(i) => {
                proof {
                    lemma_map_of_at(self.entries@, i as int);
                }
                Some(&self.entries[i].1)
            },
            None => {
                assert(!self@.contains_key(k@));
                None
            },
        }
    }

    pub fn contains_key(&self, k: &str) -> (r: bool)
        ensures
            r == self@.contains_key(k@),
    {
        self.get(k).is_some()
    }

    /// Insert or overwrite the value of `k`.
    pub fn insert(&mut self, k: String, v: V)
        ensures
            final(self)@ == old(self)@.insert(k@, v@),
    {
        proof {
            use_type_invariant(&*self);
        }
        let kc = to_chars(k.as_str());
        let ghost s = self.entries@;
        let mut entries: Vec<(String, V)> = Vec::new();
        std::mem::swap(&mut entries, &mut self.entries);
        let mut i: usize = 0;
        let n = entries.len();
        while i < n && key_less_at(&entries, i, kc.as_slice())
            invariant
                n == entries@.len(),
                entries@ == s,
                sorted_keys(s),
                kc@ == k@,
                i <= n,
                forall|j: int| 0 <= j < i ==> lex_lt(#[trigger] s[j].0@, k@),
            decreases n - i,
        {
            i = i + 1;
        }
        let same = i < n && key_eq_at(&entries, i, kc.as_slice());
        if same {
            let ghost kv = k@;
            entries.set(i, (k, v));
            let ghost t = entries@;
            assert(sorted_keys(t)) by {
                assert forall|a: int, b: int| 0 <= a < b < t.len() implies lex_lt(
                    #[trigger] t[a].0@,
                    #[trigger] t[b].0@,
                ) by {
                    assert(s[a].0@ == t[a].0@ || a == i);
                    assert(s[b].0@ == t[b].0@ || b == i);
                    assert(lex_lt(s[a].0@, s[b].0@));
                }
            }
            assert(map_of(t) =~= map_of(s).insert(kv, v@)) by {
                assert forall|key: Seq<char>| #[trigger]
                    map_of(t).contains_key(key) == map_of(s).insert(kv, v@).contains_key(key) by {
                    if map_of(s).contains_key(key) {
                        let j = choose|j: int| 0 <= j < s.len() && s[j].0@ == key;
                        assert(t[j].0@ == key);
                    }
                    if map_of(t).contains_key(key) {
                        let j = choose|j: int| 0 <= j < t.len() && t[j].0@ == key;
                        assert(s[j].0@ == key);
                    }
                    assert(t[i as int].0@ == kv);
                }
                assert forall|key: Seq<char>| #[trigger] map_of(t).contains_key(key) implies map_of(
                    t,
                )[key] == map_of(s).insert(kv, v@)[key] by {
                    let j = choose|j: int| 0 <= j < t.len() && t[j].0@ == key;
                    lemma_map_of_at(t, j);
                    if j != i {
                        lemma_map_of_at(s, j);
                        if key == kv {
                            lemma_sorted_unique(t, j, i as int);
                        }
                    }
                }
            }
        } else {
            proof {
                if i < n {
                    lemma_lex_total(s[i as int].0@, k@);
                }
            }
            let ghost kv = k@;
            entries.insert(i, (k, v));
            let ghost t = entries@;
            assert(t =~= s.subrange(0, i as int).push((t[i as int].0, t[i as int].1)) + s.subrange(
                i as int,
                s.len() as int,
            ));
            assert(sorted_keys(t)) by {
                assert forall|a: int, b: int| 0 <= a < b < t.len() implies lex_lt(
                    #[trigger] t[a].0@,
                    #[trigger] t[b].0@,
                ) by {
                    if b < i {
                        assert(t[a] == s[a] && t[b] == s[b]);
                    } else if b == i {
                        assert(t[a] == s[a]);
                    } else if a == i {
                        assert(t[b] == s[b - 1]);
                        if b - 1 > i {
                            assert(lex_lt(s[i as int].0@, s[b - 1].0@));
                            lemma_lex_transitive(kv, s[i as int].0@, s[b - 1].0@);
                        }
                    } else if a < i {
                        assert(t[a] == s[a] && t[b] == s[b - 1]);
                        if a < b - 1 {
                            assert(lex_lt(s[a].0@, s[b - 1].0@));
                        }
                    } else {
                        assert(t[a] == s[a - 1] && t[b] == s[b - 1]);
                        assert(lex_lt(s[a - 1].0@, s[b - 1].0@));
                    }
                }
            }
            assert(map_of(t) =~= map_of(s).insert(kv, v@)) by {
                assert forall|key: Seq<char>| #[trigger]
                    map_of(t).contains_key(key) == map_of(s).insert(kv, v@).contains_key(key) by {
                    if map_of(s).contains_key(key) {
                        let j = choose|j: int| 0 <= j < s.len() && s[j].0@ == key;
                        if j < i {
                            assert(t[j].0@ == key);
                        } else {
                            assert(t[j + 1].0@ == key);
                        }
                    }
                    if map_of(t).contains_key(key) {
                        let j = choose|j: int| 0 <= j < t.len() && t[j].0@ == key;
                        if j < i {
                            assert(s[j].0@ == key);
                        } else if j > i {
                            assert(s[j - 1].0@ == key);
                        }
                    }
                    assert(t[i as int].0@ == kv);
                }
                assert forall|key: Seq<char>| #[trigger] map_of(t).contains_key(key) implies map_of(
                    t,
                )[key] == map_of(s).insert(kv, v@)[key] by {
                    let j = choose|j: int| 0 <= j < t.len() && t[j].0@ == key;
                    lemma_map_of_at(t, j);
                    if j != i && key == kv {
                        lemma_sorted_unique(t, j, i as int);
                    }
                    if j < i {
                        assert(t[j] == s[j]);
                        lemma_map_of_at(s, j);
                    } else if j > i {
                        assert(t[j] == s[j - 1]);
                        lemma_map_of_at(s, j - 1);
                    }
                }
            }
        }
        self.entries = entries;
    }

    /// Remove `k` if present.
    pub fn remove(&mut self, k: &str)
        ensures
            final(self)@ == old(self)@.remove(k@),
    {
        proof {
            use_type_invariant(&*self);
        }
        let kc = to_chars(k);
        let ghost s = self.entries@;
        match self.position(kc.as_slice()) {
            Some(i) => {
                let mut entries: Vec<(String, V)> = Vec::new();
                std::mem::swap(&mut entries, &mut self.entries);
                entries.remove(i);
                let ghost t = entries@;
                assert(t =~= s.subrange(0, i as int) + s.subrange(i + 1, s.len() as int));
                assert(sorted_keys(t)) by {
                    assert forall|a: int, b: int| 0 <= a < b < t.len() implies lex_lt(
                        #[trigger] t[a].0@,
                        #[trigger] t[b].0@,
                    ) by {
                        if b < i {
                            assert(t[a] == s[a] && t[b] == s[b]);
                        } else if a < i {
                            assert(t[a] == s[a] && t[b] == s[b + 1]);
                        } else {
                            assert(t[a] == s[a + 1] && t[b] == s[b + 1]);
                        }
                    }
                }
                assert(map_of(t) =~= map_of(s).remove(k@)) by {
                    assert forall|key: Seq<char>| #[trigger]
                        map_of(t).contains_key(key) == map_of(s).remove(k@).contains_key(key) by {
                        if map_of(s).contains_key(key) && key != k@ {
                            let j = choose|j: int| 0 <= j < s.len() && s[j].0@ == key;
                            if j < i {
                                assert(t[j].0@ == key);
                            } else {
                                assert(t[j - 1].0@ == key);
                            }
                        }
                        if map_of(t).contains_key(key) {
                            let j = choose|j: int| 0 <= j < t.len() && t[j].0@ == key;
                            if j < i {
                                assert(s[j].0@ == key);
                                if key == k@ {
                                    lemma_sorted_unique(s, j, i as int);
                                }
                            } else {
                                assert(s[j + 1].0@ == key);
                                if key == k@ {
                                    lemma_sorted_unique(s, j + 1, i as int);
                                }
                            }
                        }
                    }
                    assert forall|key: Seq<char>| #[trigger] map_of(t).contains_key(key) implies map_of(
                        t,
                    )[key] == map_of(s).remove(k@)[key] by {
                        let j = choose|j: int| 0 <= j < t.len() && t[j].0@ == key;
                        lemma_map_of_at(t, j);
                        if j < i {
                            lemma_map_of_at(s, j);
                        } else {
                            lemma_map_of_at(s, j + 1);
                        }
                    }
                }
                self.entries = entries;
            },
            None => {
                assert(map_of(s) =~= map_of(s).remove(k@));
            },
        }
    }

    /// The keys in ascending order (`BTreeMap::keys().cloned().collect()`).
    pub fn keys(&self) -> (r: Vec<String>)
        ensures
            crate::text::string_views(r@) == self.keys_in_order(),
    {
        let mut r: Vec<String> = Vec::new();
        let mut i: usize = 0;
        while i < self.entries.len()
            invariant
                i <= self.entries@.len(),
                crate::text::string_views(r@) == key_views(self.entries@).subrange(0, i as int),
            decreases self.entries@.len() - i,
        {
            let k = self.entries[i].0.clone();
            assert(k@ == key_views(self.entries@)[i as int]);
            let ghost before = r@;
            r.push(k);
            assert(crate::text::string_views(r@) =~= crate::text::string_views(before).push(k@));
            i = i + 1;
            assert(crate::text::string_views(r@) =~= key_views(self.entries@).subrange(
                0,
                i as int,
            ));
        }
        assert(key_views(self.entries@).subrange(0, i as int) =~= key_views(self.entries@));
        r
    }

    /// The smallest key, if any (`BTreeMap::keys().next()`).
    pub fn first_key(&self) -> (r: Option<String>)
        ensures
            r is None <==> self.keys_in_order().len() == 0,
            r matches Some(k) ==> k@ == self.keys_in_order()[0],
    {
        if self.entries.len() == 0 {
            None
        } else {
            Some(self.entries[0].0.clone())
        }
    }

    /// The entry at position `i` in key order.
    pub fn entry_at(&self, i: usize) -> (r: (&String, &V))
        requires
            i < self.entry_seq().len(),
        ensures
            *r.0 == self.entry_seq()[i as int].0,
            *r.1 == self.entry_seq()[i as int].1,
    {
        (&self.entries[i].0, &self.entries[i].1)
    }
}

} // verus!
