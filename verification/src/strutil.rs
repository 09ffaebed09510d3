//! Verified text utilities: substring search, equality, trimming, and
//! removal of a fixed pattern.
//!
//! Everything here works character by character over string views, so the
//! framing and parsing rules built on top of it carry exact contracts.

use vstd::prelude::*;

verus! {

/// The pattern occurs in `hay` starting at position `i`.
pub open spec fn matches_at(hay: Seq<char>, pat: Seq<char>, i: int) -> bool
    recommends
        0 <= i,
        i + pat.len() <= hay.len(),
{
    hay.subrange(i, i + pat.len() as int) == pat
}

/// The pattern occurs somewhere in `hay`.
pub open spec fn contains_seq(hay: Seq<char>, pat: Seq<char>) -> bool {
    exists|i: int| 0 <= i <= hay.len() - pat.len() && #[trigger] matches_at(hay, pat, i)
}

/// `hay` with every occurrence of `pat` removed, scanning left to right and
/// never overlapping: exactly what `str::replace(pat, "")` leaves.
pub open spec fn remove_all(hay: Seq<char>, pat: Seq<char>) -> Seq<char>
    recommends
        pat.len() > 0,
    decreases hay.len(),
{
    if hay.len() == 0 {
        hay
    } else if 0 < pat.len() && pat.len() <= hay.len() && matches_at(hay, pat, 0) {
        remove_all(hay.skip(pat.len() as int), pat)
    } else {
        seq![hay[0]] + remove_all(hay.drop_first(), pat)
    }
}

/// The Unicode White_Space property, the set of characters that
/// `str::trim` strips.
pub open spec fn is_whitespace_char(c: char) -> bool {
    let u = c as u32;
    u == 0x9 || u == 0xA || u == 0xB || u == 0xC || u == 0xD || u == 0x20 || u == 0x85
        || u == 0xA0 || u == 0x1680 || (0x2000 <= u && u <= 0x200A) || u == 0x2028 || u == 0x2029
        || u == 0x202F || u == 0x205F || u == 0x3000
}

/// How many whitespace characters the text begins with.
pub open spec fn ws_prefix_len(s: Seq<char>) -> int
    decreases s.len(),
{
    if s.len() == 0 {
        0
    } else if !is_whitespace_char(s[0]) {
        0
    } else {
        1 + ws_prefix_len(s.drop_first())
    }
}

/// How many whitespace characters the text ends with.
pub open spec fn ws_suffix_len(s: Seq<char>) -> int
    decreases s.len(),
{
    if s.len() == 0 {
        0
    } else if !is_whitespace_char(s[s.len() - 1]) {
        0
    } else {
        1 + ws_suffix_len(s.drop_last())
    }
}

/// The text with leading and trailing whitespace removed: what `str::trim`
/// returns.
pub open spec fn trim_spec(s: Seq<char>) -> Seq<char> {
    if ws_prefix_len(s) == s.len() {
        Seq::empty()
    } else {
        s.subrange(ws_prefix_len(s), s.len() - ws_suffix_len(s))
    }
}

/// Relies on `char::is_whitespace`: true exactly on the Unicode White_Space
/// characters listed in `is_whitespace_char`.
#[verifier::external_body]
pub(crate) fn char_is_whitespace(c: char) -> (r: bool)
    ensures
        r == is_whitespace_char(c),
{
    c.is_whitespace()
}

/// The text that `str::to_lowercase` produces for the given text; a function
/// of the characters alone.
pub uninterp spec fn lower_of(s: Seq<char>) -> Seq<char>;

/// Relies on `str::to_lowercase`: the result depends on the characters
/// alone, and an empty text stays empty.
#[verifier::external_body]
pub(crate) fn to_lowercase(s: &str) -> (r: String)
    ensures
        r@ == lower_of(s@),
        s@.len() == 0 ==> r@.len() == 0,
{
    s.to_lowercase()
}

/// Relies on `char::from_u32`: yields the character with the given scalar
/// value. The surrogate range is excluded by the caller, so the conversion
/// never fails.
#[verifier::external_body]
pub(crate) fn char_from_u32(u: u32) -> (r: char)
    requires
        u < 0xD800 || (0xE000 <= u && u <= 0x10FFFF),
    ensures
        r == (u as char),
{
    char::from_u32(u).unwrap()
}

/// Relies on `String::push`: appends exactly the one character.
#[verifier::external_body]
pub(crate) fn string_push_char(s: &mut String, c: char)
    ensures
        final(s)@ == old(s)@.push(c),
{
    s.push(c)
}

/// Whether the two texts hold the same characters.
pub fn str_eq(a: &str, b: &str) -> (r: bool)
    ensures
        r == (a@ == b@),
{
    let n = a.unicode_len();
    if n != b.unicode_len() {
        return false;
    }
    let mut i: usize = 0;
    while i < n
        invariant
            n == a@.len(),
            n == b@.len(),
            i <= n,
            forall|j: int| 0 <= j < i ==> a@[j] == b@[j],
        decreases n - i,
    {
        if a.get_char(i) != b.get_char(i) {
            return false;
        }
        i = i + 1;
    }
    proof {
        assert(a@ =~= b@);
    }
    true
}

/// Whether `pat` occurs in `hay` starting at position `i`.
fn check_match_at(hay: &str, pat: &str, i: usize, n: usize, m: usize) -> (r: bool)
    requires
        n == hay@.len(),
        m == pat@.len(),
        i + m <= n,
    ensures
        r == matches_at(hay@, pat@, i as int),
{
    let mut j: usize = 0;
    while j < m
        invariant
            n == hay@.len(),
            m == pat@.len(),
            i + m <= n,
            j <= m,
            forall|k: int| 0 <= k < j ==> hay@[i + k] == pat@[k],
        decreases m - j,
    {
        if hay.get_char(i + j) != pat.get_char(j) {
            assert(hay@.subrange(i as int, i + m) != pat@) by {
                assert(hay@.subrange(i as int, i + m)[j as int] == hay@[i + j]);
            }
            return false;
        }
        j = j + 1;
    }
    proof {
        assert(hay@.subrange(i as int, i + m) =~= pat@);
    }
    true
}

/// Whether `pat` occurs anywhere in `hay`: what `str::contains` decides.
pub fn str_contains(hay: &str, pat: &str) -> (r: bool)
    ensures
        r == contains_seq(hay@, pat@),
{
    let n = hay.unicode_len();
    let m = pat.unicode_len();
    if m > n {
        return false;
    }
    if m == 0 {
        proof {
            assert(hay@.subrange(0, 0) =~= pat@);
            assert(matches_at(hay@, pat@, 0));
        }
        return true;
    }
    let mut i: usize = 0;
    while i <= n - m
        invariant
            n == hay@.len(),
            m == pat@.len(),
            0 < m <= n,
            i <= n - m + 1,
            forall|k: int| 0 <= k < i ==> !matches_at(hay@, pat@, k),
        decreases n - i,
    {
        if check_match_at(hay, pat, i, n, m) {
            return true;
        }
        i = i + 1;
    }
    false
}

/// The position of the first occurrence of `c`, if any: what
/// `str::find(char)` reports, counted in characters.
pub fn find_char(s: &str, c: char) -> (r: Option<usize>)
    ensures
        match r {
            Some(i) => i < s@.len() && s@[i as int] == c && forall|j: int|
                0 <= j < i ==> s@[j] != c,
            None => forall|j: int| 0 <= j < s@.len() ==> s@[j] != c,
        },
{
    let n = s.unicode_len();
    let mut i: usize = 0;
    while i < n
        invariant
            n == s@.len(),
            i <= n,
            forall|j: int| 0 <= j < i ==> s@[j] != c,
        decreases n - i,
    {
        if s.get_char(i) == c {
            return Some(i);
        }
        i = i + 1;
    }
    None
}

/// Exactly how far the leading whitespace of the text reaches.
proof fn lemma_ws_prefix_len_at(s: Seq<char>, i: int)
    requires
        0 <= i <= s.len(),
        forall|j: int| 0 <= j < i ==> is_whitespace_char(s[j]),
        i < s.len() ==> !is_whitespace_char(s[i]),
    ensures
        ws_prefix_len(s) == i,
    decreases i,
{
    if i == 0 {
    } else {
        lemma_ws_prefix_len_at(s.drop_first(), i - 1);
    }
}

/// Exactly how far the trailing whitespace of the text reaches.
proof fn lemma_ws_suffix_len_at(s: Seq<char>, i: int)
    requires
        0 <= i <= s.len(),
        forall|j: int| s.len() - i <= j < s.len() ==> is_whitespace_char(s[j]),
        i < s.len() ==> !is_whitespace_char(s[s.len() - i - 1]),
    ensures
        ws_suffix_len(s) == i,
    decreases i,
{
    if i == 0 {
    } else {
        lemma_ws_suffix_len_at(s.drop_last(), i - 1);
    }
}

/// The text with leading and trailing whitespace removed: what `str::trim`
/// returns, as an owned string.
pub fn trim_str(s: &str) -> (r: String)
    ensures
        r@ == trim_spec(s@),
{
    let n = s.unicode_len();
    let mut a: usize = 0;
    while a < n && char_is_whitespace(s.get_char(a))
        invariant
            n == s@.len(),
            a <= n,
            forall|j: int| 0 <= j < a ==> is_whitespace_char(s@[j]),
        decreases n - a,
    {
        a = a + 1;
    }
    proof {
        lemma_ws_prefix_len_at(s@, a as int);
    }
    if a == n {
        return String::new();
    }
    let mut e: usize = n;
    while e > a && char_is_whitespace(s.get_char(e - 1))
        invariant
            n == s@.len(),
            a < n,
            !is_whitespace_char(s@[a as int]),
            a <= e <= n,
            forall|j: int| e <= j < n ==> is_whitespace_char(s@[j]),
        decreases e,
    {
        e = e - 1;
    }
    proof {
        assert(e > a);
        lemma_ws_suffix_len_at(s@, (n - e) as int);
    }
    let sub = s.substring_char(a, e);
    String::from_str(sub)
}

/// `hay` with every occurrence of `pat` removed, scanning left to right and
/// never overlapping: what `str::replace(pat, "")` returns.
pub fn remove_all_str(hay: &str, pat: &str) -> (r: String)
    requires
        pat@.len() > 0,
    ensures
        r@ == remove_all(hay@, pat@),
{
    let n = hay.unicode_len();
    let m = pat.unicode_len();
    let mut out = String::new();
    proof {
        assert(hay@.skip(0) =~= hay@);
        assert(out@ + remove_all(hay@.skip(0), pat@) =~= remove_all(hay@, pat@));
    }
    let mut i: usize = 0;
    while i < n
        invariant
            n == hay@.len(),
            m == pat@.len(),
            m > 0,
            i <= n,
            out@ + remove_all(hay@.skip(i as int), pat@) == remove_all(hay@, pat@),
        decreases n - i,
    {
        let ghost t = hay@.skip(i as int);
        if m <= n - i && check_match_at(hay, pat, i, n, m) {
            proof {
                assert(t.subrange(0, m as int) =~= hay@.subrange(i as int, i + m));
                assert(matches_at(t, pat@, 0));
                assert(t.skip(m as int) =~= hay@.skip(i + m));
            }
            i = i + m;
        } else {
            proof {
                if m <= t.len() {
                    assert(t.subrange(0, m as int) =~= hay@.subrange(i as int, i + m));
                }
                assert(!(0 < pat@.len() <= t.len() && matches_at(t, pat@, 0)));
                assert(t.drop_first() =~= hay@.skip(i + 1));
                assert(remove_all(t, pat@) == seq![t[0]] + remove_all(hay@.skip(i + 1), pat@));
            }
            let c = hay.substring_char(i, i + 1);
            out.append(c);
            proof {
                assert(c@ =~= seq![t[0]]);
                assert(out@ + remove_all(hay@.skip(i + 1), pat@) =~= remove_all(hay@, pat@));
            }
            i = i + 1;
        }
    }
    proof {
        assert(hay@.skip(n as int) =~= Seq::<char>::empty());
        assert(out@ + remove_all(hay@.skip(n as int), pat@) =~= out@);
    }
    out
}

/// An occurrence of the pattern one position further in is an occurrence one
/// position further out.
proof fn lemma_matches_at_shift(hay: Seq<char>, pat: Seq<char>, i: int)
    requires
        0 <= i,
        i + 1 + pat.len() <= hay.len(),
    ensures
        matches_at(hay.drop_first(), pat, i) == matches_at(hay, pat, i + 1),
{
    assert(hay.drop_first().subrange(i, i + pat.len() as int) =~= hay.subrange(
        i + 1,
        i + 1 + pat.len() as int,
    ));
}

/// Removing a pattern that never occurs changes nothing.
pub proof fn lemma_remove_all_absent(hay: Seq<char>, pat: Seq<char>)
    requires
        pat.len() > 0,
        !contains_seq(hay, pat),
    ensures
        remove_all(hay, pat) == hay,
    decreases hay.len(),
{
    if hay.len() == 0 {
    } else {
        if pat.len() <= hay.len() && matches_at(hay, pat, 0) {
            assert(contains_seq(hay, pat));
        }
        assert(!contains_seq(hay.drop_first(), pat)) by {
            if contains_seq(hay.drop_first(), pat) {
                let i = choose|i: int|
                    0 <= i <= hay.drop_first().len() - pat.len() && #[trigger] matches_at(
                        hay.drop_first(),
                        pat,
                        i,
                    );
                lemma_matches_at_shift(hay, pat, i);
                assert(matches_at(hay, pat, i + 1));
            }
        }
        lemma_remove_all_absent(hay.drop_first(), pat);
        assert(seq![hay[0]] + hay.drop_first() =~= hay);
    }
}

} // verus!
