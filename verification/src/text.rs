//! Specifications and executable helpers for text scanning on character
//! vectors: whitespace, trimming, pattern search, line splitting and
//! two-character replacement.

use vstd::prelude::*;
use crate::strs::{to_chars, from_chars, push_char};

verus! {

/// The `White_Space` property of Unicode, as tested by `char::is_whitespace`.
pub open spec fn is_ws(c: char) -> bool {
    ||| c == '\t'
    ||| c == '\n'
    ||| c == '\u{0B}'
    ||| c == '\u{0C}'
    ||| c == '\r'
    ||| c == ' '
    ||| c == '\u{85}'
    ||| c == '\u{A0}'
    ||| c == '\u{1680}'
    ||| ('\u{2000}' as int <= c as int && c as int <= '\u{200A}' as int)
    ||| c == '\u{2028}'
    ||| c == '\u{2029}'
    ||| c == '\u{202F}'
    ||| c == '\u{205F}'
    ||| c == '\u{3000}'
}

/// Whether `c` is a whitespace character (`char::is_whitespace`).
pub fn is_whitespace(c: char) -> (b: bool)
    ensures
        b == is_ws(c),
{
    c == '\t' || c == '\n' || c == '\u{0B}' || c == '\u{0C}' || c == '\r' || c == ' '
        || c == '\u{85}' || c == '\u{A0}' || c == '\u{1680}' || ('\u{2000}' <= c && c
        <= '\u{200A}') || c == '\u{2028}' || c == '\u{2029}' || c == '\u{202F}' || c
        == '\u{205F}' || c == '\u{3000}'
}

/// Whether `char::is_alphanumeric` holds of `c` (the Unicode `Alphabetic`
/// or `Numeric` properties).
pub uninterp spec fn is_alphanumeric_char(c: char) -> bool;

/// An ASCII letter or digit.
pub open spec fn is_ascii_alnum(c: char) -> bool {
    (48 <= (c as u32) <= 57) || (65 <= (c as u32) <= 90) || (97 <= (c as u32) <= 122)
}

/// `char::is_alphanumeric`; the contract names its result and states the
/// ASCII case the documentation gives: among ASCII characters, exactly the
/// letters and digits are alphabetic or numeric.
#[verifier::external_body]
pub(crate) fn is_alphanumeric(c: char) -> (b: bool)
    ensures
        b == is_alphanumeric_char(c),
        (c as u32) < 0x80 ==> (b <==> is_ascii_alnum(c)),
{
    c.is_alphanumeric()
}

/// `s` without leading and trailing occurrences of `c` (`str::trim_matches`).
pub open spec fn trim_char(s: Seq<char>, c: char) -> Seq<char>
    decreases s.len(),
{
    if s.len() > 0 && s[0] == c {
        trim_char(s.drop_first(), c)
    } else if s.len() > 0 && s.last() == c {
        trim_char(s.drop_last(), c)
    } else {
        s
    }
}

/// `s` without leading and trailing occurrences of `c` (`str::trim_matches`).
pub fn trim_matches_char(s: &str, c: char) -> (r: String)
    ensures
        r@ == trim_char(s@, c),
{
    let v = crate::strs::to_chars(s);
    let mut a: usize = 0;
    let mut b: usize = v.len();
    assert(v@.subrange(0, v@.len() as int) =~= v@);
    while a < b && (v[a] == c || v[b - 1] == c)
        invariant
            a <= b <= v@.len(),
            trim_char(v@.subrange(a as int, b as int), c) == trim_char(s@, c),
            v@ == s@,
        decreases b - a,
    {
        let ghost t = v@.subrange(a as int, b as int);
        if v[a] == c {
            assert(t.drop_first() =~= v@.subrange(a + 1, b as int));
            a = a + 1;
        } else {
            assert(t.drop_last() =~= v@.subrange(a as int, b - 1));
            b = b - 1;
        }
    }
    crate::strs::from_chars(&v, a, b)
}

/// `s` without leading occurrences of `c` (`str::trim_start_matches`).
pub open spec fn trim_start_char(s: Seq<char>, c: char) -> Seq<char>
    decreases s.len(),
{
    if s.len() > 0 && s[0] == c {
        trim_start_char(s.drop_first(), c)
    } else {
        s
    }
}

/// `s` without leading occurrences of `c`.
pub fn trim_start_matches_char(s: &str, c: char) -> (r: String)
    ensures
        r@ == trim_start_char(s@, c),
{
    let v = crate::strs::to_chars(s);
    let mut a: usize = 0;
    assert(v@.subrange(0, v@.len() as int) =~= v@);
    while a < v.len() && v[a] == c
        invariant
            a <= v@.len(),
            trim_start_char(v@.subrange(a as int, v@.len() as int), c) == trim_start_char(s@, c),
            v@ == s@,
        decreases v@.len() - a,
    {
        assert(v@.subrange(a as int, v@.len() as int).drop_first() =~= v@.subrange(a + 1, v@.len() as int));
        a = a + 1;
    }
    crate::strs::from_chars(&v, a, v.len())
}

/// `s` without its leading whitespace.
pub open spec fn trim_start(s: Seq<char>) -> Seq<char>
    decreases s.len(),
{
    if s.len() > 0 && is_ws(s[0]) {
        trim_start(s.drop_first())
    } else {
        s
    }
}

/// `s` without its trailing whitespace.
pub open spec fn trim_end(s: Seq<char>) -> Seq<char>
    decreases s.len(),
{
    if s.len() > 0 && is_ws(s.last()) {
        trim_end(s.drop_last())
    } else {
        s
    }
}

/// `s` without leading and trailing whitespace (`str::trim`).
pub open spec fn trim(s: Seq<char>) -> Seq<char> {
    trim_end(trim_start(s))
}

/// Whether `pat` occurs in `s` at index `j`.
pub open spec fn matches_at(s: Seq<char>, pat: Seq<char>, j: int) -> bool {
    0 <= j && j + pat.len() <= s.len() && s.subrange(j, j + pat.len()) == pat
}

/// Whether `pat` occurs in `s`.
pub open spec fn has_match(s: Seq<char>, pat: Seq<char>) -> bool {
    exists|j: int| matches_at(s, pat, j)
}

/// `p` is the first index at which `pat` occurs in `s`.
pub open spec fn is_first_match(s: Seq<char>, pat: Seq<char>, p: int) -> bool {
    &&& matches_at(s, pat, p)
    &&& forall|j: int| 0 <= j < p ==> !matches_at(s, pat, j)
}

/// The first index at which `pat` occurs in `s` (`str::find`), when it occurs.
pub open spec fn first_match(s: Seq<char>, pat: Seq<char>) -> int {
    choose|p: int| is_first_match(s, pat, p)
}

/// The first occurrence is unique.
pub proof fn lemma_first_match_unique(s: Seq<char>, pat: Seq<char>, p: int)
    requires
        is_first_match(s, pat, p),
    ensures
        has_match(s, pat),
        first_match(s, pat) == p,
{
    let q = first_match(s, pat);
    assert(is_first_match(s, pat, q));
    if q < p {
        assert(!matches_at(s, pat, q));
    } else if p < q {
        assert(!matches_at(s, pat, p));
    }
}

/// `s` split at every `'\n'`; a trailing piece is always present, possibly empty.
pub open spec fn split_lines(s: Seq<char>) -> Seq<Seq<char>>
    decreases s.len(),
{
    if s.len() == 0 {
        seq![Seq::<char>::empty()]
    } else {
        let rest = split_lines(s.drop_last());
        if s.last() == '\n' {
            rest.push(Seq::<char>::empty())
        } else {
            rest.update(rest.len() - 1, rest.last().push(s.last()))
        }
    }
}

/// `split_lines` is never empty.
pub proof fn lemma_split_lines_nonempty(s: Seq<char>)
    ensures
        split_lines(s).len() >= 1,
    decreases s.len(),
{
    if s.len() > 0 {
        lemma_split_lines_nonempty(s.drop_last());
    }
}

/// `s` with every occurrence of the two characters `a b`, scanned left to
/// right without overlap, replaced by the single character `c`
/// (`str::replace` with a two-character pattern and a one-character replacement).
pub open spec fn replace_pair(s: Seq<char>, a: char, b: char, c: char) -> Seq<char>
    decreases s.len(),
{
    if s.len() == 0 {
        s
    } else if s.len() >= 2 && s[0] == a && s[1] == b {
        seq![c] + replace_pair(s.skip(2), a, b, c)
    } else {
        seq![s[0]] + replace_pair(s.drop_first(), a, b, c)
    }
}

/// Bounds `(a, b)` such that `v[a..b]` is `v[lo..hi]` trimmed.
pub fn trim_range(v: &Vec<char>, lo: usize, hi: usize) -> (r: (usize, usize))
    requires
        lo <= hi <= v.len(),
    ensures
        lo <= r.0 <= r.1 <= hi,
        v@.subrange(r.0 as int, r.1 as int) == trim(v@.subrange(lo as int, hi as int)),
{
    let mut a = lo;
    while a < hi && is_whitespace(v[a])
        invariant
            lo <= a <= hi <= v.len(),
            trim_start(v@.subrange(lo as int, hi as int)) == trim_start(
                v@.subrange(a as int, hi as int),
            ),
        decreases hi - a,
    {
        assert(v@.subrange(a as int, hi as int).drop_first() =~= v@.subrange(a + 1, hi as int));
        a = a + 1;
    }
    let mut b = hi;
    while b > a && is_whitespace(v[b - 1])
        invariant
            lo <= a <= b <= hi <= v.len(),
            trim_end(v@.subrange(a as int, hi as int)) == trim_end(v@.subrange(a as int, b as int)),
        decreases b - a,
    {
        assert(v@.subrange(a as int, b as int).drop_last() =~= v@.subrange(a as int, b - 1));
        b = b - 1;
    }
    (a, b)
}

/// The first index in `lo..hi` at which `pat` occurs within `v[lo..hi]`.
pub fn find_in(v: &Vec<char>, lo: usize, hi: usize, pat: &Vec<char>) -> (r: Option<usize>)
    requires
        lo <= hi <= v.len(),
    ensures
        match r {
            Some(p) => lo <= p && is_first_match(
                v@.subrange(lo as int, hi as int),
                pat@,
                p - lo,
            ),
            None => !has_match(v@.subrange(lo as int, hi as int), pat@),
        },
{
    let ghost s = v@.subrange(lo as int, hi as int);
    if pat.len() > hi - lo {
        assert forall|j: int| !matches_at(s, pat@, j) by {}
        return None;
    }
    let last = hi - pat.len();
    let mut i = lo;
    while i <= last
        invariant
            lo <= i,
            last + pat.len() == hi,
            hi <= v.len(),
            s == v@.subrange(lo as int, hi as int),
            forall|j: int| 0 <= j < i - lo ==> !matches_at(s, pat@, j),
        decreases last + 1 - i,
    {
        let mut k: usize = 0;
        let mut ok = true;
        while k < pat.len() && ok
            invariant
                k <= pat.len(),
                i + pat.len() <= hi <= v.len(),
                ok ==> forall|m: int| 0 <= m < k ==> v@[i + m] == pat@[m],
                !ok ==> k > 0 && v@[i + k - 1] != pat@[k - 1],
            decreases pat.len() - k + if ok { 1int } else { 0int },
        {
            if v[i + k] != pat[k] {
                ok = false;
            }
            k = k + 1;
        }
        if ok {
            proof {
                assert(s.subrange(i - lo, i - lo + pat@.len()) =~= pat@);
            }
            return Some(i);
        }
        proof {
            assert(s[i - lo + k - 1] == v@[i + k - 1]);
            assert(!matches_at(s, pat@, i - lo)) by {
                if matches_at(s, pat@, i - lo) {
                    assert(s.subrange(i - lo, i - lo + pat@.len())[k - 1] == pat@[k - 1]);
                }
            }
        }
        i = i + 1;
    }
    assert forall|j: int| !matches_at(s, pat@, j) by {}
    None
}


/// The words read so far from `s` and the word being read: a word is a
/// maximal run of non-whitespace characters.
pub open spec fn ws_scan(s: Seq<char>) -> (Seq<Seq<char>>, Seq<char>)
    decreases s.len(),
{
    if s.len() == 0 {
        (Seq::empty(), Seq::empty())
    } else {
        let (words, cur) = ws_scan(s.drop_last());
        if is_ws(s.last()) {
            if cur.len() > 0 {
                (words.push(cur), Seq::empty())
            } else {
                (words, cur)
            }
        } else {
            (words, cur.push(s.last()))
        }
    }
}

/// The whitespace-separated words of `s` (`str::split_whitespace`).
pub open spec fn split_ws(s: Seq<char>) -> Seq<Seq<char>> {
    let (words, cur) = ws_scan(s);
    if cur.len() > 0 {
        words.push(cur)
    } else {
        words
    }
}

/// The whitespace-separated words of `s`, in order.
pub fn split_whitespace(s: &str) -> (r: Vec<String>)
    ensures
        r@.map_values(|w: String| w@) == split_ws(s@),
{
    let v = to_chars(s);
    let mut words: Vec<String> = Vec::new();
    let mut cur = String::new();
    let mut nonempty = false;
    let mut i: usize = 0;
    assert(v@.take(0) =~= Seq::<char>::empty());
    assert(words@.map_values(|w: String| w@) =~= Seq::<Seq<char>>::empty());
    while i < v.len()
        invariant
            i <= v@.len(),
            v@ == s@,
            (words@.map_values(|w: String| w@), cur@) == ws_scan(v@.take(i as int)),
            nonempty == (cur@.len() > 0),
        decreases v@.len() - i,
    {
        let c = v[i];
        assert(v@.take(i + 1).drop_last() =~= v@.take(i as int));
        assert(v@.take(i + 1).last() == c);
        if is_whitespace(c) {
            if nonempty {
                let ghost before = words@;
                words.push(cur);
                assert(words@.map_values(|w: String| w@) =~= before.map_values(|w: String| w@).push(
                    ws_scan(v@.take(i as int)).1,
                ));
                cur = String::new();
                nonempty = false;
            }
        } else {
            push_char(&mut cur, c);
            nonempty = true;
        }
        i = i + 1;
    }
    assert(v@.take(v@.len() as int) =~= v@);
    if nonempty {
        let ghost before = words@;
        words.push(cur);
        assert(words@.map_values(|w: String| w@) =~= before.map_values(|w: String| w@).push(
            ws_scan(v@).1,
        ));
    }
    words
}


/// `s` without leading and trailing whitespace (`str::trim`).
pub fn trim_str(s: &str) -> (r: String)
    ensures
        r@ == trim(s@),
{
    let v = to_chars(s);
    let n = v.len();
    assert(v@.subrange(0, n as int) =~= v@);
    let (a, b) = trim_range(&v, 0, n);
    from_chars(&v, a, b)
}

} // verus!
