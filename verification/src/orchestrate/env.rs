//! `.env` file parsing and `${VARIABLE}` interpolation.
//!
//! Implements `${VARIABLE}`, `${VARIABLE:-default}`, `${VARIABLE:+value}`,
//! `$VARIABLE` and `$$` as used in Docker Compose YAML files.

use vstd::prelude::*;
use crate::strmap::{StrMap, seq_get, seq_has};
use crate::strs::{to_chars, from_chars, push_char, push_str};
use crate::text::{is_alphanumeric_char, is_ascii_alnum, matches_at, is_alphanumeric, replace_pair, trim, has_match, first_match, split_lines, find_in, trim_range, lemma_first_match_unique};

verus! {

// ============ .env parsing ============

/// The value of a `.env` assignment, from its trimmed raw text.
pub open spec fn spec_parse_value(raw: Seq<char>) -> Seq<char> {
    if raw.len() == 0 {
        raw
    } else if raw.len() >= 2 && raw[0] == '"' && raw.last() == '"' {
        replace_pair(
            replace_pair(raw.subrange(1, raw.len() - 1), '\\', 'n', '\n'),
            '\\',
            '"',
            '"',
        )
    } else if raw.len() >= 2 && raw[0] == '\'' && raw.last() == '\'' {
        raw.subrange(1, raw.len() - 1)
    } else if has_match(raw, seq![' ', '#']) {
        trim(raw.subrange(0, first_match(raw, seq![' ', '#'])))
    } else {
        raw
    }
}

/// Only a space followed by `#` starts an inline comment: an unquoted value
/// in which no `#` follows a space is taken whole, every `#` kept.
pub proof fn lemma_value_keeps_hash(raw: Seq<char>)
    requires
        !(raw.len() >= 2 && raw[0] == '"' && raw.last() == '"'),
        !(raw.len() >= 2 && raw[0] == '\'' && raw.last() == '\''),
        forall|i: int| 0 <= i < raw.len() - 1 ==> !(#[trigger] raw[i] == ' ' && raw[i + 1] == '#'),
    ensures
        spec_parse_value(raw) == raw,
{
    if has_match(raw, seq![' ', '#']) {
        let j = choose|j: int| matches_at(raw, seq![' ', '#'], j);
        assert(raw.subrange(j, j + 2)[0] == raw[j]);
        assert(raw.subrange(j, j + 2)[1] == raw[j + 1]);
        assert(raw[j] == ' ' && raw[j + 1] == '#');
    }
}

/// The `(key, value)` assignment of one `.env` line, if the line holds one:
/// comment lines, blank lines and lines without `=` hold none.
pub open spec fn line_entry(line: Seq<char>) -> Option<(Seq<char>, Seq<char>)> {
    let t = trim(line);
    if t.len() == 0 || t[0] == '#' {
        None
    } else if has_match(t, seq!['=']) {
        let p = first_match(t, seq!['=']);
        Some((trim(t.subrange(0, p)), spec_parse_value(trim(t.subrange(p + 1, t.len() as int)))))
    } else {
        None
    }
}

/// The assignments of a sequence of lines, in line order.
pub open spec fn dotenv_pairs(lines: Seq<Seq<char>>) -> Seq<(Seq<char>, Seq<char>)>
    decreases lines.len(),
{
    if lines.len() == 0 {
        Seq::empty()
    } else {
        let rest = dotenv_pairs(lines.drop_last());
        match line_entry(lines.last()) {
            Some(e) => rest.push(e),
            None => rest,
        }
    }
}

/// The value of the last assignment to `k` in `pairs`.
pub open spec fn last_value(pairs: Seq<(Seq<char>, Seq<char>)>, k: Seq<char>) -> Option<
    Seq<char>,
>
    decreases pairs.len(),
{
    if pairs.len() == 0 {
        None
    } else if pairs.last().0 == k {
        Some(pairs.last().1)
    } else {
        last_value(pairs.drop_last(), k)
    }
}

/// The assignments of a `.env` file's content, in order.
pub open spec fn spec_dotenv(content: Seq<char>) -> Seq<(Seq<char>, Seq<char>)> {
    dotenv_pairs(split_lines(content))
}

/// `m` maps each key to the value of its last assignment in `pairs`, and
/// holds no other key.
pub open spec fn map_of_pairs(m: StrMap<String>, pairs: Seq<(Seq<char>, Seq<char>)>) -> bool {
    &&& m.wf()
    &&& forall|k: Seq<char>|
        #[trigger] m.spec_get(k) is Some <==> last_value(pairs, k) is Some
    &&& forall|k: Seq<char>|
        #[trigger] m.spec_get(k) is Some ==> m.spec_get(k)->0@ == last_value(pairs, k)->0
}

pub proof fn lemma_map_push(
    m0: StrMap<String>,
    m1: StrMap<String>,
    prev: Seq<(Seq<char>, Seq<char>)>,
    key: Seq<char>,
    val: Seq<char>,
)
    requires
        map_of_pairs(m0, prev),
        m1.wf(),
        forall|k: Seq<char>|
            #[trigger] seq_get(m1@, k) == if k == key {
                Some(seq_get(m1@, key)->0)
            } else {
                seq_get(m0@, k)
            },
        seq_get(m1@, key) is Some,
        seq_get(m1@, key)->0@ == val,
    ensures
        map_of_pairs(m1, prev.push((key, val))),
{
    let pairs = prev.push((key, val));
    assert(pairs.drop_last() =~= prev);
    assert forall|k: Seq<char>| #[trigger] m1.spec_get(k) is Some <==> last_value(pairs, k) is Some by {
        assert(seq_get(m1@, k) == m1.spec_get(k));
        assert(seq_get(m0@, k) == m0.spec_get(k));
    }
    assert forall|k: Seq<char>| #[trigger] m1.spec_get(k) is Some implies m1.spec_get(k)->0@
        == last_value(pairs, k)->0 by {
        assert(seq_get(m1@, k) == m1.spec_get(k));
        assert(seq_get(m0@, k) == m0.spec_get(k));
    }
}

fn replace_pair_in(v: &Vec<char>, lo: usize, hi: usize, a: char, b: char, c: char) -> (r: Vec<
    char,
>)
    requires
        lo <= hi <= v.len(),
    ensures
        r@ == replace_pair(v@.subrange(lo as int, hi as int), a, b, c),
{
    let mut out: Vec<char> = Vec::new();
    let mut i = lo;
    while i < hi
        invariant
            lo <= i <= hi <= v.len(),
            out@ + replace_pair(v@.subrange(i as int, hi as int), a, b, c) == replace_pair(
                v@.subrange(lo as int, hi as int),
                a,
                b,
                c,
            ),
        decreases hi - i,
    {
        let ghost s = v@.subrange(i as int, hi as int);
        if i + 1 < hi && v[i] == a && v[i + 1] == b {
            assert(s.skip(2) =~= v@.subrange(i + 2, hi as int));
            out.push(c);
            i = i + 2;
            assert(out@ + replace_pair(v@.subrange(i as int, hi as int), a, b, c) =~= out@.drop_last()
                + (seq![c] + replace_pair(s.skip(2), a, b, c)));
        } else {
            assert(s.drop_first() =~= v@.subrange(i + 1, hi as int));
            out.push(v[i]);
            i = i + 1;
            assert(out@ + replace_pair(v@.subrange(i as int, hi as int), a, b, c) =~= out@.drop_last()
                + (seq![s[0]] + replace_pair(s.drop_first(), a, b, c)));
        }
    }
    assert(v@.subrange(i as int, hi as int) =~= Seq::<char>::empty());
    assert(out@ =~= out@ + replace_pair(Seq::<char>::empty(), a, b, c));
    out
}

/// The value of a `.env` assignment from its (trimmed) raw text: quotes are
/// removed, `\n` and `\"` are unescaped inside double quotes, and an inline
/// ` #` comment is stripped from an unquoted value.
pub fn parse_value(raw: &str) -> (r: String)
    ensures
        r@ == spec_parse_value(raw@),
{
    let v = to_chars(raw);
    let n = v.len();
    if n == 0 {
        return String::new();
    }
    if n >= 2 && v[0] == '"' && v[n - 1] == '"' {
        let once = replace_pair_in(&v, 1, n - 1, '\\', 'n', '\n');
        let twice = replace_pair_in(&once, 0, once.len(), '\\', '"', '"');
        assert(once@.subrange(0, once@.len() as int) =~= once@);
        return from_chars(&twice, 0, twice.len());
    }
    if n >= 2 && v[0] == '\'' && v[n - 1] == '\'' {
        return from_chars(&v, 1, n - 1);
    }
    let pat = vec![' ', '#'];
    assert(pat@ =~= seq![' ', '#']);
    assert(v@.subrange(0, n as int) =~= v@);
    match find_in(&v, 0, n, &pat) {
        Some(pos) => {
            proof {
                lemma_first_match_unique(v@, pat@, pos as int);
            }
            let (a, b) = trim_range(&v, 0, pos);
            from_chars(&v, a, b)
        },
        None => from_chars(&v, 0, n),
    }
}

/// The assignment held by the line `v[lo..hi]`, if any.
fn line_entry_in(v: &Vec<char>, lo: usize, hi: usize) -> (r: Option<(String, String)>)
    requires
        lo <= hi <= v.len(),
    ensures
        match r {
            Some(e) => line_entry(v@.subrange(lo as int, hi as int)) == Some((e.0@, e.1@)),
            None => line_entry(v@.subrange(lo as int, hi as int)) is None,
        },
{
    let (a, b) = trim_range(v, lo, hi);
    let ghost t = v@.subrange(a as int, b as int);
    if a == b || v[a] == '#' {
        return None;
    }
    let eq = vec!['='];
    assert(eq@ =~= seq!['=']);
    match find_in(v, a, b, &eq) {
        Some(p) => {
            proof {
                lemma_first_match_unique(t, eq@, p - a);
                assert(t.subrange(0, p - a) =~= v@.subrange(a as int, p as int));
                assert(t.subrange(p - a + 1, t.len() as int) =~= v@.subrange(p + 1, b as int));
            }
            let (ka, kb) = trim_range(v, a, p);
            let (va, vb) = trim_range(v, p + 1, b);
            let key = from_chars(v, ka, kb);
            let raw = from_chars(v, va, vb);
            let val = parse_value(raw.as_str());
            Some((key, val))
        },
        None => None,
    }
}

/// Parses a `.env` file into a key→value map.
///
/// Lines starting with `#` are comments, blank lines are skipped, each other
/// line `KEY=VALUE`, `KEY="VALUE"` or `KEY='VALUE'` assigns `KEY`, and an
/// inline ` #` comment after an unquoted value is stripped. A later
/// assignment to a key overrides an earlier one.
pub fn parse_dotenv(content: &str) -> (map: StrMap<String>)
    ensures
        map_of_pairs(map, spec_dotenv(content@)),
{
    let v = to_chars(content);
    let n = v.len();
    let mut map: StrMap<String> = StrMap::new();
    let mut start: usize = 0;
    let mut i: usize = 0;
    let ghost mut done_lines: Seq<Seq<char>> = Seq::empty();
    assert(v@.subrange(0, 0) =~= Seq::<char>::empty());
    while i < n
        invariant
            n == v@.len(),
            v@ == content@,
            start <= i <= n,
            split_lines(v@.subrange(0, i as int)) == done_lines.push(
                v@.subrange(start as int, i as int),
            ),
            map_of_pairs(map, dotenv_pairs(done_lines)),
        decreases n - i,
    {
        let ghost prev = v@.subrange(0, i as int);
        assert(v@.subrange(0, i + 1).drop_last() =~= prev);
        if v[i] == '\n' {
            let entry = line_entry_in(&v, start, i);
            proof {
                let line = v@.subrange(start as int, i as int);
                assert(dotenv_pairs(done_lines.push(line)).len() >= 0);
                assert(done_lines.push(line).drop_last() =~= done_lines);
            }
            let ghost old_map = map;
            let ghost line = v@.subrange(start as int, i as int);
            match entry {
                Some(e) => {
                    let (key, val) = e;
                    let ghost kv = key@;
                    let ghost vv = val@;
                    map.insert(key, val);
                    proof {
                        let pairs = dotenv_pairs(done_lines.push(line));
                        assert(pairs == dotenv_pairs(done_lines).push((kv, vv)));
                        lemma_map_push(old_map, map, dotenv_pairs(done_lines), kv, vv);
                    }
                },
                None => {
                    proof {
                        assert(dotenv_pairs(done_lines.push(line)) == dotenv_pairs(done_lines));
                    }
                },
            }
            proof {
                done_lines = done_lines.push(line);
            }
            start = i + 1;
            i = i + 1;
            assert(v@.subrange(start as int, i as int) =~= Seq::<char>::empty());
        } else {
            proof {
                let l = v@.subrange(start as int, i as int);
                assert(l.push(v@[i as int]) =~= v@.subrange(start as int, i + 1));
                assert(split_lines(prev).last() == l);
            }
            i = i + 1;
            assert(done_lines.push(v@.subrange(start as int, i as int)) =~= done_lines.push(
                v@.subrange(start as int, i - 1),
            ).update(done_lines.len() as int, v@.subrange(start as int, i - 1).push(v@[i - 1])));
        }
    }
    let entry = line_entry_in(&v, start, n);
    let ghost line = v@.subrange(start as int, n as int);
    assert(v@.subrange(0, n as int) =~= v@);
    proof {
        assert(done_lines.push(line).drop_last() =~= done_lines);
    }
    let ghost old_map = map;
    match entry {
        Some(e) => {
            let (key, val) = e;
            let ghost kv = key@;
            let ghost vv = val@;
            map.insert(key, val);
            proof {
                let pairs = dotenv_pairs(done_lines.push(line));
                assert(pairs == dotenv_pairs(done_lines).push((kv, vv)));
                lemma_map_push(old_map, map, dotenv_pairs(done_lines), kv, vv);
            }
        },
        None => {
            proof {
                assert(dotenv_pairs(done_lines.push(line)) == dotenv_pairs(done_lines));
            }
        },
    }
    map
}

} // verus!

verus! {

// ============ interpolation ============

/// A character that may continue a `$NAME` reference.
/// (`char::is_alphanumeric` or `_`; among ASCII characters, exactly the
/// letters, the digits and `_`).
pub open spec fn is_var_char(c: char) -> bool {
    if (c as u32) < 0x80 {
        is_ascii_alnum(c) || c == '_'
    } else {
        is_alphanumeric_char(c)
    }
}

/// The value of `name`: from `env` when it holds `name`, else from the
/// process environment `process`, else the empty string.
pub open spec fn lookup_value(
    env: Seq<(Seq<char>, String)>,
    process: Seq<(Seq<char>, String)>,
    name: Seq<char>,
) -> Seq<char> {
    match seq_get(env, name) {
        Some(v) => v@,
        None => match seq_get(process, name) {
            Some(v) => v@,
            None => Seq::empty(),
        },
    }
}

/// The expansion of the text between `${` and `}`.
pub open spec fn spec_expand(
    expr: Seq<char>,
    env: Seq<(Seq<char>, String)>,
    process: Seq<(Seq<char>, String)>,
) -> Seq<char> {
    if has_match(expr, seq![':', '-']) {
        let p = first_match(expr, seq![':', '-']);
        let val = lookup_value(env, process, expr.subrange(0, p));
        if val.len() == 0 {
            expr.subrange(p + 2, expr.len() as int)
        } else {
            val
        }
    } else if has_match(expr, seq![':', '+']) {
        let p = first_match(expr, seq![':', '+']);
        if lookup_value(env, process, expr.subrange(0, p)).len() != 0 {
            expr.subrange(p + 2, expr.len() as int)
        } else {
            Seq::empty()
        }
    } else {
        lookup_value(env, process, expr)
    }
}

/// The text read after `${` up to the `}` that closes it (braces nest),
/// or to the end of `t`; `depth` counts the open braces.
pub open spec fn close_expr(t: Seq<char>, depth: nat) -> Seq<char>
    decreases t.len(),
{
    if t.len() == 0 {
        Seq::empty()
    } else if t[0] == '}' && depth <= 1 {
        Seq::empty()
    } else {
        let d = if t[0] == '{' {
            depth + 1
        } else if t[0] == '}' {
            (depth - 1) as nat
        } else {
            depth
        };
        seq![t[0]] + close_expr(t.drop_first(), d)
    }
}

/// The number of characters of `t` consumed by reading the braced expression,
/// the closing `}` included.
pub open spec fn close_len(t: Seq<char>, depth: nat) -> nat
    decreases t.len(),
{
    if t.len() == 0 {
        0
    } else if t[0] == '}' && depth <= 1 {
        1
    } else {
        let d = if t[0] == '{' {
            depth + 1
        } else if t[0] == '}' {
            (depth - 1) as nat
        } else {
            depth
        };
        1 + close_len(t.drop_first(), d)
    }
}

/// The consumed length never exceeds the text.
pub proof fn lemma_close_len_bound(t: Seq<char>, depth: nat)
    ensures
        close_len(t, depth) <= t.len(),
    decreases t.len(),
{
    if t.len() > 0 && !(t[0] == '}' && depth <= 1) {
        let d = if t[0] == '{' {
            depth + 1
        } else if t[0] == '}' {
            (depth - 1) as nat
        } else {
            depth
        };
        lemma_close_len_bound(t.drop_first(), d);
    }
}

/// The length of the run of name characters that starts `t`.
pub open spec fn plain_len(t: Seq<char>) -> nat
    decreases t.len(),
{
    if t.len() > 0 && is_var_char(t[0]) {
        1 + plain_len(t.drop_first())
    } else {
        0
    }
}

/// The run never exceeds the text.
pub proof fn lemma_plain_len_bound(t: Seq<char>)
    ensures
        plain_len(t) <= t.len(),
    decreases t.len(),
{
    if t.len() > 0 && is_var_char(t[0]) {
        lemma_plain_len_bound(t.drop_first());
    }
}

/// The result of interpolating the text `s` with `env`: `${...}` is expanded,
/// `$$` gives `$`, `$NAME` gives the value of `NAME`, and any other `$`
/// stands for itself.
pub open spec fn spec_interpolate(
    s: Seq<char>,
    env: Seq<(Seq<char>, String)>,
    process: Seq<(Seq<char>, String)>,
) -> Seq<char>
    decreases s.len(),
{
    if s.len() == 0 {
        s
    } else if s[0] != '$' {
        seq![s[0]] + spec_interpolate(s.drop_first(), env, process)
    } else if s.len() == 1 {
        seq!['$']
    } else if s[1] == '{' {
        let t = s.skip(2);
        proof {
            lemma_close_len_bound(t, 1);
        }
        spec_expand(close_expr(t, 1), env, process) + spec_interpolate(t.skip(close_len(t, 1) as int), env, process)
    } else if s[1] == '$' {
        seq!['$'] + spec_interpolate(s.skip(2), env, process)
    } else if is_var_char(s[1]) {
        let t = s.drop_first();
        proof {
            lemma_plain_len_bound(t);
        }
        let n = plain_len(t);
        lookup_value(env, process, t.subrange(0, n as int)) + spec_interpolate(t.skip(n as int), env, process)
    } else {
        seq!['$'] + spec_interpolate(s.drop_first(), env, process)
    }
}

/// Reads the braced expression that starts at `v[start]` (just after `${`),
/// returning it and the index just past its closing `}`.
fn read_until_close(v: &Vec<char>, start: usize) -> (r: (String, usize))
    requires
        start <= v.len(),
    ensures
        r.0@ == close_expr(v@.skip(start as int), 1),
        r.1 == start + close_len(v@.skip(start as int), 1),
        r.1 <= v.len(),
{
    let n = v.len();
    let mut expr = String::new();
    let mut depth: u128 = 1;
    let mut i = start;
    let mut closed = false;
    proof {
        lemma_close_len_bound(v@.skip(start as int), 1);
    }
    while i < n && !closed
        invariant
            start <= i <= n,
            n == v.len(),
            1 <= depth <= i - start + 1,
            !closed ==> expr@ + close_expr(v@.skip(i as int), depth as nat) == close_expr(
                v@.skip(start as int),
                1,
            ),
            !closed ==> i + close_len(v@.skip(i as int), depth as nat) == start + close_len(
                v@.skip(start as int),
                1,
            ),
            closed ==> expr@ == close_expr(v@.skip(start as int), 1),
            closed ==> i == start + close_len(v@.skip(start as int), 1),
        decreases n - i + if closed { 0int } else { 1int },
    {
        let ghost t = v@.skip(i as int);
        assert(t.drop_first() =~= v@.skip(i + 1));
        let c = v[i];
        if c == '}' && depth == 1 {
            closed = true;
            i = i + 1;
        } else {
            if c == '{' {
                depth = depth + 1;
            } else if c == '}' {
                depth = depth - 1;
            }
            push_char(&mut expr, c);
            i = i + 1;
            assert(expr@ + close_expr(v@.skip(i as int), depth as nat) =~= expr@.drop_last() + (
            seq![c] + close_expr(t.drop_first(), depth as nat)));
        }
    }
    if !closed {
        assert(v@.skip(i as int) =~= Seq::<char>::empty());
        assert(expr@ =~= expr@ + close_expr(v@.skip(i as int), depth as nat));
    }
    (expr, i)
}

/// Reads the `$NAME` reference whose first name character is `v[start]`,
/// returning the name and the index just past it.
fn read_plain_var(v: &Vec<char>, start: usize) -> (r: (String, usize))
    requires
        start <= v.len(),
    ensures
        r.1 == start + plain_len(v@.skip(start as int)),
        r.1 <= v.len(),
        r.0@ == v@.subrange(start as int, r.1 as int),
{
    let n = v.len();
    let mut i = start;
    let mut stop = false;
    proof {
        lemma_plain_len_bound(v@.skip(start as int));
    }
    while i < n && !stop
        invariant
            start <= i <= n,
            n == v.len(),
            !stop ==> i + plain_len(v@.skip(i as int)) == start + plain_len(v@.skip(start as int)),
            stop ==> i == start + plain_len(v@.skip(start as int)),
        decreases n - i + if stop { 0int } else { 1int },
    {
        assert(v@.skip(i as int).drop_first() =~= v@.skip(i + 1));
        if is_alphanumeric(v[i]) || v[i] == '_' {
            i = i + 1;
        } else {
            stop = true;
        }
    }
    if !stop {
        assert(v@.skip(i as int) =~= Seq::<char>::empty());
    }
    let name = from_chars(v, start, i);
    (name, i)
}

/// The value of `name` in `env`, or the empty string when it is absent.
fn lookup(name: &str, env: &StrMap<String>, process: &StrMap<String>) -> (r: String)
    ensures
        r@ == lookup_value(env@, process@, name@),
{
    match env.get(name) {
        Some(v) => v.clone(),
        None => match process.get(name) {
            Some(v) => v.clone(),
            None => String::new(),
        },
    }
}

/// Expands the text of a `${...}` reference: `VAR`, `VAR:-default` (the
/// default when `VAR` is empty or unset) or `VAR:+value` (the value when
/// `VAR` is set and non-empty, otherwise nothing).
fn expand_expr(expr: &str, env: &StrMap<String>, process: &StrMap<String>) -> (r: String)
    ensures
        r@ == spec_expand(expr@, env@, process@),
{
    let v = to_chars(expr);
    let n = v.len();
    assert(v@.subrange(0, n as int) =~= v@);
    let dash = vec![':', '-'];
    assert(dash@ =~= seq![':', '-']);
    match find_in(&v, 0, n, &dash) {
        Some(pos) => {
            proof {
                lemma_first_match_unique(v@, dash@, pos as int);
            }
            let name = from_chars(&v, 0, pos);
            let val = lookup(name.as_str(), env, process);
            if val.unicode_len() == 0 {
                return from_chars(&v, pos + 2, n);
            }
            return val;
        },
        None => {},
    }
    let plus = vec![':', '+'];
    assert(plus@ =~= seq![':', '+']);
    match find_in(&v, 0, n, &plus) {
        Some(pos) => {
            proof {
                lemma_first_match_unique(v@, plus@, pos as int);
            }
            let name = from_chars(&v, 0, pos);
            let val = lookup(name.as_str(), env, process);
            if val.unicode_len() != 0 {
                return from_chars(&v, pos + 2, n);
            }
            String::new()
        },
        None => lookup(expr, env, process),
    }
}

/// Expands `${VAR}`, `${VAR:-default}`, `${VAR:+value}`, `$VAR` and `$$`
/// in `input`, looking variables up in `env` and then in the process
/// environment `process`; a variable set in neither expands to the empty
/// string.
pub fn interpolate(input: &str, env: &StrMap<String>, process: &StrMap<String>) -> (r: String)
    ensures
        r@ == spec_interpolate(input@, env@, process@),
{
    let v = to_chars(input);
    let n = v.len();
    let mut out = String::new();
    let mut i: usize = 0;
    assert(v@.skip(0) =~= v@);
    while i < n
        invariant
            i <= n,
            n == v.len(),
            v@ == input@,
            out@ + spec_interpolate(v@.skip(i as int), env@, process@) == spec_interpolate(input@, env@, process@),
        decreases n - i,
    {
        let ghost s = v@.skip(i as int);
        let c = v[i];
        if c != '$' {
            assert(s.drop_first() =~= v@.skip(i + 1));
            push_char(&mut out, c);
            i = i + 1;
            assert(out@ + spec_interpolate(v@.skip(i as int), env@, process@) =~= out@.drop_last() + (seq![c]
                + spec_interpolate(s.drop_first(), env@, process@)));
        } else if i + 1 == n {
            push_char(&mut out, '$');
            i = i + 1;
            assert(v@.skip(i as int) =~= Seq::<char>::empty());
            assert(out@ =~= out@.drop_last() + seq!['$']);
        } else if v[i + 1] == '{' {
            let ghost t = s.skip(2);
            assert(t =~= v@.skip(i + 2));
            let (expr, j) = read_until_close(&v, i + 2);
            let expanded = expand_expr(expr.as_str(), env, process);
            let ghost before = out@;
            push_str(&mut out, expanded.as_str());
            assert(t.skip(close_len(t, 1) as int) =~= v@.skip(j as int));
            i = j;
            assert(out@ + spec_interpolate(v@.skip(i as int), env@, process@) =~= before + (expanded@
                + spec_interpolate(t.skip(close_len(t, 1) as int), env@, process@)));
        } else if v[i + 1] == '$' {
            assert(s.skip(2) =~= v@.skip(i + 2));
            push_char(&mut out, '$');
            i = i + 2;
            assert(out@ + spec_interpolate(v@.skip(i as int), env@, process@) =~= out@.drop_last() + (seq!['$']
                + spec_interpolate(s.skip(2), env@, process@)));
        } else if is_alphanumeric(v[i + 1]) || v[i + 1] == '_' {
            let ghost t = s.drop_first();
            assert(t =~= v@.skip(i + 1));
            let (name, j) = read_plain_var(&v, i + 1);
            let val = lookup(name.as_str(), env, process);
            let ghost before = out@;
            push_str(&mut out, val.as_str());
            assert(t.subrange(0, plain_len(t) as int) =~= name@);
            assert(t.skip(plain_len(t) as int) =~= v@.skip(j as int));
            i = j;
            assert(out@ + spec_interpolate(v@.skip(i as int), env@, process@) =~= before + (val@
                + spec_interpolate(t.skip(plain_len(t) as int), env@, process@)));
        } else {
            assert(s.drop_first() =~= v@.skip(i + 1));
            push_char(&mut out, '$');
            i = i + 1;
            assert(out@ + spec_interpolate(v@.skip(i as int), env@, process@) =~= out@.drop_last() + (seq!['$']
                + spec_interpolate(s.drop_first(), env@, process@)));
        }
    }
    assert(v@.skip(n as int) =~= Seq::<char>::empty());
    assert(out@ =~= out@ + spec_interpolate(Seq::<char>::empty(), env@, process@));
    out
}

/// A text without `$` comes back unchanged from interpolation, whatever
/// the variables.
pub proof fn lemma_interpolate_without_dollar(
    s: Seq<char>,
    env: Seq<(Seq<char>, String)>,
    process: Seq<(Seq<char>, String)>,
)
    requires
        !s.contains('$'),
    ensures
        spec_interpolate(s, env, process) == s,
    decreases s.len(),
{
    if s.len() > 0 {
        assert(s[0] != '$');
        assert(!s.drop_first().contains('$')) by {
            if s.drop_first().contains('$') {
                let j = choose|j: int| 0 <= j < s.drop_first().len() && s.drop_first()[j] == '$';
                assert(s[j + 1] == '$');
            }
        }
        lemma_interpolate_without_dollar(s.drop_first(), env, process);
        assert(seq![s[0]] + s.drop_first() =~= s);
    }
}

proof fn lemma_plain_len_of_name(n: Seq<char>, rest: Seq<char>)
    requires
        forall|i: int| 0 <= i < n.len() ==> is_ascii_alnum(#[trigger] n[i]) || n[i] == '_',
        rest.len() > 0 ==> ((rest[0] as u32) < 0x80 && !is_ascii_alnum(rest[0]) && rest[0] != '_'),
    ensures
        plain_len(n + rest) == n.len(),
    decreases n.len(),
{
    if n.len() > 0 {
        assert((n + rest)[0] == n[0]);
        assert((n + rest).drop_first() =~= n.drop_first() + rest);
        assert forall|i: int| 0 <= i < n.drop_first().len() implies is_ascii_alnum(#[trigger] n.drop_first()[i])
            || n.drop_first()[i] == '_' by {
            assert(n.drop_first()[i] == n[i + 1]);
        }
        lemma_plain_len_of_name(n.drop_first(), rest);
    } else {
        assert(n + rest =~= rest);
    }
}

/// `$NAME` reads the whole name: for a name of ASCII letters, digits and
/// `_`, followed by nothing or by an ASCII character that is none of these,
/// `$NAME` gives the name's value (from `env`, else `process`, else empty)
/// and the rest is interpolated on; a name set in `env` to `v` gives `v`.
pub proof fn lemma_plain_reference(
    n: Seq<char>,
    rest: Seq<char>,
    env: Seq<(Seq<char>, String)>,
    process: Seq<(Seq<char>, String)>,
)
    requires
        n.len() > 0,
        forall|i: int| 0 <= i < n.len() ==> is_ascii_alnum(#[trigger] n[i]) || n[i] == '_',
        rest.len() > 0 ==> ((rest[0] as u32) < 0x80 && !is_ascii_alnum(rest[0]) && rest[0] != '_'),
    ensures
        spec_interpolate(seq!['$'] + n + rest, env, process) == lookup_value(env, process, n) + spec_interpolate(
            rest,
            env,
            process,
        ),
        seq_get(env, n) matches Some(v) ==> spec_interpolate(seq!['$'] + n + rest, env, process) == v@
            + spec_interpolate(rest, env, process),
{
    let s = seq!['$'] + n + rest;
    let t = s.drop_first();
    assert(t =~= n + rest);
    assert(s[0] == '$');
    assert(s[1] == n[0]);
    assert(is_ascii_alnum(n[0]) || n[0] == '_');
    lemma_plain_len_of_name(n, rest);
    assert(t.subrange(0, n.len() as int) =~= n);
    assert(t.skip(n.len() as int) =~= rest);
}

/// The value of `k` in a project's environment: from the last `--env-file`
/// that sets it, else from the process environment, else from the
/// directory's `.env` file.
pub open spec fn env_value(
    process: Seq<(Seq<char>, String)>,
    default_env: Option<StrMap<String>>,
    files: Seq<StrMap<String>>,
    k: Seq<char>,
) -> Option<String>
    decreases files.len(),
{
    if files.len() > 0 {
        if seq_has(files.last()@, k) {
            seq_get(files.last()@, k)
        } else {
            env_value(process, default_env, files.drop_last(), k)
        }
    } else if seq_has(process, k) {
        seq_get(process, k)
    } else {
        match default_env {
            Some(d) => seq_get(d@, k),
            None => None,
        }
    }
}

/// A project's environment: the process environment, the `.env` file's
/// entries for names the process does not set, then each `--env-file` in
/// order, overriding what is set.
pub fn project_env(process: StrMap<String>, default_env: Option<StrMap<String>>, env_files: Vec<StrMap<String>>) -> (r: StrMap<String>)
    ensures
        forall|k: Seq<char>| #[trigger] seq_get(r@, k) == env_value(process@, default_env, env_files@, k),
{
    let ghost p = process@;
    let ghost d = default_env;
    let ghost files = env_files@;
    let mut env = process;
    match default_env {
        Some(m) => env.extend_missing(m),
        None => {},
    }
    let n = env_files.len();
    let mut rest = env_files;
    let mut i: usize = 0;
    assert(files.take(0) =~= Seq::<StrMap<String>>::empty());
    assert(rest@ =~= files.skip(0));
    while rest.len() > 0
        invariant
            i <= files.len(),
            files.len() == n,
            rest@ == files.skip(i as int),
            forall|k: Seq<char>| #[trigger] seq_get(env@, k) == env_value(p, d, files.take(i as int), k),
        decreases rest@.len(),
    {
        let ghost rv = rest@;
        let m = rest.remove(0);
        proof {
            assert(m == files[i as int]);
            assert(rest@ =~= files.skip(i + 1));
            assert(files.take(i + 1).drop_last() =~= files.take(i as int));
            assert(files.take(i + 1).last() == files[i as int]);
        }
        let ghost mv = m@;
        env.extend(m);
        proof {
            assert forall|k: Seq<char>| #[trigger] seq_get(env@, k) == env_value(p, d, files.take(i + 1), k) by {
                assert(files.take(i + 1).len() > 0);
            }
        }
        i = i + 1;
    }
    assert(files.take(i as int) =~= files);
    env
}

} // verus!
