//! Interpolation of `${VAR}`, `${VAR:-default}` and `${VAR:+value}`
//! references whose names are upper-case letters, digits and `_`.

use vstd::prelude::*;
use regex::Regex;
use crate::strmap::{StrMap, seq_get};
use crate::strs::{str_eq, push_str};
use crate::text::has_match;

verus! {

/// The text a reference expands to, given the variable's name, its operator
/// (`-` or `+`, when given) and the operand after it: with the variable
/// set, `:+` gives the operand and anything else the variable's value;
/// with it unset, `:-` gives the operand and anything else nothing.
pub open spec fn spec_expand_capture(
    var: Seq<char>,
    op: Option<Seq<char>>,
    val: Seq<char>,
    env: Seq<(Seq<char>, String)>,
) -> Seq<char> {
    match seq_get(env, var) {
        Some(v) => if op == Some("+"@) {
            val
        } else {
            v@
        },
        None => if op == Some("-"@) {
            val
        } else {
            Seq::empty()
        },
    }
}

/// The expansion of one matched reference.
pub fn expand_capture(var: &str, op: Option<&str>, val: &str, env: &StrMap<String>) -> (r: String)
    ensures
        r@ == spec_expand_capture(
            var@,
            match op {
                Some(o) => Some(o@),
                None => None,
            },
            val@,
            env@,
        ),
{
    let plus = match op {
        Some(o) => str_eq(o, "+"),
        None => false,
    };
    let minus = match op {
        Some(o) => str_eq(o, "-"),
        None => false,
    };
    match env.get(var) {
        Some(v) => if plus {
            val.to_owned()
        } else {
            v.clone()
        },
        None => if minus {
            val.to_owned()
        } else {
            String::new()
        },
    }
}

/// One match of the reference pattern
/// `\$\{(?P<var>[A-Z0-9_]+)(?::(?P<op>[-+])(?P<val>[^}]*))?\}`, with the
/// text between the previous match (or the start) and this one.
#[derive(Debug, Clone)]
pub struct BracedRef {
    /// The text before the match.
    pub before: String,
    /// The matched text.
    pub whole: String,
    pub var: String,
    pub op: Option<String>,
    /// The operand (empty when there is no operator).
    pub val: String,
}

/// A match by the texts of its parts.
pub open spec fn ref_view(r: BracedRef) -> (Seq<char>, Seq<char>, Seq<char>, Option<Seq<char>>, Seq<char>) {
    (
        r.before@,
        r.whole@,
        r.var@,
        match r.op {
            Some(o) => Some(o@),
            None => None,
        },
        r.val@,
    )
}

/// The matches of the reference pattern in `text`, left to right and
/// without overlap, each with the text before it, and the text after the
/// last one.
pub uninterp spec fn braced_refs_of(text: Seq<char>) -> (
    Seq<(Seq<char>, Seq<char>, Seq<char>, Option<Seq<char>>, Seq<char>)>,
    Seq<char>,
);

/// The texts before and of each match, one after another.
pub open spec fn joined_refs(refs: Seq<(Seq<char>, Seq<char>, Seq<char>, Option<Seq<char>>, Seq<char>)>) -> Seq<char>
    decreases refs.len(),
{
    if refs.len() == 0 {
        Seq::empty()
    } else {
        joined_refs(refs.drop_last()) + refs.last().0 + refs.last().1
    }
}

/// The texts before each match, each followed by the match's expansion in `env`.
pub open spec fn expanded_refs(
    refs: Seq<(Seq<char>, Seq<char>, Seq<char>, Option<Seq<char>>, Seq<char>)>,
    env: Seq<(Seq<char>, String)>,
) -> Seq<char>
    decreases refs.len(),
{
    if refs.len() == 0 {
        Seq::empty()
    } else {
        let r = refs.last();
        expanded_refs(refs.drop_last(), env) + r.0 + spec_expand_capture(r.2, r.3, r.4, env)
    }
}

/// The matches of the reference pattern in `text` (`regex::Regex::captures_iter`,
/// which yields successive non-overlapping matches left to right), each with
/// its groups and the text before it, and the text after the last. The
/// contract names the result and states the documented facts: the pieces
/// put back together give `text`, and a text without `${` has no match.
#[verifier::external_body]
fn find_braced_refs(text: &str) -> (r: (Vec<BracedRef>, String))
    ensures
        r.0@.map_values(|x: BracedRef| ref_view(x)) == braced_refs_of(text@).0,
        r.1@ == braced_refs_of(text@).1,
        joined_refs(r.0@.map_values(|x: BracedRef| ref_view(x))) + r.1@ == text@,
        !has_match(text@, "${"@) ==> r.0@.len() == 0,
{
    let re = Regex::new(r"\$\{(?P<var>[A-Z0-9_]+)(?::(?P<op>[-+])(?P<val>[^}]*))?\}").unwrap();
    let mut refs = Vec::new();
    let mut last: usize = 0;
    for caps in re.captures_iter(text) {
        let m = caps.get(0).unwrap();
        let var = caps.name("var").map_or("", |x| x.as_str()).to_string();
        let op = caps.name("op").map(|x| x.as_str().to_string());
        let val = caps.name("val").map_or("", |x| x.as_str()).to_string();
        refs.push(BracedRef { before: text[last..m.start()].to_string(), whole: m.as_str().to_string(), var, op, val });
        last = m.end();
    }
    (refs, text[last..].to_string())
}

/// Interpolates the `${VAR}`, `${VAR:-default}` and `${VAR:+value}`
/// references of `text` from `env`: each match is replaced by its
/// expansion, and the text around the matches is kept.
pub fn interpolate(text: &str, env: &StrMap<String>) -> (r: String)
    ensures
        r@ == expanded_refs(braced_refs_of(text@).0, env@) + braced_refs_of(text@).1,
        !has_match(text@, "${"@) ==> r@ == text@,
{
    let (refs, tail) = find_braced_refs(text);
    let ghost rv = braced_refs_of(text@).0;
    let mut out = String::new();
    let mut i: usize = 0;
    assert(rv.take(0) =~= Seq::<(Seq<char>, Seq<char>, Seq<char>, Option<Seq<char>>, Seq<char>)>::empty());
    while i < refs.len()
        invariant
            i <= refs@.len(),
            refs@.map_values(|x: BracedRef| ref_view(x)) == rv,
            out@ == expanded_refs(rv.take(i as int), env@),
        decreases refs@.len() - i,
    {
        let r = &refs[i];
        push_str(&mut out, r.before.as_str());
        let op: Option<&str> = match &r.op {
            Some(o) => Some(o.as_str()),
            None => None,
        };
        let e = expand_capture(r.var.as_str(), op, r.val.as_str(), env);
        push_str(&mut out, e.as_str());
        proof {
            assert(rv[i as int] == ref_view(refs@[i as int]));
            assert(rv.take(i + 1).drop_last() =~= rv.take(i as int));
            assert(rv.take(i + 1).last() == rv[i as int]);
        }
        i = i + 1;
    }
    assert(rv.take(refs@.len() as int) =~= rv);
    push_str(&mut out, tail.as_str());
    proof {
        if !has_match(text@, "${"@) {
            assert(refs@.len() == 0);
            assert(rv.len() == 0);
            assert(joined_refs(rv) == Seq::<char>::empty());
            assert(joined_refs(rv) + tail@ == text@);
            assert(expanded_refs(rv, env@) == Seq::<char>::empty());
            assert(Seq::<char>::empty() + braced_refs_of(text@).1 =~= braced_refs_of(text@).1);
        }
    }
    out
}

} // verus!
