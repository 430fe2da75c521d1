//! Building command-line argument lists: the specification of flag runs,
//! `KEY=VALUE` runs, joined words and decimal numbers, with the executable
//! helpers that append them.

use vstd::prelude::*;
use crate::strmap::StrMap;
use crate::strs::{push_char, push_str};

verus! {

/// The texts of a list of strings.
pub open spec fn views(v: Seq<String>) -> Seq<Seq<char>> {
    v.map_values(|s: String| s@)
}

/// `flag item` for each item, in order.
pub open spec fn flag_each(flag: Seq<char>, items: Seq<Seq<char>>) -> Seq<Seq<char>>
    decreases items.len(),
{
    if items.len() == 0 {
        Seq::empty()
    } else {
        flag_each(flag, items.drop_last()) + seq![flag, items.last()]
    }
}

/// `k=v`.
pub open spec fn kv_text(k: Seq<char>, v: Seq<char>) -> Seq<char> {
    k + "="@ + v
}

/// `flag k=v` for each entry, in order.
pub open spec fn flag_kv(flag: Seq<char>, m: Seq<(Seq<char>, String)>) -> Seq<Seq<char>>
    decreases m.len(),
{
    if m.len() == 0 {
        Seq::empty()
    } else {
        flag_kv(flag, m.drop_last()) + seq![flag, kv_text(m.last().0, m.last().1@)]
    }
}

/// `flag value` when a value is given, nothing otherwise.
pub open spec fn opt_flag(flag: Seq<char>, o: Option<String>) -> Seq<Seq<char>> {
    match o {
        Some(x) => seq![flag, x@],
        None => Seq::empty(),
    }
}

/// The words of `v` joined by `sep` (`slice::join`).
pub open spec fn join_with(v: Seq<Seq<char>>, sep: Seq<char>) -> Seq<char>
    decreases v.len(),
{
    if v.len() == 0 {
        Seq::empty()
    } else if v.len() == 1 {
        v[0]
    } else {
        join_with(v.drop_last(), sep) + sep + v.last()
    }
}

/// The decimal digit `d`.
pub open spec fn dec_digit(d: nat) -> char {
    if d == 0 {
        '0'
    } else if d == 1 {
        '1'
    } else if d == 2 {
        '2'
    } else if d == 3 {
        '3'
    } else if d == 4 {
        '4'
    } else if d == 5 {
        '5'
    } else if d == 6 {
        '6'
    } else if d == 7 {
        '7'
    } else if d == 8 {
        '8'
    } else {
        '9'
    }
}

/// The decimal text of `n`, without leading zeros.
pub open spec fn dec_text(n: nat) -> Seq<char>
    decreases n,
{
    if n < 10 {
        seq![dec_digit(n)]
    } else {
        dec_text(n / 10).push(dec_digit(n % 10))
    }
}

/// The character of the decimal digit `d`.
pub fn digit_char(d: u32) -> (c: char)
    requires
        d < 10,
    ensures
        c == dec_digit(d as nat),
{
    if d == 0 {
        '0'
    } else if d == 1 {
        '1'
    } else if d == 2 {
        '2'
    } else if d == 3 {
        '3'
    } else if d == 4 {
        '4'
    } else if d == 5 {
        '5'
    } else if d == 6 {
        '6'
    } else if d == 7 {
        '7'
    } else if d == 8 {
        '8'
    } else {
        '9'
    }
}

fn push_decimal(s: &mut String, n: u32)
    ensures
        final(s)@ == old(s)@ + dec_text(n as nat),
    decreases n,
{
    if n >= 10 {
        push_decimal(s, n / 10);
    }
    push_char(s, digit_char(n % 10));
}

fn push_decimal_usize(s: &mut String, n: usize)
    ensures
        final(s)@ == old(s)@ + dec_text(n as nat),
    decreases n,
{
    if n >= 10 {
        push_decimal_usize(s, n / 10);
    }
    push_char(s, digit_char((n % 10) as u32));
}

/// The decimal text of a count (`usize::to_string`).
pub fn decimal_usize(n: usize) -> (r: String)
    ensures
        r@ == dec_text(n as nat),
{
    let mut s = String::new();
    push_decimal_usize(&mut s, n);
    s
}

/// The decimal text of `n` (`u32::to_string`).
pub fn decimal(n: u32) -> (r: String)
    ensures
        r@ == dec_text(n as nat),
{
    let mut s = String::new();
    push_decimal(&mut s, n);
    s
}

/// The decimal text of an integer, with a leading `-` when negative.
pub open spec fn dec_int_text(n: int) -> Seq<char> {
    if n < 0 {
        seq!['-'] + dec_text((-n) as nat)
    } else {
        dec_text(n as nat)
    }
}

fn push_decimal_u64(s: &mut String, n: u64)
    ensures
        final(s)@ == old(s)@ + dec_text(n as nat),
    decreases n,
{
    if n >= 10 {
        push_decimal_u64(s, n / 10);
    }
    push_char(s, digit_char((n % 10) as u32));
}

/// The decimal text of `n` (`i32::to_string`).
pub fn decimal_i32(n: i32) -> (r: String)
    ensures
        r@ == dec_int_text(n as int),
{
    let mut s = String::new();
    if n < 0 {
        push_char(&mut s, '-');
        let m: u64 = (0i64 - (n as i64)) as u64;
        push_decimal_u64(&mut s, m);
    } else {
        push_decimal_u64(&mut s, n as u64);
    }
    s
}

/// `k=v` as a string.
pub fn kv_string(k: &str, v: &str) -> (r: String)
    ensures
        r@ == kv_text(k@, v@),
{
    let mut s = k.to_owned();
    push_str(&mut s, "=");
    push_str(&mut s, v);
    s
}

/// Appends one argument.
pub fn push_arg(a: &mut Vec<String>, s: &str)
    ensures
        views(final(a)@) == views(old(a)@).push(s@),
{
    let ghost before = a@;
    a.push(s.to_owned());
    assert(views(a@) =~= views(before).push(s@));
}

/// Appends all of `items`.
pub fn push_all(a: &mut Vec<String>, items: &Vec<String>)
    ensures
        views(final(a)@) == views(old(a)@) + views(items@),
{
    let ghost start = views(a@);
    let mut i: usize = 0;
    while i < items.len()
        invariant
            i <= items@.len(),
            views(a@) == start + views(items@.take(i as int)),
        decreases items@.len() - i,
    {
        let ghost before = a@;
        a.push(items[i].clone());
        assert(views(a@) =~= views(before).push(items@[i as int]@));
        assert(views(items@.take(i + 1)) =~= views(items@.take(i as int)).push(items@[i as int]@));
        i = i + 1;
    }
    assert(items@.take(items@.len() as int) =~= items@);
}

/// Appends `flag value` when a value is given.
pub fn push_opt_flag(a: &mut Vec<String>, flag: &str, o: &Option<String>)
    ensures
        views(final(a)@) == views(old(a)@) + opt_flag(flag@, *o),
{
    match o {
        Some(x) => {
            push_arg(a, flag);
            push_arg(a, x.as_str());
        },
        None => {},
    }
}

/// Appends `flag item` for each item.
pub fn push_flag_each(a: &mut Vec<String>, flag: &str, items: &Vec<String>)
    ensures
        views(final(a)@) == views(old(a)@) + flag_each(flag@, views(items@)),
{
    let ghost start = views(a@);
    let mut i: usize = 0;
    assert(views(items@.take(0)) =~= Seq::<Seq<char>>::empty());
    while i < items.len()
        invariant
            i <= items@.len(),
            views(a@) == start + flag_each(flag@, views(items@.take(i as int))),
        decreases items@.len() - i,
    {
        push_arg(a, flag);
        push_arg(a, items[i].as_str());
        assert(views(items@.take(i + 1)).drop_last() =~= views(items@.take(i as int)));
        i = i + 1;
    }
    assert(items@.take(items@.len() as int) =~= items@);
}

/// Appends `flag k=v` for each entry of `m`, in the map's order.
pub fn push_flag_kv(a: &mut Vec<String>, flag: &str, m: &StrMap<String>)
    ensures
        views(final(a)@) == views(old(a)@) + flag_kv(flag@, m@),
{
    let ghost start = views(a@);
    let n = m.len();
    let mut i: usize = 0;
    assert(m@.take(0) =~= Seq::<(Seq<char>, String)>::empty());
    while i < n
        invariant
            n == m@.len(),
            i <= n,
            views(a@) == start + flag_kv(flag@, m@.take(i as int)),
        decreases n - i,
    {
        push_arg(a, flag);
        let kv = kv_string(m.key_at(i).as_str(), m.value_at(i).as_str());
        push_arg(a, kv.as_str());
        assert(m@.take(i + 1).drop_last() =~= m@.take(i as int));
        i = i + 1;
    }
    assert(m@.take(n as int) =~= m@);
}

/// The words of `v` joined by `sep`.
pub fn join(v: &Vec<String>, sep: &str) -> (r: String)
    ensures
        r@ == join_with(views(v@), sep@),
{
    let mut s = String::new();
    let mut i: usize = 0;
    assert(views(v@.take(0)) =~= Seq::<Seq<char>>::empty());
    while i < v.len()
        invariant
            i <= v@.len(),
            s@ == join_with(views(v@.take(i as int)), sep@),
        decreases v@.len() - i,
    {
        if i > 0 {
            push_str(&mut s, sep);
        }
        push_str(&mut s, v[i].as_str());
        assert(views(v@.take(i + 1)).drop_last() =~= views(v@.take(i as int)));
        assert(views(v@.take(i + 1)).last() == v@[i as int]@);
        i = i + 1;
    }
    assert(v@.take(v@.len() as int) =~= v@);
    s
}

} // verus!
