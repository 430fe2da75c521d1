//! Swift source text: escaping a string for a Swift string literal, and the
//! Swift expression of a color name.

use vstd::prelude::*;
use crate::strs::{to_chars, push_char, push_str, str_eq};
use crate::args::{dec_digit, digit_char};

verus! {

/// The escaped form of one character in a Swift string literal.
pub open spec fn swift_escape_char(c: char) -> Seq<char> {
    if c == '\\' {
        seq!['\\', '\\']
    } else if c == '"' {
        seq!['\\', '"']
    } else if c == '\n' {
        seq!['\\', 'n']
    } else if c == '\r' {
        seq!['\\', 'r']
    } else if c == '\t' {
        seq!['\\', 't']
    } else {
        seq![c]
    }
}

/// `s` escaped for a Swift string literal, character by character.
pub open spec fn swift_escaped(s: Seq<char>) -> Seq<char>
    decreases s.len(),
{
    if s.len() == 0 {
        Seq::empty()
    } else {
        swift_escaped(s.drop_last()) + swift_escape_char(s.last())
    }
}

/// Escapes backslashes, double quotes, newlines, carriage returns and tabs.
pub fn escape_swift_string(s: &str) -> (r: String)
    ensures
        r@ == swift_escaped(s@),
{
    let v = to_chars(s);
    let mut out = String::new();
    let mut i: usize = 0;
    assert(v@.take(0) =~= Seq::<char>::empty());
    while i < v.len()
        invariant
            i <= v@.len(),
            v@ == s@,
            out@ == swift_escaped(v@.take(i as int)),
        decreases v@.len() - i,
    {
        let c = v[i];
        assert(v@.take(i + 1).drop_last() =~= v@.take(i as int));
        assert(v@.take(i + 1).last() == c);
        let ghost before = out@;
        if c == '\\' {
            push_char(&mut out, '\\');
            push_char(&mut out, '\\');
        } else if c == '"' {
            push_char(&mut out, '\\');
            push_char(&mut out, '"');
        } else if c == '\n' {
            push_char(&mut out, '\\');
            push_char(&mut out, 'n');
        } else if c == '\r' {
            push_char(&mut out, '\\');
            push_char(&mut out, 'r');
        } else if c == '\t' {
            push_char(&mut out, '\\');
            push_char(&mut out, 't');
        } else {
            push_char(&mut out, c);
        }
        assert(out@ =~= before + swift_escape_char(c));
        i = i + 1;
    }
    assert(v@.take(v@.len() as int) =~= v@);
    out
}

/// The number of bytes of `c` in UTF-8.
pub open spec fn utf8_width(c: char) -> nat {
    if (c as u32) < 0x80 {
        1
    } else if (c as u32) < 0x800 {
        2
    } else if (c as u32) < 0x10000 {
        3
    } else {
        4
    }
}

/// The number of bytes of `s` in UTF-8 (`str::len`).
pub open spec fn utf8_len(s: Seq<char>) -> nat
    decreases s.len(),
{
    if s.len() == 0 {
        0
    } else {
        utf8_len(s.drop_last()) + utf8_width(s.last())
    }
}

/// Byte offset `b` of `s` falls between two characters.
pub open spec fn is_char_boundary(s: Seq<char>, b: nat) -> bool {
    exists|k: int| 0 <= k <= s.len() && #[trigger] utf8_len(s.take(k)) == b
}

/// A color of seven bytes that starts with `#` is read as three byte pairs;
/// this holds when those pairs can be cut out of it (their ends fall
/// between characters).
pub open spec fn color_slicable(c: Seq<char>) -> bool {
    (c.len() > 0 && c[0] == '#' && utf8_len(c) == 7) ==> (is_char_boundary(c, 3)
        && is_char_boundary(c, 5))
}

/// The value of a hexadecimal digit (either case).
pub open spec fn hex_val(c: char) -> Option<nat> {
    if 48 <= (c as u32) <= 57 {
        Some((c as u32 - 48) as nat)
    } else if 97 <= (c as u32) <= 102 {
        Some((c as u32 - 87) as nat)
    } else if 65 <= (c as u32) <= 70 {
        Some((c as u32 - 55) as nat)
    } else {
        None
    }
}

/// Two characters read as a `u8` in base 16: an optional `+` and then
/// digits only (`u8::from_str_radix`).
pub open spec fn hex_pair(a: char, b: char) -> Option<nat> {
    if a == '+' {
        hex_val(b)
    } else {
        match (hex_val(a), hex_val(b)) {
            (Some(x), Some(y)) => Some(16 * x + y),
            _ => None,
        }
    }
}

/// All characters of `s` are ASCII.
pub open spec fn all_ascii(s: Seq<char>) -> bool {
    forall|i: int| 0 <= i < s.len() ==> (#[trigger] s[i] as u32) < 0x80
}

/// The red, green and blue bytes of a `#rrggbb` color.
pub open spec fn hex_rgb(c: Seq<char>) -> Option<(nat, nat, nat)> {
    if c.len() == 7 && c[0] == '#' && all_ascii(c) {
        match (hex_pair(c[1], c[2]), hex_pair(c[3], c[4]), hex_pair(c[5], c[6])) {
            (Some(r), Some(g), Some(b)) => Some((r, g, b)),
            _ => None,
        }
    } else {
        None
    }
}

/// `v / 255` written with three decimals, rounded to the nearest (no byte
/// value falls halfway between two such decimals).
pub open spec fn unit_text(v: nat) -> Seq<char> {
    let q = (2000 * v + 255) / 510;
    seq![dec_digit(q / 1000), '.', dec_digit((q % 1000) / 100), dec_digit((q % 100) / 10), dec_digit(q % 10)]
}

/// The Swift expression of a color name: a named system color, the
/// components of a `#rrggbb` color, or else the name as a `Color` member.
pub open spec fn swift_color(c: Seq<char>) -> Seq<char> {
    if c == "red"@ {
        "Color.red"@
    } else if c == "blue"@ {
        "Color.blue"@
    } else if c == "green"@ {
        "Color.green"@
    } else if c == "white"@ {
        "Color.white"@
    } else if c == "black"@ {
        "Color.black"@
    } else if c == "gray"@ || c == "grey"@ {
        "Color.gray"@
    } else if c == "orange"@ {
        "Color.orange"@
    } else if c == "yellow"@ {
        "Color.yellow"@
    } else if c == "purple"@ {
        "Color.purple"@
    } else if c == "pink"@ {
        "Color.pink"@
    } else if c == "primary"@ {
        "Color.primary"@
    } else if c == "secondary"@ {
        "Color.secondary"@
    } else if c == "clear"@ {
        "Color.clear"@
    } else {
        match hex_rgb(c) {
            Some((r, g, b)) => "Color(red: "@ + unit_text(r) + ", green: "@ + unit_text(g)
                + ", blue: "@ + unit_text(b) + ")"@,
            None => "Color."@ + c,
        }
    }
}

fn hex_val_of(c: char) -> (r: Option<u32>)
    ensures
        match hex_val(c) {
            Some(v) => r == Some(v as u32),
            None => r is None,
        },
{
    let n = c as u32;
    if 48 <= n && n <= 57 {
        Some(n - 48)
    } else if 97 <= n && n <= 102 {
        Some(n - 87)
    } else if 65 <= n && n <= 70 {
        Some(n - 55)
    } else {
        None
    }
}

fn hex_pair_of(a: char, b: char) -> (r: Option<u32>)
    ensures
        match hex_pair(a, b) {
            Some(v) => r == Some(v as u32) && v < 256,
            None => r is None,
        },
{
    if a == '+' {
        hex_val_of(b)
    } else {
        match (hex_val_of(a), hex_val_of(b)) {
            (Some(x), Some(y)) => Some(16 * x + y),
            _ => None,
        }
    }
}

fn rgb_of(v: &Vec<char>) -> (r: Option<(u32, u32, u32)>)
    ensures
        match hex_rgb(v@) {
            Some((x, y, z)) => r == Some((x as u32, y as u32, z as u32)) && x < 256 && y < 256
                && z < 256,
            None => r is None,
        },
{
    if v.len() != 7 || v[0] != '#' {
        return None;
    }
    let mut i: usize = 0;
    while i < 7
        invariant
            v@.len() == 7,
            i <= 7,
            forall|j: int| 0 <= j < i ==> (#[trigger] v@[j] as u32) < 0x80,
        decreases 7 - i,
    {
        if (v[i] as u32) >= 0x80 {
            return None;
        }
        i = i + 1;
    }
    match (hex_pair_of(v[1], v[2]), hex_pair_of(v[3], v[4]), hex_pair_of(v[5], v[6])) {
        (Some(x), Some(y), Some(z)) => Some((x, y, z)),
        _ => None,
    }
}

fn push_unit(s: &mut String, v: u32)
    requires
        v < 256,
    ensures
        final(s)@ == old(s)@ + unit_text(v as nat),
{
    let q = (2000 * v + 255) / 510;
    assert(q <= 1000);
    push_char(s, digit_char(q / 1000));
    push_char(s, '.');
    push_char(s, digit_char((q % 1000) / 100));
    push_char(s, digit_char((q % 100) / 10));
    push_char(s, digit_char(q % 10));
    assert(final(s)@ =~= old(s)@ + unit_text(v as nat));
}

/// The Swift expression of a color name.
pub fn swift_color_expr(color: &str) -> (r: String)
    requires
        color_slicable(color@),
    ensures
        r@ == swift_color(color@),
{
    if str_eq(color, "red") {
        "Color.red".to_owned()
    } else if str_eq(color, "blue") {
        "Color.blue".to_owned()
    } else if str_eq(color, "green") {
        "Color.green".to_owned()
    } else if str_eq(color, "white") {
        "Color.white".to_owned()
    } else if str_eq(color, "black") {
        "Color.black".to_owned()
    } else if str_eq(color, "gray") || str_eq(color, "grey") {
        "Color.gray".to_owned()
    } else if str_eq(color, "orange") {
        "Color.orange".to_owned()
    } else if str_eq(color, "yellow") {
        "Color.yellow".to_owned()
    } else if str_eq(color, "purple") {
        "Color.purple".to_owned()
    } else if str_eq(color, "pink") {
        "Color.pink".to_owned()
    } else if str_eq(color, "primary") {
        "Color.primary".to_owned()
    } else if str_eq(color, "secondary") {
        "Color.secondary".to_owned()
    } else if str_eq(color, "clear") {
        "Color.clear".to_owned()
    } else {
        let v = to_chars(color);
        let mut out = String::new();
        match rgb_of(&v) {
            Some((x, y, z)) => {
                push_str(&mut out, "Color(red: ");
                push_unit(&mut out, x);
                push_str(&mut out, ", green: ");
                push_unit(&mut out, y);
                push_str(&mut out, ", blue: ");
                push_unit(&mut out, z);
                push_str(&mut out, ")");
            },
            None => {
                push_str(&mut out, "Color.");
                push_str(&mut out, color);
            },
        }
        out
    }
}

} // verus!
