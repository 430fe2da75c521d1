//! MD5 digests and their lowercase hexadecimal rendering.

use vstd::prelude::*;
use md5::{Digest, Md5};

verus! {

/// The MD5 digest of `data`.
pub uninterp spec fn md5_of(data: Seq<u8>) -> Seq<u8>;

/// `md5::Md5` (`new`, `update`, `finalize`): the digest of `data`, which
/// the contract names; the digest is 16 bytes long.
#[verifier::external_body]
pub(crate) fn md5_digest(data: &[u8]) -> (r: Vec<u8>)
    ensures
        r@ == md5_of(data@),
        r@.len() == 16,
{
    let mut hasher = Md5::new();
    hasher.update(data);
    hasher.finalize().to_vec()
}

/// The lowercase hexadecimal digit of `d` (`0 <= d < 16`).
pub open spec fn hex_digit(d: int) -> char {
    if d < 10 {
        (('0' as int) + d) as char
    } else {
        (('a' as int) + d - 10) as char
    }
}

/// The lowercase hexadecimal rendering of `data`, two digits per byte.
pub open spec fn hex_lower(data: Seq<u8>) -> Seq<char>
    decreases data.len(),
{
    if data.len() == 0 {
        Seq::empty()
    } else {
        seq![hex_digit(data[0] as int / 16), hex_digit(data[0] as int % 16)] + hex_lower(
            data.drop_first(),
        )
    }
}

/// The rendering has two characters per byte.
pub proof fn lemma_hex_lower_len(data: Seq<u8>)
    ensures
        hex_lower(data).len() == 2 * data.len(),
    decreases data.len(),
{
    if data.len() > 0 {
        lemma_hex_lower_len(data.drop_first());
    }
}

/// `hex::encode`: the lowercase hexadecimal rendering of `data`.
#[verifier::external_body]
pub(crate) fn hex_encode(data: &[u8]) -> (r: String)
    ensures
        r@ == hex_lower(data@),
{
    hex::encode(data)
}

/// The first eight hexadecimal digits of the MD5 digest of the UTF-8 bytes of `s`.
pub open spec fn spec_hash8(s: Seq<char>) -> Seq<char> {
    hex_lower(md5_of(vstd::utf8::encode_utf8(s))).take(8)
}

/// A lowercase hexadecimal digit character.
pub open spec fn is_hex_char(c: char) -> bool {
    ('0' as int <= c as int <= '9' as int) || ('a' as int <= c as int <= 'f' as int)
}

proof fn lemma_hex_digit(d: int)
    requires
        0 <= d < 16,
    ensures
        is_hex_char(hex_digit(d)),
{
}

/// Every character of a hexadecimal rendering is a hexadecimal digit.
pub proof fn lemma_hex_lower_chars(data: Seq<u8>)
    ensures
        forall|i: int| 0 <= i < hex_lower(data).len() ==> is_hex_char(#[trigger] hex_lower(data)[i]),
    decreases data.len(),
{
    lemma_hex_lower_len(data);
    if data.len() > 0 {
        lemma_hex_lower_chars(data.drop_first());
        lemma_hex_digit(data[0] as int / 16);
        lemma_hex_digit(data[0] as int % 16);
        let h = hex_lower(data);
        let t = hex_lower(data.drop_first());
        assert forall|i: int| 0 <= i < h.len() implies is_hex_char(#[trigger] h[i]) by {
            if i >= 2 {
                assert(h[i] == t[i - 2]);
            }
        }
    }
}

/// Every character of `hex8(x)` is a hexadecimal digit.
pub proof fn lemma_hex8_chars(x: u32)
    ensures
        hex8(x).len() == 8,
        forall|k: int| 0 <= k < 8 ==> is_hex_char(#[trigger] hex8(x)[k]),
{
    assert forall|k: int| 0 <= k < 8 implies is_hex_char(#[trigger] hex8(x)[k]) by {
        lemma_pow16_pos(7 - k);
        let d = (x as int / pow16(7 - k)) % 16;
        assert(0 <= d < 16);
        lemma_hex_digit(d);
    }
}

/// The first eight hexadecimal digits of the MD5 digest of `input`.
pub fn hash8(input: &str) -> (r: String)
    ensures
        r@ == spec_hash8(input@),
        r@.len() == 8,
        forall|i: int| 0 <= i < 8 ==> is_hex_char(#[trigger] r@[i]),
{
    let bytes = input.as_bytes();
    let digest = md5_digest(bytes);
    let hex = hex_encode(digest.as_slice());
    proof {
        lemma_hex_lower_len(digest@);
        lemma_hex_lower_chars(digest@);
    }
    let v = crate::strs::to_chars(hex.as_str());
    crate::strs::from_chars(&v, 0, 8)
}

/// The eight lowercase hexadecimal digits of `x`, most significant first
/// (`format!("{:08x}", x)`).
pub open spec fn hex8(x: u32) -> Seq<char> {
    Seq::new(8, |k: int| hex_digit((x as int / pow16(7 - k)) % 16))
}

/// `16` to the power `e`.
pub open spec fn pow16(e: int) -> int
    decreases e,
{
    if e <= 0 {
        1
    } else {
        16 * pow16(e - 1)
    }
}

proof fn lemma_pow16_pos(e: int)
    ensures
        pow16(e) >= 1,
    decreases e,
{
    if e > 0 {
        lemma_pow16_pos(e - 1);
    }
}

/// Renders `x` as eight lowercase hexadecimal digits.
pub fn format_hex8(x: u32) -> (r: String)
    ensures
        r@ == hex8(x),
{
    let mut out = String::new();
    let mut k: usize = 0;
    let mut div: u32 = 0x1000_0000;
    assert(pow16(7) == 0x1000_0000) by {
        reveal_with_fuel(pow16, 8);
    }
    while k < 8
        invariant
            k <= 8,
            div as int == pow16(7 - k as int),
            div >= 1,
            out@ == hex8(x).subrange(0, k as int),
        decreases 8 - k,
    {
        let d = (x / div) % 16;
        let c = if d < 10 {
            char_from_digit(d)
        } else {
            char_from_letter(d)
        };
        crate::strs::push_char(&mut out, c);
        proof {
            assert(out@ =~= hex8(x).subrange(0, k + 1));
        }
        if k < 7 {
            assert(pow16(7 - k as int) == 16 * pow16(7 - (k + 1) as int));
            proof {
                lemma_pow16_pos(7 - (k + 1) as int);
            }
            div = div / 16;
        }
        k = k + 1;
    }
    assert(hex8(x).subrange(0, 8) =~= hex8(x));
    out
}

fn char_from_digit(d: u32) -> (c: char)
    requires
        d < 10,
    ensures
        c == hex_digit(d as int),
{
    if d == 0 { '0' } else if d == 1 { '1' } else if d == 2 { '2' } else if d == 3 { '3' } else if d
        == 4 { '4' } else if d == 5 { '5' } else if d == 6 { '6' } else if d == 7 { '7' } else if d
        == 8 { '8' } else { '9' }
}

fn char_from_letter(d: u32) -> (c: char)
    requires
        10 <= d < 16,
    ensures
        c == hex_digit(d as int),
{
    if d == 10 { 'a' } else if d == 11 { 'b' } else if d == 12 { 'c' } else if d == 13 { 'd' } else if d
        == 14 { 'e' } else { 'f' }
}

} // verus!
