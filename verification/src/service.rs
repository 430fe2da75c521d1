//! Container names: `{md5_8}-{random_hex8}`, where the first part is a
//! stable digest of what is being named and the second is drawn at random.

use vstd::prelude::*;
use crate::digest::{hash8, spec_hash8, hex8, format_hex8, is_hex_char, lemma_hex8_chars};
use crate::strs::push_str;
use crate::types::ComposeService;

verus! {

/// `rand::random::<u32>()`: any `u32`; nothing is promised of which.
#[verifier::external_body]
fn random_u32() -> (r: u32) {
    rand::random::<u32>()
}

/// The name made of the digest prefix of `input` and the random part `x`.
pub open spec fn spec_generated(input: Seq<char>, x: u32) -> Seq<char> {
    spec_hash8(input) + "-"@ + hex8(x)
}

/// Eight hexadecimal digits, `-`, eight hexadecimal digits.
pub open spec fn is_name_shape(s: Seq<char>) -> bool {
    &&& s.len() == 17
    &&& s[8] == '-'
    &&& forall|i: int| 0 <= i < 17 && i != 8 ==> is_hex_char(#[trigger] s[i])
}

/// The name `{md5_8(input)}-{x as 8 hex digits}` for the drawn value `x`.
pub fn name_with_suffix(input: &str, x: u32) -> (r: String)
    ensures
        r@ == spec_generated(input@, x),
        is_name_shape(r@),
{
    let mut out = hash8(input);
    let ghost hp = out@;
    push_str(&mut out, "-");
    let h = format_hex8(x);
    push_str(&mut out, h.as_str());
    proof {
        reveal_strlit("-");
        lemma_hex8_chars(x);
        assert(out@ == hp + seq!['-'] + h@);
        assert forall|i: int| 0 <= i < 17 && i != 8 implies is_hex_char(#[trigger] out@[i]) by {
            if i > 8 {
                assert(out@[i] == h@[i - 9]);
            } else {
                assert(out@[i] == hp[i]);
            }
        }
        assert(out@ == spec_generated(input@, x));
    }
    out
}

/// A fresh name `{md5_8(input)}-{random_hex8}`.
pub fn generate_name(input: &str) -> (r: String)
    ensures
        exists|x: u32| r@ == #[trigger] spec_generated(input@, x),
        is_name_shape(r@),
{
    let x = random_u32();
    name_with_suffix(input, x)
}

/// Any two names drawn for the same input share their first eight
/// characters, the digest of the input; only the part after `-` varies.
pub proof fn lemma_name_prefix_stable(input: Seq<char>, a: Seq<char>, b: Seq<char>, x: u32, y: u32)
    requires
        is_name_shape(a),
        is_name_shape(b),
        a == spec_generated(input, x),
        b == spec_generated(input, y),
    ensures
        a.subrange(0, 8) == spec_hash8(input),
        a.subrange(0, 8) == b.subrange(0, 8),
        a.subrange(9, 17) == hex8(x),
{
    reveal_strlit("-");
    lemma_hex8_chars(x);
    lemma_hex8_chars(y);
    assert(spec_hash8(input).len() == 8);
    assert(a.subrange(0, 8) =~= spec_hash8(input));
    assert(b.subrange(0, 8) =~= spec_hash8(input));
    assert(a.subrange(9, 17) =~= hex8(x));
}

/// The text of an optional string.
pub open spec fn opt_text(o: Option<&str>) -> Option<Seq<char>> {
    match o {
        Some(t) => Some(t@),
        None => None,
    }
}

/// What the digest prefix of a service's container name is taken from: the
/// service's rendered definition when there is one, else its image, else
/// the service name.
pub open spec fn name_source(service: ComposeService, service_name: Seq<char>, rendered: Option<Seq<char>>) -> Seq<char> {
    match rendered {
        Some(t) => t,
        None => match service.image {
            Some(i) => i@,
            None => service_name,
        },
    }
}

/// The container name of a service: its `container_name` when set,
/// otherwise a fresh `{md5_8}-{random_hex8}` whose digest part is taken
/// from the service's rendered definition (`rendered`), or, when that is not
/// available, from its image or name.
pub fn service_container_name(service: &ComposeService, service_name: &str, rendered: Option<&str>) -> (r: String)
    ensures
        match service.container_name {
            Some(n) => r@ == n@,
            None => is_name_shape(r@) && exists|x: u32|
                r@ == #[trigger] spec_generated(
                    name_source(
                        *service,
                        service_name@,
                        opt_text(rendered),
                    ),
                    x,
                ),
        },
{
    if let Some(name) = &service.container_name {
        return name.clone();
    }
    let input: &str = match rendered {
        Some(t) => t,
        None => match &service.image {
            Some(i) => i.as_str(),
            None => service_name,
        },
    };
    let r = generate_name(input);
    proof {
        assert(input@ == name_source(*service, service_name@, opt_text(rendered)));
        let x = choose|x: u32| r@ == #[trigger] spec_generated(input@, x);
        assert(r@ == spec_generated(name_source(*service, service_name@, opt_text(rendered)), x));
    }
    r
}

/// The state of one service's container.
#[derive(Debug, Clone)]
pub struct ServiceState {
    pub id: String,
    pub name: String,
    pub running: bool,
}

} // verus!
