//! The opaque container header and its lowercase hex form.

use vstd::prelude::*;

use crate::error::CodecError;

verus! {

/// Length in bytes of the opaque header at the start of every container.
pub const HEADER_LEN: usize = 95;

/// The lowercase hex digit of a value below sixteen.
pub open spec fn hex_digit(n: int) -> char {
    if n < 10 {
        ((n + 48) as u32) as char
    } else {
        ((n + 87) as u32) as char
    }
}

/// Two lowercase hex digits per byte, high nibble first, no separators.
pub open spec fn hex_of(b: Seq<u8>) -> Seq<char> {
    Seq::new(
        2 * b.len(),
        |i: int|
            if i % 2 == 0 {
                hex_digit((b[i / 2] / 16) as int)
            } else {
                hex_digit((b[i / 2] % 16) as int)
            },
    )
}

/// The value of a hex digit of either case, or -1 for any other character.
pub open spec fn hex_value(c: char) -> int {
    let v = c as u32;
    if 48 <= v <= 57 {
        v - 48
    } else if 97 <= v <= 102 {
        v - 87
    } else if 65 <= v <= 70 {
        v - 55
    } else {
        -1
    }
}

pub open spec fn is_hex_text(s: Seq<char>) -> bool {
    s.len() % 2 == 0 && forall|i: int| 0 <= i < s.len() ==> hex_value(#[trigger] s[i]) >= 0
}

/// The bytes that a hex text stands for, or `None` on an odd length or a
/// character that is no hex digit.
pub open spec fn hex_decode_spec(s: Seq<char>) -> Option<Seq<u8>> {
    if is_hex_text(s) {
        Some(Seq::new(s.len() / 2, |i: int| (16 * hex_value(s[2 * i]) + hex_value(s[2 * i + 1])) as u8))
    } else {
        None
    }
}

/// The error type of `hex::decode`, carried through opaquely.
#[verifier::external_type_specification]
#[verifier::external_body]
pub struct ExFromHexError(hex::FromHexError);

/// Relies on hex::encode: two lowercase digits for each byte, in order.
#[verifier::external_body]
fn hex_encode(b: &[u8]) -> (r: String)
    ensures
        r@ == hex_of(b@),
{
    hex::encode(b)
}

/// Relies on hex::decode: succeeds exactly on an even number of hex digits
/// of either case, and then gives one byte for each pair.
#[verifier::external_body]
fn hex_decode(s: &str) -> (r: Result<Vec<u8>, hex::FromHexError>)
    ensures
        r is Ok <==> hex_decode_spec(s@) is Some,
        r is Ok ==> hex_decode_spec(s@) == Some(r->Ok_0@),
{
    hex::decode(s)
}

/// Renders header bytes as lowercase hex without separators.
pub fn render_hex(header: &[u8]) -> (r: String)
    ensures
        r@ == hex_of(header@),
{
    hex_encode(header)
}

/// Parses hex text back into bytes; fails with `MalformedHeader` on an odd
/// length or a character that is no hex digit.
pub fn parse_hex(text: &str) -> (r: Result<Vec<u8>, CodecError>)
    ensures
        match hex_decode_spec(text@) {
            Some(b) => r is Ok && r->Ok_0@ == b,
            None => r is Err && r->Err_0 == CodecError::MalformedHeader,
        },
{
    match hex_decode(text) {
        Ok(b) => Ok(b),
        Err(_) => Err(CodecError::MalformedHeader),
    }
}

proof fn lemma_hex_digit_value(n: int)
    requires
        0 <= n < 16,
    ensures
        hex_value(hex_digit(n)) == n,
{
}

/// Parsing the hex rendering of any byte sequence gives the bytes back.
pub proof fn lemma_hex_round_trip(h: Seq<u8>)
    ensures
        hex_decode_spec(hex_of(h)) == Some(h),
{
    let s = hex_of(h);
    assert forall|i: int| 0 <= i < s.len() implies hex_value(#[trigger] s[i]) >= 0 by {
        lemma_hex_digit_value((h[i / 2] / 16) as int);
        lemma_hex_digit_value((h[i / 2] % 16) as int);
    }
    assert(is_hex_text(s));
    let d = hex_decode_spec(s)->Some_0;
    assert forall|i: int| 0 <= i < h.len() implies #[trigger] d[i] == h[i] by {
        assert((2 * i) / 2 == i);
        assert((2 * i + 1) / 2 == i);
        assert((2 * i) % 2 == 0);
        assert((2 * i + 1) % 2 == 1);
        lemma_hex_digit_value((h[i] / 16) as int);
        lemma_hex_digit_value((h[i] % 16) as int);
    }
    assert(d =~= h);
}

} // verus!
