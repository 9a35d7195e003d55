//! Transcoding between EUC-KR bytes and Unicode text.

use vstd::prelude::*;

verus! {

/// What EUC-KR decoding (with BOM sniffing and replacement of malformed
/// sequences) makes of some bytes, and whether anything was replaced.
pub uninterp spec fn euc_kr_decoded(b: Seq<u8>) -> (Seq<char>, bool);

/// What EUC-KR encoding makes of some text, and whether any character had no
/// representation and was replaced.
pub uninterp spec fn euc_kr_encoded(s: Seq<char>) -> (Seq<u8>, bool);

pub open spec fn is_ascii_bytes(b: Seq<u8>) -> bool {
    forall|i: int| 0 <= i < b.len() ==> #[trigger] b[i] < 128
}

pub open spec fn is_ascii_char(c: char) -> bool {
    (c as u32) < 128
}

pub open spec fn is_ascii_text(s: Seq<char>) -> bool {
    forall|i: int| 0 <= i < s.len() ==> #[trigger] is_ascii_char(s[i])
}

/// ASCII bytes read as characters, one for one.
pub open spec fn ascii_chars(b: Seq<u8>) -> Seq<char> {
    b.map_values(|x: u8| x as char)
}

/// ASCII characters written as bytes, one for one.
pub open spec fn ascii_bytes(s: Seq<char>) -> Seq<u8> {
    s.map_values(|c: char| c as u8)
}

/// Relies on `encoding_rs::EUC_KR.decode`; ASCII input carries no BOM and is
/// passed through unchanged without errors.
#[verifier::external_body]
fn euc_kr_decode(b: &[u8]) -> (r: (String, bool))
    ensures
        (r.0@, r.1) == euc_kr_decoded(b@),
        is_ascii_bytes(b@) ==> r.0@ == ascii_chars(b@) && !r.1,
{
    let (text, _, had_errors) = encoding_rs::EUC_KR.decode(b);
    (text.into_owned(), had_errors)
}

/// Relies on `encoding_rs::EUC_KR.encode`; ASCII text is passed through
/// unchanged without unmappable characters.
#[verifier::external_body]
fn euc_kr_encode(s: &str) -> (r: (Vec<u8>, bool))
    ensures
        (r.0@, r.1) == euc_kr_encoded(s@),
        is_ascii_text(s@) ==> r.0@ == ascii_bytes(s@) && !r.1,
{
    let (bytes, _, unmappable) = encoding_rs::EUC_KR.encode(s);
    (bytes.into_owned(), unmappable)
}

/// Decodes EUC-KR bytes into text; the flag tells whether any malformed
/// sequence was replaced. Never fails.
pub fn decode_legacy(bytes: &[u8]) -> (r: (String, bool))
    ensures
        (r.0@, r.1) == euc_kr_decoded(bytes@),
        is_ascii_bytes(bytes@) ==> r.0@ == ascii_chars(bytes@) && !r.1,
{
    euc_kr_decode(bytes)
}

/// Encodes text into EUC-KR; the flag tells whether any character could not
/// be represented. Never fails.
pub fn encode_legacy(text: &str) -> (r: (Vec<u8>, bool))
    ensures
        (r.0@, r.1) == euc_kr_encoded(text@),
        is_ascii_text(text@) ==> r.0@ == ascii_bytes(text@) && !r.1,
{
    euc_kr_encode(text)
}

/// Encoding the decoding of ASCII bytes gives the same bytes, with no loss
/// reported either way.
pub proof fn lemma_ascii_round_trip(b: Seq<u8>)
    requires
        is_ascii_bytes(b),
    ensures
        is_ascii_text(ascii_chars(b)),
        ascii_bytes(ascii_chars(b)) == b,
{
    assert(ascii_bytes(ascii_chars(b)) =~= b);
}

} // verus!
