//! The container codec: a container decodes into an artifact, and a text
//! document encodes back into a container.

use vstd::prelude::*;
use vstd::string::StrSliceExecFns;
use vstd::string::StringExecFns;

use crate::classify::{AssetKind, PayloadKind, classify, classify_spec, has_prefix, starts_with};
use crate::compression::{compress, decompress, zlib_deflated, zlib_inflated};
use crate::error::CodecError;
use crate::shop_db::{ShopDatabase, parse_shop_db, shop_db_spec};
use crate::header::{
    HEADER_LEN,
    hex_decode_spec,
    hex_digit,
    hex_of,
    lemma_hex_round_trip,
    parse_hex,
    render_hex,
};
use crate::text::{
    chars_of,
    find_from,
    first_occurrence_from,
    last_occurrence,
    last_occurrence_upto,
    lemma_trim_push_space,
    occurs_at,
    rfind,
    trim_bounds,
    trim_spec,
};
use crate::transcode::{decode_legacy, encode_legacy, euc_kr_decoded, euc_kr_encoded};

verus! {

/// The decoded form of a container's payload.
pub enum Artifact {
    /// A raw image asset of a recognised format; the header is not kept.
    Asset { kind: AssetKind, bytes: Vec<u8> },
    /// Markup text with the header appended as a trailing marker comment;
    /// `lossy` tells whether decoding replaced malformed sequences.
    Document { text: String, lossy: bool },
}

/// The mathematical content of an [`Artifact`].
pub enum ArtifactView {
    Asset { kind: AssetKind, bytes: Seq<u8> },
    Document { text: Seq<char>, lossy: bool },
}

impl View for Artifact {
    type V = ArtifactView;

    open spec fn view(&self) -> ArtifactView {
        match self {
            Artifact::Asset { kind, bytes } => ArtifactView::Asset { kind: *kind, bytes: bytes@ },
            Artifact::Document { text, lossy } => ArtifactView::Document {
                text: text@,
                lossy: *lossy,
            },
        }
    }
}

/// Opens the comment that carries the header in a text document.
pub open spec fn marker_spec() -> Seq<char> {
    "<!-- IDO HEADER: "@
}

/// Closes the comment that carries the header in a text document.
pub open spec fn end_marker_spec() -> Seq<char> {
    " -->"@
}

/// A text document: the body, a newline, and the header as a marker comment.
pub open spec fn document_spec(body: Seq<char>, header: Seq<u8>) -> Seq<char> {
    body + "\n"@ + marker_spec() + hex_of(header) + end_marker_spec()
}

pub open spec fn header_spec(container: Seq<u8>) -> Seq<u8> {
    container.subrange(0, HEADER_LEN as int)
}

pub open spec fn payload_spec(container: Seq<u8>) -> Seq<u8> {
    container.subrange(HEADER_LEN as int, container.len() as int)
}

/// What a container decodes into.
pub open spec fn decode_spec(container: Seq<u8>) -> Result<ArtifactView, CodecError> {
    if container.len() < HEADER_LEN {
        Err(CodecError::TruncatedInput)
    } else {
        match zlib_inflated(payload_spec(container)) {
            None => Err(CodecError::CorruptStream),
            Some(p) => match classify_spec(p) {
                PayloadKind::Asset(k) => Ok(ArtifactView::Asset { kind: k, bytes: p }),
                PayloadKind::LegacyText => Ok(
                    ArtifactView::Document {
                        text: document_spec(euc_kr_decoded(p).0, header_spec(container)),
                        lossy: euc_kr_decoded(p).1,
                    },
                ),
            },
        }
    }
}

/// What a text document encodes into: the container bytes, and whether any
/// character of the body could not be represented.
pub open spec fn encode_spec(text: Seq<char>) -> Result<(Seq<u8>, bool), CodecError> {
    match last_occurrence(text, marker_spec()) {
        None => Err(CodecError::MissingHeaderMarker),
        Some(start) => {
            let after = start + marker_spec().len();
            match first_occurrence_from(text, end_marker_spec(), after) {
                None => Err(CodecError::MalformedHeaderMarker),
                Some(stop) => match hex_decode_spec(text.subrange(after, stop)) {
                    None => Err(CodecError::MalformedHeader),
                    Some(header) => {
                        let legacy = euc_kr_encoded(trim_spec(text.subrange(0, start)));
                        Ok((header + zlib_deflated(legacy.0), legacy.1))
                    },
                },
            }
        },
    }
}

/// Reads the fixed-length header at the start of a container; fails with
/// `TruncatedInput` where the container is shorter.
pub fn read_header(container: &[u8]) -> (r: Result<Vec<u8>, CodecError>)
    ensures
        container@.len() < HEADER_LEN ==> r is Err && r->Err_0 == CodecError::TruncatedInput,
        container@.len() >= HEADER_LEN ==> r is Ok && r->Ok_0@ == header_spec(container@),
{
    if container.len() < HEADER_LEN {
        return Err(CodecError::TruncatedInput);
    }
    let mut header: Vec<u8> = Vec::new();
    header.extend_from_slice(&container[0..HEADER_LEN]);
    Ok(header)
}

/// Decodes a container: reads the header, decompresses the rest, classifies
/// the payload, and gives either the raw asset or the transcoded text with
/// the header appended as a marker comment.
pub fn decode(container: &[u8]) -> (r: Result<Artifact, CodecError>)
    ensures
        match r {
            Ok(a) => decode_spec(container@) == Ok::<ArtifactView, CodecError>(a@),
            Err(e) => decode_spec(container@) == Err::<ArtifactView, CodecError>(e),
        },
{
    let header = match read_header(container) {
        Ok(h) => h,
        Err(e) => return Err(e),
    };
    let payload = match decompress(&container[HEADER_LEN..container.len()]) {
        Ok(p) => p,
        Err(e) => return Err(e),
    };
    match classify(payload.as_slice()) {
        PayloadKind::Asset(kind) => Ok(Artifact::Asset { kind, bytes: payload }),
        PayloadKind::LegacyText => {
            let (body, lossy) = decode_legacy(payload.as_slice());
            let hex = render_hex(header.as_slice());
            let mut text = body;
            text.append("\n");
            text.append("<!-- IDO HEADER: ");
            text.append(hex.as_str());
            text.append(" -->");
            proof {
                reveal_strlit("<!-- IDO HEADER: ");
                reveal_strlit(" -->");
                reveal_strlit("\n");
            }
            Ok(Artifact::Document { text, lossy })
        },
    }
}

/// Encodes a text document into a container: finds the last header marker,
/// parses the hex it holds, and appends to that header the compressed EUC-KR
/// encoding of the trimmed text before the marker. The flag tells whether
/// any character could not be represented.
pub fn encode(text: &str) -> (r: Result<(Vec<u8>, bool), CodecError>)
    ensures
        match r {
            Ok(c) => encode_spec(text@) == Ok::<(Seq<u8>, bool), CodecError>((c.0@, c.1)),
            Err(e) => encode_spec(text@) == Err::<(Seq<u8>, bool), CodecError>(e),
        },
{
    let t = chars_of(text);
    let marker = chars_of("<!-- IDO HEADER: ");
    let end_marker = chars_of(" -->");
    let start = match rfind(&t, &marker) {
        Some(i) => i,
        None => return Err(CodecError::MissingHeaderMarker),
    };
    assert(marker@ == marker_spec());
    assert(last_occurrence(text@, marker_spec()) == Some(start as int));
    let tn: usize = t.len();
    assert(start + marker@.len() <= tn);
    let after = start + marker.len();
    let stop = match find_from(&t, &end_marker, after) {
        Some(j) => j,
        None => {
            assert(first_occurrence_from(text@, end_marker_spec(), after as int) is None);
            return Err(CodecError::MalformedHeaderMarker);
        },
    };
    let mut header = match parse_hex(text.substring_char(after, stop)) {
        Ok(h) => h,
        Err(e) => return Err(e),
    };
    let body = text.substring_char(0, start);
    let body_chars = chars_of(body);
    let (lo, hi) = trim_bounds(&body_chars);
    let (legacy, lossy) = encode_legacy(body.substring_char(lo, hi));
    let compressed = compress(legacy.as_slice());
    assert(body_chars@ == text@.subrange(0, start as int));
    assert(legacy@ == euc_kr_encoded(trim_spec(text@.subrange(0, start as int))).0);
    header.extend_from_slice(compressed.as_slice());
    assert(header@ == hex_decode_spec(text@.subrange(after as int, stop as int))->Some_0
        + zlib_deflated(legacy@));
    Ok((header, lossy))
}


/// Leading bytes that mark a shop database rather than a container.
pub open spec fn shop_db_magic() -> Seq<u8> {
    seq![0x01u8, 0x00u8, 0x01u8, 0x00u8]
}

/// What a file given for decompiling turns out to hold.
pub enum Decompiled {
    ShopDatabase(ShopDatabase),
    Artifact(Artifact),
}

/// Decompiles a file: one shorter than the header is refused, one that
/// opens with the shop database magic is parsed as a shop database, and any
/// other is decoded as a container.
pub fn decompile(data: &[u8]) -> (r: Result<Decompiled, CodecError>)
    ensures
        data@.len() < HEADER_LEN ==> r is Err && r->Err_0 == CodecError::TruncatedInput,
        data@.len() >= HEADER_LEN && starts_with(data@, shop_db_magic()) ==> (r matches Ok(
            Decompiled::ShopDatabase(db),
        ) && shop_db_spec(data@, db)),
        data@.len() >= HEADER_LEN && !starts_with(data@, shop_db_magic()) ==> match r {
            Ok(Decompiled::Artifact(a)) => decode_spec(data@) == Ok::<ArtifactView, CodecError>(
                a@,
            ),
            Ok(Decompiled::ShopDatabase(_)) => false,
            Err(e) => decode_spec(data@) == Err::<ArtifactView, CodecError>(e),
        },
{
    if data.len() < HEADER_LEN {
        return Err(CodecError::TruncatedInput);
    }
    let magic: [u8; 4] = [0x01, 0x00, 0x01, 0x00];
    assert(magic@ =~= shop_db_magic());
    if has_prefix(data, magic.as_slice()) {
        Ok(Decompiled::ShopDatabase(parse_shop_db(data)))
    } else {
        match decode(data) {
            Ok(a) => Ok(Decompiled::Artifact(a)),
            Err(e) => Err(e),
        }
    }
}

proof fn lemma_last_before(t: Seq<char>, m: Seq<char>, lo: int, k: int)
    requires
        0 <= lo <= k,
        m.len() > 0,
        forall|j: int| lo < j <= k && j < t.len() ==> t[j] != m[0],
    ensures
        last_occurrence_upto(t, m, k) == last_occurrence_upto(t, m, lo),
    decreases k - lo,
{
    if k > lo {
        if occurs_at(t, m, k) {
            assert(t.subrange(k, k + m.len())[0] == t[k]);
        }
        lemma_last_before(t, m, lo, k - 1);
    }
}

proof fn lemma_first_after(t: Seq<char>, m: Seq<char>, k: int, stop: int)
    requires
        0 <= k <= stop,
        m.len() > 0,
        forall|j: int| k <= j < stop ==> t[j] != m[0],
        occurs_at(t, m, stop),
    ensures
        first_occurrence_from(t, m, k) == Some(stop),
    decreases stop - k,
{
    if k < stop {
        if occurs_at(t, m, k) {
            assert(t.subrange(k, k + m.len())[0] == t[k]);
        }
        lemma_first_after(t, m, k + 1, stop);
    }
}

/// Encoding a text document made of a body and a header gives back that
/// header, followed by the compressed EUC-KR encoding of the trimmed body.
pub proof fn lemma_encode_document(body: Seq<char>, header: Seq<u8>)
    ensures
        encode_spec(document_spec(body, header)) == Ok::<(Seq<u8>, bool), CodecError>(
            (
                header + zlib_deflated(euc_kr_encoded(trim_spec(body)).0),
                euc_kr_encoded(trim_spec(body)).1,
            ),
        ),
{
    reveal_strlit("<!-- IDO HEADER: ");
    reveal_strlit(" -->");
    reveal_strlit("\n");
    let t = document_spec(body, header);
    let m = marker_spec();
    let e = end_marker_spec();
    let hx = hex_of(header);
    let n = body.len() as int;
    let a = n + 1 + m.len();
    let stop = a + hx.len();
    assert(t.len() == stop + 4);
    assert(t.subrange(n + 1, a) =~= m);
    assert forall|j: int| 0 <= j < hx.len() implies #[trigger] t[a + j] == hx[j] by {}
    assert forall|j: int| 0 <= j < hx.len() implies (#[trigger] hx[j]) != '<' && hx[j] != ' ' by {
        let d = if j % 2 == 0 { header[j / 2] / 16 } else { header[j / 2] % 16 };
        assert(hx[j] == hex_digit(d as int));
    }
    assert forall|j: int| n + 1 < j < t.len() implies #[trigger] t[j] != '<' by {
        if j < a {
            assert(t[j] == m[j - n - 1]);
        } else if j < stop {
            assert(t[j] == hx[j - a]);
        } else {
            assert(t[j] == e[j - stop]);
        }
    }
    lemma_last_before(t, m, n + 1, t.len() - m.len());
    assert(last_occurrence(t, m) == Some(n + 1));
    assert(t.subrange(stop, stop + 4) =~= e);
    assert forall|j: int| a <= j < stop implies #[trigger] t[j] != ' ' by {
        assert(t[j] == hx[j - a]);
    }
    lemma_first_after(t, e, a, stop);
    assert(t.subrange(a, stop) =~= hx);
    lemma_hex_round_trip(header);
    assert(t.subrange(0, n + 1) =~= body.push('\n'));
    lemma_trim_push_space(body, '\n');
}

/// Encoding the text document that decoding a container produced gives
/// back the container's header byte for byte, followed by the compressed
/// EUC-KR encoding of the trimmed decoded payload text.
pub proof fn lemma_decode_encode_keeps_header(container: Seq<u8>)
    requires
        decode_spec(container) is Ok,
        decode_spec(container)->Ok_0 is Document,
    ensures
        ({
            let p = zlib_inflated(payload_spec(container))->Some_0;
            let legacy = euc_kr_encoded(trim_spec(euc_kr_decoded(p).0));
            encode_spec(decode_spec(container)->Ok_0->Document_text) == Ok::<
                (Seq<u8>, bool),
                CodecError,
            >((header_spec(container) + zlib_deflated(legacy.0), legacy.1))
        }),
{
    let p = zlib_inflated(payload_spec(container))->Some_0;
    lemma_encode_document(euc_kr_decoded(p).0, header_spec(container));
}

} // verus!
