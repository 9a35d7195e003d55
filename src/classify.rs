//! Deciding what a decompressed payload holds, by its magic bytes.

use vstd::prelude::*;

verus! {

/// Image formats that a payload can be recognised as.
#[derive(Debug, Clone, Copy, PartialEq, Eq, Structural)]
pub enum AssetKind {
    Dds,
    Tga,
    Bmp,
    Png,
}

/// The outcome of classifying a decompressed payload.
#[derive(Debug, Clone, Copy, PartialEq, Eq, Structural)]
pub enum PayloadKind {
    /// Raw binary asset of a known image format.
    Asset(AssetKind),
    /// Anything else: text in the legacy double-byte encoding.
    LegacyText,
}

pub open spec fn starts_with(s: Seq<u8>, p: Seq<u8>) -> bool {
    p.len() <= s.len() && s.subrange(0, p.len() as int) == p
}

pub open spec fn ends_with(s: Seq<u8>, p: Seq<u8>) -> bool {
    p.len() <= s.len() && s.subrange(s.len() - p.len(), s.len() as int) == p
}

/// `DDS `: leading magic of a compressed texture.
pub open spec fn dds_magic() -> Seq<u8> {
    seq![0x44u8, 0x44u8, 0x53u8, 0x20u8]
}

/// `TRUEVISION-XFILE.\0`: trailing footer of a truecolor image.
pub open spec fn tga_footer() -> Seq<u8> {
    seq![
        0x54u8, 0x52u8, 0x55u8, 0x45u8, 0x56u8, 0x49u8, 0x53u8, 0x49u8, 0x4Fu8,
        0x4Eu8, 0x2Du8, 0x58u8, 0x46u8, 0x49u8, 0x4Cu8, 0x45u8, 0x2Eu8, 0x00u8,
    ]
}

/// `BM`: leading magic of a bitmap.
pub open spec fn bmp_magic() -> Seq<u8> {
    seq![0x42u8, 0x4Du8]
}

/// `\x89PNG`: leading magic of a portable network image.
pub open spec fn png_magic() -> Seq<u8> {
    seq![0x89u8, 0x50u8, 0x4Eu8, 0x47u8]
}

/// The classification, checks taken in fixed priority order.
pub open spec fn classify_spec(data: Seq<u8>) -> PayloadKind {
    if starts_with(data, dds_magic()) {
        PayloadKind::Asset(AssetKind::Dds)
    } else if ends_with(data, tga_footer()) {
        PayloadKind::Asset(AssetKind::Tga)
    } else if starts_with(data, bmp_magic()) {
        PayloadKind::Asset(AssetKind::Bmp)
    } else if starts_with(data, png_magic()) {
        PayloadKind::Asset(AssetKind::Png)
    } else {
        PayloadKind::LegacyText
    }
}

pub open spec fn extension_spec(kind: AssetKind) -> Seq<char> {
    match kind {
        AssetKind::Dds => "dds"@,
        AssetKind::Tga => "tga"@,
        AssetKind::Bmp => "bmp"@,
        AssetKind::Png => "png"@,
    }
}

impl AssetKind {
    /// The file extension conventionally used for this format.
    pub fn extension(&self) -> (r: &'static str)
        ensures
            r@ == extension_spec(*self),
    {
        match self {
            AssetKind::Dds => "dds",
            AssetKind::Tga => "tga",
            AssetKind::Bmp => "bmp",
            AssetKind::Png => "png",
        }
    }
}

pub(crate) fn has_prefix(data: &[u8], magic: &[u8]) -> (r: bool)
    ensures
        r == starts_with(data@, magic@),
{
    if magic.len() > data.len() {
        return false;
    }
    let mut i: usize = 0;
    while i < magic.len()
        invariant
            magic@.len() <= data@.len(),
            i <= magic@.len(),
            forall|j: int| 0 <= j < i ==> data@[j] == magic@[j],
        decreases magic@.len() - i,
    {
        if data[i] != magic[i] {
            assert(data@.subrange(0, magic@.len() as int)[i as int] != magic@[i as int]);
            return false;
        }
        i = i + 1;
    }
    assert(data@.subrange(0, magic@.len() as int) =~= magic@);
    true
}

fn has_suffix(data: &[u8], magic: &[u8]) -> (r: bool)
    ensures
        r == ends_with(data@, magic@),
{
    if magic.len() > data.len() {
        return false;
    }
    let n: usize = data.len();
    let start: usize = n - magic.len();
    let mut i: usize = 0;
    while i < magic.len()
        invariant
            magic@.len() <= data@.len(),
            n == data@.len(),
            start == data@.len() - magic@.len(),
            i <= magic@.len(),
            forall|j: int| 0 <= j < i ==> data@[start + j] == magic@[j],
        decreases magic@.len() - i,
    {
        if data[start + i] != magic[i] {
            assert(data@.subrange(start as int, data@.len() as int)[i as int] != magic@[i as int]);
            return false;
        }
        i = i + 1;
    }
    assert(data@.subrange(start as int, data@.len() as int) =~= magic@);
    true
}

/// Classifies a decompressed payload: the compressed-texture magic first,
/// then the truecolor footer, the bitmap magic, the portable network image
/// magic, and legacy text when none matches.
pub fn classify(data: &[u8]) -> (r: PayloadKind)
    ensures
        r == classify_spec(data@),
{
    let dds: [u8; 4] = [0x44, 0x44, 0x53, 0x20];
    let tga: [u8; 18] = [
        0x54, 0x52, 0x55, 0x45, 0x56, 0x49, 0x53, 0x49, 0x4F, 0x4E, 0x2D, 0x58, 0x46, 0x49,
        0x4C, 0x45, 0x2E, 0x00,
    ];
    let bmp: [u8; 2] = [0x42, 0x4D];
    let png: [u8; 4] = [0x89, 0x50, 0x4E, 0x47];
    assert(dds@ =~= dds_magic());
    assert(tga@ =~= tga_footer());
    assert(bmp@ =~= bmp_magic());
    assert(png@ =~= png_magic());
    if has_prefix(data, dds.as_slice()) {
        PayloadKind::Asset(AssetKind::Dds)
    } else if has_suffix(data, tga.as_slice()) {
        PayloadKind::Asset(AssetKind::Tga)
    } else if has_prefix(data, bmp.as_slice()) {
        PayloadKind::Asset(AssetKind::Bmp)
    } else if has_prefix(data, png.as_slice()) {
        PayloadKind::Asset(AssetKind::Png)
    } else {
        PayloadKind::LegacyText
    }
}

/// A payload that opens with the compressed-texture magic is a texture of
/// that kind, whatever it ends with.
pub proof fn lemma_texture_magic_wins(data: Seq<u8>)
    requires
        starts_with(data, dds_magic()),
    ensures
        classify_spec(data) == PayloadKind::Asset(AssetKind::Dds),
{
}

} // verus!
