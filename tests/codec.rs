use ido_codec::classify::{classify, AssetKind, PayloadKind};
use ido_codec::compression::{compress, decompress};
use ido_codec::container::{decode, decompile, encode, read_header, Artifact, Decompiled};
use ido_codec::error::CodecError;
use ido_codec::header::{parse_hex, render_hex, HEADER_LEN};
use ido_codec::shop_db::{parse_shop_db, parse_utf16_string, RECORD_SIZE};
use ido_codec::transcode::{decode_legacy, encode_legacy};

fn sequential_header() -> Vec<u8> {
    (0u8..95).collect()
}

fn container_of(header: &[u8], payload: &[u8]) -> Vec<u8> {
    let mut c = header.to_vec();
    c.extend_from_slice(&compress(payload));
    c
}

fn document_of(artifact: Artifact) -> (String, bool) {
    match artifact {
        Artifact::Document { text, lossy } => (text, lossy),
        Artifact::Asset { .. } => panic!("expected a text document"),
    }
}

#[test]
fn compress_round_trip_empty() {
    let c = compress(&[]);
    assert!(!c.is_empty());
    assert_eq!(decompress(&c).unwrap(), Vec::<u8>::new());
}

#[test]
fn compress_round_trip_bytes() {
    let data: Vec<u8> = (0..2000u32).map(|i| (i * 7 % 251) as u8).collect();
    let c = compress(&data);
    assert_ne!(c, data);
    assert_eq!(decompress(&c).unwrap(), data);
}

#[test]
fn decompress_rejects_garbage() {
    assert_eq!(decompress(b"not a zlib stream"), Err(CodecError::CorruptStream));
}

#[test]
fn hex_round_trip_of_header() {
    let h = sequential_header();
    let text = render_hex(&h);
    assert_eq!(text.len(), 190);
    assert!(text.starts_with("000102030405060708090a0b"));
    assert!(text.ends_with("5c5d5e"));
    assert_eq!(parse_hex(&text).unwrap(), h);
}

#[test]
fn hex_of_high_bytes() {
    assert_eq!(render_hex(&[0xff, 0x00, 0xab]), "ff00ab");
    assert_eq!(parse_hex("FF00aB").unwrap(), vec![0xff, 0x00, 0xab]);
}

#[test]
fn hex_rejects_odd_length_and_bad_digits() {
    assert_eq!(parse_hex("abc"), Err(CodecError::MalformedHeader));
    assert_eq!(parse_hex("zz"), Err(CodecError::MalformedHeader));
    assert_eq!(parse_hex(""), Ok(vec![]));
}

#[test]
fn read_header_needs_full_length() {
    assert_eq!(read_header(&[0u8; 94]), Err(CodecError::TruncatedInput));
    let h = sequential_header();
    assert_eq!(read_header(&h).unwrap(), h);
}

#[test]
fn classify_kinds() {
    assert_eq!(classify(b"DDS rest"), PayloadKind::Asset(AssetKind::Dds));
    assert_eq!(classify(b"xxTRUEVISION-XFILE.\0"), PayloadKind::Asset(AssetKind::Tga));
    assert_eq!(classify(b"BMxxxx"), PayloadKind::Asset(AssetKind::Bmp));
    assert_eq!(classify(b"\x89PNG\r\n"), PayloadKind::Asset(AssetKind::Png));
    assert_eq!(classify(b"<ui></ui>"), PayloadKind::LegacyText);
    assert_eq!(classify(b""), PayloadKind::LegacyText);
    assert_eq!(AssetKind::Tga.extension(), "tga");
}

#[test]
fn classify_texture_magic_wins_over_footer() {
    assert_eq!(
        classify(b"DDS payloadTRUEVISION-XFILE.\0"),
        PayloadKind::Asset(AssetKind::Dds)
    );
}

#[test]
fn decode_binary_asset() {
    let png = b"\x89PNG\r\n\x1a\nimage".to_vec();
    let c = container_of(&sequential_header(), &png);
    match decode(&c).unwrap() {
        Artifact::Asset { kind, bytes } => {
            assert_eq!(kind, AssetKind::Png);
            assert_eq!(bytes, png);
        }
        Artifact::Document { .. } => panic!("expected an asset"),
    }
}

#[test]
fn decode_errors() {
    assert_eq!(decode(&[1u8; 10]).err(), Some(CodecError::TruncatedInput));
    let mut c = sequential_header();
    c.extend_from_slice(b"garbage");
    assert_eq!(decode(&c).err(), Some(CodecError::CorruptStream));
}

#[test]
fn end_to_end_scenario() {
    let header = sequential_header();
    let c = container_of(&header, b"<title>Test</title>");
    let (text, lossy) = document_of(decode(&c).unwrap());
    assert!(!lossy);
    let expected_hex: String = (0u8..95).map(|b| format!("{:02x}", b)).collect();
    assert_eq!(
        text,
        format!("<title>Test</title>\n<!-- IDO HEADER: {} -->", expected_hex)
    );
    let (rebuilt, lossy) = encode(&text).unwrap();
    assert!(!lossy);
    assert_eq!(rebuilt, c);
}

#[test]
fn korean_text_round_trip() {
    // "한글" in EUC-KR
    let payload = vec![b'<', b'a', b'>', 0xC7, 0xD1, 0xB1, 0xDB, b'<', b'/', b'a', b'>'];
    let header: Vec<u8> = (0..95).map(|i| (i * 3) as u8).collect();
    let c = container_of(&header, &payload);
    let (text, lossy) = document_of(decode(&c).unwrap());
    assert!(!lossy);
    assert!(text.starts_with("<a>한글</a>\n"));
    let (rebuilt, _) = encode(&text).unwrap();
    assert_eq!(&rebuilt[..HEADER_LEN], &header[..]);
    assert_eq!(decompress(&rebuilt[HEADER_LEN..]).unwrap(), payload);
}

#[test]
fn encode_missing_marker() {
    assert_eq!(encode("<ui></ui>"), Err(CodecError::MissingHeaderMarker));
}

#[test]
fn encode_unclosed_marker() {
    assert_eq!(
        encode("<ui></ui>\n<!-- IDO HEADER: 0011"),
        Err(CodecError::MalformedHeaderMarker)
    );
}

#[test]
fn encode_bad_hex() {
    assert_eq!(
        encode("<ui></ui>\n<!-- IDO HEADER: 0g -->"),
        Err(CodecError::MalformedHeader)
    );
}

#[test]
fn encode_uses_last_marker_and_trims() {
    let text = "  <!-- IDO HEADER: ff --> body \n<!-- IDO HEADER: 0102 -->";
    let (c, lossy) = encode(text).unwrap();
    assert!(!lossy);
    assert_eq!(&c[..2], &[1u8, 2]);
    assert_eq!(decompress(&c[2..]).unwrap(), b"<!-- IDO HEADER: ff --> body".to_vec());
}

#[test]
fn transcode_legacy() {
    let (text, lossy) = decode_legacy(&[0xC7, 0xD1]);
    assert_eq!(text, "한");
    assert!(!lossy);
    let (_, lossy) = decode_legacy(&[0xC7]);
    assert!(lossy);
    let (bytes, lossy) = encode_legacy("한a");
    assert_eq!(bytes, vec![0xC7, 0xD1, b'a']);
    assert!(!lossy);
    let (_, lossy) = encode_legacy("\u{1F600}");
    assert!(lossy);
}

fn utf16(s: &str) -> Vec<u8> {
    s.encode_utf16().flat_map(|u| u.to_le_bytes()).collect()
}

#[test]
fn utf16_name_stops_at_nul_and_trims() {
    let mut buf = utf16("  Sword ");
    let k = buf.len();
    buf.extend_from_slice(&[0, 0]);
    buf.extend_from_slice(&utf16("junk"));
    buf.resize(100, 0);
    assert_eq!(k % 2, 0);
    assert_eq!(parse_utf16_string(&buf), "Sword");
    assert_eq!(parse_utf16_string(&[0u8; 100]), "");
    assert_eq!(parse_utf16_string(&utf16("검")), "검");
}

fn record(category: u16, name: &str) -> Vec<u8> {
    let mut r = vec![0u8; RECORD_SIZE];
    r[0..2].copy_from_slice(&category.to_le_bytes());
    r[2..4].copy_from_slice(&513u16.to_le_bytes());
    r[4..6].copy_from_slice(&(-2i16).to_le_bytes());
    r[6..8].copy_from_slice(&1i16.to_le_bytes());
    r[0x0C] = 7;
    r[0x38..0x3C].copy_from_slice(&(-100000i32).to_le_bytes());
    let n = utf16(name);
    r[0x64..0x64 + n.len()].copy_from_slice(&n);
    r
}

#[test]
fn shop_db_records_and_remainder() {
    let mut data = record(0x0101, "Potion");
    data.extend_from_slice(&record(9, " Shield  "));
    data.extend_from_slice(&[5u8; 10]);
    let db = parse_shop_db(&data);
    assert!(db.truncated);
    assert_eq!(db.items.len(), 2);
    let a = &db.items[0];
    assert_eq!(a.category, 0x0101);
    assert_eq!(a.item_type_id, 513);
    assert_eq!(a.variant_id, -2);
    assert_eq!(a.validity, 1);
    assert_eq!(a.type_flag, 7);
    assert_eq!(a.set_item_id, -100000);
    assert_eq!(a.name, "Potion");
    assert_eq!(db.items[1].name, "Shield");
    assert_eq!(db.items[1].category, 9);
}

#[test]
fn shop_db_exact_multiple() {
    let data = record(3, "A");
    let db = parse_shop_db(&data);
    assert!(!db.truncated);
    assert_eq!(db.items.len(), 1);
    assert!(parse_shop_db(&[]).items.is_empty());
}

#[test]
fn decompile_dispatches() {
    let mut data = record(0x0001, "X");
    data[2..4].copy_from_slice(&1u16.to_le_bytes());
    match decompile(&data).unwrap() {
        Decompiled::ShopDatabase(db) => assert_eq!(db.items[0].name, "X"),
        Decompiled::Artifact(_) => panic!("expected a shop database"),
    }
    let c = container_of(&sequential_header(), b"DDS tex");
    match decompile(&c).unwrap() {
        Decompiled::Artifact(Artifact::Asset { kind, .. }) => assert_eq!(kind, AssetKind::Dds),
        _ => panic!("expected a texture"),
    }
    assert!(matches!(decompile(&[1, 0, 1, 0]), Err(CodecError::TruncatedInput)));
}
