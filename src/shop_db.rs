//! The shop database: a headerless array of fixed-width item records.

use vstd::prelude::*;
use vstd::string::StrSliceExecFns;
use vstd::string::StringExecFns;

use crate::text::{chars_of, trim_bounds, trim_spec};

verus! {

/// Size in bytes of one record.
pub const RECORD_SIZE: usize = 456;

/// Offset of the category (`u16`).
pub const CATEGORY_OFFSET: usize = 0x00;

/// Offset of the item type id (`u16`).
pub const TYPE_ID_OFFSET: usize = 0x02;

/// Offset of the variant id (`i16`).
pub const VARIANT_ID_OFFSET: usize = 0x04;

/// Offset of the validity (`i16`).
pub const VALIDITY_OFFSET: usize = 0x06;

/// Offset of the type flag (`u8`).
pub const TYPE_FLAG_OFFSET: usize = 0x0C;

/// Offset of the set item id (`i32`).
pub const SET_ITEM_ID_OFFSET: usize = 0x38;

/// Offset of the name: NUL-terminated little-endian UTF-16.
pub const NAME_OFFSET: usize = 0x64;

/// Length in bytes of the name field.
pub const NAME_LEN: usize = 100;

/// One item entry of the shop database.
#[derive(Debug, Clone)]
pub struct ShopItem {
    pub category: u16,
    pub item_type_id: u16,
    pub variant_id: i16,
    pub validity: i16,
    pub type_flag: u8,
    pub set_item_id: i32,
    pub name: String,
}

/// The mathematical content of a [`ShopItem`].
pub struct ShopItemView {
    pub category: u16,
    pub item_type_id: u16,
    pub variant_id: i16,
    pub validity: i16,
    pub type_flag: u8,
    pub set_item_id: i32,
    pub name: Seq<char>,
}

impl View for ShopItem {
    type V = ShopItemView;

    open spec fn view(&self) -> ShopItemView {
        ShopItemView {
            category: self.category,
            item_type_id: self.item_type_id,
            variant_id: self.variant_id,
            validity: self.validity,
            type_flag: self.type_flag,
            set_item_id: self.set_item_id,
            name: self.name@,
        }
    }
}

/// The parsed database; `truncated` tells that the input length was no
/// multiple of the record size and the trailing partial record was ignored.
#[derive(Debug, Clone)]
pub struct ShopDatabase {
    pub items: Vec<ShopItem>,
    pub truncated: bool,
}

/// What `String::from_utf16_lossy` makes of some UTF-16 code units.
pub uninterp spec fn utf16_lossy(units: Seq<u16>) -> Seq<char>;

pub open spec fn le_u16(b: Seq<u8>, off: int) -> u16 {
    (b[off] + 256 * b[off + 1]) as u16
}

pub open spec fn le_i16(b: Seq<u8>, off: int) -> i16 {
    let u = le_u16(b, off) as int;
    if u >= 0x8000 {
        (u - 0x10000) as i16
    } else {
        u as i16
    }
}

pub open spec fn le_u32(b: Seq<u8>, off: int) -> u32 {
    (b[off] + 0x100 * b[off + 1] + 0x10000 * b[off + 2] + 0x1000000 * b[off + 3]) as u32
}

pub open spec fn le_i32(b: Seq<u8>, off: int) -> i32 {
    let u = le_u32(b, off) as int;
    if u >= 0x8000_0000 {
        (u - 0x1_0000_0000) as i32
    } else {
        u as i32
    }
}

/// The little-endian code units of a byte buffer, a trailing odd byte left
/// out.
pub open spec fn utf16_units(b: Seq<u8>) -> Seq<u16> {
    Seq::new(b.len() / 2, |i: int| le_u16(b, 2 * i))
}

/// The index of the first NUL unit at or after `k`, or the length.
pub open spec fn first_nul(u: Seq<u16>, k: int) -> int
    decreases u.len() - k,
{
    if k >= u.len() || u[k] == 0 {
        k
    } else {
        first_nul(u, k + 1)
    }
}

/// The units before the first NUL.
pub open spec fn units_before_nul(u: Seq<u16>) -> Seq<u16> {
    u.subrange(0, first_nul(u, 0))
}

/// The decoded and trimmed name held by a name buffer.
pub open spec fn name_spec(b: Seq<u8>) -> Seq<char> {
    trim_spec(utf16_lossy(units_before_nul(utf16_units(b))))
}

/// The item that a record's bytes describe.
pub open spec fn record_spec(rec: Seq<u8>) -> ShopItemView {
    ShopItemView {
        category: le_u16(rec, CATEGORY_OFFSET as int),
        item_type_id: le_u16(rec, TYPE_ID_OFFSET as int),
        variant_id: le_i16(rec, VARIANT_ID_OFFSET as int),
        validity: le_i16(rec, VALIDITY_OFFSET as int),
        type_flag: rec[TYPE_FLAG_OFFSET as int],
        set_item_id: le_i32(rec, SET_ITEM_ID_OFFSET as int),
        name: name_spec(rec.subrange(NAME_OFFSET as int, (NAME_OFFSET + NAME_LEN) as int)),
    }
}

/// The bytes of the `i`-th record.
pub open spec fn record_bytes(data: Seq<u8>, i: int) -> Seq<u8> {
    data.subrange(i * RECORD_SIZE, i * RECORD_SIZE + RECORD_SIZE)
}

/// `db` holds one item for each whole record of `data`, in order, and
/// reports whether a partial record was left over.
pub open spec fn shop_db_spec(data: Seq<u8>, db: ShopDatabase) -> bool {
    &&& db.items@.len() == data.len() as int / (RECORD_SIZE as int)
    &&& forall|i: int|
        0 <= i < db.items@.len() ==> (#[trigger] db.items@[i])@ == record_spec(
            record_bytes(data, i),
        )
    &&& db.truncated == (data.len() as int % (RECORD_SIZE as int) != 0)
}

/// Relies on `String::from_utf16_lossy`: the result depends on the units
/// alone, and no units give the empty string.
#[verifier::external_body]
fn from_utf16_lossy(units: &[u16]) -> (r: String)
    ensures
        r@ == utf16_lossy(units@),
        units@.len() == 0 ==> r@.len() == 0,
{
    String::from_utf16_lossy(units)
}

fn read_u16_le(b: &[u8], off: usize) -> (r: u16)
    requires
        off + 2 <= b@.len(),
    ensures
        r == le_u16(b@, off as int),
{
    (b[off] as u16) + 256 * (b[off + 1] as u16)
}

fn read_i16_le(b: &[u8], off: usize) -> (r: i16)
    requires
        off + 2 <= b@.len(),
    ensures
        r == le_i16(b@, off as int),
{
    let u = read_u16_le(b, off);
    if u >= 0x8000 {
        (u as i32 - 0x10000) as i16
    } else {
        u as i16
    }
}

fn read_i32_le(b: &[u8], off: usize) -> (r: i32)
    requires
        off + 4 <= b@.len(),
    ensures
        r == le_i32(b@, off as int),
{
    let u: u32 = (b[off] as u32) + 0x100 * (b[off + 1] as u32) + 0x10000 * (b[off + 2] as u32)
        + 0x1000000 * (b[off + 3] as u32);
    if u >= 0x8000_0000 {
        (u as i64 - 0x1_0000_0000) as i32
    } else {
        u as i32
    }
}


/// Decodes a NUL-terminated little-endian UTF-16 buffer: the code units up
/// to the first NUL, decoded with replacement of unpaired surrogates, and
/// trimmed of surrounding whitespace.
pub fn parse_utf16_string(buffer: &[u8]) -> (r: String)
    ensures
        r@ == name_spec(buffer@),
{
    let ghost all = utf16_units(buffer@);
    let mut units: Vec<u16> = Vec::new();
    let n: usize = buffer.len();
    let count: usize = n / 2;
    let mut i: usize = 0;
    while i < count && read_u16_le(buffer, 2 * i) != 0
        invariant
            n == buffer@.len(),
            count == n / 2,
            all == utf16_units(buffer@),
            count == all.len(),
            i <= count,
            units@ == all.subrange(0, i as int),
            first_nul(all, 0) == first_nul(all, i as int),
        decreases count - i,
    {
        let unit = read_u16_le(buffer, 2 * i);
        assert(unit == all[i as int]);
        units.push(unit);
        assert(units@ =~= all.subrange(0, i + 1));
        i = i + 1;
    }
    assert(i < count ==> all[i as int] == le_u16(buffer@, 2 * i));
    assert(first_nul(all, i as int) == i);
    assert(units@ == units_before_nul(all));
    let decoded = from_utf16_lossy(units.as_slice());
    let chars = chars_of(decoded.as_str());
    let (lo, hi) = trim_bounds(&chars);
    String::from_str(decoded.as_str().substring_char(lo, hi))
}

/// Reads the record that starts at `offset`.
pub fn parse_record(data: &[u8], offset: usize) -> (r: ShopItem)
    requires
        offset + RECORD_SIZE <= data@.len(),
    ensures
        r@ == record_spec(data@.subrange(offset as int, offset + RECORD_SIZE)),
{
    let n: usize = data.len();
    let rec = &data[offset..offset + RECORD_SIZE];
    let name_end: usize = NAME_OFFSET + NAME_LEN;
    ShopItem {
        category: read_u16_le(rec, CATEGORY_OFFSET),
        item_type_id: read_u16_le(rec, TYPE_ID_OFFSET),
        variant_id: read_i16_le(rec, VARIANT_ID_OFFSET),
        validity: read_i16_le(rec, VALIDITY_OFFSET),
        type_flag: rec[TYPE_FLAG_OFFSET],
        set_item_id: read_i32_le(rec, SET_ITEM_ID_OFFSET),
        name: parse_utf16_string(&rec[NAME_OFFSET..name_end]),
    }
}

/// Parses every whole record of a shop database; a trailing partial record
/// is ignored and reported through `truncated`.
pub fn parse_shop_db(data: &[u8]) -> (r: ShopDatabase)
    ensures
        shop_db_spec(data@, r),
{
    let n: usize = data.len();
    let count: usize = n / RECORD_SIZE;
    let mut items: Vec<ShopItem> = Vec::new();
    let mut i: usize = 0;
    while i < count
        invariant
            n == data@.len(),
            count == data@.len() as int / (RECORD_SIZE as int),
            i <= count,
            items@.len() == i,
            forall|j: int|
                0 <= j < i ==> (#[trigger] items@[j])@ == record_spec(record_bytes(data@, j)),
        decreases count - i,
    {
        assert(i * RECORD_SIZE + RECORD_SIZE <= count * RECORD_SIZE) by (nonlinear_arith)
            requires
                i < count,
        ;
        assert(count * RECORD_SIZE <= data@.len()) by (nonlinear_arith)
            requires
                count == data@.len() as int / (RECORD_SIZE as int),
        ;
        let item = parse_record(data, i * RECORD_SIZE);
        items.push(item);
        i = i + 1;
    }
    ShopDatabase { items, truncated: data.len() % RECORD_SIZE != 0 }
}


/// Both bytes of the code unit at byte offset `j` are zero.
pub open spec fn nul_unit_at(b: Seq<u8>, j: int) -> bool {
    b[j] == 0 && b[j + 1] == 0
}

proof fn lemma_first_nul_at(u: Seq<u16>, k: int, z: int)
    requires
        0 <= k <= z < u.len(),
        u[z] == 0,
        forall|j: int| k <= j < z ==> u[j] != 0,
    ensures
        first_nul(u, k) == z,
    decreases z - k,
{
    if k < z {
        lemma_first_nul_at(u, k + 1, z);
    }
}

/// A name whose first NUL unit stands at the even byte offset `k` is the
/// UTF-16 decoding of the bytes before `k`, trimmed of whitespace.
pub proof fn lemma_name_ends_at_nul(b: Seq<u8>, k: int)
    requires
        b.len() == NAME_LEN,
        0 <= k,
        k % 2 == 0,
        k + 1 < b.len(),
        nul_unit_at(b, k),
        forall|j: int| 0 <= j < k && j % 2 == 0 ==> !#[trigger] nul_unit_at(b, j),
    ensures
        name_spec(b) == trim_spec(utf16_lossy(utf16_units(b.subrange(0, k)))),
{
    let u = utf16_units(b);
    assert forall|j: int| 0 <= j < k / 2 implies u[j] != 0 by {
        assert((2 * j) % 2 == 0);
        assert(!nul_unit_at(b, 2 * j));
    }
    lemma_first_nul_at(u, 0, k / 2);
    assert(u.subrange(0, k / 2) =~= utf16_units(b.subrange(0, k)));
}

} // verus!
