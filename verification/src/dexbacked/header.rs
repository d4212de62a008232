use vstd::prelude::*;
use crate::base::leb128::{decode_uleb128, spec_decode_uleb128};
use crate::base::mutf8::{decode_mutf8_with_length, mutf8_error_message, spec_decode_mutf8_counted, Mutf8Error};
use crate::base::text::{decimal, push_decimal};

verus! {

// ---------------------------------------------------------------------------------------------
// Little-endian integers
// ---------------------------------------------------------------------------------------------

/// The little-endian 16-bit value at `off`.
pub open spec fn spec_u16_le(data: Seq<u8>, off: int) -> u16 {
    (data[off] + 256 * data[off + 1]) as u16
}

/// The little-endian 32-bit value at `off`.
pub open spec fn spec_u32_le(data: Seq<u8>, off: int) -> u32 {
    (data[off] + 256 * data[off + 1] + 65536 * data[off + 2] + 16777216 * data[off + 3]) as u32
}

/// The little-endian 64-bit value at `off`.
pub open spec fn spec_u64_le(data: Seq<u8>, off: int) -> u64 {
    (spec_u32_le(data, off) + 4294967296 * spec_u32_le(data, off + 4)) as u64
}

pub fn read_u16_le(data: &[u8], offset: usize) -> (res: u16)
    requires
        offset + 2 <= data.len(),
    ensures
        res == spec_u16_le(data@, offset as int),
{
    data[offset] as u16 + (data[offset + 1] as u16) * 256
}

pub fn read_u32_le(data: &[u8], offset: usize) -> (res: u32)
    requires
        offset + 4 <= data.len(),
    ensures
        res == spec_u32_le(data@, offset as int),
{
    data[offset] as u32 + (data[offset + 1] as u32) * 256 + (data[offset + 2] as u32) * 65536 + (
    data[offset + 3] as u32) * 16777216
}

pub fn read_i16_le(data: &[u8], offset: usize) -> (res: i16)
    requires
        offset + 2 <= data.len(),
    ensures
        res == spec_u16_le(data@, offset as int) as i16,
{
    read_u16_le(data, offset) as i16
}

pub fn read_i32_le(data: &[u8], offset: usize) -> (res: i32)
    requires
        offset + 4 <= data.len(),
    ensures
        res == spec_u32_le(data@, offset as int) as i32,
{
    read_u32_le(data, offset) as i32
}

pub fn read_i64_le(data: &[u8], offset: usize) -> (res: i64)
    requires
        offset + 8 <= data.len(),
    ensures
        res == spec_u64_le(data@, offset as int) as i64,
{
    let lo = read_u32_le(data, offset) as u64;
    let hi = read_u32_le(data, offset + 4) as u64;
    (lo + hi * 4294967296) as i64
}

// ---------------------------------------------------------------------------------------------
// The header
// ---------------------------------------------------------------------------------------------

/// The fixed 0x70-byte header at the start of a dex file.
#[derive(Debug, Clone, Copy)]
pub struct DexHeader {
    pub magic: [u8; 8],
    pub checksum: u32,
    pub signature: [u8; 20],
    pub file_size: u32,
    pub header_size: u32,
    pub endian_tag: u32,
    pub link_size: u32,
    pub link_off: u32,
    pub map_off: u32,
    pub string_ids_size: u32,
    pub string_ids_off: u32,
    pub type_ids_size: u32,
    pub type_ids_off: u32,
    pub proto_ids_size: u32,
    pub proto_ids_off: u32,
    pub field_ids_size: u32,
    pub field_ids_off: u32,
    pub method_ids_size: u32,
    pub method_ids_off: u32,
    pub class_defs_size: u32,
    pub class_defs_off: u32,
    pub data_size: u32,
    pub data_off: u32,
}

/// Whether the data starts with `dex\n`.
pub open spec fn has_dex_magic(data: Seq<u8>) -> bool {
    &&& data.len() >= 4
    &&& data[0] == 0x64
    &&& data[1] == 0x65
    &&& data[2] == 0x78
    &&& data[3] == 0x0A
}

/// Whether `h` holds the header fields read from `data`.
pub open spec fn header_matches(h: DexHeader, data: Seq<u8>) -> bool {
    &&& h.magic@ == data.subrange(0, 8)
    &&& h.checksum == spec_u32_le(data, 8)
    &&& h.signature@ == data.subrange(12, 32)
    &&& h.file_size == spec_u32_le(data, 32)
    &&& h.header_size == spec_u32_le(data, 36)
    &&& h.endian_tag == spec_u32_le(data, 40)
    &&& h.link_size == spec_u32_le(data, 44)
    &&& h.link_off == spec_u32_le(data, 48)
    &&& h.map_off == spec_u32_le(data, 52)
    &&& h.string_ids_size == spec_u32_le(data, 56)
    &&& h.string_ids_off == spec_u32_le(data, 60)
    &&& h.type_ids_size == spec_u32_le(data, 64)
    &&& h.type_ids_off == spec_u32_le(data, 68)
    &&& h.proto_ids_size == spec_u32_le(data, 72)
    &&& h.proto_ids_off == spec_u32_le(data, 76)
    &&& h.field_ids_size == spec_u32_le(data, 80)
    &&& h.field_ids_off == spec_u32_le(data, 84)
    &&& h.method_ids_size == spec_u32_le(data, 88)
    &&& h.method_ids_off == spec_u32_le(data, 92)
    &&& h.class_defs_size == spec_u32_le(data, 96)
    &&& h.class_defs_off == spec_u32_le(data, 100)
    &&& h.data_size == spec_u32_le(data, 104)
    &&& h.data_off == spec_u32_le(data, 108)
}

/// Whether every byte is ASCII.
pub open spec fn all_ascii(bytes: Seq<u8>) -> bool {
    forall|i: int| 0 <= i < bytes.len() ==> bytes[i] < 0x80
}

/// The ASCII bytes as text.
pub open spec fn ascii_text(bytes: Seq<u8>) -> Seq<char> {
    bytes.map_values(|b: u8| b as char)
}

/// `std::str::from_utf8`, with its error dropped: the bytes as text exactly where they are valid
/// UTF-8, decoded; ASCII bytes in particular read as themselves.
#[verifier::external_body]
fn utf8_text(bytes: &[u8]) -> (res: Option<&str>)
    ensures
        (res is Some) == vstd::utf8::valid_utf8(bytes@),
        res matches Some(s) ==> s@ == vstd::utf8::decode_utf8(bytes@),
        all_ascii(bytes@) ==> res is Some && res.unwrap()@ == ascii_text(bytes@),
{
    std::str::from_utf8(bytes).ok()
}

impl DexHeader {
    /// Reads the header; fails on data shorter than the header or without the `dex\n` magic.
    pub fn parse(data: &[u8]) -> (res: Result<Self, String>)
        ensures
            data.len() < 0x70 ==> (res matches Err(e) && e@ == "DEX file too small for header"@),
            data.len() >= 0x70 && !has_dex_magic(data@) ==> (res matches Err(e) && e@
                == "Invalid DEX magic"@),
            data.len() >= 0x70 && has_dex_magic(data@) ==> (res matches Ok(h) && header_matches(
                h,
                data@,
            )),
    {
        if data.len() < 0x70 {
            return Err("DEX file too small for header".to_string());
        }
        if !(data[0] == 0x64 && data[1] == 0x65 && data[2] == 0x78 && data[3] == 0x0A) {
            return Err("Invalid DEX magic".to_string());
        }
        let magic: [u8; 8] = [data[0], data[1], data[2], data[3], data[4], data[5], data[6], data[7]];
        let signature: [u8; 20] = [
            data[12],
            data[13],
            data[14],
            data[15],
            data[16],
            data[17],
            data[18],
            data[19],
            data[20],
            data[21],
            data[22],
            data[23],
            data[24],
            data[25],
            data[26],
            data[27],
            data[28],
            data[29],
            data[30],
            data[31],
        ];
        assert(magic@ =~= data@.subrange(0, 8));
        assert(signature@ =~= data@.subrange(12, 32));
        Ok(
            DexHeader {
                magic,
                checksum: read_u32_le(data, 8),
                signature,
                file_size: read_u32_le(data, 32),
                header_size: read_u32_le(data, 36),
                endian_tag: read_u32_le(data, 40),
                link_size: read_u32_le(data, 44),
                link_off: read_u32_le(data, 48),
                map_off: read_u32_le(data, 52),
                string_ids_size: read_u32_le(data, 56),
                string_ids_off: read_u32_le(data, 60),
                type_ids_size: read_u32_le(data, 64),
                type_ids_off: read_u32_le(data, 68),
                proto_ids_size: read_u32_le(data, 72),
                proto_ids_off: read_u32_le(data, 76),
                field_ids_size: read_u32_le(data, 80),
                field_ids_off: read_u32_le(data, 84),
                method_ids_size: read_u32_le(data, 88),
                method_ids_off: read_u32_le(data, 92),
                class_defs_size: read_u32_le(data, 96),
                class_defs_off: read_u32_le(data, 100),
                data_size: read_u32_le(data, 104),
                data_off: read_u32_le(data, 108),
            },
        )
    }

    /// The version digits of the magic (bytes 4 to 6), or `???` where they are not text.
    pub fn dex_version(&self) -> (res: &str)
        ensures
            all_ascii(self.magic@.subrange(4, 7)) ==> res@ == ascii_text(
                self.magic@.subrange(4, 7),
            ),
            vstd::utf8::valid_utf8(self.magic@.subrange(4, 7)) ==> res@ == vstd::utf8::decode_utf8(
                self.magic@.subrange(4, 7),
            ),
            !vstd::utf8::valid_utf8(self.magic@.subrange(4, 7)) ==> res@ == "???"@,
    {
        let version = vstd::slice::slice_subrange(self.magic.as_slice(), 4, 7);
        match utf8_text(version) {
            Some(s) => s,
            None => "???",
        }
    }
}

// ---------------------------------------------------------------------------------------------
// Id tables
// ---------------------------------------------------------------------------------------------

/// Whether a table of `count` entries of `width` bytes at `offset` lies inside the data, with
/// the offset of each entry a 32-bit value.
pub open spec fn table_fits(len: int, offset: u32, count: u32, width: int) -> bool {
    count > 0 ==> {
        &&& offset + width * count <= len
        &&& offset + width * (count - 1) <= u32::MAX
    }
}

#[derive(Debug, Clone, Copy)]
pub struct StringIdItem {
    pub string_data_off: u32,
}

/// Entry `i` of the string id table at `offset`.
pub open spec fn string_id_at(data: Seq<u8>, offset: u32, i: int) -> StringIdItem {
    StringIdItem { string_data_off: spec_u32_le(data, offset + 4 * i) }
}

pub fn parse_string_ids(data: &[u8], offset: u32, count: u32) -> (res: Vec<StringIdItem>)
    requires
        table_fits(data.len() as int, offset, count, 4),
    ensures
        res@.len() == count,
        forall|i: int| 0 <= i < count ==> #[trigger] res@[i] == string_id_at(data@, offset, i),
{
    let mut result: Vec<StringIdItem> = Vec::new();
    let mut i: u32 = 0;
    while i < count
        invariant
            i <= count,
            table_fits(data.len() as int, offset, count, 4),
            result@.len() == i,
            forall|k: int| 0 <= k < i ==> #[trigger] result@[k] == string_id_at(data@, offset, k),
        decreases count - i,
    {
        assert(offset + 4 * i + 4 <= data.len()) by (nonlinear_arith)
            requires
                offset + 4 * count <= data.len(),
                i < count,
        ;
        let off = (offset + i * 4) as usize;
        result.push(StringIdItem { string_data_off: read_u32_le(data, off) });
        i += 1;
    }
    result
}

#[derive(Debug, Clone, Copy)]
pub struct TypeIdItem {
    pub descriptor_idx: u32,
}

/// Entry `i` of the type id table at `offset`.
pub open spec fn type_id_at(data: Seq<u8>, offset: u32, i: int) -> TypeIdItem {
    TypeIdItem { descriptor_idx: spec_u32_le(data, offset + 4 * i) }
}

pub fn parse_type_ids(data: &[u8], offset: u32, count: u32) -> (res: Vec<TypeIdItem>)
    requires
        table_fits(data.len() as int, offset, count, 4),
    ensures
        res@.len() == count,
        forall|i: int| 0 <= i < count ==> #[trigger] res@[i] == type_id_at(data@, offset, i),
{
    let mut result: Vec<TypeIdItem> = Vec::new();
    let mut i: u32 = 0;
    while i < count
        invariant
            i <= count,
            table_fits(data.len() as int, offset, count, 4),
            result@.len() == i,
            forall|k: int| 0 <= k < i ==> #[trigger] result@[k] == type_id_at(data@, offset, k),
        decreases count - i,
    {
        assert(offset + 4 * i + 4 <= data.len()) by (nonlinear_arith)
            requires
                offset + 4 * count <= data.len(),
                i < count,
        ;
        let off = (offset + i * 4) as usize;
        result.push(TypeIdItem { descriptor_idx: read_u32_le(data, off) });
        i += 1;
    }
    result
}

#[derive(Debug, Clone, Copy)]
pub struct ProtoIdItem {
    pub shorty_idx: u32,
    pub return_type_idx: u32,
    pub parameters_off: u32,
}

/// Entry `i` of the proto id table at `offset`.
pub open spec fn proto_id_at(data: Seq<u8>, offset: u32, i: int) -> ProtoIdItem {
    ProtoIdItem {
        shorty_idx: spec_u32_le(data, offset + 12 * i),
        return_type_idx: spec_u32_le(data, offset + 12 * i + 4),
        parameters_off: spec_u32_le(data, offset + 12 * i + 8),
    }
}

pub fn parse_proto_ids(data: &[u8], offset: u32, count: u32) -> (res: Vec<ProtoIdItem>)
    requires
        table_fits(data.len() as int, offset, count, 12),
    ensures
        res@.len() == count,
        forall|i: int| 0 <= i < count ==> #[trigger] res@[i] == proto_id_at(data@, offset, i),
{
    let mut result: Vec<ProtoIdItem> = Vec::new();
    let mut i: u32 = 0;
    while i < count
        invariant
            i <= count,
            table_fits(data.len() as int, offset, count, 12),
            result@.len() == i,
            forall|k: int| 0 <= k < i ==> #[trigger] result@[k] == proto_id_at(data@, offset, k),
        decreases count - i,
    {
        assert(offset + 12 * i + 12 <= data.len()) by (nonlinear_arith)
            requires
                offset + 12 * count <= data.len(),
                i < count,
        ;
        let off = (offset + i * 12) as usize;
        result.push(
            ProtoIdItem {
                shorty_idx: read_u32_le(data, off),
                return_type_idx: read_u32_le(data, off + 4),
                parameters_off: read_u32_le(data, off + 8),
            },
        );
        i += 1;
    }
    result
}

/// Whether the type list at `off` (a 32-bit size, then that many 16-bit indices) lies inside
/// the data; offset 0 stands for an empty list.
pub open spec fn type_list_fits(data: Seq<u8>, off: u32) -> bool {
    off != 0 ==> {
        &&& off + 4 <= data.len()
        &&& off + 4 + 2 * spec_u32_le(data, off as int) <= data.len()
    }
}

/// The entries of the type list at `off`; offset 0 stands for an empty list.
pub open spec fn type_list(data: Seq<u8>, off: u32) -> Seq<u16> {
    if off == 0 {
        Seq::empty()
    } else {
        Seq::new(
            spec_u32_le(data, off as int) as nat,
            |i: int| spec_u16_le(data, off + 4 + 2 * i),
        )
    }
}

pub fn parse_proto_parameter_types(data: &[u8], parameters_off: u32) -> (res: Vec<u32>)
    requires
        type_list_fits(data@, parameters_off),
    ensures
        res@ == type_list(data@, parameters_off).map_values(|t: u16| t as u32),
{
    if parameters_off == 0 {
        let res: Vec<u32> = Vec::new();
        assert(res@ =~= type_list(data@, parameters_off).map_values(|t: u16| t as u32));
        return res;
    }
    let off = parameters_off as usize;
    let size = read_u32_le(data, off) as usize;
    let mut result: Vec<u32> = Vec::new();
    let mut i: usize = 0;
    while i < size
        invariant
            i <= size,
            size == spec_u32_le(data@, off as int),
            off == parameters_off,
            off + 4 + 2 * size <= data.len(),
            result@.len() == i,
            forall|k: int|
                0 <= k < i ==> #[trigger] result@[k] == spec_u16_le(data@, off + 4 + 2 * k) as u32,
        decreases size - i,
    {
        assert(off + 4 + 2 * i + 2 <= data.len());
        result.push(read_u16_le(data, off + 4 + i * 2) as u32);
        i += 1;
    }
    assert(result@ =~= type_list(data@, parameters_off).map_values(|t: u16| t as u32));
    result
}

#[derive(Debug, Clone, Copy)]
pub struct FieldIdItem {
    pub class_idx: u16,
    pub type_idx: u16,
    pub name_idx: u32,
}

/// Entry `i` of the field id table at `offset`.
pub open spec fn field_id_at(data: Seq<u8>, offset: u32, i: int) -> FieldIdItem {
    FieldIdItem {
        class_idx: spec_u16_le(data, offset + 8 * i),
        type_idx: spec_u16_le(data, offset + 8 * i + 2),
        name_idx: spec_u32_le(data, offset + 8 * i + 4),
    }
}

pub fn parse_field_ids(data: &[u8], offset: u32, count: u32) -> (res: Vec<FieldIdItem>)
    requires
        table_fits(data.len() as int, offset, count, 8),
    ensures
        res@.len() == count,
        forall|i: int| 0 <= i < count ==> #[trigger] res@[i] == field_id_at(data@, offset, i),
{
    let mut result: Vec<FieldIdItem> = Vec::new();
    let mut i: u32 = 0;
    while i < count
        invariant
            i <= count,
            table_fits(data.len() as int, offset, count, 8),
            result@.len() == i,
            forall|k: int| 0 <= k < i ==> #[trigger] result@[k] == field_id_at(data@, offset, k),
        decreases count - i,
    {
        assert(offset + 8 * i + 8 <= data.len()) by (nonlinear_arith)
            requires
                offset + 8 * count <= data.len(),
                i < count,
        ;
        let off = (offset + i * 8) as usize;
        result.push(
            FieldIdItem {
                class_idx: read_u16_le(data, off),
                type_idx: read_u16_le(data, off + 2),
                name_idx: read_u32_le(data, off + 4),
            },
        );
        i += 1;
    }
    result
}

#[derive(Debug, Clone, Copy)]
pub struct MethodIdItem {
    pub class_idx: u16,
    pub proto_idx: u16,
    pub name_idx: u32,
}

/// Entry `i` of the method id table at `offset`.
pub open spec fn method_id_at(data: Seq<u8>, offset: u32, i: int) -> MethodIdItem {
    MethodIdItem {
        class_idx: spec_u16_le(data, offset + 8 * i),
        proto_idx: spec_u16_le(data, offset + 8 * i + 2),
        name_idx: spec_u32_le(data, offset + 8 * i + 4),
    }
}

pub fn parse_method_ids(data: &[u8], offset: u32, count: u32) -> (res: Vec<MethodIdItem>)
    requires
        table_fits(data.len() as int, offset, count, 8),
    ensures
        res@.len() == count,
        forall|i: int| 0 <= i < count ==> #[trigger] res@[i] == method_id_at(data@, offset, i),
{
    let mut result: Vec<MethodIdItem> = Vec::new();
    let mut i: u32 = 0;
    while i < count
        invariant
            i <= count,
            table_fits(data.len() as int, offset, count, 8),
            result@.len() == i,
            forall|k: int| 0 <= k < i ==> #[trigger] result@[k] == method_id_at(data@, offset, k),
        decreases count - i,
    {
        assert(offset + 8 * i + 8 <= data.len()) by (nonlinear_arith)
            requires
                offset + 8 * count <= data.len(),
                i < count,
        ;
        let off = (offset + i * 8) as usize;
        result.push(
            MethodIdItem {
                class_idx: read_u16_le(data, off),
                proto_idx: read_u16_le(data, off + 2),
                name_idx: read_u32_le(data, off + 4),
            },
        );
        i += 1;
    }
    result
}

#[derive(Debug, Clone, Copy)]
pub struct ClassDefItem {
    pub class_idx: u32,
    pub access_flags: u32,
    pub superclass_idx: u32,
    pub interfaces_off: u32,
    pub source_file_idx: u32,
    pub annotations_off: u32,
    pub class_data_off: u32,
    pub static_values_off: u32,
}

/// Entry `i` of the class def table at `offset`.
pub open spec fn class_def_at(data: Seq<u8>, offset: u32, i: int) -> ClassDefItem {
    ClassDefItem {
        class_idx: spec_u32_le(data, offset + 32 * i),
        access_flags: spec_u32_le(data, offset + 32 * i + 4),
        superclass_idx: spec_u32_le(data, offset + 32 * i + 8),
        interfaces_off: spec_u32_le(data, offset + 32 * i + 12),
        source_file_idx: spec_u32_le(data, offset + 32 * i + 16),
        annotations_off: spec_u32_le(data, offset + 32 * i + 20),
        class_data_off: spec_u32_le(data, offset + 32 * i + 24),
        static_values_off: spec_u32_le(data, offset + 32 * i + 28),
    }
}

pub fn parse_class_defs(data: &[u8], offset: u32, count: u32) -> (res: Vec<ClassDefItem>)
    requires
        table_fits(data.len() as int, offset, count, 32),
    ensures
        res@.len() == count,
        forall|i: int| 0 <= i < count ==> #[trigger] res@[i] == class_def_at(data@, offset, i),
{
    let mut result: Vec<ClassDefItem> = Vec::new();
    let mut i: u32 = 0;
    while i < count
        invariant
            i <= count,
            table_fits(data.len() as int, offset, count, 32),
            result@.len() == i,
            forall|k: int| 0 <= k < i ==> #[trigger] result@[k] == class_def_at(data@, offset, k),
        decreases count - i,
    {
        assert(offset + 32 * i + 32 <= data.len()) by (nonlinear_arith)
            requires
                offset + 32 * count <= data.len(),
                i < count,
        ;
        let off = (offset + i * 32) as usize;
        result.push(
            ClassDefItem {
                class_idx: read_u32_le(data, off),
                access_flags: read_u32_le(data, off + 4),
                superclass_idx: read_u32_le(data, off + 8),
                interfaces_off: read_u32_le(data, off + 12),
                source_file_idx: read_u32_le(data, off + 16),
                annotations_off: read_u32_le(data, off + 20),
                class_data_off: read_u32_le(data, off + 24),
                static_values_off: read_u32_le(data, off + 28),
            },
        );
        i += 1;
    }
    result
}

pub fn parse_interface_list(data: &[u8], interfaces_off: u32) -> (res: Vec<u16>)
    requires
        type_list_fits(data@, interfaces_off),
    ensures
        res@ == type_list(data@, interfaces_off),
{
    if interfaces_off == 0 {
        let res: Vec<u16> = Vec::new();
        assert(res@ =~= type_list(data@, interfaces_off));
        return res;
    }
    let off = interfaces_off as usize;
    let size = read_u32_le(data, off) as usize;
    let mut result: Vec<u16> = Vec::new();
    let mut i: usize = 0;
    while i < size
        invariant
            i <= size,
            size == spec_u32_le(data@, off as int),
            off == interfaces_off,
            off + 4 + 2 * size <= data.len(),
            result@.len() == i,
            forall|k: int| 0 <= k < i ==> #[trigger] result@[k] == spec_u16_le(data@, off + 4 + 2 * k),
        decreases size - i,
    {
        assert(off + 4 + 2 * i + 2 <= data.len());
        result.push(read_u16_le(data, off + 4 + i * 2));
        i += 1;
    }
    assert(result@ =~= type_list(data@, interfaces_off));
    result
}

// ---------------------------------------------------------------------------------------------
// String data
// ---------------------------------------------------------------------------------------------

/// The string at `off`: its length in UTF-16 units as unsigned LEB128, then its MUTF-8 bytes.
pub open spec fn spec_string_data(data: Seq<u8>, off: int) -> Result<Seq<char>, Mutf8Error> {
    let (len, pos) = spec_decode_uleb128(data, off);
    spec_decode_mutf8_counted(data.subrange(pos, data.len() as int), 0, len as int)
}

/// The message of a string that could not be read.
pub open spec fn string_error_message(e: Mutf8Error) -> Seq<char> {
    "MUTF-8 decode error: "@ + mutf8_error_message(e)
}

pub fn parse_string_data(data: &[u8], string_data_off: u32) -> (res: Result<String, String>)
    requires
        string_data_off <= data.len(),
    ensures
        match spec_string_data(data@, string_data_off as int) {
            Ok(t) => res matches Ok(s) && s@ == t,
            Err(e) => res matches Err(m) && m@ == string_error_message(e),
        },
{
    let off = string_data_off as usize;
    let (utf16_len, pos) = decode_uleb128(data, off);
    let rest = vstd::slice::slice_subrange(data, pos, data.len());
    match decode_mutf8_with_length(rest, utf16_len as usize) {
        Ok(s) => Ok(s),
        Err(e) => {
            let mut msg = String::new();
            msg.append("MUTF-8 decode error: ");
            let detail = e.to_string();
            msg.append(detail.as_str());
            Err(msg)
        },
    }
}

// ---------------------------------------------------------------------------------------------
// Class data
// ---------------------------------------------------------------------------------------------

#[derive(Debug, Clone, Copy)]
pub struct ClassDataHeader {
    pub static_fields_size: u32,
    pub instance_fields_size: u32,
    pub direct_methods_size: u32,
    pub virtual_methods_size: u32,
}

/// A field of a class: its field index (the running sum of the encoded differences) and flags.
#[derive(Debug, Clone, Copy)]
pub struct ClassDataField {
    pub field_idx_diff: u32,
    pub access_flags: u32,
}

/// A method of a class: its method index (the running sum of the encoded differences), flags
/// and code offset.
#[derive(Debug, Clone, Copy)]
pub struct ClassDataMethod {
    pub method_idx_diff: u32,
    pub access_flags: u32,
    pub code_off: u32,
}

/// `count` encoded fields read from `pos`, their indices summed from `base`: the fields, the
/// position after them, and whether every running sum fits in 32 bits.
pub open spec fn spec_class_fields(data: Seq<u8>, pos: int, count: nat, base: int) -> (
    Seq<ClassDataField>,
    int,
    bool,
)
    decreases count,
{
    if count == 0 {
        (Seq::empty(), pos, true)
    } else {
        let (diff, p1) = spec_decode_uleb128(data, pos);
        let (flags, p2) = spec_decode_uleb128(data, p1);
        let idx = base + diff;
        let rest = spec_class_fields(data, p2, (count - 1) as nat, idx);
        (
            seq![ClassDataField { field_idx_diff: idx as u32, access_flags: flags }] + rest.0,
            rest.1,
            idx <= u32::MAX && rest.2,
        )
    }
}

/// `count` encoded methods read from `pos`, their indices summed from `base`: the methods, the
/// position after them, and whether every running sum fits in 32 bits.
pub open spec fn spec_class_methods(data: Seq<u8>, pos: int, count: nat, base: int) -> (
    Seq<ClassDataMethod>,
    int,
    bool,
)
    decreases count,
{
    if count == 0 {
        (Seq::empty(), pos, true)
    } else {
        let (diff, p1) = spec_decode_uleb128(data, pos);
        let (flags, p2) = spec_decode_uleb128(data, p1);
        let (code_off, p3) = spec_decode_uleb128(data, p2);
        let idx = base + diff;
        let rest = spec_class_methods(data, p3, (count - 1) as nat, idx);
        (
            seq![
                ClassDataMethod { method_idx_diff: idx as u32, access_flags: flags, code_off },
            ] + rest.0,
            rest.1,
            idx <= u32::MAX && rest.2,
        )
    }
}

fn parse_fields(data: &[u8], pos: &mut usize, count: usize) -> (res: Vec<ClassDataField>)
    requires
        spec_class_fields(data@, *old(pos) as int, count as nat, 0).2,
    ensures
        res@ == spec_class_fields(data@, *old(pos) as int, count as nat, 0).0,
        *final(pos) == spec_class_fields(data@, *old(pos) as int, count as nat, 0).1,
{
    let ghost whole = spec_class_fields(data@, *pos as int, count as nat, 0);
    let mut result: Vec<ClassDataField> = Vec::new();
    let mut field_idx: u32 = 0;
    let mut i: usize = 0;
    while i < count
        invariant
            i <= count,
            whole.0 == result@ + spec_class_fields(data@, *pos as int, (count - i) as nat, field_idx as int).0,
            whole.1 == spec_class_fields(data@, *pos as int, (count - i) as nat, field_idx as int).1,
            spec_class_fields(data@, *pos as int, (count - i) as nat, field_idx as int).2,
        decreases count - i,
    {
        let ghost rest_before = spec_class_fields(data@, *pos as int, (count - i) as nat, field_idx as int);
        let (idx_diff, new_pos) = decode_uleb128(data, *pos);
        *pos = new_pos;
        let (access_flags, new_pos) = decode_uleb128(data, *pos);
        *pos = new_pos;
        field_idx = field_idx + idx_diff;
        let item = ClassDataField { field_idx_diff: field_idx, access_flags };
        proof {
            let rest_after = spec_class_fields(data@, *pos as int, (count - i - 1) as nat, field_idx as int);
            assert(rest_before.0 == seq![item] + rest_after.0);
            assert(result@.push(item) + rest_after.0 =~= result@ + (seq![item] + rest_after.0));
        }
        result.push(item);
        i += 1;
    }
    assert(whole.0 =~= result@);
    result
}

fn parse_methods(data: &[u8], pos: &mut usize, count: usize) -> (res: Vec<ClassDataMethod>)
    requires
        spec_class_methods(data@, *old(pos) as int, count as nat, 0).2,
    ensures
        res@ == spec_class_methods(data@, *old(pos) as int, count as nat, 0).0,
        *final(pos) == spec_class_methods(data@, *old(pos) as int, count as nat, 0).1,
{
    let ghost whole = spec_class_methods(data@, *pos as int, count as nat, 0);
    let mut result: Vec<ClassDataMethod> = Vec::new();
    let mut method_idx: u32 = 0;
    let mut i: usize = 0;
    while i < count
        invariant
            i <= count,
            whole.0 == result@ + spec_class_methods(data@, *pos as int, (count - i) as nat, method_idx as int).0,
            whole.1 == spec_class_methods(data@, *pos as int, (count - i) as nat, method_idx as int).1,
            spec_class_methods(data@, *pos as int, (count - i) as nat, method_idx as int).2,
        decreases count - i,
    {
        let ghost rest_before = spec_class_methods(data@, *pos as int, (count - i) as nat, method_idx as int);
        let (idx_diff, new_pos) = decode_uleb128(data, *pos);
        *pos = new_pos;
        let (access_flags, new_pos) = decode_uleb128(data, *pos);
        *pos = new_pos;
        let (code_off, new_pos) = decode_uleb128(data, *pos);
        *pos = new_pos;
        method_idx = method_idx + idx_diff;
        let item = ClassDataMethod { method_idx_diff: method_idx, access_flags, code_off };
        proof {
            let rest_after = spec_class_methods(data@, *pos as int, (count - i - 1) as nat, method_idx as int);
            assert(rest_before.0 == seq![item] + rest_after.0);
            assert(result@.push(item) + rest_after.0 =~= result@ + (seq![item] + rest_after.0));
        }
        result.push(item);
        i += 1;
    }
    assert(whole.0 =~= result@);
    result
}

/// The class data at `off`: its four sizes, then its static fields, instance fields, direct
/// methods and virtual methods, and whether every running index sum fits in 32 bits.
pub open spec fn spec_class_data(data: Seq<u8>, off: int) -> (
    ClassDataHeader,
    Seq<ClassDataField>,
    Seq<ClassDataField>,
    Seq<ClassDataMethod>,
    Seq<ClassDataMethod>,
    bool,
) {
    let (s, p1) = spec_decode_uleb128(data, off);
    let (n, p2) = spec_decode_uleb128(data, p1);
    let (d, p3) = spec_decode_uleb128(data, p2);
    let (v, p4) = spec_decode_uleb128(data, p3);
    let sf = spec_class_fields(data, p4, s as nat, 0);
    let inf = spec_class_fields(data, sf.1, n as nat, 0);
    let dm = spec_class_methods(data, inf.1, d as nat, 0);
    let vm = spec_class_methods(data, dm.1, v as nat, 0);
    (
        ClassDataHeader {
            static_fields_size: s,
            instance_fields_size: n,
            direct_methods_size: d,
            virtual_methods_size: v,
        },
        sf.0,
        inf.0,
        dm.0,
        vm.0,
        sf.2 && inf.2 && dm.2 && vm.2,
    )
}

pub fn parse_class_data(data: &[u8], class_data_off: u32) -> (res: Result<
    (ClassDataHeader, Vec<ClassDataField>, Vec<ClassDataField>, Vec<ClassDataMethod>, Vec<ClassDataMethod>),
    String,
>)
    requires
        spec_class_data(data@, class_data_off as int).5,
    ensures
        res matches Ok((h, sf, inf, dm, vm)) && {
            let c = spec_class_data(data@, class_data_off as int);
            &&& h == c.0
            &&& sf@ == c.1
            &&& inf@ == c.2
            &&& dm@ == c.3
            &&& vm@ == c.4
        },
{
    let mut pos = class_data_off as usize;
    let (static_fields_size, p) = decode_uleb128(data, pos);
    pos = p;
    let (instance_fields_size, p) = decode_uleb128(data, pos);
    pos = p;
    let (direct_methods_size, p) = decode_uleb128(data, pos);
    pos = p;
    let (virtual_methods_size, p) = decode_uleb128(data, pos);
    pos = p;
    let header = ClassDataHeader {
        static_fields_size,
        instance_fields_size,
        direct_methods_size,
        virtual_methods_size,
    };
    let static_fields = parse_fields(data, &mut pos, static_fields_size as usize);
    let instance_fields = parse_fields(data, &mut pos, instance_fields_size as usize);
    let direct_methods = parse_methods(data, &mut pos, direct_methods_size as usize);
    let virtual_methods = parse_methods(data, &mut pos, virtual_methods_size as usize);
    Ok((header, static_fields, instance_fields, direct_methods, virtual_methods))
}

// ---------------------------------------------------------------------------------------------
// Code items
// ---------------------------------------------------------------------------------------------

/// A try item: the 32-bit address of its first code unit, the 16-bit number of code units it
/// covers four bytes in, and the 16-bit offset of its handler list six bytes in.
#[derive(Debug, Clone, Copy)]
pub struct TryBlockRaw {
    pub start_addr: u32,
    pub insn_count: u16,
    pub handler_off: u16,
}

/// The header fields, code units and try items of a method's code.
#[derive(Debug, Clone)]
pub struct CodeItem {
    pub registers_size: u16,
    pub ins_size: u16,
    pub outs_size: u16,
    pub tries_size: u16,
    pub debug_info_off: u32,
    pub insns: Vec<u16>,
    pub try_blocks: Vec<TryBlockRaw>,
}

/// The number of code units of the code item at `off`.
pub open spec fn code_insns_size(data: Seq<u8>, off: int) -> int {
    spec_u32_le(data, off + 12) as int
}

/// The end of the code units of the code item at `off`.
pub open spec fn code_insns_end(data: Seq<u8>, off: int) -> int {
    off + 16 + 2 * code_insns_size(data, off)
}

/// Where the try items of the code item at `off` start: after the code units, padded to four
/// bytes.
pub open spec fn code_tries_start(data: Seq<u8>, off: int) -> int {
    code_insns_end(data, off) + if code_insns_size(data, off) % 2 == 1 {
        2int
    } else {
        0int
    }
}

/// Try item `i` of the code item at `off`.
pub open spec fn code_try_at(data: Seq<u8>, off: int, i: int) -> TryBlockRaw {
    let t = code_tries_start(data, off) + 8 * i;
    TryBlockRaw {
        start_addr: spec_u32_le(data, t),
        insn_count: spec_u16_le(data, t + 4),
        handler_off: spec_u16_le(data, t + 6),
    }
}

/// Whether the code item at `code_off` passes the parser's checks.
pub open spec fn code_item_in_bounds(data: Seq<u8>, code_off: u32) -> bool {
    &&& code_off != 0
    &&& code_off + 16 <= data.len()
    &&& code_insns_end(data, code_off as int) <= data.len()
}

/// Whether the try items of a code item that passes the checks lie inside the data (the parser
/// reads them without checking).
pub open spec fn code_item_tries_fit(data: Seq<u8>, code_off: u32) -> bool {
    let tries = spec_u16_le(data, code_off + 6) as int;
    code_item_in_bounds(data, code_off) && tries > 0 ==> code_tries_start(data, code_off as int)
        + 8 * tries <= data.len()
}

/// The message for a code item header that does not fit.
pub open spec fn header_overflow_message(off: int, len: int) -> Seq<char> {
    "code_item header at "@ + decimal(off as nat) + " exceeds data length "@ + decimal(len as nat)
}

/// The message for code units that do not fit.
pub open spec fn insns_overflow_message(size: int, off: int, len: int, end: int) -> Seq<char> {
    "insns_size "@ + decimal(size as nat) + " at offset "@ + decimal(off as nat)
        + " exceeds data length "@ + decimal(len as nat) + " (end would be "@ + decimal(end as nat)
        + ")"@
}

pub fn parse_code_item(data: &[u8], code_off: u32) -> (res: Result<CodeItem, String>)
    requires
        code_item_tries_fit(data@, code_off),
    ensures
        code_off == 0 ==> (res matches Err(e) && e@ == "code_off is 0"@),
        code_off != 0 && code_off + 16 > data.len() ==> (res matches Err(e) && e@
            == header_overflow_message(code_off as int, data.len() as int)),
        code_off != 0 && code_off + 16 <= data.len() && code_insns_end(data@, code_off as int)
            > data.len() ==> (res matches Err(e) && e@ == insns_overflow_message(
            code_insns_size(data@, code_off as int),
            code_off as int,
            data.len() as int,
            code_insns_end(data@, code_off as int),
        )),
        code_item_in_bounds(data@, code_off) ==> (res matches Ok(c) && {
            let off = code_off as int;
            let tries = spec_u16_le(data@, off + 6);
            &&& c.registers_size == spec_u16_le(data@, off)
            &&& c.ins_size == spec_u16_le(data@, off + 2)
            &&& c.outs_size == spec_u16_le(data@, off + 4)
            &&& c.tries_size == tries
            &&& c.debug_info_off == spec_u32_le(data@, off + 8)
            &&& c.insns@ == Seq::new(
                code_insns_size(data@, off) as nat,
                |i: int| spec_u16_le(data@, off + 16 + 2 * i),
            )
            &&& c.try_blocks@ == Seq::new(tries as nat, |i: int| code_try_at(data@, off, i))
        }),
{
    if code_off == 0 {
        return Err("code_off is 0".to_string());
    }
    let off = code_off as usize;
    if (off as u64) + 16 > data.len() as u64 {
        let mut msg = String::new();
        msg.append("code_item header at ");
        push_decimal(&mut msg, off as u64);
        msg.append(" exceeds data length ");
        push_decimal(&mut msg, data.len() as u64);
        return Err(msg);
    }
    let registers_size = read_u16_le(data, off);
    let ins_size = read_u16_le(data, off + 2);
    let outs_size = read_u16_le(data, off + 4);
    let tries_size = read_u16_le(data, off + 6);
    let debug_info_off = read_u32_le(data, off + 8);
    let insns_size = read_u32_le(data, off + 12) as usize;
    let insns_start = off + 16;
    let insns_end_wide: u64 = (insns_start as u64) + (insns_size as u64) * 2;
    if insns_end_wide > data.len() as u64 {
        let mut msg = String::new();
        msg.append("insns_size ");
        push_decimal(&mut msg, insns_size as u64);
        msg.append(" at offset ");
        push_decimal(&mut msg, off as u64);
        msg.append(" exceeds data length ");
        push_decimal(&mut msg, data.len() as u64);
        msg.append(" (end would be ");
        push_decimal(&mut msg, insns_end_wide);
        msg.append(")");
        return Err(msg);
    }
    let insns_end = insns_start + insns_size * 2;
    let mut insns: Vec<u16> = Vec::new();
    let mut i: usize = 0;
    while i < insns_size
        invariant
            i <= insns_size,
            insns_start == off + 16,
            insns_end == insns_start + 2 * insns_size,
            insns_end <= data.len(),
            insns@.len() == i,
            forall|k: int| 0 <= k < i ==> #[trigger] insns@[k] == spec_u16_le(data@, insns_start + 2 * k),
        decreases insns_size - i,
    {
        insns.push(read_u16_le(data, insns_start + i * 2));
        i += 1;
    }
    let mut try_blocks: Vec<TryBlockRaw> = Vec::new();
    if tries_size > 0 {
        let padding: usize = if insns_size % 2 == 1 {
            2
        } else {
            0
        };
        let tries_start = insns_start + insns_size * 2 + padding;
        let count = tries_size as usize;
        let mut t: usize = 0;
        while t < count
            invariant
                t <= count,
                count == tries_size,
                tries_start == code_tries_start(data@, off as int),
                tries_start + 8 * count <= data.len(),
                try_blocks@.len() == t,
                forall|k: int| 0 <= k < t ==> #[trigger] try_blocks@[k] == code_try_at(data@, off as int, k),
            decreases count - t,
        {
            let try_off = tries_start + t * 8;
            try_blocks.push(
                TryBlockRaw {
                    start_addr: read_u32_le(data, try_off),
                    insn_count: read_u16_le(data, try_off + 4),
                    handler_off: read_u16_le(data, try_off + 6),
                },
            );
            t += 1;
        }
    }
    let item = CodeItem {
        registers_size,
        ins_size,
        outs_size,
        tries_size,
        debug_info_off,
        insns,
        try_blocks,
    };
    assert(item.insns@ =~= Seq::new(
        code_insns_size(data@, off as int) as nat,
        |i: int| spec_u16_le(data@, off + 16 + 2 * i),
    ));
    assert(item.try_blocks@ =~= Seq::new(tries_size as nat, |i: int| code_try_at(data@, off as int, i)));
    Ok(item)
}

} // verus!
