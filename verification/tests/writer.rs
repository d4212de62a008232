use dexlib_oxide::writer::checksum::{adler32, sha1};
use dexlib_oxide::writer::dex_pool::DexPool;
use dexlib_oxide::dexbacked::header::{parse_string_data, read_u32_le};
use dexlib_oxide::writer::dex_pool::shorty_char;
use dexlib_oxide::writer::dex_writer::DexWriter;
use dexlib_oxide::writer::memory_data_store::{DataStore, MemoryDataStore};
use dexlib_oxide::writer::pools::{ClassEntry, ClassPool};

#[test]
fn test_write_and_read() {
    let mut store = MemoryDataStore::new();
    store.write_at(0, &[0x01, 0x02, 0x03, 0x04]);
    assert_eq!(store.size(), 4);
    assert_eq!(&store.get_buffer()[0..4], &[0x01, 0x02, 0x03, 0x04]);
}

#[test]
fn memory_data_store_test_write_at_offset() {
    let mut store = MemoryDataStore::new();
    store.write_at(0, &[0x00; 10]);
    store.write_at(5, &[0xAA, 0xBB]);
    assert_eq!(store.get_buffer()[5], 0xAA);
    assert_eq!(store.get_buffer()[6], 0xBB);
}

#[test]
fn test_auto_extend() {
    let mut store = MemoryDataStore::new();
    store.write_at(100, &[0xFF]);
    assert_eq!(store.size(), 101);
}

#[test]
fn store_growth_fills_with_zeros() {
    let mut store = MemoryDataStore::with_capacity(4);
    store.write_at(2, &[]);
    assert_eq!(store.get_buffer(), &[0, 0]);
    store.ensure_capacity(1);
    assert_eq!(store.size(), 2);
    store.ensure_capacity(5);
    assert_eq!(store.get_buffer(), &[0, 0, 0, 0, 0]);
    let d = MemoryDataStore::default();
    assert_eq!(d.size(), 0);
}

#[test]
fn test_write_primitives() {
    let mut store = MemoryDataStore::new();
    let mut writer = DexWriter::new(&mut store);
    writer.write_u8(0x01);
    writer.write_u16(0x0203);
    writer.write_u32(0x04050607);
    assert_eq!(writer.current_offset(), 7);
    let buf = store.get_buffer();
    assert_eq!(buf[0], 0x01);
    assert_eq!(buf[1], 0x03);
    assert_eq!(buf[2], 0x02);
}

#[test]
fn test_write_uleb128() {
    let mut store = MemoryDataStore::new();
    let mut writer = DexWriter::new(&mut store);
    writer.write_uleb128(0);
    writer.write_uleb128(127);
    writer.write_uleb128(128);
    assert_eq!(store.get_buffer()[0], 0x00);
    assert_eq!(store.get_buffer()[1], 0x7F);
    assert_eq!(store.get_buffer()[2], 0x80);
    assert_eq!(store.get_buffer()[3], 0x01);
}

#[test]
fn test_align_to() {
    let mut store = MemoryDataStore::new();
    let mut writer = DexWriter::new(&mut store);
    writer.write_u8(0x01);
    assert_eq!(writer.current_offset(), 1);
    writer.align_to(4);
    assert_eq!(writer.current_offset(), 4);
}

#[test]
fn dex_writer_test_write_at_offset() {
    let mut store = MemoryDataStore::new();
    let mut writer = DexWriter::new(&mut store);
    writer.write_u32(0);
    writer.write_u32(0);
    writer.write_u32_at(4, 0xDEADBEEF);
    assert_eq!(store.get_buffer()[4..8], [0xEF, 0xBE, 0xAD, 0xDE]);
}

#[test]
fn test_write_string_data() {
    let mut store = MemoryDataStore::new();
    let mut writer = DexWriter::new(&mut store);
    let offset = writer.write_string_data("hello");
    assert_eq!(offset, 0);
    assert!(store.get_buffer().len() > 0);
}

#[test]
fn written_string_reads_back() {
    let mut store = MemoryDataStore::new();
    let mut writer = DexWriter::new(&mut store);
    writer.write_u8(7);
    let off = writer.write_string_data("héllo 😀");
    assert_eq!(off, 1);
    assert_eq!(writer.current_offset(), 1 + 1 + 13 + 1);
    assert_eq!(parse_string_data(store.get_buffer(), off).unwrap(), "héllo 😀");
    assert_eq!(store.get_buffer()[1], 8);
}

#[test]
fn signed_and_wide_values_little_endian() {
    let mut store = MemoryDataStore::new();
    let mut writer = DexWriter::new(&mut store);
    writer.write_i8(-1);
    writer.write_i16(-2);
    writer.write_i32(-3);
    writer.write_i64(0x0102030405060708);
    writer.write_sleb128(-128);
    writer.write_bytes(&[9, 9]);
    writer.write_u16_at(0, 0x1234);
    writer.set_offset(100);
    assert_eq!(writer.current_offset(), 100);
    let buf = store.get_buffer();
    assert_eq!(&buf[0..3], &[0x34, 0x12, 0xFF]);
    assert_eq!(&buf[3..7], &[0xFD, 0xFF, 0xFF, 0xFF]);
    assert_eq!(&buf[7..15], &[8, 7, 6, 5, 4, 3, 2, 1]);
    assert_eq!(&buf[15..19], &[0x80, 0x7F, 9, 9]);
    assert_eq!(read_u32_le(buf, 3), 0xFFFF_FFFD);
}

#[test]
fn align_on_a_boundary_writes_nothing() {
    let mut store = MemoryDataStore::new();
    let mut writer = DexWriter::new(&mut store);
    writer.write_u32(1);
    writer.align_to(4);
    assert_eq!(writer.current_offset(), 4);
    writer.align_to(3);
    assert_eq!(writer.current_offset(), 6);
    assert_eq!(store.size(), 6);
}

#[test]
fn test_shorty_char() {
    assert_eq!(shorty_char("V"), 'V');
    assert_eq!(shorty_char("I"), 'I');
    assert_eq!(shorty_char("Lcom/A;"), 'L');
    assert_eq!(shorty_char("[I"), 'L');
}

#[test]
fn shorty_char_of_empty_and_unknown() {
    assert_eq!(shorty_char(""), 'L');
    assert_eq!(shorty_char("Q"), 'L');
    assert_eq!(shorty_char("J"), 'J');
}

fn entry(name: &str) -> ClassEntry {
    ClassEntry {
        type_descriptor: name.to_string(),
        access_flags: 1,
        superclass_idx: None,
        interfaces: vec![],
        source_file: None,
        static_fields: vec![],
        instance_fields: vec![],
        direct_methods: vec![],
        virtual_methods: vec![],
    }
}

#[test]
fn test_class_pool_intern() {
    let mut pool = ClassPool::new();
    let entry = ClassEntry {
        type_descriptor: "Lcom/A;".to_string(),
        access_flags: 1,
        superclass_idx: None,
        interfaces: vec![],
        source_file: None,
        static_fields: vec![],
        instance_fields: vec![],
        direct_methods: vec![],
        virtual_methods: vec![],
    };
    pool.intern(entry);
    assert_eq!(pool.count(), 1);
}

#[test]
fn class_pool_keeps_insertion_order() {
    let mut pool = ClassPool::default();
    assert_eq!(pool.intern(entry("LA;")), 0);
    assert_eq!(pool.intern(entry("LB;")), 1);
    assert_eq!(pool.get(1).unwrap().type_descriptor, "LB;");
    assert!(pool.get(2).is_none());
    let all: Vec<(u32, String)> = pool.iter().into_iter().map(|(i, e)| (i, e.type_descriptor.clone())).collect();
    assert_eq!(all, vec![(0, "LA;".to_string()), (1, "LB;".to_string())]);
}

#[test]
fn checksum_and_signature_known_values() {
    assert_eq!(adler32(b"Wikipedia"), 0x11E6_0398);
    assert_eq!(adler32(b""), 1);
    let digest = sha1(b"abc");
    assert_eq!(
        digest,
        vec![
            0xa9, 0x99, 0x3e, 0x36, 0x47, 0x06, 0x81, 0x6a, 0xba, 0x3e, 0x25, 0x71, 0x78, 0x50, 0xc2, 0x6c, 0x9c, 0xd0,
            0xd8, 0x9d
        ]
    );
    let long = vec![b'a'; 1000];
    assert_eq!(sha1(&long).len(), 20);
    assert_eq!(
        sha1(b"abcdbcdecdefdefgefghfghighijhijkijkljklmklmnlmnomnopnopq"),
        vec![
            0x84, 0x98, 0x3e, 0x44, 0x1c, 0x3b, 0xd2, 0x6e, 0xba, 0xae, 0x4a, 0xa1, 0xf9, 0x51, 0x29, 0xe5, 0xe5, 0x46,
            0x70, 0xf1
        ]
    );
}

#[test]
fn written_file_carries_checksum_and_signature() {
    let pool = DexPool::new();
    let bytes = pool.to_bytes().unwrap();
    assert_eq!(read_u32_le(&bytes, 32) as usize, bytes.len());
    assert_eq!(&bytes[12..32], &sha1(&bytes[32..])[..]);
    assert_eq!(read_u32_le(&bytes, 8), adler32(&bytes[12..]));
}
