use dexlib_oxide::base::access_flags::AccessFlags;
use dexlib_oxide::base::leb128::{
    decode_sleb128, decode_uleb128, decode_uleb128p1, encode_sleb128, encode_uleb128,
    encode_uleb128p1,
};
use dexlib_oxide::base::mutf8::{decode_mutf8, decode_mutf8_with_length, encode_mutf8, Mutf8Error};

#[test]
fn test_bitflags_operations() {
    let flags = AccessFlags::ACC_PUBLIC() | AccessFlags::ACC_STATIC() | AccessFlags::ACC_FINAL();
    assert!(flags.contains(AccessFlags::ACC_PUBLIC()));
    assert!(flags.contains(AccessFlags::ACC_STATIC()));
    assert!(flags.contains(AccessFlags::ACC_FINAL()));
    assert!(!flags.contains(AccessFlags::ACC_PRIVATE()));
}

#[test]
fn test_flag_values() {
    assert_eq!(AccessFlags::ACC_PUBLIC().bits(), 0x1);
    assert_eq!(AccessFlags::ACC_STATIC().bits(), 0x8);
    assert_eq!(AccessFlags::ACC_CONSTRUCTOR().bits(), 0x10000);
    assert_eq!(AccessFlags::ACC_DECLARED_SYNCHRONIZED().bits(), 0x20000);
}

#[test]
fn test_combined_flags() {
    let flags = AccessFlags::ACC_PUBLIC() | AccessFlags::ACC_STATIC();
    assert_eq!(flags.bits(), 0x9);
}

#[test]
fn test_validity_checks() {
    let class_flags = AccessFlags::ACC_INTERFACE();
    assert!(class_flags.is_valid_for_class());
    assert!(!class_flags.is_valid_for_method());

    let method_flags = AccessFlags::ACC_NATIVE();
    assert!(method_flags.is_valid_for_method());
    assert!(!method_flags.is_valid_for_field());

    let field_flags = AccessFlags::ACC_ENUM();
    assert!(field_flags.is_valid_for_field());
    assert!(!field_flags.is_valid_for_method());
}

#[test]
fn access_flags_truncate_and_insert() {
    assert_eq!(AccessFlags::from_bits_truncate(0xFFFF_FFFF).bits(), 0x37FFF);
    let mut flags = AccessFlags::empty();
    assert_eq!(flags.bits(), 0);
    flags.insert(AccessFlags::ACC_ABSTRACT());
    assert!(flags.intersects(AccessFlags::ACC_ABSTRACT() | AccessFlags::ACC_FINAL()));
    assert!(!flags.intersects(AccessFlags::ACC_FINAL()));
    assert_eq!(flags.union(AccessFlags::ACC_PUBLIC()).bits(), 0x401);
}

#[test]
fn test_uleb128_roundtrip() {
    let values = [0u32, 1, 127, 128, 255, 16383, 16384, 2097151, 268435455];
    for &v in &values {
        let encoded = encode_uleb128(v);
        let (decoded, _) = decode_uleb128(&encoded, 0);
        assert_eq!(decoded, v, "uleb128 roundtrip failed for {}", v);
    }
}

#[test]
fn test_sleb128_roundtrip() {
    let values = [0i32, 1, -1, 63, -64, 64, -65, 8191, -8192, 268435455, -268435456];
    for &v in &values {
        let encoded = encode_sleb128(v);
        let (decoded, _) = decode_sleb128(&encoded, 0);
        assert_eq!(decoded, v, "sleb128 roundtrip failed for {}", v);
    }
}

#[test]
fn test_uleb128p1_roundtrip() {
    let values = [0i32, 1, -1, 127, 16383];
    for &v in &values {
        let encoded = encode_uleb128p1(v);
        let (decoded, _) = decode_uleb128p1(&encoded, 0);
        assert_eq!(decoded, v as u32, "uleb128p1 roundtrip failed for {}", v);
    }
}

#[test]
fn test_uleb128_known_encoding() {
    assert_eq!(encode_uleb128(0), vec![0x00]);
    assert_eq!(encode_uleb128(1), vec![0x01]);
    assert_eq!(encode_uleb128(127), vec![0x7F]);
    assert_eq!(encode_uleb128(128), vec![0x80, 0x01]);
    assert_eq!(encode_uleb128(624485), vec![0xE5, 0x8E, 0x26]);
}

#[test]
fn test_sleb128_known_encoding() {
    assert_eq!(encode_sleb128(0), vec![0x00]);
    assert_eq!(encode_sleb128(1), vec![0x01]);
    assert_eq!(encode_sleb128(-1), vec![0x7F]);
    assert_eq!(encode_sleb128(-128), vec![0x80, 0x7F]);
    assert_eq!(encode_sleb128(624485), vec![0xE5, 0x8E, 0x26]);
}

#[test]
fn test_uleb128p1_negative_one() {
    assert_eq!(encode_uleb128p1(-1), vec![0x00]);
    let (decoded, _) = decode_uleb128p1(&[0x00], 0);
    assert_eq!(decoded, -1i32 as u32);
}

#[test]
fn test_decode_with_offset() {
    let buf = [0xFF, 0x00, 0xE5, 0x8E, 0x26];
    let (val, end) = decode_uleb128(&buf, 2);
    assert_eq!(val, 624485);
    assert_eq!(end, 5);
}

#[test]
fn uleb128_largest_values_take_five_bytes() {
    let encoded = encode_uleb128(u32::MAX);
    assert_eq!(encoded, vec![0xFF, 0xFF, 0xFF, 0xFF, 0x0F]);
    assert_eq!(decode_uleb128(&encoded, 0), (u32::MAX, 5));
    let min = encode_sleb128(i32::MIN);
    assert_eq!(min.len(), 5);
    assert_eq!(decode_sleb128(&min, 0), (i32::MIN, 5));
}

#[test]
fn uleb128_decode_stops_at_end_of_data() {
    assert_eq!(decode_uleb128(&[0x80, 0x80], 0), (0, 2));
    assert_eq!(decode_uleb128(&[0x01], 3), (0, 3));
}

#[test]
fn test_ascii_roundtrip() {
    let s = "Hello, World!";
    let encoded = encode_mutf8(s);
    let decoded = decode_mutf8(&encoded).unwrap();
    assert_eq!(decoded, s);
}

#[test]
fn test_null_char() {
    let s = "\0";
    let encoded = encode_mutf8(s);
    assert_eq!(encoded, vec![0xC0, 0x80, 0x00]);
    let decoded = decode_mutf8(&encoded).unwrap();
    assert_eq!(decoded, "\0");
}

#[test]
fn test_chinese_roundtrip() {
    let s = "你好世界";
    let encoded = encode_mutf8(s);
    let decoded = decode_mutf8(&encoded).unwrap();
    assert_eq!(decoded, s);
}

#[test]
fn test_emoji_roundtrip() {
    let s = "😀";
    let encoded = encode_mutf8(s);
    let decoded = decode_mutf8(&encoded).unwrap();
    assert_eq!(decoded, s);
}

#[test]
fn test_decode_with_length() {
    let s = "Hello";
    let encoded = encode_mutf8(s);
    let data = &encoded[..encoded.len() - 1];
    let decoded = decode_mutf8_with_length(data, 5).unwrap();
    assert_eq!(decoded, "Hello");
}

#[test]
fn test_mixed_content() {
    let s = "abc你好123😀xyz";
    let encoded = encode_mutf8(s);
    let decoded = decode_mutf8(&encoded).unwrap();
    assert_eq!(decoded, s);
}

#[test]
fn test_null_terminated() {
    let data = [0x48, 0x69, 0x00, 0xFF];
    let decoded = decode_mutf8(&data).unwrap();
    assert_eq!(decoded, "Hi");
}

#[test]
fn mutf8_emoji_is_two_surrogates() {
    assert_eq!(encode_mutf8("😀"), vec![0xED, 0xA0, 0xBD, 0xED, 0xB8, 0x80, 0x00]);
    assert_eq!(decode_mutf8_with_length(&[0xED, 0xA0, 0xBD, 0xED, 0xB8, 0x80], 2).unwrap(), "😀");
    assert_eq!(decode_mutf8_with_length(&[0xED, 0xA0, 0xBD, 0xED, 0xB8, 0x80], 1).unwrap(), "");
}

#[test]
fn mutf8_errors_and_messages() {
    assert_eq!(decode_mutf8(&[0xC3]), Err(Mutf8Error::UnexpectedEnd));
    assert_eq!(decode_mutf8(&[0xC3, 0x41]), Err(Mutf8Error::InvalidByte(0x41)));
    assert_eq!(decode_mutf8(&[0xFF]), Err(Mutf8Error::InvalidByte(0xFF)));
    assert_eq!(decode_mutf8(&[0xED, 0xA0, 0x80]), Err(Mutf8Error::InvalidSurrogate(0xD800)));
    assert_eq!(Mutf8Error::UnexpectedEnd.to_string(), "unexpected end of MUTF-8 data");
    assert_eq!(Mutf8Error::InvalidByte(0x0A).to_string(), "invalid MUTF-8 byte: 0x0A");
    assert_eq!(Mutf8Error::InvalidSurrogate(0xD800).to_string(), "invalid surrogate: 0xD800");
}
