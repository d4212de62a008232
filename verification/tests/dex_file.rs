use dexlib_oxide::base::opcode::Opcode;
use dexlib_oxide::dexbacked::dex_backed_dex_file::DexBackedDexFile;
use dexlib_oxide::dexbacked::dex_backed_instruction::DexBackedInstruction;
use dexlib_oxide::dexbacked::header::{
    parse_class_data, parse_code_item, parse_interface_list, parse_proto_parameter_types,
    parse_string_data, read_i16_le, read_i32_le, read_i64_le, read_u16_le, read_u32_le, DexHeader,
};
use dexlib_oxide::iface::instruction::{AnyInstruction, Instruction};
use dexlib_oxide::iface::reference::{Reference, ReferenceHolder};

#[test]
fn test_dex_file_too_small() {
    let result = DexBackedDexFile::from_bytes(vec![0; 10]);
    assert!(result.is_err());
}

#[test]
fn test_invalid_magic() {
    let mut data = vec![0; 0x70];
    data[0..4].copy_from_slice(b"test");
    let result = DexBackedDexFile::from_bytes(data);
    assert!(result.is_err());
}

fn put_u32(data: &mut Vec<u8>, at: usize, v: u32) {
    data[at..at + 4].copy_from_slice(&v.to_le_bytes());
}

fn put_u16(data: &mut Vec<u8>, at: usize, v: u16) {
    data[at..at + 2].copy_from_slice(&v.to_le_bytes());
}

/// A small dex file: strings "LFoo;", "bar", "I", "V", "VI"; types LFoo;, I, V; one proto
/// (V)(I); one field LFoo;->bar:I; one method LFoo;->bar(I)V.
fn small_dex() -> Vec<u8> {
    let mut data = vec![0u8; 0x200];
    data[0..8].copy_from_slice(b"dex\n035\0");
    let strings = ["LFoo;", "bar", "I", "V", "VI"];
    put_u32(&mut data, 56, strings.len() as u32);
    put_u32(&mut data, 60, 0x70);
    let mut pos = 0x100usize;
    for (i, s) in strings.iter().enumerate() {
        put_u32(&mut data, 0x70 + 4 * i, pos as u32);
        data[pos] = s.len() as u8;
        data[pos + 1..pos + 1 + s.len()].copy_from_slice(s.as_bytes());
        data[pos + 1 + s.len()] = 0;
        pos += s.len() + 2;
    }
    put_u32(&mut data, 64, 3);
    put_u32(&mut data, 68, 0x90);
    put_u32(&mut data, 0x90, 0);
    put_u32(&mut data, 0x94, 2);
    put_u32(&mut data, 0x98, 3);
    put_u32(&mut data, 72, 1);
    put_u32(&mut data, 76, 0xA0);
    put_u32(&mut data, 0xA0, 4);
    put_u32(&mut data, 0xA4, 2);
    put_u32(&mut data, 0xA8, 0x180);
    put_u32(&mut data, 0x180, 1);
    put_u16(&mut data, 0x184, 1);
    put_u32(&mut data, 80, 1);
    put_u32(&mut data, 84, 0xB0);
    put_u16(&mut data, 0xB0, 0);
    put_u16(&mut data, 0xB2, 1);
    put_u32(&mut data, 0xB4, 1);
    put_u32(&mut data, 88, 1);
    put_u32(&mut data, 92, 0xB8);
    put_u16(&mut data, 0xB8, 0);
    put_u16(&mut data, 0xBA, 0);
    put_u32(&mut data, 0xBC, 1);
    data
}

#[test]
fn reads_strings_types_protos_and_members() {
    let data = small_dex();
    assert!(DexBackedDexFile::tables_in_bounds(&data));
    let file = DexBackedDexFile::from_bytes(data).unwrap();
    assert_eq!(file.header().dex_version(), "035");
    assert_eq!(file.string_count(), 5);
    assert_eq!(file.type_count(), 3);
    assert_eq!(file.proto_count(), 1);
    assert_eq!(file.field_count(), 1);
    assert_eq!(file.method_count(), 1);
    assert_eq!(file.class_count(), 0);
    assert_eq!(file.get_string(1).as_deref(), Some("bar"));
    assert_eq!(file.get_string(5), None);
    assert_eq!(file.get_type_descriptor(0).as_deref(), Some("LFoo;"));
    assert_eq!(file.get_type_descriptor(3), None);
    assert_eq!(file.get_proto_shorty(0).as_deref(), Some("VI"));
    assert_eq!(file.get_proto_return_type(0).as_deref(), Some("V"));
    assert_eq!(file.get_proto_parameter_types(0), vec!["I".to_string()]);
    assert_eq!(
        file.get_field_reference(0),
        Some(("LFoo;".to_string(), "bar".to_string(), "I".to_string()))
    );
    assert_eq!(
        file.get_method_reference(0),
        Some(("LFoo;".to_string(), "bar".to_string(), vec!["I".to_string()], "V".to_string()))
    );
    assert_eq!(file.get_method_reference(1), None);
}

#[test]
fn resolves_and_converts_references() {
    let file = DexBackedDexFile::from_bytes(small_dex()).unwrap();
    match file.resolve_reference(1, Opcode::ConstString) {
        ReferenceHolder::String(s) => assert_eq!(s.string(), "bar"),
        _ => panic!("expected a string"),
    }
    match file.resolve_reference(9, Opcode::NewInstance) {
        ReferenceHolder::Type(t) => assert_eq!(t.type_descriptor(), "Ljava/lang/Object;"),
        _ => panic!("expected a type"),
    }
    let f = file.resolve_reference(0, Opcode::Iget);
    assert_eq!(f.as_field_reference().unwrap().to_string(), "LFoo;->bar:I");
    let m = file.resolve_reference(0, Opcode::InvokeStatic);
    assert_eq!(m.as_method_reference().unwrap().to_string(), "LFoo;->bar(I)V");
    let insns = [0x1071u16, 0x0000, 0x0003];
    let (d, _) = DexBackedInstruction::decode_instruction(&insns, 0).unwrap();
    let converted = file.convert_instruction_to_immutable(&AnyInstruction::DexBacked(d));
    match converted {
        AnyInstruction::I35c(i) => {
            assert_eq!(i.register_count, 1);
            assert_eq!(i.register_c, 3);
            assert_eq!(i.reference.as_method_reference().unwrap().method_name(), "bar");
        }
        _ => panic!("expected a 35c instruction"),
    }
    let (c, _) = DexBackedInstruction::decode_instruction(&[0x021A, 0x0001], 0).unwrap();
    match file.convert_instruction_to_immutable(&AnyInstruction::DexBacked(c)) {
        AnyInstruction::I21c(i) => {
            assert_eq!(i.register_a, 2);
            assert_eq!(i.reference.as_string_reference().unwrap().string(), "bar");
        }
        _ => panic!("expected a 21c instruction"),
    }
    let (w, _) = DexBackedInstruction::decode_instruction(&[0x0118, 5, 0, 0, 0], 0).unwrap();
    match file.convert_instruction_to_immutable(&AnyInstruction::DexBacked(w)) {
        AnyInstruction::I51l(i) => assert_eq!((i.register_a, i.literal), (1, 5)),
        _ => panic!("expected a 51l instruction"),
    }
    let other = dexlib_oxide::builder::builder_instruction::make_nop();
    assert_eq!(file.convert_instruction_to_immutable(&other).opcode(), Opcode::Nop);
}

#[test]
fn header_messages_and_fields() {
    assert_eq!(DexHeader::parse(&[0u8; 5]).unwrap_err(), "DEX file too small for header");
    assert_eq!(DexHeader::parse(&[0u8; 0x70]).unwrap_err(), "Invalid DEX magic");
    let h = DexHeader::parse(&small_dex()).unwrap();
    assert_eq!(h.string_ids_size, 5);
    assert_eq!(h.string_ids_off, 0x70);
    assert_eq!(h.magic, *b"dex\n035\0");
    let mut weird = small_dex();
    weird[4] = 0xFF;
    assert_eq!(DexHeader::parse(&weird).unwrap().dex_version(), "???");
}

#[test]
fn little_endian_reads() {
    let data = [0x01, 0x80, 0xFF, 0xFF, 0x00, 0x00, 0x00, 0x80];
    assert_eq!(read_u16_le(&data, 0), 0x8001);
    assert_eq!(read_i16_le(&data, 0), -32767);
    assert_eq!(read_u32_le(&data, 0), 0xFFFF8001);
    assert_eq!(read_i32_le(&data, 4), i32::MIN);
    assert_eq!(read_i64_le(&data, 0), i64::MIN + 0xFFFF8001);
}

#[test]
fn string_data_and_lists() {
    let data = [3u8, b'a', b'b', b'c', 0, 2, 0, 0, 0, 7, 0, 9, 0];
    assert_eq!(parse_string_data(&data, 0).unwrap(), "abc");
    assert_eq!(
        parse_string_data(&[1u8, 0xC3], 0).unwrap_err(),
        "MUTF-8 decode error: unexpected end of MUTF-8 data"
    );
    assert_eq!(parse_proto_parameter_types(&data, 5), vec![7, 9]);
    assert_eq!(parse_interface_list(&data, 5), vec![7, 9]);
    assert!(parse_proto_parameter_types(&data, 0).is_empty());
}

#[test]
fn class_data_sums_index_differences() {
    let data = [1u8, 0, 2, 0, 5, 1, 3, 0x10, 0x80, 0x01, 2, 1, 2];
    let (h, sf, inf, dm, vm) = parse_class_data(&data, 0).unwrap();
    assert_eq!((h.static_fields_size, h.instance_fields_size, h.direct_methods_size, h.virtual_methods_size), (1, 0, 2, 0));
    assert_eq!((sf[0].field_idx_diff, sf[0].access_flags), (5, 1));
    assert!(inf.is_empty());
    assert_eq!((dm[0].method_idx_diff, dm[0].access_flags, dm[0].code_off), (3, 0x10, 0x80));
    assert_eq!((dm[1].method_idx_diff, dm[1].access_flags, dm[1].code_off), (5, 1, 2));
    assert!(vm.is_empty());
}

#[test]
fn code_items() {
    assert_eq!(parse_code_item(&[0u8; 4], 0).unwrap_err(), "code_off is 0");
    assert_eq!(parse_code_item(&[0u8; 20], 8).unwrap_err(), "code_item header at 8 exceeds data length 20");
    let mut data = vec![0u8; 64];
    data[4] = 3;
    data[10] = 1;
    data[16] = 1;
    data[20] = 0x0E;
    data[24] = 0x01;
    data[28] = 0x02;
    let item = parse_code_item(&data, 4).unwrap();
    assert_eq!(item.registers_size, 3);
    assert_eq!(item.tries_size, 1);
    assert_eq!(item.insns, vec![0x000E]);
    assert_eq!(item.try_blocks[0].start_addr, 1);
    assert_eq!(item.try_blocks[0].insn_count, 2);
    assert_eq!(item.try_blocks[0].handler_off, 0);
    data[16] = 100;
    assert_eq!(
        parse_code_item(&data, 4).unwrap_err(),
        "insns_size 100 at offset 4 exceeds data length 64 (end would be 220)"
    );
}

fn dex_with_class() -> Vec<u8> {
    let mut data = small_dex();
    put_u32(&mut data, 96, 1);
    put_u32(&mut data, 100, 0xC0);
    put_u32(&mut data, 0xC0, 0);
    put_u32(&mut data, 0xC4, 0x10001);
    put_u32(&mut data, 0xC8, 0xFFFF_FFFF);
    put_u32(&mut data, 0xCC, 0x180);
    put_u32(&mut data, 0xD0, 1);
    put_u32(&mut data, 0xD4, 0);
    put_u32(&mut data, 0xD8, 0x1A0);
    put_u32(&mut data, 0xDC, 0);
    data[0x1A0..0x1A9].copy_from_slice(&[1, 0, 1, 0, 0, 8, 0, 9, 0xC0]);
    data[0x1A9] = 0x03;
    put_u16(&mut data, 0x1C0, 1);
    put_u16(&mut data, 0x1C6, 0);
    put_u32(&mut data, 0x1CC, 1);
    put_u16(&mut data, 0x1D0, 0x000E);
    data
}

#[test]
fn reads_classes_with_members_and_code() {
    let file = DexBackedDexFile::from_bytes(dex_with_class()).unwrap();
    let classes = file.parse_classes();
    assert_eq!(classes.len(), 1);
    let c = &classes[0];
    assert_eq!(c.type_descriptor, "LFoo;");
    assert_eq!(c.access_flags.bits(), 0x10001);
    assert_eq!(c.superclass, None);
    assert_eq!(c.interfaces, vec!["I".to_string()]);
    assert_eq!(c.source_file.as_deref(), Some("bar"));
    assert_eq!(c.static_fields.len(), 1);
    assert_eq!(c.static_fields[0].name, "bar");
    assert_eq!(c.static_fields[0].field_type, "I");
    assert_eq!(c.static_fields[0].access_flags.bits(), 8);
    assert_eq!(c.static_fields[0].to_field_reference().to_string(), "LFoo;->bar:I");
    assert!(c.instance_fields.is_empty());
    assert_eq!(c.direct_methods.len(), 1);
    let m = &c.direct_methods[0];
    assert_eq!(m.to_method_reference().to_string(), "LFoo;->bar(I)V");
    assert_eq!(m.access_flags.bits(), 9);
    let body = m.implementation.as_ref().unwrap();
    assert_eq!(body.register_count, 1);
    assert_eq!(body.instructions.len(), 1);
    assert_eq!(body.instructions[0].opcode(), Opcode::ReturnVoid);
    assert!(body.try_blocks.is_empty());
    assert!(c.virtual_methods.is_empty());
}

#[test]
fn invoke_registers_follow_the_35c_layout() {
    let mut data = b"dex\n035\0".to_vec();
    data.extend(vec![0u8; 0x68]);
    let file = DexBackedDexFile::from_bytes(data).unwrap();
    let instr = AnyInstruction::DexBacked(DexBackedInstruction::new(
        Opcode::InvokeStatic,
        vec![0x2071, 0x0003, 0x0021],
        0,
    ));
    match file.convert_instruction_to_immutable(&instr) {
        AnyInstruction::I35c(i) => {
            assert_eq!(i.register_count, 2);
            assert_eq!(i.register_c, 1);
            assert_eq!(i.register_d, 2);
            assert_eq!(i.register_e, 0);
            assert_eq!(i.register_f, 0);
            assert_eq!(i.register_g, 0);
        },
        _ => panic!("expected a 35c instruction"),
    }
}

#[test]
fn two_register_and_goto16_layouts() {
    let mut data = b"dex\n035\0".to_vec();
    data.extend(vec![0u8; 0x68]);
    let file = DexBackedDexFile::from_bytes(data).unwrap();
    let iget = AnyInstruction::DexBacked(DexBackedInstruction::new(Opcode::Iget, vec![0x1052, 0x0000], 0));
    match file.convert_instruction_to_immutable(&iget) {
        AnyInstruction::I22c(i) => {
            assert_eq!(i.register_a, 0);
            assert_eq!(i.register_b, 1);
        },
        _ => panic!("expected a 22c instruction"),
    }
    let goto16 = AnyInstruction::DexBacked(DexBackedInstruction::new(Opcode::Goto16, vec![0x0029, 0xFFFE], 0));
    match file.convert_instruction_to_immutable(&goto16) {
        AnyInstruction::I20t(i) => assert_eq!(i.code_offset, -2),
        _ => panic!("expected a 20t instruction"),
    }
}

#[test]
fn try_items_follow_the_dex_layout() {
    let data: Vec<u8> = vec![
        0, 0, 0, 0, 1, 0, 0, 0, 0, 0, 1, 0, 0, 0, 0, 0, 1, 0, 0, 0, 0x0E, 0x00, 0, 0, 0, 0, 0, 0, 1, 0, 0, 0,
    ];
    let item = parse_code_item(&data, 4).unwrap();
    assert_eq!(item.tries_size, 1);
    assert_eq!(item.try_blocks.len(), 1);
    assert_eq!(item.try_blocks[0].start_addr, 0);
    assert_eq!(item.try_blocks[0].insn_count, 1);
    assert_eq!(item.try_blocks[0].handler_off, 0);
}
