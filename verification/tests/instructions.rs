use dexlib_oxide::base::opcode::{InstructionFormat, Opcode};
use dexlib_oxide::builder::builder_instruction::{make_goto, make_invoke_static, make_move_result, make_nop};
use dexlib_oxide::dexbacked::dex_backed_instruction::{decode_all_instructions, DexBackedInstruction};
use dexlib_oxide::iface::instruction::{
    AnyInstruction, Instruction, Instruction21c, Instruction35c, Instruction51l,
};
use dexlib_oxide::iface::reference::{MethodReference, Reference, ReferenceHolder, ReferenceType, StringReference};
use dexlib_oxide::immutable::immutable_instruction::{
    ImmutableInstruction10x, ImmutableInstruction21c, ImmutableInstruction35c,
    ImmutableInstruction51l, ImmutablePayloadInstruction,
};
use dexlib_oxide::immutable::immutable_method::ImmutableMethodImplementation;
use dexlib_oxide::iface::method::MethodImplementation;

#[test]
fn test_decode_nop() {
    let insns = [0x0000u16];
    let (instr, size) = DexBackedInstruction::decode_instruction(&insns, 0).unwrap();
    assert_eq!(instr.opcode(), Opcode::Nop);
    assert_eq!(size, 1);
}

#[test]
fn test_decode_return_void() {
    let insns = [0x000Eu16];
    let (instr, _) = DexBackedInstruction::decode_instruction(&insns, 0).unwrap();
    assert_eq!(instr.opcode(), Opcode::ReturnVoid);
}

#[test]
fn test_decode_const_string() {
    let insns: Vec<u16> = vec![0x001A, 0x0005];
    let (instr, size) = DexBackedInstruction::decode_instruction(&insns, 0).unwrap();
    assert_eq!(instr.opcode(), Opcode::ConstString);
    assert_eq!(size, 2);
}

#[test]
fn test_decode_invoke_static() {
    let insns: Vec<u16> = vec![0x0071, 0x0310, 0x2001];
    let (instr, size) = DexBackedInstruction::decode_instruction(&insns, 0).unwrap();
    assert_eq!(instr.opcode(), Opcode::InvokeStatic);
    assert_eq!(size, 3);
}

#[test]
fn test_decode_const_wide() {
    let insns: Vec<u16> = vec![0x0018, 0x0000, 0x0000, 0x0000, 0x0000];
    let (instr, size) = DexBackedInstruction::decode_instruction(&insns, 0).unwrap();
    assert_eq!(instr.opcode(), Opcode::ConstWide);
    assert_eq!(size, 5);
}

#[test]
fn test_decode_unknown_opcode() {
    let insns = [0x003Eu16];
    let result = DexBackedInstruction::decode_instruction(&insns, 0);
    assert!(result.is_err());
}

#[test]
fn test_decode_all_instructions() {
    let insns: Vec<u16> = vec![0x0000, 0x000E];
    let result = decode_all_instructions(&insns);
    assert_eq!(result.len(), 2);
    assert_eq!(result[0].opcode(), Opcode::Nop);
    assert_eq!(result[1].opcode(), Opcode::ReturnVoid);
}

#[test]
fn decode_errors_and_payloads() {
    assert_eq!(
        DexBackedInstruction::decode_instruction(&[0x000E], 1).unwrap_err(),
        "offset 1 out of bounds for insns of length 1"
    );
    assert_eq!(DexBackedInstruction::decode_instruction(&[0x003E], 0).unwrap_err(), "Unknown opcode: 0x3e");
    assert_eq!(
        DexBackedInstruction::decode_instruction(&[0x0018, 0x0001], 0).unwrap_err(),
        "instruction at offset 0 requires 5 code units but only 2 remain"
    );
    assert_eq!(DexBackedInstruction::decode_instruction(&[0x0100], 0).unwrap_err(), "truncated packed-switch payload");
    let packed = [0x0100u16, 0x0002, 0, 0, 0, 0, 0, 0];
    let (p, size) = DexBackedInstruction::decode_instruction(&packed, 0).unwrap();
    assert_eq!(size, 8);
    assert_eq!(p.opcode(), Opcode::Nop);
    assert_eq!(p.format(), InstructionFormat::PackedSwitchPayload);
    assert_eq!(p.code_units(), 8);
    let array = [0x0300u16, 0x0002, 0x0003, 0x0000, 0, 0, 0];
    let (a, size) = DexBackedInstruction::decode_instruction(&array, 0).unwrap();
    assert_eq!(size, 7);
    assert_eq!(a.format(), InstructionFormat::ArrayPayload);
}

#[test]
fn decode_all_skips_undecodable_units() {
    let insns: Vec<u16> = vec![0x003E, 0x0012, 0x0018, 0x0001];
    let result = decode_all_instructions(&insns);
    assert_eq!(result.len(), 2);
    assert_eq!(result[0].opcode(), Opcode::Const4);
    assert_eq!(result[1].opcode(), Opcode::Move);
}

#[test]
fn dex_backed_operand_getters() {
    let insns: Vec<u16> = vec![0x2071, 0x0310, 0x5421];
    let (instr, _) = DexBackedInstruction::decode_instruction(&insns, 0).unwrap();
    assert_eq!(instr.invoke_register_count(), 2);
    assert_eq!(instr.reference_index_16(), 0x0310);
    assert_eq!(instr.invoke_register_c(), 0x1);
    assert_eq!(instr.invoke_register_d(), 0x2);
    assert_eq!(instr.invoke_register_e(), 0x4);
    assert_eq!(instr.invoke_register_f(), 0x5);
    assert_eq!(instr.invoke_register_g(), 0x0);
    assert_eq!(instr.raw_code_units(), &[0x2071, 0x0310, 0x5421]);
    let wide = DexBackedInstruction::new(Opcode::ConstWide, vec![0x0118, 0x0001, 0x0000, 0x0000, 0x8000], 0);
    assert_eq!(wide.register_a_byte(), 1);
    assert_eq!(wide.literal_64(), i64::MIN + 1);
    let n = DexBackedInstruction::new(Opcode::Const4, vec![0xF112], 0);
    assert_eq!(n.literal_nibble(), -1);
    assert_eq!(n.register_c_nibble(), 0x1);
    assert_eq!(n.register_b_nibble(), 0xF);
}

#[test]
fn test_immutable_instruction_10x() {
    let instr = ImmutableInstruction10x { opcode: Opcode::Nop };
    assert_eq!(instr.opcode(), Opcode::Nop);
    assert_eq!(instr.format(), InstructionFormat::Format10x);
    assert_eq!(instr.code_units(), 1);
}

#[test]
fn test_immutable_instruction_21c() {
    let instr = ImmutableInstruction21c {
        opcode: Opcode::ConstString,
        register_a: 0,
        reference: ReferenceHolder::String(StringReference::new("hello")),
    };
    assert_eq!(instr.opcode(), Opcode::ConstString);
    assert_eq!(instr.register_a(), 0);
    let ref_holder = instr.reference();
    assert_eq!(ref_holder.reference_type(), ReferenceType::String);
}

#[test]
fn test_immutable_instruction_35c() {
    let instr = ImmutableInstruction35c {
        opcode: Opcode::InvokeVirtual,
        register_count: 1,
        register_c: 0,
        register_d: 0,
        register_e: 0,
        register_f: 0,
        register_g: 1,
        reference: ReferenceHolder::Method(MethodReference::new("Lcom/A;", "foo", vec![], "V")),
    };
    assert_eq!(instr.opcode(), Opcode::InvokeVirtual);
    assert_eq!(instr.register_count(), 1);
    let ref_holder = instr.reference();
    assert_eq!(ref_holder.reference_type(), ReferenceType::Method);
}

#[test]
fn test_immutable_instruction_51l() {
    let instr = ImmutableInstruction51l { opcode: Opcode::ConstWide, register_a: 2, literal: 12345678i64 };
    assert_eq!(instr.opcode(), Opcode::ConstWide);
    assert_eq!(instr.literal(), 12345678i64);
}

#[test]
fn payload_format_comes_from_its_header() {
    let p = ImmutablePayloadInstruction { opcode: Opcode::Nop, raw_data: vec![0x0200, 0x0001] };
    assert_eq!(p.format(), InstructionFormat::SparseSwitchPayload);
    let q = ImmutablePayloadInstruction { opcode: Opcode::Nop, raw_data: vec![] };
    assert_eq!(q.format(), InstructionFormat::Format10x);
}

#[test]
fn builder_helpers() {
    assert_eq!(make_nop().opcode(), Opcode::Nop);
    assert_eq!(make_move_result(3).opcode(), Opcode::MoveResult);
    assert_eq!(make_goto(-2).code_units(), 1);
    let call = make_invoke_static(
        2,
        [1, 2, 0, 0, 0],
        dexlib_oxide::immutable::immutable_reference::ImmutableReferenceHolder::NoReference,
    );
    assert_eq!(call.opcode(), Opcode::InvokeStatic);
    assert_eq!(call.code_units(), 3);
    match call {
        AnyInstruction::B35c(b) => {
            assert_eq!(b.register_count, 2);
            assert_eq!(b.register_c, 1);
            assert_eq!(b.register_d, 2);
        }
        _ => panic!("expected a 35c instruction"),
    }
}

#[test]
fn opcode_table_roundtrip() {
    for v in 0u16..256 {
        if let Some(op) = Opcode::from_u8(v as u8) {
            assert_eq!(op.value() as u16, v);
        }
    }
    assert!(Opcode::from_u8(0x3E).is_none());
    assert_eq!(Opcode::from_u8(0x1A), Some(Opcode::ConstString));
    assert_eq!(Opcode::ConstString.format(), InstructionFormat::Format21c);
}

#[test]
fn test_immutable_method_implementation() {
    let impl_ = ImmutableMethodImplementation {
        register_count: 2,
        instructions: Vec::new(),
        try_blocks: Vec::new(),
        debug_items: Vec::new(),
    };
    assert_eq!(impl_.register_count(), 2);
    assert!(impl_.instructions().is_empty());
}

#[test]
fn decode_reports_truncated_and_overflowing_payloads() {
    assert_eq!(DexBackedInstruction::decode_instruction(&[0x0200], 0).unwrap_err(), "truncated sparse-switch payload");
    assert_eq!(DexBackedInstruction::decode_instruction(&[0x0300, 1, 2], 0).unwrap_err(), "truncated array-payload");
    assert_eq!(
        DexBackedInstruction::decode_instruction(&[0x0300, 0xFFFF, 0xFFFF, 0xFFFF], 0).unwrap_err(),
        "array-payload overflow: length=4294967295, width=65535"
    );
    assert_eq!(
        DexBackedInstruction::decode_instruction(&[0x0200, 0x0002, 0, 0], 0).unwrap_err(),
        "instruction at offset 0 requires 10 code units but only 4 remain"
    );
}
