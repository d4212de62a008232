use vstd::prelude::*;
use crate::base::opcode::{opcode_format, opcode_value, InstructionFormat};
use crate::dexbacked::dex_backed_dex_file::converted;
use crate::dexbacked::dex_backed_instruction::DexBackedInstruction;
use crate::dexbacked::header::DexHeader;
use crate::iface::instruction::{AnyInstruction, Instruction};
use crate::writer::dex_pool::encoded;

verus! {

/// Whether `i` is an immutable instruction of a format that names no reference, with each operand
/// within the bits that its format gives it: registers of four bits below 16, of eight bits below
/// 256, a four-bit literal from -8 to 7, an eight-bit offset from -128 to 127, and the offset of
/// a 20t instruction within 16 bits.
pub open spec fn plain_operands(i: AnyInstruction) -> bool {
    match i {
        AnyInstruction::I10x(x) => opcode_format(x.opcode) == InstructionFormat::Format10x,
        AnyInstruction::I12x(x) => opcode_format(x.opcode) == InstructionFormat::Format12x && x.register_a < 16
            && x.register_b < 16,
        AnyInstruction::I11n(x) => opcode_format(x.opcode) == InstructionFormat::Format11n && x.register_a < 16
            && -8 <= x.literal < 8,
        AnyInstruction::I11x(x) => opcode_format(x.opcode) == InstructionFormat::Format11x && x.register_a < 256,
        AnyInstruction::I10t(x) => opcode_format(x.opcode) == InstructionFormat::Format10t && -128 <= x.code_offset
            < 128,
        AnyInstruction::I20t(x) => opcode_format(x.opcode) == InstructionFormat::Format20t && -32768
            <= x.code_offset < 32768,
        AnyInstruction::I30t(x) => opcode_format(x.opcode) == InstructionFormat::Format30t,
        AnyInstruction::I21s(x) => opcode_format(x.opcode) == InstructionFormat::Format21s || opcode_format(x.opcode)
            == InstructionFormat::Format21ih || opcode_format(x.opcode) == InstructionFormat::Format21lh,
        AnyInstruction::I31i(x) => opcode_format(x.opcode) == InstructionFormat::Format31i,
        AnyInstruction::I51l(x) => opcode_format(x.opcode) == InstructionFormat::Format51l,
        AnyInstruction::I21t(x) => opcode_format(x.opcode) == InstructionFormat::Format21t,
        AnyInstruction::I22t(x) => opcode_format(x.opcode) == InstructionFormat::Format22t && x.register_a < 16
            && x.register_b < 16,
        AnyInstruction::I22b(x) => opcode_format(x.opcode) == InstructionFormat::Format22b,
        AnyInstruction::I22s(x) => opcode_format(x.opcode) == InstructionFormat::Format22s && x.register_a < 16
            && x.register_b < 16,
        AnyInstruction::I22x(x) => opcode_format(x.opcode) == InstructionFormat::Format22x,
        AnyInstruction::I23x(x) => opcode_format(x.opcode) == InstructionFormat::Format23x,
        AnyInstruction::I31t(x) => opcode_format(x.opcode) == InstructionFormat::Format31t,
        AnyInstruction::I32x(x) => opcode_format(x.opcode) == InstructionFormat::Format32x,
        _ => false,
    }
}

proof fn lemma_bits_two_nibbles(op: u16, a: u8, b: u8)
    by (bit_vector)
    requires
        op < 256,
        a < 16,
        b < 16,
    ensures
        ((((op | (((a as u16) & 0xF) << 8u16) | (((b as u16) & 0xF) << 12u16)) >> 8u16) & 0xF) as u8) == a,
        ((((op | (((a as u16) & 0xF) << 8u16) | (((b as u16) & 0xF) << 12u16)) >> 12u16) & 0xF) as u8) == b,
{
}

proof fn lemma_bits_nibble_literal(op: u16, a: u8, lit: i8, u: u16)
    by (bit_vector)
    requires
        op < 256,
        a < 16,
        -8 <= lit < 8,
        u == op | (((a as u16) & 0xF) << 8u16) | ((((lit as u8) as u16) & 0xF) << 12u16),
    ensures
        (((u >> 8u16) & 0xF) as u8) == a,
        (((((u >> 12u16) & 0xF) as i8) << 4u8) >> 4u8) == lit,
{
}

proof fn lemma_bits_high_byte(op: u16, a: u16)
    by (bit_vector)
    requires
        op < 256,
        a < 256,
    ensures
        ((((op | (a << 8u16)) >> 8u16) & 0xFF) as u8) as u16 == a,
{
}

proof fn lemma_bits_byte_offset(op: u16, off: i16)
    by (bit_vector)
    requires
        op < 256,
        -128 <= off < 128,
    ensures
        ((((op | (((off as u16) & 0xFF) << 8u16)) >> 8u16) & 0xFF) as i8) as i16 == off,
{
}

proof fn lemma_bits_16(x: i16, y: i32)
    by (bit_vector)
    requires
        -32768 <= y < 32768,
    ensures
        (x as u16) as i16 == x,
        ((y as u16) as i16) as i32 == y,
{
}

proof fn lemma_bits_32(v: i32)
    by (bit_vector)
    ensures
        ((((v as u32) as u16) as i32) | (((((v as u32) >> 16u32) as u16) as i32) << 16u32)) == v,
{
}

proof fn lemma_bits_64(v: i64, u1: u16, u2: u16, u3: u16, u4: u16)
    by (bit_vector)
    requires
        u1 == (v as u64) as u16,
        u2 == ((v as u64) >> 16u64) as u16,
        u3 == ((v as u64) >> 32u64) as u16,
        u4 == ((v as u64) >> 48u64) as u16,
    ensures
        ((((((u3 as u32) | ((u4 as u32) << 16u32)) as u64) << 32u64) | (((u1 as u32) | ((u2 as u32)
            << 16u32)) as u64)) as i64) == v,
{
}

proof fn lemma_bits_two_bytes(b: u8, c: u8, lit: i8)
    by (bit_vector)
    ensures
        (((b as u16) | ((c as u16) << 8u16)) & 0xFF) as u8 == b,
        ((((b as u16) | ((c as u16) << 8u16)) >> 8u16) & 0xFF) as u8 == c,
        (((b as u16) | (((lit as u16) & 0xFF) << 8u16)) & 0xFF) as u8 == b,
        ((((b as u16) | (((lit as u16) & 0xFF) << 8u16)) >> 8u16) & 0xFF) as i8 == lit,
{
}

/// The code units that the writer emits for an instruction that names no reference read back,
/// through the reader's conversion, as that same instruction: every register, literal and offset
/// comes back where the instruction had it.
#[verifier::spinoff_prover]
#[verifier::rlimit(80)]
pub proof fn lemma_written_instruction_reads_back(
    i: AnyInstruction,
    idx: u16,
    d: DexBackedInstruction,
    data: Seq<u8>,
    h: DexHeader,
    res: AnyInstruction,
)
    requires
        plain_operands(i),
        encoded(i, idx) is Some,
        forall|k: int| 0 <= k < encoded(i, idx)->0.len() ==> #[trigger] d.spec_unit(k) == encoded(i, idx)->0[k],
        d.spec_opcode() == i.spec_opcode(),
        converted(data, h, d, res),
    ensures
        res == i,
{
    let op = opcode_value(i.spec_opcode()) as u16;
    let units = encoded(i, idx)->0;
    assert(op < 256);
    match i {
        AnyInstruction::I10x(x) => {},
        AnyInstruction::I12x(x) => {
            assert(d.spec_unit(0) == units[0]);
            lemma_bits_two_nibbles(op, x.register_a, x.register_b);
        },
        AnyInstruction::I11n(x) => {
            assert(d.spec_unit(0) == units[0]);
            lemma_bits_nibble_literal(op, x.register_a, x.literal, units[0]);
        },
        AnyInstruction::I11x(x) => {
            assert(d.spec_unit(0) == units[0]);
            lemma_bits_high_byte(op, x.register_a);
        },
        AnyInstruction::I10t(x) => {
            assert(d.spec_unit(0) == units[0]);
            lemma_bits_byte_offset(op, x.code_offset);
        },
        AnyInstruction::I20t(x) => {
            assert(d.spec_unit(1) == units[1]);
            lemma_bits_16(0, x.code_offset);
        },
        AnyInstruction::I30t(x) => {
            assert(d.spec_unit(1) == units[1] && d.spec_unit(2) == units[2]);
            lemma_bits_32(x.code_offset);
        },
        AnyInstruction::I21s(x) => {
            assert(d.spec_unit(0) == units[0] && d.spec_unit(1) == units[1]);
            lemma_bits_high_byte(op, x.register_a as u16);
            lemma_bits_16(x.literal, 0);
        },
        AnyInstruction::I31i(x) => {
            assert(d.spec_unit(0) == units[0] && d.spec_unit(1) == units[1] && d.spec_unit(2) == units[2]);
            lemma_bits_high_byte(op, x.register_a as u16);
            lemma_bits_32(x.literal);
        },
        AnyInstruction::I51l(x) => {
            assert(d.spec_unit(0) == units[0] && d.spec_unit(1) == units[1] && d.spec_unit(2) == units[2]);
            assert(d.spec_unit(3) == units[3] && d.spec_unit(4) == units[4]);
            lemma_bits_high_byte(op, x.register_a as u16);
            lemma_bits_64(x.literal, units[1], units[2], units[3], units[4]);
        },
        AnyInstruction::I21t(x) => {
            assert(d.spec_unit(0) == units[0] && d.spec_unit(1) == units[1]);
            lemma_bits_high_byte(op, x.register_a as u16);
            lemma_bits_16(x.code_offset, 0);
        },
        AnyInstruction::I22t(x) => {
            assert(d.spec_unit(0) == units[0] && d.spec_unit(1) == units[1]);
            lemma_bits_two_nibbles(op, x.register_a, x.register_b);
            lemma_bits_16(x.code_offset, 0);
        },
        AnyInstruction::I22b(x) => {
            assert(d.spec_unit(0) == units[0] && d.spec_unit(1) == units[1]);
            lemma_bits_high_byte(op, x.register_a as u16);
            lemma_bits_two_bytes(x.register_b, 0, x.literal);
        },
        AnyInstruction::I22s(x) => {
            assert(d.spec_unit(0) == units[0] && d.spec_unit(1) == units[1]);
            lemma_bits_two_nibbles(op, x.register_a, x.register_b);
            lemma_bits_16(x.literal, 0);
        },
        AnyInstruction::I22x(x) => {
            assert(d.spec_unit(0) == units[0] && d.spec_unit(1) == units[1]);
            lemma_bits_high_byte(op, x.register_a as u16);
        },
        AnyInstruction::I23x(x) => {
            assert(d.spec_unit(0) == units[0] && d.spec_unit(1) == units[1]);
            lemma_bits_high_byte(op, x.register_a as u16);
            lemma_bits_two_bytes(x.register_b, x.register_c, 0);
        },
        AnyInstruction::I31t(x) => {
            assert(d.spec_unit(0) == units[0] && d.spec_unit(1) == units[1] && d.spec_unit(2) == units[2]);
            lemma_bits_high_byte(op, x.register_a as u16);
            lemma_bits_32(x.code_offset);
        },
        AnyInstruction::I32x(x) => {
            assert(d.spec_unit(1) == units[1] && d.spec_unit(2) == units[2]);
        },
        _ => {},
    }
}

/// Whether `i` is an immutable instruction of a format that names a reference (21c, 31c, 22c,
/// 35c or 3rc), with its registers within the bits that its format gives them.
pub open spec fn referencing_operands(i: AnyInstruction) -> bool {
    match i {
        AnyInstruction::I21c(x) => opcode_format(x.opcode) == InstructionFormat::Format21c,
        AnyInstruction::I31c(x) => opcode_format(x.opcode) == InstructionFormat::Format31c,
        AnyInstruction::I22c(x) => opcode_format(x.opcode) == InstructionFormat::Format22c && x.register_a < 16
            && x.register_b < 16,
        AnyInstruction::I35c(x) => opcode_format(x.opcode) == InstructionFormat::Format35c && x.register_count
            < 16 && x.register_c < 16 && x.register_d < 16 && x.register_e < 16 && x.register_f < 16
            && x.register_g < 16,
        AnyInstruction::I3rc(x) => opcode_format(x.opcode) == InstructionFormat::Format3rc,
        _ => false,
    }
}

proof fn lemma_bits_35c_head(op: u16, count: u8, g: u16, u: u16)
    by (bit_vector)
    requires
        op < 256,
        count < 16,
        g < 16,
        u == op | (((count as u16) & 0xF) << 12u16) | ((g & 0xF) << 8u16),
    ensures
        ((u >> 12u16) & 0xF) as u8 == count,
        (u >> 8u16) & 0xF == g,
{
}

proof fn lemma_bits_35c_registers(c: u16, d: u16, e: u16, f: u16, u: u16)
    by (bit_vector)
    requires
        c < 16,
        d < 16,
        e < 16,
        f < 16,
        u == ((f & 0xF) << 12u16) | ((e & 0xF) << 8u16) | ((d & 0xF) << 4u16) | (c & 0xF),
    ensures
        u & 0xF == c,
        (u >> 4u16) & 0xF == d,
        (u >> 8u16) & 0xF == e,
        (u >> 12u16) & 0xF == f,
{
}

/// The code units that the writer emits for a 21c instruction read back, through the reader's
/// conversion, with the same opcode and registers, and with the reference index that was written.
#[verifier::spinoff_prover]
#[verifier::rlimit(80)]
pub proof fn lemma_written_21c_reads_back(i: AnyInstruction, idx: u16, d: DexBackedInstruction, data: Seq<u8>, h: DexHeader, res: AnyInstruction)
    requires
        referencing_operands(i),
        i is I21c,
        encoded(i, idx) is Some,
        forall|k: int| 0 <= k < encoded(i, idx)->0.len() ==> #[trigger] d.spec_unit(k) == encoded(i, idx)->0[k],
        d.spec_opcode() == i.spec_opcode(),
        converted(data, h, d, res),
    ensures
        d.spec_reference_index_16() == idx,
        i matches AnyInstruction::I21c(x) ==> res matches AnyInstruction::I21c(y) && y.opcode == x.opcode && y.register_a == x.register_a,
{
    let op = opcode_value(i.spec_opcode()) as u16;
    let units = encoded(i, idx)->0;
    assert(d.spec_unit(0) == units[0] && d.spec_unit(1) == units[1]);
    if let AnyInstruction::I21c(x) = i {
        lemma_bits_high_byte(op, x.register_a as u16);
    }
}

/// The code units that the writer emits for a 31c instruction read back, through the reader's
/// conversion, with the same opcode and registers, and with the reference index that was written.
#[verifier::spinoff_prover]
#[verifier::rlimit(80)]
pub proof fn lemma_written_31c_reads_back(i: AnyInstruction, idx: u16, d: DexBackedInstruction, data: Seq<u8>, h: DexHeader, res: AnyInstruction)
    requires
        referencing_operands(i),
        i is I31c,
        encoded(i, idx) is Some,
        forall|k: int| 0 <= k < encoded(i, idx)->0.len() ==> #[trigger] d.spec_unit(k) == encoded(i, idx)->0[k],
        d.spec_opcode() == i.spec_opcode(),
        converted(data, h, d, res),
    ensures
        d.spec_reference_index_16() == idx,
        i matches AnyInstruction::I31c(x) ==> res matches AnyInstruction::I31c(y) && y.opcode == x.opcode && y.register_a == x.register_a,
{
    let op = opcode_value(i.spec_opcode()) as u16;
    let units = encoded(i, idx)->0;
    assert(d.spec_unit(0) == units[0] && d.spec_unit(1) == units[1]);
    if let AnyInstruction::I31c(x) = i {
        lemma_bits_high_byte(op, x.register_a as u16);
    }
}

/// The code units that the writer emits for a 22c instruction read back, through the reader's
/// conversion, with the same opcode and registers, and with the reference index that was written.
#[verifier::spinoff_prover]
#[verifier::rlimit(80)]
pub proof fn lemma_written_22c_reads_back(i: AnyInstruction, idx: u16, d: DexBackedInstruction, data: Seq<u8>, h: DexHeader, res: AnyInstruction)
    requires
        referencing_operands(i),
        i is I22c,
        encoded(i, idx) is Some,
        forall|k: int| 0 <= k < encoded(i, idx)->0.len() ==> #[trigger] d.spec_unit(k) == encoded(i, idx)->0[k],
        d.spec_opcode() == i.spec_opcode(),
        converted(data, h, d, res),
    ensures
        d.spec_reference_index_16() == idx,
        i matches AnyInstruction::I22c(x) ==> res matches AnyInstruction::I22c(y) && y.opcode == x.opcode && y.register_a == x.register_a
            && y.register_b == x.register_b,
{
    let op = opcode_value(i.spec_opcode()) as u16;
    let units = encoded(i, idx)->0;
    assert(d.spec_unit(0) == units[0] && d.spec_unit(1) == units[1]);
    if let AnyInstruction::I22c(x) = i {
        lemma_bits_two_nibbles(op, x.register_a, x.register_b);
    }
}

/// The code units that the writer emits for a 35c instruction read back, through the reader's
/// conversion, with the same opcode and registers, and with the reference index that was written.
#[verifier::spinoff_prover]
#[verifier::rlimit(80)]
pub proof fn lemma_written_35c_reads_back(i: AnyInstruction, idx: u16, d: DexBackedInstruction, data: Seq<u8>, h: DexHeader, res: AnyInstruction)
    requires
        referencing_operands(i),
        i is I35c,
        encoded(i, idx) is Some,
        forall|k: int| 0 <= k < encoded(i, idx)->0.len() ==> #[trigger] d.spec_unit(k) == encoded(i, idx)->0[k],
        d.spec_opcode() == i.spec_opcode(),
        converted(data, h, d, res),
    ensures
        d.spec_reference_index_16() == idx,
        i matches AnyInstruction::I35c(x) ==> res matches AnyInstruction::I35c(y) && y.opcode == x.opcode && y.register_count == x.register_count
            && y.register_c == x.register_c && y.register_d == x.register_d && y.register_e == x.register_e
            && y.register_f == x.register_f && y.register_g == x.register_g,
{
    let op = opcode_value(i.spec_opcode()) as u16;
    let units = encoded(i, idx)->0;
    assert(d.spec_unit(0) == units[0] && d.spec_unit(1) == units[1]);
    if let AnyInstruction::I35c(x) = i {
        assert(d.spec_unit(2) == units[2]);
        lemma_bits_35c_head(op, x.register_count, x.register_g, units[0]);
        lemma_bits_35c_registers(x.register_c, x.register_d, x.register_e, x.register_f, units[2]);
    }
}

/// The code units that the writer emits for a 3rc instruction read back, through the reader's
/// conversion, with the same opcode and registers, and with the reference index that was written.
#[verifier::spinoff_prover]
#[verifier::rlimit(80)]
pub proof fn lemma_written_3rc_reads_back(i: AnyInstruction, idx: u16, d: DexBackedInstruction, data: Seq<u8>, h: DexHeader, res: AnyInstruction)
    requires
        referencing_operands(i),
        i is I3rc,
        encoded(i, idx) is Some,
        forall|k: int| 0 <= k < encoded(i, idx)->0.len() ==> #[trigger] d.spec_unit(k) == encoded(i, idx)->0[k],
        d.spec_opcode() == i.spec_opcode(),
        converted(data, h, d, res),
    ensures
        d.spec_reference_index_16() == idx,
        i matches AnyInstruction::I3rc(x) ==> res matches AnyInstruction::I3rc(y) && y.opcode == x.opcode && y.register_count == x.register_count
            && y.start_register == x.start_register,
{
    let op = opcode_value(i.spec_opcode()) as u16;
    let units = encoded(i, idx)->0;
    assert(d.spec_unit(0) == units[0] && d.spec_unit(1) == units[1]);
    if let AnyInstruction::I3rc(x) = i {
        assert(d.spec_unit(2) == units[2]);
        lemma_bits_high_byte(op, x.register_count as u16);
    }
}

} // verus!
