use vstd::prelude::*;
use crate::base::opcode::{opcode_format, spec_opcode_from_u8, InstructionFormat, Opcode};
use crate::base::text::{decimal, hexadecimal, push_decimal, push_hex, text};
use crate::iface::instruction::{opcode_code_units, AnyInstruction, Instruction};

verus! {

/// The array length stored in the array payload that starts at `offset`.
pub open spec fn array_payload_length(insns: Seq<u16>, offset: int) -> u32 {
    (insns[offset + 2] as u32) | ((insns[offset + 3] as u32) << 16)
}

/// Whether an array payload starts at `offset` whose data size (length times element width)
/// is `u32::MAX`, whose size in code units does not fit the 32-bit computation of it.
pub open spec fn array_payload_at_limit(insns: Seq<u16>, offset: int) -> bool {
    &&& 0 <= offset
    &&& offset + 3 < insns.len()
    &&& insns[offset] == 0x0300
    &&& array_payload_length(insns, offset) * insns[offset + 1] == 0xFFFF_FFFF
}

/// The number of code units of the instruction that starts at `offset`: from the switch count
/// of a packed- or sparse-switch payload, from the length and element width of an array payload
/// (`None` when their product overflows a `u32`), or from the opcode in the low byte (`None` for
/// an unused opcode or a payload cut short by the end of `insns`).
pub open spec fn spec_instruction_size(insns: Seq<u16>, offset: int) -> Option<int> {
    let word = insns[offset];
    if word == 0x0100 {
        if offset + 1 >= insns.len() {
            None
        } else {
            Some(4 + insns[offset + 1] * 2)
        }
    } else if word == 0x0200 {
        if offset + 1 >= insns.len() {
            None
        } else {
            Some(2 + insns[offset + 1] * 4)
        }
    } else if word == 0x0300 {
        if offset + 3 >= insns.len() {
            None
        } else {
            let product = array_payload_length(insns, offset) * insns[offset + 1];
            if product > 0xFFFF_FFFF {
                None
            } else {
                Some(4 + (product + 1) / 2)
            }
        }
    } else {
        match spec_opcode_from_u8((word & 0xFF) as u8) {
            Some(op) => Some(opcode_code_units(op) as int),
            None => None,
        }
    }
}

/// The opcode that `decode_instruction` gives the instruction at `offset`: `nop` for the
/// payload pseudo-instructions, else the opcode in the low byte.
pub open spec fn spec_decoded_opcode(insns: Seq<u16>, offset: int) -> Opcode {
    let word = insns[offset];
    if word == 0x0100 || word == 0x0200 || word == 0x0300 {
        Opcode::Nop
    } else {
        spec_opcode_from_u8((word & 0xFF) as u8).unwrap()
    }
}

/// The message of the error that decoding at `offset` gives, where it fails.
pub open spec fn decode_error(insns: Seq<u16>, offset: int) -> Seq<char> {
    if offset >= insns.len() {
        "offset "@ + decimal(offset as nat) + " out of bounds for insns of length "@ + decimal(insns.len())
    } else {
        let word = insns[offset];
        if word == 0x0100 && offset + 1 >= insns.len() {
            "truncated packed-switch payload"@
        } else if word == 0x0200 && offset + 1 >= insns.len() {
            "truncated sparse-switch payload"@
        } else if word == 0x0300 && offset + 3 >= insns.len() {
            "truncated array-payload"@
        } else if word == 0x0300 && array_payload_length(insns, offset) * insns[offset + 1] > 0xFFFF_FFFF {
            "array-payload overflow: length="@ + decimal(array_payload_length(insns, offset) as nat) + ", width="@
                + decimal(insns[offset + 1] as nat)
        } else if word != 0x0100 && word != 0x0200 && word != 0x0300 && spec_opcode_from_u8(
            (word & 0xFF) as u8,
        ) is None {
            "Unknown opcode: 0x"@ + hexadecimal((word & 0xFF) as nat, 2, false)
        } else {
            "instruction at offset "@ + decimal(offset as nat) + " requires "@ + decimal(
                spec_instruction_size(insns, offset)->0 as nat,
            ) + " code units but only "@ + decimal((insns.len() - offset) as nat) + " remain"@
        }
    }
}

/// Whether an instruction can be decoded at `offset`: it starts inside `insns`, its size is
/// known and it ends inside `insns`.
pub open spec fn spec_decodes_at(insns: Seq<u16>, offset: int) -> bool {
    &&& 0 <= offset < insns.len()
    &&& spec_instruction_size(insns, offset) matches Some(size)
    &&& offset + size <= insns.len()
}

/// An instruction read from a code item, kept as its raw code units.
#[derive(Debug, Clone)]
pub struct DexBackedInstruction {
    opcode: Opcode,
    raw_insns: Vec<u16>,
    offset: usize,
}

impl DexBackedInstruction {
    /// The code units that the instruction was made from.
    pub closed spec fn spec_raw_insns(&self) -> Seq<u16> {
        self.raw_insns@
    }

    /// Where the instruction starts among its code units.
    pub closed spec fn spec_offset(&self) -> nat {
        self.offset as nat
    }

    /// The `i`th code unit of the instruction, or zero past the end.
    pub open spec fn spec_unit(&self, i: int) -> u16 {
        if self.spec_offset() + i < self.spec_raw_insns().len() {
            self.spec_raw_insns()[self.spec_offset() + i]
        } else {
            0
        }
    }

    /// The number of code units of the instruction: that of a payload from its header, else
    /// that of its opcode. Where the 32-bit computation of an array payload's size overflows, it
    /// is `u32::MAX`.
    pub open spec fn spec_code_units(&self) -> u32 {
        let word = self.spec_unit(0);
        if word == 0x0100 {
            (4 + self.spec_unit(1) * 2) as u32
        } else if word == 0x0200 {
            (2 + self.spec_unit(1) * 4) as u32
        } else if word == 0x0300 {
            let length = (self.spec_unit(2) as u32) | ((self.spec_unit(3) as u32) << 16);
            let product = length * self.spec_unit(1);
            if product < 0xFFFF_FFFF {
                (4 + (product + 1) / 2) as u32
            } else {
                0xFFFF_FFFF
            }
        } else {
            opcode_code_units(self.spec_opcode())
        }
    }

    /// The format of the instruction: a payload format from the header, else that of the opcode.
    pub open spec fn spec_format(&self) -> InstructionFormat {
        let word = self.spec_unit(0);
        if word == 0x0100 {
            InstructionFormat::PackedSwitchPayload
        } else if word == 0x0200 {
            InstructionFormat::SparseSwitchPayload
        } else if word == 0x0300 {
            InstructionFormat::ArrayPayload
        } else {
            opcode_format(self.spec_opcode())
        }
    }

    pub fn new(opcode: Opcode, raw_insns: Vec<u16>, offset: usize) -> (res: Self)
        ensures
            res.spec_opcode() == opcode,
            res.spec_raw_insns() == raw_insns@,
            res.spec_offset() == offset,
    {
        DexBackedInstruction { opcode, raw_insns, offset }
    }

    fn insn(&self, index: usize) -> (res: u16)
        ensures
            res == self.spec_unit(index as int),
    {
        if self.offset < self.raw_insns.len() && index < self.raw_insns.len() - self.offset {
            self.raw_insns[self.offset + index]
        } else {
            0
        }
    }

    /// Decodes the instruction that starts at `offset`; returns it with its size in code units.
    pub fn decode_instruction(insns: &[u16], offset: usize) -> (res: Result<
        (DexBackedInstruction, usize),
        String,
    >)
        requires
            !array_payload_at_limit(insns@, offset as int),
        ensures
            res is Ok <==> spec_decodes_at(insns@, offset as int),
            res matches Err(e) ==> e@ == decode_error(insns@, offset as int),
            res matches Ok((instr, size)) ==> {
                &&& spec_instruction_size(insns@, offset as int) == Some(size as int)
                &&& instr.spec_opcode() == spec_decoded_opcode(insns@, offset as int)
                &&& instr.spec_raw_insns() == insns@.subrange(
                    offset as int,
                    offset + size,
                )
                &&& instr.spec_offset() == 0
            },
    {
        if offset >= insns.len() {
            let mut msg = text("offset ");
            push_decimal(&mut msg, offset as u64);
            msg.append(" out of bounds for insns of length ");
            push_decimal(&mut msg, insns.len() as u64);
            return Err(msg);
        }
        let full_word: u16 = insns[offset];
        let raw_opcode: u8 = (full_word & 0xFF) as u8;

        let code_units: u32 = if full_word == 0x0100 {
            if insns.len() - offset <= 1 {
                return Err(text("truncated packed-switch payload"));
            }
            let switch_count: u32 = insns[offset + 1] as u32;
            4 + switch_count * 2
        } else if full_word == 0x0200 {
            if insns.len() - offset <= 1 {
                return Err(text("truncated sparse-switch payload"));
            }
            let switch_count: u32 = insns[offset + 1] as u32;
            2 + switch_count * 4
        } else if full_word == 0x0300 {
            if insns.len() - offset <= 3 {
                return Err(text("truncated array-payload"));
            }
            let element_width: u16 = insns[offset + 1];
            let array_length: u32 = (insns[offset + 2] as u32) | ((insns[offset + 3] as u32)
                << 16);
            assert(array_length == array_payload_length(insns@, offset as int));
            match array_length.checked_mul(element_width as u32) {
                Some(v) => {
                    4 + (v + 1) / 2
                },
                None => {
                    let mut msg = text("array-payload overflow: length=");
                    push_decimal(&mut msg, array_length as u64);
                    msg.append(", width=");
                    push_decimal(&mut msg, element_width as u64);
                    return Err(msg);
                },
            }
        } else {
            match Opcode::from_u8(raw_opcode) {
                Some(op) => op.code_units(),
                None => {
                    let mut msg = text("Unknown opcode: 0x");
                    assert(raw_opcode as u64 == (full_word & 0xFF) as u64) by (bit_vector)
                        requires
                            raw_opcode == (full_word & 0xFF) as u8,
                    ;
                    push_hex(&mut msg, raw_opcode as u64, 2, false);
                    return Err(msg);
                },
            }
        };

        let opcode = if full_word == 0x0100 || full_word == 0x0200 || full_word == 0x0300 {
            Opcode::Nop
        } else {
            match Opcode::from_u8(raw_opcode) {
                Some(op) => op,
                None => {
                    return Err(text("Unknown opcode"));
                },
            }
        };

        if code_units as usize > insns.len() - offset {
            let mut msg = text("instruction at offset ");
            push_decimal(&mut msg, offset as u64);
            msg.append(" requires ");
            push_decimal(&mut msg, code_units as u64);
            msg.append(" code units but only ");
            push_decimal(&mut msg, (insns.len() - offset) as u64);
            msg.append(" remain");
            return Err(msg);
        }
        let end: usize = offset + code_units as usize;

        let mut raw: Vec<u16> = Vec::new();
        let mut i: usize = offset;
        while i < end
            invariant
                offset <= i <= end,
                end <= insns.len(),
                raw@ == insns@.subrange(offset as int, i as int),
            decreases end - i,
        {
            raw.push(insns[i]);
            assert(raw@ =~= insns@.subrange(offset as int, i + 1));
            i += 1;
        }
        let instr = DexBackedInstruction { opcode, raw_insns: raw, offset: 0 };
        Ok((instr, code_units as usize))
    }
}

impl Instruction for DexBackedInstruction {
    closed spec fn spec_opcode(&self) -> Opcode {
        self.opcode
    }

    fn opcode(&self) -> (res: Opcode) {
        self.opcode
    }

    fn clone_boxed(&self) -> (res: AnyInstruction)
        ensures
            res matches AnyInstruction::DexBacked(d) && d.spec_opcode() == self.spec_opcode()
                && d.spec_raw_insns() == self.spec_raw_insns() && d.spec_offset()
                == self.spec_offset(),
    {
        let mut raw: Vec<u16> = Vec::new();
        let mut i: usize = 0;
        while i < self.raw_insns.len()
            invariant
                i <= self.raw_insns.len(),
                raw@ == self.raw_insns@.take(i as int),
            decreases self.raw_insns.len() - i,
        {
            raw.push(self.raw_insns[i]);
            assert(raw@ =~= self.raw_insns@.take(i + 1));
            i += 1;
        }
        assert(raw@ =~= self.raw_insns@);
        AnyInstruction::DexBacked(DexBackedInstruction::new(self.opcode, raw, self.offset))
    }

    fn format(&self) -> (res: InstructionFormat)
        ensures
            res == self.spec_format(),
    {
        let word = self.insn(0);
        if word == 0x0100 {
            InstructionFormat::PackedSwitchPayload
        } else if word == 0x0200 {
            InstructionFormat::SparseSwitchPayload
        } else if word == 0x0300 {
            InstructionFormat::ArrayPayload
        } else {
            self.opcode.format()
        }
    }

    fn code_units(&self) -> (res: u32)
        ensures
            res == self.spec_code_units(),
    {
        let word = self.insn(0);
        if word == 0x0100 {
            let switch_count: u32 = self.insn(1) as u32;
            4 + switch_count * 2
        } else if word == 0x0200 {
            let switch_count: u32 = self.insn(1) as u32;
            2 + switch_count * 4
        } else if word == 0x0300 {
            let element_width: u16 = self.insn(1);
            let array_length: u32 = (self.insn(2) as u32) | ((self.insn(3) as u32) << 16);
            match array_length.checked_mul(element_width as u32) {
                Some(v) => {
                    if v < 0xFFFF_FFFF {
                        4 + (v + 1) / 2
                    } else {
                        0xFFFF_FFFF
                    }
                },
                None => 0xFFFF_FFFF,
            }
        } else {
            self.opcode.code_units()
        }
    }
}

impl DexBackedInstruction {
    /// Bits 8-15 of the first code unit.
    pub open spec fn spec_register_a_byte(&self) -> u8 {
        ((self.spec_unit(0) >> 8) & 0xFF) as u8
    }

    /// Bits 8-15 of the first code unit.
    pub fn register_a_byte(&self) -> (res: u8)
        ensures
            res == self.spec_register_a_byte(),
    {
        ((self.insn(0) >> 8) & 0xFF) as u8
    }

    /// Bits 0-7 of the second code unit.
    pub open spec fn spec_register_b_byte(&self) -> u8 {
        (self.spec_unit(1) & 0xFF) as u8
    }

    /// Bits 0-7 of the second code unit.
    pub fn register_b_byte(&self) -> (res: u8)
        ensures
            res == self.spec_register_b_byte(),
    {
        (self.insn(1) & 0xFF) as u8
    }

    /// The second code unit.
    pub open spec fn spec_register_a_short(&self) -> u16 {
        self.spec_unit(1)
    }

    /// The second code unit.
    pub fn register_a_short(&self) -> (res: u16)
        ensures
            res == self.spec_register_a_short(),
    {
        self.insn(1)
    }

    /// The third code unit.
    pub open spec fn spec_register_b_short(&self) -> u16 {
        self.spec_unit(2)
    }

    /// The third code unit.
    pub fn register_b_short(&self) -> (res: u16)
        ensures
            res == self.spec_register_b_short(),
    {
        self.insn(2)
    }

    /// The fourth code unit.
    pub open spec fn spec_register_c_short(&self) -> u16 {
        self.spec_unit(3)
    }

    /// The fourth code unit.
    pub fn register_c_short(&self) -> (res: u16)
        ensures
            res == self.spec_register_c_short(),
    {
        self.insn(3)
    }

    /// Bits 12-15 of the first code unit, sign-extended: the literal of an 11n instruction.
    pub open spec fn spec_literal_nibble(&self) -> i8 {
        ((((self.spec_unit(0) >> 12) & 0xF) as i8) << 4u8) >> 4u8
    }

    /// Bits 12-15 of the first code unit, sign-extended: the literal of an 11n instruction.
    pub fn literal_nibble(&self) -> (res: i8)
        ensures
            res == self.spec_literal_nibble(),
    {
        (((self.insn(0) >> 12) & 0xF) as i8) << 4 >> 4
    }

    /// The second code unit, signed.
    pub open spec fn spec_literal_16(&self) -> i16 {
        self.spec_unit(1) as i16
    }

    /// The second code unit, signed.
    pub fn literal_16(&self) -> (res: i16)
        ensures
            res == self.spec_literal_16(),
    {
        self.insn(1) as i16
    }

    /// The second and third code units, low first, signed.
    pub open spec fn spec_literal_32(&self) -> i32 {
        (self.spec_unit(1) as i32) | ((self.spec_unit(2) as i32) << 16u32)
    }

    /// The second and third code units, low first, signed.
    pub fn literal_32(&self) -> (res: i32)
        ensures
            res == self.spec_literal_32(),
    {
        (self.insn(1) as i32) | ((self.insn(2) as i32) << 16)
    }

    /// The second to fifth code units, low first, signed.
    pub open spec fn spec_literal_64(&self) -> i64 {
        ((((((self.spec_unit(3) as u32) | ((self.spec_unit(4) as u32) << 16u32)) as u64)
                << 32u64) | (((self.spec_unit(1) as u32) | ((self.spec_unit(2) as u32) << 16u32))
                as u64)) as i64)
    }

    /// The second to fifth code units, low first, signed.
    pub fn literal_64(&self) -> (res: i64)
        ensures
            res == self.spec_literal_64(),
    {
        let lo: u32 = (self.insn(1) as u32) | ((self.insn(2) as u32) << 16);
        let hi: u32 = (self.insn(3) as u32) | ((self.insn(4) as u32) << 16);
        (((hi as u64) << 32) | lo as u64) as i64
    }

    /// Bits 8-15 of the first code unit, signed.
    pub open spec fn spec_code_offset_8(&self) -> i16 {
        (((self.spec_unit(0) >> 8) & 0xFF) as i8) as i16
    }

    /// Bits 8-15 of the first code unit, signed.
    pub fn code_offset_8(&self) -> (res: i16)
        ensures
            res == self.spec_code_offset_8(),
    {
        (((self.insn(0) >> 8) & 0xFF) as i8) as i16
    }

    /// The second code unit, signed.
    pub open spec fn spec_code_offset_16(&self) -> i16 {
        self.spec_unit(1) as i16
    }

    /// The second code unit, signed.
    pub fn code_offset_16(&self) -> (res: i16)
        ensures
            res == self.spec_code_offset_16(),
    {
        self.insn(1) as i16
    }

    /// The second and third code units, low first, signed.
    pub open spec fn spec_code_offset_32(&self) -> i32 {
        (self.spec_unit(1) as i32) | ((self.spec_unit(2) as i32) << 16u32)
    }

    /// The second and third code units, low first, signed.
    pub fn code_offset_32(&self) -> (res: i32)
        ensures
            res == self.spec_code_offset_32(),
    {
        (self.insn(1) as i32) | ((self.insn(2) as i32) << 16)
    }

    /// The second code unit.
    pub open spec fn spec_reference_index_16(&self) -> u16 {
        self.spec_unit(1)
    }

    /// The second code unit.
    pub fn reference_index_16(&self) -> (res: u16)
        ensures
            res == self.spec_reference_index_16(),
    {
        self.insn(1)
    }

    /// The second and third code units, low first.
    pub open spec fn spec_reference_index_32(&self) -> u32 {
        (self.spec_unit(1) as u32) | ((self.spec_unit(2) as u32) << 16u32)
    }

    /// The second and third code units, low first.
    pub fn reference_index_32(&self) -> (res: u32)
        ensures
            res == self.spec_reference_index_32(),
    {
        (self.insn(1) as u32) | ((self.insn(2) as u32) << 16)
    }

    /// Bits 12-15 of the first code unit: the register count of a 35c-style instruction.
    pub open spec fn spec_invoke_register_count(&self) -> u8 {
        ((self.spec_unit(0) >> 12) & 0xF) as u8
    }

    /// Bits 12-15 of the first code unit: the register count of a 35c-style instruction.
    pub fn invoke_register_count(&self) -> (res: u8)
        ensures
            res == self.spec_invoke_register_count(),
    {
        ((self.insn(0) >> 12) & 0xF) as u8
    }

    /// Bits 0-3 of the third code unit.
    pub open spec fn spec_invoke_register_c(&self) -> u16 {
        self.spec_unit(2) & 0xF
    }

    /// Bits 0-3 of the third code unit.
    pub fn invoke_register_c(&self) -> (res: u16)
        ensures
            res == self.spec_invoke_register_c(),
    {
        self.insn(2) & 0xF
    }

    /// Bits 4-7 of the third code unit.
    pub open spec fn spec_invoke_register_d(&self) -> u16 {
        (self.spec_unit(2) >> 4) & 0xF
    }

    /// Bits 4-7 of the third code unit.
    pub fn invoke_register_d(&self) -> (res: u16)
        ensures
            res == self.spec_invoke_register_d(),
    {
        (self.insn(2) >> 4) & 0xF
    }

    /// Bits 8-11 of the third code unit.
    pub open spec fn spec_invoke_register_e(&self) -> u16 {
        (self.spec_unit(2) >> 8) & 0xF
    }

    /// Bits 8-11 of the third code unit.
    pub fn invoke_register_e(&self) -> (res: u16)
        ensures
            res == self.spec_invoke_register_e(),
    {
        (self.insn(2) >> 8) & 0xF
    }

    /// Bits 12-15 of the third code unit.
    pub open spec fn spec_invoke_register_f(&self) -> u16 {
        (self.spec_unit(2) >> 12) & 0xF
    }

    /// Bits 12-15 of the third code unit.
    pub fn invoke_register_f(&self) -> (res: u16)
        ensures
            res == self.spec_invoke_register_f(),
    {
        (self.insn(2) >> 12) & 0xF
    }

    /// Bits 8-11 of the first code unit.
    pub open spec fn spec_invoke_register_g(&self) -> u16 {
        (self.spec_unit(0) >> 8) & 0xF
    }

    /// Bits 8-11 of the first code unit.
    pub fn invoke_register_g(&self) -> (res: u16)
        ensures
            res == self.spec_invoke_register_g(),
    {
        (self.insn(0) >> 8) & 0xF
    }

    /// The third code unit.
    pub open spec fn spec_invoke_range_start(&self) -> u16 {
        self.spec_unit(2)
    }

    /// The third code unit.
    pub fn invoke_range_start(&self) -> (res: u16)
        ensures
            res == self.spec_invoke_range_start(),
    {
        self.insn(2)
    }

    /// Bits 8-15 of the first code unit: the register count of a 3rc-style instruction.
    pub open spec fn spec_invoke_range_count(&self) -> u8 {
        ((self.spec_unit(0) >> 8) & 0xFF) as u8
    }

    /// Bits 8-15 of the first code unit: the register count of a 3rc-style instruction.
    pub fn invoke_range_count(&self) -> (res: u8)
        ensures
            res == self.spec_invoke_range_count(),
    {
        ((self.insn(0) >> 8) & 0xFF) as u8
    }

    /// Bits 8-15 of the second code unit, signed: the literal of a 22b instruction.
    pub open spec fn spec_literal_byte(&self) -> i8 {
        ((self.spec_unit(1) >> 8) & 0xFF) as i8
    }

    /// Bits 8-15 of the second code unit, signed: the literal of a 22b instruction.
    pub fn literal_byte(&self) -> (res: i8)
        ensures
            res == self.spec_literal_byte(),
    {
        ((self.insn(1) >> 8) & 0xFF) as i8
    }

    /// Bits 12-15 of the first code unit.
    pub open spec fn spec_register_b_nibble(&self) -> u8 {
        ((self.spec_unit(0) >> 12) & 0xF) as u8
    }

    /// Bits 12-15 of the first code unit.
    pub fn register_b_nibble(&self) -> (res: u8)
        ensures
            res == self.spec_register_b_nibble(),
    {
        ((self.insn(0) >> 12) & 0xF) as u8
    }

    /// Bits 8-11 of the first code unit.
    pub open spec fn spec_register_c_nibble(&self) -> u8 {
        ((self.spec_unit(0) >> 8) & 0xF) as u8
    }

    /// Bits 8-11 of the first code unit.
    pub fn register_c_nibble(&self) -> (res: u8)
        ensures
            res == self.spec_register_c_nibble(),
    {
        ((self.insn(0) >> 8) & 0xF) as u8
    }

    /// Bits 8-15 of the second code unit.
    pub open spec fn spec_register_c_byte(&self) -> u8 {
        ((self.spec_unit(1) >> 8) & 0xFF) as u8
    }

    /// Bits 8-15 of the second code unit.
    pub fn register_c_byte(&self) -> (res: u8)
        ensures
            res == self.spec_register_c_byte(),
    {
        ((self.insn(1) >> 8) & 0xFF) as u8
    }

    /// Bits 8-15 of the first code unit.
    pub open spec fn spec_register_a_22x(&self) -> u8 {
        ((self.spec_unit(0) >> 8) & 0xFF) as u8
    }

    /// Bits 8-15 of the first code unit.
    pub fn register_a_22x(&self) -> (res: u8)
        ensures
            res == self.spec_register_a_22x(),
    {
        ((self.insn(0) >> 8) & 0xFF) as u8
    }

    /// The second code unit.
    pub open spec fn spec_register_b_22x(&self) -> u16 {
        self.spec_unit(1)
    }

    /// The second code unit.
    pub fn register_b_22x(&self) -> (res: u16)
        ensures
            res == self.spec_register_b_22x(),
    {
        self.insn(1)
    }

    /// The second code unit.
    pub open spec fn spec_register_a_32x(&self) -> u16 {
        self.spec_unit(1)
    }

    /// The second code unit.
    pub fn register_a_32x(&self) -> (res: u16)
        ensures
            res == self.spec_register_a_32x(),
    {
        self.insn(1)
    }

    /// The third code unit.
    pub open spec fn spec_register_b_32x(&self) -> u16 {
        self.spec_unit(2)
    }

    /// The third code unit.
    pub fn register_b_32x(&self) -> (res: u16)
        ensures
            res == self.spec_register_b_32x(),
    {
        self.insn(2)
    }

    /// The third code unit.
    pub open spec fn spec_register_c_32x(&self) -> u16 {
        self.spec_unit(2)
    }

    /// The third code unit.
    pub fn register_c_32x(&self) -> (res: u16)
        ensures
            res == self.spec_register_c_32x(),
    {
        self.insn(2)
    }

    /// The code units of the instruction, from its start.
    pub fn raw_code_units(&self) -> (res: &[u16])
        requires
            self.spec_offset() <= self.spec_raw_insns().len(),
        ensures
            res@ == self.spec_raw_insns().skip(self.spec_offset() as int),
    {
        vstd::slice::slice_subrange(self.raw_insns.as_slice(), self.offset, self.raw_insns.len())
    }
}

/// The start and size of each instruction that `decode_all_instructions` reads from `offset`
/// on: it decodes what it can and skips one code unit where decoding fails.
pub open spec fn spec_decode_all_from(insns: Seq<u16>, offset: int) -> Seq<(int, int)>
    decreases insns.len() - offset,
{
    if offset < 0 || offset >= insns.len() {
        Seq::empty()
    } else if spec_decodes_at(insns, offset) {
        let size = spec_instruction_size(insns, offset).unwrap();
        if size <= 0 {
            Seq::empty()
        } else {
            seq![(offset, size)] + spec_decode_all_from(insns, offset + size)
        }
    } else {
        spec_decode_all_from(insns, offset + 1)
    }
}

/// Whether no array payload header anywhere in `insns` has a data size of `u32::MAX`.
pub open spec fn no_array_payload_at_limit(insns: Seq<u16>) -> bool {
    forall|o: int| 0 <= o < insns.len() ==> !#[trigger] array_payload_at_limit(insns, o)
}

proof fn lemma_size_positive(insns: Seq<u16>, offset: int)
    requires
        spec_decodes_at(insns, offset),
    ensures
        spec_instruction_size(insns, offset).unwrap() >= 1,
{
    let word = insns[offset];
    if !(word == 0x0100 || word == 0x0200 || word == 0x0300) {
        let op = spec_opcode_from_u8((word & 0xFF) as u8).unwrap();
        assert(1 <= crate::base::opcode::format_code_units(opcode_format(op)));
    }
}

/// Whether `res` holds, in order, an instruction read from code units for each instruction
/// that `spec_decode_all_from` finds from the start: its opcode and its own code units.
pub open spec fn decodes_to(insns: Seq<u16>, res: Seq<AnyInstruction>) -> bool {
    &&& res.len() == spec_decode_all_from(insns, 0).len()
    &&& forall|k: int|
        0 <= k < res.len() ==> (#[trigger] res[k] matches AnyInstruction::DexBacked(d) && {
            let (start, size) = spec_decode_all_from(insns, 0)[k];
            &&& d.spec_opcode() == spec_decoded_opcode(insns, start)
            &&& d.spec_raw_insns() == insns.subrange(start, start + size)
            &&& d.spec_offset() == 0
        })
}

/// Decodes all instructions of a code item; where decoding fails at a code unit, that unit is
/// skipped.
pub fn decode_all_instructions(insns: &[u16]) -> (res: Vec<AnyInstruction>)
    requires
        no_array_payload_at_limit(insns@),
    ensures
        decodes_to(insns@, res@),
{
    let mut result: Vec<AnyInstruction> = Vec::new();
    let mut offset: usize = 0;
    while offset < insns.len()
        invariant
            offset <= insns.len(),
            no_array_payload_at_limit(insns@),
            spec_decode_all_from(insns@, 0) == spec_decode_all_from(insns@, 0).take(
                result@.len() as int,
            ) + spec_decode_all_from(insns@, offset as int),
            result@.len() <= spec_decode_all_from(insns@, 0).len(),
            forall|k: int|
                0 <= k < result@.len() ==> (#[trigger] result@[k] matches AnyInstruction::DexBacked(d) && {
                    let (start, size) = spec_decode_all_from(insns@, 0)[k];
                    &&& d.spec_opcode() == spec_decoded_opcode(insns@, start)
                    &&& d.spec_raw_insns() == insns@.subrange(start, start + size)
                    &&& d.spec_offset() == 0
                }),
        decreases insns.len() - offset,
    {
        let ghost all = spec_decode_all_from(insns@, 0);
        let ghost n = result@.len() as int;
        proof {
            assert(!array_payload_at_limit(insns@, offset as int));
        }
        match DexBackedInstruction::decode_instruction(insns, offset) {
            Ok((instr, code_units)) => {
                proof {
                    lemma_size_positive(insns@, offset as int);
                    let rest = spec_decode_all_from(insns@, offset as int);
                    assert(rest == seq![(offset as int, code_units as int)]
                        + spec_decode_all_from(insns@, offset + code_units));
                    assert(all[n] == (offset as int, code_units as int));
                    assert(all.take(n + 1) =~= all.take(n).push(all[n]));
                    assert(all =~= all.take(n + 1) + spec_decode_all_from(
                        insns@,
                        offset + code_units,
                    ));
                }
                offset += code_units;
                result.push(AnyInstruction::DexBacked(instr));
            },
            Err(_) => {
                offset += 1;
            },
        }
    }
    proof {
        assert(spec_decode_all_from(insns@, offset as int) =~= Seq::<(int, int)>::empty());
        assert(spec_decode_all_from(insns@, 0).take(result@.len() as int) =~= spec_decode_all_from(
            insns@,
            0,
        ));
    }
    result
}

} // verus!
