use vstd::prelude::*;
use crate::base::opcode::{opcode_format, InstructionFormat, Opcode};
use crate::iface::instruction::{AnyInstruction, Instruction, Instruction20t, Instruction21c, Instruction21s, Instruction21t, Instruction22b, Instruction22c, Instruction22s, Instruction22t, Instruction30t, Instruction31c, Instruction31i, Instruction31t, Instruction35c, Instruction3rc, Instruction51l, OneRegisterInstruction, ThreeRegisterInstruction, TwoRegisterInstruction};
use crate::iface::reference::ReferenceHolder;
use crate::immutable::immutable_reference::{copy_reference, same_item};

verus! {

/// An instruction of format 10x.
#[derive(Debug, Clone, Copy)]
pub struct ImmutableInstruction10x {
    pub opcode: Opcode,
}

impl Instruction for ImmutableInstruction10x {
    open spec fn spec_opcode(&self) -> Opcode {
        self.opcode
    }

    fn opcode(&self) -> (res: Opcode) {
        self.opcode
    }

    fn clone_boxed(&self) -> (res: AnyInstruction)
        ensures
            res == AnyInstruction::I10x(*self),
    {
        AnyInstruction::I10x(*self)
    }
}

/// An instruction of format 11x.
#[derive(Debug, Clone, Copy)]
pub struct ImmutableInstruction11x {
    pub opcode: Opcode,
    pub register_a: u16,
}

impl Instruction for ImmutableInstruction11x {
    open spec fn spec_opcode(&self) -> Opcode {
        self.opcode
    }

    fn opcode(&self) -> (res: Opcode) {
        self.opcode
    }

    fn clone_boxed(&self) -> (res: AnyInstruction)
        ensures
            res == AnyInstruction::I11x(*self),
    {
        AnyInstruction::I11x(*self)
    }
}

impl OneRegisterInstruction for ImmutableInstruction11x {
    fn register_a(&self) -> (res: u16)
        ensures
            res == self.register_a,
    {
        self.register_a
    }
}

/// An instruction of format 12x.
#[derive(Debug, Clone, Copy)]
pub struct ImmutableInstruction12x {
    pub opcode: Opcode,
    pub register_a: u8,
    pub register_b: u8,
}

impl Instruction for ImmutableInstruction12x {
    open spec fn spec_opcode(&self) -> Opcode {
        self.opcode
    }

    fn opcode(&self) -> (res: Opcode) {
        self.opcode
    }

    fn clone_boxed(&self) -> (res: AnyInstruction)
        ensures
            res == AnyInstruction::I12x(*self),
    {
        AnyInstruction::I12x(*self)
    }
}

impl TwoRegisterInstruction for ImmutableInstruction12x {
    fn register_a(&self) -> (res: u8)
        ensures
            res == self.register_a,
    {
        self.register_a
    }

    fn register_b(&self) -> (res: u8)
        ensures
            res == self.register_b,
    {
        self.register_b
    }
}

/// An instruction of format 11n.
#[derive(Debug, Clone, Copy)]
pub struct ImmutableInstruction11n {
    pub opcode: Opcode,
    pub register_a: u8,
    pub literal: i8,
}

impl Instruction for ImmutableInstruction11n {
    open spec fn spec_opcode(&self) -> Opcode {
        self.opcode
    }

    fn opcode(&self) -> (res: Opcode) {
        self.opcode
    }

    fn clone_boxed(&self) -> (res: AnyInstruction)
        ensures
            res == AnyInstruction::I11n(*self),
    {
        AnyInstruction::I11n(*self)
    }
}

/// An instruction of format 10t.
#[derive(Debug, Clone, Copy)]
pub struct ImmutableInstruction10t {
    pub opcode: Opcode,
    pub code_offset: i16,
}

impl Instruction for ImmutableInstruction10t {
    open spec fn spec_opcode(&self) -> Opcode {
        self.opcode
    }

    fn opcode(&self) -> (res: Opcode) {
        self.opcode
    }

    fn clone_boxed(&self) -> (res: AnyInstruction)
        ensures
            res == AnyInstruction::I10t(*self),
    {
        AnyInstruction::I10t(*self)
    }
}

/// An instruction of format 21c.
#[derive(Debug, Clone)]
pub struct ImmutableInstruction21c {
    pub opcode: Opcode,
    pub register_a: u8,
    pub reference: ReferenceHolder,
}

impl Instruction for ImmutableInstruction21c {
    open spec fn spec_opcode(&self) -> Opcode {
        self.opcode
    }

    fn opcode(&self) -> (res: Opcode) {
        self.opcode
    }

    fn clone_boxed(&self) -> (res: AnyInstruction)
        ensures
            res matches AnyInstruction::I21c(c) && c.opcode == self.opcode && c.register_a == self.register_a && same_item(self.reference, c.reference),
    {
        AnyInstruction::I21c(ImmutableInstruction21c { opcode: self.opcode, register_a: self.register_a, reference: copy_reference(&self.reference) })
    }
}

impl Instruction21c for ImmutableInstruction21c {
    fn register_a(&self) -> (res: u8)
        ensures
            res == self.register_a,
    {
        self.register_a
    }

    fn reference(&self) -> (res: &ReferenceHolder)
        ensures
            *res == self.reference,
    {
        &self.reference
    }
}

/// An instruction of format 31c.
#[derive(Debug, Clone)]
pub struct ImmutableInstruction31c {
    pub opcode: Opcode,
    pub register_a: u8,
    pub reference: ReferenceHolder,
}

impl Instruction for ImmutableInstruction31c {
    open spec fn spec_opcode(&self) -> Opcode {
        self.opcode
    }

    fn opcode(&self) -> (res: Opcode) {
        self.opcode
    }

    fn clone_boxed(&self) -> (res: AnyInstruction)
        ensures
            res matches AnyInstruction::I31c(c) && c.opcode == self.opcode && c.register_a == self.register_a && same_item(self.reference, c.reference),
    {
        AnyInstruction::I31c(ImmutableInstruction31c { opcode: self.opcode, register_a: self.register_a, reference: copy_reference(&self.reference) })
    }
}

impl Instruction31c for ImmutableInstruction31c {
    fn register_a(&self) -> (res: u8)
        ensures
            res == self.register_a,
    {
        self.register_a
    }

    fn reference(&self) -> (res: &ReferenceHolder)
        ensures
            *res == self.reference,
    {
        &self.reference
    }
}

/// An instruction of format 22c.
#[derive(Debug, Clone)]
pub struct ImmutableInstruction22c {
    pub opcode: Opcode,
    pub register_a: u8,
    pub register_b: u8,
    pub reference: ReferenceHolder,
}

impl Instruction for ImmutableInstruction22c {
    open spec fn spec_opcode(&self) -> Opcode {
        self.opcode
    }

    fn opcode(&self) -> (res: Opcode) {
        self.opcode
    }

    fn clone_boxed(&self) -> (res: AnyInstruction)
        ensures
            res matches AnyInstruction::I22c(c) && c.opcode == self.opcode && c.register_a == self.register_a && c.register_b == self.register_b && same_item(self.reference, c.reference),
    {
        AnyInstruction::I22c(ImmutableInstruction22c { opcode: self.opcode, register_a: self.register_a, register_b: self.register_b, reference: copy_reference(&self.reference) })
    }
}

impl Instruction22c for ImmutableInstruction22c {
    fn register_a(&self) -> (res: u8)
        ensures
            res == self.register_a,
    {
        self.register_a
    }

    fn register_b(&self) -> (res: u8)
        ensures
            res == self.register_b,
    {
        self.register_b
    }

    fn reference(&self) -> (res: &ReferenceHolder)
        ensures
            *res == self.reference,
    {
        &self.reference
    }
}

/// An instruction of format 35c.
#[derive(Debug, Clone)]
pub struct ImmutableInstruction35c {
    pub opcode: Opcode,
    pub register_count: u8,
    pub register_c: u16,
    pub register_d: u16,
    pub register_e: u16,
    pub register_f: u16,
    pub register_g: u16,
    pub reference: ReferenceHolder,
}

impl Instruction for ImmutableInstruction35c {
    open spec fn spec_opcode(&self) -> Opcode {
        self.opcode
    }

    fn opcode(&self) -> (res: Opcode) {
        self.opcode
    }

    fn clone_boxed(&self) -> (res: AnyInstruction)
        ensures
            res matches AnyInstruction::I35c(c) && c.opcode == self.opcode && c.register_count == self.register_count && c.register_c == self.register_c && c.register_d == self.register_d && c.register_e == self.register_e && c.register_f == self.register_f && c.register_g == self.register_g && same_item(self.reference, c.reference),
    {
        AnyInstruction::I35c(ImmutableInstruction35c { opcode: self.opcode, register_count: self.register_count, register_c: self.register_c, register_d: self.register_d, register_e: self.register_e, register_f: self.register_f, register_g: self.register_g, reference: copy_reference(&self.reference) })
    }
}

impl Instruction35c for ImmutableInstruction35c {
    fn register_count(&self) -> (res: u8)
        ensures
            res == self.register_count,
    {
        self.register_count
    }

    fn register_c(&self) -> (res: u16)
        ensures
            res == self.register_c,
    {
        self.register_c
    }

    fn register_d(&self) -> (res: u16)
        ensures
            res == self.register_d,
    {
        self.register_d
    }

    fn register_e(&self) -> (res: u16)
        ensures
            res == self.register_e,
    {
        self.register_e
    }

    fn register_f(&self) -> (res: u16)
        ensures
            res == self.register_f,
    {
        self.register_f
    }

    fn register_g(&self) -> (res: u16)
        ensures
            res == self.register_g,
    {
        self.register_g
    }

    fn reference(&self) -> (res: &ReferenceHolder)
        ensures
            *res == self.reference,
    {
        &self.reference
    }
}

/// An instruction of format 3rc.
#[derive(Debug, Clone)]
pub struct ImmutableInstruction3rc {
    pub opcode: Opcode,
    pub start_register: u16,
    pub register_count: u8,
    pub reference: ReferenceHolder,
}

impl Instruction for ImmutableInstruction3rc {
    open spec fn spec_opcode(&self) -> Opcode {
        self.opcode
    }

    fn opcode(&self) -> (res: Opcode) {
        self.opcode
    }

    fn clone_boxed(&self) -> (res: AnyInstruction)
        ensures
            res matches AnyInstruction::I3rc(c) && c.opcode == self.opcode && c.start_register == self.start_register && c.register_count == self.register_count && same_item(self.reference, c.reference),
    {
        AnyInstruction::I3rc(ImmutableInstruction3rc { opcode: self.opcode, start_register: self.start_register, register_count: self.register_count, reference: copy_reference(&self.reference) })
    }
}

impl Instruction3rc for ImmutableInstruction3rc {
    fn start_register(&self) -> (res: u16)
        ensures
            res == self.start_register,
    {
        self.start_register
    }

    fn register_count(&self) -> (res: u8)
        ensures
            res == self.register_count,
    {
        self.register_count
    }

    fn reference(&self) -> (res: &ReferenceHolder)
        ensures
            *res == self.reference,
    {
        &self.reference
    }
}

/// An instruction of format 21s.
#[derive(Debug, Clone, Copy)]
pub struct ImmutableInstruction21s {
    pub opcode: Opcode,
    pub register_a: u8,
    pub literal: i16,
}

impl Instruction for ImmutableInstruction21s {
    open spec fn spec_opcode(&self) -> Opcode {
        self.opcode
    }

    fn opcode(&self) -> (res: Opcode) {
        self.opcode
    }

    fn clone_boxed(&self) -> (res: AnyInstruction)
        ensures
            res == AnyInstruction::I21s(*self),
    {
        AnyInstruction::I21s(*self)
    }
}

impl Instruction21s for ImmutableInstruction21s {
    fn register_a(&self) -> (res: u8)
        ensures
            res == self.register_a,
    {
        self.register_a
    }

    fn literal(&self) -> (res: i16)
        ensures
            res == self.literal,
    {
        self.literal
    }
}

/// An instruction of format 31i.
#[derive(Debug, Clone, Copy)]
pub struct ImmutableInstruction31i {
    pub opcode: Opcode,
    pub register_a: u8,
    pub literal: i32,
}

impl Instruction for ImmutableInstruction31i {
    open spec fn spec_opcode(&self) -> Opcode {
        self.opcode
    }

    fn opcode(&self) -> (res: Opcode) {
        self.opcode
    }

    fn clone_boxed(&self) -> (res: AnyInstruction)
        ensures
            res == AnyInstruction::I31i(*self),
    {
        AnyInstruction::I31i(*self)
    }
}

impl Instruction31i for ImmutableInstruction31i {
    fn register_a(&self) -> (res: u8)
        ensures
            res == self.register_a,
    {
        self.register_a
    }

    fn literal(&self) -> (res: i32)
        ensures
            res == self.literal,
    {
        self.literal
    }
}

/// An instruction of format 51l.
#[derive(Debug, Clone, Copy)]
pub struct ImmutableInstruction51l {
    pub opcode: Opcode,
    pub register_a: u8,
    pub literal: i64,
}

impl Instruction for ImmutableInstruction51l {
    open spec fn spec_opcode(&self) -> Opcode {
        self.opcode
    }

    fn opcode(&self) -> (res: Opcode) {
        self.opcode
    }

    fn clone_boxed(&self) -> (res: AnyInstruction)
        ensures
            res == AnyInstruction::I51l(*self),
    {
        AnyInstruction::I51l(*self)
    }
}

impl Instruction51l for ImmutableInstruction51l {
    fn register_a(&self) -> (res: u8)
        ensures
            res == self.register_a,
    {
        self.register_a
    }

    fn literal(&self) -> (res: i64)
        ensures
            res == self.literal,
    {
        self.literal
    }
}

/// An instruction of format 21t.
#[derive(Debug, Clone, Copy)]
pub struct ImmutableInstruction21t {
    pub opcode: Opcode,
    pub register_a: u8,
    pub code_offset: i16,
}

impl Instruction for ImmutableInstruction21t {
    open spec fn spec_opcode(&self) -> Opcode {
        self.opcode
    }

    fn opcode(&self) -> (res: Opcode) {
        self.opcode
    }

    fn clone_boxed(&self) -> (res: AnyInstruction)
        ensures
            res == AnyInstruction::I21t(*self),
    {
        AnyInstruction::I21t(*self)
    }
}

impl Instruction21t for ImmutableInstruction21t {
    fn register_a(&self) -> (res: u8)
        ensures
            res == self.register_a,
    {
        self.register_a
    }

    fn code_offset(&self) -> (res: i16)
        ensures
            res == self.code_offset,
    {
        self.code_offset
    }
}

/// An instruction of format 22t.
#[derive(Debug, Clone, Copy)]
pub struct ImmutableInstruction22t {
    pub opcode: Opcode,
    pub register_a: u8,
    pub register_b: u8,
    pub code_offset: i16,
}

impl Instruction for ImmutableInstruction22t {
    open spec fn spec_opcode(&self) -> Opcode {
        self.opcode
    }

    fn opcode(&self) -> (res: Opcode) {
        self.opcode
    }

    fn clone_boxed(&self) -> (res: AnyInstruction)
        ensures
            res == AnyInstruction::I22t(*self),
    {
        AnyInstruction::I22t(*self)
    }
}

impl Instruction22t for ImmutableInstruction22t {
    fn register_a(&self) -> (res: u8)
        ensures
            res == self.register_a,
    {
        self.register_a
    }

    fn register_b(&self) -> (res: u8)
        ensures
            res == self.register_b,
    {
        self.register_b
    }

    fn code_offset(&self) -> (res: i16)
        ensures
            res == self.code_offset,
    {
        self.code_offset
    }
}

/// An instruction of format 22b.
#[derive(Debug, Clone, Copy)]
pub struct ImmutableInstruction22b {
    pub opcode: Opcode,
    pub register_a: u8,
    pub register_b: u8,
    pub literal: i8,
}

impl Instruction for ImmutableInstruction22b {
    open spec fn spec_opcode(&self) -> Opcode {
        self.opcode
    }

    fn opcode(&self) -> (res: Opcode) {
        self.opcode
    }

    fn clone_boxed(&self) -> (res: AnyInstruction)
        ensures
            res == AnyInstruction::I22b(*self),
    {
        AnyInstruction::I22b(*self)
    }
}

impl Instruction22b for ImmutableInstruction22b {
    fn register_a(&self) -> (res: u8)
        ensures
            res == self.register_a,
    {
        self.register_a
    }

    fn register_b(&self) -> (res: u8)
        ensures
            res == self.register_b,
    {
        self.register_b
    }

    fn literal(&self) -> (res: i8)
        ensures
            res == self.literal,
    {
        self.literal
    }
}

/// An instruction of format 22s.
#[derive(Debug, Clone, Copy)]
pub struct ImmutableInstruction22s {
    pub opcode: Opcode,
    pub register_a: u8,
    pub register_b: u8,
    pub literal: i16,
}

impl Instruction for ImmutableInstruction22s {
    open spec fn spec_opcode(&self) -> Opcode {
        self.opcode
    }

    fn opcode(&self) -> (res: Opcode) {
        self.opcode
    }

    fn clone_boxed(&self) -> (res: AnyInstruction)
        ensures
            res == AnyInstruction::I22s(*self),
    {
        AnyInstruction::I22s(*self)
    }
}

impl Instruction22s for ImmutableInstruction22s {
    fn register_a(&self) -> (res: u8)
        ensures
            res == self.register_a,
    {
        self.register_a
    }

    fn register_b(&self) -> (res: u8)
        ensures
            res == self.register_b,
    {
        self.register_b
    }

    fn literal(&self) -> (res: i16)
        ensures
            res == self.literal,
    {
        self.literal
    }
}

/// An instruction of format 23x.
#[derive(Debug, Clone, Copy)]
pub struct ImmutableInstruction23x {
    pub opcode: Opcode,
    pub register_a: u8,
    pub register_b: u8,
    pub register_c: u8,
}

impl Instruction for ImmutableInstruction23x {
    open spec fn spec_opcode(&self) -> Opcode {
        self.opcode
    }

    fn opcode(&self) -> (res: Opcode) {
        self.opcode
    }

    fn clone_boxed(&self) -> (res: AnyInstruction)
        ensures
            res == AnyInstruction::I23x(*self),
    {
        AnyInstruction::I23x(*self)
    }
}

impl ThreeRegisterInstruction for ImmutableInstruction23x {
    fn register_a(&self) -> (res: u8)
        ensures
            res == self.register_a,
    {
        self.register_a
    }

    fn register_b(&self) -> (res: u8)
        ensures
            res == self.register_b,
    {
        self.register_b
    }

    fn register_c(&self) -> (res: u8)
        ensures
            res == self.register_c,
    {
        self.register_c
    }
}

/// An instruction of format 20t.
#[derive(Debug, Clone, Copy)]
pub struct ImmutableInstruction20t {
    pub opcode: Opcode,
    pub code_offset: i32,
}

impl Instruction for ImmutableInstruction20t {
    open spec fn spec_opcode(&self) -> Opcode {
        self.opcode
    }

    fn opcode(&self) -> (res: Opcode) {
        self.opcode
    }

    fn clone_boxed(&self) -> (res: AnyInstruction)
        ensures
            res == AnyInstruction::I20t(*self),
    {
        AnyInstruction::I20t(*self)
    }
}

impl Instruction20t for ImmutableInstruction20t {
    fn code_offset(&self) -> (res: i32)
        ensures
            res == self.code_offset,
    {
        self.code_offset
    }
}

/// An instruction of format 30t.
#[derive(Debug, Clone, Copy)]
pub struct ImmutableInstruction30t {
    pub opcode: Opcode,
    pub code_offset: i32,
}

impl Instruction for ImmutableInstruction30t {
    open spec fn spec_opcode(&self) -> Opcode {
        self.opcode
    }

    fn opcode(&self) -> (res: Opcode) {
        self.opcode
    }

    fn clone_boxed(&self) -> (res: AnyInstruction)
        ensures
            res == AnyInstruction::I30t(*self),
    {
        AnyInstruction::I30t(*self)
    }
}

impl Instruction30t for ImmutableInstruction30t {
    fn code_offset(&self) -> (res: i32)
        ensures
            res == self.code_offset,
    {
        self.code_offset
    }
}

/// An instruction of format 31t.
#[derive(Debug, Clone, Copy)]
pub struct ImmutableInstruction31t {
    pub opcode: Opcode,
    pub register_a: u8,
    pub code_offset: i32,
}

impl Instruction for ImmutableInstruction31t {
    open spec fn spec_opcode(&self) -> Opcode {
        self.opcode
    }

    fn opcode(&self) -> (res: Opcode) {
        self.opcode
    }

    fn clone_boxed(&self) -> (res: AnyInstruction)
        ensures
            res == AnyInstruction::I31t(*self),
    {
        AnyInstruction::I31t(*self)
    }
}

impl Instruction31t for ImmutableInstruction31t {
    fn register_a(&self) -> (res: u8)
        ensures
            res == self.register_a,
    {
        self.register_a
    }

    fn code_offset(&self) -> (res: i32)
        ensures
            res == self.code_offset,
    {
        self.code_offset
    }
}

/// An instruction of format 22x.
#[derive(Debug, Clone, Copy)]
pub struct ImmutableInstruction22x {
    pub opcode: Opcode,
    pub register_a: u8,
    pub register_b: u16,
}

impl Instruction for ImmutableInstruction22x {
    open spec fn spec_opcode(&self) -> Opcode {
        self.opcode
    }

    fn opcode(&self) -> (res: Opcode) {
        self.opcode
    }

    fn clone_boxed(&self) -> (res: AnyInstruction)
        ensures
            res == AnyInstruction::I22x(*self),
    {
        AnyInstruction::I22x(*self)
    }
}

/// An instruction of format 32x.
#[derive(Debug, Clone, Copy)]
pub struct ImmutableInstruction32x {
    pub opcode: Opcode,
    pub register_a: u16,
    pub register_b: u16,
}

impl Instruction for ImmutableInstruction32x {
    open spec fn spec_opcode(&self) -> Opcode {
        self.opcode
    }

    fn opcode(&self) -> (res: Opcode) {
        self.opcode
    }

    fn clone_boxed(&self) -> (res: AnyInstruction)
        ensures
            res == AnyInstruction::I32x(*self),
    {
        AnyInstruction::I32x(*self)
    }
}

/// A switch or array payload, kept as its raw code units.
#[derive(Debug, Clone)]
pub struct ImmutablePayloadInstruction {
    pub opcode: Opcode,
    pub raw_data: Vec<u16>,
}

impl ImmutablePayloadInstruction {
    /// The format of the payload, from its first code unit.
    pub open spec fn spec_format(&self) -> InstructionFormat {
        if self.raw_data@.len() > 0 && self.raw_data@[0] == 0x0100 {
            InstructionFormat::PackedSwitchPayload
        } else if self.raw_data@.len() > 0 && self.raw_data@[0] == 0x0200 {
            InstructionFormat::SparseSwitchPayload
        } else if self.raw_data@.len() > 0 && self.raw_data@[0] == 0x0300 {
            InstructionFormat::ArrayPayload
        } else {
            opcode_format(self.opcode)
        }
    }
}

impl Instruction for ImmutablePayloadInstruction {
    open spec fn spec_opcode(&self) -> Opcode {
        self.opcode
    }

    fn opcode(&self) -> (res: Opcode) {
        self.opcode
    }

    fn clone_boxed(&self) -> (res: AnyInstruction)
        ensures
            res matches AnyInstruction::Payload(c) && c.opcode == self.opcode && c.raw_data@ == self.raw_data@,
    {
        let raw_data = self.raw_data.clone();
        assert(raw_data@ =~= self.raw_data@);
        AnyInstruction::Payload(ImmutablePayloadInstruction { opcode: self.opcode, raw_data })
    }

    fn format(&self) -> (res: InstructionFormat)
        ensures
            res == self.spec_format(),
    {
        if self.raw_data.len() > 0 && self.raw_data[0] == 0x0100 {
            InstructionFormat::PackedSwitchPayload
        } else if self.raw_data.len() > 0 && self.raw_data[0] == 0x0200 {
            InstructionFormat::SparseSwitchPayload
        } else if self.raw_data.len() > 0 && self.raw_data[0] == 0x0300 {
            InstructionFormat::ArrayPayload
        } else {
            self.opcode.format()
        }
    }
}

} // verus!
