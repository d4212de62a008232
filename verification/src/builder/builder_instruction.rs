use vstd::prelude::*;
use crate::base::opcode::Opcode;
use crate::iface::instruction::{AnyInstruction, Instruction};
use crate::immutable::immutable_reference::{copy_held_reference, same_held, ImmutableReferenceHolder};

verus! {

/// An instruction of format 10x.
#[derive(Debug, Clone, Copy)]
pub struct BuilderInstruction10x {
    pub opcode: Opcode,
}

impl Instruction for BuilderInstruction10x {
    open spec fn spec_opcode(&self) -> Opcode {
        self.opcode
    }

    fn opcode(&self) -> (res: Opcode) {
        self.opcode
    }

    fn clone_boxed(&self) -> (res: AnyInstruction)
        ensures
            res == AnyInstruction::B10x(*self),
    {
        AnyInstruction::B10x(*self)
    }
}

/// An instruction of format 11x.
#[derive(Debug, Clone, Copy)]
pub struct BuilderInstruction11x {
    pub opcode: Opcode,
    pub register_a: u16,
}

impl Instruction for BuilderInstruction11x {
    open spec fn spec_opcode(&self) -> Opcode {
        self.opcode
    }

    fn opcode(&self) -> (res: Opcode) {
        self.opcode
    }

    fn clone_boxed(&self) -> (res: AnyInstruction)
        ensures
            res == AnyInstruction::B11x(*self),
    {
        AnyInstruction::B11x(*self)
    }
}

/// An instruction of format 12x.
#[derive(Debug, Clone, Copy)]
pub struct BuilderInstruction12x {
    pub opcode: Opcode,
    pub register_a: u8,
    pub register_b: u8,
}

impl Instruction for BuilderInstruction12x {
    open spec fn spec_opcode(&self) -> Opcode {
        self.opcode
    }

    fn opcode(&self) -> (res: Opcode) {
        self.opcode
    }

    fn clone_boxed(&self) -> (res: AnyInstruction)
        ensures
            res == AnyInstruction::B12x(*self),
    {
        AnyInstruction::B12x(*self)
    }
}

/// An instruction of format 11n.
#[derive(Debug, Clone, Copy)]
pub struct BuilderInstruction11n {
    pub opcode: Opcode,
    pub register_a: u8,
    pub literal: i8,
}

impl Instruction for BuilderInstruction11n {
    open spec fn spec_opcode(&self) -> Opcode {
        self.opcode
    }

    fn opcode(&self) -> (res: Opcode) {
        self.opcode
    }

    fn clone_boxed(&self) -> (res: AnyInstruction)
        ensures
            res == AnyInstruction::B11n(*self),
    {
        AnyInstruction::B11n(*self)
    }
}

/// An instruction of format 10t.
#[derive(Debug, Clone, Copy)]
pub struct BuilderInstruction10t {
    pub opcode: Opcode,
    pub code_offset: i16,
}

impl Instruction for BuilderInstruction10t {
    open spec fn spec_opcode(&self) -> Opcode {
        self.opcode
    }

    fn opcode(&self) -> (res: Opcode) {
        self.opcode
    }

    fn clone_boxed(&self) -> (res: AnyInstruction)
        ensures
            res == AnyInstruction::B10t(*self),
    {
        AnyInstruction::B10t(*self)
    }
}

/// An instruction of format 20t.
#[derive(Debug, Clone, Copy)]
pub struct BuilderInstruction20t {
    pub opcode: Opcode,
    pub code_offset: i32,
}

impl Instruction for BuilderInstruction20t {
    open spec fn spec_opcode(&self) -> Opcode {
        self.opcode
    }

    fn opcode(&self) -> (res: Opcode) {
        self.opcode
    }

    fn clone_boxed(&self) -> (res: AnyInstruction)
        ensures
            res == AnyInstruction::B20t(*self),
    {
        AnyInstruction::B20t(*self)
    }
}

/// An instruction of format 30t.
#[derive(Debug, Clone, Copy)]
pub struct BuilderInstruction30t {
    pub opcode: Opcode,
    pub code_offset: i32,
}

impl Instruction for BuilderInstruction30t {
    open spec fn spec_opcode(&self) -> Opcode {
        self.opcode
    }

    fn opcode(&self) -> (res: Opcode) {
        self.opcode
    }

    fn clone_boxed(&self) -> (res: AnyInstruction)
        ensures
            res == AnyInstruction::B30t(*self),
    {
        AnyInstruction::B30t(*self)
    }
}

/// An instruction of format 21c.
#[derive(Debug, Clone)]
pub struct BuilderInstruction21c {
    pub opcode: Opcode,
    pub register_a: u8,
    pub reference: ImmutableReferenceHolder,
}

impl Instruction for BuilderInstruction21c {
    open spec fn spec_opcode(&self) -> Opcode {
        self.opcode
    }

    fn opcode(&self) -> (res: Opcode) {
        self.opcode
    }

    fn clone_boxed(&self) -> (res: AnyInstruction)
        ensures
            res matches AnyInstruction::B21c(c) && c.opcode == self.opcode && c.register_a == self.register_a && same_held(self.reference, c.reference),
    {
        AnyInstruction::B21c(BuilderInstruction21c { opcode: self.opcode, register_a: self.register_a, reference: copy_held_reference(&self.reference) })
    }
}

/// An instruction of format 31c.
#[derive(Debug, Clone)]
pub struct BuilderInstruction31c {
    pub opcode: Opcode,
    pub register_a: u8,
    pub reference: ImmutableReferenceHolder,
}

impl Instruction for BuilderInstruction31c {
    open spec fn spec_opcode(&self) -> Opcode {
        self.opcode
    }

    fn opcode(&self) -> (res: Opcode) {
        self.opcode
    }

    fn clone_boxed(&self) -> (res: AnyInstruction)
        ensures
            res matches AnyInstruction::B31c(c) && c.opcode == self.opcode && c.register_a == self.register_a && same_held(self.reference, c.reference),
    {
        AnyInstruction::B31c(BuilderInstruction31c { opcode: self.opcode, register_a: self.register_a, reference: copy_held_reference(&self.reference) })
    }
}

/// An instruction of format 22c.
#[derive(Debug, Clone)]
pub struct BuilderInstruction22c {
    pub opcode: Opcode,
    pub register_a: u8,
    pub register_b: u8,
    pub reference: ImmutableReferenceHolder,
}

impl Instruction for BuilderInstruction22c {
    open spec fn spec_opcode(&self) -> Opcode {
        self.opcode
    }

    fn opcode(&self) -> (res: Opcode) {
        self.opcode
    }

    fn clone_boxed(&self) -> (res: AnyInstruction)
        ensures
            res matches AnyInstruction::B22c(c) && c.opcode == self.opcode && c.register_a == self.register_a && c.register_b == self.register_b && same_held(self.reference, c.reference),
    {
        AnyInstruction::B22c(BuilderInstruction22c { opcode: self.opcode, register_a: self.register_a, register_b: self.register_b, reference: copy_held_reference(&self.reference) })
    }
}

/// An instruction of format 35c.
#[derive(Debug, Clone)]
pub struct BuilderInstruction35c {
    pub opcode: Opcode,
    pub register_count: u8,
    pub register_c: u16,
    pub register_d: u16,
    pub register_e: u16,
    pub register_f: u16,
    pub register_g: u16,
    pub reference: ImmutableReferenceHolder,
}

impl Instruction for BuilderInstruction35c {
    open spec fn spec_opcode(&self) -> Opcode {
        self.opcode
    }

    fn opcode(&self) -> (res: Opcode) {
        self.opcode
    }

    fn clone_boxed(&self) -> (res: AnyInstruction)
        ensures
            res matches AnyInstruction::B35c(c) && c.opcode == self.opcode && c.register_count == self.register_count && c.register_c == self.register_c && c.register_d == self.register_d && c.register_e == self.register_e && c.register_f == self.register_f && c.register_g == self.register_g && same_held(self.reference, c.reference),
    {
        AnyInstruction::B35c(BuilderInstruction35c { opcode: self.opcode, register_count: self.register_count, register_c: self.register_c, register_d: self.register_d, register_e: self.register_e, register_f: self.register_f, register_g: self.register_g, reference: copy_held_reference(&self.reference) })
    }
}

/// An instruction of format 3rc.
#[derive(Debug, Clone)]
pub struct BuilderInstruction3rc {
    pub opcode: Opcode,
    pub start_register: u16,
    pub register_count: u8,
    pub reference: ImmutableReferenceHolder,
}

impl Instruction for BuilderInstruction3rc {
    open spec fn spec_opcode(&self) -> Opcode {
        self.opcode
    }

    fn opcode(&self) -> (res: Opcode) {
        self.opcode
    }

    fn clone_boxed(&self) -> (res: AnyInstruction)
        ensures
            res matches AnyInstruction::B3rc(c) && c.opcode == self.opcode && c.start_register == self.start_register && c.register_count == self.register_count && same_held(self.reference, c.reference),
    {
        AnyInstruction::B3rc(BuilderInstruction3rc { opcode: self.opcode, start_register: self.start_register, register_count: self.register_count, reference: copy_held_reference(&self.reference) })
    }
}

/// An instruction of format 21s.
#[derive(Debug, Clone, Copy)]
pub struct BuilderInstruction21s {
    pub opcode: Opcode,
    pub register_a: u8,
    pub literal: i16,
}

impl Instruction for BuilderInstruction21s {
    open spec fn spec_opcode(&self) -> Opcode {
        self.opcode
    }

    fn opcode(&self) -> (res: Opcode) {
        self.opcode
    }

    fn clone_boxed(&self) -> (res: AnyInstruction)
        ensures
            res == AnyInstruction::B21s(*self),
    {
        AnyInstruction::B21s(*self)
    }
}

/// An instruction of format 31i.
#[derive(Debug, Clone, Copy)]
pub struct BuilderInstruction31i {
    pub opcode: Opcode,
    pub register_a: u8,
    pub literal: i32,
}

impl Instruction for BuilderInstruction31i {
    open spec fn spec_opcode(&self) -> Opcode {
        self.opcode
    }

    fn opcode(&self) -> (res: Opcode) {
        self.opcode
    }

    fn clone_boxed(&self) -> (res: AnyInstruction)
        ensures
            res == AnyInstruction::B31i(*self),
    {
        AnyInstruction::B31i(*self)
    }
}

/// An instruction of format 51l.
#[derive(Debug, Clone, Copy)]
pub struct BuilderInstruction51l {
    pub opcode: Opcode,
    pub register_a: u8,
    pub literal: i64,
}

impl Instruction for BuilderInstruction51l {
    open spec fn spec_opcode(&self) -> Opcode {
        self.opcode
    }

    fn opcode(&self) -> (res: Opcode) {
        self.opcode
    }

    fn clone_boxed(&self) -> (res: AnyInstruction)
        ensures
            res == AnyInstruction::B51l(*self),
    {
        AnyInstruction::B51l(*self)
    }
}

/// An instruction of format 21t.
#[derive(Debug, Clone, Copy)]
pub struct BuilderInstruction21t {
    pub opcode: Opcode,
    pub register_a: u8,
    pub code_offset: i16,
}

impl Instruction for BuilderInstruction21t {
    open spec fn spec_opcode(&self) -> Opcode {
        self.opcode
    }

    fn opcode(&self) -> (res: Opcode) {
        self.opcode
    }

    fn clone_boxed(&self) -> (res: AnyInstruction)
        ensures
            res == AnyInstruction::B21t(*self),
    {
        AnyInstruction::B21t(*self)
    }
}

/// An instruction of format 22t.
#[derive(Debug, Clone, Copy)]
pub struct BuilderInstruction22t {
    pub opcode: Opcode,
    pub register_a: u8,
    pub register_b: u8,
    pub code_offset: i16,
}

impl Instruction for BuilderInstruction22t {
    open spec fn spec_opcode(&self) -> Opcode {
        self.opcode
    }

    fn opcode(&self) -> (res: Opcode) {
        self.opcode
    }

    fn clone_boxed(&self) -> (res: AnyInstruction)
        ensures
            res == AnyInstruction::B22t(*self),
    {
        AnyInstruction::B22t(*self)
    }
}

/// An instruction of format 22b.
#[derive(Debug, Clone, Copy)]
pub struct BuilderInstruction22b {
    pub opcode: Opcode,
    pub register_a: u8,
    pub register_b: u8,
    pub literal: i8,
}

impl Instruction for BuilderInstruction22b {
    open spec fn spec_opcode(&self) -> Opcode {
        self.opcode
    }

    fn opcode(&self) -> (res: Opcode) {
        self.opcode
    }

    fn clone_boxed(&self) -> (res: AnyInstruction)
        ensures
            res == AnyInstruction::B22b(*self),
    {
        AnyInstruction::B22b(*self)
    }
}

/// An instruction of format 22s.
#[derive(Debug, Clone, Copy)]
pub struct BuilderInstruction22s {
    pub opcode: Opcode,
    pub register_a: u8,
    pub register_b: u8,
    pub literal: i16,
}

impl Instruction for BuilderInstruction22s {
    open spec fn spec_opcode(&self) -> Opcode {
        self.opcode
    }

    fn opcode(&self) -> (res: Opcode) {
        self.opcode
    }

    fn clone_boxed(&self) -> (res: AnyInstruction)
        ensures
            res == AnyInstruction::B22s(*self),
    {
        AnyInstruction::B22s(*self)
    }
}

/// An instruction of format 23x.
#[derive(Debug, Clone, Copy)]
pub struct BuilderInstruction23x {
    pub opcode: Opcode,
    pub register_a: u8,
    pub register_b: u8,
    pub register_c: u8,
}

impl Instruction for BuilderInstruction23x {
    open spec fn spec_opcode(&self) -> Opcode {
        self.opcode
    }

    fn opcode(&self) -> (res: Opcode) {
        self.opcode
    }

    fn clone_boxed(&self) -> (res: AnyInstruction)
        ensures
            res == AnyInstruction::B23x(*self),
    {
        AnyInstruction::B23x(*self)
    }
}

/// An instruction of format 31t.
#[derive(Debug, Clone, Copy)]
pub struct BuilderInstruction31t {
    pub opcode: Opcode,
    pub register_a: u8,
    pub code_offset: i32,
}

impl Instruction for BuilderInstruction31t {
    open spec fn spec_opcode(&self) -> Opcode {
        self.opcode
    }

    fn opcode(&self) -> (res: Opcode) {
        self.opcode
    }

    fn clone_boxed(&self) -> (res: AnyInstruction)
        ensures
            res == AnyInstruction::B31t(*self),
    {
        AnyInstruction::B31t(*self)
    }
}

/// An instruction as the builder holds it.
pub type BuilderInstruction = AnyInstruction;

/// A `nop`.
pub fn make_nop() -> (res: BuilderInstruction)
    ensures
        res == AnyInstruction::B10x(BuilderInstruction10x { opcode: Opcode::Nop }),
{
    AnyInstruction::B10x(BuilderInstruction10x { opcode: Opcode::Nop })
}

/// A `return-void`.
pub fn make_return_void() -> (res: BuilderInstruction)
    ensures
        res == AnyInstruction::B10x(BuilderInstruction10x { opcode: Opcode::ReturnVoid }),
{
    AnyInstruction::B10x(BuilderInstruction10x { opcode: Opcode::ReturnVoid })
}

/// A `const-string` into `register`.
pub fn make_const_string(register: u8, reference: ImmutableReferenceHolder) -> (res:
    BuilderInstruction)
    ensures
        res == AnyInstruction::B21c(
            BuilderInstruction21c { opcode: Opcode::ConstString, register_a: register, reference },
        ),
{
    AnyInstruction::B21c(
        BuilderInstruction21c { opcode: Opcode::ConstString, register_a: register, reference },
    )
}

/// An `invoke-static` with `register_count` of the five `registers`.
pub fn make_invoke_static(
    register_count: u8,
    registers: [u16; 5],
    reference: ImmutableReferenceHolder,
) -> (res: BuilderInstruction)
    ensures
        res == AnyInstruction::B35c(
            BuilderInstruction35c {
                opcode: Opcode::InvokeStatic,
                register_count,
                register_c: registers@[0],
                register_d: registers@[1],
                register_e: registers@[2],
                register_f: registers@[3],
                register_g: registers@[4],
                reference,
            },
        ),
{
    AnyInstruction::B35c(
        BuilderInstruction35c {
            opcode: Opcode::InvokeStatic,
            register_count,
            register_c: registers[0],
            register_d: registers[1],
            register_e: registers[2],
            register_f: registers[3],
            register_g: registers[4],
            reference,
        },
    )
}

/// A `move-result` into `register`.
pub fn make_move_result(register: u8) -> (res: BuilderInstruction)
    ensures
        res == AnyInstruction::B11x(
            BuilderInstruction11x { opcode: Opcode::MoveResult, register_a: register as u16 },
        ),
{
    AnyInstruction::B11x(
        BuilderInstruction11x { opcode: Opcode::MoveResult, register_a: register as u16 },
    )
}

/// A `goto` by `offset` code units.
pub fn make_goto(offset: i16) -> (res: BuilderInstruction)
    ensures
        res == AnyInstruction::B10t(BuilderInstruction10t { opcode: Opcode::Goto, code_offset: offset }),
{
    AnyInstruction::B10t(BuilderInstruction10t { opcode: Opcode::Goto, code_offset: offset })
}

} // verus!
