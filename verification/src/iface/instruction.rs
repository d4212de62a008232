use vstd::prelude::*;
use crate::base::opcode::{format_code_units, opcode_format, InstructionFormat, Opcode};
use crate::builder::builder_instruction::{BuilderInstruction10t, BuilderInstruction10x, BuilderInstruction11n, BuilderInstruction11x, BuilderInstruction12x, BuilderInstruction20t, BuilderInstruction21c, BuilderInstruction21s, BuilderInstruction21t, BuilderInstruction22b, BuilderInstruction22c, BuilderInstruction22s, BuilderInstruction22t, BuilderInstruction23x, BuilderInstruction30t, BuilderInstruction31c, BuilderInstruction31i, BuilderInstruction31t, BuilderInstruction35c, BuilderInstruction3rc, BuilderInstruction51l};
use crate::dexbacked::dex_backed_instruction::DexBackedInstruction;
use crate::iface::reference::ReferenceHolder;
use crate::immutable::immutable_instruction::{ImmutableInstruction10t, ImmutableInstruction10x, ImmutableInstruction11n, ImmutableInstruction11x, ImmutableInstruction12x, ImmutableInstruction20t, ImmutableInstruction21c, ImmutableInstruction21s, ImmutableInstruction21t, ImmutableInstruction22b, ImmutableInstruction22c, ImmutableInstruction22s, ImmutableInstruction22t, ImmutableInstruction22x, ImmutableInstruction23x, ImmutableInstruction30t, ImmutableInstruction31c, ImmutableInstruction31i, ImmutableInstruction31t, ImmutableInstruction32x, ImmutableInstruction35c, ImmutableInstruction3rc, ImmutableInstruction51l, ImmutablePayloadInstruction};
use crate::immutable::immutable_reference::{same_held, same_item};

verus! {

/// The number of code units of an instruction with opcode `op`.
pub open spec fn opcode_code_units(op: Opcode) -> u32 {
    format_code_units(opcode_format(op))
}

/// What every instruction offers: its opcode, a copy of it, its size and its format.
pub trait Instruction {
    spec fn spec_opcode(&self) -> Opcode;

    fn opcode(&self) -> (res: Opcode)
        ensures
            res == self.spec_opcode(),
    ;

    fn clone_boxed(&self) -> (res: AnyInstruction);

    /// The number of 16-bit code units the instruction takes.
    fn code_units(&self) -> (res: u32)
        default_ensures
            res == opcode_code_units(self.spec_opcode()),
    {
        self.opcode().code_units()
    }

    /// The layout of the instruction's code units.
    fn format(&self) -> (res: InstructionFormat)
        default_ensures
            res == opcode_format(self.spec_opcode()),
    {
        self.opcode().format()
    }
}

pub trait OneRegisterInstruction: Instruction {
    fn register_a(&self) -> u16;
}

pub trait TwoRegisterInstruction: Instruction {
    fn register_a(&self) -> u8;

    fn register_b(&self) -> u8;
}

pub trait ThreeRegisterInstruction: Instruction {
    fn register_a(&self) -> u8;

    fn register_b(&self) -> u8;

    fn register_c(&self) -> u8;
}

pub trait RegisterRangeInstruction: Instruction {
    fn start_register(&self) -> u16;

    fn register_count(&self) -> u16;
}

pub trait Instruction10t: Instruction {
    fn code_offset(&self) -> i16;
}

pub trait Instruction20t: Instruction {
    fn code_offset(&self) -> i32;
}

pub trait Instruction30t: Instruction {
    fn code_offset(&self) -> i32;
}

pub trait Instruction21t: Instruction {
    fn register_a(&self) -> u8;

    fn code_offset(&self) -> i16;
}

pub trait Instruction22t: Instruction {
    fn register_a(&self) -> u8;

    fn register_b(&self) -> u8;

    fn code_offset(&self) -> i16;
}

pub trait Instruction21c: Instruction {
    fn register_a(&self) -> u8;

    fn reference(&self) -> &ReferenceHolder;
}

pub trait Instruction31c: Instruction {
    fn register_a(&self) -> u8;

    fn reference(&self) -> &ReferenceHolder;
}

pub trait Instruction22c: Instruction {
    fn register_a(&self) -> u8;

    fn register_b(&self) -> u8;

    fn reference(&self) -> &ReferenceHolder;
}

pub trait Instruction22cs: Instruction {
    fn register_a(&self) -> u8;

    fn register_b(&self) -> u8;

    fn field_offset(&self) -> u16;
}

pub trait Instruction35c: Instruction {
    fn register_count(&self) -> u8;

    fn register_c(&self) -> u16;

    fn register_d(&self) -> u16;

    fn register_e(&self) -> u16;

    fn register_f(&self) -> u16;

    fn register_g(&self) -> u16;

    fn reference(&self) -> &ReferenceHolder;
}

pub trait Instruction3rc: Instruction {
    fn start_register(&self) -> u16;

    fn register_count(&self) -> u8;

    fn reference(&self) -> &ReferenceHolder;
}

pub trait Instruction35ms: Instruction {
    fn register_count(&self) -> u8;

    fn register_c(&self) -> u16;

    fn register_d(&self) -> u16;

    fn register_e(&self) -> u16;

    fn register_f(&self) -> u16;

    fn register_g(&self) -> u16;

    fn vtable_index(&self) -> u16;
}

pub trait Instruction3rms: Instruction {
    fn start_register(&self) -> u16;

    fn register_count(&self) -> u8;

    fn vtable_index(&self) -> u16;
}

pub trait Instruction35mi: Instruction {
    fn register_count(&self) -> u8;

    fn register_c(&self) -> u16;

    fn register_d(&self) -> u16;

    fn register_e(&self) -> u16;

    fn register_f(&self) -> u16;

    fn register_g(&self) -> u16;

    fn inline_index(&self) -> u16;
}

pub trait Instruction3rmi: Instruction {
    fn start_register(&self) -> u16;

    fn register_count(&self) -> u8;

    fn inline_index(&self) -> u16;
}

pub trait Instruction45cc: Instruction {
    fn register_count(&self) -> u8;

    fn register_c(&self) -> u16;

    fn register_d(&self) -> u16;

    fn register_e(&self) -> u16;

    fn register_f(&self) -> u16;

    fn register_g(&self) -> u16;

    fn reference(&self) -> &ReferenceHolder;

    fn reference2(&self) -> &ReferenceHolder;
}

pub trait Instruction4rcc: Instruction {
    fn start_register(&self) -> u16;

    fn register_count(&self) -> u8;

    fn reference(&self) -> &ReferenceHolder;

    fn reference2(&self) -> &ReferenceHolder;
}

pub trait Instruction21s: Instruction {
    fn register_a(&self) -> u8;

    fn literal(&self) -> i16;
}

pub trait Instruction31i: Instruction {
    fn register_a(&self) -> u8;

    fn literal(&self) -> i32;
}

pub trait Instruction51l: Instruction {
    fn register_a(&self) -> u8;

    fn literal(&self) -> i64;
}

pub trait Instruction22s: Instruction {
    fn register_a(&self) -> u8;

    fn register_b(&self) -> u8;

    fn literal(&self) -> i16;
}

pub trait Instruction22b: Instruction {
    fn register_a(&self) -> u8;

    fn register_b(&self) -> u8;

    fn literal(&self) -> i8;
}

pub trait Instruction11n: Instruction {
    fn register_a(&self) -> u8;

    fn literal(&self) -> i8;
}

pub trait Instruction31t: Instruction {
    fn register_a(&self) -> u8;

    fn code_offset(&self) -> i32;
}

pub trait Instruction20bc: Instruction {
    fn verification_error(&self) -> u16;
}

pub trait PackedSwitchPayload: Instruction {
    fn switch_count(&self) -> u16;

    fn first_key(&self) -> i32;

    fn targets(&self) -> &[i32];
}

pub trait SparseSwitchPayload: Instruction {
    fn switch_count(&self) -> u16;

    fn keys(&self) -> &[i32];

    fn targets(&self) -> &[i32];
}

pub trait ArrayPayload: Instruction {
    fn element_width(&self) -> u16;

    fn array_length(&self) -> u32;

    fn data(&self) -> &[u8];
}

/// An instruction of any of the library's instruction types.
#[derive(Debug, Clone)]
pub enum AnyInstruction {
    DexBacked(DexBackedInstruction),
    I10x(ImmutableInstruction10x),
    I11x(ImmutableInstruction11x),
    I12x(ImmutableInstruction12x),
    I11n(ImmutableInstruction11n),
    I10t(ImmutableInstruction10t),
    I21c(ImmutableInstruction21c),
    I31c(ImmutableInstruction31c),
    I22c(ImmutableInstruction22c),
    I35c(ImmutableInstruction35c),
    I3rc(ImmutableInstruction3rc),
    I21s(ImmutableInstruction21s),
    I31i(ImmutableInstruction31i),
    I51l(ImmutableInstruction51l),
    I21t(ImmutableInstruction21t),
    I22t(ImmutableInstruction22t),
    I22b(ImmutableInstruction22b),
    I22s(ImmutableInstruction22s),
    I23x(ImmutableInstruction23x),
    I20t(ImmutableInstruction20t),
    I30t(ImmutableInstruction30t),
    I31t(ImmutableInstruction31t),
    I22x(ImmutableInstruction22x),
    I32x(ImmutableInstruction32x),
    Payload(ImmutablePayloadInstruction),
    B10x(BuilderInstruction10x),
    B11x(BuilderInstruction11x),
    B12x(BuilderInstruction12x),
    B11n(BuilderInstruction11n),
    B10t(BuilderInstruction10t),
    B20t(BuilderInstruction20t),
    B30t(BuilderInstruction30t),
    B21c(BuilderInstruction21c),
    B31c(BuilderInstruction31c),
    B22c(BuilderInstruction22c),
    B35c(BuilderInstruction35c),
    B3rc(BuilderInstruction3rc),
    B21s(BuilderInstruction21s),
    B31i(BuilderInstruction31i),
    B51l(BuilderInstruction51l),
    B21t(BuilderInstruction21t),
    B22t(BuilderInstruction22t),
    B22b(BuilderInstruction22b),
    B22s(BuilderInstruction22s),
    B23x(BuilderInstruction23x),
    B31t(BuilderInstruction31t),
}

impl Instruction for AnyInstruction {
    open spec fn spec_opcode(&self) -> Opcode {
        match self {
            AnyInstruction::DexBacked(i) => i.spec_opcode(),
            AnyInstruction::I10x(i) => i.spec_opcode(),
            AnyInstruction::I11x(i) => i.spec_opcode(),
            AnyInstruction::I12x(i) => i.spec_opcode(),
            AnyInstruction::I11n(i) => i.spec_opcode(),
            AnyInstruction::I10t(i) => i.spec_opcode(),
            AnyInstruction::I21c(i) => i.spec_opcode(),
            AnyInstruction::I31c(i) => i.spec_opcode(),
            AnyInstruction::I22c(i) => i.spec_opcode(),
            AnyInstruction::I35c(i) => i.spec_opcode(),
            AnyInstruction::I3rc(i) => i.spec_opcode(),
            AnyInstruction::I21s(i) => i.spec_opcode(),
            AnyInstruction::I31i(i) => i.spec_opcode(),
            AnyInstruction::I51l(i) => i.spec_opcode(),
            AnyInstruction::I21t(i) => i.spec_opcode(),
            AnyInstruction::I22t(i) => i.spec_opcode(),
            AnyInstruction::I22b(i) => i.spec_opcode(),
            AnyInstruction::I22s(i) => i.spec_opcode(),
            AnyInstruction::I23x(i) => i.spec_opcode(),
            AnyInstruction::I20t(i) => i.spec_opcode(),
            AnyInstruction::I30t(i) => i.spec_opcode(),
            AnyInstruction::I31t(i) => i.spec_opcode(),
            AnyInstruction::I22x(i) => i.spec_opcode(),
            AnyInstruction::I32x(i) => i.spec_opcode(),
            AnyInstruction::Payload(i) => i.spec_opcode(),
            AnyInstruction::B10x(i) => i.spec_opcode(),
            AnyInstruction::B11x(i) => i.spec_opcode(),
            AnyInstruction::B12x(i) => i.spec_opcode(),
            AnyInstruction::B11n(i) => i.spec_opcode(),
            AnyInstruction::B10t(i) => i.spec_opcode(),
            AnyInstruction::B20t(i) => i.spec_opcode(),
            AnyInstruction::B30t(i) => i.spec_opcode(),
            AnyInstruction::B21c(i) => i.spec_opcode(),
            AnyInstruction::B31c(i) => i.spec_opcode(),
            AnyInstruction::B22c(i) => i.spec_opcode(),
            AnyInstruction::B35c(i) => i.spec_opcode(),
            AnyInstruction::B3rc(i) => i.spec_opcode(),
            AnyInstruction::B21s(i) => i.spec_opcode(),
            AnyInstruction::B31i(i) => i.spec_opcode(),
            AnyInstruction::B51l(i) => i.spec_opcode(),
            AnyInstruction::B21t(i) => i.spec_opcode(),
            AnyInstruction::B22t(i) => i.spec_opcode(),
            AnyInstruction::B22b(i) => i.spec_opcode(),
            AnyInstruction::B22s(i) => i.spec_opcode(),
            AnyInstruction::B23x(i) => i.spec_opcode(),
            AnyInstruction::B31t(i) => i.spec_opcode(),
        }
    }

    fn opcode(&self) -> (res: Opcode) {
        match self {
            AnyInstruction::DexBacked(i) => i.opcode(),
            AnyInstruction::I10x(i) => i.opcode(),
            AnyInstruction::I11x(i) => i.opcode(),
            AnyInstruction::I12x(i) => i.opcode(),
            AnyInstruction::I11n(i) => i.opcode(),
            AnyInstruction::I10t(i) => i.opcode(),
            AnyInstruction::I21c(i) => i.opcode(),
            AnyInstruction::I31c(i) => i.opcode(),
            AnyInstruction::I22c(i) => i.opcode(),
            AnyInstruction::I35c(i) => i.opcode(),
            AnyInstruction::I3rc(i) => i.opcode(),
            AnyInstruction::I21s(i) => i.opcode(),
            AnyInstruction::I31i(i) => i.opcode(),
            AnyInstruction::I51l(i) => i.opcode(),
            AnyInstruction::I21t(i) => i.opcode(),
            AnyInstruction::I22t(i) => i.opcode(),
            AnyInstruction::I22b(i) => i.opcode(),
            AnyInstruction::I22s(i) => i.opcode(),
            AnyInstruction::I23x(i) => i.opcode(),
            AnyInstruction::I20t(i) => i.opcode(),
            AnyInstruction::I30t(i) => i.opcode(),
            AnyInstruction::I31t(i) => i.opcode(),
            AnyInstruction::I22x(i) => i.opcode(),
            AnyInstruction::I32x(i) => i.opcode(),
            AnyInstruction::Payload(i) => i.opcode(),
            AnyInstruction::B10x(i) => i.opcode(),
            AnyInstruction::B11x(i) => i.opcode(),
            AnyInstruction::B12x(i) => i.opcode(),
            AnyInstruction::B11n(i) => i.opcode(),
            AnyInstruction::B10t(i) => i.opcode(),
            AnyInstruction::B20t(i) => i.opcode(),
            AnyInstruction::B30t(i) => i.opcode(),
            AnyInstruction::B21c(i) => i.opcode(),
            AnyInstruction::B31c(i) => i.opcode(),
            AnyInstruction::B22c(i) => i.opcode(),
            AnyInstruction::B35c(i) => i.opcode(),
            AnyInstruction::B3rc(i) => i.opcode(),
            AnyInstruction::B21s(i) => i.opcode(),
            AnyInstruction::B31i(i) => i.opcode(),
            AnyInstruction::B51l(i) => i.opcode(),
            AnyInstruction::B21t(i) => i.opcode(),
            AnyInstruction::B22t(i) => i.opcode(),
            AnyInstruction::B22b(i) => i.opcode(),
            AnyInstruction::B22s(i) => i.opcode(),
            AnyInstruction::B23x(i) => i.opcode(),
            AnyInstruction::B31t(i) => i.opcode(),
        }
    }

    fn clone_boxed(&self) -> (res: AnyInstruction)
        ensures
            res.spec_opcode() == self.spec_opcode(),
            kind_of(res) == kind_of(*self),
            instruction_copied(*self, res),
    {
        match self {
            AnyInstruction::DexBacked(i) => i.clone_boxed(),
            AnyInstruction::I10x(i) => i.clone_boxed(),
            AnyInstruction::I11x(i) => i.clone_boxed(),
            AnyInstruction::I12x(i) => i.clone_boxed(),
            AnyInstruction::I11n(i) => i.clone_boxed(),
            AnyInstruction::I10t(i) => i.clone_boxed(),
            AnyInstruction::I21c(i) => i.clone_boxed(),
            AnyInstruction::I31c(i) => i.clone_boxed(),
            AnyInstruction::I22c(i) => i.clone_boxed(),
            AnyInstruction::I35c(i) => i.clone_boxed(),
            AnyInstruction::I3rc(i) => i.clone_boxed(),
            AnyInstruction::I21s(i) => i.clone_boxed(),
            AnyInstruction::I31i(i) => i.clone_boxed(),
            AnyInstruction::I51l(i) => i.clone_boxed(),
            AnyInstruction::I21t(i) => i.clone_boxed(),
            AnyInstruction::I22t(i) => i.clone_boxed(),
            AnyInstruction::I22b(i) => i.clone_boxed(),
            AnyInstruction::I22s(i) => i.clone_boxed(),
            AnyInstruction::I23x(i) => i.clone_boxed(),
            AnyInstruction::I20t(i) => i.clone_boxed(),
            AnyInstruction::I30t(i) => i.clone_boxed(),
            AnyInstruction::I31t(i) => i.clone_boxed(),
            AnyInstruction::I22x(i) => i.clone_boxed(),
            AnyInstruction::I32x(i) => i.clone_boxed(),
            AnyInstruction::Payload(i) => i.clone_boxed(),
            AnyInstruction::B10x(i) => i.clone_boxed(),
            AnyInstruction::B11x(i) => i.clone_boxed(),
            AnyInstruction::B12x(i) => i.clone_boxed(),
            AnyInstruction::B11n(i) => i.clone_boxed(),
            AnyInstruction::B10t(i) => i.clone_boxed(),
            AnyInstruction::B20t(i) => i.clone_boxed(),
            AnyInstruction::B30t(i) => i.clone_boxed(),
            AnyInstruction::B21c(i) => i.clone_boxed(),
            AnyInstruction::B31c(i) => i.clone_boxed(),
            AnyInstruction::B22c(i) => i.clone_boxed(),
            AnyInstruction::B35c(i) => i.clone_boxed(),
            AnyInstruction::B3rc(i) => i.clone_boxed(),
            AnyInstruction::B21s(i) => i.clone_boxed(),
            AnyInstruction::B31i(i) => i.clone_boxed(),
            AnyInstruction::B51l(i) => i.clone_boxed(),
            AnyInstruction::B21t(i) => i.clone_boxed(),
            AnyInstruction::B22t(i) => i.clone_boxed(),
            AnyInstruction::B22b(i) => i.clone_boxed(),
            AnyInstruction::B22s(i) => i.clone_boxed(),
            AnyInstruction::B23x(i) => i.clone_boxed(),
            AnyInstruction::B31t(i) => i.clone_boxed(),
        }
    }

    fn code_units(&self) -> (res: u32)
        ensures
            res == self.spec_code_units(),
    {
        match self {
            AnyInstruction::DexBacked(i) => i.code_units(),
            _ => self.opcode().code_units(),
        }
    }

    fn format(&self) -> (res: InstructionFormat)
        ensures
            res == self.spec_format(),
    {
        match self {
            AnyInstruction::DexBacked(i) => i.format(),
            AnyInstruction::Payload(i) => i.format(),
            _ => self.opcode().format(),
        }
    }
}


/// The position of an instruction's type among the types an `AnyInstruction` holds.
/// Whether `b` is a copy of `a`: the same kind and fields, the reference naming the same item,
/// the code units of an instruction read from a file the same.
pub open spec fn instruction_copied(a: AnyInstruction, b: AnyInstruction) -> bool {
    match (a, b) {
        (AnyInstruction::DexBacked(x), AnyInstruction::DexBacked(y)) => {
            &&& x.spec_opcode() == y.spec_opcode()
            &&& x.spec_raw_insns() == y.spec_raw_insns()
            &&& x.spec_offset() == y.spec_offset()
        },
        (AnyInstruction::I21c(x), AnyInstruction::I21c(y)) => x.opcode == y.opcode && x.register_a == y.register_a
            && same_item(x.reference, y.reference),
        (AnyInstruction::I31c(x), AnyInstruction::I31c(y)) => x.opcode == y.opcode && x.register_a == y.register_a
            && same_item(x.reference, y.reference),
        (AnyInstruction::I22c(x), AnyInstruction::I22c(y)) => x.opcode == y.opcode && x.register_a == y.register_a
            && x.register_b == y.register_b && same_item(x.reference, y.reference),
        (AnyInstruction::I35c(x), AnyInstruction::I35c(y)) => {
            &&& x.opcode == y.opcode
            &&& x.register_count == y.register_count
            &&& x.register_c == y.register_c
            &&& x.register_d == y.register_d
            &&& x.register_e == y.register_e
            &&& x.register_f == y.register_f
            &&& x.register_g == y.register_g
            &&& same_item(x.reference, y.reference)
        },
        (AnyInstruction::I3rc(x), AnyInstruction::I3rc(y)) => x.opcode == y.opcode && x.start_register
            == y.start_register && x.register_count == y.register_count && same_item(x.reference, y.reference),
        (AnyInstruction::Payload(x), AnyInstruction::Payload(y)) => x.opcode == y.opcode && x.raw_data@ == y.raw_data@,
        (AnyInstruction::B21c(x), AnyInstruction::B21c(y)) => x.opcode == y.opcode && x.register_a == y.register_a
            && same_held(x.reference, y.reference),
        (AnyInstruction::B31c(x), AnyInstruction::B31c(y)) => x.opcode == y.opcode && x.register_a == y.register_a
            && same_held(x.reference, y.reference),
        (AnyInstruction::B22c(x), AnyInstruction::B22c(y)) => x.opcode == y.opcode && x.register_a == y.register_a
            && x.register_b == y.register_b && same_held(x.reference, y.reference),
        (AnyInstruction::B35c(x), AnyInstruction::B35c(y)) => {
            &&& x.opcode == y.opcode
            &&& x.register_count == y.register_count
            &&& x.register_c == y.register_c
            &&& x.register_d == y.register_d
            &&& x.register_e == y.register_e
            &&& x.register_f == y.register_f
            &&& x.register_g == y.register_g
            &&& same_held(x.reference, y.reference)
        },
        (AnyInstruction::B3rc(x), AnyInstruction::B3rc(y)) => x.opcode == y.opcode && x.start_register
            == y.start_register && x.register_count == y.register_count && same_held(x.reference, y.reference),
        _ => b == a,
    }
}

pub open spec fn kind_of(a: AnyInstruction) -> int {
    match a {
        AnyInstruction::DexBacked(_) => 0,
        AnyInstruction::I10x(_) => 1,
        AnyInstruction::I11x(_) => 2,
        AnyInstruction::I12x(_) => 3,
        AnyInstruction::I11n(_) => 4,
        AnyInstruction::I10t(_) => 5,
        AnyInstruction::I21c(_) => 6,
        AnyInstruction::I31c(_) => 7,
        AnyInstruction::I22c(_) => 8,
        AnyInstruction::I35c(_) => 9,
        AnyInstruction::I3rc(_) => 10,
        AnyInstruction::I21s(_) => 11,
        AnyInstruction::I31i(_) => 12,
        AnyInstruction::I51l(_) => 13,
        AnyInstruction::I21t(_) => 14,
        AnyInstruction::I22t(_) => 15,
        AnyInstruction::I22b(_) => 16,
        AnyInstruction::I22s(_) => 17,
        AnyInstruction::I23x(_) => 18,
        AnyInstruction::I20t(_) => 19,
        AnyInstruction::I30t(_) => 20,
        AnyInstruction::I31t(_) => 21,
        AnyInstruction::I22x(_) => 22,
        AnyInstruction::I32x(_) => 23,
        AnyInstruction::Payload(_) => 24,
        AnyInstruction::B10x(_) => 25,
        AnyInstruction::B11x(_) => 26,
        AnyInstruction::B12x(_) => 27,
        AnyInstruction::B11n(_) => 28,
        AnyInstruction::B10t(_) => 29,
        AnyInstruction::B20t(_) => 30,
        AnyInstruction::B30t(_) => 31,
        AnyInstruction::B21c(_) => 32,
        AnyInstruction::B31c(_) => 33,
        AnyInstruction::B22c(_) => 34,
        AnyInstruction::B35c(_) => 35,
        AnyInstruction::B3rc(_) => 36,
        AnyInstruction::B21s(_) => 37,
        AnyInstruction::B31i(_) => 38,
        AnyInstruction::B51l(_) => 39,
        AnyInstruction::B21t(_) => 40,
        AnyInstruction::B22t(_) => 41,
        AnyInstruction::B22b(_) => 42,
        AnyInstruction::B22s(_) => 43,
        AnyInstruction::B23x(_) => 44,
        AnyInstruction::B31t(_) => 45,
    }
}

impl AnyInstruction {
    /// The number of code units of this instruction.
    pub open spec fn spec_code_units(&self) -> u32 {
        match self {
            AnyInstruction::DexBacked(i) => i.spec_code_units(),
            _ => opcode_code_units(self.spec_opcode()),
        }
    }

    /// The format of this instruction.
    pub open spec fn spec_format(&self) -> InstructionFormat {
        match self {
            AnyInstruction::DexBacked(i) => i.spec_format(),
            AnyInstruction::Payload(i) => i.spec_format(),
            _ => opcode_format(self.spec_opcode()),
        }
    }
}

} // verus!
