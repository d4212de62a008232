use vstd::prelude::*;

verus! {

/// The layout of an instruction's code units.
#[derive(Debug, Clone, Copy, PartialEq, Eq, Structural, Hash)]
pub enum InstructionFormat {
    Format10t,
    Format10x,
    Format11n,
    Format11x,
    Format12x,
    Format20bc,
    Format20t,
    Format21c,
    Format21ih,
    Format21lh,
    Format21s,
    Format21t,
    Format22b,
    Format22c,
    Format22cs,
    Format22s,
    Format22t,
    Format22x,
    Format23x,
    Format30t,
    Format31c,
    Format31i,
    Format31t,
    Format32x,
    Format35c,
    Format35mi,
    Format35ms,
    Format3rc,
    Format3rmi,
    Format3rms,
    Format45cc,
    Format4rcc,
    Format51l,
    PackedSwitchPayload,
    SparseSwitchPayload,
    ArrayPayload,
}

/// The number of 16-bit code units that an instruction of format `format` takes; payloads,
/// whose size depends on their content, are given as one.
pub open spec fn format_code_units(format: InstructionFormat) -> u32 {
    match format {
        InstructionFormat::Format10t => 1,
        InstructionFormat::Format10x => 1,
        InstructionFormat::Format11n => 1,
        InstructionFormat::Format11x => 1,
        InstructionFormat::Format12x => 1,
        InstructionFormat::Format20bc => 2,
        InstructionFormat::Format20t => 2,
        InstructionFormat::Format21c => 2,
        InstructionFormat::Format21ih => 2,
        InstructionFormat::Format21lh => 2,
        InstructionFormat::Format21s => 2,
        InstructionFormat::Format21t => 2,
        InstructionFormat::Format22b => 2,
        InstructionFormat::Format22c => 2,
        InstructionFormat::Format22cs => 2,
        InstructionFormat::Format22s => 2,
        InstructionFormat::Format22t => 2,
        InstructionFormat::Format22x => 2,
        InstructionFormat::Format23x => 2,
        InstructionFormat::Format30t => 3,
        InstructionFormat::Format31c => 3,
        InstructionFormat::Format31i => 3,
        InstructionFormat::Format31t => 3,
        InstructionFormat::Format32x => 3,
        InstructionFormat::Format35c => 3,
        InstructionFormat::Format35mi => 3,
        InstructionFormat::Format35ms => 3,
        InstructionFormat::Format3rc => 3,
        InstructionFormat::Format3rmi => 3,
        InstructionFormat::Format3rms => 3,
        InstructionFormat::Format45cc => 4,
        InstructionFormat::Format4rcc => 4,
        InstructionFormat::Format51l => 5,
        _ => 1,
    }
}

impl InstructionFormat {
    /// The number of 16-bit code units of this format (one for payloads).
    pub fn code_units(self) -> (res: u32)
        ensures
            res == format_code_units(self),
    {
        match self {
            InstructionFormat::Format10t => 1,
            InstructionFormat::Format10x => 1,
            InstructionFormat::Format11n => 1,
            InstructionFormat::Format11x => 1,
            InstructionFormat::Format12x => 1,
            InstructionFormat::Format20bc => 2,
            InstructionFormat::Format20t => 2,
            InstructionFormat::Format21c => 2,
            InstructionFormat::Format21ih => 2,
            InstructionFormat::Format21lh => 2,
            InstructionFormat::Format21s => 2,
            InstructionFormat::Format21t => 2,
            InstructionFormat::Format22b => 2,
            InstructionFormat::Format22c => 2,
            InstructionFormat::Format22cs => 2,
            InstructionFormat::Format22s => 2,
            InstructionFormat::Format22t => 2,
            InstructionFormat::Format22x => 2,
            InstructionFormat::Format23x => 2,
            InstructionFormat::Format30t => 3,
            InstructionFormat::Format31c => 3,
            InstructionFormat::Format31i => 3,
            InstructionFormat::Format31t => 3,
            InstructionFormat::Format32x => 3,
            InstructionFormat::Format35c => 3,
            InstructionFormat::Format35mi => 3,
            InstructionFormat::Format35ms => 3,
            InstructionFormat::Format3rc => 3,
            InstructionFormat::Format3rmi => 3,
            InstructionFormat::Format3rms => 3,
            InstructionFormat::Format45cc => 4,
            InstructionFormat::Format4rcc => 4,
            InstructionFormat::Format51l => 5,
            _ => 1,
        }
    }
}

/// A Dalvik opcode.
#[derive(Debug, Clone, Copy, PartialEq, Eq, Structural, Hash)]
pub enum Opcode {
    /// `nop`
    Nop,
    /// `move`
    Move,
    /// `move/from16`
    MoveFrom16,
    /// `move/16`
    Move16,
    /// `move-wide`
    MoveWide,
    /// `move-wide/from16`
    MoveWideFrom16,
    /// `move-wide/16`
    MoveWide16,
    /// `move-object`
    MoveObject,
    /// `move-object/from16`
    MoveObjectFrom16,
    /// `move-object/16`
    MoveObject16,
    /// `move-result`
    MoveResult,
    /// `move-result-wide`
    MoveResultWide,
    /// `move-result-object`
    MoveResultObject,
    /// `move-exception`
    MoveException,
    /// `return-void`
    ReturnVoid,
    /// `return`
    Return,
    /// `return-wide`
    ReturnWide,
    /// `return-object`
    ReturnObject,
    /// `const/4`
    Const4,
    /// `const/16`
    Const16,
    /// `const`
    Const,
    /// `const/high16`
    ConstHigh16,
    /// `const-wide/16`
    ConstWide16,
    /// `const-wide/32`
    ConstWide32,
    /// `const-wide`
    ConstWide,
    /// `const-wide/high16`
    ConstWideHigh16,
    /// `const-string`
    ConstString,
    /// `const-string/jumbo`
    ConstStringJumbo,
    /// `const-class`
    ConstClass,
    /// `monitor-enter`
    MonitorEnter,
    /// `monitor-exit`
    MonitorExit,
    /// `check-cast`
    CheckCast,
    /// `instance-of`
    InstanceOf,
    /// `array-length`
    ArrayLength,
    /// `new-instance`
    NewInstance,
    /// `new-array`
    NewArray,
    /// `filled-new-array`
    FilledNewArray,
    /// `filled-new-array/range`
    FilledNewArrayRange,
    /// `fill-array-data`
    FillArrayData,
    /// `throw`
    Throw,
    /// `goto`
    Goto,
    /// `goto/16`
    Goto16,
    /// `goto/32`
    Goto32,
    /// `packed-switch`
    PackedSwitch,
    /// `sparse-switch`
    SparseSwitch,
    /// `cmpl-float`
    CmplFloat,
    /// `cmpg-float`
    CmpgFloat,
    /// `cmpl-double`
    CmplDouble,
    /// `cmpg-double`
    CmpgDouble,
    /// `cmp-long`
    CmpLong,
    /// `if-eq`
    IfEq,
    /// `if-ne`
    IfNe,
    /// `if-lt`
    IfLt,
    /// `if-ge`
    IfGe,
    /// `if-gt`
    IfGt,
    /// `if-le`
    IfLe,
    /// `if-eqz`
    IfEqz,
    /// `if-nez`
    IfNez,
    /// `if-ltz`
    IfLtz,
    /// `if-gez`
    IfGez,
    /// `if-gtz`
    IfGtz,
    /// `if-lez`
    IfLez,
    /// `aget`
    Aget,
    /// `aget-wide`
    AgetWide,
    /// `aget-object`
    AgetObject,
    /// `aget-boolean`
    AgetBoolean,
    /// `aget-byte`
    AgetByte,
    /// `aget-char`
    AgetChar,
    /// `aget-short`
    AgetShort,
    /// `aput`
    Aput,
    /// `aput-wide`
    AputWide,
    /// `aput-object`
    AputObject,
    /// `aput-boolean`
    AputBoolean,
    /// `aput-byte`
    AputByte,
    /// `aput-char`
    AputChar,
    /// `aput-short`
    AputShort,
    /// `iget`
    Iget,
    /// `iget-wide`
    IgetWide,
    /// `iget-object`
    IgetObject,
    /// `iget-boolean`
    IgetBoolean,
    /// `iget-byte`
    IgetByte,
    /// `iget-char`
    IgetChar,
    /// `iget-short`
    IgetShort,
    /// `iput`
    Iput,
    /// `iput-wide`
    IputWide,
    /// `iput-object`
    IputObject,
    /// `iput-boolean`
    IputBoolean,
    /// `iput-byte`
    IputByte,
    /// `iput-char`
    IputChar,
    /// `iput-short`
    IputShort,
    /// `sget`
    Sget,
    /// `sget-wide`
    SgetWide,
    /// `sget-object`
    SgetObject,
    /// `sget-boolean`
    SgetBoolean,
    /// `sget-byte`
    SgetByte,
    /// `sget-char`
    SgetChar,
    /// `sget-short`
    SgetShort,
    /// `sput`
    Sput,
    /// `sput-wide`
    SputWide,
    /// `sput-object`
    SputObject,
    /// `sput-boolean`
    SputBoolean,
    /// `sput-byte`
    SputByte,
    /// `sput-char`
    SputChar,
    /// `sput-short`
    SputShort,
    /// `invoke-virtual`
    InvokeVirtual,
    /// `invoke-super`
    InvokeSuper,
    /// `invoke-direct`
    InvokeDirect,
    /// `invoke-static`
    InvokeStatic,
    /// `invoke-interface`
    InvokeInterface,
    /// `invoke-virtual/range`
    InvokeVirtualRange,
    /// `invoke-super/range`
    InvokeSuperRange,
    /// `invoke-direct/range`
    InvokeDirectRange,
    /// `invoke-static/range`
    InvokeStaticRange,
    /// `invoke-interface/range`
    InvokeInterfaceRange,
    /// `neg-int`
    NegInt,
    /// `not-int`
    NotInt,
    /// `neg-long`
    NegLong,
    /// `not-long`
    NotLong,
    /// `neg-float`
    NegFloat,
    /// `neg-double`
    NegDouble,
    /// `int-to-long`
    IntToLong,
    /// `int-to-float`
    IntToFloat,
    /// `int-to-double`
    IntToDouble,
    /// `long-to-int`
    LongToInt,
    /// `long-to-float`
    LongToFloat,
    /// `long-to-double`
    LongToDouble,
    /// `float-to-int`
    FloatToInt,
    /// `float-to-long`
    FloatToLong,
    /// `float-to-double`
    FloatToDouble,
    /// `double-to-int`
    DoubleToInt,
    /// `double-to-long`
    DoubleToLong,
    /// `double-to-float`
    DoubleToFloat,
    /// `int-to-byte`
    IntToByte,
    /// `int-to-char`
    IntToChar,
    /// `int-to-short`
    IntToShort,
    /// `add-int`
    AddInt,
    /// `sub-int`
    SubInt,
    /// `mul-int`
    MulInt,
    /// `div-int`
    DivInt,
    /// `rem-int`
    RemInt,
    /// `and-int`
    AndInt,
    /// `or-int`
    OrInt,
    /// `xor-int`
    XorInt,
    /// `shl-int`
    ShlInt,
    /// `shr-int`
    ShrInt,
    /// `ushr-int`
    UshrInt,
    /// `add-long`
    AddLong,
    /// `sub-long`
    SubLong,
    /// `mul-long`
    MulLong,
    /// `div-long`
    DivLong,
    /// `rem-long`
    RemLong,
    /// `and-long`
    AndLong,
    /// `or-long`
    OrLong,
    /// `xor-long`
    XorLong,
    /// `shl-long`
    ShlLong,
    /// `shr-long`
    ShrLong,
    /// `ushr-long`
    UshrLong,
    /// `add-float`
    AddFloat,
    /// `sub-float`
    SubFloat,
    /// `mul-float`
    MulFloat,
    /// `div-float`
    DivFloat,
    /// `rem-float`
    RemFloat,
    /// `add-double`
    AddDouble,
    /// `sub-double`
    SubDouble,
    /// `mul-double`
    MulDouble,
    /// `div-double`
    DivDouble,
    /// `rem-double`
    RemDouble,
    /// `add-int/2addr`
    AddInt2addr,
    /// `sub-int/2addr`
    SubInt2addr,
    /// `mul-int/2addr`
    MulInt2addr,
    /// `div-int/2addr`
    DivInt2addr,
    /// `rem-int/2addr`
    RemInt2addr,
    /// `and-int/2addr`
    AndInt2addr,
    /// `or-int/2addr`
    OrInt2addr,
    /// `xor-int/2addr`
    XorInt2addr,
    /// `shl-int/2addr`
    ShlInt2addr,
    /// `shr-int/2addr`
    ShrInt2addr,
    /// `ushr-int/2addr`
    UshrInt2addr,
    /// `add-long/2addr`
    AddLong2addr,
    /// `sub-long/2addr`
    SubLong2addr,
    /// `mul-long/2addr`
    MulLong2addr,
    /// `div-long/2addr`
    DivLong2addr,
    /// `rem-long/2addr`
    RemLong2addr,
    /// `and-long/2addr`
    AndLong2addr,
    /// `or-long/2addr`
    OrLong2addr,
    /// `xor-long/2addr`
    XorLong2addr,
    /// `shl-long/2addr`
    ShlLong2addr,
    /// `shr-long/2addr`
    ShrLong2addr,
    /// `ushr-long/2addr`
    UshrLong2addr,
    /// `add-float/2addr`
    AddFloat2addr,
    /// `sub-float/2addr`
    SubFloat2addr,
    /// `mul-float/2addr`
    MulFloat2addr,
    /// `div-float/2addr`
    DivFloat2addr,
    /// `rem-float/2addr`
    RemFloat2addr,
    /// `add-double/2addr`
    AddDouble2addr,
    /// `sub-double/2addr`
    SubDouble2addr,
    /// `mul-double/2addr`
    MulDouble2addr,
    /// `div-double/2addr`
    DivDouble2addr,
    /// `rem-double/2addr`
    RemDouble2addr,
    /// `add-int/lit16`
    AddIntLit16,
    /// `rsub-int`
    RsubInt,
    /// `mul-int/lit16`
    MulIntLit16,
    /// `div-int/lit16`
    DivIntLit16,
    /// `rem-int/lit16`
    RemIntLit16,
    /// `and-int/lit16`
    AndIntLit16,
    /// `or-int/lit16`
    OrIntLit16,
    /// `xor-int/lit16`
    XorIntLit16,
    /// `add-int/lit8`
    AddIntLit8,
    /// `rsub-int/lit8`
    RsubIntLit8,
    /// `mul-int/lit8`
    MulIntLit8,
    /// `div-int/lit8`
    DivIntLit8,
    /// `rem-int/lit8`
    RemIntLit8,
    /// `and-int/lit8`
    AndIntLit8,
    /// `or-int/lit8`
    OrIntLit8,
    /// `xor-int/lit8`
    XorIntLit8,
    /// `shl-int/lit8`
    ShlIntLit8,
    /// `shr-int/lit8`
    ShrIntLit8,
    /// `ushr-int/lit8`
    UshrIntLit8,
    /// `invoke-polymorphic`
    InvokePolymorphic,
    /// `invoke-polymorphic/range`
    InvokePolymorphicRange,
    /// `invoke-custom`
    InvokeCustom,
    /// `invoke-custom/range`
    InvokeCustomRange,
    /// `const-method-handle`
    ConstMethodHandle,
    /// `const-method-type`
    ConstMethodType,
}

/// The byte that stands for `op` in the instruction stream.
pub open spec fn opcode_value(op: Opcode) -> u8 {
    match op {
        Opcode::Nop => 0x00,
        Opcode::Move => 0x01,
        Opcode::MoveFrom16 => 0x02,
        Opcode::Move16 => 0x03,
        Opcode::MoveWide => 0x04,
        Opcode::MoveWideFrom16 => 0x05,
        Opcode::MoveWide16 => 0x06,
        Opcode::MoveObject => 0x07,
        Opcode::MoveObjectFrom16 => 0x08,
        Opcode::MoveObject16 => 0x09,
        Opcode::MoveResult => 0x0a,
        Opcode::MoveResultWide => 0x0b,
        Opcode::MoveResultObject => 0x0c,
        Opcode::MoveException => 0x0d,
        Opcode::ReturnVoid => 0x0e,
        Opcode::Return => 0x0f,
        Opcode::ReturnWide => 0x10,
        Opcode::ReturnObject => 0x11,
        Opcode::Const4 => 0x12,
        Opcode::Const16 => 0x13,
        Opcode::Const => 0x14,
        Opcode::ConstHigh16 => 0x15,
        Opcode::ConstWide16 => 0x16,
        Opcode::ConstWide32 => 0x17,
        Opcode::ConstWide => 0x18,
        Opcode::ConstWideHigh16 => 0x19,
        Opcode::ConstString => 0x1a,
        Opcode::ConstStringJumbo => 0x1b,
        Opcode::ConstClass => 0x1c,
        Opcode::MonitorEnter => 0x1d,
        Opcode::MonitorExit => 0x1e,
        Opcode::CheckCast => 0x1f,
        Opcode::InstanceOf => 0x20,
        Opcode::ArrayLength => 0x21,
        Opcode::NewInstance => 0x22,
        Opcode::NewArray => 0x23,
        Opcode::FilledNewArray => 0x24,
        Opcode::FilledNewArrayRange => 0x25,
        Opcode::FillArrayData => 0x26,
        Opcode::Throw => 0x27,
        Opcode::Goto => 0x28,
        Opcode::Goto16 => 0x29,
        Opcode::Goto32 => 0x2a,
        Opcode::PackedSwitch => 0x2b,
        Opcode::SparseSwitch => 0x2c,
        Opcode::CmplFloat => 0x2d,
        Opcode::CmpgFloat => 0x2e,
        Opcode::CmplDouble => 0x2f,
        Opcode::CmpgDouble => 0x30,
        Opcode::CmpLong => 0x31,
        Opcode::IfEq => 0x32,
        Opcode::IfNe => 0x33,
        Opcode::IfLt => 0x34,
        Opcode::IfGe => 0x35,
        Opcode::IfGt => 0x36,
        Opcode::IfLe => 0x37,
        Opcode::IfEqz => 0x38,
        Opcode::IfNez => 0x39,
        Opcode::IfLtz => 0x3a,
        Opcode::IfGez => 0x3b,
        Opcode::IfGtz => 0x3c,
        Opcode::IfLez => 0x3d,
        Opcode::Aget => 0x44,
        Opcode::AgetWide => 0x45,
        Opcode::AgetObject => 0x46,
        Opcode::AgetBoolean => 0x47,
        Opcode::AgetByte => 0x48,
        Opcode::AgetChar => 0x49,
        Opcode::AgetShort => 0x4a,
        Opcode::Aput => 0x4b,
        Opcode::AputWide => 0x4c,
        Opcode::AputObject => 0x4d,
        Opcode::AputBoolean => 0x4e,
        Opcode::AputByte => 0x4f,
        Opcode::AputChar => 0x50,
        Opcode::AputShort => 0x51,
        Opcode::Iget => 0x52,
        Opcode::IgetWide => 0x53,
        Opcode::IgetObject => 0x54,
        Opcode::IgetBoolean => 0x55,
        Opcode::IgetByte => 0x56,
        Opcode::IgetChar => 0x57,
        Opcode::IgetShort => 0x58,
        Opcode::Iput => 0x59,
        Opcode::IputWide => 0x5a,
        Opcode::IputObject => 0x5b,
        Opcode::IputBoolean => 0x5c,
        Opcode::IputByte => 0x5d,
        Opcode::IputChar => 0x5e,
        Opcode::IputShort => 0x5f,
        Opcode::Sget => 0x60,
        Opcode::SgetWide => 0x61,
        Opcode::SgetObject => 0x62,
        Opcode::SgetBoolean => 0x63,
        Opcode::SgetByte => 0x64,
        Opcode::SgetChar => 0x65,
        Opcode::SgetShort => 0x66,
        Opcode::Sput => 0x67,
        Opcode::SputWide => 0x68,
        Opcode::SputObject => 0x69,
        Opcode::SputBoolean => 0x6a,
        Opcode::SputByte => 0x6b,
        Opcode::SputChar => 0x6c,
        Opcode::SputShort => 0x6d,
        Opcode::InvokeVirtual => 0x6e,
        Opcode::InvokeSuper => 0x6f,
        Opcode::InvokeDirect => 0x70,
        Opcode::InvokeStatic => 0x71,
        Opcode::InvokeInterface => 0x72,
        Opcode::InvokeVirtualRange => 0x74,
        Opcode::InvokeSuperRange => 0x75,
        Opcode::InvokeDirectRange => 0x76,
        Opcode::InvokeStaticRange => 0x77,
        Opcode::InvokeInterfaceRange => 0x78,
        Opcode::NegInt => 0x7b,
        Opcode::NotInt => 0x7c,
        Opcode::NegLong => 0x7d,
        Opcode::NotLong => 0x7e,
        Opcode::NegFloat => 0x7f,
        Opcode::NegDouble => 0x80,
        Opcode::IntToLong => 0x81,
        Opcode::IntToFloat => 0x82,
        Opcode::IntToDouble => 0x83,
        Opcode::LongToInt => 0x84,
        Opcode::LongToFloat => 0x85,
        Opcode::LongToDouble => 0x86,
        Opcode::FloatToInt => 0x87,
        Opcode::FloatToLong => 0x88,
        Opcode::FloatToDouble => 0x89,
        Opcode::DoubleToInt => 0x8a,
        Opcode::DoubleToLong => 0x8b,
        Opcode::DoubleToFloat => 0x8c,
        Opcode::IntToByte => 0x8d,
        Opcode::IntToChar => 0x8e,
        Opcode::IntToShort => 0x8f,
        Opcode::AddInt => 0x90,
        Opcode::SubInt => 0x91,
        Opcode::MulInt => 0x92,
        Opcode::DivInt => 0x93,
        Opcode::RemInt => 0x94,
        Opcode::AndInt => 0x95,
        Opcode::OrInt => 0x96,
        Opcode::XorInt => 0x97,
        Opcode::ShlInt => 0x98,
        Opcode::ShrInt => 0x99,
        Opcode::UshrInt => 0x9a,
        Opcode::AddLong => 0x9b,
        Opcode::SubLong => 0x9c,
        Opcode::MulLong => 0x9d,
        Opcode::DivLong => 0x9e,
        Opcode::RemLong => 0x9f,
        Opcode::AndLong => 0xa0,
        Opcode::OrLong => 0xa1,
        Opcode::XorLong => 0xa2,
        Opcode::ShlLong => 0xa3,
        Opcode::ShrLong => 0xa4,
        Opcode::UshrLong => 0xa5,
        Opcode::AddFloat => 0xa6,
        Opcode::SubFloat => 0xa7,
        Opcode::MulFloat => 0xa8,
        Opcode::DivFloat => 0xa9,
        Opcode::RemFloat => 0xaa,
        Opcode::AddDouble => 0xab,
        Opcode::SubDouble => 0xac,
        Opcode::MulDouble => 0xad,
        Opcode::DivDouble => 0xae,
        Opcode::RemDouble => 0xaf,
        Opcode::AddInt2addr => 0xb0,
        Opcode::SubInt2addr => 0xb1,
        Opcode::MulInt2addr => 0xb2,
        Opcode::DivInt2addr => 0xb3,
        Opcode::RemInt2addr => 0xb4,
        Opcode::AndInt2addr => 0xb5,
        Opcode::OrInt2addr => 0xb6,
        Opcode::XorInt2addr => 0xb7,
        Opcode::ShlInt2addr => 0xb8,
        Opcode::ShrInt2addr => 0xb9,
        Opcode::UshrInt2addr => 0xba,
        Opcode::AddLong2addr => 0xbb,
        Opcode::SubLong2addr => 0xbc,
        Opcode::MulLong2addr => 0xbd,
        Opcode::DivLong2addr => 0xbe,
        Opcode::RemLong2addr => 0xbf,
        Opcode::AndLong2addr => 0xc0,
        Opcode::OrLong2addr => 0xc1,
        Opcode::XorLong2addr => 0xc2,
        Opcode::ShlLong2addr => 0xc3,
        Opcode::ShrLong2addr => 0xc4,
        Opcode::UshrLong2addr => 0xc5,
        Opcode::AddFloat2addr => 0xc6,
        Opcode::SubFloat2addr => 0xc7,
        Opcode::MulFloat2addr => 0xc8,
        Opcode::DivFloat2addr => 0xc9,
        Opcode::RemFloat2addr => 0xca,
        Opcode::AddDouble2addr => 0xcb,
        Opcode::SubDouble2addr => 0xcc,
        Opcode::MulDouble2addr => 0xcd,
        Opcode::DivDouble2addr => 0xce,
        Opcode::RemDouble2addr => 0xcf,
        Opcode::AddIntLit16 => 0xd0,
        Opcode::RsubInt => 0xd1,
        Opcode::MulIntLit16 => 0xd2,
        Opcode::DivIntLit16 => 0xd3,
        Opcode::RemIntLit16 => 0xd4,
        Opcode::AndIntLit16 => 0xd5,
        Opcode::OrIntLit16 => 0xd6,
        Opcode::XorIntLit16 => 0xd7,
        Opcode::AddIntLit8 => 0xd8,
        Opcode::RsubIntLit8 => 0xd9,
        Opcode::MulIntLit8 => 0xda,
        Opcode::DivIntLit8 => 0xdb,
        Opcode::RemIntLit8 => 0xdc,
        Opcode::AndIntLit8 => 0xdd,
        Opcode::OrIntLit8 => 0xde,
        Opcode::XorIntLit8 => 0xdf,
        Opcode::ShlIntLit8 => 0xe0,
        Opcode::ShrIntLit8 => 0xe1,
        Opcode::UshrIntLit8 => 0xe2,
        Opcode::InvokePolymorphic => 0xfa,
        Opcode::InvokePolymorphicRange => 0xfb,
        Opcode::InvokeCustom => 0xfc,
        Opcode::InvokeCustomRange => 0xfd,
        Opcode::ConstMethodHandle => 0xfe,
        Opcode::ConstMethodType => 0xff,
    }
}

/// The instruction format of `op`.
pub open spec fn opcode_format(op: Opcode) -> InstructionFormat {
    match op {
        Opcode::Nop => InstructionFormat::Format10x,
        Opcode::Move => InstructionFormat::Format12x,
        Opcode::MoveFrom16 => InstructionFormat::Format22x,
        Opcode::Move16 => InstructionFormat::Format32x,
        Opcode::MoveWide => InstructionFormat::Format12x,
        Opcode::MoveWideFrom16 => InstructionFormat::Format22x,
        Opcode::MoveWide16 => InstructionFormat::Format32x,
        Opcode::MoveObject => InstructionFormat::Format12x,
        Opcode::MoveObjectFrom16 => InstructionFormat::Format22x,
        Opcode::MoveObject16 => InstructionFormat::Format32x,
        Opcode::MoveResult => InstructionFormat::Format11x,
        Opcode::MoveResultWide => InstructionFormat::Format11x,
        Opcode::MoveResultObject => InstructionFormat::Format11x,
        Opcode::MoveException => InstructionFormat::Format11x,
        Opcode::ReturnVoid => InstructionFormat::Format10x,
        Opcode::Return => InstructionFormat::Format11x,
        Opcode::ReturnWide => InstructionFormat::Format11x,
        Opcode::ReturnObject => InstructionFormat::Format11x,
        Opcode::Const4 => InstructionFormat::Format11n,
        Opcode::Const16 => InstructionFormat::Format21s,
        Opcode::Const => InstructionFormat::Format31i,
        Opcode::ConstHigh16 => InstructionFormat::Format21ih,
        Opcode::ConstWide16 => InstructionFormat::Format21s,
        Opcode::ConstWide32 => InstructionFormat::Format31i,
        Opcode::ConstWide => InstructionFormat::Format51l,
        Opcode::ConstWideHigh16 => InstructionFormat::Format21lh,
        Opcode::ConstString => InstructionFormat::Format21c,
        Opcode::ConstStringJumbo => InstructionFormat::Format31c,
        Opcode::ConstClass => InstructionFormat::Format21c,
        Opcode::MonitorEnter => InstructionFormat::Format11x,
        Opcode::MonitorExit => InstructionFormat::Format11x,
        Opcode::CheckCast => InstructionFormat::Format21c,
        Opcode::InstanceOf => InstructionFormat::Format22c,
        Opcode::ArrayLength => InstructionFormat::Format12x,
        Opcode::NewInstance => InstructionFormat::Format21c,
        Opcode::NewArray => InstructionFormat::Format22c,
        Opcode::FilledNewArray => InstructionFormat::Format35c,
        Opcode::FilledNewArrayRange => InstructionFormat::Format3rc,
        Opcode::FillArrayData => InstructionFormat::Format31t,
        Opcode::Throw => InstructionFormat::Format11x,
        Opcode::Goto => InstructionFormat::Format10t,
        Opcode::Goto16 => InstructionFormat::Format20t,
        Opcode::Goto32 => InstructionFormat::Format30t,
        Opcode::PackedSwitch => InstructionFormat::Format31t,
        Opcode::SparseSwitch => InstructionFormat::Format31t,
        Opcode::CmplFloat => InstructionFormat::Format23x,
        Opcode::CmpgFloat => InstructionFormat::Format23x,
        Opcode::CmplDouble => InstructionFormat::Format23x,
        Opcode::CmpgDouble => InstructionFormat::Format23x,
        Opcode::CmpLong => InstructionFormat::Format23x,
        Opcode::IfEq => InstructionFormat::Format22t,
        Opcode::IfNe => InstructionFormat::Format22t,
        Opcode::IfLt => InstructionFormat::Format22t,
        Opcode::IfGe => InstructionFormat::Format22t,
        Opcode::IfGt => InstructionFormat::Format22t,
        Opcode::IfLe => InstructionFormat::Format22t,
        Opcode::IfEqz => InstructionFormat::Format21t,
        Opcode::IfNez => InstructionFormat::Format21t,
        Opcode::IfLtz => InstructionFormat::Format21t,
        Opcode::IfGez => InstructionFormat::Format21t,
        Opcode::IfGtz => InstructionFormat::Format21t,
        Opcode::IfLez => InstructionFormat::Format21t,
        Opcode::Aget => InstructionFormat::Format23x,
        Opcode::AgetWide => InstructionFormat::Format23x,
        Opcode::AgetObject => InstructionFormat::Format23x,
        Opcode::AgetBoolean => InstructionFormat::Format23x,
        Opcode::AgetByte => InstructionFormat::Format23x,
        Opcode::AgetChar => InstructionFormat::Format23x,
        Opcode::AgetShort => InstructionFormat::Format23x,
        Opcode::Aput => InstructionFormat::Format23x,
        Opcode::AputWide => InstructionFormat::Format23x,
        Opcode::AputObject => InstructionFormat::Format23x,
        Opcode::AputBoolean => InstructionFormat::Format23x,
        Opcode::AputByte => InstructionFormat::Format23x,
        Opcode::AputChar => InstructionFormat::Format23x,
        Opcode::AputShort => InstructionFormat::Format23x,
        Opcode::Iget => InstructionFormat::Format22c,
        Opcode::IgetWide => InstructionFormat::Format22c,
        Opcode::IgetObject => InstructionFormat::Format22c,
        Opcode::IgetBoolean => InstructionFormat::Format22c,
        Opcode::IgetByte => InstructionFormat::Format22c,
        Opcode::IgetChar => InstructionFormat::Format22c,
        Opcode::IgetShort => InstructionFormat::Format22c,
        Opcode::Iput => InstructionFormat::Format22c,
        Opcode::IputWide => InstructionFormat::Format22c,
        Opcode::IputObject => InstructionFormat::Format22c,
        Opcode::IputBoolean => InstructionFormat::Format22c,
        Opcode::IputByte => InstructionFormat::Format22c,
        Opcode::IputChar => InstructionFormat::Format22c,
        Opcode::IputShort => InstructionFormat::Format22c,
        Opcode::Sget => InstructionFormat::Format21c,
        Opcode::SgetWide => InstructionFormat::Format21c,
        Opcode::SgetObject => InstructionFormat::Format21c,
        Opcode::SgetBoolean => InstructionFormat::Format21c,
        Opcode::SgetByte => InstructionFormat::Format21c,
        Opcode::SgetChar => InstructionFormat::Format21c,
        Opcode::SgetShort => InstructionFormat::Format21c,
        Opcode::Sput => InstructionFormat::Format21c,
        Opcode::SputWide => InstructionFormat::Format21c,
        Opcode::SputObject => InstructionFormat::Format21c,
        Opcode::SputBoolean => InstructionFormat::Format21c,
        Opcode::SputByte => InstructionFormat::Format21c,
        Opcode::SputChar => InstructionFormat::Format21c,
        Opcode::SputShort => InstructionFormat::Format21c,
        Opcode::InvokeVirtual => InstructionFormat::Format35c,
        Opcode::InvokeSuper => InstructionFormat::Format35c,
        Opcode::InvokeDirect => InstructionFormat::Format35c,
        Opcode::InvokeStatic => InstructionFormat::Format35c,
        Opcode::InvokeInterface => InstructionFormat::Format35c,
        Opcode::InvokeVirtualRange => InstructionFormat::Format3rc,
        Opcode::InvokeSuperRange => InstructionFormat::Format3rc,
        Opcode::InvokeDirectRange => InstructionFormat::Format3rc,
        Opcode::InvokeStaticRange => InstructionFormat::Format3rc,
        Opcode::InvokeInterfaceRange => InstructionFormat::Format3rc,
        Opcode::NegInt => InstructionFormat::Format12x,
        Opcode::NotInt => InstructionFormat::Format12x,
        Opcode::NegLong => InstructionFormat::Format12x,
        Opcode::NotLong => InstructionFormat::Format12x,
        Opcode::NegFloat => InstructionFormat::Format12x,
        Opcode::NegDouble => InstructionFormat::Format12x,
        Opcode::IntToLong => InstructionFormat::Format12x,
        Opcode::IntToFloat => InstructionFormat::Format12x,
        Opcode::IntToDouble => InstructionFormat::Format12x,
        Opcode::LongToInt => InstructionFormat::Format12x,
        Opcode::LongToFloat => InstructionFormat::Format12x,
        Opcode::LongToDouble => InstructionFormat::Format12x,
        Opcode::FloatToInt => InstructionFormat::Format12x,
        Opcode::FloatToLong => InstructionFormat::Format12x,
        Opcode::FloatToDouble => InstructionFormat::Format12x,
        Opcode::DoubleToInt => InstructionFormat::Format12x,
        Opcode::DoubleToLong => InstructionFormat::Format12x,
        Opcode::DoubleToFloat => InstructionFormat::Format12x,
        Opcode::IntToByte => InstructionFormat::Format12x,
        Opcode::IntToChar => InstructionFormat::Format12x,
        Opcode::IntToShort => InstructionFormat::Format12x,
        Opcode::AddInt => InstructionFormat::Format23x,
        Opcode::SubInt => InstructionFormat::Format23x,
        Opcode::MulInt => InstructionFormat::Format23x,
        Opcode::DivInt => InstructionFormat::Format23x,
        Opcode::RemInt => InstructionFormat::Format23x,
        Opcode::AndInt => InstructionFormat::Format23x,
        Opcode::OrInt => InstructionFormat::Format23x,
        Opcode::XorInt => InstructionFormat::Format23x,
        Opcode::ShlInt => InstructionFormat::Format23x,
        Opcode::ShrInt => InstructionFormat::Format23x,
        Opcode::UshrInt => InstructionFormat::Format23x,
        Opcode::AddLong => InstructionFormat::Format23x,
        Opcode::SubLong => InstructionFormat::Format23x,
        Opcode::MulLong => InstructionFormat::Format23x,
        Opcode::DivLong => InstructionFormat::Format23x,
        Opcode::RemLong => InstructionFormat::Format23x,
        Opcode::AndLong => InstructionFormat::Format23x,
        Opcode::OrLong => InstructionFormat::Format23x,
        Opcode::XorLong => InstructionFormat::Format23x,
        Opcode::ShlLong => InstructionFormat::Format23x,
        Opcode::ShrLong => InstructionFormat::Format23x,
        Opcode::UshrLong => InstructionFormat::Format23x,
        Opcode::AddFloat => InstructionFormat::Format23x,
        Opcode::SubFloat => InstructionFormat::Format23x,
        Opcode::MulFloat => InstructionFormat::Format23x,
        Opcode::DivFloat => InstructionFormat::Format23x,
        Opcode::RemFloat => InstructionFormat::Format23x,
        Opcode::AddDouble => InstructionFormat::Format23x,
        Opcode::SubDouble => InstructionFormat::Format23x,
        Opcode::MulDouble => InstructionFormat::Format23x,
        Opcode::DivDouble => InstructionFormat::Format23x,
        Opcode::RemDouble => InstructionFormat::Format23x,
        Opcode::AddInt2addr => InstructionFormat::Format12x,
        Opcode::SubInt2addr => InstructionFormat::Format12x,
        Opcode::MulInt2addr => InstructionFormat::Format12x,
        Opcode::DivInt2addr => InstructionFormat::Format12x,
        Opcode::RemInt2addr => InstructionFormat::Format12x,
        Opcode::AndInt2addr => InstructionFormat::Format12x,
        Opcode::OrInt2addr => InstructionFormat::Format12x,
        Opcode::XorInt2addr => InstructionFormat::Format12x,
        Opcode::ShlInt2addr => InstructionFormat::Format12x,
        Opcode::ShrInt2addr => InstructionFormat::Format12x,
        Opcode::UshrInt2addr => InstructionFormat::Format12x,
        Opcode::AddLong2addr => InstructionFormat::Format12x,
        Opcode::SubLong2addr => InstructionFormat::Format12x,
        Opcode::MulLong2addr => InstructionFormat::Format12x,
        Opcode::DivLong2addr => InstructionFormat::Format12x,
        Opcode::RemLong2addr => InstructionFormat::Format12x,
        Opcode::AndLong2addr => InstructionFormat::Format12x,
        Opcode::OrLong2addr => InstructionFormat::Format12x,
        Opcode::XorLong2addr => InstructionFormat::Format12x,
        Opcode::ShlLong2addr => InstructionFormat::Format12x,
        Opcode::ShrLong2addr => InstructionFormat::Format12x,
        Opcode::UshrLong2addr => InstructionFormat::Format12x,
        Opcode::AddFloat2addr => InstructionFormat::Format12x,
        Opcode::SubFloat2addr => InstructionFormat::Format12x,
        Opcode::MulFloat2addr => InstructionFormat::Format12x,
        Opcode::DivFloat2addr => InstructionFormat::Format12x,
        Opcode::RemFloat2addr => InstructionFormat::Format12x,
        Opcode::AddDouble2addr => InstructionFormat::Format12x,
        Opcode::SubDouble2addr => InstructionFormat::Format12x,
        Opcode::MulDouble2addr => InstructionFormat::Format12x,
        Opcode::DivDouble2addr => InstructionFormat::Format12x,
        Opcode::RemDouble2addr => InstructionFormat::Format12x,
        Opcode::AddIntLit16 => InstructionFormat::Format22s,
        Opcode::RsubInt => InstructionFormat::Format22s,
        Opcode::MulIntLit16 => InstructionFormat::Format22s,
        Opcode::DivIntLit16 => InstructionFormat::Format22s,
        Opcode::RemIntLit16 => InstructionFormat::Format22s,
        Opcode::AndIntLit16 => InstructionFormat::Format22s,
        Opcode::OrIntLit16 => InstructionFormat::Format22s,
        Opcode::XorIntLit16 => InstructionFormat::Format22s,
        Opcode::AddIntLit8 => InstructionFormat::Format22b,
        Opcode::RsubIntLit8 => InstructionFormat::Format22b,
        Opcode::MulIntLit8 => InstructionFormat::Format22b,
        Opcode::DivIntLit8 => InstructionFormat::Format22b,
        Opcode::RemIntLit8 => InstructionFormat::Format22b,
        Opcode::AndIntLit8 => InstructionFormat::Format22b,
        Opcode::OrIntLit8 => InstructionFormat::Format22b,
        Opcode::XorIntLit8 => InstructionFormat::Format22b,
        Opcode::ShlIntLit8 => InstructionFormat::Format22b,
        Opcode::ShrIntLit8 => InstructionFormat::Format22b,
        Opcode::UshrIntLit8 => InstructionFormat::Format22b,
        Opcode::InvokePolymorphic => InstructionFormat::Format45cc,
        Opcode::InvokePolymorphicRange => InstructionFormat::Format4rcc,
        Opcode::InvokeCustom => InstructionFormat::Format35c,
        Opcode::InvokeCustomRange => InstructionFormat::Format3rc,
        Opcode::ConstMethodHandle => InstructionFormat::Format21c,
        Opcode::ConstMethodType => InstructionFormat::Format21c,
    }
}

/// The opcode that the byte `value` stands for; `None` for the unused values.
pub open spec fn spec_opcode_from_u8(value: u8) -> Option<Opcode> {
    match value {
        0x00 => Some(Opcode::Nop),
        0x01 => Some(Opcode::Move),
        0x02 => Some(Opcode::MoveFrom16),
        0x03 => Some(Opcode::Move16),
        0x04 => Some(Opcode::MoveWide),
        0x05 => Some(Opcode::MoveWideFrom16),
        0x06 => Some(Opcode::MoveWide16),
        0x07 => Some(Opcode::MoveObject),
        0x08 => Some(Opcode::MoveObjectFrom16),
        0x09 => Some(Opcode::MoveObject16),
        0x0a => Some(Opcode::MoveResult),
        0x0b => Some(Opcode::MoveResultWide),
        0x0c => Some(Opcode::MoveResultObject),
        0x0d => Some(Opcode::MoveException),
        0x0e => Some(Opcode::ReturnVoid),
        0x0f => Some(Opcode::Return),
        0x10 => Some(Opcode::ReturnWide),
        0x11 => Some(Opcode::ReturnObject),
        0x12 => Some(Opcode::Const4),
        0x13 => Some(Opcode::Const16),
        0x14 => Some(Opcode::Const),
        0x15 => Some(Opcode::ConstHigh16),
        0x16 => Some(Opcode::ConstWide16),
        0x17 => Some(Opcode::ConstWide32),
        0x18 => Some(Opcode::ConstWide),
        0x19 => Some(Opcode::ConstWideHigh16),
        0x1a => Some(Opcode::ConstString),
        0x1b => Some(Opcode::ConstStringJumbo),
        0x1c => Some(Opcode::ConstClass),
        0x1d => Some(Opcode::MonitorEnter),
        0x1e => Some(Opcode::MonitorExit),
        0x1f => Some(Opcode::CheckCast),
        0x20 => Some(Opcode::InstanceOf),
        0x21 => Some(Opcode::ArrayLength),
        0x22 => Some(Opcode::NewInstance),
        0x23 => Some(Opcode::NewArray),
        0x24 => Some(Opcode::FilledNewArray),
        0x25 => Some(Opcode::FilledNewArrayRange),
        0x26 => Some(Opcode::FillArrayData),
        0x27 => Some(Opcode::Throw),
        0x28 => Some(Opcode::Goto),
        0x29 => Some(Opcode::Goto16),
        0x2a => Some(Opcode::Goto32),
        0x2b => Some(Opcode::PackedSwitch),
        0x2c => Some(Opcode::SparseSwitch),
        0x2d => Some(Opcode::CmplFloat),
        0x2e => Some(Opcode::CmpgFloat),
        0x2f => Some(Opcode::CmplDouble),
        0x30 => Some(Opcode::CmpgDouble),
        0x31 => Some(Opcode::CmpLong),
        0x32 => Some(Opcode::IfEq),
        0x33 => Some(Opcode::IfNe),
        0x34 => Some(Opcode::IfLt),
        0x35 => Some(Opcode::IfGe),
        0x36 => Some(Opcode::IfGt),
        0x37 => Some(Opcode::IfLe),
        0x38 => Some(Opcode::IfEqz),
        0x39 => Some(Opcode::IfNez),
        0x3a => Some(Opcode::IfLtz),
        0x3b => Some(Opcode::IfGez),
        0x3c => Some(Opcode::IfGtz),
        0x3d => Some(Opcode::IfLez),
        0x44 => Some(Opcode::Aget),
        0x45 => Some(Opcode::AgetWide),
        0x46 => Some(Opcode::AgetObject),
        0x47 => Some(Opcode::AgetBoolean),
        0x48 => Some(Opcode::AgetByte),
        0x49 => Some(Opcode::AgetChar),
        0x4a => Some(Opcode::AgetShort),
        0x4b => Some(Opcode::Aput),
        0x4c => Some(Opcode::AputWide),
        0x4d => Some(Opcode::AputObject),
        0x4e => Some(Opcode::AputBoolean),
        0x4f => Some(Opcode::AputByte),
        0x50 => Some(Opcode::AputChar),
        0x51 => Some(Opcode::AputShort),
        0x52 => Some(Opcode::Iget),
        0x53 => Some(Opcode::IgetWide),
        0x54 => Some(Opcode::IgetObject),
        0x55 => Some(Opcode::IgetBoolean),
        0x56 => Some(Opcode::IgetByte),
        0x57 => Some(Opcode::IgetChar),
        0x58 => Some(Opcode::IgetShort),
        0x59 => Some(Opcode::Iput),
        0x5a => Some(Opcode::IputWide),
        0x5b => Some(Opcode::IputObject),
        0x5c => Some(Opcode::IputBoolean),
        0x5d => Some(Opcode::IputByte),
        0x5e => Some(Opcode::IputChar),
        0x5f => Some(Opcode::IputShort),
        0x60 => Some(Opcode::Sget),
        0x61 => Some(Opcode::SgetWide),
        0x62 => Some(Opcode::SgetObject),
        0x63 => Some(Opcode::SgetBoolean),
        0x64 => Some(Opcode::SgetByte),
        0x65 => Some(Opcode::SgetChar),
        0x66 => Some(Opcode::SgetShort),
        0x67 => Some(Opcode::Sput),
        0x68 => Some(Opcode::SputWide),
        0x69 => Some(Opcode::SputObject),
        0x6a => Some(Opcode::SputBoolean),
        0x6b => Some(Opcode::SputByte),
        0x6c => Some(Opcode::SputChar),
        0x6d => Some(Opcode::SputShort),
        0x6e => Some(Opcode::InvokeVirtual),
        0x6f => Some(Opcode::InvokeSuper),
        0x70 => Some(Opcode::InvokeDirect),
        0x71 => Some(Opcode::InvokeStatic),
        0x72 => Some(Opcode::InvokeInterface),
        0x74 => Some(Opcode::InvokeVirtualRange),
        0x75 => Some(Opcode::InvokeSuperRange),
        0x76 => Some(Opcode::InvokeDirectRange),
        0x77 => Some(Opcode::InvokeStaticRange),
        0x78 => Some(Opcode::InvokeInterfaceRange),
        0x7b => Some(Opcode::NegInt),
        0x7c => Some(Opcode::NotInt),
        0x7d => Some(Opcode::NegLong),
        0x7e => Some(Opcode::NotLong),
        0x7f => Some(Opcode::NegFloat),
        0x80 => Some(Opcode::NegDouble),
        0x81 => Some(Opcode::IntToLong),
        0x82 => Some(Opcode::IntToFloat),
        0x83 => Some(Opcode::IntToDouble),
        0x84 => Some(Opcode::LongToInt),
        0x85 => Some(Opcode::LongToFloat),
        0x86 => Some(Opcode::LongToDouble),
        0x87 => Some(Opcode::FloatToInt),
        0x88 => Some(Opcode::FloatToLong),
        0x89 => Some(Opcode::FloatToDouble),
        0x8a => Some(Opcode::DoubleToInt),
        0x8b => Some(Opcode::DoubleToLong),
        0x8c => Some(Opcode::DoubleToFloat),
        0x8d => Some(Opcode::IntToByte),
        0x8e => Some(Opcode::IntToChar),
        0x8f => Some(Opcode::IntToShort),
        0x90 => Some(Opcode::AddInt),
        0x91 => Some(Opcode::SubInt),
        0x92 => Some(Opcode::MulInt),
        0x93 => Some(Opcode::DivInt),
        0x94 => Some(Opcode::RemInt),
        0x95 => Some(Opcode::AndInt),
        0x96 => Some(Opcode::OrInt),
        0x97 => Some(Opcode::XorInt),
        0x98 => Some(Opcode::ShlInt),
        0x99 => Some(Opcode::ShrInt),
        0x9a => Some(Opcode::UshrInt),
        0x9b => Some(Opcode::AddLong),
        0x9c => Some(Opcode::SubLong),
        0x9d => Some(Opcode::MulLong),
        0x9e => Some(Opcode::DivLong),
        0x9f => Some(Opcode::RemLong),
        0xa0 => Some(Opcode::AndLong),
        0xa1 => Some(Opcode::OrLong),
        0xa2 => Some(Opcode::XorLong),
        0xa3 => Some(Opcode::ShlLong),
        0xa4 => Some(Opcode::ShrLong),
        0xa5 => Some(Opcode::UshrLong),
        0xa6 => Some(Opcode::AddFloat),
        0xa7 => Some(Opcode::SubFloat),
        0xa8 => Some(Opcode::MulFloat),
        0xa9 => Some(Opcode::DivFloat),
        0xaa => Some(Opcode::RemFloat),
        0xab => Some(Opcode::AddDouble),
        0xac => Some(Opcode::SubDouble),
        0xad => Some(Opcode::MulDouble),
        0xae => Some(Opcode::DivDouble),
        0xaf => Some(Opcode::RemDouble),
        0xb0 => Some(Opcode::AddInt2addr),
        0xb1 => Some(Opcode::SubInt2addr),
        0xb2 => Some(Opcode::MulInt2addr),
        0xb3 => Some(Opcode::DivInt2addr),
        0xb4 => Some(Opcode::RemInt2addr),
        0xb5 => Some(Opcode::AndInt2addr),
        0xb6 => Some(Opcode::OrInt2addr),
        0xb7 => Some(Opcode::XorInt2addr),
        0xb8 => Some(Opcode::ShlInt2addr),
        0xb9 => Some(Opcode::ShrInt2addr),
        0xba => Some(Opcode::UshrInt2addr),
        0xbb => Some(Opcode::AddLong2addr),
        0xbc => Some(Opcode::SubLong2addr),
        0xbd => Some(Opcode::MulLong2addr),
        0xbe => Some(Opcode::DivLong2addr),
        0xbf => Some(Opcode::RemLong2addr),
        0xc0 => Some(Opcode::AndLong2addr),
        0xc1 => Some(Opcode::OrLong2addr),
        0xc2 => Some(Opcode::XorLong2addr),
        0xc3 => Some(Opcode::ShlLong2addr),
        0xc4 => Some(Opcode::ShrLong2addr),
        0xc5 => Some(Opcode::UshrLong2addr),
        0xc6 => Some(Opcode::AddFloat2addr),
        0xc7 => Some(Opcode::SubFloat2addr),
        0xc8 => Some(Opcode::MulFloat2addr),
        0xc9 => Some(Opcode::DivFloat2addr),
        0xca => Some(Opcode::RemFloat2addr),
        0xcb => Some(Opcode::AddDouble2addr),
        0xcc => Some(Opcode::SubDouble2addr),
        0xcd => Some(Opcode::MulDouble2addr),
        0xce => Some(Opcode::DivDouble2addr),
        0xcf => Some(Opcode::RemDouble2addr),
        0xd0 => Some(Opcode::AddIntLit16),
        0xd1 => Some(Opcode::RsubInt),
        0xd2 => Some(Opcode::MulIntLit16),
        0xd3 => Some(Opcode::DivIntLit16),
        0xd4 => Some(Opcode::RemIntLit16),
        0xd5 => Some(Opcode::AndIntLit16),
        0xd6 => Some(Opcode::OrIntLit16),
        0xd7 => Some(Opcode::XorIntLit16),
        0xd8 => Some(Opcode::AddIntLit8),
        0xd9 => Some(Opcode::RsubIntLit8),
        0xda => Some(Opcode::MulIntLit8),
        0xdb => Some(Opcode::DivIntLit8),
        0xdc => Some(Opcode::RemIntLit8),
        0xdd => Some(Opcode::AndIntLit8),
        0xde => Some(Opcode::OrIntLit8),
        0xdf => Some(Opcode::XorIntLit8),
        0xe0 => Some(Opcode::ShlIntLit8),
        0xe1 => Some(Opcode::ShrIntLit8),
        0xe2 => Some(Opcode::UshrIntLit8),
        0xfa => Some(Opcode::InvokePolymorphic),
        0xfb => Some(Opcode::InvokePolymorphicRange),
        0xfc => Some(Opcode::InvokeCustom),
        0xfd => Some(Opcode::InvokeCustomRange),
        0xfe => Some(Opcode::ConstMethodHandle),
        0xff => Some(Opcode::ConstMethodType),
        _ => None,
    }
}

impl Opcode {
    /// The opcode that the byte `value` stands for, if any.
    pub fn from_u8(value: u8) -> (res: Option<Opcode>)
        ensures
            res == spec_opcode_from_u8(value),
    {
        match value {
            0x00 => Some(Opcode::Nop),
            0x01 => Some(Opcode::Move),
            0x02 => Some(Opcode::MoveFrom16),
            0x03 => Some(Opcode::Move16),
            0x04 => Some(Opcode::MoveWide),
            0x05 => Some(Opcode::MoveWideFrom16),
            0x06 => Some(Opcode::MoveWide16),
            0x07 => Some(Opcode::MoveObject),
            0x08 => Some(Opcode::MoveObjectFrom16),
            0x09 => Some(Opcode::MoveObject16),
            0x0a => Some(Opcode::MoveResult),
            0x0b => Some(Opcode::MoveResultWide),
            0x0c => Some(Opcode::MoveResultObject),
            0x0d => Some(Opcode::MoveException),
            0x0e => Some(Opcode::ReturnVoid),
            0x0f => Some(Opcode::Return),
            0x10 => Some(Opcode::ReturnWide),
            0x11 => Some(Opcode::ReturnObject),
            0x12 => Some(Opcode::Const4),
            0x13 => Some(Opcode::Const16),
            0x14 => Some(Opcode::Const),
            0x15 => Some(Opcode::ConstHigh16),
            0x16 => Some(Opcode::ConstWide16),
            0x17 => Some(Opcode::ConstWide32),
            0x18 => Some(Opcode::ConstWide),
            0x19 => Some(Opcode::ConstWideHigh16),
            0x1a => Some(Opcode::ConstString),
            0x1b => Some(Opcode::ConstStringJumbo),
            0x1c => Some(Opcode::ConstClass),
            0x1d => Some(Opcode::MonitorEnter),
            0x1e => Some(Opcode::MonitorExit),
            0x1f => Some(Opcode::CheckCast),
            0x20 => Some(Opcode::InstanceOf),
            0x21 => Some(Opcode::ArrayLength),
            0x22 => Some(Opcode::NewInstance),
            0x23 => Some(Opcode::NewArray),
            0x24 => Some(Opcode::FilledNewArray),
            0x25 => Some(Opcode::FilledNewArrayRange),
            0x26 => Some(Opcode::FillArrayData),
            0x27 => Some(Opcode::Throw),
            0x28 => Some(Opcode::Goto),
            0x29 => Some(Opcode::Goto16),
            0x2a => Some(Opcode::Goto32),
            0x2b => Some(Opcode::PackedSwitch),
            0x2c => Some(Opcode::SparseSwitch),
            0x2d => Some(Opcode::CmplFloat),
            0x2e => Some(Opcode::CmpgFloat),
            0x2f => Some(Opcode::CmplDouble),
            0x30 => Some(Opcode::CmpgDouble),
            0x31 => Some(Opcode::CmpLong),
            0x32 => Some(Opcode::IfEq),
            0x33 => Some(Opcode::IfNe),
            0x34 => Some(Opcode::IfLt),
            0x35 => Some(Opcode::IfGe),
            0x36 => Some(Opcode::IfGt),
            0x37 => Some(Opcode::IfLe),
            0x38 => Some(Opcode::IfEqz),
            0x39 => Some(Opcode::IfNez),
            0x3a => Some(Opcode::IfLtz),
            0x3b => Some(Opcode::IfGez),
            0x3c => Some(Opcode::IfGtz),
            0x3d => Some(Opcode::IfLez),
            0x44 => Some(Opcode::Aget),
            0x45 => Some(Opcode::AgetWide),
            0x46 => Some(Opcode::AgetObject),
            0x47 => Some(Opcode::AgetBoolean),
            0x48 => Some(Opcode::AgetByte),
            0x49 => Some(Opcode::AgetChar),
            0x4a => Some(Opcode::AgetShort),
            0x4b => Some(Opcode::Aput),
            0x4c => Some(Opcode::AputWide),
            0x4d => Some(Opcode::AputObject),
            0x4e => Some(Opcode::AputBoolean),
            0x4f => Some(Opcode::AputByte),
            0x50 => Some(Opcode::AputChar),
            0x51 => Some(Opcode::AputShort),
            0x52 => Some(Opcode::Iget),
            0x53 => Some(Opcode::IgetWide),
            0x54 => Some(Opcode::IgetObject),
            0x55 => Some(Opcode::IgetBoolean),
            0x56 => Some(Opcode::IgetByte),
            0x57 => Some(Opcode::IgetChar),
            0x58 => Some(Opcode::IgetShort),
            0x59 => Some(Opcode::Iput),
            0x5a => Some(Opcode::IputWide),
            0x5b => Some(Opcode::IputObject),
            0x5c => Some(Opcode::IputBoolean),
            0x5d => Some(Opcode::IputByte),
            0x5e => Some(Opcode::IputChar),
            0x5f => Some(Opcode::IputShort),
            0x60 => Some(Opcode::Sget),
            0x61 => Some(Opcode::SgetWide),
            0x62 => Some(Opcode::SgetObject),
            0x63 => Some(Opcode::SgetBoolean),
            0x64 => Some(Opcode::SgetByte),
            0x65 => Some(Opcode::SgetChar),
            0x66 => Some(Opcode::SgetShort),
            0x67 => Some(Opcode::Sput),
            0x68 => Some(Opcode::SputWide),
            0x69 => Some(Opcode::SputObject),
            0x6a => Some(Opcode::SputBoolean),
            0x6b => Some(Opcode::SputByte),
            0x6c => Some(Opcode::SputChar),
            0x6d => Some(Opcode::SputShort),
            0x6e => Some(Opcode::InvokeVirtual),
            0x6f => Some(Opcode::InvokeSuper),
            0x70 => Some(Opcode::InvokeDirect),
            0x71 => Some(Opcode::InvokeStatic),
            0x72 => Some(Opcode::InvokeInterface),
            0x74 => Some(Opcode::InvokeVirtualRange),
            0x75 => Some(Opcode::InvokeSuperRange),
            0x76 => Some(Opcode::InvokeDirectRange),
            0x77 => Some(Opcode::InvokeStaticRange),
            0x78 => Some(Opcode::InvokeInterfaceRange),
            0x7b => Some(Opcode::NegInt),
            0x7c => Some(Opcode::NotInt),
            0x7d => Some(Opcode::NegLong),
            0x7e => Some(Opcode::NotLong),
            0x7f => Some(Opcode::NegFloat),
            0x80 => Some(Opcode::NegDouble),
            0x81 => Some(Opcode::IntToLong),
            0x82 => Some(Opcode::IntToFloat),
            0x83 => Some(Opcode::IntToDouble),
            0x84 => Some(Opcode::LongToInt),
            0x85 => Some(Opcode::LongToFloat),
            0x86 => Some(Opcode::LongToDouble),
            0x87 => Some(Opcode::FloatToInt),
            0x88 => Some(Opcode::FloatToLong),
            0x89 => Some(Opcode::FloatToDouble),
            0x8a => Some(Opcode::DoubleToInt),
            0x8b => Some(Opcode::DoubleToLong),
            0x8c => Some(Opcode::DoubleToFloat),
            0x8d => Some(Opcode::IntToByte),
            0x8e => Some(Opcode::IntToChar),
            0x8f => Some(Opcode::IntToShort),
            0x90 => Some(Opcode::AddInt),
            0x91 => Some(Opcode::SubInt),
            0x92 => Some(Opcode::MulInt),
            0x93 => Some(Opcode::DivInt),
            0x94 => Some(Opcode::RemInt),
            0x95 => Some(Opcode::AndInt),
            0x96 => Some(Opcode::OrInt),
            0x97 => Some(Opcode::XorInt),
            0x98 => Some(Opcode::ShlInt),
            0x99 => Some(Opcode::ShrInt),
            0x9a => Some(Opcode::UshrInt),
            0x9b => Some(Opcode::AddLong),
            0x9c => Some(Opcode::SubLong),
            0x9d => Some(Opcode::MulLong),
            0x9e => Some(Opcode::DivLong),
            0x9f => Some(Opcode::RemLong),
            0xa0 => Some(Opcode::AndLong),
            0xa1 => Some(Opcode::OrLong),
            0xa2 => Some(Opcode::XorLong),
            0xa3 => Some(Opcode::ShlLong),
            0xa4 => Some(Opcode::ShrLong),
            0xa5 => Some(Opcode::UshrLong),
            0xa6 => Some(Opcode::AddFloat),
            0xa7 => Some(Opcode::SubFloat),
            0xa8 => Some(Opcode::MulFloat),
            0xa9 => Some(Opcode::DivFloat),
            0xaa => Some(Opcode::RemFloat),
            0xab => Some(Opcode::AddDouble),
            0xac => Some(Opcode::SubDouble),
            0xad => Some(Opcode::MulDouble),
            0xae => Some(Opcode::DivDouble),
            0xaf => Some(Opcode::RemDouble),
            0xb0 => Some(Opcode::AddInt2addr),
            0xb1 => Some(Opcode::SubInt2addr),
            0xb2 => Some(Opcode::MulInt2addr),
            0xb3 => Some(Opcode::DivInt2addr),
            0xb4 => Some(Opcode::RemInt2addr),
            0xb5 => Some(Opcode::AndInt2addr),
            0xb6 => Some(Opcode::OrInt2addr),
            0xb7 => Some(Opcode::XorInt2addr),
            0xb8 => Some(Opcode::ShlInt2addr),
            0xb9 => Some(Opcode::ShrInt2addr),
            0xba => Some(Opcode::UshrInt2addr),
            0xbb => Some(Opcode::AddLong2addr),
            0xbc => Some(Opcode::SubLong2addr),
            0xbd => Some(Opcode::MulLong2addr),
            0xbe => Some(Opcode::DivLong2addr),
            0xbf => Some(Opcode::RemLong2addr),
            0xc0 => Some(Opcode::AndLong2addr),
            0xc1 => Some(Opcode::OrLong2addr),
            0xc2 => Some(Opcode::XorLong2addr),
            0xc3 => Some(Opcode::ShlLong2addr),
            0xc4 => Some(Opcode::ShrLong2addr),
            0xc5 => Some(Opcode::UshrLong2addr),
            0xc6 => Some(Opcode::AddFloat2addr),
            0xc7 => Some(Opcode::SubFloat2addr),
            0xc8 => Some(Opcode::MulFloat2addr),
            0xc9 => Some(Opcode::DivFloat2addr),
            0xca => Some(Opcode::RemFloat2addr),
            0xcb => Some(Opcode::AddDouble2addr),
            0xcc => Some(Opcode::SubDouble2addr),
            0xcd => Some(Opcode::MulDouble2addr),
            0xce => Some(Opcode::DivDouble2addr),
            0xcf => Some(Opcode::RemDouble2addr),
            0xd0 => Some(Opcode::AddIntLit16),
            0xd1 => Some(Opcode::RsubInt),
            0xd2 => Some(Opcode::MulIntLit16),
            0xd3 => Some(Opcode::DivIntLit16),
            0xd4 => Some(Opcode::RemIntLit16),
            0xd5 => Some(Opcode::AndIntLit16),
            0xd6 => Some(Opcode::OrIntLit16),
            0xd7 => Some(Opcode::XorIntLit16),
            0xd8 => Some(Opcode::AddIntLit8),
            0xd9 => Some(Opcode::RsubIntLit8),
            0xda => Some(Opcode::MulIntLit8),
            0xdb => Some(Opcode::DivIntLit8),
            0xdc => Some(Opcode::RemIntLit8),
            0xdd => Some(Opcode::AndIntLit8),
            0xde => Some(Opcode::OrIntLit8),
            0xdf => Some(Opcode::XorIntLit8),
            0xe0 => Some(Opcode::ShlIntLit8),
            0xe1 => Some(Opcode::ShrIntLit8),
            0xe2 => Some(Opcode::UshrIntLit8),
            0xfa => Some(Opcode::InvokePolymorphic),
            0xfb => Some(Opcode::InvokePolymorphicRange),
            0xfc => Some(Opcode::InvokeCustom),
            0xfd => Some(Opcode::InvokeCustomRange),
            0xfe => Some(Opcode::ConstMethodHandle),
            0xff => Some(Opcode::ConstMethodType),
            _ => None,
        }
    }

    /// The byte that stands for this opcode.
    pub fn value(self) -> (res: u8)
        ensures
            res == opcode_value(self),
    {
        match self {
            Opcode::Nop => 0x00,
            Opcode::Move => 0x01,
            Opcode::MoveFrom16 => 0x02,
            Opcode::Move16 => 0x03,
            Opcode::MoveWide => 0x04,
            Opcode::MoveWideFrom16 => 0x05,
            Opcode::MoveWide16 => 0x06,
            Opcode::MoveObject => 0x07,
            Opcode::MoveObjectFrom16 => 0x08,
            Opcode::MoveObject16 => 0x09,
            Opcode::MoveResult => 0x0a,
            Opcode::MoveResultWide => 0x0b,
            Opcode::MoveResultObject => 0x0c,
            Opcode::MoveException => 0x0d,
            Opcode::ReturnVoid => 0x0e,
            Opcode::Return => 0x0f,
            Opcode::ReturnWide => 0x10,
            Opcode::ReturnObject => 0x11,
            Opcode::Const4 => 0x12,
            Opcode::Const16 => 0x13,
            Opcode::Const => 0x14,
            Opcode::ConstHigh16 => 0x15,
            Opcode::ConstWide16 => 0x16,
            Opcode::ConstWide32 => 0x17,
            Opcode::ConstWide => 0x18,
            Opcode::ConstWideHigh16 => 0x19,
            Opcode::ConstString => 0x1a,
            Opcode::ConstStringJumbo => 0x1b,
            Opcode::ConstClass => 0x1c,
            Opcode::MonitorEnter => 0x1d,
            Opcode::MonitorExit => 0x1e,
            Opcode::CheckCast => 0x1f,
            Opcode::InstanceOf => 0x20,
            Opcode::ArrayLength => 0x21,
            Opcode::NewInstance => 0x22,
            Opcode::NewArray => 0x23,
            Opcode::FilledNewArray => 0x24,
            Opcode::FilledNewArrayRange => 0x25,
            Opcode::FillArrayData => 0x26,
            Opcode::Throw => 0x27,
            Opcode::Goto => 0x28,
            Opcode::Goto16 => 0x29,
            Opcode::Goto32 => 0x2a,
            Opcode::PackedSwitch => 0x2b,
            Opcode::SparseSwitch => 0x2c,
            Opcode::CmplFloat => 0x2d,
            Opcode::CmpgFloat => 0x2e,
            Opcode::CmplDouble => 0x2f,
            Opcode::CmpgDouble => 0x30,
            Opcode::CmpLong => 0x31,
            Opcode::IfEq => 0x32,
            Opcode::IfNe => 0x33,
            Opcode::IfLt => 0x34,
            Opcode::IfGe => 0x35,
            Opcode::IfGt => 0x36,
            Opcode::IfLe => 0x37,
            Opcode::IfEqz => 0x38,
            Opcode::IfNez => 0x39,
            Opcode::IfLtz => 0x3a,
            Opcode::IfGez => 0x3b,
            Opcode::IfGtz => 0x3c,
            Opcode::IfLez => 0x3d,
            Opcode::Aget => 0x44,
            Opcode::AgetWide => 0x45,
            Opcode::AgetObject => 0x46,
            Opcode::AgetBoolean => 0x47,
            Opcode::AgetByte => 0x48,
            Opcode::AgetChar => 0x49,
            Opcode::AgetShort => 0x4a,
            Opcode::Aput => 0x4b,
            Opcode::AputWide => 0x4c,
            Opcode::AputObject => 0x4d,
            Opcode::AputBoolean => 0x4e,
            Opcode::AputByte => 0x4f,
            Opcode::AputChar => 0x50,
            Opcode::AputShort => 0x51,
            Opcode::Iget => 0x52,
            Opcode::IgetWide => 0x53,
            Opcode::IgetObject => 0x54,
            Opcode::IgetBoolean => 0x55,
            Opcode::IgetByte => 0x56,
            Opcode::IgetChar => 0x57,
            Opcode::IgetShort => 0x58,
            Opcode::Iput => 0x59,
            Opcode::IputWide => 0x5a,
            Opcode::IputObject => 0x5b,
            Opcode::IputBoolean => 0x5c,
            Opcode::IputByte => 0x5d,
            Opcode::IputChar => 0x5e,
            Opcode::IputShort => 0x5f,
            Opcode::Sget => 0x60,
            Opcode::SgetWide => 0x61,
            Opcode::SgetObject => 0x62,
            Opcode::SgetBoolean => 0x63,
            Opcode::SgetByte => 0x64,
            Opcode::SgetChar => 0x65,
            Opcode::SgetShort => 0x66,
            Opcode::Sput => 0x67,
            Opcode::SputWide => 0x68,
            Opcode::SputObject => 0x69,
            Opcode::SputBoolean => 0x6a,
            Opcode::SputByte => 0x6b,
            Opcode::SputChar => 0x6c,
            Opcode::SputShort => 0x6d,
            Opcode::InvokeVirtual => 0x6e,
            Opcode::InvokeSuper => 0x6f,
            Opcode::InvokeDirect => 0x70,
            Opcode::InvokeStatic => 0x71,
            Opcode::InvokeInterface => 0x72,
            Opcode::InvokeVirtualRange => 0x74,
            Opcode::InvokeSuperRange => 0x75,
            Opcode::InvokeDirectRange => 0x76,
            Opcode::InvokeStaticRange => 0x77,
            Opcode::InvokeInterfaceRange => 0x78,
            Opcode::NegInt => 0x7b,
            Opcode::NotInt => 0x7c,
            Opcode::NegLong => 0x7d,
            Opcode::NotLong => 0x7e,
            Opcode::NegFloat => 0x7f,
            Opcode::NegDouble => 0x80,
            Opcode::IntToLong => 0x81,
            Opcode::IntToFloat => 0x82,
            Opcode::IntToDouble => 0x83,
            Opcode::LongToInt => 0x84,
            Opcode::LongToFloat => 0x85,
            Opcode::LongToDouble => 0x86,
            Opcode::FloatToInt => 0x87,
            Opcode::FloatToLong => 0x88,
            Opcode::FloatToDouble => 0x89,
            Opcode::DoubleToInt => 0x8a,
            Opcode::DoubleToLong => 0x8b,
            Opcode::DoubleToFloat => 0x8c,
            Opcode::IntToByte => 0x8d,
            Opcode::IntToChar => 0x8e,
            Opcode::IntToShort => 0x8f,
            Opcode::AddInt => 0x90,
            Opcode::SubInt => 0x91,
            Opcode::MulInt => 0x92,
            Opcode::DivInt => 0x93,
            Opcode::RemInt => 0x94,
            Opcode::AndInt => 0x95,
            Opcode::OrInt => 0x96,
            Opcode::XorInt => 0x97,
            Opcode::ShlInt => 0x98,
            Opcode::ShrInt => 0x99,
            Opcode::UshrInt => 0x9a,
            Opcode::AddLong => 0x9b,
            Opcode::SubLong => 0x9c,
            Opcode::MulLong => 0x9d,
            Opcode::DivLong => 0x9e,
            Opcode::RemLong => 0x9f,
            Opcode::AndLong => 0xa0,
            Opcode::OrLong => 0xa1,
            Opcode::XorLong => 0xa2,
            Opcode::ShlLong => 0xa3,
            Opcode::ShrLong => 0xa4,
            Opcode::UshrLong => 0xa5,
            Opcode::AddFloat => 0xa6,
            Opcode::SubFloat => 0xa7,
            Opcode::MulFloat => 0xa8,
            Opcode::DivFloat => 0xa9,
            Opcode::RemFloat => 0xaa,
            Opcode::AddDouble => 0xab,
            Opcode::SubDouble => 0xac,
            Opcode::MulDouble => 0xad,
            Opcode::DivDouble => 0xae,
            Opcode::RemDouble => 0xaf,
            Opcode::AddInt2addr => 0xb0,
            Opcode::SubInt2addr => 0xb1,
            Opcode::MulInt2addr => 0xb2,
            Opcode::DivInt2addr => 0xb3,
            Opcode::RemInt2addr => 0xb4,
            Opcode::AndInt2addr => 0xb5,
            Opcode::OrInt2addr => 0xb6,
            Opcode::XorInt2addr => 0xb7,
            Opcode::ShlInt2addr => 0xb8,
            Opcode::ShrInt2addr => 0xb9,
            Opcode::UshrInt2addr => 0xba,
            Opcode::AddLong2addr => 0xbb,
            Opcode::SubLong2addr => 0xbc,
            Opcode::MulLong2addr => 0xbd,
            Opcode::DivLong2addr => 0xbe,
            Opcode::RemLong2addr => 0xbf,
            Opcode::AndLong2addr => 0xc0,
            Opcode::OrLong2addr => 0xc1,
            Opcode::XorLong2addr => 0xc2,
            Opcode::ShlLong2addr => 0xc3,
            Opcode::ShrLong2addr => 0xc4,
            Opcode::UshrLong2addr => 0xc5,
            Opcode::AddFloat2addr => 0xc6,
            Opcode::SubFloat2addr => 0xc7,
            Opcode::MulFloat2addr => 0xc8,
            Opcode::DivFloat2addr => 0xc9,
            Opcode::RemFloat2addr => 0xca,
            Opcode::AddDouble2addr => 0xcb,
            Opcode::SubDouble2addr => 0xcc,
            Opcode::MulDouble2addr => 0xcd,
            Opcode::DivDouble2addr => 0xce,
            Opcode::RemDouble2addr => 0xcf,
            Opcode::AddIntLit16 => 0xd0,
            Opcode::RsubInt => 0xd1,
            Opcode::MulIntLit16 => 0xd2,
            Opcode::DivIntLit16 => 0xd3,
            Opcode::RemIntLit16 => 0xd4,
            Opcode::AndIntLit16 => 0xd5,
            Opcode::OrIntLit16 => 0xd6,
            Opcode::XorIntLit16 => 0xd7,
            Opcode::AddIntLit8 => 0xd8,
            Opcode::RsubIntLit8 => 0xd9,
            Opcode::MulIntLit8 => 0xda,
            Opcode::DivIntLit8 => 0xdb,
            Opcode::RemIntLit8 => 0xdc,
            Opcode::AndIntLit8 => 0xdd,
            Opcode::OrIntLit8 => 0xde,
            Opcode::XorIntLit8 => 0xdf,
            Opcode::ShlIntLit8 => 0xe0,
            Opcode::ShrIntLit8 => 0xe1,
            Opcode::UshrIntLit8 => 0xe2,
            Opcode::InvokePolymorphic => 0xfa,
            Opcode::InvokePolymorphicRange => 0xfb,
            Opcode::InvokeCustom => 0xfc,
            Opcode::InvokeCustomRange => 0xfd,
            Opcode::ConstMethodHandle => 0xfe,
            Opcode::ConstMethodType => 0xff,
        }
    }

    /// The instruction format of this opcode.
    pub fn format(self) -> (res: InstructionFormat)
        ensures
            res == opcode_format(self),
    {
        match self {
            Opcode::Nop => InstructionFormat::Format10x,
            Opcode::Move => InstructionFormat::Format12x,
            Opcode::MoveFrom16 => InstructionFormat::Format22x,
            Opcode::Move16 => InstructionFormat::Format32x,
            Opcode::MoveWide => InstructionFormat::Format12x,
            Opcode::MoveWideFrom16 => InstructionFormat::Format22x,
            Opcode::MoveWide16 => InstructionFormat::Format32x,
            Opcode::MoveObject => InstructionFormat::Format12x,
            Opcode::MoveObjectFrom16 => InstructionFormat::Format22x,
            Opcode::MoveObject16 => InstructionFormat::Format32x,
            Opcode::MoveResult => InstructionFormat::Format11x,
            Opcode::MoveResultWide => InstructionFormat::Format11x,
            Opcode::MoveResultObject => InstructionFormat::Format11x,
            Opcode::MoveException => InstructionFormat::Format11x,
            Opcode::ReturnVoid => InstructionFormat::Format10x,
            Opcode::Return => InstructionFormat::Format11x,
            Opcode::ReturnWide => InstructionFormat::Format11x,
            Opcode::ReturnObject => InstructionFormat::Format11x,
            Opcode::Const4 => InstructionFormat::Format11n,
            Opcode::Const16 => InstructionFormat::Format21s,
            Opcode::Const => InstructionFormat::Format31i,
            Opcode::ConstHigh16 => InstructionFormat::Format21ih,
            Opcode::ConstWide16 => InstructionFormat::Format21s,
            Opcode::ConstWide32 => InstructionFormat::Format31i,
            Opcode::ConstWide => InstructionFormat::Format51l,
            Opcode::ConstWideHigh16 => InstructionFormat::Format21lh,
            Opcode::ConstString => InstructionFormat::Format21c,
            Opcode::ConstStringJumbo => InstructionFormat::Format31c,
            Opcode::ConstClass => InstructionFormat::Format21c,
            Opcode::MonitorEnter => InstructionFormat::Format11x,
            Opcode::MonitorExit => InstructionFormat::Format11x,
            Opcode::CheckCast => InstructionFormat::Format21c,
            Opcode::InstanceOf => InstructionFormat::Format22c,
            Opcode::ArrayLength => InstructionFormat::Format12x,
            Opcode::NewInstance => InstructionFormat::Format21c,
            Opcode::NewArray => InstructionFormat::Format22c,
            Opcode::FilledNewArray => InstructionFormat::Format35c,
            Opcode::FilledNewArrayRange => InstructionFormat::Format3rc,
            Opcode::FillArrayData => InstructionFormat::Format31t,
            Opcode::Throw => InstructionFormat::Format11x,
            Opcode::Goto => InstructionFormat::Format10t,
            Opcode::Goto16 => InstructionFormat::Format20t,
            Opcode::Goto32 => InstructionFormat::Format30t,
            Opcode::PackedSwitch => InstructionFormat::Format31t,
            Opcode::SparseSwitch => InstructionFormat::Format31t,
            Opcode::CmplFloat => InstructionFormat::Format23x,
            Opcode::CmpgFloat => InstructionFormat::Format23x,
            Opcode::CmplDouble => InstructionFormat::Format23x,
            Opcode::CmpgDouble => InstructionFormat::Format23x,
            Opcode::CmpLong => InstructionFormat::Format23x,
            Opcode::IfEq => InstructionFormat::Format22t,
            Opcode::IfNe => InstructionFormat::Format22t,
            Opcode::IfLt => InstructionFormat::Format22t,
            Opcode::IfGe => InstructionFormat::Format22t,
            Opcode::IfGt => InstructionFormat::Format22t,
            Opcode::IfLe => InstructionFormat::Format22t,
            Opcode::IfEqz => InstructionFormat::Format21t,
            Opcode::IfNez => InstructionFormat::Format21t,
            Opcode::IfLtz => InstructionFormat::Format21t,
            Opcode::IfGez => InstructionFormat::Format21t,
            Opcode::IfGtz => InstructionFormat::Format21t,
            Opcode::IfLez => InstructionFormat::Format21t,
            Opcode::Aget => InstructionFormat::Format23x,
            Opcode::AgetWide => InstructionFormat::Format23x,
            Opcode::AgetObject => InstructionFormat::Format23x,
            Opcode::AgetBoolean => InstructionFormat::Format23x,
            Opcode::AgetByte => InstructionFormat::Format23x,
            Opcode::AgetChar => InstructionFormat::Format23x,
            Opcode::AgetShort => InstructionFormat::Format23x,
            Opcode::Aput => InstructionFormat::Format23x,
            Opcode::AputWide => InstructionFormat::Format23x,
            Opcode::AputObject => InstructionFormat::Format23x,
            Opcode::AputBoolean => InstructionFormat::Format23x,
            Opcode::AputByte => InstructionFormat::Format23x,
            Opcode::AputChar => InstructionFormat::Format23x,
            Opcode::AputShort => InstructionFormat::Format23x,
            Opcode::Iget => InstructionFormat::Format22c,
            Opcode::IgetWide => InstructionFormat::Format22c,
            Opcode::IgetObject => InstructionFormat::Format22c,
            Opcode::IgetBoolean => InstructionFormat::Format22c,
            Opcode::IgetByte => InstructionFormat::Format22c,
            Opcode::IgetChar => InstructionFormat::Format22c,
            Opcode::IgetShort => InstructionFormat::Format22c,
            Opcode::Iput => InstructionFormat::Format22c,
            Opcode::IputWide => InstructionFormat::Format22c,
            Opcode::IputObject => InstructionFormat::Format22c,
            Opcode::IputBoolean => InstructionFormat::Format22c,
            Opcode::IputByte => InstructionFormat::Format22c,
            Opcode::IputChar => InstructionFormat::Format22c,
            Opcode::IputShort => InstructionFormat::Format22c,
            Opcode::Sget => InstructionFormat::Format21c,
            Opcode::SgetWide => InstructionFormat::Format21c,
            Opcode::SgetObject => InstructionFormat::Format21c,
            Opcode::SgetBoolean => InstructionFormat::Format21c,
            Opcode::SgetByte => InstructionFormat::Format21c,
            Opcode::SgetChar => InstructionFormat::Format21c,
            Opcode::SgetShort => InstructionFormat::Format21c,
            Opcode::Sput => InstructionFormat::Format21c,
            Opcode::SputWide => InstructionFormat::Format21c,
            Opcode::SputObject => InstructionFormat::Format21c,
            Opcode::SputBoolean => InstructionFormat::Format21c,
            Opcode::SputByte => InstructionFormat::Format21c,
            Opcode::SputChar => InstructionFormat::Format21c,
            Opcode::SputShort => InstructionFormat::Format21c,
            Opcode::InvokeVirtual => InstructionFormat::Format35c,
            Opcode::InvokeSuper => InstructionFormat::Format35c,
            Opcode::InvokeDirect => InstructionFormat::Format35c,
            Opcode::InvokeStatic => InstructionFormat::Format35c,
            Opcode::InvokeInterface => InstructionFormat::Format35c,
            Opcode::InvokeVirtualRange => InstructionFormat::Format3rc,
            Opcode::InvokeSuperRange => InstructionFormat::Format3rc,
            Opcode::InvokeDirectRange => InstructionFormat::Format3rc,
            Opcode::InvokeStaticRange => InstructionFormat::Format3rc,
            Opcode::InvokeInterfaceRange => InstructionFormat::Format3rc,
            Opcode::NegInt => InstructionFormat::Format12x,
            Opcode::NotInt => InstructionFormat::Format12x,
            Opcode::NegLong => InstructionFormat::Format12x,
            Opcode::NotLong => InstructionFormat::Format12x,
            Opcode::NegFloat => InstructionFormat::Format12x,
            Opcode::NegDouble => InstructionFormat::Format12x,
            Opcode::IntToLong => InstructionFormat::Format12x,
            Opcode::IntToFloat => InstructionFormat::Format12x,
            Opcode::IntToDouble => InstructionFormat::Format12x,
            Opcode::LongToInt => InstructionFormat::Format12x,
            Opcode::LongToFloat => InstructionFormat::Format12x,
            Opcode::LongToDouble => InstructionFormat::Format12x,
            Opcode::FloatToInt => InstructionFormat::Format12x,
            Opcode::FloatToLong => InstructionFormat::Format12x,
            Opcode::FloatToDouble => InstructionFormat::Format12x,
            Opcode::DoubleToInt => InstructionFormat::Format12x,
            Opcode::DoubleToLong => InstructionFormat::Format12x,
            Opcode::DoubleToFloat => InstructionFormat::Format12x,
            Opcode::IntToByte => InstructionFormat::Format12x,
            Opcode::IntToChar => InstructionFormat::Format12x,
            Opcode::IntToShort => InstructionFormat::Format12x,
            Opcode::AddInt => InstructionFormat::Format23x,
            Opcode::SubInt => InstructionFormat::Format23x,
            Opcode::MulInt => InstructionFormat::Format23x,
            Opcode::DivInt => InstructionFormat::Format23x,
            Opcode::RemInt => InstructionFormat::Format23x,
            Opcode::AndInt => InstructionFormat::Format23x,
            Opcode::OrInt => InstructionFormat::Format23x,
            Opcode::XorInt => InstructionFormat::Format23x,
            Opcode::ShlInt => InstructionFormat::Format23x,
            Opcode::ShrInt => InstructionFormat::Format23x,
            Opcode::UshrInt => InstructionFormat::Format23x,
            Opcode::AddLong => InstructionFormat::Format23x,
            Opcode::SubLong => InstructionFormat::Format23x,
            Opcode::MulLong => InstructionFormat::Format23x,
            Opcode::DivLong => InstructionFormat::Format23x,
            Opcode::RemLong => InstructionFormat::Format23x,
            Opcode::AndLong => InstructionFormat::Format23x,
            Opcode::OrLong => InstructionFormat::Format23x,
            Opcode::XorLong => InstructionFormat::Format23x,
            Opcode::ShlLong => InstructionFormat::Format23x,
            Opcode::ShrLong => InstructionFormat::Format23x,
            Opcode::UshrLong => InstructionFormat::Format23x,
            Opcode::AddFloat => InstructionFormat::Format23x,
            Opcode::SubFloat => InstructionFormat::Format23x,
            Opcode::MulFloat => InstructionFormat::Format23x,
            Opcode::DivFloat => InstructionFormat::Format23x,
            Opcode::RemFloat => InstructionFormat::Format23x,
            Opcode::AddDouble => InstructionFormat::Format23x,
            Opcode::SubDouble => InstructionFormat::Format23x,
            Opcode::MulDouble => InstructionFormat::Format23x,
            Opcode::DivDouble => InstructionFormat::Format23x,
            Opcode::RemDouble => InstructionFormat::Format23x,
            Opcode::AddInt2addr => InstructionFormat::Format12x,
            Opcode::SubInt2addr => InstructionFormat::Format12x,
            Opcode::MulInt2addr => InstructionFormat::Format12x,
            Opcode::DivInt2addr => InstructionFormat::Format12x,
            Opcode::RemInt2addr => InstructionFormat::Format12x,
            Opcode::AndInt2addr => InstructionFormat::Format12x,
            Opcode::OrInt2addr => InstructionFormat::Format12x,
            Opcode::XorInt2addr => InstructionFormat::Format12x,
            Opcode::ShlInt2addr => InstructionFormat::Format12x,
            Opcode::ShrInt2addr => InstructionFormat::Format12x,
            Opcode::UshrInt2addr => InstructionFormat::Format12x,
            Opcode::AddLong2addr => InstructionFormat::Format12x,
            Opcode::SubLong2addr => InstructionFormat::Format12x,
            Opcode::MulLong2addr => InstructionFormat::Format12x,
            Opcode::DivLong2addr => InstructionFormat::Format12x,
            Opcode::RemLong2addr => InstructionFormat::Format12x,
            Opcode::AndLong2addr => InstructionFormat::Format12x,
            Opcode::OrLong2addr => InstructionFormat::Format12x,
            Opcode::XorLong2addr => InstructionFormat::Format12x,
            Opcode::ShlLong2addr => InstructionFormat::Format12x,
            Opcode::ShrLong2addr => InstructionFormat::Format12x,
            Opcode::UshrLong2addr => InstructionFormat::Format12x,
            Opcode::AddFloat2addr => InstructionFormat::Format12x,
            Opcode::SubFloat2addr => InstructionFormat::Format12x,
            Opcode::MulFloat2addr => InstructionFormat::Format12x,
            Opcode::DivFloat2addr => InstructionFormat::Format12x,
            Opcode::RemFloat2addr => InstructionFormat::Format12x,
            Opcode::AddDouble2addr => InstructionFormat::Format12x,
            Opcode::SubDouble2addr => InstructionFormat::Format12x,
            Opcode::MulDouble2addr => InstructionFormat::Format12x,
            Opcode::DivDouble2addr => InstructionFormat::Format12x,
            Opcode::RemDouble2addr => InstructionFormat::Format12x,
            Opcode::AddIntLit16 => InstructionFormat::Format22s,
            Opcode::RsubInt => InstructionFormat::Format22s,
            Opcode::MulIntLit16 => InstructionFormat::Format22s,
            Opcode::DivIntLit16 => InstructionFormat::Format22s,
            Opcode::RemIntLit16 => InstructionFormat::Format22s,
            Opcode::AndIntLit16 => InstructionFormat::Format22s,
            Opcode::OrIntLit16 => InstructionFormat::Format22s,
            Opcode::XorIntLit16 => InstructionFormat::Format22s,
            Opcode::AddIntLit8 => InstructionFormat::Format22b,
            Opcode::RsubIntLit8 => InstructionFormat::Format22b,
            Opcode::MulIntLit8 => InstructionFormat::Format22b,
            Opcode::DivIntLit8 => InstructionFormat::Format22b,
            Opcode::RemIntLit8 => InstructionFormat::Format22b,
            Opcode::AndIntLit8 => InstructionFormat::Format22b,
            Opcode::OrIntLit8 => InstructionFormat::Format22b,
            Opcode::XorIntLit8 => InstructionFormat::Format22b,
            Opcode::ShlIntLit8 => InstructionFormat::Format22b,
            Opcode::ShrIntLit8 => InstructionFormat::Format22b,
            Opcode::UshrIntLit8 => InstructionFormat::Format22b,
            Opcode::InvokePolymorphic => InstructionFormat::Format45cc,
            Opcode::InvokePolymorphicRange => InstructionFormat::Format4rcc,
            Opcode::InvokeCustom => InstructionFormat::Format35c,
            Opcode::InvokeCustomRange => InstructionFormat::Format3rc,
            Opcode::ConstMethodHandle => InstructionFormat::Format21c,
            Opcode::ConstMethodType => InstructionFormat::Format21c,
        }
    }

    /// The number of 16-bit code units of an instruction with this opcode.
    pub fn code_units(self) -> (res: u32)
        ensures
            res == format_code_units(opcode_format(self)),
            1 <= res <= 5,
    {
        self.format().code_units()
    }
}

/// Each opcode is read back from its own byte.
pub proof fn lemma_opcode_value_roundtrip(op: Opcode)
    ensures
        spec_opcode_from_u8(opcode_value(op)) == Some(op),
{
}

/// An opcode read from a byte stands for that byte.
pub proof fn lemma_opcode_from_u8_value(value: u8)
    ensures
        spec_opcode_from_u8(value) matches Some(op) ==> opcode_value(op) == value,
{
}

} // verus!
