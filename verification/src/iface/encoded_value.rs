use vstd::prelude::*;

verus! {

/// The kinds of encoded values of the dex format.
#[derive(Debug, Clone, Copy, PartialEq, Eq, Structural, Hash)]
pub enum EncodedValueType {
    Byte,
    Short,
    Int,
    Long,
    Float,
    Double,
    Char,
    String,
    Type,
    Field,
    Method,
    MethodProto,
    MethodHandle,
    Null,
    Boolean,
    Array,
    Annotation,
}

/// The `value_type` byte of each kind.
pub open spec fn encoded_value_type_byte(t: EncodedValueType) -> u8 {
    match t {
        EncodedValueType::Byte => 0x00,
        EncodedValueType::Short => 0x02,
        EncodedValueType::Int => 0x04,
        EncodedValueType::Long => 0x06,
        EncodedValueType::Float => 0x10,
        EncodedValueType::Double => 0x11,
        EncodedValueType::Char => 0x03,
        EncodedValueType::String => 0x17,
        EncodedValueType::Type => 0x18,
        EncodedValueType::Field => 0x19,
        EncodedValueType::Method => 0x1a,
        EncodedValueType::MethodProto => 0x1b,
        EncodedValueType::MethodHandle => 0x1c,
        EncodedValueType::Null => 0x1e,
        EncodedValueType::Boolean => 0x1f,
        EncodedValueType::Array => 0x1d,
        EncodedValueType::Annotation => 0x20,
    }
}

impl EncodedValueType {
    /// The `value_type` byte of this kind.
    pub fn value(&self) -> (res: u8)
        ensures
            res == encoded_value_type_byte(*self),
    {
        match self {
            EncodedValueType::Byte => 0x00,
            EncodedValueType::Short => 0x02,
            EncodedValueType::Int => 0x04,
            EncodedValueType::Long => 0x06,
            EncodedValueType::Float => 0x10,
            EncodedValueType::Double => 0x11,
            EncodedValueType::Char => 0x03,
            EncodedValueType::String => 0x17,
            EncodedValueType::Type => 0x18,
            EncodedValueType::Field => 0x19,
            EncodedValueType::Method => 0x1a,
            EncodedValueType::MethodProto => 0x1b,
            EncodedValueType::MethodHandle => 0x1c,
            EncodedValueType::Null => 0x1e,
            EncodedValueType::Boolean => 0x1f,
            EncodedValueType::Array => 0x1d,
            EncodedValueType::Annotation => 0x20,
        }
    }
}

} // verus!
