pub mod immutable_class_def;
pub mod immutable_field;
pub mod immutable_instruction;
pub mod immutable_method;
pub mod immutable_reference;

pub use immutable_instruction::{
    ImmutableInstruction10t, ImmutableInstruction10x, ImmutableInstruction11n,
    ImmutableInstruction11x, ImmutableInstruction12x, ImmutableInstruction20t,
    ImmutableInstruction21c, ImmutableInstruction21s, ImmutableInstruction21t,
    ImmutableInstruction22b, ImmutableInstruction22c, ImmutableInstruction22s,
    ImmutableInstruction22t, ImmutableInstruction22x, ImmutableInstruction23x,
    ImmutableInstruction30t, ImmutableInstruction31c, ImmutableInstruction31i,
    ImmutableInstruction31t, ImmutableInstruction32x, ImmutableInstruction35c,
    ImmutableInstruction3rc, ImmutableInstruction51l, ImmutablePayloadInstruction,
};
pub use immutable_reference::{
    ImmutableFieldReference, ImmutableMethodProtoReference, ImmutableMethodReference,
    ImmutableReferenceHolder, ImmutableStringReference, ImmutableTypeReference,
};
pub use immutable_method::ImmutableMethodImplementation;
pub use immutable_class_def::ImmutableClassDef;
pub use immutable_field::ImmutableField;
pub use immutable_method::ImmutableMethod;
