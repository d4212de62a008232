pub mod annotation;
pub mod debug_item;
pub mod encoded_value;
pub mod instruction;
pub mod method;
pub mod proto;
pub mod reference;

pub use annotation::AnnotationVisibility;
pub use debug_item::{DebugItem, EndLocal, LineNumber, RestartLocal, SetSourceFile, StartLocal};
pub use encoded_value::EncodedValueType;
pub use method::{ExceptionHandler, MethodImplementation, MethodImplementationData, TryBlock};
pub use proto::{MethodProto, MethodProtoData};

pub use instruction::{
    AnyInstruction, ArrayPayload, Instruction, Instruction10t, Instruction11n, Instruction20bc,
    Instruction20t, Instruction21c, Instruction21s, Instruction21t, Instruction22b,
    Instruction22c, Instruction22cs, Instruction22s, Instruction22t, Instruction31c,
    Instruction31i, Instruction31t, Instruction35c, Instruction35mi, Instruction35ms,
    Instruction3rc, Instruction3rmi, Instruction3rms, Instruction45cc, Instruction4rcc,
    Instruction51l, OneRegisterInstruction, PackedSwitchPayload, RegisterRangeInstruction,
    SparseSwitchPayload, ThreeRegisterInstruction, TwoRegisterInstruction,
};
pub use reference::{
    FieldReference, MethodProtoReference, MethodReference, Reference, ReferenceHolder,
    ReferenceType, StringReference, TypeReference,
};
