pub mod access_flags;
pub mod leb128;
pub mod mutf8;
pub mod opcode;
pub mod text;

pub use access_flags::AccessFlags;
pub use opcode::{InstructionFormat, Opcode};
