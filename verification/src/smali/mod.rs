pub mod chars;
pub mod smali_parser;

pub use smali_parser::{parse_smali, SmaliClass, SmaliField, SmaliInstruction, SmaliMethod, SmaliParseError};
pub mod smali_assembler;
