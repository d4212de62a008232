pub mod header;
pub mod dex_backed_class_def;
pub mod dex_backed_dex_file;
pub mod dex_backed_field;
pub mod dex_backed_instruction;
pub mod dex_backed_method;

pub use dex_backed_instruction::{decode_all_instructions, DexBackedInstruction};
pub use dex_backed_method::{DexBackedMethod, DexBackedMethodImplementation};
pub use dex_backed_dex_file::DexBackedDexFile;
pub use dex_backed_class_def::DexBackedClassDef;
pub use dex_backed_field::DexBackedField;
