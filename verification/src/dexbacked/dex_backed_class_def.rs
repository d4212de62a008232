use vstd::prelude::*;
use crate::base::access_flags::AccessFlags;
use crate::dexbacked::dex_backed_field::DexBackedField;
use crate::dexbacked::dex_backed_method::DexBackedMethod;

verus! {

/// A class read from a dex file. This parser reads no annotations, so the class holds none.
#[derive(Debug)]
pub struct DexBackedClassDef {
    pub type_descriptor: String,
    pub access_flags: AccessFlags,
    pub superclass: Option<String>,
    pub interfaces: Vec<String>,
    pub source_file: Option<String>,
    pub static_fields: Vec<DexBackedField>,
    pub instance_fields: Vec<DexBackedField>,
    pub direct_methods: Vec<DexBackedMethod>,
    pub virtual_methods: Vec<DexBackedMethod>,
}

} // verus!
