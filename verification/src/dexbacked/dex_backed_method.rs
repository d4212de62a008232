use vstd::prelude::*;
use crate::base::access_flags::AccessFlags;
use crate::iface::debug_item::DebugItem;
use crate::iface::instruction::AnyInstruction;
use crate::iface::method::{MethodImplementation, TryBlock};
use crate::iface::reference::{clone_strings, strings_view, MethodReference};

verus! {

/// A method body read from a dex file.
#[derive(Debug)]
pub struct DexBackedMethodImplementation {
    pub register_count: u16,
    pub instructions: Vec<AnyInstruction>,
    pub try_blocks: Vec<TryBlock>,
    pub debug_items: Vec<DebugItem>,
}

impl MethodImplementation for DexBackedMethodImplementation {
    open spec fn spec_register_count(&self) -> u16 {
        self.register_count
    }

    open spec fn spec_instructions(&self) -> Seq<AnyInstruction> {
        self.instructions@
    }

    open spec fn spec_try_blocks(&self) -> Seq<TryBlock> {
        self.try_blocks@
    }

    open spec fn spec_debug_items(&self) -> Seq<DebugItem> {
        self.debug_items@
    }

    fn register_count(&self) -> (res: u16) {
        self.register_count
    }

    fn instructions(&self) -> (res: &[AnyInstruction]) {
        self.instructions.as_slice()
    }

    fn try_blocks(&self) -> (res: &[TryBlock]) {
        self.try_blocks.as_slice()
    }

    fn debug_items(&self) -> (res: &[DebugItem]) {
        self.debug_items.as_slice()
    }
}

/// A method read from a dex file. This parser reads no annotations, so the method holds none.
#[derive(Debug)]
pub struct DexBackedMethod {
    pub defining_class: String,
    pub name: String,
    pub parameter_types: Vec<String>,
    pub return_type: String,
    pub access_flags: AccessFlags,
    pub method_index: u32,
    pub hidden_api_restrictions: u32,
    pub implementation: Option<DexBackedMethodImplementation>,
}

impl DexBackedMethod {
    pub fn to_method_reference(&self) -> (res: MethodReference)
        ensures
            res.defining_class@ == self.defining_class@,
            res.method_name@ == self.name@,
            strings_view(res.parameter_types@) == strings_view(self.parameter_types@),
            res.return_type@ == self.return_type@,
    {
        MethodReference::new(
            self.defining_class.as_str(),
            self.name.as_str(),
            clone_strings(&self.parameter_types),
            self.return_type.as_str(),
        )
    }
}

} // verus!
