use vstd::prelude::*;
use crate::iface::debug_item::DebugItem;
use crate::iface::instruction::AnyInstruction;
use crate::iface::method::{MethodImplementation, TryBlock};
use crate::base::access_flags::AccessFlags;
use crate::iface::reference::{clone_strings, strings_view, MethodReference};

verus! {

/// A method body of an immutable method.
#[derive(Debug)]
pub struct ImmutableMethodImplementation {
    pub register_count: u16,
    pub instructions: Vec<AnyInstruction>,
    pub try_blocks: Vec<TryBlock>,
    pub debug_items: Vec<DebugItem>,
}

impl MethodImplementation for ImmutableMethodImplementation {
    open spec fn spec_register_count(&self) -> u16 {
        self.register_count
    }

    open spec fn spec_instructions(&self) -> Seq<AnyInstruction> {
        self.instructions@
    }

    open spec fn spec_try_blocks(&self) -> Seq<TryBlock> {
        self.try_blocks@
    }

    open spec fn spec_debug_items(&self) -> Seq<DebugItem> {
        self.debug_items@
    }

    fn register_count(&self) -> (res: u16) {
        self.register_count
    }

    fn instructions(&self) -> (res: &[AnyInstruction]) {
        self.instructions.as_slice()
    }

    fn try_blocks(&self) -> (res: &[TryBlock]) {
        self.try_blocks.as_slice()
    }

    fn debug_items(&self) -> (res: &[DebugItem]) {
        self.debug_items.as_slice()
    }
}


/// A method held in memory: its class, name, prototype, flags and, where it has one, its code.
#[derive(Debug)]
pub struct ImmutableMethod {
    pub defining_class: String,
    pub name: String,
    pub parameter_types: Vec<String>,
    pub return_type: String,
    pub access_flags: AccessFlags,
    pub hidden_api_restrictions: u32,
    pub implementation: Option<ImmutableMethodImplementation>,
}

impl ImmutableMethod {
    /// A method without code.
    pub fn new(
        defining_class: &str,
        name: &str,
        parameter_types: Vec<String>,
        return_type: &str,
        access_flags: AccessFlags,
    ) -> (res: Self)
        ensures
            res.defining_class@ == defining_class@,
            res.name@ == name@,
            res.parameter_types == parameter_types,
            res.return_type@ == return_type@,
            res.access_flags == access_flags,
            res.hidden_api_restrictions == 0,
            res.implementation is None,
    {
        ImmutableMethod {
            defining_class: defining_class.to_owned(),
            name: name.to_owned(),
            parameter_types,
            return_type: return_type.to_owned(),
            access_flags,
            hidden_api_restrictions: 0,
            implementation: None,
        }
    }

    /// A reference to this method.
    pub fn to_method_reference(&self) -> (res: MethodReference)
        ensures
            res.defining_class@ == self.defining_class@,
            res.method_name@ == self.name@,
            strings_view(res.parameter_types@) == strings_view(self.parameter_types@),
            res.return_type@ == self.return_type@,
    {
        MethodReference::new(
            self.defining_class.as_str(),
            self.name.as_str(),
            clone_strings(&self.parameter_types),
            self.return_type.as_str(),
        )
    }

    pub fn defining_class(&self) -> (res: &str)
        ensures
            res@ == self.defining_class@,
    {
        self.defining_class.as_str()
    }

    pub fn name(&self) -> (res: &str)
        ensures
            res@ == self.name@,
    {
        self.name.as_str()
    }

    pub fn parameter_types(&self) -> (res: &[String])
        ensures
            res@ == self.parameter_types@,
    {
        self.parameter_types.as_slice()
    }

    pub fn return_type(&self) -> (res: &str)
        ensures
            res@ == self.return_type@,
    {
        self.return_type.as_str()
    }

    pub fn access_flags(&self) -> (res: AccessFlags)
        ensures
            res == self.access_flags,
    {
        self.access_flags
    }

    pub fn hidden_api_restrictions(&self) -> (res: u32)
        ensures
            res == self.hidden_api_restrictions,
    {
        self.hidden_api_restrictions
    }

    /// The code of this method, if it has any.
    pub fn implementation(&self) -> (res: Option<&ImmutableMethodImplementation>)
        ensures
            res == match &self.implementation {
                Some(i) => Some(i),
                None => None::<&ImmutableMethodImplementation>,
            },
    {
        match &self.implementation {
            Some(i) => Some(i),
            None => None,
        }
    }
}

} // verus!
