use vstd::prelude::*;
use crate::base::access_flags::AccessFlags;
use crate::iface::reference::FieldReference;

verus! {

/// A field held in memory: its class, name, type and flags.
#[derive(Debug)]
pub struct ImmutableField {
    pub defining_class: String,
    pub name: String,
    pub field_type: String,
    pub access_flags: AccessFlags,
    pub hidden_api_restrictions: u32,
}

impl ImmutableField {
    pub fn new(defining_class: &str, name: &str, field_type: &str, access_flags: AccessFlags) -> (res: Self)
        ensures
            res.defining_class@ == defining_class@,
            res.name@ == name@,
            res.field_type@ == field_type@,
            res.access_flags == access_flags,
            res.hidden_api_restrictions == 0,
    {
        ImmutableField {
            defining_class: defining_class.to_owned(),
            name: name.to_owned(),
            field_type: field_type.to_owned(),
            access_flags,
            hidden_api_restrictions: 0,
        }
    }

    /// A reference to this field.
    pub fn to_field_reference(&self) -> (res: FieldReference)
        ensures
            res.defining_class@ == self.defining_class@,
            res.field_name@ == self.name@,
            res.field_type@ == self.field_type@,
    {
        FieldReference::new(self.defining_class.as_str(), self.name.as_str(), self.field_type.as_str())
    }

    pub fn defining_class(&self) -> (res: &str)
        ensures
            res@ == self.defining_class@,
    {
        self.defining_class.as_str()
    }

    pub fn name(&self) -> (res: &str)
        ensures
            res@ == self.name@,
    {
        self.name.as_str()
    }

    pub fn field_type(&self) -> (res: &str)
        ensures
            res@ == self.field_type@,
    {
        self.field_type.as_str()
    }

    pub fn access_flags(&self) -> (res: AccessFlags)
        ensures
            res == self.access_flags,
    {
        self.access_flags
    }

    pub fn hidden_api_restrictions(&self) -> (res: u32)
        ensures
            res == self.hidden_api_restrictions,
    {
        self.hidden_api_restrictions
    }
}

} // verus!
