use vstd::prelude::*;
use crate::base::access_flags::AccessFlags;
use crate::iface::reference::FieldReference;

verus! {

/// A field read from a dex file. This parser reads no annotations or initial values, so the
/// field holds none.
#[derive(Debug)]
pub struct DexBackedField {
    pub defining_class: String,
    pub name: String,
    pub field_type: String,
    pub access_flags: AccessFlags,
    pub field_index: u32,
    pub hidden_api_restrictions: u32,
}

impl DexBackedField {
    pub fn to_field_reference(&self) -> (res: FieldReference)
        ensures
            res.defining_class@ == self.defining_class@,
            res.field_name@ == self.name@,
            res.field_type@ == self.field_type@,
    {
        FieldReference::new(
            self.defining_class.as_str(),
            self.name.as_str(),
            self.field_type.as_str(),
        )
    }
}

} // verus!
