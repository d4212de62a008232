use vstd::prelude::*;
use crate::iface::reference::{clone_strings, strings_view, MethodProtoReference};

verus! {

/// A method prototype: parameter types and return type.
pub trait MethodProto {
    spec fn spec_parameter_types(&self) -> Seq<Seq<char>>;

    spec fn spec_return_type(&self) -> Seq<char>;

    fn parameter_types(&self) -> (res: &[String])
        ensures
            strings_view(res@) == self.spec_parameter_types(),
    ;

    fn return_type(&self) -> (res: &str)
        ensures
            res@ == self.spec_return_type(),
    ;
}

/// A prototype held by value.
#[derive(Debug, Clone, PartialEq, Eq, Hash)]
pub struct MethodProtoData {
    pub parameter_types: Vec<String>,
    pub return_type: String,
}

impl MethodProto for MethodProtoData {
    open spec fn spec_parameter_types(&self) -> Seq<Seq<char>> {
        strings_view(self.parameter_types@)
    }

    open spec fn spec_return_type(&self) -> Seq<char> {
        self.return_type@
    }

    fn parameter_types(&self) -> (res: &[String]) {
        self.parameter_types.as_slice()
    }

    fn return_type(&self) -> (res: &str) {
        self.return_type.as_str()
    }
}

impl MethodProtoData {
    pub fn to_method_proto_reference(&self) -> (res: MethodProtoReference)
        ensures
            strings_view(res.parameter_types@) == strings_view(self.parameter_types@),
            res.return_type@ == self.return_type@,
    {
        MethodProtoReference::new(clone_strings(&self.parameter_types), self.return_type.as_str())
    }
}

} // verus!
