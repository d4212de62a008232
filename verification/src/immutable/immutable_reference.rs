use vstd::prelude::*;
use crate::iface::reference::{
    clone_strings, strings_view, FieldReference, MethodProtoReference, MethodReference, Reference,
    ReferenceHolder, ReferenceType, StringReference, TypeReference,
};

verus! {

/// A string constant held by an instruction under construction.
#[derive(Debug, Clone, PartialEq, Eq, Hash)]
pub struct ImmutableStringReference {
    pub string: String,
}

impl ImmutableStringReference {
    pub fn new(string: &str) -> (res: Self)
        ensures
            res.string@ == string@,
    {
        ImmutableStringReference { string: string.to_owned() }
    }

    /// A copy of an interface string reference.
    pub fn from(r: &StringReference) -> (res: Self)
        ensures
            res.string@ == r.string@,
    {
        Self::new(r.string.as_str())
    }
}

impl Reference for ImmutableStringReference {
    fn as_string_reference(&self) -> (res: Option<&StringReference>)
        ensures
            res is None,
    {
        None
    }

    fn reference_type(&self) -> (res: ReferenceType)
        ensures
            res == ReferenceType::String,
    {
        ReferenceType::String
    }
}

/// A type held by an instruction under construction.
#[derive(Debug, Clone, PartialEq, Eq, Hash)]
pub struct ImmutableTypeReference {
    pub type_descriptor: String,
}

impl ImmutableTypeReference {
    pub fn new(type_descriptor: &str) -> (res: Self)
        ensures
            res.type_descriptor@ == type_descriptor@,
    {
        ImmutableTypeReference { type_descriptor: type_descriptor.to_owned() }
    }

    /// A copy of an interface type reference.
    pub fn from(r: &TypeReference) -> (res: Self)
        ensures
            res.type_descriptor@ == r.type_descriptor@,
    {
        Self::new(r.type_descriptor.as_str())
    }
}

impl Reference for ImmutableTypeReference {
    fn as_type_reference(&self) -> (res: Option<&TypeReference>)
        ensures
            res is None,
    {
        None
    }

    fn reference_type(&self) -> (res: ReferenceType)
        ensures
            res == ReferenceType::Type,
    {
        ReferenceType::Type
    }
}

/// A field held by an instruction under construction.
#[derive(Debug, Clone)]
pub struct ImmutableFieldReference {
    pub defining_class: String,
    pub field_name: String,
    pub field_type: String,
}

impl ImmutableFieldReference {
    pub fn new(defining_class: &str, field_name: &str, field_type: &str) -> (res: Self)
        ensures
            res.defining_class@ == defining_class@,
            res.field_name@ == field_name@,
            res.field_type@ == field_type@,
    {
        ImmutableFieldReference {
            defining_class: defining_class.to_owned(),
            field_name: field_name.to_owned(),
            field_type: field_type.to_owned(),
        }
    }

    /// A copy of an interface field reference.
    pub fn from(r: &FieldReference) -> (res: Self)
        ensures
            res.defining_class@ == r.defining_class@,
            res.field_name@ == r.field_name@,
            res.field_type@ == r.field_type@,
    {
        Self::new(r.defining_class.as_str(), r.field_name.as_str(), r.field_type.as_str())
    }
}

impl Reference for ImmutableFieldReference {
    fn as_field_reference(&self) -> (res: Option<&FieldReference>)
        ensures
            res is None,
    {
        None
    }

    fn reference_type(&self) -> (res: ReferenceType)
        ensures
            res == ReferenceType::Field,
    {
        ReferenceType::Field
    }
}

/// A method held by an instruction under construction.
#[derive(Debug, Clone)]
pub struct ImmutableMethodReference {
    pub defining_class: String,
    pub method_name: String,
    pub parameter_types: Vec<String>,
    pub return_type: String,
}

impl ImmutableMethodReference {
    pub fn new(
        defining_class: &str,
        method_name: &str,
        parameter_types: Vec<String>,
        return_type: &str,
    ) -> (res: Self)
        ensures
            res.defining_class@ == defining_class@,
            res.method_name@ == method_name@,
            res.parameter_types == parameter_types,
            res.return_type@ == return_type@,
    {
        ImmutableMethodReference {
            defining_class: defining_class.to_owned(),
            method_name: method_name.to_owned(),
            parameter_types,
            return_type: return_type.to_owned(),
        }
    }

    /// A copy of an interface method reference.
    pub fn from(r: &MethodReference) -> (res: Self)
        ensures
            res.defining_class@ == r.defining_class@,
            res.method_name@ == r.method_name@,
            strings_view(res.parameter_types@) == strings_view(r.parameter_types@),
            res.return_type@ == r.return_type@,
    {
        Self::new(
            r.defining_class.as_str(),
            r.method_name.as_str(),
            clone_strings(&r.parameter_types),
            r.return_type.as_str(),
        )
    }
}

impl Reference for ImmutableMethodReference {
    fn as_method_reference(&self) -> (res: Option<&MethodReference>)
        ensures
            res is None,
    {
        None
    }

    fn reference_type(&self) -> (res: ReferenceType)
        ensures
            res == ReferenceType::Method,
    {
        ReferenceType::Method
    }
}

/// A method prototype held by an instruction under construction.
#[derive(Debug, Clone)]
pub struct ImmutableMethodProtoReference {
    pub parameter_types: Vec<String>,
    pub return_type: String,
}

impl ImmutableMethodProtoReference {
    pub fn new(parameter_types: Vec<String>, return_type: &str) -> (res: Self)
        ensures
            res.parameter_types == parameter_types,
            res.return_type@ == return_type@,
    {
        ImmutableMethodProtoReference { parameter_types, return_type: return_type.to_owned() }
    }

    /// A copy of an interface prototype reference.
    pub fn from(r: &MethodProtoReference) -> (res: Self)
        ensures
            strings_view(res.parameter_types@) == strings_view(r.parameter_types@),
            res.return_type@ == r.return_type@,
    {
        Self::new(clone_strings(&r.parameter_types), r.return_type.as_str())
    }
}

impl Reference for ImmutableMethodProtoReference {
    fn as_method_proto_reference(&self) -> (res: Option<&MethodProtoReference>)
        ensures
            res is None,
    {
        None
    }

    fn reference_type(&self) -> (res: ReferenceType)
        ensures
            res == ReferenceType::MethodProto,
    {
        ReferenceType::MethodProto
    }
}

/// Any one reference held by an instruction under construction, or none.
#[derive(Debug, Clone)]
pub enum ImmutableReferenceHolder {
    NoReference,
    String(ImmutableStringReference),
    Type(ImmutableTypeReference),
    Field(ImmutableFieldReference),
    Method(ImmutableMethodReference),
    MethodProto(ImmutableMethodProtoReference),
}

/// Whether an interface reference and a held reference name the same item.
pub open spec fn same_reference(a: ReferenceHolder, b: ImmutableReferenceHolder) -> bool {
    match (a, b) {
        (ReferenceHolder::NoReference, ImmutableReferenceHolder::NoReference) => true,
        (ReferenceHolder::String(x), ImmutableReferenceHolder::String(y)) => x.string@ == y.string@,
        (ReferenceHolder::Type(x), ImmutableReferenceHolder::Type(y)) => x.type_descriptor@
            == y.type_descriptor@,
        (ReferenceHolder::Field(x), ImmutableReferenceHolder::Field(y)) => {
            &&& x.defining_class@ == y.defining_class@
            &&& x.field_name@ == y.field_name@
            &&& x.field_type@ == y.field_type@
        },
        (ReferenceHolder::Method(x), ImmutableReferenceHolder::Method(y)) => {
            &&& x.defining_class@ == y.defining_class@
            &&& x.method_name@ == y.method_name@
            &&& strings_view(x.parameter_types@) == strings_view(y.parameter_types@)
            &&& x.return_type@ == y.return_type@
        },
        (ReferenceHolder::MethodProto(x), ImmutableReferenceHolder::MethodProto(y)) => {
            &&& strings_view(x.parameter_types@) == strings_view(y.parameter_types@)
            &&& x.return_type@ == y.return_type@
        },
        _ => false,
    }
}

impl ImmutableReferenceHolder {
    /// A copy of an interface reference holder.
    pub fn from(r: &ReferenceHolder) -> (res: Self)
        ensures
            same_reference(*r, res),
    {
        match r {
            ReferenceHolder::NoReference => ImmutableReferenceHolder::NoReference,
            ReferenceHolder::String(s) => ImmutableReferenceHolder::String(
                ImmutableStringReference::from(s),
            ),
            ReferenceHolder::Type(t) => ImmutableReferenceHolder::Type(
                ImmutableTypeReference::from(t),
            ),
            ReferenceHolder::Field(f) => ImmutableReferenceHolder::Field(
                ImmutableFieldReference::from(f),
            ),
            ReferenceHolder::Method(m) => ImmutableReferenceHolder::Method(
                ImmutableMethodReference::from(m),
            ),
            ReferenceHolder::MethodProto(p) => ImmutableReferenceHolder::MethodProto(
                ImmutableMethodProtoReference::from(p),
            ),
        }
    }

    /// The same reference as an interface reference holder.
    pub fn as_holder(&self) -> (res: ReferenceHolder)
        ensures
            same_reference(res, *self),
    {
        match self {
            Self::NoReference => ReferenceHolder::NoReference,
            Self::String(s) => ReferenceHolder::String(StringReference::new(s.string.as_str())),
            Self::Type(t) => ReferenceHolder::Type(TypeReference::new(t.type_descriptor.as_str())),
            Self::Field(f) => ReferenceHolder::Field(
                FieldReference::new(
                    f.defining_class.as_str(),
                    f.field_name.as_str(),
                    f.field_type.as_str(),
                ),
            ),
            Self::Method(m) => ReferenceHolder::Method(
                MethodReference::new(
                    m.defining_class.as_str(),
                    m.method_name.as_str(),
                    clone_strings(&m.parameter_types),
                    m.return_type.as_str(),
                ),
            ),
            Self::MethodProto(p) => ReferenceHolder::MethodProto(
                MethodProtoReference::new(clone_strings(&p.parameter_types), p.return_type.as_str()),
            ),
        }
    }
}

impl Reference for ImmutableReferenceHolder {
    fn reference_type(&self) -> (res: ReferenceType)
        ensures
            res == (match self {
                ImmutableReferenceHolder::NoReference => ReferenceType::NoReference,
                ImmutableReferenceHolder::String(_) => ReferenceType::String,
                ImmutableReferenceHolder::Type(_) => ReferenceType::Type,
                ImmutableReferenceHolder::Field(_) => ReferenceType::Field,
                ImmutableReferenceHolder::Method(_) => ReferenceType::Method,
                ImmutableReferenceHolder::MethodProto(_) => ReferenceType::MethodProto,
            }),
    {
        match self {
            Self::NoReference => ReferenceType::NoReference,
            Self::String(_) => ReferenceType::String,
            Self::Type(_) => ReferenceType::Type,
            Self::Field(_) => ReferenceType::Field,
            Self::Method(_) => ReferenceType::Method,
            Self::MethodProto(_) => ReferenceType::MethodProto,
        }
    }
}

/// Whether two interface references name the same item.
pub open spec fn same_item(a: ReferenceHolder, b: ReferenceHolder) -> bool {
    match (a, b) {
        (ReferenceHolder::NoReference, ReferenceHolder::NoReference) => true,
        (ReferenceHolder::String(x), ReferenceHolder::String(y)) => x.string@ == y.string@,
        (ReferenceHolder::Type(x), ReferenceHolder::Type(y)) => x.type_descriptor@
            == y.type_descriptor@,
        (ReferenceHolder::Field(x), ReferenceHolder::Field(y)) => {
            &&& x.defining_class@ == y.defining_class@
            &&& x.field_name@ == y.field_name@
            &&& x.field_type@ == y.field_type@
        },
        (ReferenceHolder::Method(x), ReferenceHolder::Method(y)) => {
            &&& x.defining_class@ == y.defining_class@
            &&& x.method_name@ == y.method_name@
            &&& strings_view(x.parameter_types@) == strings_view(y.parameter_types@)
            &&& x.return_type@ == y.return_type@
        },
        (ReferenceHolder::MethodProto(x), ReferenceHolder::MethodProto(y)) => {
            &&& strings_view(x.parameter_types@) == strings_view(y.parameter_types@)
            &&& x.return_type@ == y.return_type@
        },
        _ => false,
    }
}

/// Converting a reference to a held one (`from`) and back (`as_holder`) gives a reference to
/// the same item.
pub proof fn lemma_reference_holder_roundtrip(
    r: ReferenceHolder,
    held: ImmutableReferenceHolder,
    back: ReferenceHolder,
)
    requires
        same_reference(r, held),
        same_reference(back, held),
    ensures
        same_item(r, back),
{
}

/// Whether two held references name the same item.
pub open spec fn same_held(a: ImmutableReferenceHolder, b: ImmutableReferenceHolder) -> bool {
    match (a, b) {
        (ImmutableReferenceHolder::NoReference, ImmutableReferenceHolder::NoReference) => true,
        (ImmutableReferenceHolder::String(x), ImmutableReferenceHolder::String(y)) => x.string@ == y.string@,
        (ImmutableReferenceHolder::Type(x), ImmutableReferenceHolder::Type(y)) => x.type_descriptor@
            == y.type_descriptor@,
        (ImmutableReferenceHolder::Field(x), ImmutableReferenceHolder::Field(y)) => {
            &&& x.defining_class@ == y.defining_class@
            &&& x.field_name@ == y.field_name@
            &&& x.field_type@ == y.field_type@
        },
        (ImmutableReferenceHolder::Method(x), ImmutableReferenceHolder::Method(y)) => {
            &&& x.defining_class@ == y.defining_class@
            &&& x.method_name@ == y.method_name@
            &&& strings_view(x.parameter_types@) == strings_view(y.parameter_types@)
            &&& x.return_type@ == y.return_type@
        },
        (ImmutableReferenceHolder::MethodProto(x), ImmutableReferenceHolder::MethodProto(y)) => {
            &&& strings_view(x.parameter_types@) == strings_view(y.parameter_types@)
            &&& x.return_type@ == y.return_type@
        },
        _ => false,
    }
}

/// A copy of a reference, naming the same item.
pub fn copy_reference(r: &ReferenceHolder) -> (res: ReferenceHolder)
    ensures
        same_item(*r, res),
{
    let held = ImmutableReferenceHolder::from(r);
    held.as_holder()
}

/// A copy of a held reference, naming the same item.
pub fn copy_held_reference(r: &ImmutableReferenceHolder) -> (res: ImmutableReferenceHolder)
    ensures
        same_held(*r, res),
{
    let holder = r.as_holder();
    ImmutableReferenceHolder::from(&holder)
}

} // verus!
