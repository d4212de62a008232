use vstd::prelude::*;
use vstd::std_specs::cmp::PartialEqSpecImpl;
use vstd::std_specs::cmp::PartialEqSpec;
use crate::immutable::immutable_class_def::str_equal;

verus! {

/// The text of each string, in order.
pub open spec fn strings_view(v: Seq<String>) -> Seq<Seq<char>> {
    v.map_values(|s: String| s@)
}

/// All the strings of `parts` one after the other.
pub open spec fn concat_strings(parts: Seq<Seq<char>>) -> Seq<char>
    decreases parts.len(),
{
    if parts.len() == 0 {
        Seq::empty()
    } else {
        concat_strings(parts.drop_last()) + parts.last()
    }
}

/// A copy of a list of strings.
pub fn clone_strings(v: &Vec<String>) -> (res: Vec<String>)
    ensures
        strings_view(res@) == strings_view(v@),
{
    let mut res: Vec<String> = Vec::new();
    let mut i: usize = 0;
    while i < v.len()
        invariant
            i <= v.len(),
            res@.len() == i,
            forall|k: int| 0 <= k < i ==> #[trigger] res@[k]@ == v@[k]@,
        decreases v.len() - i,
    {
        let item = v[i].clone();
        res.push(item);
        i += 1;
    }
    assert(strings_view(res@) =~= strings_view(v@));
    res
}

/// Appends all of `parts` to `out`, one after the other.
pub fn append_all(out: &mut String, parts: &[String])
    ensures
        final(out)@ == old(out)@ + concat_strings(strings_view(parts@)),
{
    let mut i: usize = 0;
    while i < parts.len()
        invariant
            i <= parts.len(),
            out@ == old(out)@ + concat_strings(strings_view(parts@).take(i as int)),
        decreases parts.len() - i,
    {
        let ghost before = out@;
        out.append(parts[i].as_str());
        proof {
            let v = strings_view(parts@);
            assert(v.take(i + 1).drop_last() =~= v.take(i as int));
            assert(v.take(i + 1).last() == parts@[i as int]@);
            assert(out@ =~= old(out)@ + concat_strings(v.take(i + 1)));
        }
        i += 1;
    }
    assert(strings_view(parts@).take(parts.len() as int) =~= strings_view(parts@));
}

/// What a reference names.
#[derive(Debug, Clone, Copy, PartialEq, Eq, Structural, Hash)]
pub enum ReferenceType {
    NoReference,
    String,
    Type,
    Field,
    Method,
    MethodProto,
    CallSite,
    MethodHandle,
}

/// The common interface of references: which kind of item they name, and a view of them as
/// that kind.
pub trait Reference {
    fn as_string_reference(&self) -> Option<&StringReference> {
        None
    }

    fn as_type_reference(&self) -> Option<&TypeReference> {
        None
    }

    fn as_field_reference(&self) -> Option<&FieldReference> {
        None
    }

    fn as_method_reference(&self) -> Option<&MethodReference> {
        None
    }

    fn as_method_proto_reference(&self) -> Option<&MethodProtoReference> {
        None
    }

    fn reference_type(&self) -> ReferenceType;
}

/// A reference to a string constant.
#[derive(Debug, Clone, PartialEq, Eq, Hash)]
pub struct StringReference {
    pub string: String,
}

impl StringReference {
    pub fn new(string: &str) -> (res: Self)
        ensures
            res.string@ == string@,
    {
        StringReference { string: string.to_owned() }
    }

    pub fn string(&self) -> (res: &str)
        ensures
            res@ == self.string@,
    {
        self.string.as_str()
    }

    /// The string in double quotes.
    pub fn to_string(&self) -> (res: String)
        ensures
            res@ == seq!['"'] + self.string@ + seq!['"'],
    {
        let mut res = String::new();
        crate::base::mutf8::string_push(&mut res, '"');
        res.append(self.string.as_str());
        crate::base::mutf8::string_push(&mut res, '"');
        assert(res@ =~= seq!['"'] + self.string@ + seq!['"']);
        res
    }
}

impl Reference for StringReference {
    fn as_string_reference(&self) -> (res: Option<&StringReference>)
        ensures
            res == Some(self),
    {
        Some(self)
    }

    fn reference_type(&self) -> (res: ReferenceType)
        ensures
            res == ReferenceType::String,
    {
        ReferenceType::String
    }
}

/// A reference to a type, by its descriptor.
#[derive(Debug, Clone, PartialEq, Eq, Hash)]
pub struct TypeReference {
    pub type_descriptor: String,
}

impl TypeReference {
    pub fn new(type_descriptor: &str) -> (res: Self)
        ensures
            res.type_descriptor@ == type_descriptor@,
    {
        TypeReference { type_descriptor: type_descriptor.to_owned() }
    }

    pub fn type_descriptor(&self) -> (res: &str)
        ensures
            res@ == self.type_descriptor@,
    {
        self.type_descriptor.as_str()
    }

    /// The descriptor.
    pub fn to_string(&self) -> (res: String)
        ensures
            res@ == self.type_descriptor@,
    {
        self.type_descriptor.clone()
    }
}

impl Reference for TypeReference {
    fn as_type_reference(&self) -> (res: Option<&TypeReference>)
        ensures
            res == Some(self),
    {
        Some(self)
    }

    fn reference_type(&self) -> (res: ReferenceType)
        ensures
            res == ReferenceType::Type,
    {
        ReferenceType::Type
    }
}

/// A reference to a field: its class, name and type.
#[derive(Debug, Clone, Eq, Hash)]
pub struct FieldReference {
    pub defining_class: String,
    pub field_name: String,
    pub field_type: String,
}

/// Two field references are equal when their classes, names and types are.
impl PartialEq for FieldReference {
    fn eq(&self, other: &Self) -> (res: bool) {
        str_equal(self.defining_class.as_str(), other.defining_class.as_str()) && str_equal(
            self.field_name.as_str(),
            other.field_name.as_str(),
        ) && str_equal(self.field_type.as_str(), other.field_type.as_str())
    }
}

impl PartialEqSpecImpl for FieldReference {
    open spec fn obeys_eq_spec() -> bool {
        true
    }

    open spec fn eq_spec(&self, other: &Self) -> bool {
        &&& self.defining_class@ == other.defining_class@
        &&& self.field_name@ == other.field_name@
        &&& self.field_type@ == other.field_type@
    }
}

/// Two field references are equal exactly when their defining classes, names and types are.
pub proof fn lemma_field_reference_eq(a: FieldReference, b: FieldReference)
    ensures
        PartialEqSpec::eq_spec(&a, &b) <==> (a.defining_class@ == b.defining_class@ && a.field_name@ == b.field_name@
            && a.field_type@ == b.field_type@),
{
}

impl FieldReference {
    pub fn new(defining_class: &str, field_name: &str, field_type: &str) -> (res: Self)
        ensures
            res.defining_class@ == defining_class@,
            res.field_name@ == field_name@,
            res.field_type@ == field_type@,
    {
        FieldReference {
            defining_class: defining_class.to_owned(),
            field_name: field_name.to_owned(),
            field_type: field_type.to_owned(),
        }
    }

    pub fn defining_class(&self) -> (res: &str)
        ensures
            res@ == self.defining_class@,
    {
        self.defining_class.as_str()
    }

    pub fn field_name(&self) -> (res: &str)
        ensures
            res@ == self.field_name@,
    {
        self.field_name.as_str()
    }

    pub fn field_type(&self) -> (res: &str)
        ensures
            res@ == self.field_type@,
    {
        self.field_type.as_str()
    }

    /// `class->name:type`, as smali writes a field.
    pub fn to_string(&self) -> (res: String)
        ensures
            res@ == self.defining_class@ + seq!['-', '>'] + self.field_name@ + seq![':']
                + self.field_type@,
    {
        let mut res = self.defining_class.clone();
        crate::base::mutf8::string_push(&mut res, '-');
        crate::base::mutf8::string_push(&mut res, '>');
        res.append(self.field_name.as_str());
        crate::base::mutf8::string_push(&mut res, ':');
        res.append(self.field_type.as_str());
        assert(res@ =~= self.defining_class@ + seq!['-', '>'] + self.field_name@ + seq![':']
            + self.field_type@);
        res
    }
}

impl Reference for FieldReference {
    fn as_field_reference(&self) -> (res: Option<&FieldReference>)
        ensures
            res == Some(self),
    {
        Some(self)
    }

    fn reference_type(&self) -> (res: ReferenceType)
        ensures
            res == ReferenceType::Field,
    {
        ReferenceType::Field
    }
}

/// A reference to a method: its class, name, parameter types and return type.
#[derive(Debug, Clone, PartialEq, Eq, Hash)]
pub struct MethodReference {
    pub defining_class: String,
    pub method_name: String,
    pub parameter_types: Vec<String>,
    pub return_type: String,
}

impl MethodReference {
    pub fn new(
        defining_class: &str,
        method_name: &str,
        parameter_types: Vec<String>,
        return_type: &str,
    ) -> (res: Self)
        ensures
            res.defining_class@ == defining_class@,
            res.method_name@ == method_name@,
            res.parameter_types == parameter_types,
            res.return_type@ == return_type@,
    {
        MethodReference {
            defining_class: defining_class.to_owned(),
            method_name: method_name.to_owned(),
            parameter_types,
            return_type: return_type.to_owned(),
        }
    }

    pub fn defining_class(&self) -> (res: &str)
        ensures
            res@ == self.defining_class@,
    {
        self.defining_class.as_str()
    }

    pub fn method_name(&self) -> (res: &str)
        ensures
            res@ == self.method_name@,
    {
        self.method_name.as_str()
    }

    pub fn parameter_types(&self) -> (res: &[String])
        ensures
            res@ == self.parameter_types@,
    {
        self.parameter_types.as_slice()
    }

    pub fn return_type(&self) -> (res: &str)
        ensures
            res@ == self.return_type@,
    {
        self.return_type.as_str()
    }

    /// `class->name(parameters)return`, as smali writes a method.
    pub fn to_string(&self) -> (res: String)
        ensures
            res@ == self.defining_class@ + seq!['-', '>'] + self.method_name@ + seq!['(']
                + concat_strings(strings_view(self.parameter_types@)) + seq![')']
                + self.return_type@,
    {
        let mut res = self.defining_class.clone();
        crate::base::mutf8::string_push(&mut res, '-');
        crate::base::mutf8::string_push(&mut res, '>');
        res.append(self.method_name.as_str());
        crate::base::mutf8::string_push(&mut res, '(');
        append_all(&mut res, self.parameter_types.as_slice());
        crate::base::mutf8::string_push(&mut res, ')');
        res.append(self.return_type.as_str());
        assert(res@ =~= self.defining_class@ + seq!['-', '>'] + self.method_name@ + seq!['(']
            + concat_strings(strings_view(self.parameter_types@)) + seq![')']
            + self.return_type@);
        res
    }
}

impl Reference for MethodReference {
    fn as_method_reference(&self) -> (res: Option<&MethodReference>)
        ensures
            res == Some(self),
    {
        Some(self)
    }

    fn reference_type(&self) -> (res: ReferenceType)
        ensures
            res == ReferenceType::Method,
    {
        ReferenceType::Method
    }
}

/// A reference to a method prototype: parameter types and return type.
#[derive(Debug, Clone, PartialEq, Eq, Hash)]
pub struct MethodProtoReference {
    pub parameter_types: Vec<String>,
    pub return_type: String,
}

impl MethodProtoReference {
    pub fn new(parameter_types: Vec<String>, return_type: &str) -> (res: Self)
        ensures
            res.parameter_types == parameter_types,
            res.return_type@ == return_type@,
    {
        MethodProtoReference { parameter_types, return_type: return_type.to_owned() }
    }

    pub fn parameter_types(&self) -> (res: &[String])
        ensures
            res@ == self.parameter_types@,
    {
        self.parameter_types.as_slice()
    }

    pub fn return_type(&self) -> (res: &str)
        ensures
            res@ == self.return_type@,
    {
        self.return_type.as_str()
    }

    /// `(parameters)return`, as smali writes a prototype.
    pub fn to_string(&self) -> (res: String)
        ensures
            res@ == seq!['('] + concat_strings(strings_view(self.parameter_types@)) + seq![')']
                + self.return_type@,
    {
        let mut res = String::new();
        crate::base::mutf8::string_push(&mut res, '(');
        append_all(&mut res, self.parameter_types.as_slice());
        crate::base::mutf8::string_push(&mut res, ')');
        res.append(self.return_type.as_str());
        assert(res@ =~= seq!['('] + concat_strings(strings_view(self.parameter_types@)) + seq![
            ')',
        ] + self.return_type@);
        res
    }
}

impl Reference for MethodProtoReference {
    fn as_method_proto_reference(&self) -> (res: Option<&MethodProtoReference>)
        ensures
            res == Some(self),
    {
        Some(self)
    }

    fn reference_type(&self) -> (res: ReferenceType)
        ensures
            res == ReferenceType::MethodProto,
    {
        ReferenceType::MethodProto
    }
}

/// Any one reference, or none.
#[derive(Debug, Clone)]
pub enum ReferenceHolder {
    NoReference,
    String(StringReference),
    Type(TypeReference),
    Field(FieldReference),
    Method(MethodReference),
    MethodProto(MethodProtoReference),
}

impl Reference for ReferenceHolder {
    fn as_string_reference(&self) -> (res: Option<&StringReference>)
        ensures
            res == (match self {
                ReferenceHolder::String(r) => Some(r),
                _ => None,
            }),
    {
        match self {
            ReferenceHolder::String(r) => Some(r),
            _ => None,
        }
    }

    fn as_type_reference(&self) -> (res: Option<&TypeReference>)
        ensures
            res == (match self {
                ReferenceHolder::Type(r) => Some(r),
                _ => None,
            }),
    {
        match self {
            ReferenceHolder::Type(r) => Some(r),
            _ => None,
        }
    }

    fn as_field_reference(&self) -> (res: Option<&FieldReference>)
        ensures
            res == (match self {
                ReferenceHolder::Field(r) => Some(r),
                _ => None,
            }),
    {
        match self {
            ReferenceHolder::Field(r) => Some(r),
            _ => None,
        }
    }

    fn as_method_reference(&self) -> (res: Option<&MethodReference>)
        ensures
            res == (match self {
                ReferenceHolder::Method(r) => Some(r),
                _ => None,
            }),
    {
        match self {
            ReferenceHolder::Method(r) => Some(r),
            _ => None,
        }
    }

    fn as_method_proto_reference(&self) -> (res: Option<&MethodProtoReference>)
        ensures
            res == (match self {
                ReferenceHolder::MethodProto(r) => Some(r),
                _ => None,
            }),
    {
        match self {
            ReferenceHolder::MethodProto(r) => Some(r),
            _ => None,
        }
    }

    fn reference_type(&self) -> (res: ReferenceType)
        ensures
            res == (match self {
                ReferenceHolder::NoReference => ReferenceType::NoReference,
                ReferenceHolder::String(_) => ReferenceType::String,
                ReferenceHolder::Type(_) => ReferenceType::Type,
                ReferenceHolder::Field(_) => ReferenceType::Field,
                ReferenceHolder::Method(_) => ReferenceType::Method,
                ReferenceHolder::MethodProto(_) => ReferenceType::MethodProto,
            }),
    {
        match self {
            ReferenceHolder::NoReference => ReferenceType::NoReference,
            ReferenceHolder::String(_) => ReferenceType::String,
            ReferenceHolder::Type(_) => ReferenceType::Type,
            ReferenceHolder::Field(_) => ReferenceType::Field,
            ReferenceHolder::Method(_) => ReferenceType::Method,
            ReferenceHolder::MethodProto(_) => ReferenceType::MethodProto,
        }
    }
}

} // verus!
