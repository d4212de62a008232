use dexlib_oxide::iface::reference::{
    FieldReference, MethodProtoReference, MethodReference, Reference, ReferenceHolder,
    ReferenceType, StringReference, TypeReference,
};
use dexlib_oxide::immutable::immutable_reference::{
    ImmutableFieldReference, ImmutableMethodReference, ImmutableReferenceHolder,
    ImmutableStringReference, ImmutableTypeReference,
};

#[test]
fn test_string_reference() {
    let r = StringReference::new("hello");
    assert_eq!(r.string(), "hello");
    assert_eq!(r.reference_type(), ReferenceType::String);
    assert!(r.as_string_reference().is_some());
    assert!(r.as_type_reference().is_none());
}

#[test]
fn test_type_reference() {
    let r = TypeReference::new("Lcom/example/MyClass;");
    assert_eq!(r.type_descriptor(), "Lcom/example/MyClass;");
    assert_eq!(r.reference_type(), ReferenceType::Type);
}

#[test]
fn test_field_reference_hash_eq() {
    let r1 = FieldReference::new("Lcom/A;", "field", "I");
    let r2 = FieldReference::new("Lcom/A;", "field", "I");
    let r3 = FieldReference::new("Lcom/B;", "field", "I");
    assert_eq!(r1, r2);
    assert_ne!(r1, r3);
    let mut map = std::collections::HashMap::new();
    map.insert(r1.clone(), 1);
    assert_eq!(map.get(&r2), Some(&1));
}

#[test]
fn test_method_reference_hash_eq() {
    let r1 = MethodReference::new("Lcom/A;", "foo", vec!["I".to_string()], "V");
    let r2 = MethodReference::new("Lcom/A;", "foo", vec!["I".to_string()], "V");
    assert_eq!(r1, r2);
    let mut map = std::collections::HashMap::new();
    map.insert(r1.clone(), 1);
    assert_eq!(map.get(&r2), Some(&1));
}

#[test]
fn test_reference_holder() {
    let h = ReferenceHolder::String(StringReference::new("test"));
    assert_eq!(h.reference_type(), ReferenceType::String);
    assert!(h.as_string_reference().is_some());
    assert!(h.as_method_reference().is_none());
}

#[test]
fn test_display() {
    let fr = FieldReference::new("Lcom/A;", "x", "I");
    assert_eq!(fr.to_string(), "Lcom/A;->x:I");
    let mr = MethodReference::new("Lcom/A;", "foo", vec!["I".to_string(), "J".to_string()], "V");
    assert_eq!(mr.to_string(), "Lcom/A;->foo(IJ)V");
}

#[test]
fn reference_texts() {
    assert_eq!(StringReference::new("hi").to_string(), "\"hi\"");
    assert_eq!(TypeReference::new("I").to_string(), "I");
    let p = MethodProtoReference::new(vec!["I".to_string(), "[J".to_string()], "V");
    assert_eq!(p.to_string(), "(I[J)V");
    assert_eq!(p.reference_type(), ReferenceType::MethodProto);
    assert_eq!(ReferenceHolder::NoReference.reference_type(), ReferenceType::NoReference);
}

#[test]
fn test_immutable_string_reference() {
    let r = ImmutableStringReference::new("hello");
    assert_eq!(r.string, "hello");
    assert_eq!(r.reference_type(), ReferenceType::String);
}

#[test]
fn immutable_reference_test_immutable_field_reference() {
    let r = ImmutableFieldReference::new("Lcom/A;", "x", "I");
    assert_eq!(r.defining_class, "Lcom/A;");
    assert_eq!(r.field_name, "x");
    assert_eq!(r.field_type, "I");
    assert_eq!(r.reference_type(), ReferenceType::Field);
}

#[test]
fn test_from_iface_reference() {
    let sr = StringReference::new("test");
    let isr = ImmutableStringReference::from(&sr);
    assert_eq!(isr.string, "test");

    let fr = FieldReference::new("Lcom/A;", "x", "I");
    let ifr = ImmutableFieldReference::from(&fr);
    assert_eq!(ifr.defining_class, "Lcom/A;");
}

#[test]
fn test_immutable_reference_holder_from_holder() {
    let holder = ReferenceHolder::String(StringReference::new("test"));
    let ih = ImmutableReferenceHolder::from(&holder);
    assert_eq!(ih.reference_type(), ReferenceType::String);
}

#[test]
fn immutable_holder_roundtrip_keeps_the_reference() {
    let holder = ReferenceHolder::Method(MethodReference::new(
        "Lcom/A;",
        "foo",
        vec!["I".to_string()],
        "V",
    ));
    let back = ImmutableReferenceHolder::from(&holder).as_holder();
    let m = back.as_method_reference().unwrap();
    assert_eq!(m.defining_class(), "Lcom/A;");
    assert_eq!(m.method_name(), "foo");
    assert_eq!(m.parameter_types(), &["I".to_string()]);
    assert_eq!(m.return_type(), "V");
    let t = ImmutableReferenceHolder::Type(ImmutableTypeReference::new("J")).as_holder();
    assert_eq!(t.as_type_reference().unwrap().type_descriptor(), "J");
    let im = ImmutableMethodReference::new("La;", "b", vec![], "V");
    assert!(im.as_method_reference().is_none());
    assert_eq!(im.reference_type(), ReferenceType::Method);
}
