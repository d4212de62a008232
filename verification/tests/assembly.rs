use dexlib_oxide::writer::memory_data_store::{DataStore, MemoryDataStore};
use std::collections::HashMap;

use dexlib_oxide::base::access_flags::AccessFlags;
use dexlib_oxide::dexbacked::dex_backed_dex_file::DexBackedDexFile;
use dexlib_oxide::dexbacked::header::read_u32_le;
use dexlib_oxide::iface::reference::{Reference, ReferenceHolder, ReferenceType};
use dexlib_oxide::immutable::immutable_class_def::ImmutableClassDef;
use dexlib_oxide::immutable::immutable_field::ImmutableField;
use dexlib_oxide::immutable::immutable_method::{ImmutableMethod, ImmutableMethodImplementation};
use dexlib_oxide::smali::smali_assembler::{
    assemble_smali, assemble_smali_files, assemble_smali_sources, pack_invoke_registers,
    parse_field_ref_string, parse_method_ref, parse_type_list_from_smali,
};
use dexlib_oxide::writer::dex_pool::{make_shorty, DexPool};
use dexlib_oxide::writer::pools::{FieldPool, MethodPool, ProtoKey, ProtoPool, StringPool, TypePool};

#[test]
fn test_string_pool_intern() {
    let mut pool = StringPool::new();
    let idx1 = pool.intern("hello");
    let idx2 = pool.intern("world");
    let idx3 = pool.intern("hello");
    assert_eq!(idx1, idx3);
    assert_ne!(idx1, idx2);
    assert_eq!(pool.count(), 2);
}

#[test]
fn test_string_pool_sorted() {
    let mut pool = StringPool::new();
    pool.intern("banana");
    pool.intern("apple");
    pool.intern("cherry");
    pool.ensure_sorted();
    let sorted: Vec<&str> = pool.iter_sorted().into_iter().map(|(_, s)| s).collect();
    assert_eq!(sorted, vec!["apple", "banana", "cherry"]);
}

#[test]
fn test_type_pool_intern() {
    let mut pool = TypePool::new(StringPool::new());
    let idx1 = pool.intern("Lcom/A;");
    let _idx2 = pool.intern("Lcom/B;");
    let idx3 = pool.intern("Lcom/A;");
    assert_eq!(idx1, idx3);
    assert_eq!(pool.count(), 2);
}

#[test]
fn test_proto_pool_intern() {
    let mut pool = ProtoPool::new();
    let idx = pool.intern("V", "V", vec!["I".to_string()]);
    assert_eq!(pool.count(), 1);
    assert_eq!(pool.get(idx).unwrap().shorty, "V");
}

#[test]
fn test_field_pool_intern() {
    let mut pool = FieldPool::new();
    pool.intern("Lcom/A;", "x", "I");
    pool.intern("Lcom/A;", "y", "I");
    assert_eq!(pool.count(), 2);
}

#[test]
fn test_method_pool_intern() {
    let mut pool = MethodPool::new();
    let proto = ProtoKey { shorty: "V".to_string(), return_type: "V".to_string(), parameters: vec![] };
    pool.intern("Lcom/A;", "foo", proto.clone());
    assert_eq!(pool.count(), 1);
}

#[test]
fn string_pool_lookups_and_sorted_positions() {
    let mut pool = StringPool::new();
    pool.intern("b");
    pool.intern("a");
    pool.intern("\u{1F600}");
    pool.intern("\u{FFFF}");
    assert_eq!(pool.get_index("a"), Some(1));
    assert_eq!(pool.get_index("zzz"), None);
    assert_eq!(pool.get(0), Some("b"));
    assert_eq!(pool.get(9), None);
    pool.ensure_sorted();
    // By UTF-16 code units the surrogate pair (0xD83D...) comes before 0xFFFF.
    let sorted: Vec<&str> = pool.iter_sorted().into_iter().map(|(_, s)| s).collect();
    assert_eq!(sorted, vec!["a", "b", "\u{1F600}", "\u{FFFF}"]);
    assert_eq!(pool.sorted_index(1), 0);
    assert_eq!(pool.sorted_index(0), 1);
    assert_eq!(pool.sorted_index(42), 42);
    pool.intern("c");
    assert_eq!(pool.count(), 5);
}

#[test]
fn pools_find_keys_by_their_texts() {
    let mut protos = ProtoPool::new();
    protos.intern("VI", "V", vec!["I".to_string()]);
    protos.intern("L", "Ljava/lang/Object;", vec![]);
    assert_eq!(protos.get_index("L", "Ljava/lang/Object;", &[]), Some(1));
    assert_eq!(protos.get_index("VI", "V", &["J".to_string()]), None);
    let mut fields = FieldPool::new();
    fields.intern("Lcom/A;", "x", "I");
    assert_eq!(fields.get_index("Lcom/A;", "x", "I"), Some(0));
    assert_eq!(fields.get_index("Lcom/A;", "x", "J"), None);
    assert_eq!(fields.get(0).unwrap().name, "x");
    let mut methods = MethodPool::new();
    let proto = ProtoKey { shorty: "V".to_string(), return_type: "V".to_string(), parameters: vec![] };
    assert_eq!(methods.intern("Lcom/A;", "f", proto.clone()), 0);
    assert_eq!(methods.intern("Lcom/A;", "g", proto.clone()), 1);
    assert_eq!(methods.intern("Lcom/A;", "f", proto.clone()), 0);
    assert_eq!(methods.get_index("Lcom/A;", "g", &proto), Some(1));
    assert_eq!(make_shorty("V", &["I".to_string(), "[J".to_string(), "Lcom/A;".to_string()]), "VILL");
}

#[test]
fn test_dex_pool_new() {
    let pool = DexPool::new();
    assert_eq!(pool.string_pool.count(), 0);
    assert_eq!(pool.type_pool.count(), 0);
    assert_eq!(pool.class_pool.count(), 0);
}

#[test]
fn test_dex_pool_intern_class() {
    let mut pool = DexPool::new();
    let class = ImmutableClassDef::new("Lcom/A;", AccessFlags::ACC_PUBLIC());
    pool.intern_class(&class);
    assert!(pool.string_pool.get_index("Lcom/A;").is_some());
    assert!(pool.type_pool.get_index("Lcom/A;").is_some());
    assert_eq!(pool.class_pool.count(), 1);
}

#[test]
fn test_dex_pool_write_empty() {
    let pool = DexPool::new();
    let result = pool.to_bytes();
    assert!(result.is_ok());
    let bytes = result.unwrap();
    assert!(bytes.len() >= 0x70);
    assert_eq!(&bytes[0..4], b"dex\n");
}

#[test]
fn dex_pool_header_records_counts_and_offsets() {
    let mut pool = DexPool::new();
    let mut class = ImmutableClassDef::new("Lcom/A;", AccessFlags::ACC_PUBLIC());
    class.superclass = Some("Ljava/lang/Object;".to_string());
    class.static_fields.push(ImmutableField::new("Lcom/A;", "x", "I", AccessFlags::ACC_STATIC()));
    let mut m = ImmutableMethod::new("Lcom/A;", "f", vec!["I".to_string()], "V", AccessFlags::ACC_STATIC());
    m.implementation = Some(ImmutableMethodImplementation {
        register_count: 1,
        instructions: vec![],
        try_blocks: vec![],
        debug_items: vec![],
    });
    class.direct_methods.push(m);
    pool.intern_class(&class);
    // strings: Lcom/A;, Ljava/lang/Object;, x, I, f, V
    assert_eq!(pool.string_pool.count(), 6);
    assert_eq!(pool.type_pool.count(), 4);
    assert_eq!(pool.proto_pool.count(), 1);
    assert_eq!(pool.field_pool.count(), 1);
    assert_eq!(pool.method_pool.count(), 1);
    let entry = pool.class_pool.get(0).unwrap();
    assert_eq!(entry.superclass_idx, Some(1));
    assert_eq!(entry.direct_methods[0].proto.shorty, "VI");
    let bytes = pool.to_bytes().unwrap();
    assert_eq!(&bytes[0..8], b"dex\n035\0");
    let u32_at = |o: usize| read_u32_le(&bytes, o);
    let data_start = 0x70 + 4 * 6 + 4 * 4 + 12 + 8 + 8 + 32;
    assert_eq!(u32_at(0x20) as usize, bytes.len());
    assert_eq!(u32_at(0x68) as usize, bytes.len() - data_start as usize);
    assert_eq!(u32_at(0x24), 0x70);
    assert_eq!(u32_at(0x28), 0x12345678);
    assert_eq!(u32_at(0x38), 6);
    assert_eq!(u32_at(0x3C), 0x70);
    assert_eq!(u32_at(0x40), 4);
    assert_eq!(u32_at(0x44), 0x70 + 24);
    assert_eq!(u32_at(0x60), 1);
    assert_eq!(u32_at(0x64), data_start - 32);
    assert_eq!(u32_at(0x6C), data_start);
    // The first string id points at the data of "Lcom/A;": its UTF-16 length, then its bytes.
    let first = u32_at(0x70) as usize;
    assert_eq!(first, data_start as usize);
    assert_eq!(bytes[first], 7);
    assert_eq!(&bytes[first + 1..first + 8], b"Lcom/A;");
}

#[test]
fn test_immutable_class_def() {
    let cd = ImmutableClassDef::new("Lcom/A;", AccessFlags::ACC_PUBLIC());
    assert_eq!(cd.type_descriptor(), "Lcom/A;");
    assert!(cd.access_flags().contains(AccessFlags::ACC_PUBLIC()));
    assert!(cd.superclass().is_none());
    assert!(cd.interfaces().is_empty());
    assert!(cd.source_file().is_none());
    assert!(cd.static_fields().is_empty());
    assert!(cd.instance_fields().is_empty());
    assert!(cd.direct_methods().is_empty());
    assert!(cd.virtual_methods().is_empty());
}

#[test]
fn test_immutable_class_def_with_superclass() {
    let mut cd = ImmutableClassDef::new("Lcom/B;", AccessFlags::ACC_PUBLIC());
    cd.superclass = Some("Lcom/A;".to_string());
    assert_eq!(cd.superclass(), Some("Lcom/A;"));
}

#[test]
fn class_def_find_method_searches_direct_then_virtual() {
    let mut cd = ImmutableClassDef::new("Lcom/B;", AccessFlags::ACC_PUBLIC());
    cd.virtual_methods.push(ImmutableMethod::new("Lcom/B;", "run", vec![], "V", AccessFlags::ACC_PUBLIC()));
    cd.direct_methods.push(ImmutableMethod::new("Lcom/B;", "run", vec![], "I", AccessFlags::ACC_STATIC()));
    assert_eq!(cd.find_method("run", "").unwrap().return_type(), "I");
    assert!(cd.find_method("stop", "").is_none());
}

#[test]
fn test_immutable_field() {
    let f = ImmutableField::new("Lcom/A;", "x", "I", AccessFlags::ACC_PUBLIC() | AccessFlags::ACC_STATIC());
    assert_eq!(f.defining_class(), "Lcom/A;");
    assert_eq!(f.name(), "x");
    assert_eq!(f.field_type(), "I");
    assert!(f.access_flags().contains(AccessFlags::ACC_PUBLIC()));
    assert!(f.access_flags().contains(AccessFlags::ACC_STATIC()));
}

#[test]
fn immutable_field_test_immutable_field_reference() {
    let f = ImmutableField::new("Lcom/A;", "x", "I", AccessFlags::ACC_PUBLIC());
    let r = f.to_field_reference();
    assert_eq!(r.defining_class(), "Lcom/A;");
    assert_eq!(r.field_name(), "x");
}

#[test]
fn test_immutable_method() {
    let m = ImmutableMethod::new(
        "Lcom/A;",
        "foo",
        vec!["I".to_string()],
        "V",
        AccessFlags::ACC_PUBLIC() | AccessFlags::ACC_STATIC(),
    );
    assert_eq!(m.defining_class(), "Lcom/A;");
    assert_eq!(m.name(), "foo");
    assert_eq!(m.parameter_types(), &["I".to_string()]);
    assert_eq!(m.return_type(), "V");
    assert!(m.access_flags().contains(AccessFlags::ACC_PUBLIC()));
    assert!(m.implementation().is_none());
}

#[test]
fn test_immutable_method_reference() {
    let m = ImmutableMethod::new("Lcom/A;", "foo", vec!["I".to_string()], "V", AccessFlags::ACC_PUBLIC());
    let r = m.to_method_reference();
    assert_eq!(r.defining_class(), "Lcom/A;");
    assert_eq!(r.method_name(), "foo");
}

#[test]
fn test_assemble_simple_smali() {
    let smali = r#"
.class public Lcom/test/Hello;
.super Ljava/lang/Object;

.method public static main()V
    .registers 1
    const-string v0, "Hello World"
    return-void
.end method
"#;
    let result = assemble_smali(smali);
    assert!(result.is_ok());
    let bytes = result.unwrap();
    assert!(bytes.len() >= 0x70);
    assert_eq!(&bytes[0..4], b"dex\n");
}

#[test]
fn test_assemble_with_invoke() {
    let smali = r#"
.class public Lcom/test/Hello;
.super Ljava/lang/Object;

.method public static foo()V
    .registers 2
    invoke-static {}, Lcom/Helper;->doStuff()V
    return-void
.end method
"#;
    let result = assemble_smali(smali);
    assert!(result.is_ok());
}

#[test]
fn test_assemble_smali_files() {
    let mut files = HashMap::new();
    files.insert(
        "Hello.smali".to_string(),
        r#"
.class public Lcom/test/Hello;
.super Ljava/lang/Object;

.method public static main()V
    .registers 1
    const-string v0, "Hello"
    return-void
.end method
"#
        .to_string(),
    );

    let result = assemble_smali_files(&files);
    assert!(result.is_ok());
}

#[test]
fn assemble_reports_parse_errors() {
    let bad = ".class Lcom/A;\n.method f()V\n    return vx\n.end method\n";
    assert_eq!(assemble_smali(bad).unwrap_err(), "Smali parse error at line 2: Invalid register: vx");
    let files = vec![("A.smali".to_string(), bad.to_string())];
    assert_eq!(
        assemble_smali_sources(&files).unwrap_err(),
        "A.smali: Smali parse error at line 2: Invalid register: vx"
    );
}

#[test]
fn test_parse_method_ref() {
    let ref_holder = parse_method_ref("Lcom/A;->foo(ILjava/lang/String;)V");
    assert_eq!(ref_holder.reference_type(), ReferenceType::Method);
}

#[test]
fn test_parse_field_ref_string() {
    let (class, name, ftype) = parse_field_ref_string("Lcom/A;->x:I");
    assert_eq!(class, "Lcom/A;");
    assert_eq!(name, "x");
    assert_eq!(ftype, "I");
}

#[test]
fn method_ref_parts_and_register_packing() {
    match parse_method_ref("Lcom/A;->foo(I[JLjava/lang/String;)Z") {
        ReferenceHolder::Method(m) => {
            assert_eq!(m.defining_class, "Lcom/A;");
            assert_eq!(m.method_name, "foo");
            assert_eq!(m.parameter_types, vec!["I", "[J", "Ljava/lang/String;"]);
            assert_eq!(m.return_type, "Z");
        }
        _ => panic!("Expected a method reference"),
    }
    // Without an arrow the class is empty and the first two bytes are skipped.
    let (class, name, ftype) = parse_field_ref_string("ab:x:I");
    assert_eq!(class, "");
    assert_eq!(name, "");
    assert_eq!(ftype, "x:I");
    assert_eq!(parse_type_list_from_smali("ZB"), vec!["Z", "B"]);
    assert_eq!(pack_invoke_registers(&[3, 4]), (3, 4, 0, 0, 0));
    assert_eq!(pack_invoke_registers(&[1, 2, 3, 4, 5, 6]), (1, 2, 3, 4, 5));
}

#[test]
fn test_smali_assemble_and_reparse() {
    let smali = r#"
.class public Lcom/test/SmaliTest;
.super Ljava/lang/Object;

.method public static hookSignature(Ljava/lang/String;I)V
    .registers 4
    const-string v0, "Hooked: "
    invoke-static {v0}, Lcom/Helper;->log(Ljava/lang/String;)V
    const v1, 0x10
    add-int/lit8 v2, v1, 0x5
    return-void
.end method

.method public doSomething()V
    .registers 2
    const-string v0, "Doing something"
    invoke-static {v0}, Lcom/Logger;->log(Ljava/lang/String;)V
    return-void
.end method
"#;

    let result = assemble_smali(smali);
    assert!(result.is_ok(), "Smali assembly should succeed");
    let dex_bytes = result.unwrap();
    assert!(dex_bytes.len() >= 0x70);
    assert_eq!(&dex_bytes[0..4], b"dex\n");

    let reparsed = DexBackedDexFile::from_bytes(dex_bytes.clone()).expect("Should re-parse assembled DEX");

    let classes = reparsed.parse_classes();
    assert_eq!(classes.len(), 1);
    assert_eq!(classes[0].type_descriptor, "Lcom/test/SmaliTest;");
    assert_eq!(classes[0].superclass.as_deref(), Some("Ljava/lang/Object;"));

    assert_eq!(classes[0].direct_methods.len(), 1);
    assert_eq!(classes[0].virtual_methods.len(), 1);

    let direct_method = &classes[0].direct_methods[0];
    assert_eq!(direct_method.name, "hookSignature");
    assert_eq!(direct_method.return_type, "V");
    assert_eq!(direct_method.parameter_types.len(), 2);
    assert!(direct_method.implementation.is_some());

    let virtual_method = &classes[0].virtual_methods[0];
    assert_eq!(virtual_method.name, "doSomething");
    assert!(virtual_method.implementation.is_some());
}

#[test]
fn written_pool_reads_back_strings_types_and_class_headers() {
    let mut pool = DexPool::new();
    let mut class_def = ImmutableClassDef::new("Lcom/A;", AccessFlags::ACC_PUBLIC());
    class_def.superclass = Some("Ljava/lang/Object;".to_string());
    class_def.source_file = Some("A.java".to_string());
    class_def.interfaces.push("Ljava/lang/Runnable;".to_string());
    pool.intern_class(&class_def);
    let bytes = pool.to_bytes().unwrap();
    let file = DexBackedDexFile::from_bytes(bytes).unwrap();

    let n = pool.string_pool.count();
    assert_eq!(file.string_count(), n);
    for i in 0..n {
        assert_eq!(file.get_string(i).as_deref(), pool.string_pool.get(i));
    }
    let nt = pool.type_pool.count();
    assert_eq!(file.type_count(), nt);
    for j in 0..nt {
        assert_eq!(file.get_type_descriptor(j).as_deref(), pool.type_pool.get(j));
    }
    assert_eq!(file.class_count(), 1);
    let classes = file.parse_classes();
    assert_eq!(classes[0].type_descriptor, "Lcom/A;");
    assert_eq!(classes[0].access_flags, AccessFlags::ACC_PUBLIC());
    assert_eq!(classes[0].superclass.as_deref(), Some("Ljava/lang/Object;"));
    assert_eq!(classes[0].source_file.as_deref(), Some("A.java"));
    assert_eq!(classes[0].interfaces, vec!["Ljava/lang/Runnable;".to_string()]);
}

#[test]
fn written_pool_reads_back_fields_and_methods() {
    let mut pool = DexPool::new();
    let mut class_def = ImmutableClassDef::new("Lcom/A;", AccessFlags::ACC_PUBLIC());
    class_def.superclass = Some("Ljava/lang/Object;".to_string());
    class_def.static_fields.push(ImmutableField::new("Lcom/A;", "count", "I", AccessFlags::ACC_STATIC()));
    class_def.instance_fields.push(ImmutableField::new("Lcom/A;", "name", "Ljava/lang/String;", AccessFlags::ACC_PRIVATE()));
    let mut m = ImmutableMethod::new(
        "Lcom/A;",
        "run",
        vec!["I".to_string(), "Ljava/lang/String;".to_string()],
        "Z",
        AccessFlags::ACC_PUBLIC(),
    );
    m.implementation = Some(ImmutableMethodImplementation {
        register_count: 3,
        instructions: vec![],
        try_blocks: vec![],
        debug_items: vec![],
    });
    class_def.virtual_methods.push(m);
    class_def.direct_methods.push(ImmutableMethod::new("Lcom/A;", "<init>", vec![], "V", AccessFlags::ACC_PUBLIC()));
    pool.intern_class(&class_def);
    let bytes = pool.to_bytes().unwrap();
    let file = DexBackedDexFile::from_bytes(bytes).unwrap();

    assert_eq!(file.field_count(), 2);
    let mut fields: Vec<(String, String, String)> = (0..file.field_count()).map(|i| file.get_field_reference(i).unwrap()).collect();
    fields.sort();
    assert_eq!(fields[0], ("Lcom/A;".to_string(), "count".to_string(), "I".to_string()));
    assert_eq!(fields[1], ("Lcom/A;".to_string(), "name".to_string(), "Ljava/lang/String;".to_string()));

    assert_eq!(file.method_count(), 2);
    let mut found_run = false;
    for i in 0..file.method_count() {
        let (class, name, params, ret) = file.get_method_reference(i).unwrap();
        assert_eq!(class, "Lcom/A;");
        if name == "run" {
            found_run = true;
            assert_eq!(params, vec!["I".to_string(), "Ljava/lang/String;".to_string()]);
            assert_eq!(ret, "Z");
        } else {
            assert_eq!(name, "<init>");
            assert!(params.is_empty());
            assert_eq!(ret, "V");
        }
    }
    assert!(found_run);
}

fn read_uleb(bytes: &[u8], at: &mut usize) -> u32 {
    let mut value: u32 = 0;
    let mut shift = 0;
    loop {
        let b = bytes[*at];
        *at += 1;
        value |= ((b & 0x7f) as u32) << shift;
        if b & 0x80 == 0 {
            return value;
        }
        shift += 7;
    }
}

#[test]
fn class_data_and_code_item_are_written() {
    let smali = r#"
.class public Lcom/test/Hello;
.super Ljava/lang/Object;

.method public static main()V
    .registers 1
    return-void
.end method
"#;
    let bytes = assemble_smali(smali).unwrap();
    let class_defs_off = read_u32_le(&bytes, 0x64) as usize;
    let class_data_off = read_u32_le(&bytes, class_defs_off + 24) as usize;
    let mut at = class_data_off;
    let counts: Vec<u32> = (0..4).map(|_| read_uleb(&bytes, &mut at)).collect();
    assert_eq!(counts, vec![0, 0, 1, 0]);
    assert_eq!(read_uleb(&bytes, &mut at), 0);
    assert_eq!(read_uleb(&bytes, &mut at), 0x9);
    let code_off = read_uleb(&bytes, &mut at) as usize;
    assert_eq!(code_off % 4, 0);
    assert!(code_off < class_data_off);
    let expected: Vec<u8> = vec![1, 0, 0, 0, 0, 0, 0, 0, 0, 0, 0, 0, 1, 0, 0, 0, 0x0e, 0, 0, 0];
    assert_eq!(&bytes[code_off..code_off + 20], &expected[..]);
}

#[test]
fn write_to_records_the_whole_file_size() {
    let mut pool = DexPool::new();
    pool.intern_class(&ImmutableClassDef::new("Lcom/A;", AccessFlags::ACC_PUBLIC()));
    let mut store = MemoryDataStore::new();
    let n = pool.write_to(&mut store).unwrap();
    assert_eq!(n, store.size());
    assert_eq!(read_u32_le(store.get_buffer(), 32), n);
    assert_eq!(n, 161);
}
