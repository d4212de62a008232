use dexlib_oxide::base::access_flags::AccessFlags;
use dexlib_oxide::smali::smali_parser::{parse_method_signature, parse_type_list};
use dexlib_oxide::smali::{parse_smali, SmaliInstruction};

#[test]
fn test_parse_simple_class() {
    let smali = r#"
.class public Lcom/test/HelloWorld;
.super Ljava/lang/Object;

.method public static main()V
    .registers 2
    const-string v0, "Hello"
    return-void
.end method
"#;
    let class = parse_smali(smali).unwrap();
    assert_eq!(class.type_descriptor, "Lcom/test/HelloWorld;");
    assert_eq!(class.superclass, Some("Ljava/lang/Object;".to_string()));
    assert!(class.access_flags.contains(AccessFlags::ACC_PUBLIC()));
    assert_eq!(class.methods.len(), 1);
    assert_eq!(class.methods[0].name, "main");
    assert_eq!(class.methods[0].register_count, 2);
    assert_eq!(class.methods[0].instructions.len(), 2);
}

#[test]
fn test_parse_const_string() {
    let smali = r#"
.class public Lcom/Test;
.super Ljava/lang/Object;

.method public foo()V
    .registers 1
    const-string v0, "hooked"
    return-void
.end method
"#;
    let class = parse_smali(smali).unwrap();
    let instr = &class.methods[0].instructions[0];
    match instr {
        SmaliInstruction::ConstString { register, value } => {
            assert_eq!(*register, 0);
            assert_eq!(value, "hooked");
        }
        _ => panic!("Expected ConstString instruction"),
    }
}

#[test]
fn test_parse_invoke_static() {
    let smali = r#"
.class public Lcom/Test;
.super Ljava/lang/Object;

.method public foo()V
    .registers 2
    invoke-static {}, Lcom/Helper;->doStuff()V
    return-void
.end method
"#;
    let class = parse_smali(smali).unwrap();
    let instr = &class.methods[0].instructions[0];
    match instr {
        SmaliInstruction::InvokeStatic { method_ref, registers } => {
            assert_eq!(method_ref, "Lcom/Helper;->doStuff()V");
            assert!(registers.is_empty());
        }
        _ => panic!("Expected InvokeStatic instruction"),
    }
}

#[test]
fn test_parse_field() {
    let smali = r#"
.class public Lcom/Test;
.super Ljava/lang/Object;

.field public static NAME:Ljava/lang/String;
"#;
    let class = parse_smali(smali).unwrap();
    assert_eq!(class.fields.len(), 1);
    assert_eq!(class.fields[0].name, "NAME");
    assert_eq!(class.fields[0].field_type, "Ljava/lang/String;");
}

#[test]
fn test_parse_method_signature() {
    let (name, ret, params) = parse_method_signature("hookSignature()V").unwrap();
    assert_eq!(name, "hookSignature");
    assert_eq!(ret, "V");
    assert!(params.is_empty());

    let (name, ret, params) = parse_method_signature("foo(IJLjava/lang/String;)V").unwrap();
    assert_eq!(name, "foo");
    assert_eq!(ret, "V");
    assert_eq!(params, vec!["I", "J", "Ljava/lang/String;"]);
}

#[test]
fn test_parse_implements() {
    let smali = r#"
.class public Lcom/Test;
.super Ljava/lang/Object;
.implements Ljava/io/Serializable;
"#;
    let class = parse_smali(smali).unwrap();
    assert_eq!(class.interfaces, vec!["Ljava/io/Serializable;"]);
}

#[test]
fn smali_method_signature_without_parentheses_is_refused() {
    let err = parse_method_signature("foo").unwrap_err();
    assert_eq!(err.line, 0);
    assert_eq!(err.message, "Invalid method signature: foo");
    assert_eq!(err.to_string(), "Smali parse error at line 0: Invalid method signature: foo");
}

#[test]
fn smali_type_list_reads_arrays_and_classes() {
    assert_eq!(parse_type_list("[[ILjava/lang/Object;Z[Lcom/A;"), vec!["[[I", "Ljava/lang/Object;", "Z", "[Lcom/A;"]);
    assert_eq!(parse_type_list("Lunterminated"), vec!["Lunterminated"]);
    assert!(parse_type_list("").is_empty());
}

#[test]
fn smali_class_header_flags_and_source() {
    let smali = ".class public final abstract interface Lcom/I;\n.source \"I.java\"\n";
    let class = parse_smali(smali).unwrap();
    assert_eq!(class.access_flags.bits(), 0x1 | 0x10 | 0x400 | 0x200);
    assert_eq!(class.type_descriptor, "Lcom/I;");
    assert_eq!(class.source_file, Some("I.java".to_string()));
}

#[test]
fn smali_field_with_initial_value_and_flags() {
    let smali = ".class Lcom/A;\n.field private static final volatile MAX:I = 0x10\n";
    let class = parse_smali(smali).unwrap();
    let f = &class.fields[0];
    assert_eq!(f.access_flags.bits(), 0x2 | 0x8 | 0x10 | 0x40);
    assert_eq!(f.name, "MAX");
    assert_eq!(f.field_type, "I");
    assert_eq!(f.initial_value, Some("0x10".to_string()));
}

#[test]
fn smali_field_without_colon_is_refused() {
    let smali = ".class Lcom/A;\n\n.field public NAME\n";
    let err = parse_smali(smali).unwrap_err();
    assert_eq!(err.line, 2);
    assert_eq!(err.message, "Invalid field declaration: .field public NAME");
}

#[test]
fn smali_method_body_instructions_and_errors() {
    let smali = "\
.class Lcom/A;
.method public static native constructor f(I[J)Z
    .locals 3
    # a comment
    const/4 v0, 0x7
    const-wide v1, -5
    move-object v0, p1
    if-nez v0, :done
    goto 12
    :done
    iget-object v0, p0, Lcom/A;->x:I
    sput v1, Lcom/A;->y:I
    invoke-virtual {v0, v1}, Lcom/A;->g(I)V
    unknown-op v0
    return v0
.end method
";
    let class = parse_smali(smali).unwrap();
    let m = &class.methods[0];
    assert_eq!(m.access_flags.bits(), 0x1 | 0x8 | 0x100 | 0x10000);
    assert_eq!(m.name, "f");
    assert_eq!(m.return_type, "Z");
    assert_eq!(m.parameter_types, vec!["I", "[J"]);
    assert_eq!(m.register_count, 3);
    assert_eq!(m.instructions.len(), 10);
    assert!(matches!(m.instructions[0], SmaliInstruction::Const { register: 0, value: 7 }));
    assert!(matches!(m.instructions[1], SmaliInstruction::ConstWide { register: 1, value: -5 }));
    assert!(matches!(m.instructions[2], SmaliInstruction::MoveObject { dest: 0, src: 1 }));
    assert!(matches!(m.instructions[3], SmaliInstruction::IfNez { register: 0, offset: 0 }));
    assert!(matches!(m.instructions[4], SmaliInstruction::Goto { offset: 12 }));
    match &m.instructions[5] {
        SmaliInstruction::Label { name } => assert_eq!(name, "done"),
        _ => panic!("Expected Label"),
    }
    match &m.instructions[6] {
        SmaliInstruction::IGet { dest, obj, field_ref } => {
            assert_eq!((*dest, *obj), (0, 0));
            assert_eq!(field_ref, "Lcom/A;->x:I");
        }
        _ => panic!("Expected IGet"),
    }
    match &m.instructions[8] {
        SmaliInstruction::InvokeVirtual { method_ref, registers } => {
            assert_eq!(method_ref, "Lcom/A;->g(I)V");
            assert_eq!(registers, &vec![0u8, 1u8]);
        }
        _ => panic!("Expected InvokeVirtual"),
    }
    assert!(matches!(m.instructions[9], SmaliInstruction::Return { register: 0 }));

    let bad = ".class Lcom/A;\n.method f()V\n    move-result vx\n.end method\n";
    let err = parse_smali(bad).unwrap_err();
    assert_eq!(err.line, 2);
    assert_eq!(err.message, "Invalid register: vx");
    let bad = ".class Lcom/A;\n.method f()V\n    const-string v0\n.end method\n";
    assert_eq!(parse_smali(bad).unwrap_err().message, "const-string: expected comma after register");
}
