use dexlib_oxide::base::access_flags::AccessFlags;
use dexlib_oxide::base::opcode::Opcode;
use dexlib_oxide::iface::instruction::{AnyInstruction, Instruction};
use dexlib_oxide::iface::method::TryBlock;
use dexlib_oxide::immutable::immutable_class_def::ImmutableClassDef;
use dexlib_oxide::immutable::immutable_field::ImmutableField;
use dexlib_oxide::immutable::immutable_instruction::{ImmutableInstruction10x, ImmutableInstruction11x};
use dexlib_oxide::immutable::immutable_method::{ImmutableMethod, ImmutableMethodImplementation};
use dexlib_oxide::rewriter::dex_rewriter::{DexRewriter, RewrittenDexFile};
use dexlib_oxide::rewriter::rewriter_module::{PassThroughRewriter, RewriterModule};

struct TestRewriter;
impl RewriterModule for TestRewriter {}

/// Renames every field and leaves the rest to the default steps.
struct FieldRenamer;
impl RewriterModule for FieldRenamer {
    fn rewrite_field(&self, field: &ImmutableField) -> ImmutableField {
        let mut f = ImmutableField::new(&field.defining_class, "renamed", &field.field_type, field.access_flags);
        f.hidden_api_restrictions = 7;
        f
    }
}

fn test_class() -> ImmutableClassDef {
    let mut class_def = ImmutableClassDef::new("Lcom/Test;", AccessFlags::ACC_PUBLIC());
    let mut method = ImmutableMethod::new("Lcom/Test;", "test", vec![], "V", AccessFlags::ACC_PUBLIC());
    method.implementation = Some(ImmutableMethodImplementation {
        register_count: 1,
        instructions: vec![
            AnyInstruction::I10x(ImmutableInstruction10x { opcode: Opcode::Nop }),
            AnyInstruction::I10x(ImmutableInstruction10x { opcode: Opcode::ReturnVoid }),
        ],
        try_blocks: vec![],
        debug_items: vec![],
    });
    class_def.direct_methods.push(method);
    class_def
}

#[test]
fn test_dex_rewriter_new() {
    let rewriter = PassThroughRewriter;
    let _dex_rewriter = DexRewriter::new(&rewriter);
    assert!(true);
}

#[test]
fn test_pass_through_rewrite() {
    let rewriter = PassThroughRewriter;
    let dex_rewriter = DexRewriter::new(&rewriter);
    let class_def = test_class();
    let rewritten_class = dex_rewriter.rewrite_class_def(&class_def);
    assert_eq!(rewritten_class.type_descriptor(), "Lcom/Test;");
    assert_eq!(rewritten_class.direct_methods().len(), 1);
}

#[test]
fn test_rewritten_dex_file_impl() {
    let class_def = ImmutableClassDef::new("Lcom/Test;", AccessFlags::ACC_PUBLIC());
    let rewritten_dex = RewrittenDexFile { class_defs: vec![class_def] };
    assert_eq!(rewritten_dex.classes().len(), 1);
    let _ = rewritten_dex.opcodes();
}

#[test]
fn test_default_rewriter_module() {
    let rewriter = TestRewriter;
    let class_def = ImmutableClassDef::new("Lcom/Test;", AccessFlags::ACC_PUBLIC());
    let rewritten = rewriter.rewrite_class_def(&class_def);
    assert_eq!(rewritten.type_descriptor(), "Lcom/Test;");
}

#[test]
fn test_rewrite_instruction() {
    let rewriter = TestRewriter;
    let instr = AnyInstruction::I10x(ImmutableInstruction10x { opcode: Opcode::Nop });
    let rewritten = rewriter.rewrite_instruction(&instr);
    assert_eq!(rewritten.opcode(), Opcode::Nop);
}

#[test]
fn pass_through_copies_every_part_of_a_class() {
    let mut class_def = test_class();
    class_def.superclass = Some("Ljava/lang/Object;".to_string());
    class_def.interfaces.push("Ljava/io/Serializable;".to_string());
    class_def.source_file = Some("Test.java".to_string());
    let mut field = ImmutableField::new("Lcom/Test;", "count", "I", AccessFlags::ACC_STATIC());
    field.hidden_api_restrictions = 3;
    class_def.static_fields.push(field);
    class_def.instance_fields.push(ImmutableField::new("Lcom/Test;", "name", "Ljava/lang/String;", AccessFlags::ACC_PRIVATE()));
    let mut virt = ImmutableMethod::new("Lcom/Test;", "run", vec!["I".to_string(), "J".to_string()], "Z", AccessFlags::ACC_PUBLIC());
    virt.hidden_api_restrictions = 5;
    virt.implementation = Some(ImmutableMethodImplementation {
        register_count: 4,
        instructions: vec![AnyInstruction::I11x(ImmutableInstruction11x { opcode: Opcode::Return, register_a: 2 })],
        try_blocks: vec![TryBlock { start_code_address: 0, code_unit_count: 1, handlers: vec![] }],
        debug_items: vec![],
    });
    class_def.virtual_methods.push(virt);

    let module = PassThroughRewriter;
    let out = DexRewriter::new(&module).rewrite_classes(std::slice::from_ref(&class_def));
    assert_eq!(out.classes().len(), 1);
    let c = &out.classes()[0];
    assert_eq!(c.type_descriptor, "Lcom/Test;");
    assert_eq!(c.access_flags, AccessFlags::ACC_PUBLIC());
    assert_eq!(c.superclass.as_deref(), Some("Ljava/lang/Object;"));
    assert_eq!(c.interfaces, vec!["Ljava/io/Serializable;".to_string()]);
    assert_eq!(c.source_file.as_deref(), Some("Test.java"));
    assert_eq!(c.static_fields[0].name, "count");
    assert_eq!(c.static_fields[0].hidden_api_restrictions, 0);
    assert_eq!(c.instance_fields[0].field_type, "Ljava/lang/String;");
    assert_eq!(c.direct_methods.len(), 1);
    let m = &c.virtual_methods[0];
    assert_eq!(m.name, "run");
    assert_eq!(m.parameter_types, vec!["I".to_string(), "J".to_string()]);
    assert_eq!(m.return_type, "Z");
    assert_eq!(m.hidden_api_restrictions, 0);
    let body = m.implementation.as_ref().unwrap();
    assert_eq!(body.register_count, 4);
    assert_eq!(body.instructions.len(), 1);
    assert_eq!(body.instructions[0].opcode(), Opcode::Return);
    assert_eq!(body.try_blocks.len(), 1);
    assert_eq!(body.try_blocks[0].code_unit_count, 1);
}

#[test]
fn overridden_step_is_used_for_every_member() {
    let mut class_def = test_class();
    class_def.static_fields.push(ImmutableField::new("Lcom/Test;", "a", "I", AccessFlags::ACC_STATIC()));
    class_def.instance_fields.push(ImmutableField::new("Lcom/Test;", "b", "J", AccessFlags::ACC_PRIVATE()));
    let module = FieldRenamer;
    let c = DexRewriter::new(&module).rewrite_class_def(&class_def);
    assert_eq!(c.static_fields[0].name, "renamed");
    assert_eq!(c.static_fields[0].hidden_api_restrictions, 7);
    assert_eq!(c.instance_fields[0].name, "renamed");
    assert_eq!(c.instance_fields[0].field_type, "J");
    assert_eq!(c.direct_methods[0].name, "test");
}

#[test]
fn rewritten_file_finds_classes_and_rewrites_again() {
    let a = ImmutableClassDef::new("Lcom/A;", AccessFlags::ACC_PUBLIC());
    let b = ImmutableClassDef::new("Lcom/B;", AccessFlags::ACC_FINAL());
    let mut file = RewrittenDexFile { class_defs: vec![a] };
    file.classes_mut().push(b);
    assert_eq!(file.classes().len(), 2);
    assert_eq!(file.find_class_by_name("Lcom/B;").unwrap().access_flags, AccessFlags::ACC_FINAL());
    assert!(file.find_class_by_name("Lcom/C;").is_none());
    assert_eq!(file.opcodes(), Opcode::Nop);
    let module = PassThroughRewriter;
    let again = DexRewriter::new(&module).rewrite_dex_file(&file);
    assert_eq!(again.classes().len(), 2);
    assert_eq!(again.classes()[1].type_descriptor, "Lcom/B;");
}
