use dexlib_oxide::base::opcode::Opcode;
use dexlib_oxide::builder::builder_instruction::{make_const_string, make_nop, make_return_void, make_invoke_static};
use dexlib_oxide::builder::mutable_method_impl::MutableMethodImplementation;
use dexlib_oxide::iface::debug_item::{DebugItem, EndLocal, LineNumber, RestartLocal, SetSourceFile, StartLocal};
use dexlib_oxide::iface::instruction::Instruction;
use dexlib_oxide::iface::method::{ExceptionHandler, MethodImplementationData, TryBlock};
use dexlib_oxide::immutable::immutable_reference::{ImmutableReferenceHolder, ImmutableStringReference};

fn make_simple_impl() -> MutableMethodImplementation {
    let mut impl_ = MutableMethodImplementation::new(2, Vec::new());
    impl_.add_instruction(0, make_nop());
    impl_.add_instruction(
        1,
        make_const_string(0, ImmutableReferenceHolder::String(ImmutableStringReference::new("test"))),
    );
    impl_.add_instruction(2, make_return_void());
    impl_
}

fn handler() -> ExceptionHandler {
    ExceptionHandler { handler_type: Some("Lcom/Exception;".to_string()), handler_code_address: 2 }
}

#[test]
fn test_create_from_scratch() {
    let impl_ = make_simple_impl();
    assert_eq!(impl_.register_count(), 2);
    assert_eq!(impl_.instructions().len(), 3);
    assert_eq!(impl_.instructions()[0].opcode(), Opcode::Nop);
    assert_eq!(impl_.instructions()[1].opcode(), Opcode::ConstString);
    assert_eq!(impl_.instructions()[2].opcode(), Opcode::ReturnVoid);
}

#[test]
fn test_add_instruction_at_position() {
    let mut impl_ = make_simple_impl();
    impl_.add_instruction(1, make_nop());
    assert_eq!(impl_.instructions().len(), 4);
    assert_eq!(impl_.instructions()[0].opcode(), Opcode::Nop);
    assert_eq!(impl_.instructions()[1].opcode(), Opcode::Nop);
    assert_eq!(impl_.instructions()[2].opcode(), Opcode::ConstString);
    assert_eq!(impl_.instructions()[3].opcode(), Opcode::ReturnVoid);
}

#[test]
fn test_replace_instruction() {
    let mut impl_ = make_simple_impl();
    impl_.replace_instruction(1, make_nop());
    assert_eq!(impl_.instructions().len(), 3);
    assert_eq!(impl_.instructions()[1].opcode(), Opcode::Nop);
}

#[test]
fn test_remove_instruction() {
    let mut impl_ = make_simple_impl();
    impl_.remove_instruction(1);
    assert_eq!(impl_.instructions().len(), 2);
    assert_eq!(impl_.instructions()[0].opcode(), Opcode::Nop);
    assert_eq!(impl_.instructions()[1].opcode(), Opcode::ReturnVoid);
}

#[test]
fn test_swap_instructions() {
    let mut impl_ = make_simple_impl();
    impl_.swap_instructions(0, 2);
    assert_eq!(impl_.instructions()[0].opcode(), Opcode::ReturnVoid);
    assert_eq!(impl_.instructions()[2].opcode(), Opcode::Nop);
}

#[test]
fn test_set_register_count() {
    let mut impl_ = make_simple_impl();
    impl_.set_register_count(10);
    assert_eq!(impl_.register_count(), 10);
}

#[test]
fn test_add_instruction_adjusts_try_block() {
    let mut impl_ = MutableMethodImplementation::new(2, Vec::new());
    impl_.add_instruction(0, make_nop());
    impl_.add_instruction(1, make_return_void());
    impl_.try_blocks_mut().push(TryBlock {
        start_code_address: 0,
        code_unit_count: 2,
        handlers: vec![handler()],
    });

    impl_.add_instruction(1, make_nop());

    assert_eq!(impl_.try_blocks()[0].start_code_address, 0);
    assert_eq!(impl_.try_blocks()[0].code_unit_count, 3);
}

#[test]
fn test_remove_instruction_adjusts_try_block() {
    let mut impl_ = MutableMethodImplementation::new(2, Vec::new());
    impl_.add_instruction(0, make_nop());
    impl_.add_instruction(1, make_nop());
    impl_.add_instruction(2, make_return_void());
    impl_.try_blocks_mut().push(TryBlock {
        start_code_address: 0,
        code_unit_count: 3,
        handlers: vec![handler()],
    });

    impl_.remove_instruction(1);

    assert_eq!(impl_.try_blocks()[0].start_code_address, 0);
    assert_eq!(impl_.try_blocks()[0].code_unit_count, 2);
}

#[test]
fn test_out_of_bounds_operations() {
    let mut impl_ = make_simple_impl();
    impl_.add_instruction(100, make_nop());
    assert_eq!(impl_.instructions().len(), 3);

    impl_.remove_instruction(100);
    assert_eq!(impl_.instructions().len(), 3);

    impl_.replace_instruction(100, make_nop());
    assert_eq!(impl_.instructions().len(), 3);

    impl_.swap_instructions(0, 100);
    assert_eq!(impl_.instructions()[0].opcode(), Opcode::Nop);
}

#[test]
fn add_then_remove_restores_instructions_and_try_blocks() {
    let mut impl_ = make_simple_impl();
    impl_.try_blocks_mut().push(TryBlock { start_code_address: 1, code_unit_count: 2, handlers: vec![] });
    impl_.try_blocks_mut().push(TryBlock { start_code_address: 3, code_unit_count: 1, handlers: vec![] });
    impl_.try_blocks_mut().push(TryBlock { start_code_address: 0, code_unit_count: 1, handlers: vec![] });
    impl_.add_instruction(1, make_invoke_static(0, [0; 5], ImmutableReferenceHolder::NoReference));
    assert_eq!(impl_.try_blocks()[0].start_code_address, 4);
    assert_eq!(impl_.try_blocks()[1].start_code_address, 6);
    assert_eq!(impl_.try_blocks()[2].code_unit_count, 1);
    impl_.remove_instruction(1);
    let opcodes: Vec<Opcode> = impl_.instructions().iter().map(|i| i.opcode()).collect();
    assert_eq!(opcodes, vec![Opcode::Nop, Opcode::ConstString, Opcode::ReturnVoid]);
    let blocks: Vec<(u32, u16)> = impl_.try_blocks().iter().map(|t| (t.start_code_address, t.code_unit_count)).collect();
    assert_eq!(blocks, vec![(1, 2), (3, 1), (0, 1)]);
}

#[test]
fn swap_twice_restores() {
    let mut impl_ = make_simple_impl();
    impl_.swap_instructions(0, 1);
    impl_.swap_instructions(0, 1);
    let opcodes: Vec<Opcode> = impl_.instructions().iter().map(|i| i.opcode()).collect();
    assert_eq!(opcodes, vec![Opcode::Nop, Opcode::ConstString, Opcode::ReturnVoid]);
}

#[test]
fn replace_with_larger_instruction_moves_later_blocks() {
    let mut impl_ = make_simple_impl();
    impl_.try_blocks_mut().push(TryBlock { start_code_address: 3, code_unit_count: 1, handlers: vec![] });
    impl_.try_blocks_mut().push(TryBlock { start_code_address: 0, code_unit_count: 2, handlers: vec![] });
    impl_.replace_instruction(0, make_invoke_static(0, [0; 5], ImmutableReferenceHolder::NoReference));
    assert_eq!(impl_.try_blocks()[0].start_code_address, 5);
    assert_eq!(impl_.try_blocks()[1].code_unit_count, 4);
}

#[test]
fn remove_inside_block_shrinks_it_to_nothing() {
    let mut impl_ = make_simple_impl();
    impl_.try_blocks_mut().push(TryBlock { start_code_address: 1, code_unit_count: 2, handlers: vec![] });
    impl_.remove_instruction(1);
    assert_eq!(impl_.try_blocks()[0].start_code_address, 0);
    assert_eq!(impl_.try_blocks()[0].code_unit_count, 0);
}

#[test]
fn editable_copy_keeps_opcodes_blocks_and_debug_items() {
    let data = MethodImplementationData {
        register_count: 4,
        instructions: vec![make_nop(), make_invoke_static(0, [0; 5], ImmutableReferenceHolder::NoReference)],
        try_blocks: vec![TryBlock { start_code_address: 0, code_unit_count: 1, handlers: vec![handler()] }],
        debug_items: vec![DebugItem::LineNumber(LineNumber { code_address: 1, line: 7 }), DebugItem::PrologueEnd],
    };
    let copy = MutableMethodImplementation::from_implementation(&data);
    assert_eq!(copy.register_count(), 4);
    assert_eq!(copy.instructions()[1].opcode(), Opcode::InvokeStatic);
    assert_eq!(copy.instructions()[1].code_units(), 3);
    assert_eq!(copy.try_blocks()[0].handlers[0].handler_type.as_deref(), Some("Lcom/Exception;"));
    assert!(!copy.try_blocks()[0].handlers[0].is_catch_all());
    assert_eq!(copy.try_blocks()[0].end_code_address(), 1);
    assert_eq!(copy.debug_items()[0].code_address(), 1);
    assert_eq!(copy.debug_items()[1].code_address(), 0);
    let mut empty = MutableMethodImplementation::with_register_count(3);
    assert!(empty.instructions().is_empty());
    empty.debug_items_mut().push(DebugItem::EpilogueBegin);
    assert_eq!(empty.debug_items().len(), 1);
}

#[test]
fn debug_items_print_as_smali_directives() {
    let start = DebugItem::StartLocal(StartLocal {
        code_address: 0,
        register: 3,
        name: None,
        type_descriptor: None,
        signature: None,
    });
    assert_eq!(start.to_string(), ".locals v3");
    assert_eq!(DebugItem::EndLocal(EndLocal { code_address: 2, register: 1 }).to_string(), ".end local v1");
    assert_eq!(DebugItem::RestartLocal(RestartLocal { code_address: 2, register: 12 }).to_string(), ".restart local v12");
    assert_eq!(DebugItem::PrologueEnd.to_string(), ".prologue");
    assert_eq!(DebugItem::EpilogueBegin.to_string(), ".epilogue");
    assert_eq!(
        DebugItem::SetSourceFile(SetSourceFile { source_file: Some("A.java".to_string()) }).to_string(),
        ".source Some(\"A.java\")"
    );
    assert_eq!(DebugItem::SetSourceFile(SetSourceFile { source_file: None }).to_string(), ".source None");
    assert_eq!(DebugItem::LineNumber(LineNumber { code_address: 4, line: 42 }).to_string(), ".line 42");
}
