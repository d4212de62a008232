use vstd::prelude::*;
use std::collections::HashMap;
use crate::base::opcode::Opcode;
use crate::iface::instruction::{AnyInstruction, Instruction};
use crate::iface::reference::{FieldReference, MethodReference, ReferenceHolder, StringReference, TypeReference};
use crate::immutable::immutable_instruction::{
    ImmutableInstruction10t, ImmutableInstruction10x, ImmutableInstruction11x,
    ImmutableInstruction12x, ImmutableInstruction21c, ImmutableInstruction21t,
    ImmutableInstruction22c, ImmutableInstruction31i, ImmutableInstruction35c,
    ImmutableInstruction51l,
};
use crate::smali::chars::{chars_of, find, find_char, find_text, find_text_from, rfind_before, rfind_char, slice_chars, string_of};
use crate::smali::smali_parser::{
    parse_smali, spec_parse_smali, strings_of, type_list, type_list_chars, ClassModel, InstructionModel, Outcome,
    SmaliClass, SmaliField, SmaliInstruction, SmaliMethod,
};
use crate::base::text::decimal;
use crate::iface::instruction::kind_of;
use crate::writer::dex_pool::{
    class_entry_of, classes_written, signed_header, class_interfaces_written, extends, fields_written, methods_written,
    protos_written, strings_written, types_written,
    code_writable, dex_magic, instruction_units, method_code_writable,
    method_entry_of, too_large_message, virtual_code_writable, DexPool,
};
use crate::writer::pools::{index_from, ClassEntry, MethodEntry};
use crate::iface::reference::strings_view;
use crate::immutable::immutable_class_def::{opt_text, str_equal, ImmutableClassDef};
use crate::immutable::immutable_field::ImmutableField;
use crate::immutable::immutable_method::{ImmutableMethod, ImmutableMethodImplementation};
use crate::writer::dex_pool::clone_strings_vec;

verus! {

// ---------------------------------------------------------------------------------------------
// References written in smali
// ---------------------------------------------------------------------------------------------

/// The number of bytes that `c` takes in UTF-8.
pub open spec fn utf8_width(c: char) -> int {
    let v = c as u32;
    if v < 0x80 {
        1
    } else if v < 0x800 {
        2
    } else if v < 0x10000 {
        3
    } else {
        4
    }
}

/// The chars of `s` after its first two bytes, where those bytes end a char; `None` where they
/// do not, and slicing the text there panics.
pub open spec fn after_two_bytes(s: Seq<char>) -> Option<Seq<char>> {
    if s.len() >= 1 && utf8_width(s[0]) == 2 {
        Some(s.skip(1))
    } else if s.len() >= 2 && utf8_width(s[0]) == 1 && utf8_width(s[1]) == 1 {
        Some(s.skip(2))
    } else {
        None
    }
}

/// A reference `class->member` split at its first arrow into the class and the member. Without
/// an arrow the class is empty and the member is what follows the first two bytes; `None` where
/// that slice panics.
pub open spec fn split_arrow(s: Seq<char>) -> Option<(Seq<char>, Seq<char>)> {
    match find_text_from(s, "->"@, 0) {
        Some(a) => Some((s.take(a), s.skip(a + "->"@.len()))),
        None => match after_two_bytes(s) {
            Some(r) => Some((Seq::empty(), r)),
            None => None,
        },
    }
}

fn split_arrow_chars(s: &[char]) -> (res: (Vec<char>, Vec<char>))
    requires
        split_arrow(s@) is Some,
    ensures
        split_arrow(s@) == Some((res.0@, res.1@)),
{
    match find_text(s, "->") {
        Some(a) => {
            let class = slice_chars(s, 0, a);
            let member = slice_chars(s, a + "->".unicode_len(), s.len());
            assert(class@ =~= s@.take(a as int));
            assert(member@ =~= s@.skip(a + "->"@.len()));
            (class, member)
        },
        None => {
            let first = s[0] as u32;
            let skip: usize = if 0x80 <= first && first < 0x800 {
                1
            } else {
                2
            };
            let member = slice_chars(s, skip, s.len());
            assert(member@ =~= s@.skip(skip as int));
            (Vec::new(), member)
        },
    }
}

/// A method reference `class->name(params)return`: its class, name, parameter types and return
/// type. `None` where it cannot be split: no `)` after the name, or no arrow and a text too short
/// to skip.
pub open spec fn spec_method_ref(s: Seq<char>) -> Option<(Seq<char>, Seq<char>, Seq<Seq<char>>, Seq<char>)> {
    match split_arrow(s) {
        None => None,
        Some((class, after)) => {
            let o = match find(after, '(') {
                Some(k) => k,
                None => after.len() as int,
            };
            let rest = after.skip(o);
            match rfind_before(rest, ')', rest.len() as int) {
                None => None,
                Some(c) => if c < 1 {
                    None
                } else {
                    Some((class, after.take(o), type_list(rest.subrange(1, c)), rest.skip(c + 1)))
                },
            }
        },
    }
}

/// Whether `r` is the method reference with these parts.
pub open spec fn is_method_ref(r: ReferenceHolder, parts: (Seq<char>, Seq<char>, Seq<Seq<char>>, Seq<char>)) -> bool {
    r matches ReferenceHolder::Method(m) && m.defining_class@ == parts.0 && m.method_name@ == parts.1
        && m.parameter_types@.map_values(|t: String| t@) == parts.2 && m.return_type@ == parts.3
}

proof fn lemma_rfind_before_bounds(s: Seq<char>, c: char, j: int)
    ensures
        rfind_before(s, c, j) matches Some(k) ==> 0 <= k < j && k < s.len(),
    decreases j,
{
    if 0 < j <= s.len() && s[j - 1] != c {
        lemma_rfind_before_bounds(s, c, j - 1);
    }
}

/// The method that a smali method reference names.
pub fn parse_method_ref(method_ref: &str) -> (res: ReferenceHolder)
    requires
        spec_method_ref(method_ref@) is Some,
    ensures
        is_method_ref(res, spec_method_ref(method_ref@).unwrap()),
{
    let s = chars_of(method_ref);
    let (class, after) = split_arrow_chars(s.as_slice());
    let o = match find_char(after.as_slice(), '(') {
        Some(k) => k,
        None => after.len(),
    };
    let name = slice_chars(after.as_slice(), 0, o);
    let rest = slice_chars(after.as_slice(), o, after.len());
    assert(name@ =~= after@.take(o as int));
    assert(rest@ =~= after@.skip(o as int));
    proof {
        lemma_rfind_before_bounds(rest@, ')', rest@.len() as int);
    }
    let c = match rfind_char(rest.as_slice(), ')') {
        Some(c) => c,
        None => 0,
    };
    let params = slice_chars(rest.as_slice(), 1, c);
    let ret = slice_chars(rest.as_slice(), c + 1, rest.len());
    assert(ret@ =~= rest@.skip(c + 1));
    let parameter_types = strings_of(&type_list_chars(params.as_slice()));
    ReferenceHolder::Method(
        MethodReference {
            defining_class: string_of(class.as_slice()),
            method_name: string_of(name.as_slice()),
            parameter_types,
            return_type: string_of(ret.as_slice()),
        },
    )
}

/// A field reference `class->name:type`: its class, name and type. `None` where it cannot
/// be split: no `:` after the arrow, or no arrow and a text too short to skip.
pub open spec fn spec_field_ref(s: Seq<char>) -> Option<(Seq<char>, Seq<char>, Seq<char>)> {
    match split_arrow(s) {
        None => None,
        Some((class, after)) => match find(after, ':') {
            None => None,
            Some(k) => Some((class, after.take(k), after.skip(k + 1))),
        },
    }
}

fn field_ref_chars(field_ref: &str) -> (res: (String, String, String))
    requires
        spec_field_ref(field_ref@) is Some,
    ensures
        spec_field_ref(field_ref@) == Some((res.0@, res.1@, res.2@)),
{
    let s = chars_of(field_ref);
    let (class, after) = split_arrow_chars(s.as_slice());
    let k = match find_char(after.as_slice(), ':') {
        Some(k) => k,
        None => after.len(),
    };
    let name = slice_chars(after.as_slice(), 0, k);
    let ftype = slice_chars(after.as_slice(), k + 1, after.len());
    assert(name@ =~= after@.take(k as int));
    assert(ftype@ =~= after@.skip(k + 1));
    (string_of(class.as_slice()), string_of(name.as_slice()), string_of(ftype.as_slice()))
}

/// The class, name and type that a smali field reference names.
pub fn parse_field_ref_string(field_ref: &str) -> (res: (String, String, String))
    requires
        spec_field_ref(field_ref@) is Some,
    ensures
        spec_field_ref(field_ref@) == Some((res.0@, res.1@, res.2@)),
{
    field_ref_chars(field_ref)
}

/// Whether `r` is the field reference with these parts.
pub open spec fn is_field_ref(r: ReferenceHolder, parts: (Seq<char>, Seq<char>, Seq<char>)) -> bool {
    r matches ReferenceHolder::Field(f) && f.defining_class@ == parts.0 && f.field_name@ == parts.1
        && f.field_type@ == parts.2
}

fn field_reference_of(field_ref: &str) -> (res: ReferenceHolder)
    requires
        spec_field_ref(field_ref@) is Some,
    ensures
        is_field_ref(res, spec_field_ref(field_ref@).unwrap()),
{
    let (class, name, ftype) = parse_field_ref_string(field_ref);
    ReferenceHolder::Field(FieldReference { defining_class: class, field_name: name, field_type: ftype })
}

/// The type descriptors written one after another in `types`.
pub fn parse_type_list_from_smali(types: &str) -> (res: Vec<String>)
    ensures
        res@.map_values(|t: String| t@) == type_list(types@),
{
    let cs = chars_of(types);
    strings_of(&type_list_chars(cs.as_slice()))
}

/// Register `k` of an invoke, or 0 where there are fewer.
pub open spec fn register_at(registers: Seq<u8>, k: int) -> u8 {
    if k < registers.len() {
        registers[k]
    } else {
        0
    }
}

/// The first five registers of an invoke, 0 for those that are missing.
pub fn pack_invoke_registers(registers: &[u8]) -> (res: (u8, u8, u8, u8, u8))
    ensures
        res == (
            register_at(registers@, 0),
            register_at(registers@, 1),
            register_at(registers@, 2),
            register_at(registers@, 3),
            register_at(registers@, 4),
        ),
{
    let n = registers.len();
    let c = if n > 0 {
        registers[0]
    } else {
        0
    };
    let d = if n > 1 {
        registers[1]
    } else {
        0
    };
    let e = if n > 2 {
        registers[2]
    } else {
        0
    };
    let f = if n > 3 {
        registers[3]
    } else {
        0
    };
    let g = if n > 4 {
        registers[4]
    } else {
        0
    };
    (c, d, e, f, g)
}


// ---------------------------------------------------------------------------------------------
// Instructions
// ---------------------------------------------------------------------------------------------

/// Whether the references that `i` names can be read (see `spec_method_ref` and
/// `spec_field_ref`).
pub open spec fn references_readable(i: SmaliInstruction) -> bool {
    match i {
        SmaliInstruction::InvokeStatic { method_ref, .. } => spec_method_ref(method_ref@) is Some,
        SmaliInstruction::InvokeVirtual { method_ref, .. } => spec_method_ref(method_ref@) is Some,
        SmaliInstruction::InvokeDirect { method_ref, .. } => spec_method_ref(method_ref@) is Some,
        SmaliInstruction::InvokeSuper { method_ref, .. } => spec_method_ref(method_ref@) is Some,
        SmaliInstruction::InvokeInterface { method_ref, .. } => spec_method_ref(method_ref@) is Some,
        SmaliInstruction::IGet { field_ref, .. } => spec_field_ref(field_ref@) is Some,
        SmaliInstruction::IPut { field_ref, .. } => spec_field_ref(field_ref@) is Some,
        SmaliInstruction::SGet { field_ref, .. } => spec_field_ref(field_ref@) is Some,
        SmaliInstruction::SPut { field_ref, .. } => spec_field_ref(field_ref@) is Some,
        _ => true,
    }
}

/// Whether `a` is the invoke with opcode `op`, the registers `registers` and the method that
/// `method_ref` names.
pub open spec fn is_invoke(a: AnyInstruction, op: Opcode, method_ref: Seq<char>, registers: Seq<u8>) -> bool {
    a matches AnyInstruction::I35c(x) && x.opcode == op && x.register_count == registers.len() as u8
        && x.register_c == register_at(registers, 0) as u16 && x.register_d == register_at(registers, 1) as u16
        && x.register_e == register_at(registers, 2) as u16 && x.register_f == register_at(registers, 3) as u16
        && x.register_g == register_at(registers, 4) as u16 && is_method_ref(x.reference, spec_method_ref(method_ref).unwrap())
}

/// Whether `a` is the one-register instruction with opcode `op` on register `r`.
pub open spec fn is_11x(a: AnyInstruction, op: Opcode, r: u8) -> bool {
    a matches AnyInstruction::I11x(x) && x.opcode == op && x.register_a == r as u16
}

/// Whether `a` is the two-register move with opcode `op`.
pub open spec fn is_12x(a: AnyInstruction, op: Opcode, dest: u8, src: u8) -> bool {
    a matches AnyInstruction::I12x(x) && x.opcode == op && x.register_a == dest && x.register_b == src
}

/// Whether `a` is the instruction with opcode `op` on register `r` that names the type `t`.
pub open spec fn is_type_21c(a: AnyInstruction, op: Opcode, r: u8, t: Seq<char>) -> bool {
    a matches AnyInstruction::I21c(x) && x.opcode == op && x.register_a == r
        && (x.reference matches ReferenceHolder::Type(tr) && tr.type_descriptor@ == t)
}

/// Whether `a` is the static field access with opcode `op` on register `r`.
pub open spec fn is_field_21c(a: AnyInstruction, op: Opcode, r: u8, field_ref: Seq<char>) -> bool {
    a matches AnyInstruction::I21c(x) && x.opcode == op && x.register_a == r
        && is_field_ref(x.reference, spec_field_ref(field_ref).unwrap())
}

/// Whether `a` is the instance field access with opcode `op`.
pub open spec fn is_field_22c(a: AnyInstruction, op: Opcode, r: u8, obj: u8, field_ref: Seq<char>) -> bool {
    a matches AnyInstruction::I22c(x) && x.opcode == op && x.register_a == r && x.register_b == obj
        && is_field_ref(x.reference, spec_field_ref(field_ref).unwrap())
}

/// Whether `a` is the DEX instruction that the smali instruction `i` assembles to. Branch
/// offsets are not resolved (they become 0), and a label becomes a `nop`.
pub open spec fn assembles_to(i: SmaliInstruction, a: AnyInstruction) -> bool {
    match i {
        SmaliInstruction::Nop => a matches AnyInstruction::I10x(x) && x.opcode == Opcode::Nop,
        SmaliInstruction::ReturnVoid => a matches AnyInstruction::I10x(x) && x.opcode == Opcode::ReturnVoid,
        SmaliInstruction::ConstString { register, value } => a matches AnyInstruction::I21c(x)
            && x.opcode == Opcode::ConstString && x.register_a == register
            && (x.reference matches ReferenceHolder::String(sr) && sr.string@ == value@),
        SmaliInstruction::Const { register, value } => a matches AnyInstruction::I31i(x)
            && x.opcode == Opcode::Const && x.register_a == register && x.literal == value,
        SmaliInstruction::ConstWide { register, value } => a matches AnyInstruction::I51l(x)
            && x.opcode == Opcode::ConstWide && x.register_a == register && x.literal == value,
        SmaliInstruction::InvokeStatic { method_ref, registers } => is_invoke(a, Opcode::InvokeStatic, method_ref@, registers@),
        SmaliInstruction::InvokeVirtual { method_ref, registers } => is_invoke(a, Opcode::InvokeVirtual, method_ref@, registers@),
        SmaliInstruction::InvokeDirect { method_ref, registers } => is_invoke(a, Opcode::InvokeDirect, method_ref@, registers@),
        SmaliInstruction::InvokeSuper { method_ref, registers } => is_invoke(a, Opcode::InvokeSuper, method_ref@, registers@),
        SmaliInstruction::InvokeInterface { method_ref, registers } => is_invoke(a, Opcode::InvokeInterface, method_ref@, registers@),
        SmaliInstruction::MoveResult { register } => is_11x(a, Opcode::MoveResult, register),
        SmaliInstruction::MoveResultObject { register } => is_11x(a, Opcode::MoveResultObject, register),
        SmaliInstruction::MoveResultWide { register } => is_11x(a, Opcode::MoveResultWide, register),
        SmaliInstruction::Move { dest, src } => is_12x(a, Opcode::Move, dest, src),
        SmaliInstruction::MoveWide { dest, src } => is_12x(a, Opcode::MoveWide, dest, src),
        SmaliInstruction::MoveObject { dest, src } => is_12x(a, Opcode::MoveObject, dest, src),
        SmaliInstruction::Return { register } => is_11x(a, Opcode::Return, register),
        SmaliInstruction::ReturnObject { register } => is_11x(a, Opcode::ReturnObject, register),
        SmaliInstruction::Throw { register } => is_11x(a, Opcode::Throw, register),
        SmaliInstruction::Goto { .. } => a matches AnyInstruction::I10t(x) && x.opcode == Opcode::Goto
            && x.code_offset == 0,
        SmaliInstruction::IfEqz { register, .. } => a matches AnyInstruction::I21t(x)
            && x.opcode == Opcode::IfEqz && x.register_a == register && x.code_offset == 0,
        SmaliInstruction::IfNez { register, .. } => a matches AnyInstruction::I21t(x)
            && x.opcode == Opcode::IfNez && x.register_a == register && x.code_offset == 0,
        SmaliInstruction::NewInstance { register, type_ref } => is_type_21c(a, Opcode::NewInstance, register, type_ref@),
        SmaliInstruction::CheckCast { register, type_ref } => is_type_21c(a, Opcode::CheckCast, register, type_ref@),
        SmaliInstruction::IGet { dest, obj, field_ref } => is_field_22c(a, Opcode::Iget, dest, obj, field_ref@),
        SmaliInstruction::IPut { src, obj, field_ref } => is_field_22c(a, Opcode::Iput, src, obj, field_ref@),
        SmaliInstruction::SGet { dest, field_ref } => is_field_21c(a, Opcode::Sget, dest, field_ref@),
        SmaliInstruction::SPut { src, field_ref } => is_field_21c(a, Opcode::Sput, src, field_ref@),
        SmaliInstruction::Label { .. } => a matches AnyInstruction::I10x(x) && x.opcode == Opcode::Nop,
    }
}

/// Each smali instruction assembles to a DEX instruction of its own opcode that keeps its
/// registers where the DEX format puts them: a single register as register A, the destination or
/// source of a field access as A and the object as B, and the registers of an invoke as C, D, E,
/// F and G in the order written, their number as the count.
pub proof fn lemma_assembled_registers(i: SmaliInstruction, a: AnyInstruction)
    requires
        assembles_to(i, a),
    ensures
        i matches SmaliInstruction::MoveResult { register } ==> a == AnyInstruction::I11x(
            ImmutableInstruction11x { opcode: Opcode::MoveResult, register_a: register as u16 },
        ),
        i matches SmaliInstruction::MoveResultObject { register } ==> a == AnyInstruction::I11x(
            ImmutableInstruction11x { opcode: Opcode::MoveResultObject, register_a: register as u16 },
        ),
        i matches SmaliInstruction::MoveResultWide { register } ==> a == AnyInstruction::I11x(
            ImmutableInstruction11x { opcode: Opcode::MoveResultWide, register_a: register as u16 },
        ),
        i matches SmaliInstruction::Return { register } ==> a == AnyInstruction::I11x(
            ImmutableInstruction11x { opcode: Opcode::Return, register_a: register as u16 },
        ),
        i matches SmaliInstruction::ReturnObject { register } ==> a == AnyInstruction::I11x(
            ImmutableInstruction11x { opcode: Opcode::ReturnObject, register_a: register as u16 },
        ),
        i matches SmaliInstruction::Throw { register } ==> a == AnyInstruction::I11x(
            ImmutableInstruction11x { opcode: Opcode::Throw, register_a: register as u16 },
        ),
        i matches SmaliInstruction::IfEqz { register, .. } ==> a matches AnyInstruction::I21t(x) && x.opcode
            == Opcode::IfEqz && x.register_a == register,
        i matches SmaliInstruction::IfNez { register, .. } ==> a matches AnyInstruction::I21t(x) && x.opcode
            == Opcode::IfNez && x.register_a == register,
        i matches SmaliInstruction::IGet { dest, obj, .. } ==> a matches AnyInstruction::I22c(x) && x.opcode
            == Opcode::Iget && x.register_a == dest && x.register_b == obj,
        i matches SmaliInstruction::IPut { src, obj, .. } ==> a matches AnyInstruction::I22c(x) && x.opcode
            == Opcode::Iput && x.register_a == src && x.register_b == obj,
        i matches SmaliInstruction::SGet { dest, .. } ==> a matches AnyInstruction::I21c(x) && x.opcode
            == Opcode::Sget && x.register_a == dest,
        i matches SmaliInstruction::SPut { src, .. } ==> a matches AnyInstruction::I21c(x) && x.opcode
            == Opcode::Sput && x.register_a == src,
        i matches SmaliInstruction::NewInstance { register, .. } ==> a matches AnyInstruction::I21c(x)
            && x.opcode == Opcode::NewInstance && x.register_a == register,
        i matches SmaliInstruction::CheckCast { register, .. } ==> a matches AnyInstruction::I21c(x)
            && x.opcode == Opcode::CheckCast && x.register_a == register,
        i matches SmaliInstruction::InvokeStatic { registers, .. } ==> a matches AnyInstruction::I35c(x)
            && x.opcode == Opcode::InvokeStatic && x.register_count == registers@.len() as u8 && (registers@.len()
            > 0 ==> x.register_c == registers@[0] as u16) && (registers@.len() > 1 ==> x.register_d
            == registers@[1] as u16) && (registers@.len() > 2 ==> x.register_e == registers@[2] as u16) && (
        registers@.len() > 3 ==> x.register_f == registers@[3] as u16) && (registers@.len() > 4
            ==> x.register_g == registers@[4] as u16),
{
}

/// A two-register move assembles to the 12x instruction of its kind whose A register is the
/// destination, written first in the smali text, and whose B register is the source.
pub proof fn lemma_move_destination_is_register_a(i: SmaliInstruction, a: AnyInstruction)
    requires
        assembles_to(i, a),
    ensures
        i matches SmaliInstruction::Move { dest, src } ==> a == AnyInstruction::I12x(
            ImmutableInstruction12x { opcode: Opcode::Move, register_a: dest, register_b: src },
        ),
        i matches SmaliInstruction::MoveWide { dest, src } ==> a == AnyInstruction::I12x(
            ImmutableInstruction12x { opcode: Opcode::MoveWide, register_a: dest, register_b: src },
        ),
        i matches SmaliInstruction::MoveObject { dest, src } ==> a == AnyInstruction::I12x(
            ImmutableInstruction12x { opcode: Opcode::MoveObject, register_a: dest, register_b: src },
        ),
{
}

fn invoke(op: Opcode, method_ref: &String, registers: &Vec<u8>) -> (res: AnyInstruction)
    requires
        spec_method_ref(method_ref@) is Some,
    ensures
        is_invoke(res, op, method_ref@, registers@),
{
    let (c, d, e, f, g) = pack_invoke_registers(registers.as_slice());
    AnyInstruction::I35c(
        ImmutableInstruction35c {
            opcode: op,
            register_count: registers.len() as u8,
            register_c: c as u16,
            register_d: d as u16,
            register_e: e as u16,
            register_f: f as u16,
            register_g: g as u16,
            reference: parse_method_ref(method_ref.as_str()),
        },
    )
}

fn type_21c(op: Opcode, register: u8, type_ref: &String) -> (res: AnyInstruction)
    ensures
        is_type_21c(res, op, register, type_ref@),
{
    AnyInstruction::I21c(
        ImmutableInstruction21c {
            opcode: op,
            register_a: register,
            reference: ReferenceHolder::Type(TypeReference { type_descriptor: type_ref.clone() }),
        },
    )
}

/// The DEX instruction that a smali instruction assembles to.
pub fn smali_instruction_to_immutable(instr: &SmaliInstruction) -> (res: AnyInstruction)
    requires
        references_readable(*instr),
    ensures
        assembles_to(*instr, res),
{
    match instr {
        SmaliInstruction::Nop => AnyInstruction::I10x(ImmutableInstruction10x { opcode: Opcode::Nop }),
        SmaliInstruction::ReturnVoid => AnyInstruction::I10x(ImmutableInstruction10x { opcode: Opcode::ReturnVoid }),
        SmaliInstruction::ConstString { register, value } => AnyInstruction::I21c(
            ImmutableInstruction21c {
                opcode: Opcode::ConstString,
                register_a: *register,
                reference: ReferenceHolder::String(StringReference { string: value.clone() }),
            },
        ),
        SmaliInstruction::Const { register, value } => AnyInstruction::I31i(
            ImmutableInstruction31i { opcode: Opcode::Const, register_a: *register, literal: *value },
        ),
        SmaliInstruction::ConstWide { register, value } => AnyInstruction::I51l(
            ImmutableInstruction51l { opcode: Opcode::ConstWide, register_a: *register, literal: *value },
        ),
        SmaliInstruction::InvokeStatic { method_ref, registers } => invoke(Opcode::InvokeStatic, method_ref, registers),
        SmaliInstruction::InvokeVirtual { method_ref, registers } => invoke(Opcode::InvokeVirtual, method_ref, registers),
        SmaliInstruction::InvokeDirect { method_ref, registers } => invoke(Opcode::InvokeDirect, method_ref, registers),
        SmaliInstruction::InvokeSuper { method_ref, registers } => invoke(Opcode::InvokeSuper, method_ref, registers),
        SmaliInstruction::InvokeInterface { method_ref, registers } => invoke(Opcode::InvokeInterface, method_ref, registers),
        SmaliInstruction::MoveResult { register } => AnyInstruction::I11x(
            ImmutableInstruction11x { opcode: Opcode::MoveResult, register_a: *register as u16 },
        ),
        SmaliInstruction::MoveResultObject { register } => AnyInstruction::I11x(
            ImmutableInstruction11x { opcode: Opcode::MoveResultObject, register_a: *register as u16 },
        ),
        SmaliInstruction::MoveResultWide { register } => AnyInstruction::I11x(
            ImmutableInstruction11x { opcode: Opcode::MoveResultWide, register_a: *register as u16 },
        ),
        SmaliInstruction::Move { dest, src } => AnyInstruction::I12x(
            ImmutableInstruction12x { opcode: Opcode::Move, register_a: *dest, register_b: *src },
        ),
        SmaliInstruction::MoveWide { dest, src } => AnyInstruction::I12x(
            ImmutableInstruction12x { opcode: Opcode::MoveWide, register_a: *dest, register_b: *src },
        ),
        SmaliInstruction::MoveObject { dest, src } => AnyInstruction::I12x(
            ImmutableInstruction12x { opcode: Opcode::MoveObject, register_a: *dest, register_b: *src },
        ),
        SmaliInstruction::Return { register } => AnyInstruction::I11x(
            ImmutableInstruction11x { opcode: Opcode::Return, register_a: *register as u16 },
        ),
        SmaliInstruction::ReturnObject { register } => AnyInstruction::I11x(
            ImmutableInstruction11x { opcode: Opcode::ReturnObject, register_a: *register as u16 },
        ),
        SmaliInstruction::Throw { register } => AnyInstruction::I11x(
            ImmutableInstruction11x { opcode: Opcode::Throw, register_a: *register as u16 },
        ),
        SmaliInstruction::Goto { .. } => AnyInstruction::I10t(
            ImmutableInstruction10t { opcode: Opcode::Goto, code_offset: 0 },
        ),
        SmaliInstruction::IfEqz { register, .. } => AnyInstruction::I21t(
            ImmutableInstruction21t { opcode: Opcode::IfEqz, register_a: *register, code_offset: 0 },
        ),
        SmaliInstruction::IfNez { register, .. } => AnyInstruction::I21t(
            ImmutableInstruction21t { opcode: Opcode::IfNez, register_a: *register, code_offset: 0 },
        ),
        SmaliInstruction::NewInstance { register, type_ref } => type_21c(Opcode::NewInstance, *register, type_ref),
        SmaliInstruction::CheckCast { register, type_ref } => type_21c(Opcode::CheckCast, *register, type_ref),
        SmaliInstruction::IGet { dest, obj, field_ref } => AnyInstruction::I22c(
            ImmutableInstruction22c {
                opcode: Opcode::Iget,
                register_a: *dest,
                register_b: *obj,
                reference: field_reference_of(field_ref.as_str()),
            },
        ),
        SmaliInstruction::IPut { src, obj, field_ref } => AnyInstruction::I22c(
            ImmutableInstruction22c {
                opcode: Opcode::Iput,
                register_a: *src,
                register_b: *obj,
                reference: field_reference_of(field_ref.as_str()),
            },
        ),
        SmaliInstruction::SGet { dest, field_ref } => AnyInstruction::I21c(
            ImmutableInstruction21c {
                opcode: Opcode::Sget,
                register_a: *dest,
                reference: field_reference_of(field_ref.as_str()),
            },
        ),
        SmaliInstruction::SPut { src, field_ref } => AnyInstruction::I21c(
            ImmutableInstruction21c {
                opcode: Opcode::Sput,
                register_a: *src,
                reference: field_reference_of(field_ref.as_str()),
            },
        ),
        SmaliInstruction::Label { .. } => AnyInstruction::I10x(ImmutableInstruction10x { opcode: Opcode::Nop }),
    }
}


// ---------------------------------------------------------------------------------------------
// Classes
// ---------------------------------------------------------------------------------------------

/// Whether a smali field is static.
pub open spec fn is_static_field(f: SmaliField) -> bool {
    f.access_flags.bits & 0x8 == 0x8
}

/// The static fields among `fs`, in order.
pub open spec fn static_fields_of(fs: Seq<SmaliField>) -> Seq<SmaliField>
    decreases fs.len(),
{
    if fs.len() == 0 {
        Seq::empty()
    } else if is_static_field(fs.last()) {
        static_fields_of(fs.drop_last()).push(fs.last())
    } else {
        static_fields_of(fs.drop_last())
    }
}

/// The instance fields among `fs`, in order.
pub open spec fn instance_fields_of(fs: Seq<SmaliField>) -> Seq<SmaliField>
    decreases fs.len(),
{
    if fs.len() == 0 {
        Seq::empty()
    } else if !is_static_field(fs.last()) {
        instance_fields_of(fs.drop_last()).push(fs.last())
    } else {
        instance_fields_of(fs.drop_last())
    }
}

/// Whether a smali method is direct: static, private or a constructor named `<init>`.
pub open spec fn is_direct_method(m: SmaliMethod) -> bool {
    m.access_flags.bits & 0x8 == 0x8 || m.access_flags.bits & 0x2 == 0x2 || m.name@ == "<init>"@
}

/// The direct methods among `ms`, in order.
pub open spec fn direct_methods_of(ms: Seq<SmaliMethod>) -> Seq<SmaliMethod>
    decreases ms.len(),
{
    if ms.len() == 0 {
        Seq::empty()
    } else if is_direct_method(ms.last()) {
        direct_methods_of(ms.drop_last()).push(ms.last())
    } else {
        direct_methods_of(ms.drop_last())
    }
}

/// The virtual methods among `ms`, in order.
pub open spec fn virtual_methods_of(ms: Seq<SmaliMethod>) -> Seq<SmaliMethod>
    decreases ms.len(),
{
    if ms.len() == 0 {
        Seq::empty()
    } else if !is_direct_method(ms.last()) {
        virtual_methods_of(ms.drop_last()).push(ms.last())
    } else {
        virtual_methods_of(ms.drop_last())
    }
}

/// Whether `f` is the field that the smali field `s` becomes: no defining class, the same name,
/// type and flags.
pub open spec fn field_from(f: ImmutableField, s: SmaliField) -> bool {
    &&& f.defining_class@ == Seq::<char>::empty()
    &&& f.name@ == s.name@
    &&& f.field_type@ == s.field_type@
    &&& f.access_flags == s.access_flags
    &&& f.hidden_api_restrictions == 0
}

/// Whether every instruction of `m` names references that can be read.
pub open spec fn method_references_readable(m: SmaliMethod) -> bool {
    forall|k: int| 0 <= k < m.instructions@.len() ==> #[trigger] references_readable(m.instructions@[k])
}

/// Whether `imp` is the code that the smali method `s` assembles to.
pub open spec fn code_from(imp: ImmutableMethodImplementation, s: SmaliMethod) -> bool {
    &&& imp.register_count == s.register_count
    &&& imp.instructions@.len() == s.instructions@.len()
    &&& forall|k: int| 0 <= k < imp.instructions@.len() ==> #[trigger] assembles_to(s.instructions@[k], imp.instructions@[k])
    &&& imp.try_blocks@.len() == 0
    &&& imp.debug_items@.len() == 0
}

/// Whether `m` is the method that the smali method `s` of class `dc` becomes: code only where it
/// has instructions.
pub open spec fn method_from(m: ImmutableMethod, s: SmaliMethod, dc: Seq<char>) -> bool {
    &&& m.defining_class@ == dc
    &&& m.name@ == s.name@
    &&& strings_view(m.parameter_types@) == strings_view(s.parameter_types@)
    &&& m.return_type@ == s.return_type@
    &&& m.access_flags == s.access_flags
    &&& m.hidden_api_restrictions == 0
    &&& (m.implementation is None <==> s.instructions@.len() == 0)
    &&& m.implementation matches Some(imp) ==> code_from(imp, s)
}

/// Whether `c` is the class that the smali class `s` becomes.
pub open spec fn class_from(c: ImmutableClassDef, s: SmaliClass) -> bool {
    let sf = static_fields_of(s.fields@);
    let inf = instance_fields_of(s.fields@);
    let dm = direct_methods_of(s.methods@);
    let vm = virtual_methods_of(s.methods@);
    &&& c.type_descriptor@ == s.type_descriptor@
    &&& c.access_flags == s.access_flags
    &&& opt_text(c.superclass) == opt_text(s.superclass)
    &&& strings_view(c.interfaces@) == strings_view(s.interfaces@)
    &&& opt_text(c.source_file) == opt_text(s.source_file)
    &&& c.static_fields@.len() == sf.len()
    &&& forall|k: int| 0 <= k < sf.len() ==> #[trigger] field_from(c.static_fields@[k], sf[k])
    &&& c.instance_fields@.len() == inf.len()
    &&& forall|k: int| 0 <= k < inf.len() ==> #[trigger] field_from(c.instance_fields@[k], inf[k])
    &&& c.direct_methods@.len() == dm.len()
    &&& forall|k: int| 0 <= k < dm.len() ==> #[trigger] method_from(c.direct_methods@[k], dm[k], s.type_descriptor@)
    &&& c.virtual_methods@.len() == vm.len()
    &&& forall|k: int| 0 <= k < vm.len() ==> #[trigger] method_from(c.virtual_methods@[k], vm[k], s.type_descriptor@)
}

/// The field that a smali field becomes.
pub fn smali_field_to_field(field: &SmaliField) -> (res: ImmutableField)
    ensures
        field_from(res, *field),
{
    ImmutableField {
        defining_class: String::new(),
        name: field.name.clone(),
        field_type: field.field_type.clone(),
        access_flags: field.access_flags,
        hidden_api_restrictions: 0,
    }
}

/// The code that the instructions of a smali method assemble to.
pub fn smali_instructions_to_impl(method: &SmaliMethod) -> (res: ImmutableMethodImplementation)
    requires
        method_references_readable(*method),
    ensures
        code_from(res, *method),
{
    let mut instructions: Vec<AnyInstruction> = Vec::new();
    let mut k: usize = 0;
    while k < method.instructions.len()
        invariant
            method_references_readable(*method),
            k <= method.instructions@.len(),
            instructions@.len() == k,
            forall|j: int| 0 <= j < k ==> #[trigger] assembles_to(method.instructions@[j], instructions@[j]),
        decreases method.instructions.len() - k,
    {
        assert(references_readable(method.instructions@[k as int]));
        instructions.push(smali_instruction_to_immutable(&method.instructions[k]));
        k += 1;
    }
    ImmutableMethodImplementation {
        register_count: method.register_count,
        instructions,
        try_blocks: Vec::new(),
        debug_items: Vec::new(),
    }
}

/// The method that a smali method of the class `defining_class` becomes.
pub fn smali_method_to_method(method: &SmaliMethod, defining_class: &str) -> (res: ImmutableMethod)
    requires
        method_references_readable(*method),
    ensures
        method_from(res, *method, defining_class@),
{
    let implementation = if method.instructions.len() == 0 {
        None
    } else {
        Some(smali_instructions_to_impl(method))
    };
    ImmutableMethod {
        defining_class: defining_class.to_owned(),
        name: method.name.clone(),
        parameter_types: clone_strings_vec(method.parameter_types.as_slice()),
        return_type: method.return_type.clone(),
        access_flags: method.access_flags,
        hidden_api_restrictions: 0,
        implementation,
    }
}

/// Whether every method of `c` names references that can be read.
pub open spec fn class_references_readable(c: SmaliClass) -> bool {
    forall|k: int| 0 <= k < c.methods@.len() ==> #[trigger] method_references_readable(c.methods@[k])
}

fn fields_where(fields: &Vec<SmaliField>, want_static: bool) -> (res: Vec<ImmutableField>)
    ensures
        want_static ==> res@.len() == static_fields_of(fields@).len() && forall|k: int|
            0 <= k < res@.len() ==> #[trigger] field_from(res@[k], static_fields_of(fields@)[k]),
        !want_static ==> res@.len() == instance_fields_of(fields@).len() && forall|k: int|
            0 <= k < res@.len() ==> #[trigger] field_from(res@[k], instance_fields_of(fields@)[k]),
{
    let ghost part_of = |fs: Seq<SmaliField>| if want_static { static_fields_of(fs) } else { instance_fields_of(fs) };
    let mut res: Vec<ImmutableField> = Vec::new();
    let mut k: usize = 0;
    while k < fields.len()
        invariant
            k <= fields@.len(),
            part_of == (|fs: Seq<SmaliField>| if want_static { static_fields_of(fs) } else { instance_fields_of(fs) }),
            res@.len() == part_of(fields@.take(k as int)).len(),
            forall|j: int| 0 <= j < res@.len() ==> #[trigger] field_from(res@[j], part_of(fields@.take(k as int))[j]),
        decreases fields.len() - k,
    {
        let f = &fields[k];
        proof {
            assert(fields@.take(k + 1).drop_last() =~= fields@.take(k as int));
            assert(fields@.take(k + 1).last() == *f);
        }
        let is_static = f.access_flags.bits & 0x8 == 0x8;
        if is_static == want_static {
            res.push(smali_field_to_field(f));
        }
        k += 1;
    }
    assert(fields@.take(fields@.len() as int) =~= fields@);
    res
}

fn methods_where(methods: &Vec<SmaliMethod>, want_direct: bool, defining_class: &str) -> (res: Vec<ImmutableMethod>)
    requires
        forall|k: int| 0 <= k < methods@.len() ==> #[trigger] method_references_readable(methods@[k]),
    ensures
        want_direct ==> res@.len() == direct_methods_of(methods@).len() && forall|k: int|
            0 <= k < res@.len() ==> #[trigger] method_from(res@[k], direct_methods_of(methods@)[k], defining_class@),
        !want_direct ==> res@.len() == virtual_methods_of(methods@).len() && forall|k: int|
            0 <= k < res@.len() ==> #[trigger] method_from(res@[k], virtual_methods_of(methods@)[k], defining_class@),
{
    let ghost part_of = |ms: Seq<SmaliMethod>| if want_direct { direct_methods_of(ms) } else { virtual_methods_of(ms) };
    let mut res: Vec<ImmutableMethod> = Vec::new();
    let mut k: usize = 0;
    while k < methods.len()
        invariant
            k <= methods@.len(),
            forall|k: int| 0 <= k < methods@.len() ==> #[trigger] method_references_readable(methods@[k]),
            part_of == (|ms: Seq<SmaliMethod>| if want_direct { direct_methods_of(ms) } else { virtual_methods_of(ms) }),
            res@.len() == part_of(methods@.take(k as int)).len(),
            forall|j: int| 0 <= j < res@.len() ==> #[trigger] method_from(res@[j], part_of(methods@.take(k as int))[j], defining_class@),
        decreases methods.len() - k,
    {
        let m = &methods[k];
        proof {
            assert(methods@.take(k + 1).drop_last() =~= methods@.take(k as int));
            assert(methods@.take(k + 1).last() == *m);
        }
        let is_direct = m.access_flags.bits & 0x8 == 0x8 || m.access_flags.bits & 0x2 == 0x2 || str_equal(
            m.name.as_str(),
            "<init>",
        );
        if is_direct == want_direct {
            assert(method_references_readable(methods@[k as int]));
            res.push(smali_method_to_method(m, defining_class));
        }
        k += 1;
    }
    assert(methods@.take(methods@.len() as int) =~= methods@);
    res
}

fn clone_opt_string(o: &Option<String>) -> (res: Option<String>)
    ensures
        opt_text(res) == opt_text(*o),
{
    match o {
        Some(s) => Some(s.clone()),
        None => None,
    }
}

/// The class that a smali class becomes: its fields split into static and instance ones, its
/// methods into direct and virtual ones.
pub fn smali_class_to_class_def(smali_class: &SmaliClass) -> (res: ImmutableClassDef)
    requires
        class_references_readable(*smali_class),
    ensures
        class_from(res, *smali_class),
{
    let desc = smali_class.type_descriptor.as_str();
    let static_fields = fields_where(&smali_class.fields, true);
    let instance_fields = fields_where(&smali_class.fields, false);
    let direct_methods = methods_where(&smali_class.methods, true, desc);
    let virtual_methods = methods_where(&smali_class.methods, false, desc);
    let res = ImmutableClassDef {
        type_descriptor: smali_class.type_descriptor.clone(),
        access_flags: smali_class.access_flags,
        superclass: clone_opt_string(&smali_class.superclass),
        interfaces: clone_strings_vec(smali_class.interfaces.as_slice()),
        source_file: clone_opt_string(&smali_class.source_file),
        static_fields,
        instance_fields,
        direct_methods,
        virtual_methods,
    };
    assert(res.type_descriptor@ == smali_class.type_descriptor@);
    assert(opt_text(res.superclass) == opt_text(smali_class.superclass));
    assert(strings_view(res.interfaces@) == strings_view(smali_class.interfaces@));
    assert(res.static_fields@.len() == static_fields_of(smali_class.fields@).len());
    assert(res.direct_methods@.len() == direct_methods_of(smali_class.methods@).len());
    res
}


// ---------------------------------------------------------------------------------------------
// Assembling
// ---------------------------------------------------------------------------------------------

/// Whether the references that the instruction `m` names can be read.
pub open spec fn model_references_readable(m: InstructionModel) -> bool {
    match m {
        InstructionModel::InvokeStatic { method_ref, .. } => spec_method_ref(method_ref) is Some,
        InstructionModel::InvokeVirtual { method_ref, .. } => spec_method_ref(method_ref) is Some,
        InstructionModel::InvokeDirect { method_ref, .. } => spec_method_ref(method_ref) is Some,
        InstructionModel::InvokeSuper { method_ref, .. } => spec_method_ref(method_ref) is Some,
        InstructionModel::InvokeInterface { method_ref, .. } => spec_method_ref(method_ref) is Some,
        InstructionModel::IGet { field_ref, .. } => spec_field_ref(field_ref) is Some,
        InstructionModel::IPut { field_ref, .. } => spec_field_ref(field_ref) is Some,
        InstructionModel::SGet { field_ref, .. } => spec_field_ref(field_ref) is Some,
        InstructionModel::SPut { field_ref, .. } => spec_field_ref(field_ref) is Some,
        _ => true,
    }
}

/// Whether every instruction of every method of `c` names references that can be read.
pub open spec fn class_model_readable(c: ClassModel) -> bool {
    forall|k: int, j: int|
        0 <= k < c.methods.len() && 0 <= j < c.methods[k].instructions.len() ==> #[trigger] model_references_readable(
            c.methods[k].instructions[j],
        )
}

/// Whether the smali text `text` can be read and assembled without a panic of the reader or of
/// the reference parsing.
pub open spec fn smali_assemblable(text: Seq<char>) -> bool {
    &&& !(spec_parse_smali(text) is Panics)
    &&& spec_parse_smali(text) matches Outcome::Parsed(c) ==> class_model_readable(c)
}

proof fn lemma_readable_view(i: SmaliInstruction)
    ensures
        references_readable(i) == model_references_readable(i@),
{
}

proof fn lemma_class_readable(class: SmaliClass)
    requires
        class_model_readable(class@),
    ensures
        class_references_readable(class),
{
    assert forall|k: int| 0 <= k < class.methods@.len() implies #[trigger] method_references_readable(class.methods@[k]) by {
        let m = class.methods@[k];
        assert(class@.methods[k] == m@);
        assert forall|j: int| 0 <= j < m.instructions@.len() implies #[trigger] references_readable(m.instructions@[j]) by {
            assert(m@.instructions[j] == m.instructions@[j]@);
            assert(model_references_readable(class@.methods[k].instructions[j]));
            lemma_readable_view(m.instructions@[j]);
        }
    }
}

/// An instruction of the same type and opcode as one that smali assembles to can be written.
proof fn lemma_assembled_writable(s: SmaliInstruction, a: AnyInstruction, b: AnyInstruction, p: DexPool)
    requires
        assembles_to(s, a),
        kind_of(b) == kind_of(a),
        b.spec_opcode() == a.spec_opcode(),
    ensures
        instruction_units(p, b) is Some,
{
}

/// The code of the entry of a method that smali assembled can be written.
proof fn lemma_entry_code_writable(p: DexPool, e: MethodEntry, m: ImmutableMethod, s: SmaliMethod, dc: Seq<char>)
    requires
        method_entry_of(e, m),
        method_from(m, s, dc),
    ensures
        method_code_writable(p, e),
{
    if let Some(ie) = e.implementation {
        let im = m.implementation.unwrap();
        assert forall|j: int| 0 <= j < ie.instructions@.len() implies #[trigger] instruction_units(p, ie.instructions@[j]) is Some by {
            lemma_assembled_writable(s.instructions@[j], im.instructions@[j], ie.instructions@[j], p);
        }
    }
}

/// The entry of a class that smali assembled has code that can be written.
proof fn lemma_class_entry_writable(p: DexPool, e: ClassEntry, c: ImmutableClassDef, s: SmaliClass, types: Seq<Seq<char>>)
    requires
        class_entry_of(e, c, types),
        class_from(c, s),
    ensures
        forall|k: int| 0 <= k < e.direct_methods@.len() ==> #[trigger] method_code_writable(p, e.direct_methods@[k]),
        forall|k: int| 0 <= k < e.virtual_methods@.len() ==> #[trigger] method_code_writable(p, e.virtual_methods@[k]),
{
    assert forall|k: int| 0 <= k < e.direct_methods@.len() implies #[trigger] method_code_writable(p, e.direct_methods@[k]) by {
        lemma_entry_code_writable(
            p,
            e.direct_methods@[k],
            c.direct_methods@[k],
            direct_methods_of(s.methods@)[k],
            s.type_descriptor@,
        );
    }
    assert forall|k: int| 0 <= k < e.virtual_methods@.len() implies #[trigger] method_code_writable(p, e.virtual_methods@[k]) by {
        lemma_entry_code_writable(
            p,
            e.virtual_methods@[k],
            c.virtual_methods@[k],
            virtual_methods_of(s.methods@)[k],
            s.type_descriptor@,
        );
    }
}

/// Whether code that can be written with one pool can be written with another.
proof fn lemma_writable_any_pool(p: DexPool, q: DexPool, m: MethodEntry)
    requires
        method_code_writable(p, m),
    ensures
        method_code_writable(q, m),
{
    if let Some(ie) = m.implementation {
        assert forall|j: int| 0 <= j < ie.instructions@.len() implies #[trigger] instruction_units(q, ie.instructions@[j]) is Some by {
            assert(instruction_units(p, ie.instructions@[j]) is Some);
        }
    }
}

/// A file that starts with the header of some pools starts with the DEX magic number.
proof fn lemma_magic_prefix(bytes: Seq<u8>, p: DexPool, size: u32)
    requires
        bytes.len() >= 0x70,
        bytes.subrange(0, 0x70) == signed_header(p, size, bytes),
    ensures
        bytes.subrange(0, 8) == dex_magic(),
{
    assert(bytes.subrange(0, 8) =~= bytes.subrange(0, 0x70).subrange(0, 8));
    assert(signed_header(p, size, bytes).subrange(0, 8) =~= dex_magic());
}

/// The text of the error that a smali parse error gives.
pub open spec fn parse_error_text(line: usize, message: Seq<char>) -> Seq<char> {
    "Smali parse error at line "@ + decimal(line as nat) + ": "@ + message
}

/// The class that a smali text parses as (any class where it does not parse).
pub open spec fn parsed_class(text: Seq<char>) -> ClassModel {
    match spec_parse_smali(text) {
        Outcome::Parsed(m) => m,
        _ => arbitrary(),
    }
}

/// The pool entry `e` is what the smali class `m` becomes, the pooled types being `types`: the
/// class definition converted from a class read as `m`, its superclass among `types`.
pub open spec fn entry_from_model(e: ClassEntry, m: ClassModel, types: Seq<Seq<char>>) -> bool {
    exists|s: SmaliClass, c: ImmutableClassDef|
        #![trigger class_from(c, s), class_entry_of(e, c, types)]
        s@ == m && class_from(c, s) && class_entry_of(e, c, types) && (c.superclass matches Some(sc)
            ==> types.contains(sc@))
}

/// `bytes` is the DEX file written from the pools `p`, whose classes are, in order, those that the
/// smali texts `texts` become.
pub open spec fn assembled_from(p: DexPool, texts: Seq<Seq<char>>, bytes: Seq<u8>) -> bool {
    let classes = p.class_pool.spec_classes();
    &&& classes.len() == texts.len()
    &&& forall|i: int|
        0 <= i < texts.len() ==> #[trigger] entry_from_model(classes[i], parsed_class(texts[i]), p.type_pool.spec_items())
    &&& bytes.len() >= 0x70
    &&& bytes.len() <= u32::MAX
    &&& bytes.subrange(0, 0x70) == signed_header(p, bytes.len() as u32, bytes)
    &&& strings_written(p, bytes)
    &&& types_written(p, bytes)
    &&& classes_written(p, bytes)
    &&& fields_written(p, bytes)
    &&& protos_written(p, bytes)
    &&& methods_written(p, bytes)
    &&& class_interfaces_written(p, bytes)
}

proof fn lemma_index_from_extends<V>(a: Seq<V>, b: Seq<V>, v: V, i: int, k: int)
    requires
        extends(a, b),
        0 <= i <= k < a.len(),
        a[k] == v,
    ensures
        index_from(b, v, i) == index_from(a, v, i),
    decreases k - i,
{
    if a[i] != v {
        lemma_index_from_extends(a, b, v, i + 1, k);
    }
}

/// What a class becomes stays so while the types pooled grow.
proof fn lemma_entry_kept(e: ClassEntry, m: ClassModel, t1: Seq<Seq<char>>, t2: Seq<Seq<char>>)
    requires
        entry_from_model(e, m, t1),
        extends(t1, t2),
    ensures
        entry_from_model(e, m, t2),
{
    let (s, c) = choose|s: SmaliClass, c: ImmutableClassDef|
        #![trigger class_from(c, s), class_entry_of(e, c, t1)]
        s@ == m && class_from(c, s) && class_entry_of(e, c, t1) && (c.superclass matches Some(sc)
            ==> t1.contains(sc@));
    if let Some(sc) = c.superclass {
        let k = choose|k: int| 0 <= k < t1.len() && t1[k] == sc@;
        lemma_index_from_extends(t1, t2, sc@, 0, k);
        assert(t2[k] == sc@);
    }
    assert(class_entry_of(e, c, t2));
}

/// Adds the class that a smali text describes to `pool`.
fn assemble_into(pool: &mut DexPool, smali_text: &str) -> (res: Result<(), String>)
    requires
        old(pool).wf(),
        smali_assemblable(smali_text@),
        code_writable(*old(pool)),
        virtual_code_writable(*old(pool)),
    ensures
        final(pool).wf(),
        code_writable(*final(pool)),
        virtual_code_writable(*final(pool)),
        match spec_parse_smali(smali_text@) {
            Outcome::Failed(l, m) => res matches Err(e) && e@ == parse_error_text(l, m),
            _ => res is Ok,
        },
        res is Ok ==> final(pool).keeps(*old(pool)) && final(pool).class_pool.spec_classes().len()
            == old(pool).class_pool.spec_classes().len() + 1 && entry_from_model(
            final(pool).class_pool.spec_classes().last(),
            parsed_class(smali_text@),
            final(pool).type_pool.spec_items(),
        ),
{
    let class = match parse_smali(smali_text) {
        Ok(c) => c,
        Err(e) => {
            return Err(e.to_string());
        },
    };
    proof {
        lemma_class_readable(class);
    }
    let class_def = smali_class_to_class_def(&class);
    let ghost before = *pool;
    pool.intern_class(&class_def);
    proof {
        assert(class_from(class_def, class) && class_entry_of(
            pool.class_pool.spec_classes().last(),
            class_def,
            pool.type_pool.spec_items(),
        ));
        if let Some(sc) = class_def.superclass {
            assert(pool.has_type(sc@));
        }
        assert(entry_from_model(pool.class_pool.spec_classes().last(), parsed_class(smali_text@), pool.type_pool.spec_items()));
    }
    proof {
        let classes = pool.class_pool.spec_classes();
        let n = classes.len() - 1;
        lemma_class_entry_writable(*pool, classes[n], class_def, class, pool.type_pool.spec_items());
        assert forall|ci: int, k: int|
            0 <= ci < classes.len() && 0 <= k < classes[ci].direct_methods@.len() implies #[trigger] method_code_writable(
            *pool,
            classes[ci].direct_methods@[k],
        ) by {
            if ci < n {
                assert(classes[ci] == before.class_pool.spec_classes()[ci]);
                assert(method_code_writable(before, before.class_pool.spec_classes()[ci].direct_methods@[k]));
                lemma_writable_any_pool(before, *pool, classes[ci].direct_methods@[k]);
            }
        }
        assert forall|ci: int, k: int|
            0 <= ci < classes.len() && 0 <= k < classes[ci].virtual_methods@.len() implies #[trigger] method_code_writable(
            *pool,
            classes[ci].virtual_methods@[k],
        ) by {
            if ci < n {
                assert(classes[ci] == before.class_pool.spec_classes()[ci]);
                assert(method_code_writable(before, before.class_pool.spec_classes()[ci].virtual_methods@[k]));
                lemma_writable_any_pool(before, *pool, classes[ci].virtual_methods@[k]);
            }
        }
    }
    Ok(())
}

/// Assembles one smali class into the bytes of a DEX file.
pub fn assemble_smali(smali_text: &str) -> (res: Result<Vec<u8>, String>)
    requires
        smali_assemblable(smali_text@),
    ensures
        match spec_parse_smali(smali_text@) {
            Outcome::Failed(l, m) => res matches Err(e) && e@ == parse_error_text(l, m),
            _ => match res {
                Ok(bytes) => bytes@.len() >= 0x70 && bytes@.subrange(0, 8) == dex_magic(),
                Err(e) => e@ == too_large_message(),
            },
        },
        res matches Ok(bytes) ==> exists|p: DexPool| #[trigger] assembled_from(p, seq![smali_text@], bytes@),
{
    let mut pool = DexPool::new();
    match assemble_into(&mut pool, smali_text) {
        Ok(()) => {},
        Err(e) => {
            return Err(e);
        },
    }
    let res = pool.to_bytes();
    proof {
        if res is Ok {
            lemma_magic_prefix(res->Ok_0@, pool, res->Ok_0@.len() as u32);
            assert(seq![smali_text@][0] == smali_text@);
            assert(assembled_from(pool, seq![smali_text@], res->Ok_0@));
        }
    }
    res
}

/// The message of the parse error of a smali text that fails to parse.
pub open spec fn parse_failure_text(text: Seq<char>) -> Seq<char> {
    match spec_parse_smali(text) {
        Outcome::Failed(l, m) => parse_error_text(l, m),
        _ => Seq::empty(),
    }
}

/// Whether a smali text fails to parse.
pub open spec fn parse_fails(text: Seq<char>) -> bool {
    spec_parse_smali(text) is Failed
}

/// Assembles the smali texts of several files, `(name, text)` in the order given, into one DEX
/// file. An error names the file it comes from.
pub fn assemble_smali_sources(files: &[(String, String)]) -> (res: Result<Vec<u8>, String>)
    requires
        forall|k: int| 0 <= k < files@.len() ==> #[trigger] smali_assemblable(files@[k].1@),
    ensures
        res matches Ok(bytes) ==> bytes@.len() >= 0x70 && bytes@.subrange(0, 8) == dex_magic(),
        (forall|k: int| 0 <= k < files@.len() ==> !(#[trigger] spec_parse_smali(files@[k].1@) is Failed))
            ==> (res is Err ==> res->Err_0@ == too_large_message()),
        forall|j: int|
            0 <= j < files@.len() && #[trigger] parse_fails(files@[j].1@) && (forall|i: int|
                0 <= i < j ==> !parse_fails(files@[i].1@)) ==> (res matches Err(e) && e@ == files@[j].0@ + ": "@
                + parse_failure_text(files@[j].1@)),
        (exists|j: int| 0 <= j < files@.len() && #[trigger] parse_fails(files@[j].1@)) ==> res is Err,
        res matches Err(e) ==> e@ == too_large_message() || exists|j: int|
            0 <= j < files@.len() && #[trigger] parse_fails(files@[j].1@) && e@ == files@[j].0@ + ": "@
                + parse_failure_text(files@[j].1@),
        res matches Ok(bytes) ==> exists|p: DexPool| #[trigger] assembled_from(p, file_texts(files@), bytes@),
{
    let mut pool = DexPool::new();
    let mut k: usize = 0;
    while k < files.len()
        invariant
            pool.wf(),
            code_writable(pool),
            virtual_code_writable(pool),
            forall|j: int| 0 <= j < files@.len() ==> #[trigger] smali_assemblable(files@[j].1@),
            k <= files@.len(),
            forall|i: int| 0 <= i < k ==> !#[trigger] parse_fails(files@[i].1@),
            pool.class_pool.spec_classes().len() == k,
            forall|i: int|
                0 <= i < k ==> #[trigger] entry_from_model(
                    pool.class_pool.spec_classes()[i],
                    parsed_class(files@[i].1@),
                    pool.type_pool.spec_items(),
                ),
        decreases files.len() - k,
    {
        let ghost before = pool;
        let (name, content) = &files[k];
        assert(smali_assemblable(files@[k as int].1@));
        match assemble_into(&mut pool, content.as_str()) {
            Ok(()) => {},
            Err(e) => {
                let mut message = name.clone();
                message.append(": ");
                message.append(e.as_str());
                proof {
                    assert(parse_fails(files@[k as int].1@));
                    assert forall|j: int|
                        0 <= j < files@.len() && #[trigger] parse_fails(files@[j].1@) && (forall|i: int|
                            0 <= i < j ==> !parse_fails(files@[i].1@)) implies message@ == files@[j].0@ + ": "@
                        + parse_failure_text(files@[j].1@) by {
                        if j < k {
                        } else if j > k {
                            assert(!parse_fails(files@[k as int].1@));
                        }
                    }
                }
                return Err(message);
            },
        }
        assert(!parse_fails(files@[k as int].1@));
        proof {
            assert forall|i: int| 0 <= i < k + 1 implies #[trigger] entry_from_model(
                pool.class_pool.spec_classes()[i],
                parsed_class(files@[i].1@),
                pool.type_pool.spec_items(),
            ) by {
                if i < k {
                    assert(pool.class_pool.spec_classes()[i] == before.class_pool.spec_classes()[i]);
                    lemma_entry_kept(
                        before.class_pool.spec_classes()[i],
                        parsed_class(files@[i].1@),
                        before.type_pool.spec_items(),
                        pool.type_pool.spec_items(),
                    );
                }
            }
        }
        k += 1;
    }
    let res = pool.to_bytes();
    proof {
        if res is Ok {
            lemma_magic_prefix(res->Ok_0@, pool, res->Ok_0@.len() as u32);
            assert(assembled_from(pool, file_texts(files@), res->Ok_0@));
        }
    }
    res
}

/// The texts of `(name, text)` files, in order.
pub open spec fn file_texts(files: Seq<(String, String)>) -> Seq<Seq<char>> {
    files.map_values(|f: (String, String)| f.1@)
}


/// Whether `entry` holds a name and a text that `files` maps it to.
pub open spec fn file_entry_of(files: Map<String, String>, entry: (String, String)) -> bool {
    exists|key: String| #[trigger] files.contains_key(key) && key@ == entry.0@ && files[key]@ == entry.1@
}

/// `HashMap::iter` over smali files, each entry copied: every entry of the map, once each (the
/// iterator visits all of them), in the order that the map walks them. That order rests on the
/// map's hasher, whose seed is random, so nothing is said of it.
#[verifier::external_body]
fn smali_file_entries(files: &HashMap<String, String>) -> (res: Vec<(String, String)>)
    ensures
        res@.len() == files@.len(),
        forall|k: int| 0 <= k < res@.len() ==> #[trigger] file_entry_of(files@, res@[k]),
        forall|key: String|
            #[trigger] files@.contains_key(key) ==> exists|k: int|
                0 <= k < res@.len() && res@[k].0@ == key@ && res@[k].1@ == files@[key]@,
{
    files.iter().map(|(k, v)| (k.clone(), v.clone())).collect()
}

/// Assembles the smali texts of several files, named by their keys, into one DEX file. The
/// classes go in the order that the map walks its entries; an error names the file.
pub fn assemble_smali_files(files: &HashMap<String, String>) -> (res: Result<Vec<u8>, String>)
    requires
        forall|key: String| #[trigger] files@.contains_key(key) ==> smali_assemblable(files@[key]@),
    ensures
        res matches Ok(bytes) ==> bytes@.len() >= 0x70 && bytes@.subrange(0, 8) == dex_magic(),
        (forall|key: String| #[trigger] files@.contains_key(key) ==> !parse_fails(files@[key]@)) ==> (res is Err
            ==> res->Err_0@ == too_large_message()),
        (exists|key: String| #[trigger] files@.contains_key(key) && parse_fails(files@[key]@)) ==> res is Err,
        res matches Err(e) ==> e@ == too_large_message() || exists|key: String|
            #[trigger] files@.contains_key(key) && parse_fails(files@[key]@) && e@ == key@ + ": "@
                + parse_failure_text(files@[key]@),
        res matches Ok(bytes) ==> exists|texts: Seq<Seq<char>>, p: DexPool|
            #![trigger texts_of_files(files@, texts), assembled_from(p, texts, bytes@)]
            texts_of_files(files@, texts) && assembled_from(p, texts, bytes@),
{
    let entries = smali_file_entries(files);
    assert forall|k: int| 0 <= k < entries@.len() implies #[trigger] smali_assemblable(entries@[k].1@) by {
        assert(file_entry_of(files@, entries@[k]));
        let key = choose|key: String| #[trigger] files@.contains_key(key) && key@ == entries@[k].0@ && files@[key]@
            == entries@[k].1@;
        assert(smali_assemblable(files@[key]@));
    }
    let res = assemble_smali_sources(entries.as_slice());
    proof {
        if forall|key: String| #[trigger] files@.contains_key(key) ==> !parse_fails(files@[key]@) {
            assert forall|k: int| 0 <= k < entries@.len() implies !(#[trigger] spec_parse_smali(
                entries@[k].1@,
            ) is Failed) by {
                assert(file_entry_of(files@, entries@[k]));
                let key = choose|key: String| #[trigger] files@.contains_key(key) && key@ == entries@[k].0@
                    && files@[key]@ == entries@[k].1@;
                assert(!parse_fails(files@[key]@));
            }
        }
        if exists|key: String| #[trigger] files@.contains_key(key) && parse_fails(files@[key]@) {
            let key = choose|key: String| #[trigger] files@.contains_key(key) && parse_fails(files@[key]@);
            let k = choose|k: int| 0 <= k < entries@.len() && entries@[k].0@ == key@ && entries@[k].1@ == files@[key]@;
            assert(parse_fails(entries@[k].1@));
        }
        if res is Err && res->Err_0@ != too_large_message() {
            let e = res->Err_0;
            let j = choose|j: int|
                0 <= j < entries@.len() && #[trigger] parse_fails(entries@[j].1@) && e@ == entries@[j].0@ + ": "@
                    + parse_failure_text(entries@[j].1@);
            assert(file_entry_of(files@, entries@[j]));
            let key = choose|key: String| #[trigger] files@.contains_key(key) && key@ == entries@[j].0@
                && files@[key]@ == entries@[j].1@;
            assert(parse_fails(files@[key]@));
        }
        if res is Ok {
            lemma_texts_of_entries(files@, entries@);
            assert(texts_of_files(files@, file_texts(entries@)));
        }
    }
    res
}

proof fn lemma_texts_of_entries(files: Map<String, String>, entries: Seq<(String, String)>)
    requires
        entries.len() == files.len(),
        forall|k: int| 0 <= k < entries.len() ==> #[trigger] file_entry_of(files, entries[k]),
        forall|key: String|
    #[trigger] files.contains_key(key) ==> exists|k: int|
        0 <= k < entries.len() && entries[k].0@ == key@ && entries[k].1@ == files[key]@,
    ensures
        texts_of_files(files, file_texts(entries)),
{
    let texts = file_texts(entries);
    assert(texts.len() == files.len());
    assert forall|k: int| 0 <= k < texts.len() implies is_file_text(files, #[trigger] texts[k]) by {
        assert(file_entry_of(files, entries[k]));
        let key = choose|key: String| #[trigger] files.contains_key(key) && key@ == entries[k].0@ && files[key]@
            == entries[k].1@;
        assert(files.contains_key(key) && files[key]@ == texts[k]);
    }
    assert forall|key: String| #[trigger] files.contains_key(key) implies texts.contains(files[key]@) by {
        let k = choose|k: int| 0 <= k < entries.len() && entries[k].0@ == key@ && entries[k].1@ == files[key]@;
        assert(texts[k] == files[key]@);
    }
}

/// Whether `t` is the text of some file of `files`.
pub open spec fn is_file_text(files: Map<String, String>, t: Seq<char>) -> bool {
    exists|key: String| #[trigger] files.contains_key(key) && files[key]@ == t
}

/// `texts` lists the texts of the files of `files`, as many as there are files: each is the text
/// of some file, and the text of every file is among them.
pub open spec fn texts_of_files(files: Map<String, String>, texts: Seq<Seq<char>>) -> bool {
    &&& texts.len() == files.len()
    &&& forall|k: int| 0 <= k < texts.len() ==> is_file_text(files, #[trigger] texts[k])
    &&& forall|key: String| #[trigger] files.contains_key(key) ==> texts.contains(files[key]@)
}

} // verus!
