use vstd::prelude::*;
use crate::base::opcode::{opcode_format, InstructionFormat, Opcode};
use crate::base::access_flags::{AccessFlags, ALL_ACCESS_FLAG_BITS};
use crate::dexbacked::dex_backed_class_def::DexBackedClassDef;
use crate::dexbacked::dex_backed_field::DexBackedField;
use crate::dexbacked::dex_backed_instruction::{
    decode_all_instructions, decodes_to, no_array_payload_at_limit, DexBackedInstruction,
};
use crate::dexbacked::dex_backed_method::{DexBackedMethod, DexBackedMethodImplementation};
use crate::dexbacked::header::{
    class_def_at, code_insns_size, code_item_in_bounds, code_item_tries_fit, code_try_at,
    field_id_at, has_dex_magic, header_matches, method_id_at, parse_class_data,
    parse_class_defs, parse_code_item, parse_interface_list, spec_class_data, spec_u16_le,
    ClassDataField, ClassDataHeader, ClassDataMethod,
    parse_field_ids, parse_method_ids, parse_proto_ids, parse_proto_parameter_types,
    parse_string_data, parse_string_ids, parse_type_ids, proto_id_at, read_u32_le, spec_string_data,
    spec_u32_le, string_id_at, table_fits, type_id_at, type_list, type_list_fits, ClassDefItem,
    DexHeader, FieldIdItem, MethodIdItem, ProtoIdItem, StringIdItem, TypeIdItem,
};
use crate::iface::instruction::{instruction_copied, AnyInstruction, Instruction};
use crate::iface::method::TryBlock;
use crate::iface::reference::{
    strings_view, FieldReference, MethodReference, ReferenceHolder, StringReference,
    TypeReference,
};
use crate::immutable::immutable_instruction::{
    ImmutableInstruction10t, ImmutableInstruction10x, ImmutableInstruction11n,
    ImmutableInstruction11x, ImmutableInstruction12x, ImmutableInstruction20t,
    ImmutableInstruction21c, ImmutableInstruction21s, ImmutableInstruction21t,
    ImmutableInstruction22b, ImmutableInstruction22c, ImmutableInstruction22s,
    ImmutableInstruction22t, ImmutableInstruction22x, ImmutableInstruction23x,
    ImmutableInstruction30t, ImmutableInstruction31c, ImmutableInstruction31i,
    ImmutableInstruction31t, ImmutableInstruction32x, ImmutableInstruction35c,
    ImmutableInstruction3rc, ImmutableInstruction51l,
};

verus! {

// ---------------------------------------------------------------------------------------------
// What the tables of a dex file say
// ---------------------------------------------------------------------------------------------

/// Whether each id table named by the header lies inside the data.
pub open spec fn tables_fit(data: Seq<u8>) -> bool {
    let len = data.len() as int;
    &&& table_fits(len, spec_u32_le(data, 60), spec_u32_le(data, 56), 4)
    &&& table_fits(len, spec_u32_le(data, 68), spec_u32_le(data, 64), 4)
    &&& table_fits(len, spec_u32_le(data, 76), spec_u32_le(data, 72), 12)
    &&& table_fits(len, spec_u32_le(data, 84), spec_u32_le(data, 80), 8)
    &&& table_fits(len, spec_u32_le(data, 92), spec_u32_le(data, 88), 8)
    &&& table_fits(len, spec_u32_le(data, 100), spec_u32_le(data, 96), 32)
}

/// String `idx`, where it exists and reads as modified UTF-8.
pub open spec fn dex_string(data: Seq<u8>, h: DexHeader, idx: u32) -> Option<Seq<char>> {
    if idx < h.string_ids_size {
        match spec_string_data(data, string_id_at(data, h.string_ids_off, idx as int).string_data_off as int) {
            Ok(s) => Some(s),
            Err(_) => None,
        }
    } else {
        None
    }
}

/// Whether reading string `idx` stays inside the data.
pub open spec fn string_ok(data: Seq<u8>, h: DexHeader, idx: u32) -> bool {
    idx < h.string_ids_size ==> string_id_at(data, h.string_ids_off, idx as int).string_data_off
        <= data.len()
}

/// The descriptor of type `idx`, where it exists.
pub open spec fn dex_type(data: Seq<u8>, h: DexHeader, idx: u32) -> Option<Seq<char>> {
    if idx < h.type_ids_size {
        dex_string(data, h, type_id_at(data, h.type_ids_off, idx as int).descriptor_idx)
    } else {
        None
    }
}

/// Whether reading type `idx` stays inside the data.
pub open spec fn type_ok(data: Seq<u8>, h: DexHeader, idx: u32) -> bool {
    idx < h.type_ids_size ==> string_ok(data, h, type_id_at(data, h.type_ids_off, idx as int).descriptor_idx)
}

/// The shorty of prototype `idx`, where it exists.
pub open spec fn dex_proto_shorty(data: Seq<u8>, h: DexHeader, idx: u32) -> Option<Seq<char>> {
    if idx < h.proto_ids_size {
        dex_string(data, h, proto_id_at(data, h.proto_ids_off, idx as int).shorty_idx)
    } else {
        None
    }
}

/// Whether reading the shorty of prototype `idx` stays inside the data.
pub open spec fn shorty_ok(data: Seq<u8>, h: DexHeader, idx: u32) -> bool {
    idx < h.proto_ids_size ==> string_ok(data, h, proto_id_at(data, h.proto_ids_off, idx as int).shorty_idx)
}

/// The return type of prototype `idx`, where it exists.
pub open spec fn dex_proto_return(data: Seq<u8>, h: DexHeader, idx: u32) -> Option<Seq<char>> {
    if idx < h.proto_ids_size {
        dex_type(data, h, proto_id_at(data, h.proto_ids_off, idx as int).return_type_idx)
    } else {
        None
    }
}

/// Whether reading the return type of prototype `idx` stays inside the data.
pub open spec fn proto_return_ok(data: Seq<u8>, h: DexHeader, idx: u32) -> bool {
    idx < h.proto_ids_size ==> type_ok(data, h, proto_id_at(data, h.proto_ids_off, idx as int).return_type_idx)
}

/// The descriptors of the types of `list` that exist, in order; the others are left out.
pub open spec fn known_types(data: Seq<u8>, h: DexHeader, list: Seq<u32>) -> Seq<Seq<char>>
    decreases list.len(),
{
    if list.len() == 0 {
        Seq::empty()
    } else {
        let rest = known_types(data, h, list.drop_last());
        match dex_type(data, h, list.last()) {
            Some(t) => rest.push(t),
            None => rest,
        }
    }
}

/// The type indices of the parameters of prototype `idx`.
pub open spec fn proto_param_indices(data: Seq<u8>, h: DexHeader, idx: u32) -> Seq<u32> {
    type_list(data, proto_id_at(data, h.proto_ids_off, idx as int).parameters_off).map_values(
        |t: u16| t as u32,
    )
}

/// The parameter types of prototype `idx` that exist; empty where the prototype does not.
pub open spec fn dex_proto_params(data: Seq<u8>, h: DexHeader, idx: u32) -> Seq<Seq<char>> {
    if idx < h.proto_ids_size {
        known_types(data, h, proto_param_indices(data, h, idx))
    } else {
        Seq::empty()
    }
}

/// Whether reading the parameter types of prototype `idx` stays inside the data.
pub open spec fn proto_params_ok(data: Seq<u8>, h: DexHeader, idx: u32) -> bool {
    idx < h.proto_ids_size ==> {
        &&& type_list_fits(data, proto_id_at(data, h.proto_ids_off, idx as int).parameters_off)
        &&& forall|k: int|
            0 <= k < proto_param_indices(data, h, idx).len() ==> type_ok(
                data,
                h,
                #[trigger] proto_param_indices(data, h, idx)[k],
            )
    }
}

/// Field `idx` as (defining class, name, type), where all three exist.
pub open spec fn dex_field_ref(data: Seq<u8>, h: DexHeader, idx: u32) -> Option<
    (Seq<char>, Seq<char>, Seq<char>),
> {
    if idx < h.field_ids_size {
        let f = field_id_at(data, h.field_ids_off, idx as int);
        match dex_type(data, h, f.class_idx as u32) {
            None => None,
            Some(c) => match dex_type(data, h, f.type_idx as u32) {
                None => None,
                Some(t) => match dex_string(data, h, f.name_idx) {
                    None => None,
                    Some(n) => Some((c, n, t)),
                },
            },
        }
    } else {
        None
    }
}

/// Whether reading field `idx` stays inside the data.
pub open spec fn field_ref_ok(data: Seq<u8>, h: DexHeader, idx: u32) -> bool {
    idx < h.field_ids_size ==> {
        let f = field_id_at(data, h.field_ids_off, idx as int);
        &&& type_ok(data, h, f.class_idx as u32)
        &&& dex_type(data, h, f.class_idx as u32) is Some ==> type_ok(data, h, f.type_idx as u32)
        &&& dex_type(data, h, f.class_idx as u32) is Some && dex_type(data, h, f.type_idx as u32) is Some
            ==> string_ok(data, h, f.name_idx)
    }
}

/// Method `idx` as (defining class, name, parameter types, return type), where the class, name
/// and return type exist.
pub open spec fn dex_method_ref(data: Seq<u8>, h: DexHeader, idx: u32) -> Option<
    (Seq<char>, Seq<char>, Seq<Seq<char>>, Seq<char>),
> {
    if idx < h.method_ids_size {
        let m = method_id_at(data, h.method_ids_off, idx as int);
        match dex_type(data, h, m.class_idx as u32) {
            None => None,
            Some(c) => match dex_string(data, h, m.name_idx) {
                None => None,
                Some(n) => match dex_proto_return(data, h, m.proto_idx as u32) {
                    None => None,
                    Some(r) => Some((c, n, dex_proto_params(data, h, m.proto_idx as u32), r)),
                },
            },
        }
    } else {
        None
    }
}

/// Whether reading method `idx` stays inside the data.
pub open spec fn method_ref_ok(data: Seq<u8>, h: DexHeader, idx: u32) -> bool {
    idx < h.method_ids_size ==> {
        let m = method_id_at(data, h.method_ids_off, idx as int);
        let c = dex_type(data, h, m.class_idx as u32);
        let n = dex_string(data, h, m.name_idx);
        let r = dex_proto_return(data, h, m.proto_idx as u32);
        &&& type_ok(data, h, m.class_idx as u32)
        &&& c is Some ==> string_ok(data, h, m.name_idx)
        &&& c is Some && n is Some ==> proto_return_ok(data, h, m.proto_idx as u32)
        &&& c is Some && n is Some && r is Some ==> proto_params_ok(data, h, m.proto_idx as u32)
    }
}

/// The text of an optional string.
pub open spec fn opt_text(s: Option<String>) -> Option<Seq<char>> {
    match s {
        Some(t) => Some(t@),
        None => None,
    }
}

/// Opcodes whose index names a string.
pub open spec fn is_string_opcode(op: Opcode) -> bool {
    op == Opcode::ConstString || op == Opcode::ConstStringJumbo
}

/// Opcodes whose index names a type.
pub open spec fn is_type_opcode(op: Opcode) -> bool {
    ||| op == Opcode::ConstClass
    ||| op == Opcode::CheckCast
    ||| op == Opcode::NewInstance
    ||| op == Opcode::FilledNewArray
    ||| op == Opcode::FilledNewArrayRange
}

/// Opcodes whose index names a field.
pub open spec fn is_field_opcode(op: Opcode) -> bool {
    ||| op == Opcode::Sget
    ||| op == Opcode::SgetWide
    ||| op == Opcode::SgetObject
    ||| op == Opcode::SgetBoolean
    ||| op == Opcode::SgetByte
    ||| op == Opcode::SgetChar
    ||| op == Opcode::SgetShort
    ||| op == Opcode::Sput
    ||| op == Opcode::SputWide
    ||| op == Opcode::SputObject
    ||| op == Opcode::SputBoolean
    ||| op == Opcode::SputByte
    ||| op == Opcode::SputChar
    ||| op == Opcode::SputShort
    ||| op == Opcode::Iget
    ||| op == Opcode::IgetWide
    ||| op == Opcode::IgetObject
    ||| op == Opcode::IgetBoolean
    ||| op == Opcode::IgetByte
    ||| op == Opcode::IgetChar
    ||| op == Opcode::IgetShort
    ||| op == Opcode::Iput
    ||| op == Opcode::IputWide
    ||| op == Opcode::IputObject
    ||| op == Opcode::IputBoolean
    ||| op == Opcode::IputByte
    ||| op == Opcode::IputChar
    ||| op == Opcode::IputShort
}

/// Whether resolving `index` for `op` stays inside the data.
pub open spec fn reference_ok(data: Seq<u8>, h: DexHeader, index: u32, op: Opcode) -> bool {
    if is_string_opcode(op) {
        string_ok(data, h, index)
    } else if is_type_opcode(op) {
        type_ok(data, h, index)
    } else if is_field_opcode(op) {
        field_ref_ok(data, h, index)
    } else {
        method_ref_ok(data, h, index)
    }
}

/// Whether `r` is what `index` resolves to for `op`: a string, type, field or (for every other
/// opcode) method reference, with empty parts (or `Ljava/lang/Object;` for a type) where the
/// item does not exist.
pub open spec fn resolves_to(data: Seq<u8>, h: DexHeader, index: u32, op: Opcode, r: ReferenceHolder) -> bool {
    if is_string_opcode(op) {
        r matches ReferenceHolder::String(s) && s.string@ == match dex_string(data, h, index) {
            Some(t) => t,
            None => ""@,
        }
    } else if is_type_opcode(op) {
        r matches ReferenceHolder::Type(t) && t.type_descriptor@ == match dex_type(data, h, index) {
            Some(d) => d,
            None => "Ljava/lang/Object;"@,
        }
    } else if is_field_opcode(op) {
        r matches ReferenceHolder::Field(f) && match dex_field_ref(data, h, index) {
            Some((c, n, t)) => f.defining_class@ == c && f.field_name@ == n && f.field_type@ == t,
            None => f.defining_class@ == ""@ && f.field_name@ == ""@ && f.field_type@ == ""@,
        }
    } else {
        r matches ReferenceHolder::Method(m) && match dex_method_ref(data, h, index) {
            Some((c, n, p, t)) => m.defining_class@ == c && m.method_name@ == n && strings_view(
                m.parameter_types@,
            ) == p && m.return_type@ == t,
            None => m.defining_class@ == ""@ && m.method_name@ == ""@ && m.parameter_types@.len()
                == 0 && m.return_type@ == ""@,
        }
    }
}

/// Whether the reference that an instruction names can be resolved inside the data.
pub open spec fn conversion_ok(data: Seq<u8>, h: DexHeader, d: DexBackedInstruction) -> bool {
    let op = d.spec_opcode();
    match opcode_format(op) {
        InstructionFormat::Format21c
        | InstructionFormat::Format22c
        | InstructionFormat::Format22cs
        | InstructionFormat::Format35c
        | InstructionFormat::Format35mi
        | InstructionFormat::Format35ms
        | InstructionFormat::Format45cc
        | InstructionFormat::Format3rc
        | InstructionFormat::Format3rmi
        | InstructionFormat::Format3rms
        | InstructionFormat::Format4rcc => reference_ok(
            data,
            h,
            d.spec_reference_index_16() as u32,
            op,
        ),
        InstructionFormat::Format31c => reference_ok(data, h, d.spec_reference_index_32(), op),
        _ => true,
    }
}

/// Whether `res` is the immutable form of `d`: chosen by the format of its opcode, with the
/// operands read as the Dalvik format lays them out (two registers of four bits each in the first
/// code unit, A below B; the register count, G and then C to F of a 35c-like instruction in the
/// first and third units; 35c-like and 3rc-like formats read as 35c and 3rc, 21ih and 21lh as
/// 21s) and the reference resolved; a payload or another format stays as it is.
pub open spec fn converted(data: Seq<u8>, h: DexHeader, d: DexBackedInstruction, res: AnyInstruction) -> bool {
    let op = d.spec_opcode();
    match opcode_format(op) {
        InstructionFormat::Format10x => res == AnyInstruction::I10x(ImmutableInstruction10x { opcode: op }),
        InstructionFormat::Format12x => res == AnyInstruction::I12x(
            ImmutableInstruction12x {
                opcode: op,
                register_a: d.spec_register_c_nibble(),
                register_b: d.spec_register_b_nibble(),
            },
        ),
        InstructionFormat::Format11n => res == AnyInstruction::I11n(
            ImmutableInstruction11n {
                opcode: op,
                register_a: d.spec_register_c_nibble(),
                literal: d.spec_literal_nibble(),
            },
        ),
        InstructionFormat::Format11x => res == AnyInstruction::I11x(
            ImmutableInstruction11x { opcode: op, register_a: d.spec_register_a_byte() as u16 },
        ),
        InstructionFormat::Format10t => res == AnyInstruction::I10t(
            ImmutableInstruction10t { opcode: op, code_offset: d.spec_code_offset_8() },
        ),
        InstructionFormat::Format20t => res == AnyInstruction::I20t(
            ImmutableInstruction20t { opcode: op, code_offset: d.spec_code_offset_16() as i32 },
        ),
        InstructionFormat::Format30t => res == AnyInstruction::I30t(
            ImmutableInstruction30t { opcode: op, code_offset: d.spec_code_offset_32() },
        ),
        InstructionFormat::Format21c => res matches AnyInstruction::I21c(i) && i.opcode == op
            && i.register_a == d.spec_register_a_byte() && resolves_to(
            data,
            h,
            d.spec_reference_index_16() as u32,
            op,
            i.reference,
        ),
        InstructionFormat::Format21ih | InstructionFormat::Format21lh => res == AnyInstruction::I21s(
            ImmutableInstruction21s {
                opcode: op,
                register_a: d.spec_register_a_byte(),
                literal: d.spec_literal_16(),
            },
        ),
        InstructionFormat::Format31c => res matches AnyInstruction::I31c(i) && i.opcode == op
            && i.register_a == d.spec_register_a_byte() && resolves_to(
            data,
            h,
            d.spec_reference_index_32(),
            op,
            i.reference,
        ),
        InstructionFormat::Format22c | InstructionFormat::Format22cs => res matches AnyInstruction::I22c(i)
            && i.opcode == op && i.register_a == d.spec_register_c_nibble() && i.register_b
            == d.spec_register_b_nibble() && resolves_to(
            data,
            h,
            d.spec_reference_index_16() as u32,
            op,
            i.reference,
        ),
        InstructionFormat::Format35c
        | InstructionFormat::Format35mi
        | InstructionFormat::Format35ms
        | InstructionFormat::Format45cc => res matches AnyInstruction::I35c(i) && i.opcode == op
            && i.register_count == d.spec_invoke_register_count() && i.register_c
            == d.spec_invoke_register_c() && i.register_d == d.spec_invoke_register_d()
            && i.register_e == d.spec_invoke_register_e() && i.register_f
            == d.spec_invoke_register_f() && i.register_g == d.spec_invoke_register_g()
            && resolves_to(data, h, d.spec_reference_index_16() as u32, op, i.reference),
        InstructionFormat::Format3rc
        | InstructionFormat::Format3rmi
        | InstructionFormat::Format3rms
        | InstructionFormat::Format4rcc => res matches AnyInstruction::I3rc(i) && i.opcode == op
            && i.register_count == d.spec_invoke_range_count() && i.start_register
            == d.spec_invoke_range_start() && resolves_to(
            data,
            h,
            d.spec_reference_index_16() as u32,
            op,
            i.reference,
        ),
        InstructionFormat::Format21s => res == AnyInstruction::I21s(
            ImmutableInstruction21s {
                opcode: op,
                register_a: d.spec_register_a_byte(),
                literal: d.spec_literal_16(),
            },
        ),
        InstructionFormat::Format31i => res == AnyInstruction::I31i(
            ImmutableInstruction31i {
                opcode: op,
                register_a: d.spec_register_a_byte(),
                literal: d.spec_literal_32(),
            },
        ),
        InstructionFormat::Format51l => res == AnyInstruction::I51l(
            ImmutableInstruction51l {
                opcode: op,
                register_a: d.spec_register_a_byte(),
                literal: d.spec_literal_64(),
            },
        ),
        InstructionFormat::Format21t => res == AnyInstruction::I21t(
            ImmutableInstruction21t {
                opcode: op,
                register_a: d.spec_register_a_byte(),
                code_offset: d.spec_code_offset_16(),
            },
        ),
        InstructionFormat::Format22t => res == AnyInstruction::I22t(
            ImmutableInstruction22t {
                opcode: op,
                register_a: d.spec_register_c_nibble(),
                register_b: d.spec_register_b_nibble(),
                code_offset: d.spec_code_offset_16(),
            },
        ),
        InstructionFormat::Format22b => res == AnyInstruction::I22b(
            ImmutableInstruction22b {
                opcode: op,
                register_a: d.spec_register_a_byte(),
                register_b: d.spec_register_b_byte(),
                literal: d.spec_literal_byte(),
            },
        ),
        InstructionFormat::Format22s => res == AnyInstruction::I22s(
            ImmutableInstruction22s {
                opcode: op,
                register_a: d.spec_register_c_nibble(),
                register_b: d.spec_register_b_nibble(),
                literal: d.spec_literal_16(),
            },
        ),
        InstructionFormat::Format22x => res == AnyInstruction::I22x(
            ImmutableInstruction22x {
                opcode: op,
                register_a: d.spec_register_a_22x(),
                register_b: d.spec_register_b_22x(),
            },
        ),
        InstructionFormat::Format23x => res == AnyInstruction::I23x(
            ImmutableInstruction23x {
                opcode: op,
                register_a: d.spec_register_a_byte(),
                register_b: d.spec_register_b_byte(),
                register_c: d.spec_register_c_byte(),
            },
        ),
        InstructionFormat::Format31t => res == AnyInstruction::I31t(
            ImmutableInstruction31t {
                opcode: op,
                register_a: d.spec_register_a_byte(),
                code_offset: d.spec_code_offset_32(),
            },
        ),
        InstructionFormat::Format32x => res == AnyInstruction::I32x(
            ImmutableInstruction32x {
                opcode: op,
                register_a: d.spec_register_a_32x(),
                register_b: d.spec_register_b_32x(),
            },
        ),
        _ => res matches AnyInstruction::DexBacked(c) && c.spec_opcode() == op && c.spec_raw_insns()
            == d.spec_raw_insns() && c.spec_offset() == d.spec_offset(),
    }
}

// ---------------------------------------------------------------------------------------------
// Classes
// ---------------------------------------------------------------------------------------------

/// The code units of the code item at `off`.
pub open spec fn code_insns(data: Seq<u8>, off: int) -> Seq<u16> {
    Seq::new(code_insns_size(data, off) as nat, |i: int| spec_u16_le(data, off + 16 + 2 * i))
}

/// Whether reading the method body at `code_off` stays in range: its try items lie inside the
/// data and no array payload among its code has a size that overflows.
pub open spec fn body_ok(data: Seq<u8>, code_off: u32) -> bool {
    &&& code_item_tries_fit(data, code_off)
    &&& code_item_in_bounds(data, code_off) ==> no_array_payload_at_limit(
        code_insns(data, code_off as int),
    )
}

/// Whether `r` is the body read from the code item at `code_off`: its register count, its
/// decoded instructions, a try block (without handlers) per try item, and no debug items.
pub open spec fn body_read_from(data: Seq<u8>, code_off: u32, r: DexBackedMethodImplementation) -> bool {
    let off = code_off as int;
    &&& r.register_count == spec_u16_le(data, off)
    &&& decodes_to(code_insns(data, off), r.instructions@)
    &&& r.try_blocks@.len() == spec_u16_le(data, off + 6)
    &&& forall|k: int|
        0 <= k < r.try_blocks@.len() ==> {
            &&& (#[trigger] r.try_blocks@[k]).start_code_address == code_try_at(data, off, k).start_addr
            &&& r.try_blocks@[k].code_unit_count == code_try_at(data, off, k).insn_count
            &&& r.try_blocks@[k].handlers@.len() == 0
        }
    &&& r.debug_items@.len() == 0
}

/// Whether `f` is the field built from field `idx`, named (`c`, `n`, `t`), with `flags`.
pub open spec fn field_from(f: DexBackedField, c: Seq<char>, n: Seq<char>, t: Seq<char>, idx: u32, flags: u32) -> bool {
    &&& f.defining_class@ == c
    &&& f.name@ == n
    &&& f.field_type@ == t
    &&& f.access_flags.spec_bits() == flags & ALL_ACCESS_FLAG_BITS
    &&& f.field_index == idx
    &&& f.hidden_api_restrictions == 0
}

/// Whether `m` is the method built from method `idx` of the file, with `flags` and the body at
/// `code_off` (none for offset 0 or a code item that does not fit).
pub open spec fn method_from(data: Seq<u8>, h: DexHeader, m: DexBackedMethod, idx: u32, flags: u32, code_off: u32) -> bool {
    match dex_method_ref(data, h, idx) {
        Some((c, n, p, t)) => {
            &&& m.defining_class@ == c
            &&& m.name@ == n
            &&& strings_view(m.parameter_types@) == p
            &&& m.return_type@ == t
            &&& m.access_flags.spec_bits() == flags & ALL_ACCESS_FLAG_BITS
            &&& m.method_index == idx
            &&& m.hidden_api_restrictions == 0
            &&& if code_off != 0 && code_item_in_bounds(data, code_off) {
                m.implementation matches Some(r) && body_read_from(data, code_off, r)
            } else {
                m.implementation is None
            }
        },
        None => false,
    }
}

/// Whether building each field of `fs` stays in range.
pub open spec fn fields_ok(data: Seq<u8>, h: DexHeader, fs: Seq<ClassDataField>) -> bool {
    forall|k: int| 0 <= k < fs.len() ==> field_ref_ok(data, h, (#[trigger] fs[k]).field_idx_diff)
}

/// Whether building each method of `ms` stays in range.
pub open spec fn methods_ok(data: Seq<u8>, h: DexHeader, ms: Seq<ClassDataMethod>) -> bool {
    forall|k: int|
        0 <= k < ms.len() ==> {
            &&& method_ref_ok(data, h, (#[trigger] ms[k]).method_idx_diff)
            &&& dex_method_ref(data, h, ms[k].method_idx_diff) is Some && ms[k].code_off != 0
                ==> body_ok(data, ms[k].code_off)
        }
}

/// Whether `rs` holds, in order, the field built from each entry of `fs` whose field exists.
pub open spec fn fields_built(data: Seq<u8>, h: DexHeader, fs: Seq<ClassDataField>, rs: Seq<DexBackedField>) -> bool
    decreases fs.len(),
{
    if fs.len() == 0 {
        rs.len() == 0
    } else {
        let f = fs.last();
        match dex_field_ref(data, h, f.field_idx_diff) {
            Some((c, n, t)) => rs.len() > 0 && field_from(rs.last(), c, n, t, f.field_idx_diff, f.access_flags)
                && fields_built(data, h, fs.drop_last(), rs.drop_last()),
            None => fields_built(data, h, fs.drop_last(), rs),
        }
    }
}

/// Whether `rs` holds, in order, the method built from each entry of `ms` whose method exists.
pub open spec fn methods_built(data: Seq<u8>, h: DexHeader, ms: Seq<ClassDataMethod>, rs: Seq<DexBackedMethod>) -> bool
    decreases ms.len(),
{
    if ms.len() == 0 {
        rs.len() == 0
    } else {
        let m = ms.last();
        if dex_method_ref(data, h, m.method_idx_diff) is Some {
            rs.len() > 0 && method_from(data, h, rs.last(), m.method_idx_diff, m.access_flags, m.code_off)
                && methods_built(data, h, ms.drop_last(), rs.drop_last())
        } else {
            methods_built(data, h, ms.drop_last(), rs)
        }
    }
}

/// Whether reading the class data at `off` and building its members stays in range.
pub open spec fn class_data_ok(data: Seq<u8>, h: DexHeader, off: u32) -> bool {
    let cd = spec_class_data(data, off as int);
    &&& cd.5
    &&& fields_ok(data, h, cd.1)
    &&& fields_ok(data, h, cd.2)
    &&& methods_ok(data, h, cd.3)
    &&& methods_ok(data, h, cd.4)
}

/// Whether reading the class of `item` stays in range.
pub open spec fn class_def_ok(data: Seq<u8>, h: DexHeader, item: ClassDefItem) -> bool {
    &&& type_ok(data, h, item.class_idx)
    &&& dex_type(data, h, item.class_idx) is Some ==> {
        &&& item.superclass_idx != 0xFFFF_FFFF ==> type_ok(data, h, item.superclass_idx)
        &&& type_list_fits(data, item.interfaces_off)
        &&& forall|k: int|
            0 <= k < type_list(data, item.interfaces_off).len() ==> type_ok(
                data,
                h,
                #[trigger] type_list(data, item.interfaces_off)[k] as u32,
            )
        &&& item.source_file_idx != 0xFFFF_FFFF ==> string_ok(data, h, item.source_file_idx)
        &&& item.class_data_off != 0 ==> class_data_ok(data, h, item.class_data_off)
    }
}

/// Whether `c` is the class read for `item`, whose type is `t`.
pub open spec fn class_from(data: Seq<u8>, h: DexHeader, item: ClassDefItem, t: Seq<char>, c: DexBackedClassDef) -> bool {
    &&& c.type_descriptor@ == t
    &&& c.access_flags.spec_bits() == item.access_flags & ALL_ACCESS_FLAG_BITS
    &&& opt_text(c.superclass) == if item.superclass_idx == 0xFFFF_FFFF {
        None
    } else {
        dex_type(data, h, item.superclass_idx)
    }
    &&& strings_view(c.interfaces@) == known_types(
        data,
        h,
        type_list(data, item.interfaces_off).map_values(|t: u16| t as u32),
    )
    &&& opt_text(c.source_file) == if item.source_file_idx == 0xFFFF_FFFF {
        None
    } else {
        dex_string(data, h, item.source_file_idx)
    }
    &&& if item.class_data_off != 0 {
        let cd = spec_class_data(data, item.class_data_off as int);
        &&& fields_built(data, h, cd.1, c.static_fields@)
        &&& fields_built(data, h, cd.2, c.instance_fields@)
        &&& methods_built(data, h, cd.3, c.direct_methods@)
        &&& methods_built(data, h, cd.4, c.virtual_methods@)
    } else {
        &&& c.static_fields@.len() == 0
        &&& c.instance_fields@.len() == 0
        &&& c.direct_methods@.len() == 0
        &&& c.virtual_methods@.len() == 0
    }
}

/// Whether `rs` holds, in order, the class read for each of `items` whose type exists.
pub open spec fn classes_built(data: Seq<u8>, h: DexHeader, items: Seq<ClassDefItem>, rs: Seq<DexBackedClassDef>) -> bool
    decreases items.len(),
{
    if items.len() == 0 {
        rs.len() == 0
    } else {
        let item = items.last();
        match dex_type(data, h, item.class_idx) {
            Some(t) => rs.len() > 0 && class_from(data, h, item, t, rs.last()) && classes_built(
                data,
                h,
                items.drop_last(),
                rs.drop_last(),
            ),
            None => classes_built(data, h, items.drop_last(), rs),
        }
    }
}

// ---------------------------------------------------------------------------------------------
// The dex file
// ---------------------------------------------------------------------------------------------

/// A dex file read from bytes: the header and id tables are read up front, strings, types and
/// members on demand.
#[derive(Debug)]
pub struct DexBackedDexFile {
    data: Vec<u8>,
    header: DexHeader,
    string_ids: Vec<StringIdItem>,
    type_ids: Vec<TypeIdItem>,
    proto_ids: Vec<ProtoIdItem>,
    field_ids: Vec<FieldIdItem>,
    method_ids: Vec<MethodIdItem>,
    class_def_items: Vec<ClassDefItem>,
}

impl DexBackedDexFile {
    /// The id tables hold the entries that the header names.
    #[verifier::type_invariant]
    spec fn tables_match(&self) -> bool {
        let d = self.data@;
        let h = self.header;
        &&& header_matches(h, d)
        &&& self.string_ids@.len() == h.string_ids_size
        &&& forall|i: int| 0 <= i < h.string_ids_size ==> #[trigger] self.string_ids@[i] == string_id_at(d, h.string_ids_off, i)
        &&& self.type_ids@.len() == h.type_ids_size
        &&& forall|i: int| 0 <= i < h.type_ids_size ==> #[trigger] self.type_ids@[i] == type_id_at(d, h.type_ids_off, i)
        &&& self.proto_ids@.len() == h.proto_ids_size
        &&& forall|i: int| 0 <= i < h.proto_ids_size ==> #[trigger] self.proto_ids@[i] == proto_id_at(d, h.proto_ids_off, i)
        &&& self.field_ids@.len() == h.field_ids_size
        &&& forall|i: int| 0 <= i < h.field_ids_size ==> #[trigger] self.field_ids@[i] == field_id_at(d, h.field_ids_off, i)
        &&& self.method_ids@.len() == h.method_ids_size
        &&& forall|i: int| 0 <= i < h.method_ids_size ==> #[trigger] self.method_ids@[i] == method_id_at(d, h.method_ids_off, i)
        &&& self.class_def_items@.len() == h.class_defs_size
        &&& forall|i: int| 0 <= i < h.class_defs_size ==> #[trigger] self.class_def_items@[i] == class_def_at(d, h.class_defs_off, i)
    }

    /// The bytes of the file.
    pub closed spec fn spec_data(&self) -> Seq<u8> {
        self.data@
    }

    /// The header of the file.
    pub closed spec fn spec_header(&self) -> DexHeader {
        self.header
    }

    /// Whether the id tables that a file's header names lie inside it, so that `from_bytes` can
    /// read them.
    pub fn tables_in_bounds(data: &[u8]) -> (res: bool)
        requires
            data@.len() >= 0x70,
        ensures
            res == tables_fit(data@),
    {
        let len = data.len() as u64;
        table_fits_exec(len, read_u32_le(data, 60), read_u32_le(data, 56), 4) && table_fits_exec(
            len,
            read_u32_le(data, 68),
            read_u32_le(data, 64),
            4,
        ) && table_fits_exec(len, read_u32_le(data, 76), read_u32_le(data, 72), 12)
            && table_fits_exec(len, read_u32_le(data, 84), read_u32_le(data, 80), 8)
            && table_fits_exec(len, read_u32_le(data, 92), read_u32_le(data, 88), 8)
            && table_fits_exec(len, read_u32_le(data, 100), read_u32_le(data, 96), 32)
    }
}

/// `table_fits`, computed.
fn table_fits_exec(len: u64, offset: u32, count: u32, width: u64) -> (res: bool)
    requires
        width <= 32,
    ensures
        res == table_fits(len as int, offset, count, width as int),
{
    if count == 0 {
        return true;
    }
    assert(width * count <= 32 * 0xFFFF_FFFFu64 && width * (count - 1) <= width * count) by (nonlinear_arith)
        requires
            width <= 32,
            1 <= count <= 0xFFFF_FFFFu64,
    ;
    let end = offset as u64 + width * count as u64;
    let last = offset as u64 + width * (count as u64 - 1);
    end <= len && last <= 0xFFFF_FFFFu64
}

impl DexBackedDexFile {
    /// Reads the header and the id tables; fails where the header cannot be read.
    pub fn from_bytes(data: Vec<u8>) -> (res: Result<Self, String>)
        requires
            data@.len() >= 0x70 && has_dex_magic(data@) ==> tables_fit(data@),
        ensures
            data@.len() < 0x70 ==> (res matches Err(e) && e@ == "DEX file too small for header"@),
            data@.len() >= 0x70 && !has_dex_magic(data@) ==> (res matches Err(e) && e@
                == "Invalid DEX magic"@),
            data@.len() >= 0x70 && has_dex_magic(data@) ==> (res matches Ok(f) && f.spec_data()
                == data@ && header_matches(f.spec_header(), data@)),
    {
        let header = match DexHeader::parse(data.as_slice()) {
            Ok(h) => h,
            Err(e) => {
                return Err(e);
            },
        };
        let string_ids = parse_string_ids(data.as_slice(), header.string_ids_off, header.string_ids_size);
        let type_ids = parse_type_ids(data.as_slice(), header.type_ids_off, header.type_ids_size);
        let proto_ids = parse_proto_ids(data.as_slice(), header.proto_ids_off, header.proto_ids_size);
        let field_ids = parse_field_ids(data.as_slice(), header.field_ids_off, header.field_ids_size);
        let method_ids = parse_method_ids(data.as_slice(), header.method_ids_off, header.method_ids_size);
        let class_def_items = parse_class_defs(
            data.as_slice(),
            header.class_defs_off,
            header.class_defs_size,
        );
        Ok(
            DexBackedDexFile {
                data,
                header,
                string_ids,
                type_ids,
                proto_ids,
                field_ids,
                method_ids,
                class_def_items,
            },
        )
    }

    pub fn header(&self) -> (res: &DexHeader)
        ensures
            *res == self.spec_header(),
    {
        &self.header
    }

    pub fn string_count(&self) -> (res: u32)
        ensures
            res == self.spec_header().string_ids_size,
    {
        self.header.string_ids_size
    }

    pub fn type_count(&self) -> (res: u32)
        ensures
            res == self.spec_header().type_ids_size,
    {
        self.header.type_ids_size
    }

    pub fn proto_count(&self) -> (res: u32)
        ensures
            res == self.spec_header().proto_ids_size,
    {
        self.header.proto_ids_size
    }

    pub fn field_count(&self) -> (res: u32)
        ensures
            res == self.spec_header().field_ids_size,
    {
        self.header.field_ids_size
    }

    pub fn method_count(&self) -> (res: u32)
        ensures
            res == self.spec_header().method_ids_size,
    {
        self.header.method_ids_size
    }

    pub fn class_count(&self) -> (res: u32)
        ensures
            res == self.spec_header().class_defs_size,
    {
        self.header.class_defs_size
    }

    /// String `idx`, or `None` where there is no such string or it is not valid modified UTF-8.
    pub fn get_string(&self, idx: u32) -> (res: Option<String>)
        requires
            string_ok(self.spec_data(), self.spec_header(), idx),
        ensures
            opt_text(res) == dex_string(self.spec_data(), self.spec_header(), idx),
    {
        proof {
            use_type_invariant(self);
        }
        if idx as usize >= self.string_ids.len() {
            return None;
        }
        let string_data_off = self.string_ids[idx as usize].string_data_off;
        match parse_string_data(self.data.as_slice(), string_data_off) {
            Ok(s) => Some(s),
            Err(_) => None,
        }
    }

    /// The descriptor of type `idx`, or `None`.
    pub fn get_type_descriptor(&self, idx: u32) -> (res: Option<String>)
        requires
            type_ok(self.spec_data(), self.spec_header(), idx),
        ensures
            opt_text(res) == dex_type(self.spec_data(), self.spec_header(), idx),
    {
        proof {
            use_type_invariant(self);
        }
        if idx as usize >= self.type_ids.len() {
            return None;
        }
        let descriptor_idx = self.type_ids[idx as usize].descriptor_idx;
        self.get_string(descriptor_idx)
    }

    /// The shorty of prototype `idx`, or `None`.
    pub fn get_proto_shorty(&self, idx: u32) -> (res: Option<String>)
        requires
            shorty_ok(self.spec_data(), self.spec_header(), idx),
        ensures
            opt_text(res) == dex_proto_shorty(self.spec_data(), self.spec_header(), idx),
    {
        proof {
            use_type_invariant(self);
        }
        if idx as usize >= self.proto_ids.len() {
            return None;
        }
        self.get_string(self.proto_ids[idx as usize].shorty_idx)
    }

    /// The return type of prototype `idx`, or `None`.
    pub fn get_proto_return_type(&self, idx: u32) -> (res: Option<String>)
        requires
            proto_return_ok(self.spec_data(), self.spec_header(), idx),
        ensures
            opt_text(res) == dex_proto_return(self.spec_data(), self.spec_header(), idx),
    {
        proof {
            use_type_invariant(self);
        }
        if idx as usize >= self.proto_ids.len() {
            return None;
        }
        self.get_type_descriptor(self.proto_ids[idx as usize].return_type_idx)
    }

    /// The parameter types of prototype `idx` that exist, in order.
    pub fn get_proto_parameter_types(&self, idx: u32) -> (res: Vec<String>)
        requires
            proto_params_ok(self.spec_data(), self.spec_header(), idx),
        ensures
            strings_view(res@) == dex_proto_params(self.spec_data(), self.spec_header(), idx),
    {
        proof {
            use_type_invariant(self);
        }
        if idx as usize >= self.proto_ids.len() {
            let res: Vec<String> = Vec::new();
            assert(strings_view(res@) =~= Seq::<Seq<char>>::empty());
            return res;
        }
        let parameters_off = self.proto_ids[idx as usize].parameters_off;
        let type_indices = parse_proto_parameter_types(self.data.as_slice(), parameters_off);
        let ghost d = self.spec_data();
        let ghost h = self.spec_header();
        assert(type_indices@ == proto_param_indices(d, h, idx));
        let mut result: Vec<String> = Vec::new();
        let mut i: usize = 0;
        while i < type_indices.len()
            invariant
                i <= type_indices@.len(),
                d == self.spec_data(),
                h == self.spec_header(),
                type_indices@ == proto_param_indices(d, h, idx),
                forall|k: int| 0 <= k < type_indices@.len() ==> type_ok(d, h, #[trigger] type_indices@[k]),
                strings_view(result@) == known_types(d, h, type_indices@.take(i as int)),
            decreases type_indices.len() - i,
        {
            let ti = type_indices[i];
            assert(type_ok(d, h, type_indices@[i as int]));
            let found = self.get_type_descriptor(ti);
            proof {
                assert(type_indices@.take(i + 1).drop_last() =~= type_indices@.take(i as int));
                assert(type_indices@.take(i + 1).last() == ti);
            }
            match found {
                Some(t) => {
                    result.push(t);
                    assert(strings_view(result@) =~= known_types(d, h, type_indices@.take(i + 1)));
                },
                None => {},
            }
            i += 1;
        }
        assert(type_indices@.take(type_indices@.len() as int) =~= type_indices@);
        result
    }

    /// Field `idx` as (defining class, name, type), or `None` where one of them does not exist.
    pub fn get_field_reference(&self, idx: u32) -> (res: Option<(String, String, String)>)
        requires
            field_ref_ok(self.spec_data(), self.spec_header(), idx),
        ensures
            match dex_field_ref(self.spec_data(), self.spec_header(), idx) {
                Some((c, n, t)) => res matches Some((rc, rn, rt)) && rc@ == c && rn@ == n && rt@ == t,
                None => res is None,
            },
    {
        proof {
            use_type_invariant(self);
        }
        if idx as usize >= self.field_ids.len() {
            return None;
        }
        let field = self.field_ids[idx as usize];
        let defining_class = match self.get_type_descriptor(field.class_idx as u32) {
            Some(c) => c,
            None => {
                return None;
            },
        };
        let field_type = match self.get_type_descriptor(field.type_idx as u32) {
            Some(t) => t,
            None => {
                return None;
            },
        };
        let name = match self.get_string(field.name_idx) {
            Some(n) => n,
            None => {
                return None;
            },
        };
        Some((defining_class, name, field_type))
    }

    /// Method `idx` as (defining class, name, parameter types, return type), or `None` where the
    /// class, name or return type does not exist.
    pub fn get_method_reference(&self, idx: u32) -> (res: Option<(String, String, Vec<String>, String)>)
        requires
            method_ref_ok(self.spec_data(), self.spec_header(), idx),
        ensures
            match dex_method_ref(self.spec_data(), self.spec_header(), idx) {
                Some((c, n, p, t)) => res matches Some((rc, rn, rp, rt)) && rc@ == c && rn@ == n
                    && strings_view(rp@) == p && rt@ == t,
                None => res is None,
            },
    {
        proof {
            use_type_invariant(self);
        }
        if idx as usize >= self.method_ids.len() {
            return None;
        }
        let method = self.method_ids[idx as usize];
        let defining_class = match self.get_type_descriptor(method.class_idx as u32) {
            Some(c) => c,
            None => {
                return None;
            },
        };
        let name = match self.get_string(method.name_idx) {
            Some(n) => n,
            None => {
                return None;
            },
        };
        let return_type = match self.get_proto_return_type(method.proto_idx as u32) {
            Some(r) => r,
            None => {
                return None;
            },
        };
        let parameter_types = self.get_proto_parameter_types(method.proto_idx as u32);
        Some((defining_class, name, parameter_types, return_type))
    }

    /// The reference that `index` names for an instruction with opcode `opcode`.
    pub fn resolve_reference(&self, index: u32, opcode: Opcode) -> (res: ReferenceHolder)
        requires
            reference_ok(self.spec_data(), self.spec_header(), index, opcode),
        ensures
            resolves_to(self.spec_data(), self.spec_header(), index, opcode, res),
    {
        match opcode {
            Opcode::ConstString | Opcode::ConstStringJumbo => {
                match self.get_string(index) {
                    Some(s) => ReferenceHolder::String(StringReference::new(s.as_str())),
                    None => ReferenceHolder::String(StringReference::new("")),
                }
            },
            Opcode::ConstClass
            | Opcode::CheckCast
            | Opcode::NewInstance
            | Opcode::FilledNewArray
            | Opcode::FilledNewArrayRange => {
                match self.get_type_descriptor(index) {
                    Some(t) => ReferenceHolder::Type(TypeReference::new(t.as_str())),
                    None => ReferenceHolder::Type(TypeReference::new("Ljava/lang/Object;")),
                }
            },
            Opcode::Sget
            | Opcode::SgetWide
            | Opcode::SgetObject
            | Opcode::SgetBoolean
            | Opcode::SgetByte
            | Opcode::SgetChar
            | Opcode::SgetShort
            | Opcode::Sput
            | Opcode::SputWide
            | Opcode::SputObject
            | Opcode::SputBoolean
            | Opcode::SputByte
            | Opcode::SputChar
            | Opcode::SputShort
            | Opcode::Iget
            | Opcode::IgetWide
            | Opcode::IgetObject
            | Opcode::IgetBoolean
            | Opcode::IgetByte
            | Opcode::IgetChar
            | Opcode::IgetShort
            | Opcode::Iput
            | Opcode::IputWide
            | Opcode::IputObject
            | Opcode::IputBoolean
            | Opcode::IputByte
            | Opcode::IputChar
            | Opcode::IputShort => {
                match self.get_field_reference(index) {
                    Some((defining_class, name, field_type)) => ReferenceHolder::Field(
                        FieldReference::new(defining_class.as_str(), name.as_str(), field_type.as_str()),
                    ),
                    None => ReferenceHolder::Field(FieldReference::new("", "", "")),
                }
            },
            _ => {
                match self.get_method_reference(index) {
                    Some((defining_class, name, parameter_types, return_type)) => ReferenceHolder::Method(
                        MethodReference::new(
                            defining_class.as_str(),
                            name.as_str(),
                            parameter_types,
                            return_type.as_str(),
                        ),
                    ),
                    None => ReferenceHolder::Method(MethodReference::new("", "", Vec::new(), "")),
                }
            },
        }
    }

    /// The immutable form of an instruction read from a dex file, with its reference resolved
    /// against this file; any other instruction is copied.
    pub fn convert_instruction_to_immutable(&self, instr: &AnyInstruction) -> (res: AnyInstruction)
        requires
            instr matches AnyInstruction::DexBacked(d) ==> conversion_ok(
                self.spec_data(),
                self.spec_header(),
                *d,
            ),
        ensures
            match instr {
                AnyInstruction::DexBacked(d) => converted(self.spec_data(), self.spec_header(), *d, res),
                _ => instruction_copied(*instr, res),
            },
    {
        let db_instr = match instr {
            AnyInstruction::DexBacked(d) => d,
            _ => {
                return instr.clone_boxed();
            },
        };
        let opcode = db_instr.opcode();
        let format = opcode.format();
        match format {
            InstructionFormat::Format10x => AnyInstruction::I10x(ImmutableInstruction10x { opcode }),
            InstructionFormat::Format12x => AnyInstruction::I12x(
                ImmutableInstruction12x {
                    opcode,
                    register_a: db_instr.register_c_nibble(),
                    register_b: db_instr.register_b_nibble(),
                },
            ),
            InstructionFormat::Format11n => AnyInstruction::I11n(
                ImmutableInstruction11n {
                    opcode,
                    register_a: db_instr.register_c_nibble(),
                    literal: db_instr.literal_nibble(),
                },
            ),
            InstructionFormat::Format11x => AnyInstruction::I11x(
                ImmutableInstruction11x { opcode, register_a: db_instr.register_a_byte() as u16 },
            ),
            InstructionFormat::Format10t => AnyInstruction::I10t(
                ImmutableInstruction10t { opcode, code_offset: db_instr.code_offset_8() },
            ),
            InstructionFormat::Format20t => AnyInstruction::I20t(
                ImmutableInstruction20t { opcode, code_offset: db_instr.code_offset_16() as i32 },
            ),
            InstructionFormat::Format30t => AnyInstruction::I30t(
                ImmutableInstruction30t { opcode, code_offset: db_instr.code_offset_32() },
            ),
            InstructionFormat::Format21c => AnyInstruction::I21c(
                ImmutableInstruction21c {
                    opcode,
                    register_a: db_instr.register_a_byte(),
                    reference: self.resolve_reference(db_instr.reference_index_16() as u32, opcode),
                },
            ),
            InstructionFormat::Format21ih | InstructionFormat::Format21lh => AnyInstruction::I21s(
                ImmutableInstruction21s {
                    opcode,
                    register_a: db_instr.register_a_byte(),
                    literal: db_instr.literal_16(),
                },
            ),
            InstructionFormat::Format31c => AnyInstruction::I31c(
                ImmutableInstruction31c {
                    opcode,
                    register_a: db_instr.register_a_byte(),
                    reference: self.resolve_reference(db_instr.reference_index_32(), opcode),
                },
            ),
            InstructionFormat::Format22c | InstructionFormat::Format22cs => AnyInstruction::I22c(
                ImmutableInstruction22c {
                    opcode,
                    register_a: db_instr.register_c_nibble(),
                    register_b: db_instr.register_b_nibble(),
                    reference: self.resolve_reference(db_instr.reference_index_16() as u32, opcode),
                },
            ),
            InstructionFormat::Format35c
            | InstructionFormat::Format35mi
            | InstructionFormat::Format35ms
            | InstructionFormat::Format45cc => AnyInstruction::I35c(
                ImmutableInstruction35c {
                    opcode,
                    register_count: db_instr.invoke_register_count(),
                    register_c: db_instr.invoke_register_c(),
                    register_d: db_instr.invoke_register_d(),
                    register_e: db_instr.invoke_register_e(),
                    register_f: db_instr.invoke_register_f(),
                    register_g: db_instr.invoke_register_g(),
                    reference: self.resolve_reference(db_instr.reference_index_16() as u32, opcode),
                },
            ),
            InstructionFormat::Format3rc
            | InstructionFormat::Format3rmi
            | InstructionFormat::Format3rms
            | InstructionFormat::Format4rcc => AnyInstruction::I3rc(
                ImmutableInstruction3rc {
                    opcode,
                    register_count: db_instr.invoke_range_count(),
                    start_register: db_instr.invoke_range_start(),
                    reference: self.resolve_reference(db_instr.reference_index_16() as u32, opcode),
                },
            ),
            InstructionFormat::Format21s => AnyInstruction::I21s(
                ImmutableInstruction21s {
                    opcode,
                    register_a: db_instr.register_a_byte(),
                    literal: db_instr.literal_16(),
                },
            ),
            InstructionFormat::Format31i => AnyInstruction::I31i(
                ImmutableInstruction31i {
                    opcode,
                    register_a: db_instr.register_a_byte(),
                    literal: db_instr.literal_32(),
                },
            ),
            InstructionFormat::Format51l => AnyInstruction::I51l(
                ImmutableInstruction51l {
                    opcode,
                    register_a: db_instr.register_a_byte(),
                    literal: db_instr.literal_64(),
                },
            ),
            InstructionFormat::Format21t => AnyInstruction::I21t(
                ImmutableInstruction21t {
                    opcode,
                    register_a: db_instr.register_a_byte(),
                    code_offset: db_instr.code_offset_16(),
                },
            ),
            InstructionFormat::Format22t => AnyInstruction::I22t(
                ImmutableInstruction22t {
                    opcode,
                    register_a: db_instr.register_c_nibble(),
                    register_b: db_instr.register_b_nibble(),
                    code_offset: db_instr.code_offset_16(),
                },
            ),
            InstructionFormat::Format22b => AnyInstruction::I22b(
                ImmutableInstruction22b {
                    opcode,
                    register_a: db_instr.register_a_byte(),
                    register_b: db_instr.register_b_byte(),
                    literal: db_instr.literal_byte(),
                },
            ),
            InstructionFormat::Format22s => AnyInstruction::I22s(
                ImmutableInstruction22s {
                    opcode,
                    register_a: db_instr.register_c_nibble(),
                    register_b: db_instr.register_b_nibble(),
                    literal: db_instr.literal_16(),
                },
            ),
            InstructionFormat::Format22x => AnyInstruction::I22x(
                ImmutableInstruction22x {
                    opcode,
                    register_a: db_instr.register_a_22x(),
                    register_b: db_instr.register_b_22x(),
                },
            ),
            InstructionFormat::Format23x => AnyInstruction::I23x(
                ImmutableInstruction23x {
                    opcode,
                    register_a: db_instr.register_a_byte(),
                    register_b: db_instr.register_b_byte(),
                    register_c: db_instr.register_c_byte(),
                },
            ),
            InstructionFormat::Format31t => AnyInstruction::I31t(
                ImmutableInstruction31t {
                    opcode,
                    register_a: db_instr.register_a_byte(),
                    code_offset: db_instr.code_offset_32(),
                },
            ),
            InstructionFormat::Format32x => AnyInstruction::I32x(
                ImmutableInstruction32x {
                    opcode,
                    register_a: db_instr.register_a_32x(),
                    register_b: db_instr.register_b_32x(),
                },
            ),
            _ => db_instr.clone_boxed(),
        }
    }
}

impl DexBackedDexFile {
    /// The descriptors of the types of `indices` that exist, in order.
    fn known_type_descriptors(&self, indices: &[u32]) -> (res: Vec<String>)
        requires
            forall|k: int| 0 <= k < indices@.len() ==> type_ok(self.spec_data(), self.spec_header(), #[trigger] indices@[k]),
        ensures
            strings_view(res@) == known_types(self.spec_data(), self.spec_header(), indices@),
    {
        let ghost d = self.spec_data();
        let ghost h = self.spec_header();
        let mut result: Vec<String> = Vec::new();
        let mut i: usize = 0;
        while i < indices.len()
            invariant
                i <= indices@.len(),
                d == self.spec_data(),
                h == self.spec_header(),
                forall|k: int| 0 <= k < indices@.len() ==> type_ok(d, h, #[trigger] indices@[k]),
                strings_view(result@) == known_types(d, h, indices@.take(i as int)),
            decreases indices.len() - i,
        {
            let ti = indices[i];
            assert(type_ok(d, h, indices@[i as int]));
            let found = self.get_type_descriptor(ti);
            proof {
                assert(indices@.take(i + 1).drop_last() =~= indices@.take(i as int));
                assert(indices@.take(i + 1).last() == ti);
            }
            match found {
                Some(t) => {
                    result.push(t);
                    assert(strings_view(result@) =~= known_types(d, h, indices@.take(i + 1)));
                },
                None => {},
            }
            i += 1;
        }
        assert(indices@.take(indices@.len() as int) =~= indices@);
        result
    }

    /// The body of the method whose code item is at `code_off`, or `None` where the code item
    /// does not fit in the data.
    fn parse_method_implementation(&self, code_off: u32) -> (res: Option<DexBackedMethodImplementation>)
        requires
            body_ok(self.spec_data(), code_off),
        ensures
            code_item_in_bounds(self.spec_data(), code_off) ==> (res matches Some(r) && body_read_from(
                self.spec_data(),
                code_off,
                r,
            )),
            !code_item_in_bounds(self.spec_data(), code_off) ==> res is None,
    {
        let code_item = match parse_code_item(self.data.as_slice(), code_off) {
            Ok(c) => c,
            Err(_) => {
                return None;
            },
        };
        let ghost d = self.spec_data();
        assert(code_item.insns@ =~= code_insns(d, code_off as int));
        let instructions = decode_all_instructions(code_item.insns.as_slice());
        let mut try_blocks: Vec<TryBlock> = Vec::new();
        let mut k: usize = 0;
        while k < code_item.try_blocks.len()
            invariant
                k <= code_item.try_blocks@.len(),
                try_blocks@.len() == k,
                forall|j: int|
                    0 <= j < k ==> {
                        &&& (#[trigger] try_blocks@[j]).start_code_address == code_item.try_blocks@[j].start_addr
                        &&& try_blocks@[j].code_unit_count == code_item.try_blocks@[j].insn_count
                        &&& try_blocks@[j].handlers@.len() == 0
                    },
            decreases code_item.try_blocks.len() - k,
        {
            let tb = code_item.try_blocks[k];
            try_blocks.push(
                TryBlock {
                    start_code_address: tb.start_addr,
                    code_unit_count: tb.insn_count,
                    handlers: Vec::new(),
                },
            );
            k += 1;
        }
        Some(
            DexBackedMethodImplementation {
                register_count: code_item.registers_size,
                instructions,
                try_blocks,
                debug_items: Vec::new(),
            },
        )
    }

    /// The field with index `field_idx`, or `None` where it does not exist.
    fn build_field(&self, field_idx: u32, access_flags: u32) -> (res: Option<DexBackedField>)
        requires
            field_ref_ok(self.spec_data(), self.spec_header(), field_idx),
        ensures
            match dex_field_ref(self.spec_data(), self.spec_header(), field_idx) {
                Some((c, n, t)) => res matches Some(f) && field_from(f, c, n, t, field_idx, access_flags),
                None => res is None,
            },
    {
        let (defining_class, name, field_type) = match self.get_field_reference(field_idx) {
            Some(r) => r,
            None => {
                return None;
            },
        };
        Some(
            DexBackedField {
                defining_class,
                name,
                field_type,
                access_flags: AccessFlags::from_bits_truncate(access_flags),
                field_index: field_idx,
                hidden_api_restrictions: 0,
            },
        )
    }

    /// The method with index `method_idx`, with its body where `code_off` is not 0, or `None`
    /// where the method does not exist.
    fn build_method(&self, method_idx: u32, access_flags: u32, code_off: u32) -> (res: Option<DexBackedMethod>)
        requires
            method_ref_ok(self.spec_data(), self.spec_header(), method_idx),
            dex_method_ref(self.spec_data(), self.spec_header(), method_idx) is Some && code_off != 0
                ==> body_ok(self.spec_data(), code_off),
        ensures
            dex_method_ref(self.spec_data(), self.spec_header(), method_idx) is Some ==> (res matches Some(
                m,
            ) && method_from(self.spec_data(), self.spec_header(), m, method_idx, access_flags, code_off)),
            dex_method_ref(self.spec_data(), self.spec_header(), method_idx) is None ==> res is None,
    {
        let (defining_class, name, parameter_types, return_type) = match self.get_method_reference(
            method_idx,
        ) {
            Some(r) => r,
            None => {
                return None;
            },
        };
        let implementation = if code_off != 0 {
            self.parse_method_implementation(code_off)
        } else {
            None
        };
        Some(
            DexBackedMethod {
                defining_class,
                name,
                parameter_types,
                return_type,
                access_flags: AccessFlags::from_bits_truncate(access_flags),
                method_index: method_idx,
                hidden_api_restrictions: 0,
                implementation,
            },
        )
    }

    /// The fields of `fs` that exist, built in order.
    fn build_fields(&self, fs: &Vec<ClassDataField>) -> (res: Vec<DexBackedField>)
        requires
            fields_ok(self.spec_data(), self.spec_header(), fs@),
        ensures
            fields_built(self.spec_data(), self.spec_header(), fs@, res@),
    {
        let ghost d = self.spec_data();
        let ghost h = self.spec_header();
        let mut result: Vec<DexBackedField> = Vec::new();
        let mut i: usize = 0;
        while i < fs.len()
            invariant
                i <= fs@.len(),
                d == self.spec_data(),
                h == self.spec_header(),
                fields_ok(d, h, fs@),
                fields_built(d, h, fs@.take(i as int), result@),
            decreases fs.len() - i,
        {
            let f = fs[i];
            assert(field_ref_ok(d, h, fs@[i as int].field_idx_diff));
            let built = self.build_field(f.field_idx_diff, f.access_flags);
            proof {
                assert(fs@.take(i + 1).drop_last() =~= fs@.take(i as int));
                assert(fs@.take(i + 1).last() == f);
            }
            match built {
                Some(b) => {
                    let ghost before = result@;
                    result.push(b);
                    assert(result@.drop_last() =~= before);
                },
                None => {},
            }
            i += 1;
        }
        assert(fs@.take(fs@.len() as int) =~= fs@);
        result
    }

    /// The methods of `ms` that exist, built in order.
    fn build_methods(&self, ms: &Vec<ClassDataMethod>) -> (res: Vec<DexBackedMethod>)
        requires
            methods_ok(self.spec_data(), self.spec_header(), ms@),
        ensures
            methods_built(self.spec_data(), self.spec_header(), ms@, res@),
    {
        let ghost d = self.spec_data();
        let ghost h = self.spec_header();
        let mut result: Vec<DexBackedMethod> = Vec::new();
        let mut i: usize = 0;
        while i < ms.len()
            invariant
                i <= ms@.len(),
                d == self.spec_data(),
                h == self.spec_header(),
                methods_ok(d, h, ms@),
                methods_built(d, h, ms@.take(i as int), result@),
            decreases ms.len() - i,
        {
            let m = ms[i];
            assert(method_ref_ok(d, h, ms@[i as int].method_idx_diff));
            let built = self.build_method(m.method_idx_diff, m.access_flags, m.code_off);
            proof {
                assert(ms@.take(i + 1).drop_last() =~= ms@.take(i as int));
                assert(ms@.take(i + 1).last() == m);
            }
            match built {
                Some(b) => {
                    let ghost before = result@;
                    result.push(b);
                    assert(result@.drop_last() =~= before);
                },
                None => {},
            }
            i += 1;
        }
        assert(ms@.take(ms@.len() as int) =~= ms@);
        result
    }

    /// The static fields, instance fields, direct methods and virtual methods of the class data
    /// at `class_data_off`, leaving out members that do not exist.
    fn parse_class_data(&self, class_data_off: u32) -> (res: (
        Vec<DexBackedField>,
        Vec<DexBackedField>,
        Vec<DexBackedMethod>,
        Vec<DexBackedMethod>,
    ))
        requires
            class_data_ok(self.spec_data(), self.spec_header(), class_data_off),
        ensures
            ({
                let cd = spec_class_data(self.spec_data(), class_data_off as int);
                &&& fields_built(self.spec_data(), self.spec_header(), cd.1, res.0@)
                &&& fields_built(self.spec_data(), self.spec_header(), cd.2, res.1@)
                &&& methods_built(self.spec_data(), self.spec_header(), cd.3, res.2@)
                &&& methods_built(self.spec_data(), self.spec_header(), cd.4, res.3@)
            }),
    {
        let (header, static_fields_data, instance_fields_data, direct_methods_data, virtual_methods_data) =
            match parse_class_data(self.data.as_slice(), class_data_off) {
            Ok(parts) => parts,
            Err(_) => (
                ClassDataHeader {
                    static_fields_size: 0,
                    instance_fields_size: 0,
                    direct_methods_size: 0,
                    virtual_methods_size: 0,
                },
                Vec::new(),
                Vec::new(),
                Vec::new(),
                Vec::new(),
            ),
        };
        let static_fields = self.build_fields(&static_fields_data);
        let instance_fields = self.build_fields(&instance_fields_data);
        let direct_methods = self.build_methods(&direct_methods_data);
        let virtual_methods = self.build_methods(&virtual_methods_data);
        (static_fields, instance_fields, direct_methods, virtual_methods)
    }

    /// The class of `item`, or `None` where its type does not exist.
    pub fn parse_class_def(&self, item: &ClassDefItem) -> (res: Option<DexBackedClassDef>)
        requires
            class_def_ok(self.spec_data(), self.spec_header(), *item),
        ensures
            match dex_type(self.spec_data(), self.spec_header(), item.class_idx) {
                Some(t) => res matches Some(c) && class_from(self.spec_data(), self.spec_header(), *item, t, c),
                None => res is None,
            },
    {
        let type_descriptor = match self.get_type_descriptor(item.class_idx) {
            Some(t) => t,
            None => {
                return None;
            },
        };
        let superclass = if item.superclass_idx == 0xFFFF_FFFF {
            None
        } else {
            self.get_type_descriptor(item.superclass_idx)
        };
        let interface_list = parse_interface_list(self.data.as_slice(), item.interfaces_off);
        let mut indices: Vec<u32> = Vec::new();
        let mut k: usize = 0;
        while k < interface_list.len()
            invariant
                k <= interface_list@.len(),
                indices@ == interface_list@.take(k as int).map_values(|t: u16| t as u32),
            decreases interface_list.len() - k,
        {
            indices.push(interface_list[k] as u32);
            k += 1;
            assert(indices@ =~= interface_list@.take(k as int).map_values(|t: u16| t as u32));
        }
        assert(interface_list@.take(interface_list@.len() as int) =~= interface_list@);
        let interfaces = self.known_type_descriptors(indices.as_slice());
        let source_file = if item.source_file_idx == 0xFFFF_FFFF {
            None
        } else {
            self.get_string(item.source_file_idx)
        };
        let (static_fields, instance_fields, direct_methods, virtual_methods) = if item.class_data_off
            != 0 {
            self.parse_class_data(item.class_data_off)
        } else {
            (Vec::new(), Vec::new(), Vec::new(), Vec::new())
        };
        Some(
            DexBackedClassDef {
                type_descriptor,
                access_flags: AccessFlags::from_bits_truncate(item.access_flags),
                superclass,
                interfaces,
                source_file,
                static_fields,
                instance_fields,
                direct_methods,
                virtual_methods,
            },
        )
    }

    /// The classes of the file whose types exist, in the order of the class def table.
    pub fn parse_classes(&self) -> (res: Vec<DexBackedClassDef>)
        requires
            forall|k: int|
                0 <= k < self.spec_header().class_defs_size ==> class_def_ok(
                    self.spec_data(),
                    self.spec_header(),
                    #[trigger] class_def_at(self.spec_data(), self.spec_header().class_defs_off, k),
                ),
        ensures
            classes_built(
                self.spec_data(),
                self.spec_header(),
                Seq::new(
                    self.spec_header().class_defs_size as nat,
                    |k: int| class_def_at(self.spec_data(), self.spec_header().class_defs_off, k),
                ),
                res@,
            ),
    {
        proof {
            use_type_invariant(self);
        }
        let ghost d = self.spec_data();
        let ghost h = self.spec_header();
        let ghost items = Seq::new(h.class_defs_size as nat, |k: int| class_def_at(d, h.class_defs_off, k));
        assert(self.class_def_items@ =~= items);
        let mut result: Vec<DexBackedClassDef> = Vec::new();
        let mut i: usize = 0;
        while i < self.class_def_items.len()
            invariant
                i <= items.len(),
                d == self.spec_data(),
                h == self.spec_header(),
                self.class_def_items@ == items,
                forall|k: int| 0 <= k < items.len() ==> class_def_ok(d, h, #[trigger] items[k]),
                classes_built(d, h, items.take(i as int), result@),
            decreases items.len() - i,
        {
            let item = self.class_def_items[i];
            assert(class_def_ok(d, h, items[i as int]));
            let parsed = self.parse_class_def(&item);
            proof {
                assert(items.take(i + 1).drop_last() =~= items.take(i as int));
                assert(items.take(i + 1).last() == item);
            }
            match parsed {
                Some(c) => {
                    let ghost before = result@;
                    result.push(c);
                    assert(result@.drop_last() =~= before);
                },
                None => {},
            }
            i += 1;
        }
        assert(items.take(items.len() as int) =~= items);
        result
    }
}

} // verus!
