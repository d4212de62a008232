use vstd::prelude::*;
use crate::base::leb128::{encode_uleb128, lemma_uleb128_encoded_len, spec_encode_uleb128};
use crate::dexbacked::dex_backed_dex_file::{
    dex_field_ref, dex_method_ref, dex_proto_params, dex_proto_return, dex_string, dex_type, field_ref_ok,
    known_types, method_ref_ok, proto_param_indices, proto_params_ok, proto_return_ok, string_ok, tables_fit,
    type_ok,
};
use crate::dexbacked::header::{
    class_def_at, field_id_at, method_id_at, proto_id_at, type_list, type_list_fits, has_dex_magic, header_matches, string_id_at, type_id_at, spec_u16_le,
    spec_u32_le, DexHeader,
};
use crate::base::mutf8::{encode_mutf8, spec_utf16_len};
use crate::base::opcode::{opcode_value, InstructionFormat};
use crate::writer::dex_writer::{
    le_bytes_u16, le_bytes_u32, lemma_string_data_found, lemma_utf16_len_prefix, lemma_utf16_len_push,
    string_data_bytes, DexWriter,
};
use crate::writer::checksum::{adler32, sha1, spec_adler32, spec_sha1};
use crate::writer::memory_data_store::{
    keeps_below, lemma_written_concat, lemma_written_keeps_below, lemma_written_reads_back, written, DataStore,
    MemoryDataStore,
};
use crate::iface::instruction::{instruction_copied, kind_of, AnyInstruction, Instruction};
use crate::iface::reference::{clone_strings, strings_view, ReferenceHolder};
use crate::immutable::immutable_class_def::{opt_text, ImmutableClassDef};
use crate::immutable::immutable_field::ImmutableField;
use crate::immutable::immutable_method::ImmutableMethod;
use crate::writer::pools::{first_index, lemma_first_index, 
    ClassEntry, ClassPool, FieldEntry, FieldPool, MethodEntry, MethodImplEntry, MethodPool, ProtoKey,
    ProtoPool, StringPool, TypePool,
};

verus! {

/// The shorty letter of a type: the letter of a primitive type, `L` for everything else.
pub open spec fn spec_shorty_char(descriptor: Seq<char>) -> char {
    if descriptor.len() > 0 && (descriptor[0] == 'V' || descriptor[0] == 'Z' || descriptor[0] == 'B'
        || descriptor[0] == 'S' || descriptor[0] == 'C' || descriptor[0] == 'I' || descriptor[0]
        == 'J' || descriptor[0] == 'F' || descriptor[0] == 'D') {
        descriptor[0]
    } else {
        'L'
    }
}

/// The shorty letter of a type descriptor.
pub fn shorty_char(type_descriptor: &str) -> (res: char)
    ensures
        res == spec_shorty_char(type_descriptor@),
{
    if type_descriptor.unicode_len() == 0 {
        return 'L';
    }
    match type_descriptor.get_char(0) {
        'V' => 'V',
        'Z' => 'Z',
        'B' => 'B',
        'S' => 'S',
        'C' => 'C',
        'I' => 'I',
        'J' => 'J',
        'F' => 'F',
        'D' => 'D',
        _ => 'L',
    }
}

/// The shorty letters of the parameter types `params`.
pub open spec fn shorty_letters(params: Seq<Seq<char>>) -> Seq<char>
    decreases params.len(),
{
    if params.len() == 0 {
        Seq::empty()
    } else {
        shorty_letters(params.drop_last()).push(spec_shorty_char(params.last()))
    }
}

/// The shorty of a prototype: the letter of the return type, then one per parameter.
pub open spec fn shorty_of(return_type: Seq<char>, params: Seq<Seq<char>>) -> Seq<char> {
    seq![spec_shorty_char(return_type)] + shorty_letters(params)
}

/// The key of the prototype with these return and parameter types.
pub open spec fn proto_key_of(return_type: Seq<char>, params: Seq<Seq<char>>) -> (Seq<char>, Seq<char>, Seq<Seq<char>>) {
    (shorty_of(return_type, params), return_type, params)
}

/// The shorty of a prototype.
pub fn make_shorty(return_type: &str, params: &[String]) -> (res: String)
    ensures
        res@ == shorty_of(return_type@, strings_view(params@)),
{
    let mut shorty = String::new();
    crate::base::mutf8::string_push(&mut shorty, shorty_char(return_type));
    let ghost ps = strings_view(params@);
    let mut k: usize = 0;
    while k < params.len()
        invariant
            k <= params@.len(),
            ps == strings_view(params@),
            shorty@ == shorty_of(return_type@, ps.take(k as int)),
        decreases params.len() - k,
    {
        let c = shorty_char(params[k].as_str());
        crate::base::mutf8::string_push(&mut shorty, c);
        proof {
            assert(ps.take(k + 1).drop_last() =~= ps.take(k as int));
            assert(ps.take(k + 1).last() == params@[k as int]@);
            assert(shorty@ =~= shorty_of(return_type@, ps.take(k + 1)));
        }
        k += 1;
    }
    assert(ps.take(params@.len() as int) =~= ps);
    shorty
}

/// Whether `b` keeps every item of `a` at its index, and perhaps adds more.
pub open spec fn extends<V>(a: Seq<V>, b: Seq<V>) -> bool {
    a.len() <= b.len() && forall|i: int| 0 <= i < a.len() ==> #[trigger] b[i] == a[i]
}

/// The reference that an instruction names for the pools: those of the immutable instruction
/// types whose format carries a reference.
pub open spec fn instruction_reference(instr: AnyInstruction) -> Option<ReferenceHolder> {
    match instr.spec_format() {
        InstructionFormat::Format21c | InstructionFormat::Format31c => match instr {
            AnyInstruction::I21c(i) => Some(i.reference),
            AnyInstruction::I31c(i) => Some(i.reference),
            _ => None,
        },
        InstructionFormat::Format22c => match instr {
            AnyInstruction::I22c(i) => Some(i.reference),
            _ => None,
        },
        InstructionFormat::Format35c => match instr {
            AnyInstruction::I35c(i) => Some(i.reference),
            _ => None,
        },
        InstructionFormat::Format3rc => match instr {
            AnyInstruction::I3rc(i) => Some(i.reference),
            _ => None,
        },
        _ => None,
    }
}

/// All the strings, types, fields, prototypes, methods and classes that a DEX file will hold.
pub struct DexPool {
    pub string_pool: StringPool,
    pub type_pool: TypePool,
    pub proto_pool: ProtoPool,
    pub field_pool: FieldPool,
    pub method_pool: MethodPool,
    pub class_pool: ClassPool,
}

impl DexPool {
    /// Every pool holds each of its items once.
    pub open spec fn wf(&self) -> bool {
        &&& self.string_pool.wf()
        &&& self.type_pool.wf()
        &&& self.proto_pool.wf()
        &&& self.field_pool.wf()
        &&& self.method_pool.wf()
    }

    /// `self` keeps everything that `before` held, at the same indices; the classes too.
    pub open spec fn keeps(&self, before: DexPool) -> bool {
        &&& extends(before.string_pool.spec_items(), self.string_pool.spec_items())
        &&& extends(before.type_pool.spec_items(), self.type_pool.spec_items())
        &&& extends(before.proto_pool.spec_items(), self.proto_pool.spec_items())
        &&& extends(before.field_pool.spec_items(), self.field_pool.spec_items())
        &&& extends(before.method_pool.spec_items(), self.method_pool.spec_items())
        &&& extends(before.class_pool.spec_classes(), self.class_pool.spec_classes())
    }

    /// Whether `self` holds the same items as `other`, in every pool.
    pub open spec fn same_contents(&self, other: DexPool) -> bool {
        &&& self.string_pool == other.string_pool
        &&& self.type_pool == other.type_pool
        &&& self.proto_pool.spec_items() == other.proto_pool.spec_items()
        &&& self.field_pool == other.field_pool
        &&& self.method_pool == other.method_pool
        &&& self.class_pool == other.class_pool
    }

    /// Whether the string and the type `t` are both pooled.
    pub open spec fn has_type(&self, t: Seq<char>) -> bool {
        self.has_string(t) && self.type_pool.spec_items().contains(t)
    }

    /// Whether the prototype with these types is pooled, with its types.
    pub open spec fn has_proto(&self, ret: Seq<char>, params: Seq<Seq<char>>) -> bool {
        &&& self.has_type(ret)
        &&& forall|k: int| 0 <= k < params.len() ==> #[trigger] self.has_type(params[k])
        &&& self.proto_pool.spec_items().contains(proto_key_of(ret, params))
    }

    /// Whether what `r` names is pooled.
    pub open spec fn has_reference(&self, r: ReferenceHolder) -> bool {
        match r {
            ReferenceHolder::NoReference => true,
            ReferenceHolder::String(s) => self.has_string(s.string@),
            ReferenceHolder::Type(t) => self.has_type(t.type_descriptor@),
            ReferenceHolder::Field(f) => {
                &&& self.has_type(f.defining_class@)
                &&& self.has_string(f.field_name@)
                &&& self.has_type(f.field_type@)
                &&& self.field_pool.spec_items().contains((f.defining_class@, f.field_name@, f.field_type@))
            },
            ReferenceHolder::Method(m) => {
                &&& self.has_type(m.defining_class@)
                &&& self.has_string(m.method_name@)
                &&& self.has_proto(m.return_type@, strings_view(m.parameter_types@))
                &&& self.method_pool.spec_items().contains(
                    (m.defining_class@, m.method_name@, proto_key_of(m.return_type@, strings_view(m.parameter_types@))),
                )
            },
            ReferenceHolder::MethodProto(p) => self.has_proto(p.return_type@, strings_view(p.parameter_types@)),
        }
    }

    /// Whether the string `s` is pooled.
    pub open spec fn has_string(&self, s: Seq<char>) -> bool {
        self.string_pool.spec_items().contains(s)
    }

    /// Whether the field `f` of the class `desc` is pooled, with its name and type.
    pub open spec fn field_pooled(&self, desc: Seq<char>, f: ImmutableField) -> bool {
        &&& self.has_string(f.name@)
        &&& self.has_type(f.field_type@)
        &&& self.field_pool.spec_items().contains((desc, f.name@, f.field_type@))
    }

    /// Whether the method `m` of the class `desc` is pooled, with its name, its prototype and
    /// what the instructions of its code name.
    pub open spec fn method_pooled(&self, desc: Seq<char>, m: ImmutableMethod) -> bool {
        &&& self.has_string(m.name@)
        &&& self.has_proto(m.return_type@, strings_view(m.parameter_types@))
        &&& self.method_pool.spec_items().contains(
            (desc, m.name@, proto_key_of(m.return_type@, strings_view(m.parameter_types@))),
        )
        &&& m.implementation matches Some(imp) ==> forall|k: int|
            0 <= k < imp.instructions@.len() ==> (#[trigger] instruction_reference(imp.instructions@[k]) matches Some(r)
                ==> self.has_reference(r))
    }

    pub fn new() -> (res: Self)
        ensures
            res.wf(),
            res.string_pool.spec_items().len() == 0,
            res.type_pool.spec_items().len() == 0,
            res.proto_pool.spec_items().len() == 0,
            res.field_pool.spec_items().len() == 0,
            res.method_pool.spec_items().len() == 0,
            res.class_pool.spec_classes().len() == 0,
    {
        DexPool {
            string_pool: StringPool::new(),
            type_pool: TypePool::new(StringPool::new()),
            proto_pool: ProtoPool::new(),
            field_pool: FieldPool::new(),
            method_pool: MethodPool::new(),
            class_pool: ClassPool::new(),
        }
    }

    fn intern_string(&mut self, s: &str)
        requires
            old(self).wf(),
        ensures
            final(self).wf(),
            final(self).keeps(*old(self)),
            final(self).string_pool.spec_items().contains(s@),
            final(self).type_pool == old(self).type_pool,
            final(self).proto_pool == old(self).proto_pool,
            final(self).field_pool == old(self).field_pool,
            final(self).method_pool == old(self).method_pool,
            final(self).class_pool == old(self).class_pool,
    {
        let ghost before = self.string_pool.spec_items();
        self.string_pool.intern(s);
        proof {
            if !before.contains(s@) {
                assert(self.string_pool.spec_items()[before.len() as int] == s@);
            }
        }
    }

    fn intern_type(&mut self, t: &str)
        requires
            old(self).wf(),
        ensures
            final(self).wf(),
            final(self).keeps(*old(self)),
            final(self).has_type(t@),
            final(self).proto_pool == old(self).proto_pool,
            final(self).field_pool == old(self).field_pool,
            final(self).method_pool == old(self).method_pool,
            final(self).class_pool == old(self).class_pool,
    {
        self.intern_string(t);
        let ghost before = self.type_pool.spec_items();
        self.type_pool.intern(t);
        proof {
            if !before.contains(t@) {
                assert(self.type_pool.spec_items()[before.len() as int] == t@);
            }
        }
    }

    /// Pools the types of a prototype and the prototype; returns its key.
    fn intern_proto(&mut self, ret: &str, params: &[String]) -> (res: ProtoKey)
        requires
            old(self).wf(),
        ensures
            final(self).wf(),
            final(self).keeps(*old(self)),
            final(self).has_proto(ret@, strings_view(params@)),
            res@ == proto_key_of(ret@, strings_view(params@)),
            final(self).field_pool == old(self).field_pool,
            final(self).method_pool == old(self).method_pool,
            final(self).class_pool == old(self).class_pool,
    {
        let ghost start = *self;
        self.intern_type(ret);
        let mut k: usize = 0;
        while k < params.len()
            invariant
                self.wf(),
                self.keeps(start),
                k <= params@.len(),
                self.has_type(ret@),
                forall|j: int| 0 <= j < k ==> #[trigger] self.has_type(strings_view(params@)[j]),
                self.field_pool == start.field_pool,
                self.method_pool == start.method_pool,
                self.class_pool == start.class_pool,
            decreases params.len() - k,
        {
            let ghost mid = *self;
            self.intern_type(params[k].as_str());
            assert forall|j: int| 0 <= j <= k implies #[trigger] self.has_type(strings_view(params@)[j]) by {
                if j < k {
                    assert(mid.has_type(strings_view(params@)[j]));
                    let s = strings_view(params@)[j];
                    let a = choose|a: int| 0 <= a < mid.string_pool.spec_items().len() && mid.string_pool.spec_items()[a] == s;
                    assert(self.string_pool.spec_items()[a] == s);
                    let b = choose|b: int| 0 <= b < mid.type_pool.spec_items().len() && mid.type_pool.spec_items()[b] == s;
                    assert(self.type_pool.spec_items()[b] == s);
                }
            }
            proof {
                let s = ret@;
                let a = choose|a: int| 0 <= a < mid.string_pool.spec_items().len() && mid.string_pool.spec_items()[a] == s;
                assert(self.string_pool.spec_items()[a] == s);
                let b = choose|b: int| 0 <= b < mid.type_pool.spec_items().len() && mid.type_pool.spec_items()[b] == s;
                assert(self.type_pool.spec_items()[b] == s);
            }
            k += 1;
        }
        let shorty = make_shorty(ret, params);
        let key = ProtoKey { shorty, return_type: ret.to_owned(), parameters: clone_strings_vec(params) };
        let ghost kv = key@;
        let ghost before = self.proto_pool.spec_items();
        let ghost mid = *self;
        self.proto_pool.intern(key.shorty.as_str(), key.return_type.as_str(), clone_strings_vec(key.parameters.as_slice()));
        proof {
            if !before.contains(kv) {
                assert(self.proto_pool.spec_items()[before.len() as int] == kv);
            }
            assert(kv == proto_key_of(ret@, strings_view(params@)));
            assert(self.proto_pool.spec_items().contains(kv));
            assert(self.has_type(ret@));
            assert forall|j: int| 0 <= j < strings_view(params@).len() implies #[trigger] self.has_type(strings_view(params@)[j]) by {
                assert(mid.has_type(strings_view(params@)[j]));
            }
        }
        key
    }
}

/// A copy of each string of `v`.
pub fn clone_strings_vec(v: &[String]) -> (res: Vec<String>)
    ensures
        strings_view(res@) == strings_view(v@),
{
    let mut res: Vec<String> = Vec::new();
    let mut i: usize = 0;
    while i < v.len()
        invariant
            i <= v@.len(),
            strings_view(res@) == strings_view(v@).take(i as int),
        decreases v.len() - i,
    {
        let ghost before = res@;
        res.push(v[i].clone());
        proof {
            assert(strings_view(res@) =~= strings_view(before).push(v@[i as int]@));
            assert(strings_view(v@).take(i + 1) =~= strings_view(v@).take(i as int).push(v@[i as int]@));
        }
        i += 1;
    }
    assert(strings_view(v@).take(v@.len() as int) =~= strings_view(v@));
    res
}


proof fn lemma_extends_contains<V>(a: Seq<V>, b: Seq<V>, v: V)
    requires
        extends(a, b),
        a.contains(v),
    ensures
        b.contains(v),
{
    let i = choose|i: int| 0 <= i < a.len() && a[i] == v;
    assert(b[i] == v);
}

/// What a pool holds stays held in any pool that keeps it.
pub proof fn lemma_keeps_holds(a: DexPool, b: DexPool)
    requires
        b.keeps(a),
    ensures
        forall|s: Seq<char>| a.has_string(s) ==> #[trigger] b.has_string(s),
        forall|t: Seq<char>| a.has_type(t) ==> #[trigger] b.has_type(t),
        forall|ret: Seq<char>, ps: Seq<Seq<char>>| a.has_proto(ret, ps) ==> #[trigger] b.has_proto(ret, ps),
        forall|r: ReferenceHolder| a.has_reference(r) ==> #[trigger] b.has_reference(r),
        forall|d: Seq<char>, f: ImmutableField| a.field_pooled(d, f) ==> #[trigger] b.field_pooled(d, f),
        forall|d: Seq<char>, m: ImmutableMethod| a.method_pooled(d, m) ==> #[trigger] b.method_pooled(d, m),
{
    assert forall|s: Seq<char>| a.has_string(s) implies #[trigger] b.has_string(s) by {
        lemma_extends_contains(a.string_pool.spec_items(), b.string_pool.spec_items(), s);
    }
    assert forall|t: Seq<char>| a.has_type(t) implies #[trigger] b.has_type(t) by {
        assert(b.has_string(t));
        lemma_extends_contains(a.type_pool.spec_items(), b.type_pool.spec_items(), t);
    }
    assert forall|ret: Seq<char>, ps: Seq<Seq<char>>| a.has_proto(ret, ps) implies #[trigger] b.has_proto(ret, ps) by {
        assert(b.has_type(ret));
        assert forall|k: int| 0 <= k < ps.len() implies #[trigger] b.has_type(ps[k]) by {
            assert(a.has_type(ps[k]));
        }
        lemma_extends_contains(a.proto_pool.spec_items(), b.proto_pool.spec_items(), proto_key_of(ret, ps));
    }
    assert forall|r: ReferenceHolder| a.has_reference(r) implies #[trigger] b.has_reference(r) by {
        match r {
            ReferenceHolder::NoReference => {},
            ReferenceHolder::String(x) => {
                assert(b.has_string(x.string@));
            },
            ReferenceHolder::Type(t) => {
                assert(b.has_type(t.type_descriptor@));
            },
            ReferenceHolder::Field(f) => {
                assert(b.has_type(f.defining_class@));
                assert(b.has_string(f.field_name@));
                assert(b.has_type(f.field_type@));
                lemma_extends_contains(
                    a.field_pool.spec_items(),
                    b.field_pool.spec_items(),
                    (f.defining_class@, f.field_name@, f.field_type@),
                );
            },
            ReferenceHolder::Method(m) => {
                assert(b.has_type(m.defining_class@));
                assert(b.has_string(m.method_name@));
                assert(b.has_proto(m.return_type@, strings_view(m.parameter_types@)));
                lemma_extends_contains(
                    a.method_pool.spec_items(),
                    b.method_pool.spec_items(),
                    (m.defining_class@, m.method_name@, proto_key_of(m.return_type@, strings_view(m.parameter_types@))),
                );
            },
            ReferenceHolder::MethodProto(p) => {
                assert(b.has_proto(p.return_type@, strings_view(p.parameter_types@)));
            },
        }
    }
    assert forall|d: Seq<char>, f: ImmutableField| a.field_pooled(d, f) implies #[trigger] b.field_pooled(d, f) by {
        assert(b.has_string(f.name@));
        assert(b.has_type(f.field_type@));
        lemma_extends_contains(a.field_pool.spec_items(), b.field_pool.spec_items(), (d, f.name@, f.field_type@));
    }
    assert forall|d: Seq<char>, m: ImmutableMethod| a.method_pooled(d, m) implies #[trigger] b.method_pooled(d, m) by {
        assert(b.has_string(m.name@));
        assert(b.has_proto(m.return_type@, strings_view(m.parameter_types@)));
        lemma_extends_contains(
            a.method_pool.spec_items(),
            b.method_pool.spec_items(),
            (d, m.name@, proto_key_of(m.return_type@, strings_view(m.parameter_types@))),
        );
        if let Some(imp) = m.implementation {
            assert forall|k: int| 0 <= k < imp.instructions@.len() implies (#[trigger] instruction_reference(
                imp.instructions@[k],
            ) matches Some(r) ==> b.has_reference(r)) by {
                if let Some(r) = instruction_reference(imp.instructions@[k]) {
                    assert(a.has_reference(r));
                }
            }
        }
    }
}


impl DexPool {
    /// Pools what `reference` names: strings, types, and the field, method or prototype.
    fn intern_reference(&mut self, reference: &ReferenceHolder)
        requires
            old(self).wf(),
        ensures
            final(self).wf(),
            final(self).keeps(*old(self)),
            final(self).has_reference(*reference),
            final(self).class_pool == old(self).class_pool,
    {
        let ghost start = *self;
        match reference {
            ReferenceHolder::NoReference => {},
            ReferenceHolder::String(s) => {
                self.intern_string(s.string.as_str());
            },
            ReferenceHolder::Type(t) => {
                self.intern_type(t.type_descriptor.as_str());
            },
            ReferenceHolder::Field(f) => {
                self.intern_type(f.defining_class.as_str());
                let ghost s1 = *self;
                self.intern_string(f.field_name.as_str());
                let ghost s2 = *self;
                self.intern_type(f.field_type.as_str());
                let ghost s3 = *self;
                let ghost before = self.field_pool.spec_items();
                let ghost key = (f.defining_class@, f.field_name@, f.field_type@);
                self.field_pool.intern(f.defining_class.as_str(), f.field_name.as_str(), f.field_type.as_str());
                proof {
                    if !before.contains(key) {
                        assert(self.field_pool.spec_items()[before.len() as int] == key);
                    }
                    lemma_keeps_holds(s1, s2);
                    lemma_keeps_holds(s2, s3);
                    lemma_keeps_holds(s3, *self);
                    assert(s1.has_type(f.defining_class@));
                    assert(s2.has_string(f.field_name@));
                    assert(s3.has_type(f.field_type@));
                    assert(s2.has_type(f.defining_class@));
                    assert(s3.has_type(f.defining_class@));
                    assert(s3.has_string(f.field_name@));
                }
            },
            ReferenceHolder::Method(m) => {
                self.intern_type(m.defining_class.as_str());
                let ghost s1 = *self;
                self.intern_string(m.method_name.as_str());
                let ghost s2 = *self;
                let key = self.intern_proto(m.return_type.as_str(), m.parameter_types.as_slice());
                let ghost s3 = *self;
                let ghost before = self.method_pool.spec_items();
                let ghost mkey = (m.defining_class@, m.method_name@, key@);
                self.method_pool.intern(m.defining_class.as_str(), m.method_name.as_str(), key);
                proof {
                    if !before.contains(mkey) {
                        assert(self.method_pool.spec_items()[before.len() as int] == mkey);
                    }
                    lemma_keeps_holds(s1, s2);
                    lemma_keeps_holds(s2, s3);
                    lemma_keeps_holds(s3, *self);
                    assert(s1.has_type(m.defining_class@));
                    assert(s2.has_type(m.defining_class@));
                    assert(s2.has_string(m.method_name@));
                    assert(s3.has_proto(m.return_type@, strings_view(m.parameter_types@)));
                }
            },
            ReferenceHolder::MethodProto(p) => {
                self.intern_proto(p.return_type.as_str(), p.parameter_types.as_slice());
            },
        }
    }

    /// Pools what an instruction names, for the immutable instructions whose format carries a
    /// reference.
    fn intern_instruction_references(&mut self, instr: &AnyInstruction)
        requires
            old(self).wf(),
        ensures
            final(self).wf(),
            final(self).keeps(*old(self)),
            instruction_reference(*instr) matches Some(r) ==> final(self).has_reference(r),
            final(self).class_pool == old(self).class_pool,
    {
        let format = instr.format();
        match format {
            InstructionFormat::Format21c | InstructionFormat::Format31c => match instr {
                AnyInstruction::I21c(i) => self.intern_reference(&i.reference),
                AnyInstruction::I31c(i) => self.intern_reference(&i.reference),
                _ => {},
            },
            InstructionFormat::Format22c => match instr {
                AnyInstruction::I22c(i) => self.intern_reference(&i.reference),
                _ => {},
            },
            InstructionFormat::Format35c => match instr {
                AnyInstruction::I35c(i) => self.intern_reference(&i.reference),
                _ => {},
            },
            InstructionFormat::Format3rc => match instr {
                AnyInstruction::I3rc(i) => self.intern_reference(&i.reference),
                _ => {},
            },
            _ => {},
        }
    }
}


/// Whether `e` describes the field `f` for the file.
pub open spec fn field_entry_of(e: FieldEntry, f: ImmutableField) -> bool {
    e.name@ == f.name@ && e.field_type@ == f.field_type@ && e.access_flags == f.access_flags.bits
}

/// Whether `e` describes the method `m` for the file: its name, prototype, flags and, where it
/// has code, its register count and instructions by their opcodes.
pub open spec fn method_entry_of(e: MethodEntry, m: ImmutableMethod) -> bool {
    &&& e.name@ == m.name@
    &&& e.proto@ == proto_key_of(m.return_type@, strings_view(m.parameter_types@))
    &&& e.access_flags == m.access_flags.bits
    &&& match (e.implementation, m.implementation) {
        (Some(ie), Some(im)) => {
            &&& ie.register_count == im.register_count
            &&& ie.debug_info_off == 0
            &&& ie.instructions@.len() == im.instructions@.len()
            &&& forall|k: int| 0 <= k < ie.instructions@.len() ==> #[trigger] ie.instructions@[k].spec_opcode()
                == im.instructions@[k].spec_opcode() && kind_of(ie.instructions@[k]) == kind_of(im.instructions@[k])
            &&& forall|k: int| 0 <= k < ie.instructions@.len() ==> instruction_copied(im.instructions@[k], #[trigger] ie.instructions@[k])
        },
        (None, None) => true,
        _ => false,
    }
}

/// Whether `e` describes the class `c` for the file, `types` being the pooled types.
pub open spec fn class_entry_of(e: ClassEntry, c: ImmutableClassDef, types: Seq<Seq<char>>) -> bool {
    &&& e.type_descriptor@ == c.type_descriptor@
    &&& e.access_flags == c.access_flags.bits
    &&& e.superclass_idx == match c.superclass {
        Some(sc) => if types.contains(sc@) {
            Some(first_index(types, sc@) as u32)
        } else {
            None
        },
        None => None,
    }
    &&& strings_view(e.interfaces@) == strings_view(c.interfaces@)
    &&& opt_text(e.source_file) == opt_text(c.source_file)
    &&& e.static_fields@.len() == c.static_fields@.len()
    &&& forall|k: int| 0 <= k < e.static_fields@.len() ==> field_entry_of(#[trigger] e.static_fields@[k], c.static_fields@[k])
    &&& e.instance_fields@.len() == c.instance_fields@.len()
    &&& forall|k: int| 0 <= k < e.instance_fields@.len() ==> field_entry_of(#[trigger] e.instance_fields@[k], c.instance_fields@[k])
    &&& e.direct_methods@.len() == c.direct_methods@.len()
    &&& forall|k: int| 0 <= k < e.direct_methods@.len() ==> method_entry_of(#[trigger] e.direct_methods@[k], c.direct_methods@[k])
    &&& e.virtual_methods@.len() == c.virtual_methods@.len()
    &&& forall|k: int| 0 <= k < e.virtual_methods@.len() ==> method_entry_of(#[trigger] e.virtual_methods@[k], c.virtual_methods@[k])
}

fn field_entries(fields: &[ImmutableField]) -> (res: Vec<FieldEntry>)
    ensures
        res@.len() == fields@.len(),
        forall|k: int| 0 <= k < res@.len() ==> field_entry_of(#[trigger] res@[k], fields@[k]),
{
    let mut res: Vec<FieldEntry> = Vec::new();
    let mut k: usize = 0;
    while k < fields.len()
        invariant
            k <= fields@.len(),
            res@.len() == k,
            forall|j: int| 0 <= j < k ==> field_entry_of(#[trigger] res@[j], fields@[j]),
        decreases fields.len() - k,
    {
        let f = &fields[k];
        res.push(FieldEntry { name: f.name.clone(), field_type: f.field_type.clone(), access_flags: f.access_flags.bits() });
        k += 1;
    }
    res
}

fn instruction_copies(instrs: &[AnyInstruction]) -> (res: Vec<AnyInstruction>)
    ensures
        res@.len() == instrs@.len(),
        forall|k: int| 0 <= k < res@.len() ==> #[trigger] res@[k].spec_opcode() == instrs@[k].spec_opcode() && kind_of(
            res@[k],
        ) == kind_of(instrs@[k]),
        forall|k: int| 0 <= k < res@.len() ==> instruction_copied(instrs@[k], #[trigger] res@[k]),
{
    let mut res: Vec<AnyInstruction> = Vec::new();
    let mut k: usize = 0;
    while k < instrs.len()
        invariant
            k <= instrs@.len(),
            res@.len() == k,
            forall|j: int| 0 <= j < k ==> #[trigger] res@[j].spec_opcode() == instrs@[j].spec_opcode() && kind_of(
                res@[j],
            ) == kind_of(instrs@[j]),
            forall|j: int| 0 <= j < k ==> instruction_copied(instrs@[j], #[trigger] res@[j]),
        decreases instrs.len() - k,
    {
        let c = instrs[k].clone_boxed();
        res.push(c);
        k += 1;
    }
    res
}

impl DexPool {
    fn intern_field(&mut self, desc: &str, f: &ImmutableField)
        requires
            old(self).wf(),
        ensures
            final(self).wf(),
            final(self).keeps(*old(self)),
            final(self).field_pooled(desc@, *f),
            final(self).class_pool == old(self).class_pool,
    {
        self.intern_string(f.name.as_str());
        let ghost s1 = *self;
        self.intern_type(f.field_type.as_str());
        let ghost s2 = *self;
        let ghost before = self.field_pool.spec_items();
        let ghost key = (desc@, f.name@, f.field_type@);
        self.field_pool.intern(desc, f.name.as_str(), f.field_type.as_str());
        proof {
            if !before.contains(key) {
                assert(self.field_pool.spec_items()[before.len() as int] == key);
            }
            lemma_keeps_holds(s1, s2);
            lemma_keeps_holds(s2, *self);
            assert(s1.has_string(f.name@));
            assert(s2.has_string(f.name@));
            assert(s2.has_type(f.field_type@));
        }
    }

    fn intern_method(&mut self, desc: &str, m: &ImmutableMethod)
        requires
            old(self).wf(),
        ensures
            final(self).wf(),
            final(self).keeps(*old(self)),
            final(self).method_pooled(desc@, *m),
            final(self).class_pool == old(self).class_pool,
    {
        self.intern_string(m.name.as_str());
        let ghost s1 = *self;
        let key = self.intern_proto(m.return_type.as_str(), m.parameter_types.as_slice());
        let ghost s2 = *self;
        let ghost before = self.method_pool.spec_items();
        let ghost mkey = (desc@, m.name@, key@);
        self.method_pool.intern(desc, m.name.as_str(), key);
        proof {
            if !before.contains(mkey) {
                assert(self.method_pool.spec_items()[before.len() as int] == mkey);
            }
            lemma_keeps_holds(s1, s2);
            lemma_keeps_holds(s2, *self);
            assert(s2.has_string(m.name@));
            assert(s2.has_proto(m.return_type@, strings_view(m.parameter_types@)));
        }
        let ghost s3 = *self;
        if let Some(imp) = &m.implementation {
            let mut k: usize = 0;
            while k < imp.instructions.len()
                invariant
                    self.wf(),
                    self.keeps(s3),
                    s3.has_string(m.name@),
                    s3.has_proto(m.return_type@, strings_view(m.parameter_types@)),
                    s3.method_pool.spec_items().contains(
                        (desc@, m.name@, proto_key_of(m.return_type@, strings_view(m.parameter_types@))),
                    ),
                    m.implementation == Some(*imp),
                    k <= imp.instructions@.len(),
                    forall|j: int| 0 <= j < k ==> (#[trigger] instruction_reference(imp.instructions@[j]) matches Some(r)
                        ==> self.has_reference(r)),
                    self.class_pool == s3.class_pool,
                decreases imp.instructions.len() - k,
            {
                let ghost mid = *self;
                self.intern_instruction_references(&imp.instructions[k]);
                proof {
                    lemma_keeps_holds(mid, *self);
                    assert forall|j: int| 0 <= j <= k implies (#[trigger] instruction_reference(imp.instructions@[j]) matches Some(r)
                        ==> self.has_reference(r)) by {
                        if j < k {
                            if let Some(r) = instruction_reference(imp.instructions@[j]) {
                                assert(mid.has_reference(r));
                            }
                        }
                    }
                }
                k += 1;
            }
            proof {
                lemma_keeps_holds(s3, *self);
                lemma_extends_contains(
                    s3.method_pool.spec_items(),
                    self.method_pool.spec_items(),
                    (desc@, m.name@, proto_key_of(m.return_type@, strings_view(m.parameter_types@))),
                );
                assert(self.has_string(m.name@));
                assert(self.has_proto(m.return_type@, strings_view(m.parameter_types@)));
            }
        }
    }

    /// The entry of method `m` for the file, whose prototype is pooled already.
    fn method_entry(&mut self, m: &ImmutableMethod) -> (res: MethodEntry)
        requires
            old(self).wf(),
            old(self).proto_pool.spec_items().contains(proto_key_of(m.return_type@, strings_view(m.parameter_types@))),
        ensures
            final(self).wf(),
            final(self).same_contents(*old(self)),
            method_entry_of(res, *m),
    {
        let shorty = make_shorty(m.return_type.as_str(), m.parameter_types.as_slice());
        self.proto_pool.intern(shorty.as_str(), m.return_type.as_str(), clone_strings_vec(m.parameter_types.as_slice()));
        let proto = ProtoKey {
            shorty,
            return_type: m.return_type.clone(),
            parameters: clone_strings_vec(m.parameter_types.as_slice()),
        };
        let implementation = match &m.implementation {
            Some(imp) => Some(
                MethodImplEntry {
                    register_count: imp.register_count,
                    instructions: instruction_copies(imp.instructions.as_slice()),
                    debug_info_off: 0,
                },
            ),
            None => None,
        };
        MethodEntry { name: m.name.clone(), proto, access_flags: m.access_flags.bits(), implementation }
    }

    /// Pools everything that a class names, then adds the class itself.
    pub fn intern_class(&mut self, class_def: &ImmutableClassDef)
        requires
            old(self).wf(),
        ensures
            final(self).wf(),
            final(self).keeps(*old(self)),
            final(self).has_type(class_def.type_descriptor@),
            class_def.superclass matches Some(sc) ==> final(self).has_type(sc@),
            forall|k: int| 0 <= k < class_def.interfaces@.len() ==> #[trigger] final(self).has_type(class_def.interfaces@[k]@),
            class_def.source_file matches Some(sf) ==> final(self).has_string(sf@),
            forall|k: int| 0 <= k < class_def.static_fields@.len() ==> #[trigger] final(self).field_pooled(
                class_def.type_descriptor@,
                class_def.static_fields@[k],
            ),
            forall|k: int| 0 <= k < class_def.instance_fields@.len() ==> #[trigger] final(self).field_pooled(
                class_def.type_descriptor@,
                class_def.instance_fields@[k],
            ),
            forall|k: int| 0 <= k < class_def.direct_methods@.len() ==> #[trigger] final(self).method_pooled(
                class_def.type_descriptor@,
                class_def.direct_methods@[k],
            ),
            forall|k: int| 0 <= k < class_def.virtual_methods@.len() ==> #[trigger] final(self).method_pooled(
                class_def.type_descriptor@,
                class_def.virtual_methods@[k],
            ),
            final(self).class_pool.spec_classes().len() == old(self).class_pool.spec_classes().len() + 1,
            class_entry_of(
                final(self).class_pool.spec_classes().last(),
                *class_def,
                final(self).type_pool.spec_items(),
            ),
    {
        let ghost start = *self;
        let desc = class_def.type_descriptor.as_str();
        self.intern_type(desc);
        let ghost a = *self;
        match &class_def.superclass {
            Some(sc) => {
                self.intern_type(sc.as_str());
            },
            None => {},
        }
        let ghost b = *self;
        proof {
            lemma_keeps_holds(a, b);
        }
        let mut k: usize = 0;
        while k < class_def.interfaces.len()
            invariant
                self.wf(),
                self.keeps(b),
                b.keeps(start),
                b.has_type(desc@),
                class_def.superclass matches Some(sc) ==> b.has_type(sc@),
                self.class_pool == start.class_pool,
                k <= class_def.interfaces@.len(),
                forall|j: int| 0 <= j < k ==> #[trigger] self.has_type(class_def.interfaces@[j]@),
            decreases class_def.interfaces.len() - k,
        {
            let ghost mid = *self;
            self.intern_type(class_def.interfaces[k].as_str());
            proof {
                lemma_keeps_holds(mid, *self);
                assert forall|j: int| 0 <= j <= k implies #[trigger] self.has_type(class_def.interfaces@[j]@) by {
                    if j < k {
                        assert(mid.has_type(class_def.interfaces@[j]@));
                    }
                }
            }
            k += 1;
        }
        let ghost c = *self;
        match &class_def.source_file {
            Some(sf) => {
                self.intern_string(sf.as_str());
            },
            None => {},
        }
        let ghost d = *self;
        proof {
            lemma_keeps_holds(c, d);
            assert forall|j: int| 0 <= j < class_def.interfaces@.len() implies #[trigger] d.has_type(class_def.interfaces@[j]@) by {
                assert(c.has_type(class_def.interfaces@[j]@));
            }
            lemma_keeps_holds(b, c);
            lemma_keeps_holds(b, d);
        }
        let mut k: usize = 0;
        while k < class_def.static_fields.len()
            invariant
                self.wf(),
                self.keeps(d),
                d.keeps(start),
                self.class_pool == start.class_pool,
                k <= class_def.static_fields@.len(),
                forall|j: int| 0 <= j < k ==> #[trigger] self.field_pooled(desc@, class_def.static_fields@[j]),
            decreases class_def.static_fields.len() - k,
        {
            let ghost mid = *self;
            self.intern_field(desc, &class_def.static_fields[k]);
            proof {
                lemma_keeps_holds(mid, *self);
                assert forall|j: int| 0 <= j <= k implies #[trigger] self.field_pooled(desc@, class_def.static_fields@[j]) by {
                    if j < k {
                        assert(mid.field_pooled(desc@, class_def.static_fields@[j]));
                    }
                }
            }
            k += 1;
        }
        let ghost e = *self;
        let mut k: usize = 0;
        while k < class_def.instance_fields.len()
            invariant
                self.wf(),
                self.keeps(e),
                e.keeps(start),
                self.class_pool == start.class_pool,
                k <= class_def.instance_fields@.len(),
                forall|j: int| 0 <= j < k ==> #[trigger] self.field_pooled(desc@, class_def.instance_fields@[j]),
            decreases class_def.instance_fields.len() - k,
        {
            let ghost mid = *self;
            self.intern_field(desc, &class_def.instance_fields[k]);
            proof {
                lemma_keeps_holds(mid, *self);
                assert forall|j: int| 0 <= j <= k implies #[trigger] self.field_pooled(desc@, class_def.instance_fields@[j]) by {
                    if j < k {
                        assert(mid.field_pooled(desc@, class_def.instance_fields@[j]));
                    }
                }
            }
            k += 1;
        }
        let ghost f = *self;
        let mut k: usize = 0;
        while k < class_def.direct_methods.len()
            invariant
                self.wf(),
                self.keeps(f),
                f.keeps(start),
                self.class_pool == start.class_pool,
                k <= class_def.direct_methods@.len(),
                forall|j: int| 0 <= j < k ==> #[trigger] self.method_pooled(desc@, class_def.direct_methods@[j]),
            decreases class_def.direct_methods.len() - k,
        {
            let ghost mid = *self;
            self.intern_method(desc, &class_def.direct_methods[k]);
            proof {
                lemma_keeps_holds(mid, *self);
                assert forall|j: int| 0 <= j <= k implies #[trigger] self.method_pooled(desc@, class_def.direct_methods@[j]) by {
                    if j < k {
                        assert(mid.method_pooled(desc@, class_def.direct_methods@[j]));
                    }
                }
            }
            k += 1;
        }
        let ghost g = *self;
        let mut k: usize = 0;
        while k < class_def.virtual_methods.len()
            invariant
                self.wf(),
                self.keeps(g),
                g.keeps(start),
                self.class_pool == start.class_pool,
                k <= class_def.virtual_methods@.len(),
                forall|j: int| 0 <= j < k ==> #[trigger] self.method_pooled(desc@, class_def.virtual_methods@[j]),
            decreases class_def.virtual_methods.len() - k,
        {
            let ghost mid = *self;
            self.intern_method(desc, &class_def.virtual_methods[k]);
            proof {
                lemma_keeps_holds(mid, *self);
                assert forall|j: int| 0 <= j <= k implies #[trigger] self.method_pooled(desc@, class_def.virtual_methods@[j]) by {
                    if j < k {
                        assert(mid.method_pooled(desc@, class_def.virtual_methods@[j]));
                    }
                }
            }
            k += 1;
        }
        let ghost h = *self;
        proof {
            lemma_keeps_holds(d, e);
            lemma_keeps_holds(e, f);
            lemma_keeps_holds(f, g);
            lemma_keeps_holds(g, h);
            lemma_keeps_holds(d, h);
            lemma_keeps_holds(e, h);
            lemma_keeps_holds(f, h);
        }
        let superclass_idx = match &class_def.superclass {
            Some(sc) => self.type_pool.get_index(sc.as_str()),
            None => None,
        };
        let mut direct: Vec<MethodEntry> = Vec::new();
        let mut k: usize = 0;
        while k < class_def.direct_methods.len()
            invariant
                self.wf(),
                self.same_contents(h),
                forall|j: int| 0 <= j < class_def.direct_methods@.len() ==> #[trigger] h.method_pooled(desc@, class_def.direct_methods@[j]),
                h.wf(),
                k <= class_def.direct_methods@.len(),
                direct@.len() == k,
                forall|j: int| 0 <= j < k ==> method_entry_of(#[trigger] direct@[j], class_def.direct_methods@[j]),
            decreases class_def.direct_methods.len() - k,
        {
            assert(h.method_pooled(desc@, class_def.direct_methods@[k as int]));
            proof {
                lemma_keeps_holds(h, *self);
            }
            assert(self.method_pooled(desc@, class_def.direct_methods@[k as int]));
            let entry = self.method_entry(&class_def.direct_methods[k]);
            direct.push(entry);
            k += 1;
        }
        let mut virt: Vec<MethodEntry> = Vec::new();
        let mut k: usize = 0;
        while k < class_def.virtual_methods.len()
            invariant
                self.wf(),
                self.same_contents(h),
                forall|j: int| 0 <= j < class_def.virtual_methods@.len() ==> #[trigger] h.method_pooled(desc@, class_def.virtual_methods@[j]),
                h.wf(),
                k <= class_def.virtual_methods@.len(),
                virt@.len() == k,
                forall|j: int| 0 <= j < k ==> method_entry_of(#[trigger] virt@[j], class_def.virtual_methods@[j]),
            decreases class_def.virtual_methods.len() - k,
        {
            assert(h.method_pooled(desc@, class_def.virtual_methods@[k as int]));
            proof {
                lemma_keeps_holds(h, *self);
            }
            assert(self.method_pooled(desc@, class_def.virtual_methods@[k as int]));
            let entry = self.method_entry(&class_def.virtual_methods[k]);
            virt.push(entry);
            k += 1;
        }
        let entry = ClassEntry {
            type_descriptor: class_def.type_descriptor.clone(),
            access_flags: class_def.access_flags.bits(),
            superclass_idx,
            interfaces: clone_strings_vec(class_def.interfaces.as_slice()),
            source_file: match &class_def.source_file {
                Some(sf) => Some(sf.clone()),
                None => None,
            },
            static_fields: field_entries(class_def.static_fields.as_slice()),
            instance_fields: field_entries(class_def.instance_fields.as_slice()),
            direct_methods: direct,
            virtual_methods: virt,
        };
        let ghost before = self.class_pool.spec_classes();
        let ghost pre = *self;
        self.class_pool.intern(entry);
        proof {
            lemma_keeps_holds(h, pre);
            lemma_keeps_holds(pre, *self);
            lemma_keeps_holds(h, *self);
            assert(self.class_pool.spec_classes().last() == entry);
            assert(extends(before, self.class_pool.spec_classes()));
            assert forall|j: int| 0 <= j < class_def.interfaces@.len() implies #[trigger] self.has_type(class_def.interfaces@[j]@) by {
                assert(d.has_type(class_def.interfaces@[j]@));
                assert(h.has_type(class_def.interfaces@[j]@));
            }
            assert forall|j: int| 0 <= j < class_def.static_fields@.len() implies #[trigger] self.field_pooled(desc@, class_def.static_fields@[j]) by {
                assert(e.field_pooled(desc@, class_def.static_fields@[j]));
                assert(h.field_pooled(desc@, class_def.static_fields@[j]));
            }
            assert forall|j: int| 0 <= j < class_def.instance_fields@.len() implies #[trigger] self.field_pooled(desc@, class_def.instance_fields@[j]) by {
                assert(f.field_pooled(desc@, class_def.instance_fields@[j]));
                assert(h.field_pooled(desc@, class_def.instance_fields@[j]));
            }
            assert forall|j: int| 0 <= j < class_def.direct_methods@.len() implies #[trigger] self.method_pooled(desc@, class_def.direct_methods@[j]) by {
                assert(g.method_pooled(desc@, class_def.direct_methods@[j]));
                assert(h.method_pooled(desc@, class_def.direct_methods@[j]));
            }
            assert forall|j: int| 0 <= j < class_def.virtual_methods@.len() implies #[trigger] self.method_pooled(desc@, class_def.virtual_methods@[j]) by {
                assert(h.method_pooled(desc@, class_def.virtual_methods@[j]));
            }
            assert(h.has_type(desc@));
        }
    }
}


// ---------------------------------------------------------------------------------------------
// Encoding instructions
// ---------------------------------------------------------------------------------------------

/// The index in `items` that `key` is found at, or 0 where it is not there.
pub open spec fn index_or_zero<V>(items: Seq<V>, key: V) -> u32 {
    if items.contains(key) {
        first_index(items, key) as u32
    } else {
        0
    }
}

/// The index that an instruction writes for a reference: that of its string, type, field, method
/// or prototype in the pools, truncated to 16 bits; 0 where it is not pooled.
pub open spec fn reference_index(p: DexPool, r: ReferenceHolder) -> u16 {
    match r {
        ReferenceHolder::NoReference => 0,
        ReferenceHolder::String(s) => index_or_zero(p.string_pool.spec_items(), s.string@) as u16,
        ReferenceHolder::Type(t) => index_or_zero(p.type_pool.spec_items(), t.type_descriptor@) as u16,
        ReferenceHolder::Field(f) => index_or_zero(
            p.field_pool.spec_items(),
            (f.defining_class@, f.field_name@, f.field_type@),
        ) as u16,
        ReferenceHolder::Method(m) => index_or_zero(
            p.method_pool.spec_items(),
            (m.defining_class@, m.method_name@, proto_key_of(m.return_type@, strings_view(m.parameter_types@))),
        ) as u16,
        ReferenceHolder::MethodProto(mp) => index_or_zero(
            p.proto_pool.spec_items(),
            proto_key_of(mp.return_type@, strings_view(mp.parameter_types@)),
        ) as u16,
    }
}

fn resolve_reference_index(reference: &ReferenceHolder, pool: &DexPool) -> (res: u16)
    requires
        pool.wf(),
    ensures
        res == reference_index(*pool, *reference),
{
    let found = match reference {
        ReferenceHolder::NoReference => None,
        ReferenceHolder::String(s) => pool.string_pool.get_index(s.string.as_str()),
        ReferenceHolder::Type(t) => pool.type_pool.get_index(t.type_descriptor.as_str()),
        ReferenceHolder::Field(f) => pool.field_pool.get_index(
            f.defining_class.as_str(),
            f.field_name.as_str(),
            f.field_type.as_str(),
        ),
        ReferenceHolder::Method(m) => {
            let shorty = make_shorty(m.return_type.as_str(), m.parameter_types.as_slice());
            let key = ProtoKey {
                shorty,
                return_type: m.return_type.clone(),
                parameters: clone_strings_vec(m.parameter_types.as_slice()),
            };
            pool.method_pool.get_index(m.defining_class.as_str(), m.method_name.as_str(), &key)
        },
        ReferenceHolder::MethodProto(mp) => {
            let shorty = make_shorty(mp.return_type.as_str(), mp.parameter_types.as_slice());
            pool.proto_pool.get_index(shorty.as_str(), mp.return_type.as_str(), mp.parameter_types.as_slice())
        },
    };
    match found {
        Some(i) => i as u16,
        None => 0,
    }
}

/// The first code unit of an instruction with register `a` in its high byte.
pub open spec fn unit_aa(op: u16, a: u16) -> u16 {
    op | (a << 8u16)
}

/// The first code unit of an instruction with two 4-bit registers.
pub open spec fn unit_ba(op: u16, a: u8, b: u8) -> u16 {
    op | (((a as u16) & 0xF) << 8u16) | (((b as u16) & 0xF) << 12u16)
}

/// The first code unit of a 35c-style instruction: the register count and register G.
pub open spec fn unit_35_head(op: u16, count: u8, g: u16) -> u16 {
    op | (((count as u16) & 0xF) << 12u16) | ((g & 0xF) << 8u16)
}

/// The code unit of a 35c-style instruction with registers C, D, E and F.
pub open spec fn unit_35_regs(c: u16, d: u16, e: u16, f: u16) -> u16 {
    ((f & 0xF) << 12u16) | ((e & 0xF) << 8u16) | ((d & 0xF) << 4u16) | (c & 0xF)
}

/// The code units that `instr` is written as, `idx` being the index of what it references; `None`
/// where the instruction is not an immutable one of its format (or a payload), which the writer
/// cannot take apart.
pub open spec fn encoded(instr: AnyInstruction, idx: u16) -> Option<Seq<u16>> {
    let op = opcode_value(instr.spec_opcode()) as u16;
    match instr.spec_format() {
        InstructionFormat::Format10x => Some(seq![op]),
        InstructionFormat::Format12x => match instr {
            AnyInstruction::I12x(i) => Some(seq![unit_ba(op, i.register_a, i.register_b)]),
            _ => None,
        },
        InstructionFormat::Format11n => match instr {
            AnyInstruction::I11n(i) => Some(seq![unit_ba(op, i.register_a, i.literal as u8)]),
            _ => None,
        },
        InstructionFormat::Format11x => match instr {
            AnyInstruction::I11x(i) => Some(seq![unit_aa(op, i.register_a)]),
            _ => None,
        },
        InstructionFormat::Format10t => match instr {
            AnyInstruction::I10t(i) => Some(seq![op | (((i.code_offset as u16) & 0xFF) << 8u16)]),
            _ => None,
        },
        InstructionFormat::Format21c => match instr {
            AnyInstruction::I21c(i) => Some(seq![unit_aa(op, i.register_a as u16), idx]),
            _ => None,
        },
        InstructionFormat::Format31c => match instr {
            AnyInstruction::I31c(i) => Some(seq![unit_aa(op, i.register_a as u16), idx, 0]),
            _ => None,
        },
        InstructionFormat::Format22c => match instr {
            AnyInstruction::I22c(i) => Some(seq![unit_ba(op, i.register_a, i.register_b), idx]),
            _ => None,
        },
        InstructionFormat::Format35c => match instr {
            AnyInstruction::I35c(i) => Some(
                seq![
                    unit_35_head(op, i.register_count, i.register_g),
                    idx,
                    unit_35_regs(i.register_c, i.register_d, i.register_e, i.register_f),
                ],
            ),
            _ => None,
        },
        InstructionFormat::Format3rc => match instr {
            AnyInstruction::I3rc(i) => Some(seq![unit_aa(op, i.register_count as u16), idx, i.start_register]),
            _ => None,
        },
        InstructionFormat::Format21s | InstructionFormat::Format21ih | InstructionFormat::Format21lh => match instr {
            AnyInstruction::I21s(i) => Some(seq![unit_aa(op, i.register_a as u16), i.literal as u16]),
            _ => None,
        },
        InstructionFormat::Format31i => match instr {
            AnyInstruction::I31i(i) => Some(
                seq![unit_aa(op, i.register_a as u16), (i.literal as u32) as u16, ((i.literal as u32) >> 16u32) as u16],
            ),
            _ => None,
        },
        InstructionFormat::Format51l => match instr {
            AnyInstruction::I51l(i) => Some(
                seq![
                    unit_aa(op, i.register_a as u16),
                    (i.literal as u64) as u16,
                    ((i.literal as u64) >> 16u64) as u16,
                    ((i.literal as u64) >> 32u64) as u16,
                    ((i.literal as u64) >> 48u64) as u16,
                ],
            ),
            _ => None,
        },
        InstructionFormat::Format21t => match instr {
            AnyInstruction::I21t(i) => Some(seq![unit_aa(op, i.register_a as u16), i.code_offset as u16]),
            _ => None,
        },
        InstructionFormat::Format22t => match instr {
            AnyInstruction::I22t(i) => Some(seq![unit_ba(op, i.register_a, i.register_b), i.code_offset as u16]),
            _ => None,
        },
        InstructionFormat::Format22b => match instr {
            AnyInstruction::I22b(i) => Some(
                seq![unit_aa(op, i.register_a as u16), (i.register_b as u16) | (((i.literal as u16) & 0xFF) << 8u16)],
            ),
            _ => None,
        },
        InstructionFormat::Format22s => match instr {
            AnyInstruction::I22s(i) => Some(seq![unit_ba(op, i.register_a, i.register_b), i.literal as u16]),
            _ => None,
        },
        InstructionFormat::Format22x => match instr {
            AnyInstruction::I22x(i) => Some(seq![unit_aa(op, i.register_a as u16), i.register_b]),
            _ => None,
        },
        InstructionFormat::Format23x => match instr {
            AnyInstruction::I23x(i) => Some(
                seq![unit_aa(op, i.register_a as u16), (i.register_b as u16) | ((i.register_c as u16) << 8u16)],
            ),
            _ => None,
        },
        InstructionFormat::Format20t => match instr {
            AnyInstruction::I20t(i) => Some(seq![op, i.code_offset as u16]),
            _ => None,
        },
        InstructionFormat::Format30t => match instr {
            AnyInstruction::I30t(i) => Some(
                seq![op, (i.code_offset as u32) as u16, ((i.code_offset as u32) >> 16u32) as u16],
            ),
            _ => None,
        },
        InstructionFormat::Format31t => match instr {
            AnyInstruction::I31t(i) => Some(
                seq![unit_aa(op, i.register_a as u16), (i.code_offset as u32) as u16, ((i.code_offset as u32) >> 16u32) as u16],
            ),
            _ => None,
        },
        InstructionFormat::Format32x => match instr {
            AnyInstruction::I32x(i) => Some(seq![op, i.register_a, i.register_b]),
            _ => None,
        },
        InstructionFormat::Format22cs => match instr {
            AnyInstruction::I22c(i) => Some(seq![unit_ba(op, i.register_a, i.register_b), 0]),
            _ => None,
        },
        InstructionFormat::Format35mi | InstructionFormat::Format35ms => match instr {
            AnyInstruction::I35c(i) => Some(
                seq![
                    unit_35_head(op, i.register_count, i.register_g),
                    0,
                    unit_35_regs(i.register_c, i.register_d, i.register_e, i.register_f),
                ],
            ),
            _ => None,
        },
        InstructionFormat::Format3rmi | InstructionFormat::Format3rms => match instr {
            AnyInstruction::I3rc(i) => Some(seq![unit_aa(op, i.register_count as u16), 0, i.start_register]),
            _ => None,
        },
        InstructionFormat::Format45cc => match instr {
            AnyInstruction::I35c(i) => Some(
                seq![
                    unit_35_head(op, i.register_count, i.register_g),
                    idx,
                    unit_35_regs(i.register_c, i.register_d, i.register_e, i.register_f),
                    0,
                ],
            ),
            _ => None,
        },
        InstructionFormat::Format4rcc => match instr {
            AnyInstruction::I3rc(i) => Some(seq![unit_aa(op, i.register_count as u16), idx, i.start_register, 0]),
            _ => None,
        },
        InstructionFormat::Format20bc => Some(seq![op, 0]),
        InstructionFormat::PackedSwitchPayload | InstructionFormat::SparseSwitchPayload
        | InstructionFormat::ArrayPayload => match instr {
            AnyInstruction::Payload(i) => Some(i.raw_data@),
            _ => Some(seq![op]),
        },
    }
}

/// The reference of an instruction that its encoding writes, if any.
pub open spec fn encoded_reference(instr: AnyInstruction) -> ReferenceHolder {
    match instr {
        AnyInstruction::I21c(i) => i.reference,
        AnyInstruction::I31c(i) => i.reference,
        AnyInstruction::I22c(i) => i.reference,
        AnyInstruction::I35c(i) => i.reference,
        AnyInstruction::I3rc(i) => i.reference,
        _ => ReferenceHolder::NoReference,
    }
}

/// The code units of `instr` as the pools `p` place its reference; `None` where it cannot be
/// written.
pub open spec fn instruction_units(p: DexPool, instr: AnyInstruction) -> Option<Seq<u16>> {
    encoded(instr, reference_index(p, encoded_reference(instr)))
}


fn unit_aa_exec(op: u16, a: u16) -> (res: u16)
    ensures
        res == unit_aa(op, a),
{
    op | (a << 8u16)
}

fn unit_ba_exec(op: u16, a: u8, b: u8) -> (res: u16)
    ensures
        res == unit_ba(op, a, b),
{
    op | (((a as u16) & 0xF) << 8u16) | (((b as u16) & 0xF) << 12u16)
}

fn unit_35_head_exec(op: u16, count: u8, g: u16) -> (res: u16)
    ensures
        res == unit_35_head(op, count, g),
{
    op | (((count as u16) & 0xF) << 12u16) | ((g & 0xF) << 8u16)
}

fn unit_35_regs_exec(c: u16, d: u16, e: u16, f: u16) -> (res: u16)
    ensures
        res == unit_35_regs(c, d, e, f),
{
    ((f & 0xF) << 12u16) | ((e & 0xF) << 8u16) | ((d & 0xF) << 4u16) | (c & 0xF)
}

fn units1(a: u16) -> (res: Vec<u16>)
    ensures
        res@ == seq![a],
{
    let mut v: Vec<u16> = Vec::new();
    v.push(a);
    assert(v@ =~= seq![a]);
    v
}

fn units2(a: u16, b: u16) -> (res: Vec<u16>)
    ensures
        res@ == seq![a, b],
{
    let mut v: Vec<u16> = Vec::new();
    v.push(a);
    v.push(b);
    assert(v@ =~= seq![a, b]);
    v
}

fn units3(a: u16, b: u16, c: u16) -> (res: Vec<u16>)
    ensures
        res@ == seq![a, b, c],
{
    let mut v: Vec<u16> = Vec::new();
    v.push(a);
    v.push(b);
    v.push(c);
    assert(v@ =~= seq![a, b, c]);
    v
}

fn units4(a: u16, b: u16, c: u16, d: u16) -> (res: Vec<u16>)
    ensures
        res@ == seq![a, b, c, d],
{
    let mut v: Vec<u16> = Vec::new();
    v.push(a);
    v.push(b);
    v.push(c);
    v.push(d);
    assert(v@ =~= seq![a, b, c, d]);
    v
}

fn units5(a: u16, b: u16, c: u16, d: u16, e: u16) -> (res: Vec<u16>)
    ensures
        res@ == seq![a, b, c, d, e],
{
    let mut v: Vec<u16> = Vec::new();
    v.push(a);
    v.push(b);
    v.push(c);
    v.push(d);
    v.push(e);
    assert(v@ =~= seq![a, b, c, d, e]);
    v
}

fn copy_units(v: &Vec<u16>) -> (res: Vec<u16>)
    ensures
        res@ == v@,
{
    let mut res: Vec<u16> = Vec::new();
    let mut k: usize = 0;
    while k < v.len()
        invariant
            k <= v@.len(),
            res@ == v@.take(k as int),
        decreases v.len() - k,
    {
        res.push(v[k]);
        assert(res@ =~= v@.take(k + 1));
        k += 1;
    }
    assert(v@.take(v@.len() as int) =~= v@);
    res
}

/// The code units that `instr` is written as, its reference placed by the pools.
fn encode_instruction(instr: &AnyInstruction, pool: &DexPool) -> (res: Vec<u16>)
    requires
        pool.wf(),
        instruction_units(*pool, *instr) is Some,
    ensures
        Some(res@) == instruction_units(*pool, *instr),
{
    let op = instr.opcode().value() as u16;
    match instr.format() {
        InstructionFormat::Format10x => units1(op),
        InstructionFormat::Format12x => match instr {
            AnyInstruction::I12x(i) => units1(unit_ba_exec(op, i.register_a, i.register_b)),
            _ => Vec::new(),
        },
        InstructionFormat::Format11n => match instr {
            AnyInstruction::I11n(i) => units1(unit_ba_exec(op, i.register_a, i.literal as u8)),
            _ => Vec::new(),
        },
        InstructionFormat::Format11x => match instr {
            AnyInstruction::I11x(i) => units1(unit_aa_exec(op, i.register_a)),
            _ => Vec::new(),
        },
        InstructionFormat::Format10t => match instr {
            AnyInstruction::I10t(i) => units1(op | (((i.code_offset as u16) & 0xFF) << 8u16)),
            _ => Vec::new(),
        },
        InstructionFormat::Format21c => match instr {
            AnyInstruction::I21c(i) => {
                let idx = resolve_reference_index(&i.reference, pool);
                units2(unit_aa_exec(op, i.register_a as u16), idx)
            },
            _ => Vec::new(),
        },
        InstructionFormat::Format31c => match instr {
            AnyInstruction::I31c(i) => {
                let idx = resolve_reference_index(&i.reference, pool);
                units3(unit_aa_exec(op, i.register_a as u16), idx, 0)
            },
            _ => Vec::new(),
        },
        InstructionFormat::Format22c => match instr {
            AnyInstruction::I22c(i) => {
                let idx = resolve_reference_index(&i.reference, pool);
                units2(unit_ba_exec(op, i.register_a, i.register_b), idx)
            },
            _ => Vec::new(),
        },
        InstructionFormat::Format35c => match instr {
            AnyInstruction::I35c(i) => {
                let idx = resolve_reference_index(&i.reference, pool);
                units3(
                    unit_35_head_exec(op, i.register_count, i.register_g),
                    idx,
                    unit_35_regs_exec(i.register_c, i.register_d, i.register_e, i.register_f),
                )
            },
            _ => Vec::new(),
        },
        InstructionFormat::Format3rc => match instr {
            AnyInstruction::I3rc(i) => {
                let idx = resolve_reference_index(&i.reference, pool);
                units3(unit_aa_exec(op, i.register_count as u16), idx, i.start_register)
            },
            _ => Vec::new(),
        },
        InstructionFormat::Format21s | InstructionFormat::Format21ih | InstructionFormat::Format21lh => match instr {
            AnyInstruction::I21s(i) => units2(unit_aa_exec(op, i.register_a as u16), i.literal as u16),
            _ => Vec::new(),
        },
        InstructionFormat::Format31i => match instr {
            AnyInstruction::I31i(i) => {
                let lit = i.literal as u32;
                units3(unit_aa_exec(op, i.register_a as u16), lit as u16, (lit >> 16u32) as u16)
            },
            _ => Vec::new(),
        },
        InstructionFormat::Format51l => match instr {
            AnyInstruction::I51l(i) => {
                let lit = i.literal as u64;
                units5(
                    unit_aa_exec(op, i.register_a as u16),
                    lit as u16,
                    (lit >> 16u64) as u16,
                    (lit >> 32u64) as u16,
                    (lit >> 48u64) as u16,
                )
            },
            _ => Vec::new(),
        },
        InstructionFormat::Format21t => match instr {
            AnyInstruction::I21t(i) => units2(unit_aa_exec(op, i.register_a as u16), i.code_offset as u16),
            _ => Vec::new(),
        },
        InstructionFormat::Format22t => match instr {
            AnyInstruction::I22t(i) => units2(unit_ba_exec(op, i.register_a, i.register_b), i.code_offset as u16),
            _ => Vec::new(),
        },
        InstructionFormat::Format22b => match instr {
            AnyInstruction::I22b(i) => units2(
                unit_aa_exec(op, i.register_a as u16),
                (i.register_b as u16) | (((i.literal as u16) & 0xFF) << 8u16),
            ),
            _ => Vec::new(),
        },
        InstructionFormat::Format22s => match instr {
            AnyInstruction::I22s(i) => units2(unit_ba_exec(op, i.register_a, i.register_b), i.literal as u16),
            _ => Vec::new(),
        },
        InstructionFormat::Format22x => match instr {
            AnyInstruction::I22x(i) => units2(unit_aa_exec(op, i.register_a as u16), i.register_b),
            _ => Vec::new(),
        },
        InstructionFormat::Format23x => match instr {
            AnyInstruction::I23x(i) => units2(
                unit_aa_exec(op, i.register_a as u16),
                (i.register_b as u16) | ((i.register_c as u16) << 8u16),
            ),
            _ => Vec::new(),
        },
        InstructionFormat::Format20t => match instr {
            AnyInstruction::I20t(i) => units2(op, i.code_offset as u16),
            _ => Vec::new(),
        },
        InstructionFormat::Format30t => match instr {
            AnyInstruction::I30t(i) => {
                let off = i.code_offset as u32;
                units3(op, off as u16, (off >> 16u32) as u16)
            },
            _ => Vec::new(),
        },
        InstructionFormat::Format31t => match instr {
            AnyInstruction::I31t(i) => {
                let off = i.code_offset as u32;
                units3(unit_aa_exec(op, i.register_a as u16), off as u16, (off >> 16u32) as u16)
            },
            _ => Vec::new(),
        },
        InstructionFormat::Format32x => match instr {
            AnyInstruction::I32x(i) => units3(op, i.register_a, i.register_b),
            _ => Vec::new(),
        },
        InstructionFormat::Format22cs => match instr {
            AnyInstruction::I22c(i) => units2(unit_ba_exec(op, i.register_a, i.register_b), 0),
            _ => Vec::new(),
        },
        InstructionFormat::Format35mi | InstructionFormat::Format35ms => match instr {
            AnyInstruction::I35c(i) => units3(
                unit_35_head_exec(op, i.register_count, i.register_g),
                0,
                unit_35_regs_exec(i.register_c, i.register_d, i.register_e, i.register_f),
            ),
            _ => Vec::new(),
        },
        InstructionFormat::Format3rmi | InstructionFormat::Format3rms => match instr {
            AnyInstruction::I3rc(i) => units3(unit_aa_exec(op, i.register_count as u16), 0, i.start_register),
            _ => Vec::new(),
        },
        InstructionFormat::Format45cc => match instr {
            AnyInstruction::I35c(i) => {
                let idx = resolve_reference_index(&i.reference, pool);
                units4(
                    unit_35_head_exec(op, i.register_count, i.register_g),
                    idx,
                    unit_35_regs_exec(i.register_c, i.register_d, i.register_e, i.register_f),
                    0,
                )
            },
            _ => Vec::new(),
        },
        InstructionFormat::Format4rcc => match instr {
            AnyInstruction::I3rc(i) => {
                let idx = resolve_reference_index(&i.reference, pool);
                units4(unit_aa_exec(op, i.register_count as u16), idx, i.start_register, 0)
            },
            _ => Vec::new(),
        },
        InstructionFormat::Format20bc => units2(op, 0),
        InstructionFormat::PackedSwitchPayload | InstructionFormat::SparseSwitchPayload
        | InstructionFormat::ArrayPayload => match instr {
            AnyInstruction::Payload(i) => copy_units(&i.raw_data),
            _ => units1(op),
        },
    }
}

/// The code units of `instrs`, one instruction after the other.
pub open spec fn code_units_of(p: DexPool, instrs: Seq<AnyInstruction>) -> Seq<u16>
    decreases instrs.len(),
{
    if instrs.len() == 0 {
        Seq::empty()
    } else {
        code_units_of(p, instrs.drop_last()) + instruction_units(p, instrs.last()).unwrap()
    }
}

/// Whether every one of `instrs` can be written.
pub open spec fn all_encodable(p: DexPool, instrs: Seq<AnyInstruction>) -> bool {
    forall|k: int| 0 <= k < instrs.len() ==> #[trigger] instruction_units(p, instrs[k]) is Some
}

fn encode_instructions(instructions: &[AnyInstruction], pool: &DexPool) -> (res: Vec<u16>)
    requires
        pool.wf(),
        all_encodable(*pool, instructions@),
    ensures
        res@ == code_units_of(*pool, instructions@),
{
    let mut result: Vec<u16> = Vec::new();
    let mut k: usize = 0;
    while k < instructions.len()
        invariant
            pool.wf(),
            all_encodable(*pool, instructions@),
            k <= instructions@.len(),
            result@ == code_units_of(*pool, instructions@.take(k as int)),
        decreases instructions.len() - k,
    {
        let encoded = encode_instruction(&instructions[k], pool);
        let ghost before = result@;
        let mut j: usize = 0;
        while j < encoded.len()
            invariant
                j <= encoded@.len(),
                result@ == before + encoded@.take(j as int),
            decreases encoded.len() - j,
        {
            result.push(encoded[j]);
            assert(result@ =~= before + encoded@.take(j + 1));
            j += 1;
        }
        proof {
            assert(encoded@.take(encoded@.len() as int) =~= encoded@);
            let t = instructions@.take(k + 1);
            assert(t.drop_last() =~= instructions@.take(k as int));
            assert(t.last() == instructions@[k as int]);
        }
        k += 1;
    }
    assert(instructions@.take(instructions@.len() as int) =~= instructions@);
    result
}


// ---------------------------------------------------------------------------------------------
// Writing a DEX file
// ---------------------------------------------------------------------------------------------

/// The number of strings as the file counts them.
pub open spec fn n_strings(p: DexPool) -> int {
    (p.string_pool.spec_items().len() as u32) as int
}

/// The number of types as the file counts them.
pub open spec fn n_types(p: DexPool) -> int {
    (p.type_pool.spec_items().len() as u32) as int
}

/// The number of prototypes as the file counts them.
pub open spec fn n_protos(p: DexPool) -> int {
    (p.proto_pool.spec_items().len() as u32) as int
}

/// The number of fields as the file counts them.
pub open spec fn n_fields(p: DexPool) -> int {
    (p.field_pool.spec_items().len() as u32) as int
}

/// The number of methods as the file counts them.
pub open spec fn n_methods(p: DexPool) -> int {
    (p.method_pool.spec_items().len() as u32) as int
}

/// The number of classes as the file counts them.
pub open spec fn n_classes(p: DexPool) -> int {
    (p.class_pool.spec_classes().len() as u32) as int
}

/// Where the type ids start: after the header and the string ids.
pub open spec fn type_ids_off(p: DexPool) -> int {
    0x70 + 4 * n_strings(p)
}

/// Where the prototype ids start.
pub open spec fn proto_ids_off(p: DexPool) -> int {
    type_ids_off(p) + 4 * n_types(p)
}

/// Where the field ids start.
pub open spec fn field_ids_off(p: DexPool) -> int {
    proto_ids_off(p) + 12 * n_protos(p)
}

/// Where the method ids start.
pub open spec fn method_ids_off(p: DexPool) -> int {
    field_ids_off(p) + 8 * n_fields(p)
}

/// Where the class definitions start.
pub open spec fn class_defs_off(p: DexPool) -> int {
    method_ids_off(p) + 8 * n_methods(p)
}

/// Where the data section starts: after the class definitions.
pub open spec fn data_start(p: DexPool) -> int {
    class_defs_off(p) + 32 * n_classes(p)
}

/// The magic number of a version 035 DEX file.
pub open spec fn dex_magic() -> Seq<u8> {
    seq![0x64u8, 0x65u8, 0x78u8, 0x0au8, 0x30u8, 0x33u8, 0x35u8, 0x00u8]
}

/// The little-endian bytes of each of `vs`, one after the other.
pub open spec fn le32_list(vs: Seq<u32>) -> Seq<u8>
    decreases vs.len(),
{
    if vs.len() == 0 {
        Seq::empty()
    } else {
        le32_list(vs.drop_last()) + le_bytes_u32(vs.last())
    }
}

/// Value `i` of a list of 32-bit values sits at byte `4 * i`.
pub proof fn lemma_le32_list(vs: Seq<u32>, i: int)
    requires
        0 <= i < vs.len(),
    ensures
        le32_list(vs).len() == 4 * vs.len(),
        le32_list(vs).subrange(4 * i, 4 * i + 4) == le_bytes_u32(vs[i]),
    decreases vs.len(),
{
    lemma_le32_list_len(vs);
    if i < vs.len() - 1 {
        lemma_le32_list(vs.drop_last(), i);
        lemma_le32_list_len(vs.drop_last());
        assert(le32_list(vs).subrange(4 * i, 4 * i + 4) =~= le32_list(vs.drop_last()).subrange(4 * i, 4 * i + 4));
    } else {
        lemma_le32_list_len(vs.drop_last());
        assert(le32_list(vs).subrange(4 * i, 4 * i + 4) =~= le_bytes_u32(vs.last()));
    }
}

proof fn lemma_le32_list_len(vs: Seq<u32>)
    ensures
        le32_list(vs).len() == 4 * vs.len(),
    decreases vs.len(),
{
    if vs.len() > 0 {
        lemma_le32_list_len(vs.drop_last());
    }
}

/// The first 56 bytes of the header: magic, checksum, signature, file size, header size, endian
/// tag, and no link or map section.
pub open spec fn header_start(file_size: u32, checksum: u32, signature: Seq<u8>) -> Seq<u8> {
    dex_magic() + le_bytes_u32(checksum) + signature + le_bytes_u32(file_size) + le_bytes_u32(0x70)
        + le_bytes_u32(0x12345678) + le_bytes_u32(0) + le_bytes_u32(0) + le_bytes_u32(0)
}

/// The fields of the header after its first 56 bytes: each id section's count and offset, the
/// size of the data section (from its start to the end of the file), and the data offset.
pub open spec fn header_fields(p: DexPool, file_size: u32) -> Seq<u32> {
    seq![
        n_strings(p) as u32,
        0x70,
        n_types(p) as u32,
        type_ids_off(p) as u32,
        n_protos(p) as u32,
        proto_ids_off(p) as u32,
        n_fields(p) as u32,
        field_ids_off(p) as u32,
        n_methods(p) as u32,
        method_ids_off(p) as u32,
        n_classes(p) as u32,
        class_defs_off(p) as u32,
        (file_size - data_start(p)) as u32,
        data_start(p) as u32,
    ]
}

/// The header that is written for the pools `p` in a file of `file_size` bytes, with `checksum`
/// and `signature` in their fields.
pub open spec fn header_bytes(p: DexPool, file_size: u32, checksum: u32, signature: Seq<u8>) -> Seq<u8> {
    header_start(file_size, checksum, signature) + le32_list(header_fields(p, file_size))
}

/// The header of a file `bytes` of `size` bytes written for the pools `p`: its checksum is the
/// Adler-32 of the bytes from offset 12 on, and its signature the SHA-1 of those from offset 32 on.
pub open spec fn signed_header(p: DexPool, size: u32, bytes: Seq<u8>) -> Seq<u8> {
    header_bytes(p, size, spec_adler32(bytes.subrange(12, size as int)), spec_sha1(bytes.subrange(32, size as int)))
}

/// The header takes 0x70 bytes.
pub proof fn lemma_header_len(p: DexPool, file_size: u32, checksum: u32, signature: Seq<u8>)
    requires
        signature.len() == 20,
    ensures
        header_start(file_size, checksum, signature).len() == 56,
        header_bytes(p, file_size, checksum, signature).len() == 0x70,
{
    lemma_le32_list_len(header_fields(p, file_size));
}

/// Whether every method of every class to be written has code that can be written.
pub open spec fn code_writable(p: DexPool) -> bool {
    forall|ci: int, k: int|
        0 <= ci < p.class_pool.spec_classes().len() && 0 <= k < p.class_pool.spec_classes()[ci].direct_methods@.len()
            ==> #[trigger] method_code_writable(p, p.class_pool.spec_classes()[ci].direct_methods@[k])
}

/// Whether the virtual methods of every class to be written have code that can be written.
pub open spec fn virtual_code_writable(p: DexPool) -> bool {
    forall|ci: int, k: int|
        0 <= ci < p.class_pool.spec_classes().len() && 0 <= k < p.class_pool.spec_classes()[ci].virtual_methods@.len()
            ==> #[trigger] method_code_writable(p, p.class_pool.spec_classes()[ci].virtual_methods@[k])
}

/// Whether the code of `m`, if any, can be written.
pub open spec fn method_code_writable(p: DexPool, m: MethodEntry) -> bool {
    m.implementation matches Some(imp) ==> all_encodable(p, imp.instructions@)
}

/// Where `m` has code, its code item stands in `bytes` at `o` and ends by `upto`.
pub open spec fn code_item_at(p: DexPool, bytes: Seq<u8>, m: MethodEntry, o: int, upto: int) -> bool {
    match m.implementation {
        Some(imp) => {
            let d = code_item_bytes(imp.register_count, code_units_of(p, imp.instructions@));
            &&& 0 <= o
            &&& o + d.len() <= upto
            &&& o + d.len() <= bytes.len()
            &&& bytes.subrange(o, o + d.len()) == d
        },
        None => true,
    }
}

proof fn lemma_code_item_at_kept(p: DexPool, b1: Seq<u8>, b2: Seq<u8>, m: MethodEntry, o: int, upto1: int, upto2: int)
    requires
        code_item_at(p, b1, m, o, upto1),
        keeps_below(b1, b2, upto1),
        upto1 <= upto2,
    ensures
        code_item_at(p, b2, m, o, upto2),
{
    if let Some(imp) = m.implementation {
        let d = code_item_bytes(imp.register_count, code_units_of(p, imp.instructions@));
        assert(b2.subrange(o, o + d.len()) =~= b1.subrange(o, o + d.len()));
    }
}

proof fn lemma_code_item_at_kept_to_end(p: DexPool, b1: Seq<u8>, b2: Seq<u8>, m: MethodEntry, o: int, upto: int)
    requires
        code_item_at(p, b1, m, o, upto),
        keeps_below(b1, b2, upto),
    ensures
        code_item_at(p, b2, m, o, b2.len() as int),
{
    if let Some(imp) = m.implementation {
        let d = code_item_bytes(imp.register_count, code_units_of(p, imp.instructions@));
        assert(b2.subrange(o, o + d.len()) =~= b1.subrange(o, o + d.len()));
    }
}

proof fn lemma_code_item_at_written(p: DexPool, b: Seq<u8>, off: int, pad: Seq<u8>, m: MethodEntry)
    requires
        0 <= off,
        m.implementation is Some,
        pad.len() <= 3,
    ensures
        ({
            let imp = m.implementation->0;
            let d = code_item_bytes(imp.register_count, code_units_of(p, imp.instructions@));
            code_item_at(p, written(b, off, pad + d), m, off + pad.len(), off + pad.len() + d.len())
        }),
{
    let imp = m.implementation->0;
    let d = code_item_bytes(imp.register_count, code_units_of(p, imp.instructions@));
    let w = written(b, off, pad + d);
    lemma_written_reads_back(b, off, pad + d);
    assert(w.subrange(off + pad.len(), off + pad.len() + d.len()) =~= w.subrange(off, off + (pad + d).len()).subrange(
        pad.len() as int,
        (pad + d).len() as int,
    ));
    assert((pad + d).subrange(pad.len() as int, (pad + d).len() as int) =~= d);
}

/// The zero bytes that bring `off` up to a multiple of four.
pub open spec fn pad4(off: int) -> Seq<u8> {
    Seq::new((if off % 4 == 0 { 0 } else { 4 - off % 4 }) as nat, |i: int| 0u8)
}

/// Code units as little-endian bytes, one after the other.
pub open spec fn units_bytes(units: Seq<u16>) -> Seq<u8>
    decreases units.len(),
{
    if units.len() == 0 {
        Seq::empty()
    } else {
        units_bytes(units.drop_last()) + le_bytes_u16(units.last())
    }
}

proof fn lemma_units_bytes_len(units: Seq<u16>)
    ensures
        units_bytes(units).len() == 2 * units.len(),
    decreases units.len(),
{
    if units.len() > 0 {
        lemma_units_bytes_len(units.drop_last());
    }
}

/// The start of a code item: the register count, the in, out and try counts written as zero, no
/// debug information, and the number of code units.
pub open spec fn code_item_header(registers: u16, n: u32) -> Seq<u8> {
    le_bytes_u16(registers) + le_bytes_u16(0) + le_bytes_u16(0) + le_bytes_u16(0) + le_bytes_u32(0)
        + le_bytes_u32(n)
}

/// A code item: its header, the code units, and two zero bytes where their number is odd.
pub open spec fn code_item_bytes(registers: u16, units: Seq<u16>) -> Seq<u8> {
    code_item_header(registers, units.len() as u32) + units_bytes(units) + if units.len() % 2 == 1 {
        le_bytes_u16(0)
    } else {
        Seq::empty()
    }
}

/// The method of `c` at `k` in the order its code is written: the direct methods, then the
/// virtual ones.
pub open spec fn method_at(c: ClassEntry, k: int) -> MethodEntry {
    if k < c.direct_methods@.len() {
        c.direct_methods@[k]
    } else {
        c.virtual_methods@[k - c.direct_methods@.len()]
    }
}

/// The number of bytes of the data items of `items`, one after the other.
pub open spec fn string_data_total(items: Seq<Seq<char>>) -> int
    decreases items.len(),
{
    if items.len() == 0 {
        0
    } else {
        string_data_total(items.drop_last()) + string_data_bytes(items.last()).len()
    }
}

/// Whether the data item of string `i` of `items` can be written, the items before it having been
/// written one after the other from `from`: its UTF-16 length fits 32 bits, and it ends within
/// the 32-bit limit.
pub open spec fn string_data_fits(items: Seq<Seq<char>>, i: int, from: int) -> bool {
    &&& spec_utf16_len(items[i]) <= u32::MAX
    &&& from + string_data_total(items.take(i + 1)) <= u32::MAX
}

/// For each method of each class of `p`, `code` gives where its code item is in `bytes`, and
/// `class_offs` gives where the class data of each class is, with the code offsets of `code`.
pub open spec fn code_and_class_data_placed(
    p: DexPool,
    bytes: Seq<u8>,
    code: Seq<Vec<Option<u32>>>,
    class_offs: Seq<Option<u32>>,
) -> bool {
    let classes = p.class_pool.spec_classes();
    &&& code.len() == class_offs.len()
    &&& forall|ci: int, k: int|
        0 <= ci < code.len() && 0 <= k < code[ci]@.len() ==> match #[trigger] code[ci]@[k] {
            Some(o) => code_item_at(p, bytes, method_at(classes[ci], k), o as int, bytes.len() as int),
            None => true,
        }
    &&& forall|ci: int|
        0 <= ci < class_offs.len() ==> match #[trigger] class_offs[ci] {
            Some(o) => bytes_placed(bytes, o as int, ulebs_bytes(class_data_values(p, classes[ci], code[ci]@))),
            None => true,
        }
}

/// Whether writing the data section of `p` from `from` fails, the writer having stopped at `at`:
/// the data item of a string does not fit, or a parameter list, an interface list, a code item or
/// class data finds no room at `at`.
pub open spec fn data_sections_fail(p: DexPool, from: int, at: int) -> bool {
    let classes = p.class_pool.spec_classes();
    ||| exists|i: int|
        #![trigger string_data_fits(p.string_pool.spec_items(), i, from)]
        0 <= i < n_strings(p) && !string_data_fits(p.string_pool.spec_items(), i, from)
    ||| exists|i: int|
        0 <= i < p.proto_pool.spec_items().len() && p.proto_pool.spec_items()[i].2.len() > 0
            && #[trigger] type_list_unwritable(at, p.proto_pool.spec_items()[i].2.len() as int)
    ||| exists|ci: int|
        0 <= ci < classes.len() && classes[ci].interfaces@.len() > 0 && #[trigger] type_list_unwritable(
            at,
            classes[ci].interfaces@.len() as int,
        )
    ||| exists|ci: int, k: int|
        0 <= ci < classes.len() && 0 <= k < classes[ci].direct_methods@.len()
            + classes[ci].virtual_methods@.len() && #[trigger] code_item_unwritable(
            p,
            method_at(classes[ci], k),
            at,
        )
    ||| at + 5 > u32::MAX
}

/// Whether a type list of `n` types finds no room when its writing starts at `off`: there are not
/// three bytes left for the alignment, or the list would end past the 32-bit limit.
pub open spec fn type_list_unwritable(off: int, n: int) -> bool {
    off + 3 > u32::MAX || off + pad4(off).len() + 4 + 2 * n > u32::MAX
}

/// Whether the code of `m` finds no room when its writing starts at `off`: there are not three
/// bytes left for the alignment, it has more than 0x7FFF_FFFF code units, or the code item would
/// end past the 32-bit limit.
pub open spec fn code_item_unwritable(p: DexPool, m: MethodEntry, off: int) -> bool {
    m.implementation matches Some(imp) && {
        let n = code_units_of(p, imp.instructions@).len();
        off + 3 > u32::MAX || n > 0x7FFF_FFFF || off + pad4(off).len() + 18 + 2 * n > u32::MAX
    }
}

/// Bytes written from `o0` so far, as `acc`: the store is `b0` while nothing is, and `b0` with
/// `acc` written at `o0` after.
pub open spec fn written_so_far(b0: Seq<u8>, o0: int, acc: Seq<u8>, cur: Seq<u8>) -> bool {
    &&& acc.len() == 0 ==> cur == b0
    &&& acc.len() > 0 ==> cur == written(b0, o0, acc)
}

proof fn lemma_written_so_far_step(b0: Seq<u8>, o0: int, acc: Seq<u8>, cur: Seq<u8>, more: Seq<u8>)
    requires
        0 <= o0,
        written_so_far(b0, o0, acc, cur),
        more.len() > 0,
    ensures
        written_so_far(b0, o0, acc + more, written(cur, o0 + acc.len(), more)),
{
    if acc.len() == 0 {
        assert(acc + more =~= more);
    } else {
        lemma_written_concat(b0, o0, acc, more);
    }
}

fn room<'a, D: DataStore>(w: &DexWriter<'a, D>, n: u64) -> (res: bool)
    ensures
        res == (w.spec_offset() + n <= u32::MAX),
{
    n <= 0xFFFF_FFFFu64 - w.current_offset() as u64
}

fn push_u32_le(v: &mut Vec<u8>, x: u32)
    ensures
        final(v)@ == old(v)@ + le_bytes_u32(x),
{
    v.push((x % 256) as u8);
    v.push(((x / 256) % 256) as u8);
    v.push(((x / 65536) % 256) as u8);
    v.push((x / 16777216) as u8);
    assert(final(v)@ =~= old(v)@ + le_bytes_u32(x));
}

fn push_u16_le(v: &mut Vec<u8>, x: u16)
    ensures
        final(v)@ == old(v)@ + le_bytes_u16(x),
{
    v.push((x % 256) as u8);
    v.push((x / 256) as u8);
    assert(final(v)@ =~= old(v)@ + le_bytes_u16(x));
}

/// The number of bytes of the string data item of `s`; `None` where its UTF-16 length does not
/// fit 32 bits.
fn string_data_len(s: &str) -> (res: Option<u64>)
    ensures
        res matches Some(n) ==> n <= string_data_bytes(s@).len() && (n < 0x1_0000_0000 ==> n
            == string_data_bytes(s@).len()) && spec_utf16_len(s@) <= u32::MAX,
        res is None ==> spec_utf16_len(s@) > u32::MAX,
{
    let ghost chars = s@;
    let mut units: u64 = 0;
    for c in it: s.chars()
        invariant
            chars == s@,
            it.seq() == chars,
            units == spec_utf16_len(chars.take(it.index() as int)),
            units <= u32::MAX,
    {
        proof {
            let i = it.index() as int;
            assert(chars.take(i + 1) =~= chars.take(i).push(c));
            lemma_utf16_len_push(chars.take(i), c);
            lemma_utf16_len_prefix(chars, i + 1);
        }
        if (c as u32) < 0x10000 {
            units = units + 1;
        } else {
            units = units + 2;
        }
        if units > 0xFFFF_FFFF {
            proof {
                lemma_utf16_len_prefix(chars, it.index() + 1);
            }
            return None;
        }
    }
    assert(chars.take(chars.len() as int) =~= chars);
    let lebs = encode_uleb128(units as u32);
    let body = encode_mutf8(s);
    proof {
        crate::base::leb128::lemma_uleb128_encoded_len(units as u32);
    }
    let body_len: u64 = if body.len() as u64 > 0x1_0000_0000 {
        0x1_0000_0000
    } else {
        body.len() as u64
    };
    Some(lebs.len() as u64 + body_len)
}

/// Sorts `v` by its first component, keeping the order of equal ones.
/// The number of leading items of `s` whose index is not above `key`.
pub open spec fn leading_not_above<T>(s: Seq<(u32, T)>, key: u32) -> nat
    decreases s.len(),
{
    if s.len() == 0 || s[0].0 > key {
        0
    } else {
        1 + leading_not_above(s.drop_first(), key)
    }
}

/// `v` sorted by index, items of equal index kept in their order: each item in turn goes after
/// every item before it whose index is not above its own.
pub open spec fn sorted_by_index<T>(v: Seq<(u32, T)>) -> Seq<(u32, T)>
    decreases v.len(),
{
    if v.len() == 0 {
        Seq::empty()
    } else {
        let s = sorted_by_index(v.drop_last());
        s.insert(leading_not_above(s, v.last().0) as int, v.last())
    }
}

proof fn lemma_leading_not_above<T>(s: Seq<(u32, T)>, key: u32, p: int)
    requires
        0 <= p <= s.len(),
        forall|a: int| 0 <= a < p ==> s[a].0 <= key,
        p == s.len() || s[p].0 > key,
    ensures
        leading_not_above(s, key) == p,
    decreases p,
{
    if p > 0 {
        lemma_leading_not_above(s.drop_first(), key, p - 1);
    }
}

fn sort_by_index<T: Copy>(v: &Vec<(u32, T)>) -> (res: Vec<(u32, T)>)
    ensures
        res@ == sorted_by_index(v@),
        res@.len() == v@.len(),
        res@.to_multiset() == v@.to_multiset(),
        forall|a: int, b: int| 0 <= a < b < res@.len() ==> res@[a].0 <= res@[b].0,
{
    let mut res: Vec<(u32, T)> = Vec::new();
    let mut i: usize = 0;
    assert(res@ =~= v@.take(0));
    while i < v.len()
        invariant
            i <= v@.len(),
            res@.len() == i,
            res@.to_multiset() == v@.take(i as int).to_multiset(),
            res@ == sorted_by_index(v@.take(i as int)),
            forall|a: int, b: int| 0 <= a < b < res@.len() ==> res@[a].0 <= res@[b].0,
        decreases v.len() - i,
    {
        let x = v[i];
        let mut p: usize = 0;
        while p < res.len() && res[p].0 <= x.0
            invariant
                p <= res@.len(),
                forall|a: int| 0 <= a < p ==> res@[a].0 <= x.0,
            decreases res.len() - p,
        {
            p += 1;
        }
        let ghost before = res@;
        proof {
            lemma_leading_not_above(before, x.0, p as int);
            assert(v@.take(i + 1).drop_last() =~= v@.take(i as int));
        }
        res.insert(p, x);
        proof {
            vstd::seq_lib::to_multiset_insert(before, p as int, x);
            vstd::seq_lib::to_multiset_build(v@.take(i as int), x);
            assert(v@.take(i + 1) =~= v@.take(i as int).push(x));
            assert forall|a: int, b: int| 0 <= a < b < res@.len() implies res@[a].0 <= res@[b].0 by {
                if b < p {
                    assert(res@[a] == before[a] && res@[b] == before[b]);
                } else if b == p {
                    assert(res@[a] == before[a]);
                } else if a == p {
                    assert(res@[b] == before[b - 1]);
                    if p < before.len() {
                        assert(before[p as int].0 > x.0);
                        if b - 1 > p {
                            assert(before[p as int].0 <= before[b - 1].0);
                        }
                    }
                } else if a < p {
                    assert(res@[a] == before[a] && res@[b] == before[b - 1]);
                    if p < before.len() {
                        assert(before[a].0 <= x.0);
                    }
                } else {
                    assert(res@[a] == before[a - 1] && res@[b] == before[b - 1]);
                }
            }
        }
        i += 1;
    }
    assert(v@.take(v@.len() as int) =~= v@);
    res
}


/// The index among the pool's strings that the type id table gives type `j`: that of its
/// descriptor, or 0 where the descriptor is not a pooled string.
pub open spec fn type_string_index(p: DexPool, j: int) -> u32 {
    let t = p.type_pool.spec_items()[j];
    if p.string_pool.spec_items().contains(t) {
        first_index(p.string_pool.spec_items(), t) as u32
    } else {
        0
    }
}

/// The type id table's string indices, type by type.
pub open spec fn type_string_indices(p: DexPool) -> Seq<u32> {
    Seq::new(n_types(p) as nat, |j: int| type_string_index(p, j))
}

/// The index of the type of pool class `ci` among the pool's types, or 0 where its descriptor is
/// not a pooled type.
pub open spec fn class_type_index(p: DexPool, ci: int) -> u32 {
    let t = p.class_pool.spec_classes()[ci].type_descriptor@;
    if p.type_pool.spec_items().contains(t) {
        first_index(p.type_pool.spec_items(), t) as u32
    } else {
        0
    }
}

/// Word `w` of the class def table: the eight words of class `w / 8` are its type index, access
/// flags, superclass type index (`NO_INDEX` where there is none), interface list offset (0 where
/// there is none), source file string index (`NO_INDEX` where there is none), no annotations,
/// class data offset (0 where there is none) and no static values.
pub open spec fn class_def_word(p: DexPool, list_offs: Seq<Option<u32>>, data_offs: Seq<Option<u32>>, w: int) -> u32 {
    let ci = w / 8;
    let c = p.class_pool.spec_classes()[ci];
    let k = w % 8;
    if k == 0 {
        class_type_index(p, ci)
    } else if k == 1 {
        c.access_flags
    } else if k == 2 {
        match c.superclass_idx {
            Some(x) => x,
            None => 0xFFFF_FFFF,
        }
    } else if k == 3 {
        match list_offs[ci] {
            Some(o) => o,
            None => 0,
        }
    } else if k == 4 {
        source_file_word(p, ci)
    } else if k == 6 {
        match data_offs[ci] {
            Some(o) => o,
            None => 0,
        }
    } else {
        0
    }
}

/// The words of the class def table, class by class.
pub open spec fn class_def_words(p: DexPool, list_offs: Seq<Option<u32>>, data_offs: Seq<Option<u32>>) -> Seq<u32> {
    Seq::new((8 * n_classes(p)) as nat, |w: int| class_def_word(p, list_offs, data_offs, w))
}

/// Each value as four bytes, least significant first.
fn le32_bytes(words: &Vec<u32>) -> (res: Vec<u8>)
    ensures
        res@ == le32_list(words@),
{
    let mut res: Vec<u8> = Vec::new();
    let mut i: usize = 0;
    while i < words.len()
        invariant
            i <= words@.len(),
            res@ == le32_list(words@.take(i as int)),
        decreases words.len() - i,
    {
        proof {
            assert(words@.take(i + 1).drop_last() =~= words@.take(i as int));
        }
        push_u32_le(&mut res, words[i]);
        i += 1;
    }
    assert(words@.take(words@.len() as int) =~= words@);
    res
}

/// The index of `t` among the pool's types, or 0 where it is not one.
pub open spec fn type_index_or_zero(p: DexPool, t: Seq<char>) -> u32 {
    if p.type_pool.spec_items().contains(t) {
        first_index(p.type_pool.spec_items(), t) as u32
    } else {
        0
    }
}

/// The index of `s` among the pool's strings, or 0 where it is not one.
pub open spec fn string_index_or_zero(p: DexPool, s: Seq<char>) -> u32 {
    if p.string_pool.spec_items().contains(s) {
        first_index(p.string_pool.spec_items(), s) as u32
    } else {
        0
    }
}

/// The index of the prototype `key` among the pool's prototypes, or 0 where it is not one.
pub open spec fn proto_index_or_zero(p: DexPool, key: (Seq<char>, Seq<char>, Seq<Seq<char>>)) -> u32 {
    if p.proto_pool.spec_items().contains(key) {
        first_index(p.proto_pool.spec_items(), key) as u32
    } else {
        0
    }
}

/// The prototype id of pool prototype `k`: its shorty's and its return type's indices, and where
/// its parameter list is (0 where it has none).
pub open spec fn proto_id_bytes(p: DexPool, proto_offs: Seq<Option<u32>>, k: int) -> Seq<u8> {
    let key = p.proto_pool.spec_items()[k];
    le_bytes_u32(string_index_or_zero(p, key.0)) + le_bytes_u32(type_index_or_zero(p, key.1)) + le_bytes_u32(
        match proto_offs[k] {
            Some(o) => o,
            None => 0,
        },
    )
}

/// The field id of pool field `k`: its class's and its type's indices, 16 bits each, and its
/// name's index.
pub open spec fn field_id_bytes(p: DexPool, k: int) -> Seq<u8> {
    let f = p.field_pool.spec_items()[k];
    le_bytes_u16(type_index_or_zero(p, f.0) as u16) + le_bytes_u16(type_index_or_zero(p, f.2) as u16)
        + le_bytes_u32(string_index_or_zero(p, f.1))
}

/// The method id of pool method `k`: its class's and its prototype's indices, 16 bits each, and
/// its name's index.
pub open spec fn method_id_bytes(p: DexPool, k: int) -> Seq<u8> {
    let m = p.method_pool.spec_items()[k];
    le_bytes_u16(type_index_or_zero(p, m.0) as u16) + le_bytes_u16(proto_index_or_zero(p, m.2) as u16)
        + le_bytes_u32(string_index_or_zero(p, m.1))
}

/// The 16-bit type index of each of `ts`, as bytes.
pub open spec fn type_index_bytes(p: DexPool, ts: Seq<Seq<char>>) -> Seq<u8>
    decreases ts.len(),
{
    if ts.len() == 0 {
        Seq::empty()
    } else {
        type_index_bytes(p, ts.drop_last()) + le_bytes_u16(type_index_or_zero(p, ts.last()) as u16)
    }
}

/// A type list of `ts` as the file holds it: the count, then each type's index.
pub open spec fn type_list_bytes(p: DexPool, ts: Seq<Seq<char>>) -> Seq<u8> {
    le_bytes_u32(ts.len() as u32) + type_index_bytes(p, ts)
}

proof fn lemma_type_index_bytes(p: DexPool, ts: Seq<Seq<char>>, i: int)
    requires
        0 <= i < ts.len(),
    ensures
        type_index_bytes(p, ts).len() == 2 * ts.len(),
        type_index_bytes(p, ts).subrange(2 * i, 2 * i + 2) == le_bytes_u16(type_index_or_zero(p, ts[i]) as u16),
    decreases ts.len(),
{
    lemma_type_index_bytes_len(p, ts);
    lemma_type_index_bytes_len(p, ts.drop_last());
    if i < ts.len() - 1 {
        lemma_type_index_bytes(p, ts.drop_last(), i);
        assert(type_index_bytes(p, ts).subrange(2 * i, 2 * i + 2) =~= type_index_bytes(p, ts.drop_last()).subrange(
            2 * i,
            2 * i + 2,
        ));
    } else {
        assert(type_index_bytes(p, ts).subrange(2 * i, 2 * i + 2) =~= le_bytes_u16(type_index_or_zero(p, ts[i]) as u16));
    }
}

proof fn lemma_type_index_bytes_len(p: DexPool, ts: Seq<Seq<char>>)
    ensures
        type_index_bytes(p, ts).len() == 2 * ts.len(),
    decreases ts.len(),
{
    if ts.len() > 0 {
        lemma_type_index_bytes_len(p, ts.drop_last());
    }
}

/// A type list of `ts` is in `bytes` at `off`, between `from` and `upto`.
pub open spec fn type_list_placed(p: DexPool, bytes: Seq<u8>, off: int, ts: Seq<Seq<char>>, from: int, upto: int) -> bool {
    let d = type_list_bytes(p, ts);
    &&& ts.len() <= u32::MAX
    &&& 0 <= from <= off
    &&& off + d.len() <= upto
    &&& off + d.len() <= bytes.len()
    &&& bytes.subrange(off, off + d.len()) == d
}

/// A placed type list stays where later writes keep the bytes below its end.
proof fn lemma_type_list_placed_kept(
    p: DexPool,
    b1: Seq<u8>,
    b2: Seq<u8>,
    off: int,
    ts: Seq<Seq<char>>,
    from: int,
    upto: int,
    bound: int,
)
    requires
        type_list_placed(p, b1, off, ts, from, upto),
        keeps_below(b1, b2, bound),
        upto <= bound,
    ensures
        type_list_placed(p, b2, off, ts, from, upto),
{
    let d = type_list_bytes(p, ts);
    assert(b2.subrange(off, off + d.len()) =~= b1.subrange(off, off + d.len()));
}

/// A placed type list stays where a write ends before the list starts.
proof fn lemma_type_list_placed_write_before(
    p: DexPool,
    b: Seq<u8>,
    off: int,
    ts: Seq<Seq<char>>,
    from: int,
    upto: int,
    at: int,
    data: Seq<u8>,
)
    requires
        type_list_placed(p, b, off, ts, from, upto),
        0 <= at,
        at + data.len() <= from,
    ensures
        type_list_placed(p, written(b, at, data), off, ts, from, upto),
{
    let d = type_list_bytes(p, ts);
    let w = written(b, at, data);
    lemma_written_reads_back(b, at, data);
    assert(w.subrange(off, off + d.len()) =~= b.subrange(off, off + d.len()));
}

/// For each prototype of the pool, `offs` gives where the list of its parameter types is in
/// `bytes`, between `from` and `upto`, and `None` for one without parameters.
pub open spec fn param_lists_placed(p: DexPool, bytes: Seq<u8>, offs: Seq<Option<u32>>, from: int, upto: int) -> bool {
    &&& offs.len() == n_protos(p)
    &&& forall|i: int|
        0 <= i < offs.len() ==> match #[trigger] offs[i] {
            Some(o) => p.proto_pool.spec_items()[i].2.len() > 0 && type_list_placed(
                p,
                bytes,
                o as int,
                p.proto_pool.spec_items()[i].2,
                from,
                upto,
            ),
            None => p.proto_pool.spec_items()[i].2.len() == 0,
        }
}

/// For each class of the pool, `offs` gives where the list of its interfaces is in `bytes`,
/// between `from` and `upto`, and `None` for one without interfaces.
pub open spec fn interface_lists_placed(p: DexPool, bytes: Seq<u8>, offs: Seq<Option<u32>>, from: int, upto: int) -> bool {
    &&& offs.len() == n_classes(p)
    &&& forall|i: int|
        0 <= i < offs.len() ==> match #[trigger] offs[i] {
            Some(o) => p.class_pool.spec_classes()[i].interfaces@.len() > 0 && type_list_placed(
                p,
                bytes,
                o as int,
                strings_view(p.class_pool.spec_classes()[i].interfaces@),
                from,
                upto,
            ),
            None => p.class_pool.spec_classes()[i].interfaces@.len() == 0,
        }
}

/// The data item of `s` is in `bytes` at `off`, and lies between `from` and `upto`.
pub open spec fn string_placed(s: Seq<char>, bytes: Seq<u8>, off: int, from: int, upto: int) -> bool {
    let d = string_data_bytes(s);
    &&& spec_utf16_len(s) <= u32::MAX
    &&& 0 <= off
    &&& from <= off
    &&& off + d.len() <= upto
    &&& off + d.len() <= bytes.len()
    &&& bytes.subrange(off, off + d.len()) == d
}

/// The data item of each string of the pool is in `bytes` at the offset that `offs` gives for it,
/// between `from` and `upto`.
pub open spec fn strings_placed(p: DexPool, bytes: Seq<u8>, offs: Seq<u32>, from: int, upto: int) -> bool {
    &&& offs.len() == n_strings(p)
    &&& forall|i: int|
        0 <= i < offs.len() ==> #[trigger] string_placed(
            p.string_pool.spec_items()[i],
            bytes,
            offs[i] as int,
            from,
            upto,
        )
}

/// A placed data item stays where later writes keep the bytes below its end.
proof fn lemma_string_placed_kept(s: Seq<char>, b1: Seq<u8>, b2: Seq<u8>, off: int, from: int, upto: int, bound: int)
    requires
        string_placed(s, b1, off, from, upto),
        keeps_below(b1, b2, bound),
        upto <= bound,
    ensures
        string_placed(s, b2, off, from, upto),
{
    let d = string_data_bytes(s);
    assert(b2.subrange(off, off + d.len()) =~= b1.subrange(off, off + d.len()));
}

/// A placed data item stays where a write ends before the item starts.
proof fn lemma_string_placed_write_before(s: Seq<char>, b: Seq<u8>, off: int, from: int, upto: int, at: int, data: Seq<u8>)
    requires
        string_placed(s, b, off, from, upto),
        0 <= at,
        at + data.len() <= from,
    ensures
        string_placed(s, written(b, at, data), off, from, upto),
{
    let d = string_data_bytes(s);
    let w = written(b, at, data);
    lemma_written_reads_back(b, at, data);
    assert(w.subrange(off, off + d.len()) =~= b.subrange(off, off + d.len()));
}

impl DexPool {
    /// Writes the data item of each string, in pool order, from the current offset on; returns
    /// where each one went.
    fn write_string_data_section<'a, D: DataStore>(&self, w: &mut DexWriter<'a, D>) -> (res: Result<Vec<u32>, ()>)
        requires
            self.wf(),
        ensures
            final(w).spec_offset() >= old(w).spec_offset(),
            keeps_below(old(w).spec_bytes(), final(w).spec_bytes(), old(w).spec_offset() as int),
            res matches Ok(offs) ==> strings_placed(
                *self,
                final(w).spec_bytes(),
                offs@,
                old(w).spec_offset() as int,
                final(w).spec_offset() as int,
            ),
            res is Ok <==> forall|i: int|
                0 <= i < n_strings(*self) ==> #[trigger] string_data_fits(
                    self.string_pool.spec_items(),
                    i,
                    old(w).spec_offset() as int,
                ),
            res matches Ok(offs) ==> forall|i: int|
                0 <= i < offs@.len() ==> #[trigger] offs@[i] == old(w).spec_offset() + string_data_total(
                    self.string_pool.spec_items().take(i),
                ),
            res is Ok ==> final(w).spec_offset() == old(w).spec_offset() + string_data_total(
                self.string_pool.spec_items().take(n_strings(*self)),
            ),
            *final(final(w).data_store) == *final(old(w).data_store),
            final(w).spec_offset() == old(w).spec_offset() || final(w).spec_bytes().len() >= final(w).spec_offset(),
            final(w).spec_bytes().len() <= old(w).spec_bytes().len() || final(w).spec_bytes().len() <= final(w).spec_offset(),
    {
        let ghost b0 = w.spec_bytes();
        let ghost o0 = w.spec_offset();
        let ghost items = self.string_pool.spec_items();
        let n = self.string_pool.count();
        let mut offs: Vec<u32> = Vec::new();
        let mut i: u32 = 0;
        while i < n
            invariant
                w.spec_bytes().len() <= old(w).spec_bytes().len() || w.spec_bytes().len() <= w.spec_offset(),
                w.spec_offset() == old(w).spec_offset() || w.spec_bytes().len() >= w.spec_offset(),
                *final(w.data_store) == *final(old(w).data_store),
                w.spec_offset() >= o0,
                o0 == old(w).spec_offset(),
                b0 == old(w).spec_bytes(),
                keeps_below(b0, w.spec_bytes(), o0 as int),
                n == self.string_pool.spec_items().len() as u32,
                items == self.string_pool.spec_items(),
                i <= n,
                offs@.len() == i,
                w.spec_offset() == o0 + string_data_total(items.take(i as int)),
                forall|k: int| 0 <= k < i ==> #[trigger] string_data_fits(items, k, o0 as int),
                forall|k: int| 0 <= k < i ==> #[trigger] offs@[k] == o0 + string_data_total(items.take(k)),
                forall|k: int|
                    0 <= k < i ==> #[trigger] string_placed(
                        self.string_pool.spec_items()[k],
                        w.spec_bytes(),
                        offs@[k] as int,
                        o0 as int,
                        w.spec_offset() as int,
                    ),
            decreases n - i,
        {
            let s = match self.string_pool.get(i) {
                Some(s) => s,
                None => {
                    return Err(());
                },
            };
            assert(items.take(i + 1).drop_last() =~= items.take(i as int));
            let len = match string_data_len(s) {
                Some(len) => len,
                None => {
                    assert(!string_data_fits(items, i as int, o0 as int));
                    return Err(());
                },
            };
            if !room(w, len) {
                assert(!string_data_fits(items, i as int, o0 as int));
                return Err(());
            }
            let ghost before = w.spec_bytes();
            let ghost before_off = w.spec_offset();
            let ghost offs0 = offs@;
            let off = w.write_string_data(s);
            proof {
                lemma_written_reads_back(before, off as int, string_data_bytes(s@));
                assert forall|k: int| 0 <= k < i implies #[trigger] string_placed(
                    self.string_pool.spec_items()[k],
                    w.spec_bytes(),
                    offs@[k] as int,
                    o0 as int,
                    w.spec_offset() as int,
                ) by {
                    lemma_string_placed_kept(
                        self.string_pool.spec_items()[k],
                        before,
                        w.spec_bytes(),
                        offs@[k] as int,
                        o0 as int,
                        before_off as int,
                        before_off as int,
                    );
                }
            }
            offs.push(off);
            assert(offs@ == offs0.push(off));
            assert(string_data_fits(items, i as int, o0 as int));
            i += 1;
        }
        Ok(offs)
    }

    /// Writes a type list: its length, then the index of each type.
    fn write_type_list<'a, D: DataStore>(&self, w: &mut DexWriter<'a, D>, types: &[String]) -> (res: Result<u32, ()>)
        requires
            self.wf(),
        ensures
            final(w).spec_offset() >= old(w).spec_offset(),
            keeps_below(old(w).spec_bytes(), final(w).spec_bytes(), old(w).spec_offset() as int),
            res matches Ok(off) ==> type_list_placed(
                *self,
                final(w).spec_bytes(),
                off as int,
                strings_view(types@),
                old(w).spec_offset() as int,
                final(w).spec_offset() as int,
            ),
            res matches Ok(off) ==> off == old(w).spec_offset() + pad4(old(w).spec_offset() as int).len()
                && final(w).spec_offset() == off + 4 + 2 * types@.len(),
            res is Err <==> type_list_unwritable(old(w).spec_offset() as int, types@.len() as int),
            res is Err ==> type_list_unwritable(final(w).spec_offset() as int, types@.len() as int),
            *final(final(w).data_store) == *final(old(w).data_store),
            final(w).spec_offset() == old(w).spec_offset() || final(w).spec_bytes().len() >= final(w).spec_offset(),
            final(w).spec_bytes().len() <= old(w).spec_bytes().len() || final(w).spec_bytes().len() <= final(w).spec_offset(),
    {
        let ghost b0 = w.spec_bytes();
        let ghost o0 = w.spec_offset();
        let ghost ts = strings_view(types@);
        if !room(w, 3) {
            return Err(());
        }
        w.align_to(4);
        let off = w.current_offset();
        if !room(w, 4) {
            return Err(());
        }
        let ghost list_start = w.spec_bytes();
        w.write_u32(types.len() as u32);
        proof {
            lemma_written_reads_back(list_start, off as int, le_bytes_u32(types.len() as u32));
            assert(ts.take(0) =~= Seq::<Seq<char>>::empty());
            assert(w.spec_bytes().subrange(off as int, off + 4) =~= le_bytes_u32(types.len() as u32) + type_index_bytes(
                *self,
                ts.take(0),
            ));
        }
        let mut k: usize = 0;
        while k < types.len()
            invariant
                w.spec_bytes().len() <= old(w).spec_bytes().len() || w.spec_bytes().len() <= w.spec_offset(),
                w.spec_offset() == old(w).spec_offset() || w.spec_bytes().len() >= w.spec_offset(),
                *final(w.data_store) == *final(old(w).data_store),
                w.spec_offset() >= o0,
                o0 == old(w).spec_offset(),
                b0 == old(w).spec_bytes(),
                keeps_below(b0, w.spec_bytes(), o0 as int),
                self.wf(),
                k <= types@.len(),
                ts == strings_view(types@),
                o0 <= off,
                off == o0 + pad4(o0 as int).len(),
                off % 4 == 0,
                off + 4 + 2 * k <= u32::MAX,
                w.spec_offset() == off + 4 + 2 * k,
                w.spec_bytes().len() >= w.spec_offset(),
                w.spec_bytes().subrange(off as int, off + 4 + 2 * k) == le_bytes_u32(types@.len() as u32)
                    + type_index_bytes(*self, ts.take(k as int)),
            decreases types.len() - k,
        {
            let type_idx = match self.type_pool.get_index(types[k].as_str()) {
                Some(t) => t,
                None => 0,
            } as u16;
            if !room(w, 2) {
                return Err(());
            }
            let ghost before = w.spec_bytes();
            w.write_u16(type_idx);
            proof {
                lemma_written_reads_back(before, off + 4 + 2 * k, le_bytes_u16(type_idx));
                assert(type_idx == type_index_or_zero(*self, ts[k as int]) as u16);
                assert(ts.take(k + 1).drop_last() =~= ts.take(k as int));
                assert(w.spec_bytes().subrange(off as int, off + 4 + 2 * (k + 1)) =~= w.spec_bytes().subrange(
                    off as int,
                    off + 4 + 2 * k,
                ) + le_bytes_u16(type_idx));
                assert(w.spec_bytes().subrange(off as int, off + 4 + 2 * k) =~= before.subrange(
                    off as int,
                    off + 4 + 2 * k,
                ));
                assert(le_bytes_u32(types@.len() as u32) + type_index_bytes(*self, ts.take(k + 1)) =~= (le_bytes_u32(
                    types@.len() as u32,
                ) + type_index_bytes(*self, ts.take(k as int))) + le_bytes_u16(type_idx));
            }
            k += 1;
        }
        proof {
            assert(ts.take(types@.len() as int) =~= ts);
            lemma_type_index_bytes_len(*self, ts);
        }
        Ok(off)
    }

    /// Writes the parameter list of each prototype that has parameters; returns where each went.
    fn write_proto_params<'a, D: DataStore>(&self, w: &mut DexWriter<'a, D>) -> (res: Result<Vec<Option<u32>>, ()>)
        requires
            self.wf(),
        ensures
            final(w).spec_offset() >= old(w).spec_offset(),
            keeps_below(old(w).spec_bytes(), final(w).spec_bytes(), old(w).spec_offset() as int),
            res matches Ok(offs) ==> param_lists_placed(
                *self,
                final(w).spec_bytes(),
                offs@,
                old(w).spec_offset() as int,
                final(w).spec_offset() as int,
            ),
            res is Err ==> exists|i: int|
                0 <= i < self.proto_pool.spec_items().len() && self.proto_pool.spec_items()[i].2.len() > 0
                    && #[trigger] type_list_unwritable(
                    final(w).spec_offset() as int,
                    self.proto_pool.spec_items()[i].2.len() as int,
                ),
            *final(final(w).data_store) == *final(old(w).data_store),
            final(w).spec_offset() == old(w).spec_offset() || final(w).spec_bytes().len() >= final(w).spec_offset(),
            final(w).spec_bytes().len() <= old(w).spec_bytes().len() || final(w).spec_bytes().len() <= final(w).spec_offset(),
    {
        let ghost b0 = w.spec_bytes();
        let ghost o0 = w.spec_offset();
        let n = self.proto_pool.count();
        let mut offs: Vec<Option<u32>> = Vec::new();
        let mut i: u32 = 0;
        while i < n
            invariant
                w.spec_bytes().len() <= old(w).spec_bytes().len() || w.spec_bytes().len() <= w.spec_offset(),
                w.spec_offset() == old(w).spec_offset() || w.spec_bytes().len() >= w.spec_offset(),
                *final(w.data_store) == *final(old(w).data_store),
                w.spec_offset() >= o0,
                o0 == old(w).spec_offset(),
                b0 == old(w).spec_bytes(),
                keeps_below(b0, w.spec_bytes(), o0 as int),
                self.wf(),
                n == self.proto_pool.spec_items().len() as u32,
                i <= n,
                offs@.len() == i,
                forall|k: int|
                    0 <= k < i ==> match #[trigger] offs@[k] {
                        Some(o) => self.proto_pool.spec_items()[k].2.len() > 0 && type_list_placed(
                            *self,
                            w.spec_bytes(),
                            o as int,
                            self.proto_pool.spec_items()[k].2,
                            o0 as int,
                            w.spec_offset() as int,
                        ),
                        None => self.proto_pool.spec_items()[k].2.len() == 0,
                    },
            decreases n - i,
        {
            let proto = match self.proto_pool.get(i) {
                Some(p) => p,
                None => {
                    return Err(());
                },
            };
            if proto.parameters.len() > 0 {
                let ghost before = w.spec_bytes();
                let ghost before_off = w.spec_offset();
                let off = match self.write_type_list(w, proto.parameters.as_slice()) {
                    Ok(off) => off,
                    Err(()) => {
                        assert(type_list_unwritable(
                            w.spec_offset() as int,
                            self.proto_pool.spec_items()[i as int].2.len() as int,
                        ));
                        return Err(());
                    },
                };
                proof {
                    assert forall|k: int| 0 <= k < i implies match #[trigger] offs@[k] {
                        Some(o) => self.proto_pool.spec_items()[k].2.len() > 0 && type_list_placed(
                            *self,
                            w.spec_bytes(),
                            o as int,
                            self.proto_pool.spec_items()[k].2,
                            o0 as int,
                            w.spec_offset() as int,
                        ),
                        None => self.proto_pool.spec_items()[k].2.len() == 0,
                    } by {
                        if let Some(o) = offs@[k] {
                            lemma_type_list_placed_kept(
                                *self,
                                before,
                                w.spec_bytes(),
                                o as int,
                                self.proto_pool.spec_items()[k].2,
                                o0 as int,
                                before_off as int,
                                before_off as int,
                            );
                        }
                    }
                }
                offs.push(Some(off));
            } else {
                offs.push(None);
            }
            i += 1;
        }
        Ok(offs)
    }

    /// Writes the interface list of each class that has interfaces; returns where each went.
    fn write_interface_lists<'a, D: DataStore>(&self, w: &mut DexWriter<'a, D>) -> (res: Result<Vec<Option<u32>>, ()>)
        requires
            self.wf(),
        ensures
            final(w).spec_offset() >= old(w).spec_offset(),
            keeps_below(old(w).spec_bytes(), final(w).spec_bytes(), old(w).spec_offset() as int),
            res matches Ok(offs) ==> interface_lists_placed(
                *self,
                final(w).spec_bytes(),
                offs@,
                old(w).spec_offset() as int,
                final(w).spec_offset() as int,
            ),
            res is Err ==> exists|ci: int|
                0 <= ci < self.class_pool.spec_classes().len() && self.class_pool.spec_classes()[ci].interfaces@.len()
                    > 0 && #[trigger] type_list_unwritable(
                    final(w).spec_offset() as int,
                    self.class_pool.spec_classes()[ci].interfaces@.len() as int,
                ),
            *final(final(w).data_store) == *final(old(w).data_store),
            final(w).spec_offset() == old(w).spec_offset() || final(w).spec_bytes().len() >= final(w).spec_offset(),
            final(w).spec_bytes().len() <= old(w).spec_bytes().len() || final(w).spec_bytes().len() <= final(w).spec_offset(),
    {
        let ghost b0 = w.spec_bytes();
        let ghost o0 = w.spec_offset();
        let n = self.class_pool.count();
        let mut offs: Vec<Option<u32>> = Vec::new();
        let mut ci: u32 = 0;
        while ci < n
            invariant
                w.spec_bytes().len() <= old(w).spec_bytes().len() || w.spec_bytes().len() <= w.spec_offset(),
                w.spec_offset() == old(w).spec_offset() || w.spec_bytes().len() >= w.spec_offset(),
                *final(w.data_store) == *final(old(w).data_store),
                w.spec_offset() >= o0,
                o0 == old(w).spec_offset(),
                b0 == old(w).spec_bytes(),
                keeps_below(b0, w.spec_bytes(), o0 as int),
                self.wf(),
                n == self.class_pool.spec_classes().len() as u32,
                ci <= n,
                offs@.len() == ci,
                forall|k: int|
                    0 <= k < ci ==> match #[trigger] offs@[k] {
                        Some(o) => self.class_pool.spec_classes()[k].interfaces@.len() > 0 && type_list_placed(
                            *self,
                            w.spec_bytes(),
                            o as int,
                            strings_view(self.class_pool.spec_classes()[k].interfaces@),
                            o0 as int,
                            w.spec_offset() as int,
                        ),
                        None => self.class_pool.spec_classes()[k].interfaces@.len() == 0,
                    },
            decreases n - ci,
        {
            let class = match self.class_pool.get(ci) {
                Some(c) => c,
                None => {
                    return Err(());
                },
            };
            if class.interfaces.len() > 0 {
                let ghost before = w.spec_bytes();
                let ghost before_off = w.spec_offset();
                let off = match self.write_type_list(w, class.interfaces.as_slice()) {
                    Ok(off) => off,
                    Err(()) => {
                        assert(type_list_unwritable(
                            w.spec_offset() as int,
                            self.class_pool.spec_classes()[ci as int].interfaces@.len() as int,
                        ));
                        return Err(());
                    },
                };
                proof {
                    assert forall|k: int| 0 <= k < ci implies match #[trigger] offs@[k] {
                        Some(o) => self.class_pool.spec_classes()[k].interfaces@.len() > 0 && type_list_placed(
                            *self,
                            w.spec_bytes(),
                            o as int,
                            strings_view(self.class_pool.spec_classes()[k].interfaces@),
                            o0 as int,
                            w.spec_offset() as int,
                        ),
                        None => self.class_pool.spec_classes()[k].interfaces@.len() == 0,
                    } by {
                        if let Some(o) = offs@[k] {
                            lemma_type_list_placed_kept(
                                *self,
                                before,
                                w.spec_bytes(),
                                o as int,
                                strings_view(self.class_pool.spec_classes()[k].interfaces@),
                                o0 as int,
                                before_off as int,
                                before_off as int,
                            );
                        }
                    }
                }
                offs.push(Some(off));
            } else {
                offs.push(None);
            }
            ci += 1;
        }
        Ok(offs)
    }

    /// Writes the code item of a method that has code, at the next multiple of four; returns
    /// where it went. Fails where there is no room for it.
    #[verifier::spinoff_prover]
    #[verifier::rlimit(50)]
    fn write_code_item<'a, D: DataStore>(&self, w: &mut DexWriter<'a, D>, m: &MethodEntry) -> (res: Result<Option<u32>, ()>)
        requires
            self.wf(),
            method_code_writable(*self, *m),
        ensures
            final(w).spec_offset() >= old(w).spec_offset(),
            keeps_below(old(w).spec_bytes(), final(w).spec_bytes(), old(w).spec_offset() as int),
            res matches Ok(o) ==> (o is Some <==> m.implementation is Some),
            m.implementation is None ==> res == Ok::<Option<u32>, ()>(None) && final(w).spec_offset()
                == old(w).spec_offset() && final(w).spec_bytes() == old(w).spec_bytes(),
            res is Err <==> code_item_unwritable(*self, *m, old(w).spec_offset() as int),
            res is Err ==> code_item_unwritable(*self, *m, final(w).spec_offset() as int),
            res is Ok ==> (m.implementation matches Some(imp) ==> {
                let at = old(w).spec_offset() + pad4(old(w).spec_offset() as int).len();
                let item = code_item_bytes(imp.register_count, code_units_of(*self, imp.instructions@));
                &&& res == Ok::<Option<u32>, ()>(Some(at as u32))
                &&& final(w).spec_offset() == at + item.len()
                &&& final(w).spec_bytes() == written(
                    old(w).spec_bytes(),
                    old(w).spec_offset() as int,
                    pad4(old(w).spec_offset() as int) + item,
                )
            }),
            *final(final(w).data_store) == *final(old(w).data_store),
            final(w).spec_offset() == old(w).spec_offset() || final(w).spec_bytes().len() >= final(w).spec_offset(),
            final(w).spec_bytes().len() <= old(w).spec_bytes().len() || final(w).spec_bytes().len() <= final(w).spec_offset(),
    {
        let ghost b0 = w.spec_bytes();
        let ghost o0 = w.spec_offset();
        match &m.implementation {
            Some(ie) => {
                if !room(w, 3) {
                    return Err(());
                }
                w.align_to(4);
                let ghost mut acc: Seq<u8> = pad4(o0 as int);
                assert(written_so_far(b0, o0 as int, acc, w.spec_bytes()));
                let code_off = w.current_offset();
                let encoded = encode_instructions(ie.instructions.as_slice(), self);
                let n = encoded.len();
                if n > 0x7FFF_FFFF {
                    return Err(());
                }
                if !room(w, 18 + 2 * n as u64) {
                    return Err(());
                }
                let start = w.current_offset();
                let ghost cur = w.spec_bytes();
                w.write_u16(ie.register_count);
                proof {
                    lemma_written_so_far_step(b0, o0 as int, acc, cur, le_bytes_u16(ie.register_count));
                    acc = acc + le_bytes_u16(ie.register_count);
                }
                let ghost cur = w.spec_bytes();
                w.write_u16(0);
                proof {
                    lemma_written_so_far_step(b0, o0 as int, acc, cur, le_bytes_u16(0));
                    acc = acc + le_bytes_u16(0);
                }
                let ghost cur = w.spec_bytes();
                w.write_u16(0);
                proof {
                    lemma_written_so_far_step(b0, o0 as int, acc, cur, le_bytes_u16(0));
                    acc = acc + le_bytes_u16(0);
                }
                let ghost cur = w.spec_bytes();
                w.write_u16(0);
                proof {
                    lemma_written_so_far_step(b0, o0 as int, acc, cur, le_bytes_u16(0));
                    acc = acc + le_bytes_u16(0);
                }
                let ghost cur = w.spec_bytes();
                w.write_u32(0);
                proof {
                    lemma_written_so_far_step(b0, o0 as int, acc, cur, le_bytes_u32(0));
                    acc = acc + le_bytes_u32(0);
                }
                let ghost cur = w.spec_bytes();
                w.write_u32(n as u32);
                proof {
                    lemma_written_so_far_step(b0, o0 as int, acc, cur, le_bytes_u32(n as u32));
                    acc = acc + le_bytes_u32(n as u32);
                    assert(acc =~= pad4(o0 as int) + code_item_header(ie.register_count, n as u32));
                }
                let ghost head = acc;
                let mut k: usize = 0;
                assert(units_bytes(encoded@.take(0)) =~= Seq::<u8>::empty());
                assert(head + units_bytes(encoded@.take(0)) =~= head);
                while k < n
                    invariant
                        w.spec_bytes().len() <= old(w).spec_bytes().len() || w.spec_bytes().len() <= w.spec_offset(),
                        w.spec_offset() == old(w).spec_offset() || w.spec_bytes().len() >= w.spec_offset(),
                        *final(w.data_store) == *final(old(w).data_store),
                        w.spec_offset() >= o0,
                        o0 == old(w).spec_offset(),
                        b0 == old(w).spec_bytes(),
                        keeps_below(b0, w.spec_bytes(), o0 as int),
                        n == encoded@.len(),
                        n <= 0x7FFF_FFFF,
                        k <= n,
                        start + 18 + 2 * n <= u32::MAX,
                        w.spec_offset() == start + 16 + 2 * k,
                        start == o0 + pad4(o0 as int).len(),
                        head.len() == pad4(o0 as int).len() + 16,
                        written_so_far(b0, o0 as int, head + units_bytes(encoded@.take(k as int)), w.spec_bytes()),
                    decreases n - k,
                {
                    let ghost cur = w.spec_bytes();
                    let ghost before = head + units_bytes(encoded@.take(k as int));
                    proof {
                        lemma_units_bytes_len(encoded@.take(k as int));
                    }
                    w.write_u16(encoded[k]);
                    proof {
                        lemma_written_so_far_step(b0, o0 as int, before, cur, le_bytes_u16(encoded@[k as int]));
                        assert(encoded@.take(k + 1).drop_last() =~= encoded@.take(k as int));
                        assert(before + le_bytes_u16(encoded@[k as int]) =~= head + units_bytes(
                            encoded@.take(k + 1),
                        ));
                    }
                    k += 1;
                }
                assert(encoded@.take(n as int) =~= encoded@);
                proof {
                    lemma_units_bytes_len(encoded@);
                }
                if n % 2 == 1 {
                    let ghost cur = w.spec_bytes();
                    w.write_u16(0);
                    proof {
                        lemma_written_so_far_step(b0, o0 as int, head + units_bytes(encoded@), cur, le_bytes_u16(0));
                        assert(head + units_bytes(encoded@) + le_bytes_u16(0) =~= pad4(o0 as int) + code_item_bytes(
                            ie.register_count,
                            encoded@,
                        ));
                    }
                } else {
                    assert(head + units_bytes(encoded@) =~= pad4(o0 as int) + code_item_bytes(
                        ie.register_count,
                        encoded@,
                    ));
                }
                Ok(Some(code_off))
            },
            None => Ok(None),
        }
    }

    /// Writes the code items of every method of every class, direct methods first; returns where
    /// each went, per class.
    fn write_code_items<'a, D: DataStore>(&self, w: &mut DexWriter<'a, D>) -> (res: Result<Vec<Vec<Option<u32>>>, ()>)
        requires
            self.wf(),
            code_writable(*self),
            virtual_code_writable(*self),
        ensures
            final(w).spec_offset() >= old(w).spec_offset(),
            keeps_below(old(w).spec_bytes(), final(w).spec_bytes(), old(w).spec_offset() as int),
            res matches Ok(offs) ==> offs@.len() == n_classes(*self) && forall|ci: int|
                0 <= ci < offs@.len() ==> #[trigger] offs@[ci]@.len() == self.class_pool.spec_classes()[ci].direct_methods@.len()
                    + self.class_pool.spec_classes()[ci].virtual_methods@.len(),
            res matches Ok(offs) ==> forall|ci: int, k: int|
                0 <= ci < offs@.len() && 0 <= k < offs@[ci]@.len() ==> (#[trigger] offs@[ci]@[k] is Some
                    <==> method_at(self.class_pool.spec_classes()[ci], k).implementation is Some),
            res matches Ok(offs) ==> forall|ci: int, k: int|
                0 <= ci < offs@.len() && 0 <= k < offs@[ci]@.len() ==> match #[trigger] offs@[ci]@[k] {
                    Some(o) => code_item_at(
                        *self,
                        final(w).spec_bytes(),
                        method_at(self.class_pool.spec_classes()[ci], k),
                        o as int,
                        final(w).spec_offset() as int,
                    ),
                    None => true,
                },
            res is Err ==> exists|ci: int, k: int|
                0 <= ci < self.class_pool.spec_classes().len() && 0 <= k < self.class_pool.spec_classes()[ci].direct_methods@.len()
                    + self.class_pool.spec_classes()[ci].virtual_methods@.len() && #[trigger] code_item_unwritable(
                    *self,
                    method_at(self.class_pool.spec_classes()[ci], k),
                    final(w).spec_offset() as int,
                ),
            *final(final(w).data_store) == *final(old(w).data_store),
            final(w).spec_offset() == old(w).spec_offset() || final(w).spec_bytes().len() >= final(w).spec_offset(),
            final(w).spec_bytes().len() <= old(w).spec_bytes().len() || final(w).spec_bytes().len() <= final(w).spec_offset(),
    {
        let ghost b0 = w.spec_bytes();
        let ghost o0 = w.spec_offset();
        let n = self.class_pool.count();
        let mut all: Vec<Vec<Option<u32>>> = Vec::new();
        let mut ci: u32 = 0;
        while ci < n
            invariant
                w.spec_bytes().len() <= old(w).spec_bytes().len() || w.spec_bytes().len() <= w.spec_offset(),
                w.spec_offset() == old(w).spec_offset() || w.spec_bytes().len() >= w.spec_offset(),
                *final(w.data_store) == *final(old(w).data_store),
                w.spec_offset() >= o0,
                o0 == old(w).spec_offset(),
                b0 == old(w).spec_bytes(),
                keeps_below(b0, w.spec_bytes(), o0 as int),
                self.wf(),
                code_writable(*self),
                virtual_code_writable(*self),
                n == self.class_pool.spec_classes().len() as u32,
                ci <= n,
                all@.len() == ci,
                forall|c: int| 0 <= c < ci ==> #[trigger] all@[c]@.len() == self.class_pool.spec_classes()[c].direct_methods@.len()
                    + self.class_pool.spec_classes()[c].virtual_methods@.len(),
                forall|c: int, k: int|
                    0 <= c < ci && 0 <= k < all@[c]@.len() ==> (#[trigger] all@[c]@[k] is Some
                        <==> method_at(self.class_pool.spec_classes()[c], k).implementation is Some),
                forall|c: int, k: int|
                    0 <= c < ci && 0 <= k < all@[c]@.len() ==> match #[trigger] all@[c]@[k] {
                        Some(o) => code_item_at(
                            *self,
                            w.spec_bytes(),
                            method_at(self.class_pool.spec_classes()[c], k),
                            o as int,
                            w.spec_offset() as int,
                        ),
                        None => true,
                    },
            decreases n - ci,
        {
            let ghost all0 = all@;
            let class = match self.class_pool.get(ci) {
                Some(c) => c,
                None => {
                    return Err(());
                },
            };
            let mut offs: Vec<Option<u32>> = Vec::new();
            let mut k: usize = 0;
            while k < class.direct_methods.len()
                invariant
                    w.spec_bytes().len() <= old(w).spec_bytes().len() || w.spec_bytes().len() <= w.spec_offset(),
                    w.spec_offset() == old(w).spec_offset() || w.spec_bytes().len() >= w.spec_offset(),
                    *final(w.data_store) == *final(old(w).data_store),
                    w.spec_offset() >= o0,
                    o0 == old(w).spec_offset(),
                    b0 == old(w).spec_bytes(),
                    keeps_below(b0, w.spec_bytes(), o0 as int),
                    self.wf(),
                    code_writable(*self),
                    ci < self.class_pool.spec_classes().len(),
                    *class == self.class_pool.spec_classes()[ci as int],
                    k <= class.direct_methods@.len(),
                    offs@.len() == k,
                    forall|j: int| 0 <= j < k ==> (#[trigger] offs@[j] is Some <==> method_at(*class, j).implementation is Some),
                    forall|j: int|
                        0 <= j < offs@.len() ==> match #[trigger] offs@[j] {
                            Some(o) => code_item_at(*self, w.spec_bytes(), method_at(*class, j), o as int, w.spec_offset() as int),
                            None => true,
                        },
                    all@.len() == ci,
                forall|c: int, k: int|
                        0 <= c < ci && 0 <= k < all@[c]@.len() ==> match #[trigger] all@[c]@[k] {
                            Some(o) => code_item_at(
                                *self,
                                w.spec_bytes(),
                                method_at(self.class_pool.spec_classes()[c], k),
                                o as int,
                                w.spec_offset() as int,
                            ),
                            None => true,
                        },
                decreases class.direct_methods.len() - k,
            {
                assert(method_code_writable(*self, self.class_pool.spec_classes()[ci as int].direct_methods@[k as int]));
                let ghost before = w.spec_bytes();
                let ghost before_off = w.spec_offset();
                let ghost offs0 = offs@;
                assert(method_at(*class, k as int) == class.direct_methods@[k as int]);
                let o = match self.write_code_item(w, &class.direct_methods[k]) {
                    Ok(o) => o,
                    Err(()) => {
                        assert(code_item_unwritable(*self, method_at(self.class_pool.spec_classes()[ci as int], k as int), w.spec_offset() as int));
                        return Err(());
                    },
                };
                proof {
                    let bf = w.spec_bytes();
                    let of = w.spec_offset() as int;
                    assert forall|c: int, kk: int|
                        0 <= c < ci && 0 <= kk < all@[c]@.len() implies match #[trigger] all@[c]@[kk] {
                            Some(oo) => code_item_at(*self, bf, method_at(self.class_pool.spec_classes()[c], kk), oo as int, of),
                            None => true,
                        } by {
                        if let Some(oo) = all@[c]@[kk] {
                            lemma_code_item_at_kept(*self, before, bf, method_at(self.class_pool.spec_classes()[c], kk), oo as int, before_off as int, of);
                        }
                    }
                    assert forall|jj: int| 0 <= jj < offs0.len() implies match #[trigger] offs0[jj] {
                            Some(oo) => code_item_at(*self, bf, method_at(*class, jj), oo as int, of),
                            None => true,
                        } by {
                        if let Some(oo) = offs0[jj] {
                            lemma_code_item_at_kept(*self, before, bf, method_at(*class, jj), oo as int, before_off as int, of);
                        }
                    }
                    if let Some(oo) = o {
                        lemma_code_item_at_written(*self, before, before_off as int, pad4(before_off as int), method_at(*class, k as int));
                    }
                }
                offs.push(o);
                assert(offs@ == offs0.push(o));
                k += 1;
            }
            let mut k: usize = 0;
            while k < class.virtual_methods.len()
                invariant
                    w.spec_bytes().len() <= old(w).spec_bytes().len() || w.spec_bytes().len() <= w.spec_offset(),
                    w.spec_offset() == old(w).spec_offset() || w.spec_bytes().len() >= w.spec_offset(),
                    *final(w.data_store) == *final(old(w).data_store),
                    w.spec_offset() >= o0,
                    o0 == old(w).spec_offset(),
                    b0 == old(w).spec_bytes(),
                    keeps_below(b0, w.spec_bytes(), o0 as int),
                    self.wf(),
                    virtual_code_writable(*self),
                    ci < self.class_pool.spec_classes().len(),
                    *class == self.class_pool.spec_classes()[ci as int],
                    k <= class.virtual_methods@.len(),
                    offs@.len() == class.direct_methods@.len() + k,
                    forall|j: int| 0 <= j < offs@.len() ==> (#[trigger] offs@[j] is Some <==> method_at(*class, j).implementation is Some),
                    forall|j: int|
                        0 <= j < offs@.len() ==> match #[trigger] offs@[j] {
                            Some(o) => code_item_at(*self, w.spec_bytes(), method_at(*class, j), o as int, w.spec_offset() as int),
                            None => true,
                        },
                    all@.len() == ci,
                forall|c: int, k: int|
                        0 <= c < ci && 0 <= k < all@[c]@.len() ==> match #[trigger] all@[c]@[k] {
                            Some(o) => code_item_at(
                                *self,
                                w.spec_bytes(),
                                method_at(self.class_pool.spec_classes()[c], k),
                                o as int,
                                w.spec_offset() as int,
                            ),
                            None => true,
                        },
                decreases class.virtual_methods.len() - k,
            {
                assert(method_code_writable(*self, self.class_pool.spec_classes()[ci as int].virtual_methods@[k as int]));
                let ghost j = class.direct_methods@.len() + k;
                assert(method_at(*class, j) == class.virtual_methods@[k as int]);
                let ghost before = w.spec_bytes();
                let ghost before_off = w.spec_offset();
                let ghost offs0 = offs@;
                let o = match self.write_code_item(w, &class.virtual_methods[k]) {
                    Ok(o) => o,
                    Err(()) => {
                        assert(code_item_unwritable(*self, method_at(self.class_pool.spec_classes()[ci as int], j), w.spec_offset() as int));
                        return Err(());
                    },
                };
                proof {
                    let bf = w.spec_bytes();
                    let of = w.spec_offset() as int;
                    assert forall|c: int, kk: int|
                        0 <= c < ci && 0 <= kk < all@[c]@.len() implies match #[trigger] all@[c]@[kk] {
                            Some(oo) => code_item_at(*self, bf, method_at(self.class_pool.spec_classes()[c], kk), oo as int, of),
                            None => true,
                        } by {
                        if let Some(oo) = all@[c]@[kk] {
                            lemma_code_item_at_kept(*self, before, bf, method_at(self.class_pool.spec_classes()[c], kk), oo as int, before_off as int, of);
                        }
                    }
                    assert forall|jj: int| 0 <= jj < offs0.len() implies match #[trigger] offs0[jj] {
                            Some(oo) => code_item_at(*self, bf, method_at(*class, jj), oo as int, of),
                            None => true,
                        } by {
                        if let Some(oo) = offs0[jj] {
                            lemma_code_item_at_kept(*self, before, bf, method_at(*class, jj), oo as int, before_off as int, of);
                        }
                    }
                    if let Some(oo) = o {
                        lemma_code_item_at_written(*self, before, before_off as int, pad4(before_off as int), method_at(*class, j));
                    }
                }
                offs.push(o);
                assert(offs@ == offs0.push(o));
                k += 1;
            }
            let ghost offs_v = offs;
            all.push(offs);
            assert(all@ == all0.push(offs_v));
            ci += 1;
        }
        Ok(all)
    }
}


/// Whether a class has any field or method, and so class data of its own.
pub open spec fn class_has_members(c: ClassEntry) -> bool {
    c.static_fields@.len() > 0 || c.instance_fields@.len() > 0 || c.direct_methods@.len() > 0
        || c.virtual_methods@.len() > 0
}

/// Each value of `vals` as unsigned LEB128, one after the other.
pub open spec fn ulebs_bytes(vals: Seq<u32>) -> Seq<u8>
    decreases vals.len(),
{
    if vals.len() == 0 {
        Seq::empty()
    } else {
        ulebs_bytes(vals.drop_last()) + spec_encode_uleb128(vals.last())
    }
}

/// Whether writing `vals` one after the other from `off`, each where five bytes are left before
/// the 32-bit limit, goes through: the room is there for each of them.
pub open spec fn ulebs_fit(vals: Seq<u32>, off: int) -> bool {
    forall|j: int| 0 <= j < vals.len() ==> off + #[trigger] ulebs_bytes(vals.take(j)).len() + 5 <= u32::MAX
}

/// The values that a list of field entries sorted by index is written as: for each entry, the
/// difference from the index before (0 before the first) and the flags.
pub open spec fn field_entry_values(entries: Seq<(u32, u32)>) -> Seq<u32> {
    Seq::new(
        (2 * entries.len()) as nat,
        |i: int|
            if i % 2 == 0 {
                (entries[i / 2].0 - if i / 2 == 0 { 0 } else { entries[i / 2 - 1].0 }) as u32
            } else {
                entries[i / 2].1
            },
    )
}

/// The values that a list of method entries sorted by index is written as: for each entry, the
/// difference from the index before (0 before the first), the flags and the code offset.
pub open spec fn method_entry_values(entries: Seq<(u32, (u32, u32))>) -> Seq<u32> {
    Seq::new(
        (3 * entries.len()) as nat,
        |i: int|
            if i % 3 == 0 {
                (entries[i / 3].0 - if i / 3 == 0 { 0 } else { entries[i / 3 - 1].0 }) as u32
            } else if i % 3 == 1 {
                entries[i / 3].1.0
            } else {
                entries[i / 3].1.1
            },
    )
}

/// Writing one more value: the bytes grow by its encoding, and the room check is the one at the
/// new end.
proof fn lemma_ulebs_step(vals: Seq<u32>, j: int)
    requires
        0 <= j < vals.len(),
    ensures
        ulebs_bytes(vals.take(j + 1)) == ulebs_bytes(vals.take(j)) + spec_encode_uleb128(vals[j]),
{
    assert(vals.take(j + 1).drop_last() =~= vals.take(j));
}

/// Writes `v` as unsigned LEB128, where five bytes are left before the 32-bit limit; leaves the
/// writer as it is otherwise.
fn write_uleb_checked<'a, D: DataStore>(w: &mut DexWriter<'a, D>, v: u32) -> (res: Result<(), ()>)
    ensures
        final(w).spec_offset() >= old(w).spec_offset(),
        keeps_below(old(w).spec_bytes(), final(w).spec_bytes(), old(w).spec_offset() as int),
        res is Ok <==> old(w).spec_offset() + 5 <= u32::MAX,
        res is Ok ==> final(w).spec_bytes() == written(
            old(w).spec_bytes(),
            old(w).spec_offset() as int,
            spec_encode_uleb128(v),
        ) && final(w).spec_offset() == old(w).spec_offset() + spec_encode_uleb128(v).len(),
        res is Err ==> final(w).spec_bytes() == old(w).spec_bytes() && final(w).spec_offset() == old(
            w,
        ).spec_offset(),
        *final(final(w).data_store) == *final(old(w).data_store),
        final(w).spec_offset() == old(w).spec_offset() || final(w).spec_bytes().len() >= final(w).spec_offset(),
        final(w).spec_bytes().len() <= old(w).spec_bytes().len() || final(w).spec_bytes().len() <= final(w).spec_offset(),
{
    if !room(w, 5) {
        return Err(());
    }
    proof {
        lemma_uleb128_encoded_len(v);
    }
    w.write_uleb128(v);
    Ok(())
}

/// Writes field entries sorted by index: each index as the difference from the one before, and
/// the flags. Fails, with the writer stopped where the room ran out, where a value has no room.
#[verifier::spinoff_prover]
#[verifier::rlimit(40)]
fn write_field_entries<'a, D: DataStore>(w: &mut DexWriter<'a, D>, entries: &Vec<(u32, u32)>) -> (res: Result<(), ()>)
    requires
        forall|a: int, b: int| 0 <= a < b < entries@.len() ==> entries@[a].0 <= entries@[b].0,
    ensures
        final(w).spec_offset() >= old(w).spec_offset(),
        keeps_below(old(w).spec_bytes(), final(w).spec_bytes(), old(w).spec_offset() as int),
        res is Ok <==> ulebs_fit(field_entry_values(entries@), old(w).spec_offset() as int),
        res is Ok ==> final(w).spec_offset() == old(w).spec_offset() + ulebs_bytes(
            field_entry_values(entries@),
        ).len(),
        res is Ok && entries@.len() > 0 ==> final(w).spec_bytes() == written(
            old(w).spec_bytes(),
            old(w).spec_offset() as int,
            ulebs_bytes(field_entry_values(entries@)),
        ),
        res is Ok && entries@.len() == 0 ==> final(w).spec_bytes() == old(w).spec_bytes(),
        res is Err ==> final(w).spec_offset() + 5 > u32::MAX,
        *final(final(w).data_store) == *final(old(w).data_store),
        final(w).spec_offset() == old(w).spec_offset() || final(w).spec_bytes().len() >= final(w).spec_offset(),
        final(w).spec_bytes().len() <= old(w).spec_bytes().len() || final(w).spec_bytes().len() <= final(w).spec_offset(),
{
    let ghost b0 = w.spec_bytes();
    let ghost o0 = w.spec_offset();
    let ghost vals = field_entry_values(entries@);
    let mut prev: u32 = 0;
    let mut k: usize = 0;
    assert(vals.take(0) =~= Seq::<u32>::empty());
    while k < entries.len()
        invariant
            w.spec_bytes().len() <= old(w).spec_bytes().len() || w.spec_bytes().len() <= w.spec_offset(),
            w.spec_offset() == old(w).spec_offset() || w.spec_bytes().len() >= w.spec_offset(),
            *final(w.data_store) == *final(old(w).data_store),
            w.spec_offset() >= o0,
            o0 == old(w).spec_offset(),
            b0 == old(w).spec_bytes(),
            keeps_below(b0, w.spec_bytes(), o0 as int),
            vals == field_entry_values(entries@),
            forall|a: int, b: int| 0 <= a < b < entries@.len() ==> entries@[a].0 <= entries@[b].0,
            k <= entries@.len(),
            k == 0 ==> prev == 0,
            k > 0 ==> prev == entries@[k - 1].0,
            k == 0 ==> w.spec_bytes() == b0,
            k > 0 ==> w.spec_bytes() == written(b0, o0 as int, ulebs_bytes(vals.take(2 * k))),
            w.spec_offset() == o0 + ulebs_bytes(vals.take(2 * k)).len(),
            ulebs_fit(vals.take(2 * k), o0 as int),
        decreases entries.len() - k,
    {
        let (idx, flags) = entries[k];
        let ghost j = 2 * k as int;
        proof {
            if k > 0 {
                assert(entries@[k - 1].0 <= entries@[k as int].0);
            }
            assert(vals[j] == idx - prev);
            assert(vals[j + 1] == flags);
        }
        let ghost w1 = w.spec_bytes();
        match write_uleb_checked(w, idx - prev) {
            Ok(()) => {},
            Err(()) => {
                assert(!ulebs_fit(vals, o0 as int)) by {
                    assert(vals.take(j).len() == j);
                    assert(vals.take(j) =~= vals.take(j));
                }
                return Err(());
            },
        }
        proof {
            lemma_ulebs_step(vals, j);
            if k == 0 {
                assert(ulebs_bytes(vals.take(j + 1)) =~= spec_encode_uleb128(vals[j]));
            } else {
                lemma_written_concat(b0, o0 as int, ulebs_bytes(vals.take(j)), spec_encode_uleb128(vals[j]));
            }
            assert forall|i: int| 0 <= i < vals.take(j + 1).len() implies o0 + #[trigger] ulebs_bytes(
                vals.take(j + 1).take(i),
            ).len() + 5 <= u32::MAX by {
                if i < j {
                    assert(vals.take(j + 1).take(i) =~= vals.take(j).take(i));
                } else {
                    assert(vals.take(j + 1).take(i) =~= vals.take(j));
                }
            }
        }
        match write_uleb_checked(w, flags) {
            Ok(()) => {},
            Err(()) => {
                assert(!ulebs_fit(vals, o0 as int)) by {
                    assert(ulebs_bytes(vals.take(j + 1)).len() == ulebs_bytes(vals.take(j + 1)).len());
                }
                return Err(());
            },
        }
        proof {
            lemma_ulebs_step(vals, j + 1);
            lemma_written_concat(b0, o0 as int, ulebs_bytes(vals.take(j + 1)), spec_encode_uleb128(vals[j + 1]));
            assert forall|i: int| 0 <= i < vals.take(j + 2).len() implies o0 + #[trigger] ulebs_bytes(
                vals.take(j + 2).take(i),
            ).len() + 5 <= u32::MAX by {
                if i < j + 1 {
                    assert(vals.take(j + 2).take(i) =~= vals.take(j + 1).take(i));
                } else {
                    assert(vals.take(j + 2).take(i) =~= vals.take(j + 1));
                }
            }
        }
        prev = idx;
        k += 1;
    }
    proof {
        assert(vals.take(2 * entries@.len() as int) =~= vals);
    }
    Ok(())
}

/// Writes method entries sorted by index: each index as the difference from the one before, the
/// flags and the code offset. Fails, with the writer stopped where the room ran out, where a
/// value has no room.
#[verifier::spinoff_prover]
#[verifier::rlimit(40)]
fn write_method_entries<'a, D: DataStore>(w: &mut DexWriter<'a, D>, entries: &Vec<(u32, (u32, u32))>) -> (res: Result<(), ()>)
    requires
        forall|a: int, b: int| 0 <= a < b < entries@.len() ==> entries@[a].0 <= entries@[b].0,
    ensures
        final(w).spec_offset() >= old(w).spec_offset(),
        keeps_below(old(w).spec_bytes(), final(w).spec_bytes(), old(w).spec_offset() as int),
        res is Ok <==> ulebs_fit(method_entry_values(entries@), old(w).spec_offset() as int),
        res is Ok ==> final(w).spec_offset() == old(w).spec_offset() + ulebs_bytes(
            method_entry_values(entries@),
        ).len(),
        res is Ok && entries@.len() > 0 ==> final(w).spec_bytes() == written(
            old(w).spec_bytes(),
            old(w).spec_offset() as int,
            ulebs_bytes(method_entry_values(entries@)),
        ),
        res is Ok && entries@.len() == 0 ==> final(w).spec_bytes() == old(w).spec_bytes(),
        res is Err ==> final(w).spec_offset() + 5 > u32::MAX,
        *final(final(w).data_store) == *final(old(w).data_store),
        final(w).spec_offset() == old(w).spec_offset() || final(w).spec_bytes().len() >= final(w).spec_offset(),
        final(w).spec_bytes().len() <= old(w).spec_bytes().len() || final(w).spec_bytes().len() <= final(w).spec_offset(),
{
    let ghost b0 = w.spec_bytes();
    let ghost o0 = w.spec_offset();
    let ghost vals = method_entry_values(entries@);
    let mut prev: u32 = 0;
    let mut k: usize = 0;
    assert(vals.take(0) =~= Seq::<u32>::empty());
    while k < entries.len()
        invariant
            w.spec_bytes().len() <= old(w).spec_bytes().len() || w.spec_bytes().len() <= w.spec_offset(),
            w.spec_offset() == old(w).spec_offset() || w.spec_bytes().len() >= w.spec_offset(),
            *final(w.data_store) == *final(old(w).data_store),
            w.spec_offset() >= o0,
            o0 == old(w).spec_offset(),
            b0 == old(w).spec_bytes(),
            keeps_below(b0, w.spec_bytes(), o0 as int),
            vals == method_entry_values(entries@),
            forall|a: int, b: int| 0 <= a < b < entries@.len() ==> entries@[a].0 <= entries@[b].0,
            k <= entries@.len(),
            k == 0 ==> prev == 0,
            k > 0 ==> prev == entries@[k - 1].0,
            k == 0 ==> w.spec_bytes() == b0,
            k > 0 ==> w.spec_bytes() == written(b0, o0 as int, ulebs_bytes(vals.take(3 * k))),
            w.spec_offset() == o0 + ulebs_bytes(vals.take(3 * k)).len(),
            ulebs_fit(vals.take(3 * k), o0 as int),
        decreases entries.len() - k,
    {
        let (idx, (flags, code_off)) = entries[k];
        let ghost j = 3 * k as int;
        proof {
            if k > 0 {
                assert(entries@[k - 1].0 <= entries@[k as int].0);
            }
            assert(vals[j] == idx - prev);
            assert(vals[j + 1] == flags);
            assert(vals[j + 2] == code_off);
        }
        match write_uleb_checked(w, idx - prev) {
            Ok(()) => {},
            Err(()) => {
                assert(!ulebs_fit(vals, o0 as int)) by {
                    assert(vals.take(j).len() == j);
                }
                return Err(());
            },
        }
        proof {
            lemma_ulebs_step(vals, j);
            if k == 0 {
                assert(ulebs_bytes(vals.take(j + 1)) =~= spec_encode_uleb128(vals[j]));
            } else {
                lemma_written_concat(b0, o0 as int, ulebs_bytes(vals.take(j)), spec_encode_uleb128(vals[j]));
            }
            assert forall|i: int| 0 <= i < vals.take(j + 1).len() implies o0 + #[trigger] ulebs_bytes(
                vals.take(j + 1).take(i),
            ).len() + 5 <= u32::MAX by {
                if i < j {
                    assert(vals.take(j + 1).take(i) =~= vals.take(j).take(i));
                } else {
                    assert(vals.take(j + 1).take(i) =~= vals.take(j));
                }
            }
        }
        match write_uleb_checked(w, flags) {
            Ok(()) => {},
            Err(()) => {
                assert(!ulebs_fit(vals, o0 as int)) by {
                    assert(ulebs_bytes(vals.take(j + 1)).len() == ulebs_bytes(vals.take(j + 1)).len());
                }
                return Err(());
            },
        }
        proof {
            lemma_ulebs_step(vals, j + 1);
            lemma_written_concat(b0, o0 as int, ulebs_bytes(vals.take(j + 1)), spec_encode_uleb128(vals[j + 1]));
            assert forall|i: int| 0 <= i < vals.take(j + 2).len() implies o0 + #[trigger] ulebs_bytes(
                vals.take(j + 2).take(i),
            ).len() + 5 <= u32::MAX by {
                if i < j + 1 {
                    assert(vals.take(j + 2).take(i) =~= vals.take(j + 1).take(i));
                } else {
                    assert(vals.take(j + 2).take(i) =~= vals.take(j + 1));
                }
            }
        }
        match write_uleb_checked(w, code_off) {
            Ok(()) => {},
            Err(()) => {
                assert(!ulebs_fit(vals, o0 as int)) by {
                    assert(ulebs_bytes(vals.take(j + 2)).len() == ulebs_bytes(vals.take(j + 2)).len());
                }
                return Err(());
            },
        }
        proof {
            lemma_ulebs_step(vals, j + 2);
            lemma_written_concat(b0, o0 as int, ulebs_bytes(vals.take(j + 2)), spec_encode_uleb128(vals[j + 2]));
            assert forall|i: int| 0 <= i < vals.take(j + 3).len() implies o0 + #[trigger] ulebs_bytes(
                vals.take(j + 3).take(i),
            ).len() + 5 <= u32::MAX by {
                if i < j + 2 {
                    assert(vals.take(j + 3).take(i) =~= vals.take(j + 2).take(i));
                } else {
                    assert(vals.take(j + 3).take(i) =~= vals.take(j + 2));
                }
            }
        }
        prev = idx;
        k += 1;
    }
    proof {
        assert(vals.take(3 * entries@.len() as int) =~= vals);
    }
    Ok(())
}

/// Writing `a` and then `b` as LEB128 values is writing `a + b`.
proof fn lemma_ulebs_bytes_add(a: Seq<u32>, b: Seq<u32>)
    ensures
        ulebs_bytes(a + b) == ulebs_bytes(a) + ulebs_bytes(b),
    decreases b.len(),
{
    if b.len() == 0 {
        assert(a + b =~= a);
        assert(ulebs_bytes(a) + ulebs_bytes(b) =~= ulebs_bytes(a));
    } else {
        lemma_ulebs_bytes_add(a, b.drop_last());
        assert((a + b).drop_last() =~= a + b.drop_last());
        assert((a + b).last() == b.last());
        assert(ulebs_bytes(a + b) =~= ulebs_bytes(a) + ulebs_bytes(b));
    }
}

proof fn lemma_ulebs_bytes_four(counts: Seq<u32>)
    requires
        counts.len() == 4,
    ensures
        ulebs_bytes(counts) == spec_encode_uleb128(counts[0]) + spec_encode_uleb128(counts[1])
            + spec_encode_uleb128(counts[2]) + spec_encode_uleb128(counts[3]),
{
    assert(counts.drop_last().drop_last().drop_last().drop_last() =~= Seq::<u32>::empty());
    reveal_with_fuel(ulebs_bytes, 5);
    assert(ulebs_bytes(counts) =~= spec_encode_uleb128(counts[0]) + spec_encode_uleb128(counts[1])
        + spec_encode_uleb128(counts[2]) + spec_encode_uleb128(counts[3]));
}

proof fn lemma_ulebs_bytes_five(a: Seq<u32>, b: Seq<u32>, c: Seq<u32>, d: Seq<u32>, e: Seq<u32>)
    ensures
        ulebs_bytes(a + b + c + d + e) == ulebs_bytes(a) + ulebs_bytes(b) + ulebs_bytes(c) + ulebs_bytes(d)
            + ulebs_bytes(e),
{
    lemma_ulebs_bytes_add(a, b);
    lemma_ulebs_bytes_add(a + b, c);
    lemma_ulebs_bytes_add(a + b + c, d);
    lemma_ulebs_bytes_add(a + b + c + d, e);
}

/// The values that the class data of `c` is written as: the numbers of its pooled static fields,
/// instance fields, direct methods and virtual methods, then the entries of each of these lists
/// sorted by index. The code offsets of its methods are those of `offsets`, direct methods first.
pub open spec fn class_data_values(p: DexPool, c: ClassEntry, offsets: Seq<Option<u32>>) -> Seq<u32> {
    let fi = p.field_pool.spec_items();
    let mi = p.method_pool.spec_items();
    let d = c.type_descriptor@;
    let st = sorted_by_index(pooled_fields(fi, d, c.static_fields@));
    let it = sorted_by_index(pooled_fields(fi, d, c.instance_fields@));
    let dm = sorted_by_index(pooled_methods(mi, d, c.direct_methods@, offsets, 0));
    let vm = sorted_by_index(pooled_methods(mi, d, c.virtual_methods@, offsets, c.direct_methods@.len() as int));
    seq![st.len() as u32, it.len() as u32, dm.len() as u32, vm.len() as u32] + field_entry_values(st)
        + field_entry_values(it) + method_entry_values(dm) + method_entry_values(vm)
}

/// `d` stands in `bytes` at `off`.
pub open spec fn bytes_placed(bytes: Seq<u8>, off: int, d: Seq<u8>) -> bool {
    &&& 0 <= off
    &&& off + d.len() <= bytes.len()
    &&& bytes.subrange(off, off + d.len()) == d
}

proof fn lemma_bytes_placed_kept(b1: Seq<u8>, b2: Seq<u8>, off: int, d: Seq<u8>, bound: int)
    requires
        bytes_placed(b1, off, d),
        keeps_below(b1, b2, bound),
        off + d.len() <= bound,
    ensures
        bytes_placed(b2, off, d),
{
    assert(b2.subrange(off, off + d.len()) =~= b1.subrange(off, off + d.len()));
}

/// A write of `more` that may be empty, in which case nothing changes.
proof fn lemma_written_so_far_more(b0: Seq<u8>, o0: int, acc: Seq<u8>, cur: Seq<u8>, more: Seq<u8>, next: Seq<u8>)
    requires
        0 <= o0,
        written_so_far(b0, o0, acc, cur),
        more.len() > 0 ==> next == written(cur, o0 + acc.len(), more),
        more.len() == 0 ==> next == cur,
    ensures
        written_so_far(b0, o0, acc + more, next),
{
    if more.len() > 0 {
        lemma_written_so_far_step(b0, o0, acc, cur, more);
    } else {
        assert(acc + more =~= acc);
    }
}

/// The fields among `fields` of class `desc` that `items` (the field pool) holds, in their order,
/// each as its index in the pool and its flags.
pub open spec fn pooled_fields(
    items: Seq<(Seq<char>, Seq<char>, Seq<char>)>,
    desc: Seq<char>,
    fields: Seq<FieldEntry>,
) -> Seq<(u32, u32)>
    decreases fields.len(),
{
    if fields.len() == 0 {
        Seq::empty()
    } else {
        let before = pooled_fields(items, desc, fields.drop_last());
        let f = fields.last();
        let key = (desc, f.name@, f.field_type@);
        if items.contains(key) {
            before.push((first_index(items, key) as u32, f.access_flags))
        } else {
            before
        }
    }
}

/// The code offset that `offsets` gives at `i`: the offset, or 0 where there is none.
pub open spec fn code_offset_at(offsets: Seq<Option<u32>>, i: int) -> u32 {
    match offsets[i] {
        Some(o) => o,
        None => 0,
    }
}

/// The methods among `methods` of class `desc` that `items` (the method pool) holds, in their
/// order, each as its index in the pool, its flags and its code offset, that of `offsets` from
/// `first` on.
pub open spec fn pooled_methods(
    items: Seq<(Seq<char>, Seq<char>, (Seq<char>, Seq<char>, Seq<Seq<char>>))>,
    desc: Seq<char>,
    methods: Seq<MethodEntry>,
    offsets: Seq<Option<u32>>,
    first: int,
) -> Seq<(u32, (u32, u32))>
    decreases methods.len(),
{
    if methods.len() == 0 {
        Seq::empty()
    } else {
        let before = pooled_methods(items, desc, methods.drop_last(), offsets, first);
        let m = methods.last();
        let key = (desc, m.name@, m.proto@);
        if items.contains(key) {
            before.push(
                (
                    first_index(items, key) as u32,
                    (m.access_flags, code_offset_at(offsets, first + methods.len() - 1)),
                ),
            )
        } else {
            before
        }
    }
}

impl DexPool {
    /// The pooled fields among `fields` of class `desc`, each with its index and flags.
    fn field_entries_of(&self, desc: &str, fields: &[FieldEntry]) -> (res: Vec<(u32, u32)>)
        requires
            self.wf(),
        ensures
            res@ == pooled_fields(self.field_pool.spec_items(), desc@, fields@),
    {
        let mut res: Vec<(u32, u32)> = Vec::new();
        let mut k: usize = 0;
        while k < fields.len()
            invariant
                self.wf(),
                k <= fields@.len(),
                res@ == pooled_fields(self.field_pool.spec_items(), desc@, fields@.take(k as int)),
            decreases fields.len() - k,
        {
            assert(fields@.take(k + 1).drop_last() =~= fields@.take(k as int));
            let f = &fields[k];
            match self.field_pool.get_index(desc, f.name.as_str(), f.field_type.as_str()) {
                Some(idx) => {
                    res.push((idx, f.access_flags));
                },
                None => {},
            }
            k += 1;
        }
        assert(fields@.take(fields@.len() as int) =~= fields@);
        res
    }

    /// The pooled methods among `methods` of class `desc`, each with its index, flags and code
    /// offset (that of `code_offsets` from `first`, or 0).
    fn method_entries_of(&self, desc: &str, methods: &[MethodEntry], code_offsets: &Vec<Option<u32>>, first: usize) -> (res: Vec<(u32, (u32, u32))>)
        requires
            self.wf(),
            first + methods@.len() <= code_offsets@.len(),
        ensures
            res@ == pooled_methods(self.method_pool.spec_items(), desc@, methods@, code_offsets@, first as int),
    {
        let mut res: Vec<(u32, (u32, u32))> = Vec::new();
        let total = code_offsets.len();
        let mut k: usize = 0;
        while k < methods.len()
            invariant
                self.wf(),
                k <= methods@.len(),
                first + methods@.len() <= code_offsets@.len(),
                total == code_offsets@.len(),
                res@ == pooled_methods(
                    self.method_pool.spec_items(),
                    desc@,
                    methods@.take(k as int),
                    code_offsets@,
                    first as int,
                ),
            decreases methods.len() - k,
        {
            assert(methods@.take(k + 1).drop_last() =~= methods@.take(k as int));
            let m = &methods[k];
            match self.method_pool.get_index(desc, m.name.as_str(), &m.proto) {
                Some(idx) => {
                    let code_off = match code_offsets[first + k] {
                        Some(o) => o,
                        None => 0,
                    };
                    res.push((idx, (m.access_flags, code_off)));
                },
                None => {},
            }
            k += 1;
        }
        assert(methods@.take(methods@.len() as int) =~= methods@);
        res
    }

    /// Writes the class data of `class`, whose methods have their code at `code`, direct methods
    /// first. Fails, with the writer stopped where the room ran out, where a value has no room.
    #[verifier::spinoff_prover]
    #[verifier::rlimit(100)]
    fn write_one_class_data<'a, D: DataStore>(&self, w: &mut DexWriter<'a, D>, class: &ClassEntry, code: &Vec<Option<u32>>) -> (res: Result<(), ()>)
        requires
            self.wf(),
            code@.len() == class.direct_methods@.len() + class.virtual_methods@.len(),
        ensures
            final(w).spec_offset() >= old(w).spec_offset(),
            keeps_below(old(w).spec_bytes(), final(w).spec_bytes(), old(w).spec_offset() as int),
            res is Err ==> final(w).spec_offset() + 5 > u32::MAX,
            res is Ok ==> ({
                let d = ulebs_bytes(class_data_values(*self, *class, code@));
                &&& d.len() >= 4
                &&& final(w).spec_offset() == old(w).spec_offset() + d.len()
                &&& final(w).spec_bytes() == written(old(w).spec_bytes(), old(w).spec_offset() as int, d)
            }),
            *final(final(w).data_store) == *final(old(w).data_store),
            final(w).spec_offset() == old(w).spec_offset() || final(w).spec_bytes().len() >= final(w).spec_offset(),
            final(w).spec_bytes().len() <= old(w).spec_bytes().len() || final(w).spec_bytes().len() <= final(w).spec_offset(),
    {
        let ghost b0 = w.spec_bytes();
        let ghost o0 = w.spec_offset();
        let desc = class.type_descriptor.as_str();
        let static_entries = sort_by_index(&self.field_entries_of(desc, class.static_fields.as_slice()));
        let instance_entries = sort_by_index(&self.field_entries_of(desc, class.instance_fields.as_slice()));
        let direct_entries = sort_by_index(&self.method_entries_of(desc, class.direct_methods.as_slice(), code, 0));
        let virtual_entries = sort_by_index(
            &self.method_entries_of(desc, class.virtual_methods.as_slice(), code, class.direct_methods.len()),
        );
        let ghost counts = seq![
            static_entries.len() as u32,
            instance_entries.len() as u32,
            direct_entries.len() as u32,
            virtual_entries.len() as u32,
        ];
        let ghost mut acc: Seq<u8> = Seq::empty();
        let ghost cur = w.spec_bytes();
        write_uleb_checked(w, static_entries.len() as u32)?;
        proof {
            lemma_uleb128_encoded_len(static_entries.len() as u32);
            lemma_written_so_far_step(b0, o0 as int, acc, cur, spec_encode_uleb128(counts[0]));
            acc = acc + spec_encode_uleb128(counts[0]);
        }
        let ghost cur = w.spec_bytes();
        write_uleb_checked(w, instance_entries.len() as u32)?;
        proof {
            lemma_uleb128_encoded_len(instance_entries.len() as u32);
            lemma_written_so_far_step(b0, o0 as int, acc, cur, spec_encode_uleb128(counts[1]));
            acc = acc + spec_encode_uleb128(counts[1]);
        }
        let ghost cur = w.spec_bytes();
        write_uleb_checked(w, direct_entries.len() as u32)?;
        proof {
            lemma_uleb128_encoded_len(direct_entries.len() as u32);
            lemma_written_so_far_step(b0, o0 as int, acc, cur, spec_encode_uleb128(counts[2]));
            acc = acc + spec_encode_uleb128(counts[2]);
        }
        let ghost cur = w.spec_bytes();
        write_uleb_checked(w, virtual_entries.len() as u32)?;
        proof {
            lemma_uleb128_encoded_len(virtual_entries.len() as u32);
            lemma_written_so_far_step(b0, o0 as int, acc, cur, spec_encode_uleb128(counts[3]));
            acc = acc + spec_encode_uleb128(counts[3]);
            lemma_ulebs_bytes_four(counts);
            assert(acc =~= ulebs_bytes(counts));
            acc = ulebs_bytes(counts);
        }
        let ghost cur = w.spec_bytes();
        write_field_entries(w, &static_entries)?;
        proof {
            lemma_written_so_far_more(b0, o0 as int, acc, cur, ulebs_bytes(field_entry_values(static_entries@)), w.spec_bytes());
            acc = acc + ulebs_bytes(field_entry_values(static_entries@));
        }
        let ghost cur = w.spec_bytes();
        write_field_entries(w, &instance_entries)?;
        proof {
            lemma_written_so_far_more(b0, o0 as int, acc, cur, ulebs_bytes(field_entry_values(instance_entries@)), w.spec_bytes());
            acc = acc + ulebs_bytes(field_entry_values(instance_entries@));
        }
        let ghost cur = w.spec_bytes();
        write_method_entries(w, &direct_entries)?;
        proof {
            lemma_written_so_far_more(b0, o0 as int, acc, cur, ulebs_bytes(method_entry_values(direct_entries@)), w.spec_bytes());
            acc = acc + ulebs_bytes(method_entry_values(direct_entries@));
        }
        let ghost cur = w.spec_bytes();
        write_method_entries(w, &virtual_entries)?;
        proof {
            lemma_written_so_far_more(b0, o0 as int, acc, cur, ulebs_bytes(method_entry_values(virtual_entries@)), w.spec_bytes());
            acc = acc + ulebs_bytes(method_entry_values(virtual_entries@));
            let f1 = field_entry_values(static_entries@);
            let f2 = field_entry_values(instance_entries@);
            let m1 = method_entry_values(direct_entries@);
            let m2 = method_entry_values(virtual_entries@);
            lemma_ulebs_bytes_five(counts, f1, f2, m1, m2);
            assert(class_data_values(*self, *class, code@) == counts + f1 + f2 + m1 + m2);
        }
        Ok(())
    }

    /// Writes the class data of each class that has fields or methods; returns where each went.
    fn write_class_data<'a, D: DataStore>(&self, w: &mut DexWriter<'a, D>, code_offsets: &Vec<Vec<Option<u32>>>) -> (res: Result<Vec<Option<u32>>, ()>)
        requires
            self.wf(),
            code_offsets@.len() == n_classes(*self),
            forall|ci: int| 0 <= ci < code_offsets@.len() ==> #[trigger] code_offsets@[ci]@.len()
                == self.class_pool.spec_classes()[ci].direct_methods@.len()
                + self.class_pool.spec_classes()[ci].virtual_methods@.len(),
        ensures
            final(w).spec_offset() >= old(w).spec_offset(),
            keeps_below(old(w).spec_bytes(), final(w).spec_bytes(), old(w).spec_offset() as int),
            res matches Ok(offs) ==> offs@.len() == n_classes(*self),
            res matches Ok(offs) ==> forall|ci: int|
                0 <= ci < offs@.len() ==> (#[trigger] offs@[ci] is Some <==> class_has_members(
                    self.class_pool.spec_classes()[ci],
                )),
            res matches Ok(offs) ==> forall|ci: int|
                0 <= ci < offs@.len() && #[trigger] offs@[ci] is Some ==> old(w).spec_offset()
                    <= offs@[ci]->0 < final(w).spec_offset(),
            res matches Ok(offs) ==> forall|a: int, b: int|
                0 <= a < b < offs@.len() && #[trigger] offs@[a] is Some && #[trigger] offs@[b] is Some
                    ==> offs@[a]->0 < offs@[b]->0,
            res matches Ok(offs) ==> forall|ci: int|
                0 <= ci < offs@.len() ==> match #[trigger] offs@[ci] {
                    Some(o) => bytes_placed(
                        final(w).spec_bytes(),
                        o as int,
                        ulebs_bytes(class_data_values(*self, self.class_pool.spec_classes()[ci], code_offsets@[ci]@)),
                    ),
                    None => true,
                },
            res is Err ==> final(w).spec_offset() + 5 > u32::MAX,
            *final(final(w).data_store) == *final(old(w).data_store),
            final(w).spec_offset() == old(w).spec_offset() || final(w).spec_bytes().len() >= final(w).spec_offset(),
            final(w).spec_bytes().len() <= old(w).spec_bytes().len() || final(w).spec_bytes().len() <= final(w).spec_offset(),
    {
        let ghost b0 = w.spec_bytes();
        let ghost o0 = w.spec_offset();
        let n = self.class_pool.count();
        let mut offs: Vec<Option<u32>> = Vec::new();
        let mut ci: u32 = 0;
        while ci < n
            invariant
                w.spec_bytes().len() <= old(w).spec_bytes().len() || w.spec_bytes().len() <= w.spec_offset(),
                w.spec_offset() == old(w).spec_offset() || w.spec_bytes().len() >= w.spec_offset(),
                *final(w.data_store) == *final(old(w).data_store),
                w.spec_offset() >= o0,
                o0 == old(w).spec_offset(),
                b0 == old(w).spec_bytes(),
                keeps_below(b0, w.spec_bytes(), o0 as int),
                self.wf(),
                n == self.class_pool.spec_classes().len() as u32,
                code_offsets@.len() == n,
                forall|c: int| 0 <= c < code_offsets@.len() ==> #[trigger] code_offsets@[c]@.len()
                    == self.class_pool.spec_classes()[c].direct_methods@.len()
                    + self.class_pool.spec_classes()[c].virtual_methods@.len(),
                ci <= n,
                offs@.len() == ci,
                forall|c: int|
                    0 <= c < offs@.len() ==> (#[trigger] offs@[c] is Some <==> class_has_members(
                        self.class_pool.spec_classes()[c],
                    )),
                forall|c: int|
                    0 <= c < offs@.len() && #[trigger] offs@[c] is Some ==> o0 <= offs@[c]->0
                        < w.spec_offset(),
                forall|a: int, b: int|
                    0 <= a < b < offs@.len() && #[trigger] offs@[a] is Some && #[trigger] offs@[b] is Some
                        ==> offs@[a]->0 < offs@[b]->0,
                forall|c: int|
                    0 <= c < offs@.len() ==> match #[trigger] offs@[c] {
                        Some(o) => bytes_placed(
                            w.spec_bytes(),
                            o as int,
                            ulebs_bytes(class_data_values(*self, self.class_pool.spec_classes()[c], code_offsets@[c]@)),
                        ) && o + ulebs_bytes(
                            class_data_values(*self, self.class_pool.spec_classes()[c], code_offsets@[c]@),
                        ).len() <= w.spec_offset(),
                        None => true,
                    },
            decreases n - ci,
        {
            let ghost offs0 = offs@;
            let ghost start = w.spec_offset();
            let class = match self.class_pool.get(ci) {
                Some(c) => c,
                None => {
                    return Err(());
                },
            };
            let has_fields = class.static_fields.len() > 0 || class.instance_fields.len() > 0;
            let has_methods = class.direct_methods.len() > 0 || class.virtual_methods.len() > 0;
            if !has_fields && !has_methods {
                offs.push(None);
                assert(offs@ == offs0.push(None));
            } else {
                offs.push(Some(w.current_offset()));
                assert(offs@ == offs0.push(Some(start)));
                let code = &code_offsets[ci as usize];
                assert(code@.len() == class.direct_methods@.len() + class.virtual_methods@.len());
                let ghost before = w.spec_bytes();
                self.write_one_class_data(w, class, code)?;
                proof {
                    let d = ulebs_bytes(class_data_values(*self, *class, code@));
                    lemma_written_reads_back(before, start as int, d);
                    lemma_written_keeps_below(before, start as int, d);
                    assert forall|c: int| 0 <= c < ci implies match #[trigger] offs@[c] {
                        Some(o) => bytes_placed(
                            w.spec_bytes(),
                            o as int,
                            ulebs_bytes(class_data_values(*self, self.class_pool.spec_classes()[c], code_offsets@[c]@)),
                        ) && o + ulebs_bytes(
                            class_data_values(*self, self.class_pool.spec_classes()[c], code_offsets@[c]@),
                        ).len() <= start,
                        None => true,
                    } by {
                        assert(offs@[c] == offs0[c]);
                        if let Some(o) = offs0[c] {
                            lemma_bytes_placed_kept(
                                before,
                                w.spec_bytes(),
                                o as int,
                                ulebs_bytes(class_data_values(*self, self.class_pool.spec_classes()[c], code_offsets@[c]@)),
                                start as int,
                            );
                        }
                    }
                    assert(bytes_placed(w.spec_bytes(), start as int, d));
                }
            }
            ci += 1;
        }
        Ok(offs)
    }
}


/// The message of the error that a file too large for 32-bit offsets gives.
pub open spec fn too_large_message() -> Seq<char> {
    "DEX file is too large for 32-bit offsets"@
}

fn too_large() -> (res: String)
    ensures
        res@ == too_large_message(),
{
    crate::base::text::text("DEX file is too large for 32-bit offsets")
}

/// `n` zero bytes.
fn zero_bytes(n: usize) -> (res: Vec<u8>)
    ensures
        res@ == Seq::new(n as nat, |i: int| 0u8),
{
    let mut res: Vec<u8> = Vec::new();
    let mut k: usize = 0;
    while k < n
        invariant
            k <= n,
            res@ == Seq::new(k as nat, |i: int| 0u8),
        decreases n - k,
    {
        res.push(0);
        assert(res@ =~= Seq::new((k + 1) as nat, |i: int| 0u8));
        k += 1;
    }
    res
}

/// The bytes of `b` from `from` to `to`.
fn bytes_range(b: &[u8], from: usize, to: usize) -> (res: Vec<u8>)
    requires
        from <= to <= b@.len(),
    ensures
        res@ == b@.subrange(from as int, to as int),
{
    let mut res: Vec<u8> = Vec::new();
    append_range(&mut res, b, from, to);
    assert(res@ =~= b@.subrange(from as int, to as int));
    res
}

/// Appends the bytes of `b` from `from` to `to`.
fn append_range(v: &mut Vec<u8>, b: &[u8], from: usize, to: usize)
    requires
        from <= to <= b@.len(),
    ensures
        final(v)@ == old(v)@ + b@.subrange(from as int, to as int),
{
    let mut k: usize = from;
    while k < to
        invariant
            from <= k <= to,
            to <= b@.len(),
            v@ == old(v)@ + b@.subrange(from as int, k as int),
        decreases to - k,
    {
        v.push(b[k]);
        assert(v@ =~= old(v)@ + b@.subrange(from as int, k + 1));
        k += 1;
    }
}

fn copy_bytes(b: &[u8]) -> (res: Vec<u8>)
    ensures
        res@ == b@,
{
    let mut res: Vec<u8> = Vec::new();
    let mut k: usize = 0;
    while k < b.len()
        invariant
            k <= b@.len(),
            res@ == b@.take(k as int),
        decreases b.len() - k,
    {
        res.push(b[k]);
        assert(res@ =~= b@.take(k + 1));
        k += 1;
    }
    assert(b@.take(b@.len() as int) =~= b@);
    res
}

impl DexPool {
    /// The header bytes of a file of `file_size` bytes, for section offsets that fit 32 bits.
    fn header_vec(&self, file_size: u32, checksum: u32, signature: &[u8]) -> (res: Vec<u8>)
        requires
            data_start(*self) <= file_size,
            signature@.len() == 20,
        ensures
            res@ == header_bytes(*self, file_size, checksum, signature@),
    {
        let ns = self.string_pool.count();
        let nt = self.type_pool.count();
        let np = self.proto_pool.count();
        let nf = self.field_pool.count();
        let nm = self.method_pool.count();
        let nc = self.class_pool.count();
        let type_ids_off: u32 = 0x70 + 4 * ns;
        let proto_ids_off: u32 = type_ids_off + 4 * nt;
        let field_ids_off: u32 = proto_ids_off + 12 * np;
        let method_ids_off: u32 = field_ids_off + 8 * nf;
        let class_defs_off: u32 = method_ids_off + 8 * nm;
        let data_start: u32 = class_defs_off + 32 * nc;
        let mut h: Vec<u8> = Vec::new();
        h.push(0x64);
        h.push(0x65);
        h.push(0x78);
        h.push(0x0a);
        h.push(0x30);
        h.push(0x33);
        h.push(0x35);
        h.push(0x00);
        assert(h@ =~= dex_magic());
        push_u32_le(&mut h, checksum);
        let ghost before = h@;
        let mut k: usize = 0;
        while k < 20
            invariant
                k <= 20,
                signature@.len() == 20,
                h@ == before + signature@.take(k as int),
            decreases 20 - k,
        {
            h.push(signature[k]);
            assert(h@ =~= before + signature@.take(k + 1));
            k += 1;
        }
        assert(signature@.take(20) =~= signature@);
        push_u32_le(&mut h, file_size);
        push_u32_le(&mut h, 0x70);
        push_u32_le(&mut h, 0x12345678);
        push_u32_le(&mut h, 0);
        push_u32_le(&mut h, 0);
        push_u32_le(&mut h, 0);
        assert(h@ =~= header_start(file_size, checksum, signature@));
        let ghost start = h@;
        let mut fields: Vec<u32> = Vec::new();
        fields.push(ns);
        fields.push(0x70);
        fields.push(nt);
        fields.push(type_ids_off);
        fields.push(np);
        fields.push(proto_ids_off);
        fields.push(nf);
        fields.push(field_ids_off);
        fields.push(nm);
        fields.push(method_ids_off);
        fields.push(nc);
        fields.push(class_defs_off);
        fields.push(file_size - data_start);
        fields.push(data_start);
        assert(fields@ =~= header_fields(*self, file_size));
        let mut k: usize = 0;
        while k < fields.len()
            invariant
                k <= fields@.len(),
                h@ == start + le32_list(fields@.take(k as int)),
            decreases fields.len() - k,
        {
            push_u32_le(&mut h, fields[k]);
            proof {
                assert(fields@.take(k + 1).drop_last() =~= fields@.take(k as int));
                assert(fields@.take(k + 1).last() == fields@[k as int]);
                assert(h@ =~= start + le32_list(fields@.take(k + 1)));
            }
            k += 1;
        }
        assert(fields@.take(fields@.len() as int) =~= fields@);
        h
    }

    /// The bytes of the id sections and class definitions, from the string ids to the end of the
    /// class definitions.
    fn id_sections(
        &self,
        string_offs: &Vec<u32>,
        proto_offs: &Vec<Option<u32>>,
        list_offs: &Vec<Option<u32>>,
        data_offs: &Vec<Option<u32>>,
    ) -> (res: Vec<u8>)
        requires
            self.wf(),
            string_offs@.len() == n_strings(*self),
            proto_offs@.len() == n_protos(*self),
            list_offs@.len() == n_classes(*self),
            data_offs@.len() == n_classes(*self),
        ensures
            res@.len() == data_start(*self) - 0x70,
            res@.subrange(0, 4 * n_strings(*self)) == le32_list(string_offs@),
            res@.subrange(4 * n_strings(*self), 4 * n_strings(*self) + 4 * n_types(*self)) == le32_list(
                type_string_indices(*self),
            ),
            res@.subrange(class_defs_off(*self) - 0x70, data_start(*self) - 0x70) == le32_list(
                class_def_words(*self, list_offs@, data_offs@),
            ),
            forall|k: int|
                0 <= k < n_protos(*self) ==> res@.subrange(
                    proto_ids_off(*self) - 0x70 + 12 * k,
                    proto_ids_off(*self) - 0x70 + 12 * k + 12,
                ) == #[trigger] proto_id_bytes(*self, proto_offs@, k),
            forall|k: int|
                0 <= k < n_fields(*self) ==> res@.subrange(
                    field_ids_off(*self) - 0x70 + 8 * k,
                    field_ids_off(*self) - 0x70 + 8 * k + 8,
                ) == #[trigger] field_id_bytes(*self, k),
            forall|k: int|
                0 <= k < n_methods(*self) ==> res@.subrange(
                    method_ids_off(*self) - 0x70 + 8 * k,
                    method_ids_off(*self) - 0x70 + 8 * k + 8,
                ) == #[trigger] method_id_bytes(*self, k),
    {
        let mut ids: Vec<u8> = Vec::new();
        let mut i: usize = 0;
        while i < string_offs.len()
            invariant
                i <= string_offs@.len(),
                ids@ == le32_list(string_offs@.take(i as int)),
            decreases string_offs.len() - i,
        {
            proof {
                assert(string_offs@.take(i + 1).drop_last() =~= string_offs@.take(i as int));
            }
            push_u32_le(&mut ids, string_offs[i]);
            i += 1;
        }
        proof {
            assert(string_offs@.take(string_offs@.len() as int) =~= string_offs@);
            lemma_le32_list_len(string_offs@);
        }
        let ghost sids = ids@;
        let ghost base = ids@.len();
        let nt = self.type_pool.count();
        let mut i: u32 = 0;
        while i < nt
            invariant
                self.wf(),
                nt == self.type_pool.spec_items().len() as u32,
                nt == n_types(*self),
                i <= nt,
                ids@ == sids + le32_list(type_string_indices(*self).take(i as int)),
            decreases nt - i,
        {
            let string_idx = match self.type_pool.get(i) {
                Some(t) => match self.string_pool.get_index(t) {
                    Some(x) => x,
                    None => 0,
                },
                None => 0,
            };
            proof {
                assert(type_string_indices(*self).take(i + 1).drop_last() =~= type_string_indices(*self).take(i as int));
                assert(string_idx == type_string_indices(*self)[i as int]);
            }
            let ghost before = ids@;
            push_u32_le(&mut ids, string_idx);
            proof {
                assert(ids@ =~= sids + le32_list(type_string_indices(*self).take(i + 1)));
            }
            i += 1;
        }
        proof {
            assert(type_string_indices(*self).take(nt as int) =~= type_string_indices(*self));
            lemma_le32_list_len(type_string_indices(*self));
        }
        let ghost pre = ids@;
        let ghost base = ids@.len();
        let np = self.proto_pool.count();
        let mut i: u32 = 0;
        while i < np
            invariant
                pre.len() <= ids@.len(),
                ids@.subrange(0, pre.len() as int) == pre,
                self.wf(),
                np == self.proto_pool.spec_items().len() as u32,
                proto_offs@.len() == np,
                i <= np,
                ids@.len() == base + 12 * i,
                forall|k: int|
                    0 <= k < i ==> ids@.subrange(base + 12 * k, base + 12 * k + 12) == #[trigger] proto_id_bytes(
                        *self,
                        proto_offs@,
                        k,
                    ),
            decreases np - i,
        {
            let (shorty_idx, return_type_idx) = match self.proto_pool.get(i) {
                Some(proto) => (
                    match self.string_pool.get_index(proto.shorty.as_str()) {
                        Some(x) => x,
                        None => 0,
                    },
                    match self.type_pool.get_index(proto.return_type.as_str()) {
                        Some(x) => x,
                        None => 0,
                    },
                ),
                None => (0, 0),
            };
            let parameters_off = match proto_offs[i as usize] {
                Some(o) => o,
                None => 0,
            };
            proof {
                assert(shorty_idx == string_index_or_zero(*self, self.proto_pool.spec_items()[i as int].0));
                assert(return_type_idx == type_index_or_zero(*self, self.proto_pool.spec_items()[i as int].1));
            }
            let ghost before = ids@;
            push_u32_le(&mut ids, shorty_idx);
            push_u32_le(&mut ids, return_type_idx);
            push_u32_le(&mut ids, parameters_off);
            proof {
                assert(ids@.subrange(0, pre.len() as int) =~= pre);
                assert(ids@.subrange(base + 12 * i, base + 12 * i + 12) =~= proto_id_bytes(*self, proto_offs@, i as int));
                assert forall|k: int| 0 <= k < i implies ids@.subrange(base + 12 * k, base + 12 * k + 12)
                    == #[trigger] proto_id_bytes(*self, proto_offs@, k) by {
                    assert(ids@.subrange(base + 12 * k, base + 12 * k + 12) =~= before.subrange(
                        base + 12 * k,
                        base + 12 * k + 12,
                    ));
                }
            }
            i += 1;
        }
        let ghost pbase = base;
        let ghost pre_p = ids@;
        assert(pre_p.subrange(0, pre.len() as int) == pre);
        let ghost base = ids@.len();
        let nf = self.field_pool.count();
        let mut i: u32 = 0;
        while i < nf
            invariant
                pre_p.len() <= ids@.len(),
                ids@.subrange(0, pre_p.len() as int) == pre_p,
                self.wf(),
                nf == self.field_pool.spec_items().len() as u32,
                i <= nf,
                ids@.len() == base + 8 * i,
                forall|k: int|
                    0 <= k < i ==> ids@.subrange(base + 8 * k, base + 8 * k + 8) == #[trigger] field_id_bytes(
                        *self,
                        k,
                    ),
            decreases nf - i,
        {
            let (class_idx, type_idx, name_idx) = match self.field_pool.get(i) {
                Some(f) => (
                    match self.type_pool.get_index(f.defining_class.as_str()) {
                        Some(x) => x,
                        None => 0,
                    } as u16,
                    match self.type_pool.get_index(f.field_type.as_str()) {
                        Some(x) => x,
                        None => 0,
                    } as u16,
                    match self.string_pool.get_index(f.name.as_str()) {
                        Some(x) => x,
                        None => 0,
                    },
                ),
                None => (0, 0, 0),
            };
            proof {
                assert(class_idx == type_index_or_zero(*self, self.field_pool.spec_items()[i as int].0) as u16);
                assert(type_idx == type_index_or_zero(*self, self.field_pool.spec_items()[i as int].2) as u16);
                assert(name_idx == string_index_or_zero(*self, self.field_pool.spec_items()[i as int].1));
            }
            let ghost before = ids@;
            push_u16_le(&mut ids, class_idx);
            push_u16_le(&mut ids, type_idx);
            push_u32_le(&mut ids, name_idx);
            proof {
                assert(ids@.subrange(0, pre_p.len() as int) =~= pre_p);
                assert(ids@.subrange(base + 8 * i, base + 8 * i + 8) =~= field_id_bytes(*self, i as int));
                assert forall|k: int| 0 <= k < i implies ids@.subrange(base + 8 * k, base + 8 * k + 8)
                    == #[trigger] field_id_bytes(*self, k) by {
                    assert(ids@.subrange(base + 8 * k, base + 8 * k + 8) =~= before.subrange(base + 8 * k, base + 8 * k + 8));
                }
            }
            i += 1;
        }
        let ghost fbase = base;
        let ghost pre_f = ids@;
        assert(pre_f.subrange(0, pre_p.len() as int) == pre_p);
        let ghost base = ids@.len();
        let nm = self.method_pool.count();
        let mut i: u32 = 0;
        while i < nm
            invariant
                pre_f.len() <= ids@.len(),
                ids@.subrange(0, pre_f.len() as int) == pre_f,
                self.wf(),
                nm == self.method_pool.spec_items().len() as u32,
                i <= nm,
                ids@.len() == base + 8 * i,
                forall|k: int|
                    0 <= k < i ==> ids@.subrange(base + 8 * k, base + 8 * k + 8) == #[trigger] method_id_bytes(
                        *self,
                        k,
                    ),
            decreases nm - i,
        {
            let (class_idx, proto_idx, name_idx) = match self.method_pool.get(i) {
                Some(m) => (
                    match self.type_pool.get_index(m.defining_class.as_str()) {
                        Some(x) => x,
                        None => 0,
                    } as u16,
                    match self.proto_pool.get_index(
                        m.proto.shorty.as_str(),
                        m.proto.return_type.as_str(),
                        m.proto.parameters.as_slice(),
                    ) {
                        Some(x) => x,
                        None => 0,
                    } as u16,
                    match self.string_pool.get_index(m.name.as_str()) {
                        Some(x) => x,
                        None => 0,
                    },
                ),
                None => (0, 0, 0),
            };
            proof {
                assert(class_idx == type_index_or_zero(*self, self.method_pool.spec_items()[i as int].0) as u16);
                assert(proto_idx == proto_index_or_zero(*self, self.method_pool.spec_items()[i as int].2) as u16);
                assert(name_idx == string_index_or_zero(*self, self.method_pool.spec_items()[i as int].1));
            }
            let ghost before = ids@;
            push_u16_le(&mut ids, class_idx);
            push_u16_le(&mut ids, proto_idx);
            push_u32_le(&mut ids, name_idx);
            proof {
                assert(ids@.subrange(0, pre_f.len() as int) =~= pre_f);
                assert(ids@.subrange(base + 8 * i, base + 8 * i + 8) =~= method_id_bytes(*self, i as int));
                assert forall|k: int| 0 <= k < i implies ids@.subrange(base + 8 * k, base + 8 * k + 8)
                    == #[trigger] method_id_bytes(*self, k) by {
                    assert(ids@.subrange(base + 8 * k, base + 8 * k + 8) =~= before.subrange(base + 8 * k, base + 8 * k + 8));
                }
            }
            i += 1;
        }
        let ghost mbase = base;
        let ghost pre_m = ids@;
        let ghost base = ids@.len();
        let nc = self.class_pool.count();
        let mut words: Vec<u32> = Vec::new();
        let mut ci: u32 = 0;
        while ci < nc
            invariant
                self.wf(),
                nc == self.class_pool.spec_classes().len() as u32,
                nc == n_classes(*self),
                list_offs@.len() == nc,
                data_offs@.len() == nc,
                ci <= nc,
                words@ == class_def_words(*self, list_offs@, data_offs@).take(8 * ci),
            decreases nc - ci,
        {
            let (class_idx, access_flags, superclass_idx, source_file_idx) = match self.class_pool.get(ci) {
                Some(class) => (
                    match self.type_pool.get_index(class.type_descriptor.as_str()) {
                        Some(x) => x,
                        None => 0,
                    },
                    class.access_flags,
                    match class.superclass_idx {
                        Some(x) => x,
                        None => 0xFFFF_FFFF,
                    },
                    match &class.source_file {
                        Some(sf) => match self.string_pool.get_index(sf.as_str()) {
                            Some(x) => x,
                            None => 0xFFFF_FFFF,
                        },
                        None => 0xFFFF_FFFF,
                    },
                ),
                None => (0, 0, 0xFFFF_FFFF, 0xFFFF_FFFF),
            };
            let interfaces_off = match list_offs[ci as usize] {
                Some(o) => o,
                None => 0,
            };
            let class_data_off = match data_offs[ci as usize] {
                Some(o) => o,
                None => 0,
            };
            words.push(class_idx);
            words.push(access_flags);
            words.push(superclass_idx);
            words.push(interfaces_off);
            words.push(source_file_idx);
            words.push(0);
            words.push(class_data_off);
            words.push(0);
            proof {
                let all = class_def_words(*self, list_offs@, data_offs@);
                assert(words@ =~= all.take(8 * ci + 8)) by {
                    assert forall|w: int| 8 * ci <= w < 8 * ci + 8 implies words@[w] == all[w] by {
                        assert(w / 8 == ci);
                    }
                }
            }
            ci += 1;
        }
        proof {
            assert(class_def_words(*self, list_offs@, data_offs@).take(8 * nc) =~= class_def_words(
                *self,
                list_offs@,
                data_offs@,
            ));
        }
        let table = le32_bytes(&words);
        proof {
            lemma_le32_list_len(words@);
            assert(base == class_defs_off(*self) - 0x70);
        }
        let mut k: usize = 0;
        while k < table.len()
            invariant
                pre_m.len() <= ids@.len(),
                ids@.subrange(0, pre_m.len() as int) == pre_m,
                ids@.len() == base + k,
                k <= table@.len(),
                ids@.subrange(base as int, base + k) == table@.take(k as int),
            decreases table.len() - k,
        {
            ids.push(table[k]);
            proof {
                assert(ids@.subrange(0, pre_m.len() as int) =~= pre_m);
                assert(ids@.subrange(base as int, base + k + 1) =~= table@.take(k + 1));
            }
            k += 1;
        }
        proof {
            assert(table@.take(table@.len() as int) =~= table@);
            assert(ids@.subrange(0, pre_f.len() as int) =~= pre_f) by {
                assert(ids@.subrange(0, pre_f.len() as int) =~= ids@.subrange(0, pre_m.len() as int).subrange(0, pre_f.len() as int));
            }
            assert(ids@.subrange(0, pre_p.len() as int) =~= pre_p) by {
                assert(ids@.subrange(0, pre_p.len() as int) =~= ids@.subrange(0, pre_f.len() as int).subrange(0, pre_p.len() as int));
            }
            assert(ids@.subrange(0, pre.len() as int) =~= pre) by {
                assert(ids@.subrange(0, pre.len() as int) =~= ids@.subrange(0, pre_p.len() as int).subrange(0, pre.len() as int));
            }
            assert(pbase == proto_ids_off(*self) - 0x70);
            assert forall|k: int| 0 <= k < n_protos(*self) implies ids@.subrange(pbase + 12 * k, pbase + 12 * k + 12)
                == #[trigger] proto_id_bytes(*self, proto_offs@, k) by {
                assert(ids@.subrange(pbase + 12 * k, pbase + 12 * k + 12) =~= pre_p.subrange(pbase + 12 * k, pbase + 12 * k + 12));
            }
            let a = 4 * n_strings(*self);
            let b = a + 4 * n_types(*self);
            assert(ids@.subrange(a, b) =~= ids@.subrange(0, pre.len() as int).subrange(a, b));
            assert(pre.subrange(a, b) =~= le32_list(type_string_indices(*self)));
            assert(fbase == field_ids_off(*self) - 0x70);
            assert(mbase == method_ids_off(*self) - 0x70);
            assert forall|k: int| 0 <= k < n_fields(*self) implies ids@.subrange(fbase + 8 * k, fbase + 8 * k + 8)
                == #[trigger] field_id_bytes(*self, k) by {
                assert(ids@.subrange(fbase + 8 * k, fbase + 8 * k + 8) =~= pre_f.subrange(fbase + 8 * k, fbase + 8 * k + 8));
            }
            assert forall|k: int| 0 <= k < n_methods(*self) implies ids@.subrange(mbase + 8 * k, mbase + 8 * k + 8)
                == #[trigger] method_id_bytes(*self, k) by {
                assert(ids@.subrange(mbase + 8 * k, mbase + 8 * k + 8) =~= pre_m.subrange(mbase + 8 * k, mbase + 8 * k + 8));
            }
        }
        ids
    }

    /// Where the data section starts, where that fits 32 bits.
    fn data_layout(&self) -> (res: Option<u32>)
        ensures
            res == if data_start(*self) <= u32::MAX {
                Some(data_start(*self) as u32)
            } else {
                None
            },
    {
        let ns = self.string_pool.count() as u64;
        let nt = self.type_pool.count() as u64;
        let np = self.proto_pool.count() as u64;
        let nf = self.field_pool.count() as u64;
        let nm = self.method_pool.count() as u64;
        let nc = self.class_pool.count() as u64;
        let data_start: u64 = 0x70 + 4 * ns + 4 * nt + 12 * np + 8 * nf + 8 * nm + 32 * nc;
        if data_start > 0xFFFF_FFFF {
            None
        } else {
            Some(data_start as u32)
        }
    }

    /// Writes the data section; returns where the string data, parameter lists, interface lists
    /// and class data went.
    fn write_data_sections<'a, D: DataStore>(&self, writer: &mut DexWriter<'a, D>) -> (res: Result<
        (Vec<u32>, Vec<Option<u32>>, Vec<Option<u32>>, Vec<Option<u32>>),
        (),
    >)
        requires
            self.wf(),
            code_writable(*self),
            virtual_code_writable(*self),
        ensures
            final(writer).spec_offset() >= old(writer).spec_offset(),
            keeps_below(old(writer).spec_bytes(), final(writer).spec_bytes(), old(writer).spec_offset() as int),
            res matches Ok(v) ==> v.0@.len() == n_strings(*self) && v.1@.len() == n_protos(*self)
                && v.2@.len() == n_classes(*self) && v.3@.len() == n_classes(*self) && strings_placed(
                *self,
                final(writer).spec_bytes(),
                v.0@,
                old(writer).spec_offset() as int,
                final(writer).spec_bytes().len() as int,
            ) && param_lists_placed(
                *self,
                final(writer).spec_bytes(),
                v.1@,
                old(writer).spec_offset() as int,
                final(writer).spec_bytes().len() as int,
            ) && interface_lists_placed(
                *self,
                final(writer).spec_bytes(),
                v.2@,
                old(writer).spec_offset() as int,
                final(writer).spec_bytes().len() as int,
            ),
            res matches Ok(v) ==> forall|i: int|
                0 <= i < v.0@.len() ==> #[trigger] v.0@[i] == old(writer).spec_offset() + string_data_total(
                    self.string_pool.spec_items().take(i),
                ),
            res matches Ok(v) ==> forall|ci: int|
                0 <= ci < v.3@.len() ==> (#[trigger] v.3@[ci] is Some <==> class_has_members(
                    self.class_pool.spec_classes()[ci],
                )),
            res matches Ok(v) ==> exists|code: Seq<Vec<Option<u32>>>|
                #[trigger] code_and_class_data_placed(*self, final(writer).spec_bytes(), code, v.3@),
            res is Err ==> data_sections_fail(*self, old(writer).spec_offset() as int, final(writer).spec_offset() as int),
            *final(final(writer).data_store) == *final(old(writer).data_store),
            final(writer).spec_offset() == old(writer).spec_offset() || final(writer).spec_bytes().len() >= final(writer).spec_offset(),
            final(writer).spec_bytes().len() <= old(writer).spec_bytes().len() || final(writer).spec_bytes().len() <= final(writer).spec_offset(),
    {
        let ghost b0 = writer.spec_bytes();
        let ghost o0 = writer.spec_offset();
        let string_offs = match self.write_string_data_section(writer) {
            Ok(v) => v,
            Err(()) => {
                assert(exists|i: int|
                    #![trigger string_data_fits(self.string_pool.spec_items(), i, o0 as int)]
                    0 <= i < n_strings(*self) && !string_data_fits(self.string_pool.spec_items(), i, o0 as int));
                return Err(());
            },
        };
        let ghost bs = writer.spec_bytes();
        let ghost os = writer.spec_offset();
        let proto_offs = self.write_proto_params(writer)?;
        let ghost bp = writer.spec_bytes();
        let ghost op = writer.spec_offset();
        let list_offs = self.write_interface_lists(writer)?;
        let ghost bl = writer.spec_bytes();
        let ghost ol = writer.spec_offset();
        let code_offs = self.write_code_items(writer)?;
        let ghost bc = writer.spec_bytes();
        let ghost oc = writer.spec_offset();
        let data_offs = self.write_class_data(writer, &code_offs)?;
        proof {
            let bf = writer.spec_bytes();
            let classes = self.class_pool.spec_classes();
            assert forall|ci: int, k: int|
                0 <= ci < code_offs@.len() && 0 <= k < code_offs@[ci]@.len() implies match #[trigger] code_offs@[ci]@[k] {
                    Some(o) => code_item_at(*self, bf, method_at(classes[ci], k), o as int, bf.len() as int),
                    None => true,
                } by {
                if let Some(o) = code_offs@[ci]@[k] {
                    lemma_code_item_at_kept_to_end(*self, bc, bf, method_at(classes[ci], k), o as int, oc as int);
                }
            }
            assert(code_and_class_data_placed(*self, bf, code_offs@, data_offs@));
        }
        proof {
            let bf = writer.spec_bytes();
            assert(keeps_below(bs, bf, os as int));
            assert forall|i: int| 0 <= i < string_offs@.len() implies #[trigger] string_placed(
                self.string_pool.spec_items()[i],
                bf,
                string_offs@[i] as int,
                o0 as int,
                bf.len() as int,
            ) by {
                lemma_string_placed_kept(
                    self.string_pool.spec_items()[i],
                    bs,
                    bf,
                    string_offs@[i] as int,
                    o0 as int,
                    os as int,
                    os as int,
                );
            }
            assert(keeps_below(bp, bf, op as int));
            assert forall|i: int| 0 <= i < proto_offs@.len() implies match #[trigger] proto_offs@[i] {
                Some(o) => self.proto_pool.spec_items()[i].2.len() > 0 && type_list_placed(
                    *self,
                    bf,
                    o as int,
                    self.proto_pool.spec_items()[i].2,
                    o0 as int,
                    bf.len() as int,
                ),
                None => self.proto_pool.spec_items()[i].2.len() == 0,
            } by {
                if let Some(o) = proto_offs@[i] {
                    lemma_type_list_placed_kept(
                        *self,
                        bp,
                        bf,
                        o as int,
                        self.proto_pool.spec_items()[i].2,
                        o0 as int,
                        op as int,
                        op as int,
                    );
                }
            }
        }
        proof {
            let bf = writer.spec_bytes();
            assert(keeps_below(bl, bf, ol as int));
            assert forall|i: int| 0 <= i < list_offs@.len() implies match #[trigger] list_offs@[i] {
                Some(o) => self.class_pool.spec_classes()[i].interfaces@.len() > 0 && type_list_placed(
                    *self,
                    bf,
                    o as int,
                    strings_view(self.class_pool.spec_classes()[i].interfaces@),
                    o0 as int,
                    bf.len() as int,
                ),
                None => self.class_pool.spec_classes()[i].interfaces@.len() == 0,
            } by {
                if let Some(o) = list_offs@[i] {
                    lemma_type_list_placed_kept(
                        *self,
                        bl,
                        bf,
                        o as int,
                        strings_view(self.class_pool.spec_classes()[i].interfaces@),
                        o0 as int,
                        ol as int,
                        ol as int,
                    );
                }
            }
        }
        Ok((string_offs, proto_offs, list_offs, data_offs))
    }

    /// Writes the DEX file that the pools describe with `writer`: the data section (string data,
    /// prototype parameter lists, interface lists, code items, class data) from the end of the
    /// class definitions on, then the ids and class definitions, then the header. Returns the
    /// size that the header records, which is where the data section starts.
    pub fn write_with<'a, D: DataStore>(&self, writer: &mut DexWriter<'a, D>) -> (res: Result<u32, String>)
        requires
            self.wf(),
            code_writable(*self),
            virtual_code_writable(*self),
        ensures
            res matches Ok(size) ==> size >= data_start(*self) && final(writer).spec_bytes().len() >= size
                && final(writer).spec_bytes().len() >= 0x70
                && final(writer).spec_bytes().len() >= data_start(*self)
                && final(writer).spec_bytes().subrange(0, 0x70) == signed_header(*self, size, final(writer).spec_bytes())
                && strings_written(*self, final(writer).spec_bytes())
                && types_written(*self, final(writer).spec_bytes())
                && classes_written(*self, final(writer).spec_bytes())
                && fields_written(*self, final(writer).spec_bytes())
                && protos_written(*self, final(writer).spec_bytes())
                && methods_written(*self, final(writer).spec_bytes())
                && class_interfaces_written(*self, final(writer).spec_bytes()),
            data_start(*self) > u32::MAX ==> res is Err,
            res matches Err(e) ==> e@ == too_large_message(),
            res is Err ==> data_start(*self) > u32::MAX || data_sections_fail(
                *self,
                data_start(*self),
                final(writer).spec_offset() as int,
            ),
            *final(final(writer).data_store) == *final(old(writer).data_store),
            res matches Ok(size) ==> final(writer).spec_bytes().len() <= old(writer).spec_bytes().len() || final(writer).spec_bytes().len() <= size,
    {
        let start = match self.data_layout() {
            Some(d) => d,
            None => {
                return Err(too_large());
            },
        };
        writer.set_offset(start);
        let (string_offs, proto_offs, list_offs, data_offs) = match self.write_data_sections(writer) {
            Ok(v) => v,
            Err(()) => {
                return Err(too_large());
            },
        };
        let file_size = writer.current_offset();
        let ids = self.id_sections(&string_offs, &proto_offs, &list_offs, &data_offs);
        writer.set_offset(0x70);
        let ghost before_ids = writer.spec_bytes();
        assert(strings_placed(*self, before_ids, string_offs@, data_start(*self), before_ids.len() as int));
        assert(param_lists_placed(*self, before_ids, proto_offs@, data_start(*self), before_ids.len() as int));
        assert(interface_lists_placed(*self, before_ids, list_offs@, data_start(*self), before_ids.len() as int));
        writer.write_bytes(ids.as_slice());
        proof {
            crate::writer::memory_data_store::lemma_written_reads_back(before_ids, 0x70, ids@);
        }
        let ghost after_ids = writer.spec_bytes();
        assert(after_ids.len() >= file_size);
        let blank = zero_bytes(20);
        let plain = self.header_vec(file_size, 0, blank.as_slice());
        proof {
            lemma_header_len(*self, file_size, 0, blank@);
        }
        let mut tail = bytes_range(plain.as_slice(), 32, 0x70);
        append_range(&mut tail, writer.bytes(), 0x70, file_size as usize);
        let signature = sha1(tail.as_slice());
        let mut signed = bytes_range(signature.as_slice(), 0, 20);
        append_range(&mut signed, tail.as_slice(), 0, tail.len());
        let checksum = adler32(signed.as_slice());
        let header = self.header_vec(file_size, checksum, signature.as_slice());
        proof {
            lemma_header_len(*self, file_size, checksum, signature@);
        }
        writer.set_offset(0);
        writer.write_bytes(header.as_slice());
        proof {
            crate::writer::memory_data_store::lemma_written_reads_back(after_ids, 0, header@);
            lemma_ids_then_header(*self, before_ids, string_offs@, proto_offs@, list_offs@, data_offs@, ids@, header@);
            let b = writer.spec_bytes();
            assert(header@.subrange(32, 0x70) =~= plain@.subrange(32, 0x70));
            assert(b.subrange(32, file_size as int) =~= tail@);
            assert(b.subrange(12, file_size as int) =~= signed@);
            assert(b.subrange(0, 0x70) =~= signed_header(*self, file_size, b));
        }
        assert(header@.len() == 0x70);
        Ok(file_size)
    }

    /// Writes the DEX file that the pools describe into `data_store`, from offset 0. Returns the
    /// size that the header records.
    pub fn write_to<D: DataStore>(&self, data_store: &mut D) -> (res: Result<u32, String>)
        requires
            self.wf(),
            code_writable(*self),
            virtual_code_writable(*self),
        ensures
            res matches Ok(size) ==> ({
                let bytes = final(data_store).spec_bytes();
                &&& size >= data_start(*self)
                &&& bytes.len() >= size
                &&& old(data_store).spec_bytes().len() <= size ==> bytes.len() == size
                &&& bytes.len() >= 0x70
                &&& bytes.len() >= data_start(*self)
                &&& bytes.subrange(0, 0x70) == signed_header(*self, size, bytes)
                &&& strings_written(*self, bytes)
                &&& types_written(*self, bytes)
                &&& classes_written(*self, bytes)
                &&& fields_written(*self, bytes)
                &&& protos_written(*self, bytes)
                &&& methods_written(*self, bytes)
                &&& class_interfaces_written(*self, bytes)
            }),
            data_start(*self) > u32::MAX ==> res is Err,
            res matches Err(e) ==> e@ == too_large_message(),
            res is Err ==> data_start(*self) > u32::MAX || exists|at: int| #[trigger] data_sections_fail(*self, data_start(*self), at),
    {
        let mut writer = DexWriter::new(data_store);
        let res = self.write_with(&mut writer);
        proof {
            writer.lemma_done();
        }
        proof {
            if res is Err && data_start(*self) <= u32::MAX {
                assert(data_sections_fail(*self, data_start(*self), writer.spec_offset() as int));
            }
        }
        res
    }

    /// The bytes of the DEX file that the pools describe.
    #[verifier::spinoff_prover]
    pub fn to_bytes(&self) -> (res: Result<Vec<u8>, String>)
        requires
            self.wf(),
            code_writable(*self),
            virtual_code_writable(*self),
        ensures
            res matches Ok(bytes) ==> bytes@.len() >= 0x70 && bytes@.len() >= data_start(*self)
                && bytes@.len() <= u32::MAX
                && bytes@.subrange(0, 0x70) == signed_header(*self, bytes@.len() as u32, bytes@) && strings_written(*self, bytes@)
                && types_written(*self, bytes@) && classes_written(*self, bytes@)
                && fields_written(*self, bytes@) && protos_written(*self, bytes@)
                && methods_written(*self, bytes@) && class_interfaces_written(*self, bytes@),
            data_start(*self) > u32::MAX ==> res is Err,
            res matches Err(e) ==> e@ == too_large_message(),
            res is Err ==> data_start(*self) > u32::MAX || exists|at: int| #[trigger] data_sections_fail(*self, data_start(*self), at),
    {
        let mut store = MemoryDataStore::with_capacity(4096);
        let mut writer = DexWriter::new(&mut store);
        match self.write_with(&mut writer) {
            Ok(size) => {
                let bytes = copy_bytes(writer.bytes());
                assert(bytes@.len() == size);
                Ok(bytes)
            },
            Err(e) => {
                assert(data_start(*self) > u32::MAX || data_sections_fail(*self, data_start(*self), writer.spec_offset() as int));
                Err(e)
            },
        }
    }
}

impl Default for DexPool {
    fn default() -> (res: Self)
        ensures
            res.wf(),
            res.string_pool.spec_items().len() == 0,
            res.type_pool.spec_items().len() == 0,
            res.proto_pool.spec_items().len() == 0,
            res.field_pool.spec_items().len() == 0,
            res.method_pool.spec_items().len() == 0,
            res.class_pool.spec_classes().len() == 0,
    {
        DexPool::new()
    }
}


/// The little-endian value of four bytes.
proof fn lemma_le32_read(data: Seq<u8>, off: int, v: u32)
    requires
        0 <= off,
        off + 4 <= data.len(),
        data.subrange(off, off + 4) == le_bytes_u32(v),
    ensures
        spec_u32_le(data, off) == v,
{
    let b = le_bytes_u32(v);
    assert(data[off] == b[0] && data[off + 1] == b[1] && data[off + 2] == b[2] && data[off + 3] == b[3]) by {
        assert(data.subrange(off, off + 4)[0] == data[off]);
        assert(data.subrange(off, off + 4)[1] == data[off + 1]);
        assert(data.subrange(off, off + 4)[2] == data[off + 2]);
        assert(data.subrange(off, off + 4)[3] == data[off + 3]);
    }
    assert(b[0] + 256 * b[1] + 65536 * b[2] + 16777216 * b[3] == v) by (nonlinear_arith)
        requires
            b[0] == v % 256,
            b[1] == (v / 256) % 256,
            b[2] == (v / 65536) % 256,
            b[3] == v / 16777216,
            v <= u32::MAX,
    ;
}

/// A 32-bit field of a header, read from a file that starts with it.
proof fn lemma_le16_read(data: Seq<u8>, off: int, v: u16)
    requires
        0 <= off,
        off + 2 <= data.len(),
        data.subrange(off, off + 2) == le_bytes_u16(v),
    ensures
        spec_u16_le(data, off) == v,
{
    let b = le_bytes_u16(v);
    assert(data[off] == b[0] && data[off + 1] == b[1]) by {
        assert(data.subrange(off, off + 2)[0] == data[off]);
        assert(data.subrange(off, off + 2)[1] == data[off + 1]);
    }
}

/// An 8-byte id entry (two 16-bit values and a 32-bit one) found at `at` reads back.
proof fn lemma_id8_read(data: Seq<u8>, at: int, a: u16, b: u16, c: u32)
    requires
        0 <= at,
        at + 8 <= data.len(),
        data.subrange(at, at + 8) == le_bytes_u16(a) + le_bytes_u16(b) + le_bytes_u32(c),
    ensures
        spec_u16_le(data, at) == a,
        spec_u16_le(data, at + 2) == b,
        spec_u32_le(data, at + 4) == c,
{
    let e = le_bytes_u16(a) + le_bytes_u16(b) + le_bytes_u32(c);
    assert(data.subrange(at, at + 2) =~= e.subrange(0, 2));
    assert(e.subrange(0, 2) =~= le_bytes_u16(a));
    assert(data.subrange(at + 2, at + 4) =~= e.subrange(2, 4));
    assert(e.subrange(2, 4) =~= le_bytes_u16(b));
    assert(data.subrange(at + 4, at + 8) =~= e.subrange(4, 8));
    assert(e.subrange(4, 8) =~= le_bytes_u32(c));
    lemma_le16_read(data, at, a);
    lemma_le16_read(data, at + 2, b);
    lemma_le32_read(data, at + 4, c);
}

/// A 12-byte id entry (three 32-bit values) found at `at` reads back.
proof fn lemma_id12_read(data: Seq<u8>, at: int, a: u32, b: u32, c: u32)
    requires
        0 <= at,
        at + 12 <= data.len(),
        data.subrange(at, at + 12) == le_bytes_u32(a) + le_bytes_u32(b) + le_bytes_u32(c),
    ensures
        spec_u32_le(data, at) == a,
        spec_u32_le(data, at + 4) == b,
        spec_u32_le(data, at + 8) == c,
{
    let e = le_bytes_u32(a) + le_bytes_u32(b) + le_bytes_u32(c);
    assert(data.subrange(at, at + 4) =~= e.subrange(0, 4));
    assert(e.subrange(0, 4) =~= le_bytes_u32(a));
    assert(data.subrange(at + 4, at + 8) =~= e.subrange(4, 8));
    assert(e.subrange(4, 8) =~= le_bytes_u32(b));
    assert(data.subrange(at + 8, at + 12) =~= e.subrange(8, 12));
    assert(e.subrange(8, 12) =~= le_bytes_u32(c));
    lemma_le32_read(data, at, a);
    lemma_le32_read(data, at + 4, b);
    lemma_le32_read(data, at + 8, c);
}

proof fn lemma_header_field(bytes: Seq<u8>, h: Seq<u8>, off: int, v: u32)
    requires
        bytes.len() >= 0x70,
        bytes.subrange(0, 0x70) == h,
        0 <= off,
        off + 4 <= 0x70,
        h.subrange(off, off + 4) == le_bytes_u32(v),
    ensures
        spec_u32_le(bytes, off) == v,
{
    assert(bytes.subrange(off, off + 4) =~= bytes.subrange(0, 0x70).subrange(off, off + 4));
    lemma_le32_read(bytes, off, v);
}

/// The string id table of `bytes` points, for each string of the pool, at its data item, which
/// lies past the id tables.
pub open spec fn strings_written(p: DexPool, bytes: Seq<u8>) -> bool {
    forall|i: int|
        0 <= i < n_strings(p) ==> #[trigger] string_placed(
            p.string_pool.spec_items()[i],
            bytes,
            spec_u32_le(bytes, 0x70 + 4 * i) as int,
            data_start(p),
            bytes.len() as int,
        )
}

/// The type id table of `bytes` gives, for each type of the pool, the index of its descriptor
/// among the pool's strings.
pub open spec fn types_written(p: DexPool, bytes: Seq<u8>) -> bool {
    forall|j: int| 0 <= j < n_types(p) ==> #[trigger] spec_u32_le(bytes, type_ids_off(p) + 4 * j) == type_string_index(p, j)
}

/// Entry `ci` of the class def table of `bytes` names the type of pool class `ci`, and holds its
/// access flags, its superclass's type index (`NO_INDEX` where it has none) and its source file's
/// string index.
pub open spec fn classes_written(p: DexPool, bytes: Seq<u8>) -> bool {
    forall|ci: int|
        0 <= ci < n_classes(p) ==> {
            let item = #[trigger] class_def_at(bytes, class_defs_off(p) as u32, ci);
            let c = p.class_pool.spec_classes()[ci];
            &&& item.class_idx == class_type_index(p, ci)
            &&& item.access_flags == c.access_flags
            &&& item.superclass_idx == match c.superclass_idx {
                Some(x) => x,
                None => 0xFFFF_FFFF,
            }
            &&& item.source_file_idx == source_file_word(p, ci)
        }
}

/// The class def table of `bytes` gives, for each class of the pool, the offset of a list of its
/// interfaces, which lies past the id tables (0 where it has none).
pub open spec fn class_interfaces_written(p: DexPool, bytes: Seq<u8>) -> bool {
    forall|ci: int|
        0 <= ci < n_classes(p) ==> {
            let item = #[trigger] class_def_at(bytes, class_defs_off(p) as u32, ci);
            let c = p.class_pool.spec_classes()[ci];
            &&& c.interfaces@.len() == 0 ==> item.interfaces_off == 0
            &&& c.interfaces@.len() > 0 ==> type_list_placed(
                p,
                bytes,
                item.interfaces_off as int,
                strings_view(c.interfaces@),
                data_start(p),
                bytes.len() as int,
            )
        }
}

/// The string index that the class def table gives the source file of pool class `ci`:
/// `NO_INDEX` where it has none or it is not a pooled string.
pub open spec fn source_file_word(p: DexPool, ci: int) -> u32 {
    match p.class_pool.spec_classes()[ci].source_file {
        Some(sf) => if p.string_pool.spec_items().contains(sf@) {
            first_index(p.string_pool.spec_items(), sf@) as u32
        } else {
            0xFFFF_FFFF
        },
        None => 0xFFFF_FFFF,
    }
}

/// The field id table of `bytes` gives, for each field of the pool, the indices of its class,
/// its type and its name.
pub open spec fn fields_written(p: DexPool, bytes: Seq<u8>) -> bool {
    forall|k: int|
        0 <= k < n_fields(p) ==> {
            let item = #[trigger] field_id_at(bytes, field_ids_off(p) as u32, k);
            let f = p.field_pool.spec_items()[k];
            &&& item.class_idx == type_index_or_zero(p, f.0) as u16
            &&& item.type_idx == type_index_or_zero(p, f.2) as u16
            &&& item.name_idx == string_index_or_zero(p, f.1)
        }
}

/// The prototype id table of `bytes` gives, for each prototype of the pool, the indices of its
/// shorty and its return type, and the offset of a list of its parameter types, which lies past
/// the id tables (0 where it has no parameters).
pub open spec fn protos_written(p: DexPool, bytes: Seq<u8>) -> bool {
    forall|k: int|
        0 <= k < n_protos(p) ==> {
            let item = #[trigger] proto_id_at(bytes, proto_ids_off(p) as u32, k);
            let key = p.proto_pool.spec_items()[k];
            &&& item.shorty_idx == string_index_or_zero(p, key.0)
            &&& item.return_type_idx == type_index_or_zero(p, key.1)
            &&& key.2.len() == 0 ==> item.parameters_off == 0
            &&& key.2.len() > 0 ==> type_list_placed(
                p,
                bytes,
                item.parameters_off as int,
                key.2,
                data_start(p),
                bytes.len() as int,
            )
        }
}

/// The method id table of `bytes` gives, for each method of the pool, the indices of its class,
/// its prototype and its name.
pub open spec fn methods_written(p: DexPool, bytes: Seq<u8>) -> bool {
    forall|k: int|
        0 <= k < n_methods(p) ==> {
            let item = #[trigger] method_id_at(bytes, method_ids_off(p) as u32, k);
            let m = p.method_pool.spec_items()[k];
            &&& item.class_idx == type_index_or_zero(p, m.0) as u16
            &&& item.proto_idx == proto_index_or_zero(p, m.2) as u16
            &&& item.name_idx == string_index_or_zero(p, m.1)
        }
}

/// A table of 32-bit values found at `at` reads back, entry by entry.
proof fn lemma_table_read(bytes: Seq<u8>, at: int, vs: Seq<u32>, i: int)
    requires
        0 <= at,
        0 <= i < vs.len(),
        at + 4 * vs.len() <= bytes.len(),
        bytes.subrange(at, at + 4 * vs.len()) == le32_list(vs),
    ensures
        spec_u32_le(bytes, at + 4 * i) == vs[i],
{
    lemma_le32_list(vs, i);
    assert(bytes.subrange(at + 4 * i, at + 4 * i + 4) =~= le32_list(vs).subrange(4 * i, 4 * i + 4));
    lemma_le32_read(bytes, at + 4 * i, vs[i]);
}

/// After the id tables and the header are written in front of the data section, the string and
/// type id tables lead to the strings of the pool.
#[verifier::spinoff_prover]
proof fn lemma_ids_keep_strings_and_types(p: DexPool, b1: Seq<u8>, offs: Seq<u32>, ids: Seq<u8>, header: Seq<u8>)
    requires
        strings_placed(p, b1, offs, data_start(p), b1.len() as int),
        ids.len() == data_start(p) - 0x70,
        ids.subrange(0, 4 * n_strings(p)) == le32_list(offs),
        ids.subrange(4 * n_strings(p), 4 * n_strings(p) + 4 * n_types(p)) == le32_list(type_string_indices(p)),
        header.len() == 0x70,
    ensures
        strings_written(p, written(written(b1, 0x70, ids), 0, header)),
        types_written(p, written(written(b1, 0x70, ids), 0, header)),
{
    let b2 = written(b1, 0x70, ids);
    let b3 = written(b2, 0, header);
    let ns = n_strings(p);
    let nt = n_types(p);
    let tsi = type_string_indices(p);
    lemma_written_reads_back(b1, 0x70, ids);
    lemma_written_reads_back(b2, 0, header);
    lemma_le32_list_len(offs);
    lemma_le32_list_len(tsi);
    assert(b2.subrange(0x70, 0x70 + 4 * ns) =~= ids.subrange(0, 4 * ns));
    assert(b2.subrange(0x70 + 4 * ns, 0x70 + 4 * ns + 4 * nt) =~= ids.subrange(4 * ns, 4 * ns + 4 * nt));
    assert forall|i: int| 0 <= i < ns implies #[trigger] string_placed(
        p.string_pool.spec_items()[i],
        b3,
        spec_u32_le(b3, 0x70 + 4 * i) as int,
        data_start(p),
        b3.len() as int,
    ) by {
        lemma_table_read(b2, 0x70, offs, i);
        assert(spec_u32_le(b3, 0x70 + 4 * i) == spec_u32_le(b2, 0x70 + 4 * i));
        assert(string_placed(p.string_pool.spec_items()[i], b1, offs[i] as int, data_start(p), b1.len() as int));
        lemma_string_placed_write_before(
            p.string_pool.spec_items()[i],
            b1,
            offs[i] as int,
            data_start(p),
            b1.len() as int,
            0x70,
            ids,
        );
        lemma_string_placed_write_before(
            p.string_pool.spec_items()[i],
            b2,
            offs[i] as int,
            data_start(p),
            b1.len() as int,
            0,
            header,
        );
    }
    assert forall|j: int| 0 <= j < nt implies #[trigger] spec_u32_le(b3, type_ids_off(p) + 4 * j) == type_string_index(p, j) by {
        lemma_table_read(b2, 0x70 + 4 * ns, tsi, j);
        assert(spec_u32_le(b3, type_ids_off(p) + 4 * j) == spec_u32_le(b2, type_ids_off(p) + 4 * j));
    }
}

/// After the id tables and the header are written, the class def table holds each class's type,
/// flags, superclass and source file.
#[verifier::spinoff_prover]
#[verifier::rlimit(80)]
proof fn lemma_ids_keep_classes(
    p: DexPool,
    b1: Seq<u8>,
    list_offs: Seq<Option<u32>>,
    data_offs: Seq<Option<u32>>,
    ids: Seq<u8>,
    header: Seq<u8>,
)
    requires
        ids.len() == data_start(p) - 0x70,
        ids.subrange(class_defs_off(p) - 0x70, data_start(p) - 0x70) == le32_list(class_def_words(p, list_offs, data_offs)),
        header.len() == 0x70,
        data_start(p) <= u32::MAX,
    ensures
        classes_written(p, written(written(b1, 0x70, ids), 0, header)),
{
    let b2 = written(b1, 0x70, ids);
    let b3 = written(b2, 0, header);
    lemma_written_reads_back(b1, 0x70, ids);
    lemma_written_reads_back(b2, 0, header);
    let words = class_def_words(p, list_offs, data_offs);
    let cdo = class_defs_off(p);
    lemma_le32_list_len(words);
    assert(b2.subrange(cdo, cdo + 4 * words.len()) =~= ids.subrange(cdo - 0x70, data_start(p) - 0x70));
    assert forall|ci: int| 0 <= ci < n_classes(p) implies {
        let item = #[trigger] class_def_at(b3, cdo as u32, ci);
        let c = p.class_pool.spec_classes()[ci];
        &&& item.class_idx == class_type_index(p, ci)
        &&& item.access_flags == c.access_flags
        &&& item.superclass_idx == match c.superclass_idx {
            Some(x) => x,
            None => 0xFFFF_FFFF,
        }
        &&& item.source_file_idx == source_file_word(p, ci)
    } by {
        lemma_table_read(b2, cdo, words, 8 * ci);
        lemma_table_read(b2, cdo, words, 8 * ci + 1);
        lemma_table_read(b2, cdo, words, 8 * ci + 2);
        lemma_table_read(b2, cdo, words, 8 * ci + 4);
        assert((8 * ci) / 8 == ci && (8 * ci) % 8 == 0);
        assert((8 * ci + 1) / 8 == ci && (8 * ci + 1) % 8 == 1);
        assert((8 * ci + 2) / 8 == ci && (8 * ci + 2) % 8 == 2);
        assert((8 * ci + 4) / 8 == ci && (8 * ci + 4) % 8 == 4);
        assert(spec_u32_le(b3, cdo + 32 * ci) == spec_u32_le(b2, cdo + 32 * ci));
        assert(spec_u32_le(b3, cdo + 32 * ci + 4) == spec_u32_le(b2, cdo + 32 * ci + 4));
        assert(spec_u32_le(b3, cdo + 32 * ci + 8) == spec_u32_le(b2, cdo + 32 * ci + 8));
        assert(spec_u32_le(b3, cdo + 32 * ci + 16) == spec_u32_le(b2, cdo + 32 * ci + 16));
    }
}

/// After the id tables and the header are written, the class def table leads to each class's
/// list of interfaces.
#[verifier::spinoff_prover]
#[verifier::rlimit(80)]
proof fn lemma_ids_keep_interfaces(
    p: DexPool,
    b1: Seq<u8>,
    list_offs: Seq<Option<u32>>,
    data_offs: Seq<Option<u32>>,
    ids: Seq<u8>,
    header: Seq<u8>,
)
    requires
        ids.len() == data_start(p) - 0x70,
        ids.subrange(class_defs_off(p) - 0x70, data_start(p) - 0x70) == le32_list(class_def_words(p, list_offs, data_offs)),
        interface_lists_placed(p, b1, list_offs, data_start(p), b1.len() as int),
        header.len() == 0x70,
        data_start(p) <= u32::MAX,
    ensures
        class_interfaces_written(p, written(written(b1, 0x70, ids), 0, header)),
{
    let b2 = written(b1, 0x70, ids);
    let b3 = written(b2, 0, header);
    lemma_written_reads_back(b1, 0x70, ids);
    lemma_written_reads_back(b2, 0, header);
    let words = class_def_words(p, list_offs, data_offs);
    let cdo = class_defs_off(p);
    lemma_le32_list_len(words);
    assert(b2.subrange(cdo, cdo + 4 * words.len()) =~= ids.subrange(cdo - 0x70, data_start(p) - 0x70));
    assert forall|ci: int| 0 <= ci < n_classes(p) implies {
        let item = #[trigger] class_def_at(b3, cdo as u32, ci);
        let c = p.class_pool.spec_classes()[ci];
        &&& c.interfaces@.len() == 0 ==> item.interfaces_off == 0
        &&& c.interfaces@.len() > 0 ==> type_list_placed(
            p,
            b3,
            item.interfaces_off as int,
            strings_view(c.interfaces@),
            data_start(p),
            b3.len() as int,
        )
    } by {
        let c = p.class_pool.spec_classes()[ci];
        lemma_table_read(b2, cdo, words, 8 * ci + 3);
        assert((8 * ci + 3) / 8 == ci && (8 * ci + 3) % 8 == 3);
        assert(spec_u32_le(b3, cdo + 32 * ci + 12) == spec_u32_le(b2, cdo + 32 * ci + 12));
        match list_offs[ci] {
            Some(o) => {
                lemma_type_list_placed_write_before(
                    p,
                    b1,
                    o as int,
                    strings_view(c.interfaces@),
                    data_start(p),
                    b1.len() as int,
                    0x70,
                    ids,
                );
                lemma_type_list_placed_write_before(
                    p,
                    b2,
                    o as int,
                    strings_view(c.interfaces@),
                    data_start(p),
                    b1.len() as int,
                    0,
                    header,
                );
            },
            None => {},
        }
    }
}

/// After the id tables and the header are written, the field and method id tables hold each
/// field's and method's indices.
#[verifier::spinoff_prover]
proof fn lemma_ids_keep_fields_and_methods(p: DexPool, b1: Seq<u8>, ids: Seq<u8>, header: Seq<u8>)
    requires
        ids.len() == data_start(p) - 0x70,
        forall|k: int|
            0 <= k < n_fields(p) ==> ids.subrange(field_ids_off(p) - 0x70 + 8 * k, field_ids_off(p) - 0x70 + 8 * k + 8)
                == #[trigger] field_id_bytes(p, k),
        forall|k: int|
            0 <= k < n_methods(p) ==> ids.subrange(
                method_ids_off(p) - 0x70 + 8 * k,
                method_ids_off(p) - 0x70 + 8 * k + 8,
            ) == #[trigger] method_id_bytes(p, k),
        header.len() == 0x70,
        data_start(p) <= u32::MAX,
    ensures
        fields_written(p, written(written(b1, 0x70, ids), 0, header)),
        methods_written(p, written(written(b1, 0x70, ids), 0, header)),
{
    let b2 = written(b1, 0x70, ids);
    let b3 = written(b2, 0, header);
    lemma_written_reads_back(b1, 0x70, ids);
    lemma_written_reads_back(b2, 0, header);
    let fo = field_ids_off(p);
    assert forall|k: int| 0 <= k < n_fields(p) implies {
        let item = #[trigger] field_id_at(b3, fo as u32, k);
        let f = p.field_pool.spec_items()[k];
        &&& item.class_idx == type_index_or_zero(p, f.0) as u16
        &&& item.type_idx == type_index_or_zero(p, f.2) as u16
        &&& item.name_idx == string_index_or_zero(p, f.1)
    } by {
        let f = p.field_pool.spec_items()[k];
        assert(field_id_bytes(p, k) == ids.subrange(fo - 0x70 + 8 * k, fo - 0x70 + 8 * k + 8));
        assert(b2.subrange(fo + 8 * k, fo + 8 * k + 8) =~= ids.subrange(fo - 0x70 + 8 * k, fo - 0x70 + 8 * k + 8));
        lemma_id8_read(
            b2,
            fo + 8 * k,
            type_index_or_zero(p, f.0) as u16,
            type_index_or_zero(p, f.2) as u16,
            string_index_or_zero(p, f.1),
        );
        assert(spec_u16_le(b3, fo + 8 * k) == spec_u16_le(b2, fo + 8 * k));
        assert(spec_u16_le(b3, fo + 8 * k + 2) == spec_u16_le(b2, fo + 8 * k + 2));
        assert(spec_u32_le(b3, fo + 8 * k + 4) == spec_u32_le(b2, fo + 8 * k + 4));
    }
    let mo = method_ids_off(p);
    assert forall|k: int| 0 <= k < n_methods(p) implies {
        let item = #[trigger] method_id_at(b3, mo as u32, k);
        let m = p.method_pool.spec_items()[k];
        &&& item.class_idx == type_index_or_zero(p, m.0) as u16
        &&& item.proto_idx == proto_index_or_zero(p, m.2) as u16
        &&& item.name_idx == string_index_or_zero(p, m.1)
    } by {
        let m = p.method_pool.spec_items()[k];
        assert(method_id_bytes(p, k) == ids.subrange(mo - 0x70 + 8 * k, mo - 0x70 + 8 * k + 8));
        assert(b2.subrange(mo + 8 * k, mo + 8 * k + 8) =~= ids.subrange(mo - 0x70 + 8 * k, mo - 0x70 + 8 * k + 8));
        lemma_id8_read(
            b2,
            mo + 8 * k,
            type_index_or_zero(p, m.0) as u16,
            proto_index_or_zero(p, m.2) as u16,
            string_index_or_zero(p, m.1),
        );
        assert(spec_u16_le(b3, mo + 8 * k) == spec_u16_le(b2, mo + 8 * k));
        assert(spec_u16_le(b3, mo + 8 * k + 2) == spec_u16_le(b2, mo + 8 * k + 2));
        assert(spec_u32_le(b3, mo + 8 * k + 4) == spec_u32_le(b2, mo + 8 * k + 4));
    }
}

/// After the id tables and the header are written, the prototype id table holds each prototype's
/// indices and the offset of its parameter list.
#[verifier::spinoff_prover]
proof fn lemma_ids_keep_protos(
    p: DexPool,
    b1: Seq<u8>,
    proto_offs: Seq<Option<u32>>,
    ids: Seq<u8>,
    header: Seq<u8>,
)
    requires
        ids.len() == data_start(p) - 0x70,
        param_lists_placed(p, b1, proto_offs, data_start(p), b1.len() as int),
        forall|k: int|
            0 <= k < n_protos(p) ==> ids.subrange(
                proto_ids_off(p) - 0x70 + 12 * k,
                proto_ids_off(p) - 0x70 + 12 * k + 12,
            ) == #[trigger] proto_id_bytes(p, proto_offs, k),
        header.len() == 0x70,
        data_start(p) <= u32::MAX,
    ensures
        protos_written(p, written(written(b1, 0x70, ids), 0, header)),
{
    let b2 = written(b1, 0x70, ids);
    let b3 = written(b2, 0, header);
    lemma_written_reads_back(b1, 0x70, ids);
    lemma_written_reads_back(b2, 0, header);
    let po = proto_ids_off(p);
    assert forall|k: int| 0 <= k < n_protos(p) implies {
        let item = #[trigger] proto_id_at(b3, po as u32, k);
        let key = p.proto_pool.spec_items()[k];
        &&& item.shorty_idx == string_index_or_zero(p, key.0)
        &&& item.return_type_idx == type_index_or_zero(p, key.1)
        &&& key.2.len() == 0 ==> item.parameters_off == 0
        &&& key.2.len() > 0 ==> type_list_placed(
            p,
            b3,
            item.parameters_off as int,
            key.2,
            data_start(p),
            b3.len() as int,
        )
    } by {
        let key = p.proto_pool.spec_items()[k];
        let o: u32 = match proto_offs[k] {
            Some(o) => o,
            None => 0,
        };
        assert(proto_id_bytes(p, proto_offs, k) == ids.subrange(po - 0x70 + 12 * k, po - 0x70 + 12 * k + 12));
        assert(b2.subrange(po + 12 * k, po + 12 * k + 12) =~= ids.subrange(po - 0x70 + 12 * k, po - 0x70 + 12 * k + 12));
        lemma_id12_read(b2, po + 12 * k, string_index_or_zero(p, key.0), type_index_or_zero(p, key.1), o);
        assert(spec_u32_le(b3, po + 12 * k) == spec_u32_le(b2, po + 12 * k));
        assert(spec_u32_le(b3, po + 12 * k + 4) == spec_u32_le(b2, po + 12 * k + 4));
        assert(spec_u32_le(b3, po + 12 * k + 8) == spec_u32_le(b2, po + 12 * k + 8));
        if key.2.len() > 0 {
            assert(proto_offs[k] is Some);
            lemma_type_list_placed_write_before(p, b1, o as int, key.2, data_start(p), b1.len() as int, 0x70, ids);
            lemma_type_list_placed_write_before(p, b2, o as int, key.2, data_start(p), b1.len() as int, 0, header);
        } else {
            assert(proto_offs[k] is None);
        }
    }}

/// After the id tables and the header are written in front of the data section, the tables lead
/// to what the pool holds.
proof fn lemma_ids_then_header(
    p: DexPool,
    b1: Seq<u8>,
    offs: Seq<u32>,
    proto_offs: Seq<Option<u32>>,
    list_offs: Seq<Option<u32>>,
    data_offs: Seq<Option<u32>>,
    ids: Seq<u8>,
    header: Seq<u8>,
)
    requires
        strings_placed(p, b1, offs, data_start(p), b1.len() as int),
        ids.len() == data_start(p) - 0x70,
        ids.subrange(0, 4 * n_strings(p)) == le32_list(offs),
        ids.subrange(4 * n_strings(p), 4 * n_strings(p) + 4 * n_types(p)) == le32_list(type_string_indices(p)),
        ids.subrange(class_defs_off(p) - 0x70, data_start(p) - 0x70) == le32_list(class_def_words(p, list_offs, data_offs)),
        param_lists_placed(p, b1, proto_offs, data_start(p), b1.len() as int),
        interface_lists_placed(p, b1, list_offs, data_start(p), b1.len() as int),
        forall|k: int|
            0 <= k < n_protos(p) ==> ids.subrange(
                proto_ids_off(p) - 0x70 + 12 * k,
                proto_ids_off(p) - 0x70 + 12 * k + 12,
            ) == #[trigger] proto_id_bytes(p, proto_offs, k),
        forall|k: int|
            0 <= k < n_fields(p) ==> ids.subrange(field_ids_off(p) - 0x70 + 8 * k, field_ids_off(p) - 0x70 + 8 * k + 8)
                == #[trigger] field_id_bytes(p, k),
        forall|k: int|
            0 <= k < n_methods(p) ==> ids.subrange(
                method_ids_off(p) - 0x70 + 8 * k,
                method_ids_off(p) - 0x70 + 8 * k + 8,
            ) == #[trigger] method_id_bytes(p, k),
        header.len() == 0x70,
        data_start(p) <= u32::MAX,
    ensures
        strings_written(p, written(written(b1, 0x70, ids), 0, header)),
        types_written(p, written(written(b1, 0x70, ids), 0, header)),
        classes_written(p, written(written(b1, 0x70, ids), 0, header)),
        fields_written(p, written(written(b1, 0x70, ids), 0, header)),
        protos_written(p, written(written(b1, 0x70, ids), 0, header)),
        methods_written(p, written(written(b1, 0x70, ids), 0, header)),
        class_interfaces_written(p, written(written(b1, 0x70, ids), 0, header)),
{
    lemma_ids_keep_interfaces(p, b1, list_offs, data_offs, ids, header);
    lemma_ids_keep_strings_and_types(p, b1, offs, ids, header);
    lemma_ids_keep_classes(p, b1, list_offs, data_offs, ids, header);
    lemma_ids_keep_fields_and_methods(p, b1, ids, header);
    lemma_ids_keep_protos(p, b1, proto_offs, ids, header);
}

/// A file that the pools write reads back: it starts with the DEX magic, its header records
/// each pool's count and the offset of its id table, and every id table lies inside the file.
pub proof fn lemma_written_file_reads_back(p: DexPool, size: u32, checksum: u32, signature: Seq<u8>, bytes: Seq<u8>)
    requires
        bytes.len() >= 0x70,
        bytes.len() >= data_start(p),
        signature.len() == 20,
        bytes.subrange(0, 0x70) == header_bytes(p, size, checksum, signature),
        data_start(p) <= u32::MAX,
    ensures
        has_dex_magic(bytes),
        spec_u32_le(bytes, 56) == n_strings(p),
        spec_u32_le(bytes, 60) == 0x70,
        spec_u32_le(bytes, 64) == n_types(p),
        spec_u32_le(bytes, 68) == type_ids_off(p),
        spec_u32_le(bytes, 72) == n_protos(p),
        spec_u32_le(bytes, 76) == proto_ids_off(p),
        spec_u32_le(bytes, 80) == n_fields(p),
        spec_u32_le(bytes, 84) == field_ids_off(p),
        spec_u32_le(bytes, 88) == n_methods(p),
        spec_u32_le(bytes, 92) == method_ids_off(p),
        spec_u32_le(bytes, 96) == n_classes(p),
        spec_u32_le(bytes, 100) == class_defs_off(p),
        tables_fit(bytes),
{
    let h = header_bytes(p, size, checksum, signature);
    let f = header_fields(p, size);
    lemma_le32_list_len(f);
    lemma_header_len(p, size, checksum, signature);
    assert forall|i: int| 0 <= i < 14 implies #[trigger] spec_u32_le(bytes, 56 + 4 * i) == f[i] by {
        lemma_le32_list(f, i);
        assert(h.subrange(56 + 4 * i, 56 + 4 * i + 4) =~= le32_list(f).subrange(4 * i, 4 * i + 4));
        lemma_header_field(bytes, h, 56 + 4 * i, f[i]);
    }
    assert(spec_u32_le(bytes, 56 + 4 * 0int) == f[0]);
    assert(spec_u32_le(bytes, 56 + 4 * 1int) == f[1]);
    assert(spec_u32_le(bytes, 56 + 4 * 2int) == f[2]);
    assert(spec_u32_le(bytes, 56 + 4 * 3int) == f[3]);
    assert(spec_u32_le(bytes, 56 + 4 * 4int) == f[4]);
    assert(spec_u32_le(bytes, 56 + 4 * 5int) == f[5]);
    assert(spec_u32_le(bytes, 56 + 4 * 6int) == f[6]);
    assert(spec_u32_le(bytes, 56 + 4 * 7int) == f[7]);
    assert(spec_u32_le(bytes, 56 + 4 * 8int) == f[8]);
    assert(spec_u32_le(bytes, 56 + 4 * 9int) == f[9]);
    assert(spec_u32_le(bytes, 56 + 4 * 10int) == f[10]);
    assert(spec_u32_le(bytes, 56 + 4 * 11int) == f[11]);
    assert(bytes[0] == h[0] && bytes[1] == h[1] && bytes[2] == h[2] && bytes[3] == h[3]) by {
        assert(bytes.subrange(0, 0x70)[0] == bytes[0]);
        assert(bytes.subrange(0, 0x70)[1] == bytes[1]);
        assert(bytes.subrange(0, 0x70)[2] == bytes[2]);
        assert(bytes.subrange(0, 0x70)[3] == bytes[3]);
    }
}

/// String `i` of a written file reads back as string `i` of the pool.
proof fn lemma_written_string_reads_back(p: DexPool, bytes: Seq<u8>, h: DexHeader, i: u32)
    requires
        strings_written(p, bytes),
        h.string_ids_off == 0x70,
        h.string_ids_size == n_strings(p),
        i < h.string_ids_size,
    ensures
        string_ok(bytes, h, i),
        dex_string(bytes, h, i) == Some(p.string_pool.spec_items()[i as int]),
{
    let strings = p.string_pool.spec_items();
    let off = spec_u32_le(bytes, 0x70 + 4 * i);
    assert(string_placed(strings[i as int], bytes, off as int, data_start(p), bytes.len() as int));
    assert(string_id_at(bytes, h.string_ids_off, i as int).string_data_off == off);
    lemma_string_data_found(bytes, off as int, strings[i as int]);
}

/// Type `j` of a written file reads back as type `j` of the pool, where its descriptor is one of
/// the pool's strings.
proof fn lemma_written_type_reads_back(p: DexPool, bytes: Seq<u8>, h: DexHeader, j: u32)
    requires
        p.wf(),
        p.string_pool.spec_items().len() <= u32::MAX,
        strings_written(p, bytes),
        types_written(p, bytes),
        h.string_ids_off == 0x70,
        h.string_ids_size == n_strings(p),
        h.type_ids_off == type_ids_off(p),
        h.type_ids_size == n_types(p),
        j < h.type_ids_size,
        p.string_pool.spec_items().contains(p.type_pool.spec_items()[j as int]),
    ensures
        type_ok(bytes, h, j),
        dex_type(bytes, h, j) == Some(p.type_pool.spec_items()[j as int]),
{
    let strings = p.string_pool.spec_items();
    let t = p.type_pool.spec_items()[j as int];
    lemma_first_index(strings, t);
    let si = first_index(strings, t) as u32;
    assert(spec_u32_le(bytes, type_ids_off(p) + 4 * j) == type_string_index(p, j as int));
    assert(type_id_at(bytes, h.type_ids_off, j as int).descriptor_idx == si);
    lemma_written_string_reads_back(p, bytes, h, si);
}

/// What the pools write reads back through the parser's view of the file: string `i` of the
/// file is string `i` of the pool, and type `j` is type `j` of the pool wherever that descriptor
/// is one of the pool's strings.
pub proof fn lemma_written_strings_and_types_read_back(p: DexPool, size: u32, checksum: u32, signature: Seq<u8>, bytes: Seq<u8>, h: DexHeader)
    requires
        p.wf(),
        p.string_pool.spec_items().len() <= u32::MAX,
        p.type_pool.spec_items().len() <= u32::MAX,
        bytes.len() >= 0x70,
        bytes.len() >= data_start(p),
        signature.len() == 20,
        bytes.subrange(0, 0x70) == header_bytes(p, size, checksum, signature),
        data_start(p) <= u32::MAX,
        strings_written(p, bytes),
        types_written(p, bytes),
        header_matches(h, bytes),
    ensures
        h.string_ids_size == p.string_pool.spec_items().len(),
        h.type_ids_size == p.type_pool.spec_items().len(),
        forall|i: u32| i < h.string_ids_size ==> #[trigger] string_ok(bytes, h, i),
        forall|i: u32|
            i < h.string_ids_size ==> #[trigger] dex_string(bytes, h, i) == Some(p.string_pool.spec_items()[i as int]),
        forall|j: u32|
            j < h.type_ids_size && p.string_pool.spec_items().contains(p.type_pool.spec_items()[j as int])
                ==> #[trigger] type_ok(bytes, h, j),
        forall|j: u32|
            j < h.type_ids_size && p.string_pool.spec_items().contains(p.type_pool.spec_items()[j as int])
                ==> #[trigger] dex_type(bytes, h, j) == Some(p.type_pool.spec_items()[j as int]),
{
    lemma_written_file_reads_back(p, size, checksum, signature, bytes);
    assert forall|i: u32| i < h.string_ids_size implies #[trigger] string_ok(bytes, h, i) by {
        lemma_written_string_reads_back(p, bytes, h, i);
    }
    assert forall|i: u32| i < h.string_ids_size implies #[trigger] dex_string(bytes, h, i) == Some(
        p.string_pool.spec_items()[i as int],
    ) by {
        lemma_written_string_reads_back(p, bytes, h, i);
    }
    assert forall|j: u32|
        j < h.type_ids_size && p.string_pool.spec_items().contains(
            p.type_pool.spec_items()[j as int],
        ) implies #[trigger] type_ok(bytes, h, j) by {
        lemma_written_type_reads_back(p, bytes, h, j);
    }
    assert forall|j: u32|
        j < h.type_ids_size && p.string_pool.spec_items().contains(
            p.type_pool.spec_items()[j as int],
        ) implies #[trigger] dex_type(bytes, h, j) == Some(p.type_pool.spec_items()[j as int]) by {
        lemma_written_type_reads_back(p, bytes, h, j);
    }
}

/// The class def table of a written file holds, entry by entry, the pool's classes: each entry's
/// type reads back as the class's descriptor wherever that descriptor is a pooled type and
/// string, its flags and superclass are the class's, the superclass reading back as the type it
/// names wherever that type's descriptor is a pooled string, and its source file reads back as
/// the class's wherever that is a pooled string.
pub proof fn lemma_written_classes_read_back(p: DexPool, size: u32, checksum: u32, signature: Seq<u8>, bytes: Seq<u8>, h: DexHeader)
    requires
        p.wf(),
        p.string_pool.spec_items().len() <= u32::MAX,
        p.type_pool.spec_items().len() <= u32::MAX,
        bytes.len() >= 0x70,
        bytes.len() >= data_start(p),
        signature.len() == 20,
        bytes.subrange(0, 0x70) == header_bytes(p, size, checksum, signature),
        data_start(p) <= u32::MAX,
        strings_written(p, bytes),
        types_written(p, bytes),
        classes_written(p, bytes),
        header_matches(h, bytes),
    ensures
        h.class_defs_size == n_classes(p),
        forall|ci: int|
            0 <= ci < n_classes(p) ==> (#[trigger] class_def_at(bytes, h.class_defs_off, ci)).access_flags
                == p.class_pool.spec_classes()[ci].access_flags,
        forall|ci: int|
            0 <= ci < n_classes(p) ==> (#[trigger] class_def_at(bytes, h.class_defs_off, ci)).superclass_idx
                == match p.class_pool.spec_classes()[ci].superclass_idx {
                Some(x) => x,
                None => 0xFFFF_FFFF,
            },
        forall|ci: int|
            0 <= ci < n_classes(p) && p.type_pool.spec_items().contains(
                p.class_pool.spec_classes()[ci].type_descriptor@,
            ) && p.string_pool.spec_items().contains(p.class_pool.spec_classes()[ci].type_descriptor@)
                ==> dex_type(bytes, h, (#[trigger] class_def_at(bytes, h.class_defs_off, ci)).class_idx) == Some(
                p.class_pool.spec_classes()[ci].type_descriptor@,
            ),
        forall|ci: int|
            0 <= ci < n_classes(p) && (p.class_pool.spec_classes()[ci].superclass_idx matches Some(x) && x
                < p.type_pool.spec_items().len() && p.string_pool.spec_items().contains(
                p.type_pool.spec_items()[x as int],
            )) ==> dex_type(bytes, h, (#[trigger] class_def_at(bytes, h.class_defs_off, ci)).superclass_idx)
                == Some(p.type_pool.spec_items()[p.class_pool.spec_classes()[ci].superclass_idx->0 as int]),
        forall|ci: int|
            0 <= ci < n_classes(p) && p.class_pool.spec_classes()[ci].source_file is None ==> (#[trigger] class_def_at(
                bytes,
                h.class_defs_off,
                ci,
            )).source_file_idx == 0xFFFF_FFFF,
        forall|ci: int|
            0 <= ci < n_classes(p) && (p.class_pool.spec_classes()[ci].source_file matches Some(sf)
                && p.string_pool.spec_items().contains(sf@)) ==> dex_string(
                bytes,
                h,
                (#[trigger] class_def_at(bytes, h.class_defs_off, ci)).source_file_idx,
            ) == Some(p.class_pool.spec_classes()[ci].source_file->0@),
{
    lemma_written_file_reads_back(p, size, checksum, signature, bytes);
    let types = p.type_pool.spec_items();
    let strings = p.string_pool.spec_items();
    assert forall|ci: int|
        0 <= ci < n_classes(p) && (p.class_pool.spec_classes()[ci].source_file matches Some(sf)
            && strings.contains(sf@)) implies dex_string(
        bytes,
        h,
        (#[trigger] class_def_at(bytes, h.class_defs_off, ci)).source_file_idx,
    ) == Some(p.class_pool.spec_classes()[ci].source_file->0@) by {
        let sf = p.class_pool.spec_classes()[ci].source_file->0@;
        lemma_first_index(strings, sf);
        let si = first_index(strings, sf) as u32;
        assert(class_def_at(bytes, class_defs_off(p) as u32, ci).source_file_idx == si);
        lemma_written_string_reads_back(p, bytes, h, si);
    }
    assert forall|ci: int|
        0 <= ci < n_classes(p) && p.class_pool.spec_classes()[ci].source_file is None implies (#[trigger] class_def_at(
        bytes,
        h.class_defs_off,
        ci,
    )).source_file_idx == 0xFFFF_FFFF by {
        assert(class_def_at(bytes, class_defs_off(p) as u32, ci).source_file_idx == 0xFFFF_FFFF);
    }
    assert forall|ci: int|
        0 <= ci < n_classes(p) && types.contains(p.class_pool.spec_classes()[ci].type_descriptor@)
            && p.string_pool.spec_items().contains(p.class_pool.spec_classes()[ci].type_descriptor@)
            implies dex_type(bytes, h, (#[trigger] class_def_at(bytes, h.class_defs_off, ci)).class_idx) == Some(
        p.class_pool.spec_classes()[ci].type_descriptor@,
    ) by {
        let t = p.class_pool.spec_classes()[ci].type_descriptor@;
        lemma_first_index(types, t);
        let ti = first_index(types, t) as u32;
        assert(class_def_at(bytes, class_defs_off(p) as u32, ci).class_idx == ti);
        lemma_written_type_reads_back(p, bytes, h, ti);
    }
    assert forall|ci: int|
        0 <= ci < n_classes(p) && (p.class_pool.spec_classes()[ci].superclass_idx matches Some(x) && x
            < types.len() && p.string_pool.spec_items().contains(types[x as int])) implies dex_type(
        bytes,
        h,
        (#[trigger] class_def_at(bytes, h.class_defs_off, ci)).superclass_idx,
    ) == Some(types[p.class_pool.spec_classes()[ci].superclass_idx->0 as int]) by {
        let x = p.class_pool.spec_classes()[ci].superclass_idx->0;
        assert(class_def_at(bytes, class_defs_off(p) as u32, ci).superclass_idx == x);
        lemma_written_type_reads_back(p, bytes, h, x);
    }
    assert forall|ci: int| 0 <= ci < n_classes(p) implies (#[trigger] class_def_at(
        bytes,
        h.class_defs_off,
        ci,
    )).access_flags == p.class_pool.spec_classes()[ci].access_flags by {
        assert(class_def_at(bytes, class_defs_off(p) as u32, ci).access_flags == p.class_pool.spec_classes()[ci].access_flags);
    }
    assert forall|ci: int| 0 <= ci < n_classes(p) implies (#[trigger] class_def_at(
        bytes,
        h.class_defs_off,
        ci,
    )).superclass_idx == match p.class_pool.spec_classes()[ci].superclass_idx {
        Some(x) => x,
        None => 0xFFFF_FFFF,
    } by {
        assert(class_def_at(bytes, class_defs_off(p) as u32, ci).superclass_idx == class_def_at(
            bytes,
            class_defs_off(p) as u32,
            ci,
        ).superclass_idx);
    }
}

/// Whether field `k` of the pool can be read back from a written file: its class and its type
/// are pooled types, their descriptors and its name pooled strings, and the two type indices fit
/// the 16 bits that a field id gives them.
pub open spec fn field_readable(p: DexPool, k: int) -> bool {
    let f = p.field_pool.spec_items()[k];
    let types = p.type_pool.spec_items();
    let strings = p.string_pool.spec_items();
    &&& types.contains(f.0) && strings.contains(f.0) && first_index(types, f.0) < 0x10000
    &&& types.contains(f.2) && strings.contains(f.2) && first_index(types, f.2) < 0x10000
    &&& strings.contains(f.1)
}

proof fn lemma_written_field_reads_back(p: DexPool, bytes: Seq<u8>, h: DexHeader, k: u32)
    requires
        p.wf(),
        p.string_pool.spec_items().len() <= u32::MAX,
        p.type_pool.spec_items().len() <= u32::MAX,
        strings_written(p, bytes),
        types_written(p, bytes),
        fields_written(p, bytes),
        h.string_ids_off == 0x70,
        h.string_ids_size == n_strings(p),
        h.type_ids_off == type_ids_off(p),
        h.type_ids_size == n_types(p),
        h.field_ids_off == field_ids_off(p),
        h.field_ids_size == n_fields(p),
        k < h.field_ids_size,
        field_readable(p, k as int),
    ensures
        field_ref_ok(bytes, h, k),
        dex_field_ref(bytes, h, k) == Some(p.field_pool.spec_items()[k as int]),
{
    let f = p.field_pool.spec_items()[k as int];
    let types = p.type_pool.spec_items();
    let strings = p.string_pool.spec_items();
    let item = field_id_at(bytes, h.field_ids_off, k as int);
    assert(item == field_id_at(bytes, field_ids_off(p) as u32, k as int));
    lemma_first_index(types, f.0);
    lemma_first_index(types, f.2);
    lemma_first_index(strings, f.1);
    let ci = first_index(types, f.0) as u32;
    let ti = first_index(types, f.2) as u32;
    assert(item.class_idx as u32 == ci);
    assert(item.type_idx as u32 == ti);
    lemma_written_type_reads_back(p, bytes, h, ci);
    lemma_written_type_reads_back(p, bytes, h, ti);
    lemma_written_string_reads_back(p, bytes, h, first_index(strings, f.1) as u32);
}

/// Field `k` of a written file reads back as field `k` of the pool, wherever the field is
/// readable (`field_readable`).
pub proof fn lemma_written_fields_read_back(p: DexPool, size: u32, checksum: u32, signature: Seq<u8>, bytes: Seq<u8>, h: DexHeader)
    requires
        p.wf(),
        p.string_pool.spec_items().len() <= u32::MAX,
        p.type_pool.spec_items().len() <= u32::MAX,
        bytes.len() >= 0x70,
        bytes.len() >= data_start(p),
        signature.len() == 20,
        bytes.subrange(0, 0x70) == header_bytes(p, size, checksum, signature),
        data_start(p) <= u32::MAX,
        strings_written(p, bytes),
        types_written(p, bytes),
        fields_written(p, bytes),
        header_matches(h, bytes),
    ensures
        h.field_ids_size == n_fields(p),
        forall|k: u32| k < h.field_ids_size && field_readable(p, k as int) ==> #[trigger] field_ref_ok(bytes, h, k),
        forall|k: u32|
            k < h.field_ids_size && field_readable(p, k as int) ==> #[trigger] dex_field_ref(bytes, h, k) == Some(
                p.field_pool.spec_items()[k as int],
            ),
{
    lemma_written_file_reads_back(p, size, checksum, signature, bytes);
    assert forall|k: u32| k < h.field_ids_size && field_readable(p, k as int) implies #[trigger] field_ref_ok(
        bytes,
        h,
        k,
    ) by {
        lemma_written_field_reads_back(p, bytes, h, k);
    }
    assert forall|k: u32| k < h.field_ids_size && field_readable(p, k as int) implies #[trigger] dex_field_ref(
        bytes,
        h,
        k,
    ) == Some(p.field_pool.spec_items()[k as int]) by {
        lemma_written_field_reads_back(p, bytes, h, k);
    }
}

/// Whether type `t` reads back from a written file where an index of 16 bits names it: it is a
/// pooled type whose descriptor is a pooled string, at an index below 0x10000.
pub open spec fn short_type_readable(p: DexPool, t: Seq<char>) -> bool {
    let types = p.type_pool.spec_items();
    &&& types.contains(t)
    &&& p.string_pool.spec_items().contains(t)
    &&& first_index(types, t) < 0x10000
}

/// Whether method `k` of the pool can be read back from a written file: its class and the types
/// of its parameters read back from 16-bit indices, its return type is a pooled type whose
/// descriptor is a pooled string, its name is a pooled string, and its prototype is pooled at an
/// index below 0x10000.
pub open spec fn method_readable(p: DexPool, k: int) -> bool {
    let m = p.method_pool.spec_items()[k];
    let protos = p.proto_pool.spec_items();
    &&& short_type_readable(p, m.0)
    &&& p.string_pool.spec_items().contains(m.1)
    &&& protos.contains(m.2)
    &&& first_index(protos, m.2) < 0x10000
    &&& p.type_pool.spec_items().contains(m.2.1)
    &&& p.string_pool.spec_items().contains(m.2.1)
    &&& forall|j: int| 0 <= j < m.2.2.len() ==> #[trigger] short_type_readable(p, m.2.2[j])
}

/// The known types of a list of indices that all name types are those types.
proof fn lemma_known_types_all(data: Seq<u8>, h: DexHeader, list: Seq<u32>, ts: Seq<Seq<char>>)
    requires
        list.len() == ts.len(),
        forall|j: int| 0 <= j < list.len() ==> #[trigger] dex_type(data, h, list[j]) == Some(ts[j]),
    ensures
        known_types(data, h, list) == ts,
    decreases list.len(),
{
    if list.len() > 0 {
        let n = list.len() - 1;
        assert forall|j: int| 0 <= j < list.drop_last().len() implies #[trigger] dex_type(
            data,
            h,
            list.drop_last()[j],
        ) == Some(ts.drop_last()[j]) by {
            assert(dex_type(data, h, list[j]) == Some(ts[j]));
        }
        lemma_known_types_all(data, h, list.drop_last(), ts.drop_last());
        assert(dex_type(data, h, list[n]) == Some(ts[n]));
        assert(ts.drop_last().push(ts[n]) =~= ts);
    }
}

/// A type list placed in a written file reads back as its types.
proof fn lemma_written_type_list_reads_back(p: DexPool, bytes: Seq<u8>, h: DexHeader, off: u32, ts: Seq<Seq<char>>)
    requires
        p.wf(),
        p.string_pool.spec_items().len() <= u32::MAX,
        p.type_pool.spec_items().len() <= u32::MAX,
        strings_written(p, bytes),
        types_written(p, bytes),
        h.string_ids_off == 0x70,
        h.string_ids_size == n_strings(p),
        h.type_ids_off == type_ids_off(p),
        h.type_ids_size == n_types(p),
        type_list_placed(p, bytes, off as int, ts, data_start(p), bytes.len() as int),
        forall|j: int| 0 <= j < ts.len() ==> #[trigger] short_type_readable(p, ts[j]),
    ensures
        type_list_fits(bytes, off),
        type_list(bytes, off).len() == ts.len(),
        forall|j: int|
            0 <= j < ts.len() ==> #[trigger] type_ok(bytes, h, type_list(bytes, off)[j] as u32),
        known_types(bytes, h, type_list(bytes, off).map_values(|t: u16| t as u32)) == ts,
{
    let types = p.type_pool.spec_items();
    let d = type_list_bytes(p, ts);
    lemma_type_index_bytes_len(p, ts);
    assert(off != 0) by {
        assert(data_start(p) >= 0x70);
    }
    assert(bytes.subrange(off as int, off + 4) =~= d.subrange(0, 4));
    assert(d.subrange(0, 4) =~= le_bytes_u32(ts.len() as u32));
    lemma_le32_read(bytes, off as int, ts.len() as u32);
    let list = type_list(bytes, off);
    assert forall|j: int| 0 <= j < ts.len() implies #[trigger] type_ok(bytes, h, list[j] as u32) && dex_type(
        bytes,
        h,
        list[j] as u32,
    ) == Some(ts[j]) by {
        lemma_type_index_bytes(p, ts, j);
        assert(bytes.subrange(off + 4 + 2 * j, off + 4 + 2 * j + 2) =~= type_index_bytes(p, ts).subrange(
            2 * j,
            2 * j + 2,
        )) by {
            assert(bytes.subrange(off + 4 + 2 * j, off + 4 + 2 * j + 2) =~= d.subrange(4 + 2 * j, 4 + 2 * j + 2));
        }
        lemma_le16_read(bytes, off + 4 + 2 * j, type_index_or_zero(p, ts[j]) as u16);
        lemma_first_index(types, ts[j]);
        let ti = first_index(types, ts[j]) as u32;
        assert(short_type_readable(p, ts[j]));
        assert(type_index_or_zero(p, ts[j]) == ti);
        assert(ti < 0x10000);
        assert((ti as u16) as u32 == ti) by (bit_vector)
            requires
                ti < 0x10000,
        ;
        assert(list[j] == spec_u16_le(bytes, off + 4 + 2 * j));
        assert(list[j] as u32 == ti);
        assert(ti < n_types(p));
        lemma_written_type_reads_back(p, bytes, h, ti);
    }
    let idx = list.map_values(|t: u16| t as u32);
    assert forall|j: int| 0 <= j < idx.len() implies #[trigger] dex_type(bytes, h, idx[j]) == Some(ts[j]) by {
        assert(type_ok(bytes, h, list[j] as u32));
    }
    lemma_known_types_all(bytes, h, idx, ts);
}

proof fn lemma_written_method_reads_back(p: DexPool, bytes: Seq<u8>, h: DexHeader, k: u32)
    requires
        p.wf(),
        p.string_pool.spec_items().len() <= u32::MAX,
        p.type_pool.spec_items().len() <= u32::MAX,
        p.proto_pool.spec_items().len() <= u32::MAX,
        strings_written(p, bytes),
        types_written(p, bytes),
        protos_written(p, bytes),
        methods_written(p, bytes),
        h.string_ids_off == 0x70,
        h.string_ids_size == n_strings(p),
        h.type_ids_off == type_ids_off(p),
        h.type_ids_size == n_types(p),
        h.proto_ids_off == proto_ids_off(p),
        h.proto_ids_size == n_protos(p),
        h.method_ids_off == method_ids_off(p),
        h.method_ids_size == n_methods(p),
        k < h.method_ids_size,
        method_readable(p, k as int),
    ensures
        method_ref_ok(bytes, h, k),
        dex_method_ref(bytes, h, k) == Some(
            (
                p.method_pool.spec_items()[k as int].0,
                p.method_pool.spec_items()[k as int].1,
                p.method_pool.spec_items()[k as int].2.2,
                p.method_pool.spec_items()[k as int].2.1,
            ),
        ),
{
    let m = p.method_pool.spec_items()[k as int];
    let types = p.type_pool.spec_items();
    let strings = p.string_pool.spec_items();
    let protos = p.proto_pool.spec_items();
    let item = method_id_at(bytes, h.method_ids_off, k as int);
    assert(item == method_id_at(bytes, method_ids_off(p) as u32, k as int));
    lemma_first_index(types, m.0);
    lemma_first_index(strings, m.1);
    lemma_first_index(protos, m.2);
    let ci = first_index(types, m.0) as u32;
    let pi = first_index(protos, m.2) as u32;
    assert(short_type_readable(p, m.0));
    assert(ci < 0x10000 && pi < 0x10000);
    assert((ci as u16) as u32 == ci) by (bit_vector)
        requires
            ci < 0x10000,
    ;
    assert((pi as u16) as u32 == pi) by (bit_vector)
        requires
            pi < 0x10000,
    ;
    assert(item.class_idx as u32 == ci);
    assert(item.proto_idx as u32 == pi);
    lemma_written_type_reads_back(p, bytes, h, ci);
    lemma_written_string_reads_back(p, bytes, h, first_index(strings, m.1) as u32);
    let key = protos[pi as int];
    assert(key == m.2);
    let pitem = proto_id_at(bytes, h.proto_ids_off, pi as int);
    assert(pitem == proto_id_at(bytes, proto_ids_off(p) as u32, pi as int));
    lemma_first_index(types, m.2.1);
    let ri = first_index(types, m.2.1) as u32;
    assert(pitem.return_type_idx == ri);
    lemma_written_type_reads_back(p, bytes, h, ri);
    if m.2.2.len() > 0 {
        lemma_written_type_list_reads_back(p, bytes, h, pitem.parameters_off, m.2.2);
        assert(proto_param_indices(bytes, h, pi) == type_list(bytes, pitem.parameters_off).map_values(
            |t: u16| t as u32,
        ));
        assert forall|j: int| 0 <= j < proto_param_indices(bytes, h, pi).len() implies type_ok(
            bytes,
            h,
            #[trigger] proto_param_indices(bytes, h, pi)[j],
        ) by {
            assert(type_ok(bytes, h, type_list(bytes, pitem.parameters_off)[j] as u32));
        }
    } else {
        assert(pitem.parameters_off == 0);
        assert(proto_param_indices(bytes, h, pi) =~= Seq::<u32>::empty());
        assert(m.2.2 =~= Seq::<Seq<char>>::empty());
    }
}

/// Method `k` of a written file reads back as method `k` of the pool (class, name, parameter
/// types, return type), wherever the method is readable (`method_readable`).
pub proof fn lemma_written_methods_read_back(p: DexPool, size: u32, checksum: u32, signature: Seq<u8>, bytes: Seq<u8>, h: DexHeader)
    requires
        p.wf(),
        p.string_pool.spec_items().len() <= u32::MAX,
        p.type_pool.spec_items().len() <= u32::MAX,
        p.proto_pool.spec_items().len() <= u32::MAX,
        bytes.len() >= 0x70,
        bytes.len() >= data_start(p),
        signature.len() == 20,
        bytes.subrange(0, 0x70) == header_bytes(p, size, checksum, signature),
        data_start(p) <= u32::MAX,
        strings_written(p, bytes),
        types_written(p, bytes),
        protos_written(p, bytes),
        methods_written(p, bytes),
        header_matches(h, bytes),
    ensures
        h.method_ids_size == n_methods(p),
        forall|k: u32| k < h.method_ids_size && method_readable(p, k as int) ==> #[trigger] method_ref_ok(bytes, h, k),
        forall|k: u32|
            k < h.method_ids_size && method_readable(p, k as int) ==> #[trigger] dex_method_ref(bytes, h, k) == Some(
                (
                    p.method_pool.spec_items()[k as int].0,
                    p.method_pool.spec_items()[k as int].1,
                    p.method_pool.spec_items()[k as int].2.2,
                    p.method_pool.spec_items()[k as int].2.1,
                ),
            ),
{
    lemma_written_file_reads_back(p, size, checksum, signature, bytes);
    assert forall|k: u32| k < h.method_ids_size && method_readable(p, k as int) implies #[trigger] method_ref_ok(
        bytes,
        h,
        k,
    ) by {
        lemma_written_method_reads_back(p, bytes, h, k);
    }
    assert forall|k: u32| k < h.method_ids_size && method_readable(p, k as int) implies #[trigger] dex_method_ref(
        bytes,
        h,
        k,
    ) == Some(
        (
            p.method_pool.spec_items()[k as int].0,
            p.method_pool.spec_items()[k as int].1,
            p.method_pool.spec_items()[k as int].2.2,
            p.method_pool.spec_items()[k as int].2.1,
        ),
    ) by {
        lemma_written_method_reads_back(p, bytes, h, k);
    }
}

/// The interfaces of class `ci` of a written file read back as those of pool class `ci`, wherever
/// each of them reads back from a 16-bit index (`short_type_readable`).
pub proof fn lemma_written_class_interfaces_read_back(p: DexPool, size: u32, checksum: u32, signature: Seq<u8>, bytes: Seq<u8>, h: DexHeader)
    requires
        p.wf(),
        p.string_pool.spec_items().len() <= u32::MAX,
        p.type_pool.spec_items().len() <= u32::MAX,
        bytes.len() >= 0x70,
        bytes.len() >= data_start(p),
        signature.len() == 20,
        bytes.subrange(0, 0x70) == header_bytes(p, size, checksum, signature),
        data_start(p) <= u32::MAX,
        strings_written(p, bytes),
        types_written(p, bytes),
        class_interfaces_written(p, bytes),
        header_matches(h, bytes),
    ensures
        forall|ci: int|
            0 <= ci < n_classes(p) && (forall|j: int|
                0 <= j < p.class_pool.spec_classes()[ci].interfaces@.len() ==> #[trigger] short_type_readable(
                    p,
                    p.class_pool.spec_classes()[ci].interfaces@[j]@,
                )) ==> {
                let off = (#[trigger] class_def_at(bytes, h.class_defs_off, ci)).interfaces_off;
                &&& type_list_fits(bytes, off)
                &&& forall|j: int| 0 <= j < type_list(bytes, off).len() ==> #[trigger] type_ok(bytes, h, type_list(bytes, off)[j] as u32)
                &&& known_types(bytes, h, type_list(bytes, off).map_values(|t: u16| t as u32)) == strings_view(
                    p.class_pool.spec_classes()[ci].interfaces@,
                )
            },
{
    lemma_written_file_reads_back(p, size, checksum, signature, bytes);
    assert forall|ci: int|
        0 <= ci < n_classes(p) && (forall|j: int|
            0 <= j < p.class_pool.spec_classes()[ci].interfaces@.len() ==> #[trigger] short_type_readable(
                p,
                p.class_pool.spec_classes()[ci].interfaces@[j]@,
            )) implies {
        let off = (#[trigger] class_def_at(bytes, h.class_defs_off, ci)).interfaces_off;
        &&& type_list_fits(bytes, off)
        &&& forall|j: int| 0 <= j < type_list(bytes, off).len() ==> #[trigger] type_ok(bytes, h, type_list(bytes, off)[j] as u32)
        &&& known_types(bytes, h, type_list(bytes, off).map_values(|t: u16| t as u32)) == strings_view(
            p.class_pool.spec_classes()[ci].interfaces@,
        )
    } by {
        let c = p.class_pool.spec_classes()[ci];
        let ts = strings_view(c.interfaces@);
        let off = class_def_at(bytes, h.class_defs_off, ci).interfaces_off;
        assert(class_def_at(bytes, h.class_defs_off, ci) == class_def_at(bytes, class_defs_off(p) as u32, ci));
        if c.interfaces@.len() > 0 {
            assert forall|j: int| 0 <= j < ts.len() implies #[trigger] short_type_readable(p, ts[j]) by {
                assert(short_type_readable(p, c.interfaces@[j]@));
            }
            lemma_written_type_list_reads_back(p, bytes, h, off, ts);
        } else {
            assert(off == 0);
            assert(type_list(bytes, off).map_values(|t: u16| t as u32) =~= Seq::<u32>::empty());
            assert(ts =~= Seq::<Seq<char>>::empty());
        }
    }
}

} // verus!
