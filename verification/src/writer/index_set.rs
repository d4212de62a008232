use vstd::prelude::*;
use indexmap::IndexSet;
use crate::writer::pools::{FieldKey, MethodKey, ProtoKey};

verus! {

#[verifier::external_type_specification]
#[verifier::external_body]
#[verifier::reject_recursive_types(T)]
#[verifier::reject_recursive_types(S)]
pub struct ExIndexSet<T, S>(IndexSet<T, S>);

/// The texts that a set of strings holds, in insertion order.
pub uninterp spec fn string_set_items(s: IndexSet<String>) -> Seq<Seq<char>>;

/// The prototypes that a set holds, by their views, in insertion order.
pub uninterp spec fn proto_set_items(s: IndexSet<ProtoKey>) -> Seq<(Seq<char>, Seq<char>, Seq<Seq<char>>)>;

/// The fields that a set holds, by their views, in insertion order.
pub uninterp spec fn field_set_items(s: IndexSet<FieldKey>) -> Seq<(Seq<char>, Seq<char>, Seq<char>)>;

/// The methods that a set holds, by their views, in insertion order.
pub uninterp spec fn method_set_items(s: IndexSet<MethodKey>) -> Seq<(Seq<char>, Seq<char>, (Seq<char>, Seq<char>, Seq<Seq<char>>))>;

/// What `insert_full` does to a set's items: an item equal to `v` keeps its place and its index
/// is returned with `false`; otherwise `v` goes at the end and its index is returned with `true`.
pub open spec fn inserted<V>(before: Seq<V>, after: Seq<V>, v: V, res: (usize, bool)) -> bool {
    if before.contains(v) {
        &&& after == before
        &&& !res.1
        &&& res.0 < before.len()
        &&& before[res.0 as int] == v
    } else {
        &&& after == before.push(v)
        &&& res.1
        &&& res.0 == before.len()
    }
}

/// `IndexSet::new` for strings: an empty set.
#[verifier::external_body]
pub(crate) fn string_set_new() -> (res: IndexSet<String>)
    ensures
        string_set_items(res) == Seq::<Seq<char>>::empty(),
{
    IndexSet::new()
}

/// `IndexSet::insert_full` for strings: `value` is appended unless an equal string is there, and
/// the index of the string in the set is returned (String equality compares the texts).
#[verifier::external_body]
pub(crate) fn string_set_insert_full(set: &mut IndexSet<String>, value: String) -> (res: (usize, bool))
    ensures
        inserted(string_set_items(*old(set)), string_set_items(*final(set)), value@, res),
{
    set.insert_full(value)
}

/// `IndexSet::get_index_of` for strings: the index of the string equal to `value`, if any.
#[verifier::external_body]
pub(crate) fn string_set_get_index_of(set: &IndexSet<String>, value: &str) -> (res: Option<usize>)
    ensures
        res matches Some(i) ==> i < string_set_items(*set).len() && string_set_items(*set)[i as int] == value@,
        res is None ==> !string_set_items(*set).contains(value@),
{
    set.get_index_of(value)
}

/// `IndexSet::len` for strings.
#[verifier::external_body]
pub(crate) fn string_set_len(set: &IndexSet<String>) -> (res: usize)
    ensures
        res == string_set_items(*set).len(),
{
    set.len()
}

/// `IndexSet::get_index` for strings: the string at `index`, if there is one.
#[verifier::external_body]
pub(crate) fn string_set_get_index(set: &IndexSet<String>, index: usize) -> (res: Option<&String>)
    ensures
        res is Some == (index < string_set_items(*set).len()),
        res matches Some(s) ==> s@ == string_set_items(*set)[index as int],
{
    set.get_index(index)
}

/// `IndexSet::new` for prototypes: an empty set.
#[verifier::external_body]
pub(crate) fn proto_set_new() -> (res: IndexSet<ProtoKey>)
    ensures
        proto_set_items(res) == Seq::<(Seq<char>, Seq<char>, Seq<Seq<char>>)>::empty(),
{
    IndexSet::new()
}

/// `IndexSet::insert_full` for prototypes. The key's derived equality compares every field, so
/// two keys are equal exactly when their views are.
#[verifier::external_body]
pub(crate) fn proto_set_insert_full(set: &mut IndexSet<ProtoKey>, value: ProtoKey) -> (res: (usize, bool))
    ensures
        inserted(proto_set_items(*old(set)), proto_set_items(*final(set)), value@, res),
{
    set.insert_full(value)
}

/// `IndexSet::len` for prototypes.
#[verifier::external_body]
pub(crate) fn proto_set_len(set: &IndexSet<ProtoKey>) -> (res: usize)
    ensures
        res == proto_set_items(*set).len(),
{
    set.len()
}

/// `IndexSet::get_index` for prototypes.
#[verifier::external_body]
pub(crate) fn proto_set_get_index(set: &IndexSet<ProtoKey>, index: usize) -> (res: Option<&ProtoKey>)
    ensures
        res is Some == (index < proto_set_items(*set).len()),
        res matches Some(k) ==> k@ == proto_set_items(*set)[index as int],
{
    set.get_index(index)
}

/// `IndexSet::new` for fields: an empty set.
#[verifier::external_body]
pub(crate) fn field_set_new() -> (res: IndexSet<FieldKey>)
    ensures
        field_set_items(res) == Seq::<(Seq<char>, Seq<char>, Seq<char>)>::empty(),
{
    IndexSet::new()
}

/// `IndexSet::insert_full` for fields. The key's derived equality compares every field, so two
/// keys are equal exactly when their views are.
#[verifier::external_body]
pub(crate) fn field_set_insert_full(set: &mut IndexSet<FieldKey>, value: FieldKey) -> (res: (usize, bool))
    ensures
        inserted(field_set_items(*old(set)), field_set_items(*final(set)), value@, res),
{
    set.insert_full(value)
}

/// `IndexSet::len` for fields.
#[verifier::external_body]
pub(crate) fn field_set_len(set: &IndexSet<FieldKey>) -> (res: usize)
    ensures
        res == field_set_items(*set).len(),
{
    set.len()
}

/// `IndexSet::get_index` for fields.
#[verifier::external_body]
pub(crate) fn field_set_get_index(set: &IndexSet<FieldKey>, index: usize) -> (res: Option<&FieldKey>)
    ensures
        res is Some == (index < field_set_items(*set).len()),
        res matches Some(k) ==> k@ == field_set_items(*set)[index as int],
{
    set.get_index(index)
}

/// `IndexSet::new` for methods: an empty set.
#[verifier::external_body]
pub(crate) fn method_set_new() -> (res: IndexSet<MethodKey>)
    ensures
        method_set_items(res) == Seq::<(Seq<char>, Seq<char>, (Seq<char>, Seq<char>, Seq<Seq<char>>))>::empty(),
{
    IndexSet::new()
}

/// `IndexSet::insert_full` for methods. The key's derived equality compares every field, so two
/// keys are equal exactly when their views are.
#[verifier::external_body]
pub(crate) fn method_set_insert_full(set: &mut IndexSet<MethodKey>, value: MethodKey) -> (res: (usize, bool))
    ensures
        inserted(method_set_items(*old(set)), method_set_items(*final(set)), value@, res),
{
    set.insert_full(value)
}

/// `IndexSet::len` for methods.
#[verifier::external_body]
pub(crate) fn method_set_len(set: &IndexSet<MethodKey>) -> (res: usize)
    ensures
        res == method_set_items(*set).len(),
{
    set.len()
}

/// `IndexSet::get_index` for methods.
#[verifier::external_body]
pub(crate) fn method_set_get_index(set: &IndexSet<MethodKey>, index: usize) -> (res: Option<&MethodKey>)
    ensures
        res is Some == (index < method_set_items(*set).len()),
        res matches Some(k) ==> k@ == method_set_items(*set)[index as int],
{
    set.get_index(index)
}

} // verus!
