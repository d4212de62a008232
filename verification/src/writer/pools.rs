use vstd::prelude::*;
use std::collections::HashMap;
use indexmap::IndexSet;
use crate::iface::instruction::AnyInstruction;
use crate::iface::reference::strings_view;
use crate::immutable::immutable_class_def::str_equal;
use crate::writer::index_set::{
    field_set_get_index, field_set_insert_full, field_set_items, field_set_len, field_set_new,
    method_set_get_index, method_set_insert_full, method_set_items, method_set_len, method_set_new,
    proto_set_get_index, proto_set_insert_full, proto_set_items, proto_set_len, proto_set_new,
    string_set_get_index, string_set_get_index_of, string_set_insert_full, string_set_items,
    string_set_len, string_set_new,
};

verus! {

/// A prototype as the pools key it: shorty, return type and parameter types.
#[derive(Debug, Clone, PartialEq, Eq, Hash)]
pub struct ProtoKey {
    pub shorty: String,
    pub return_type: String,
    pub parameters: Vec<String>,
}

/// A field as the pools key it.
#[derive(Debug, Clone, PartialEq, Eq, Hash)]
pub struct FieldKey {
    pub defining_class: String,
    pub name: String,
    pub field_type: String,
}

/// A method as the pools key it.
#[derive(Debug, Clone, PartialEq, Eq, Hash)]
pub struct MethodKey {
    pub defining_class: String,
    pub name: String,
    pub proto: ProtoKey,
}

impl View for ProtoKey {
    type V = (Seq<char>, Seq<char>, Seq<Seq<char>>);

    open spec fn view(&self) -> (Seq<char>, Seq<char>, Seq<Seq<char>>) {
        (self.shorty@, self.return_type@, strings_view(self.parameters@))
    }
}

impl View for FieldKey {
    type V = (Seq<char>, Seq<char>, Seq<char>);

    open spec fn view(&self) -> (Seq<char>, Seq<char>, Seq<char>) {
        (self.defining_class@, self.name@, self.field_type@)
    }
}

impl View for MethodKey {
    type V = (Seq<char>, Seq<char>, (Seq<char>, Seq<char>, Seq<Seq<char>>));

    open spec fn view(&self) -> (Seq<char>, Seq<char>, (Seq<char>, Seq<char>, Seq<Seq<char>>)) {
        (self.defining_class@, self.name@, self.proto@)
    }
}


// ---------------------------------------------------------------------------------------------
// Positions in a sequence without repeats
// ---------------------------------------------------------------------------------------------

/// The index of the first `v` in `s` at or after `i`, or the length where there is none.
pub open spec fn index_from<V>(s: Seq<V>, v: V, i: int) -> int
    decreases s.len() - i,
{
    if i < 0 || i >= s.len() {
        s.len() as int
    } else if s[i] == v {
        i
    } else {
        index_from(s, v, i + 1)
    }
}

/// The index of the first `v` in `s`, or the length where there is none.
pub open spec fn first_index<V>(s: Seq<V>, v: V) -> int {
    index_from(s, v, 0)
}

proof fn lemma_index_from<V>(s: Seq<V>, v: V, i: int)
    requires
        0 <= i <= s.len(),
    ensures
        i <= index_from(s, v, i) <= s.len(),
        index_from(s, v, i) < s.len() ==> s[index_from(s, v, i)] == v,
        forall|k: int| i <= k < index_from(s, v, i) ==> s[k] != v,
    decreases s.len() - i,
{
    if i < s.len() && s[i] != v {
        lemma_index_from(s, v, i + 1);
    }
}

/// In a sequence without repeats, the item at `k` is first found at `k`; an item that is not
/// there is found at the length.
pub proof fn lemma_first_index<V>(s: Seq<V>, v: V)
    requires
        s.no_duplicates(),
    ensures
        forall|k: int| 0 <= k < s.len() && s[k] == v ==> first_index(s, v) == k,
        !s.contains(v) ==> first_index(s, v) == s.len(),
        s.contains(v) ==> 0 <= first_index(s, v) < s.len() && s[first_index(s, v)] == v,
{
    lemma_index_from(s, v, 0);
    if !s.contains(v) {
        if first_index(s, v) < s.len() {
            assert(s[first_index(s, v)] == v);
        }
    }
    if s.contains(v) {
        let k = choose|k: int| 0 <= k < s.len() && s[k] == v;
        assert(first_index(s, v) <= k);
    }
}

/// Appending an item that is not there keeps a sequence without repeats.
pub proof fn lemma_push_no_duplicates<V>(s: Seq<V>, v: V)
    requires
        s.no_duplicates(),
        !s.contains(v),
    ensures
        s.push(v).no_duplicates(),
        first_index(s.push(v), v) == s.len(),
{
    let t = s.push(v);
    assert forall|i: int, j: int| 0 <= i < t.len() && 0 <= j < t.len() && i != j implies t[i] != t[j] by {
        if i < s.len() && j < s.len() {
        } else if i < s.len() {
            assert(s.contains(s[i]));
        } else {
            assert(s.contains(s[j]));
        }
    }
    assert(!t.take(s.len() as int).contains(v)) by {
        assert(t.take(s.len() as int) =~= s);
    }
    lemma_first_index(t, v);
    assert(t[s.len() as int] == v);
}

// ---------------------------------------------------------------------------------------------
// The order of strings by their UTF-16 code units
// ---------------------------------------------------------------------------------------------

/// The UTF-16 code units of `c`.
pub open spec fn char_utf16_units(c: char) -> Seq<u16> {
    let v = c as u32;
    if v < 0x10000 {
        seq![v as u16]
    } else {
        seq![(0xD800 + (v - 0x10000) / 0x400) as u16, (0xDC00 + (v - 0x10000) % 0x400) as u16]
    }
}

/// The UTF-16 code units of `s`, as `str::encode_utf16` gives them.
pub open spec fn utf16_units(s: Seq<char>) -> Seq<u16>
    decreases s.len(),
{
    if s.len() == 0 {
        Seq::empty()
    } else {
        utf16_units(s.drop_last()) + char_utf16_units(s.last())
    }
}

/// Whether `a` comes no later than `b` in lexicographic order, comparing from index `k` on.
pub open spec fn units_le_from(a: Seq<u16>, b: Seq<u16>, k: int) -> bool
    decreases a.len() - k,
{
    if k >= a.len() {
        true
    } else if k >= b.len() {
        false
    } else if a[k] < b[k] {
        true
    } else if a[k] > b[k] {
        false
    } else {
        units_le_from(a, b, k + 1)
    }
}

/// Whether `a` comes no later than `b` in lexicographic order, as the ordering of `Vec<u16>`
/// has it.
pub open spec fn units_le(a: Seq<u16>, b: Seq<u16>) -> bool {
    units_le_from(a, b, 0)
}

proof fn lemma_units_total(a: Seq<u16>, b: Seq<u16>, k: int)
    requires
        0 <= k,
    ensures
        units_le_from(a, b, k) || units_le_from(b, a, k),
    decreases a.len() - k,
{
    if k < a.len() && k < b.len() && a[k] == b[k] {
        lemma_units_total(a, b, k + 1);
    }
}

proof fn lemma_units_antisymmetric(a: Seq<u16>, b: Seq<u16>, k: int)
    requires
        0 <= k <= a.len(),
        k <= b.len(),
        forall|j: int| 0 <= j < k ==> a[j] == b[j],
        units_le_from(a, b, k),
        units_le_from(b, a, k),
    ensures
        a == b,
    decreases a.len() - k,
{
    if k < a.len() && k < b.len() {
        lemma_units_antisymmetric(a, b, k + 1);
    } else {
        assert(a =~= b);
    }
}

proof fn lemma_units_transitive(a: Seq<u16>, b: Seq<u16>, c: Seq<u16>, k: int)
    requires
        0 <= k,
        k <= a.len(),
        k <= b.len(),
        k <= c.len(),
        units_le_from(a, b, k),
        units_le_from(b, c, k),
    ensures
        units_le_from(a, c, k),
    decreases a.len() - k,
{
    if k < a.len() && k < b.len() && k < c.len() && a[k] == b[k] && b[k] == c[k] {
        lemma_units_transitive(a, b, c, k + 1);
    }
}

/// Whether string `i` of `units` comes before string `j`: by their code units, and by their
/// index where those are equal.
pub open spec fn key_lt(units: Seq<Seq<u16>>, i: int, j: int) -> bool {
    (units_le(units[i], units[j]) && units[i] != units[j]) || (units[i] == units[j] && i < j)
}

/// Whether `order` lists each index of `units` once, sorted by `key_lt`.
pub open spec fn sorted_order(units: Seq<Seq<u16>>, order: Seq<usize>) -> bool {
    &&& order.len() == units.len()
    &&& order.no_duplicates()
    &&& forall|k: int| 0 <= k < order.len() ==> order[k] < units.len()
    &&& forall|a: int, b: int| 0 <= a < b < order.len() ==> key_lt(units, order[a] as int, order[b] as int)
}

/// The code units of each of `items`.
pub open spec fn units_of(items: Seq<Seq<char>>) -> Seq<Seq<u16>> {
    items.map_values(|s: Seq<char>| utf16_units(s))
}

fn utf16_of(s: &str) -> (res: Vec<u16>)
    ensures
        res@ == utf16_units(s@),
{
    let mut res: Vec<u16> = Vec::new();
    let ghost chars = s@;
    for c in it: s.chars()
        invariant
            chars == s@,
            it.seq() == chars,
            res@ == utf16_units(chars.take(it.index() as int)),
    {
        proof {
            let i = it.index() as int;
            assert(chars.take(i + 1).drop_last() =~= chars.take(i));
            assert(chars.take(i + 1).last() == c);
        }
        let v = c as u32;
        if v < 0x10000 {
            res.push(v as u16);
        } else {
            res.push((0xD800 + (v - 0x10000) / 0x400) as u16);
            res.push((0xDC00 + (v - 0x10000) % 0x400) as u16);
        }
        assert(res@ =~= utf16_units(chars.take(it.index() + 1)));
    }
    assert(chars.take(chars.len() as int) =~= chars);
    res
}

fn units_le_exec(a: &Vec<u16>, b: &Vec<u16>) -> (res: bool)
    ensures
        res == units_le(a@, b@),
{
    let mut k: usize = 0;
    while k < a.len() && k < b.len() && a[k] == b[k]
        invariant
            k <= a@.len(),
            units_le_from(a@, b@, k as int) == units_le(a@, b@),
        decreases a.len() - k,
    {
        k += 1;
    }
    if k >= a.len() {
        true
    } else if k >= b.len() {
        false
    } else {
        a[k] < b[k]
    }
}

fn units_eq_exec(a: &Vec<u16>, b: &Vec<u16>) -> (res: bool)
    ensures
        res == (a@ == b@),
{
    if a.len() != b.len() {
        return false;
    }
    let mut k: usize = 0;
    while k < a.len()
        invariant
            a@.len() == b@.len(),
            k <= a@.len(),
            forall|j: int| 0 <= j < k ==> a@[j] == b@[j],
        decreases a.len() - k,
    {
        if a[k] != b[k] {
            return false;
        }
        k += 1;
    }
    assert(a@ =~= b@);
    true
}

/// `i` placed after the sorted `order` of the indices before it, where it belongs.
proof fn lemma_insert_sorted(units: Seq<Seq<u16>>, order: Seq<usize>, i: usize, p: int)
    requires
        0 <= p <= order.len(),
        i < units.len(),
        order.no_duplicates(),
        forall|k: int| 0 <= k < order.len() ==> order[k] < i,
        forall|a: int, b: int| 0 <= a < b < order.len() ==> key_lt(units, order[a] as int, order[b] as int),
        forall|a: int| 0 <= a < p ==> !(units_le(units[i as int], units[order[a] as int]) && units[i as int]
            != units[order[a] as int]),
        p < order.len() ==> units_le(units[i as int], units[order[p] as int]) && units[i as int]
            != units[order[p] as int],
    ensures
        ({
            let next = order.insert(p, i);
            &&& next.no_duplicates()
            &&& forall|a: int, b: int| 0 <= a < b < next.len() ==> key_lt(units, next[a] as int, next[b] as int)
        }),
{
    let next = order.insert(p, i);
    assert forall|a: int, b: int| 0 <= a < b < next.len() implies key_lt(units, next[a] as int, next[b] as int) by {
        let ui = units[i as int];
        if b < p || a > p {
            if b < p {
                assert(next[a] == order[a] && next[b] == order[b]);
            } else {
                assert(next[a] == order[a - 1] && next[b] == order[b - 1]);
            }
        } else if a < p && b == p {
            let ua = units[order[a] as int];
            lemma_units_total(ui, ua, 0);
            assert(next[a] == order[a]);
        } else if a == p {
            let up = units[order[p] as int];
            assert(next[b] == order[b - 1]);
            let ub = units[order[b - 1] as int];
            lemma_units_total(up, up, 0);
            lemma_units_total(ub, ub, 0);
            if b - 1 > p {
                assert(key_lt(units, order[p] as int, order[b - 1] as int));
            }
            assert(units_le(up, ub));
            lemma_units_transitive(ui, up, ub, 0);
            if ui == ub {
                lemma_units_antisymmetric(up, ub, 0);
            }
        } else {
            assert(a < p && b > p);
            assert(next[a] == order[a] && next[b] == order[b - 1]);
            if b - 1 > a {
            }
        }
    }
    assert forall|a: int, b: int| 0 <= a < next.len() && 0 <= b < next.len() && a != b implies next[a] != next[b] by {
        if a == p || b == p {
            if a != p {
                assert(next[a] < i);
            }
            if b != p {
                assert(next[b] < i);
            }
        } else {
            let oa = if a < p { a } else { a - 1 };
            let ob = if b < p { b } else { b - 1 };
            assert(next[a] == order[oa] && next[b] == order[ob]);
        }
    }
}


// ---------------------------------------------------------------------------------------------
// Strings and types
// ---------------------------------------------------------------------------------------------

/// The strings of a DEX file, each once, at the index where it was first added; and, once
/// sorted, their order by UTF-16 code units.
pub struct StringPool {
    strings: IndexSet<String>,
    sorted: bool,
    sorted_indices: Vec<usize>,
}

impl StringPool {
    /// The strings, in the order they were first added.
    pub closed spec fn spec_items(&self) -> Seq<Seq<char>> {
        string_set_items(self.strings)
    }

    /// Whether the sorted order is up to date.
    pub closed spec fn spec_sorted(&self) -> bool {
        self.sorted
    }

    /// The indices of the strings in the last sorted order.
    pub closed spec fn spec_sorted_indices(&self) -> Seq<usize> {
        self.sorted_indices@
    }

    /// Each string is there once, the sorted order names strings that are there, and where it is
    /// up to date it lists each string once by UTF-16 order.
    pub open spec fn wf(&self) -> bool {
        &&& self.spec_items().no_duplicates()
        &&& forall|k: int| 0 <= k < self.spec_sorted_indices().len() ==> self.spec_sorted_indices()[k] < self.spec_items().len()
        &&& self.spec_sorted() ==> sorted_order(units_of(self.spec_items()), self.spec_sorted_indices())
    }

    pub fn new() -> (res: Self)
        ensures
            res.wf(),
            res.spec_items() == Seq::<Seq<char>>::empty(),
            !res.spec_sorted(),
            res.spec_sorted_indices() == Seq::<usize>::empty(),
    {
        let res = StringPool { strings: string_set_new(), sorted: false, sorted_indices: Vec::new() };
        assert(res.spec_items().no_duplicates());
        res
    }

    /// Adds `s` unless it is there, and returns its index. The sorted order is out of date
    /// afterwards.
    pub fn intern(&mut self, s: &str) -> (res: u32)
        requires
            old(self).wf(),
        ensures
            final(self).wf(),
            !final(self).spec_sorted(),
            final(self).spec_items() == if old(self).spec_items().contains(s@) {
                old(self).spec_items()
            } else {
                old(self).spec_items().push(s@)
            },
            res == first_index(final(self).spec_items(), s@) as u32,
            final(self).spec_sorted_indices() == old(self).spec_sorted_indices(),
    {
        let ghost before = self.spec_items();
        self.sorted = false;
        let (idx, _) = string_set_insert_full(&mut self.strings, s.to_owned());
        proof {
            if before.contains(s@) {
                lemma_first_index(before, s@);
            } else {
                lemma_push_no_duplicates(before, s@);
            }
            assert(self.spec_items().no_duplicates());
            assert(before.len() <= self.spec_items().len());
            assert(self.sorted_indices@ == old(self).sorted_indices@);
            assert forall|k: int| 0 <= k < self.spec_sorted_indices().len() implies self.spec_sorted_indices()[k]
                < self.spec_items().len() by {
                assert(old(self).spec_sorted_indices()[k] < before.len());
            }
        }
        idx as u32
    }

    /// The index of `s`, if it is there.
    pub fn get_index(&self, s: &str) -> (res: Option<u32>)
        requires
            self.wf(),
        ensures
            res == if self.spec_items().contains(s@) {
                Some(first_index(self.spec_items(), s@) as u32)
            } else {
                None
            },
    {
        proof {
            lemma_first_index(self.spec_items(), s@);
        }
        match string_set_get_index_of(&self.strings, s) {
            Some(i) => Some(i as u32),
            None => None,
        }
    }

    /// The number of strings, truncated to 32 bits.
    pub fn count(&self) -> (res: u32)
        ensures
            res == self.spec_items().len() as u32,
    {
        string_set_len(&self.strings) as u32
    }

    /// String `idx`, if there is one.
    pub fn get(&self, idx: u32) -> (res: Option<&str>)
        ensures
            res is Some == (idx < self.spec_items().len()),
            res matches Some(t) ==> t@ == self.spec_items()[idx as int],
    {
        match string_set_get_index(&self.strings, idx as usize) {
            Some(t) => Some(t.as_str()),
            None => None,
        }
    }

    /// Brings the sorted order up to date: every index once, by the UTF-16 code units of the
    /// strings (the order of `Vec<u16>`), equal ones by index.
    pub fn ensure_sorted(&mut self)
        requires
            old(self).wf(),
        ensures
            final(self).wf(),
            final(self).spec_sorted(),
            final(self).spec_items() == old(self).spec_items(),
            old(self).spec_sorted() ==> final(self).spec_sorted_indices() == old(self).spec_sorted_indices(),
    {
        if self.sorted {
            return;
        }
        let ghost items = self.spec_items();
        let ghost units = units_of(items);
        let n = string_set_len(&self.strings);
        let mut us: Vec<Vec<u16>> = Vec::new();
        let mut i: usize = 0;
        while i < n
            invariant
                n == items.len(),
                items == self.spec_items(),
                units == units_of(items),
                i <= n,
                us@.len() == i,
                forall|k: int| 0 <= k < i ==> #[trigger] us@[k]@ == units[k],
            decreases n - i,
        {
            let s = match string_set_get_index(&self.strings, i) {
                Some(s) => s,
                None => {
                    return;
                },
            };
            us.push(utf16_of(s.as_str()));
            i += 1;
        }
        let mut order: Vec<usize> = Vec::new();
        let mut i: usize = 0;
        while i < n
            invariant
                n == items.len() == units.len() == us@.len(),
                units == units_of(items),
                forall|k: int| 0 <= k < n ==> #[trigger] us@[k]@ == units[k],
                i <= n,
                order@.len() == i,
                order@.no_duplicates(),
                forall|k: int| 0 <= k < order@.len() ==> order@[k] < i,
                forall|a: int, b: int| 0 <= a < b < order@.len() ==> key_lt(units, order@[a] as int, order@[b] as int),
            decreases n - i,
        {
            let mut p: usize = 0;
            while p < order.len() && !(units_le_exec(&us[i], &us[order[p]]) && !units_eq_exec(&us[i], &us[order[p]]))
                invariant
                    i < n,
                    n == units.len() == us@.len(),
                    forall|k: int| 0 <= k < n ==> #[trigger] us@[k]@ == units[k],
                    forall|k: int| 0 <= k < order@.len() ==> order@[k] < i,
                    p <= order@.len(),
                    forall|a: int| 0 <= a < p ==> !(units_le(units[i as int], units[order@[a] as int])
                        && units[i as int] != units[order@[a] as int]),
                decreases order.len() - p,
            {
                p += 1;
            }
            proof {
                lemma_insert_sorted(units, order@, i, p as int);
            }
            let ghost before = order@;
            order.insert(p, i);
            assert forall|k: int| 0 <= k < order@.len() implies order@[k] < i + 1 by {
                if k < p {
                    assert(order@[k] == before[k]);
                } else if k > p {
                    assert(order@[k] == before[k - 1]);
                }
            }
            i += 1;
        }
        self.sorted_indices = order;
        self.sorted = true;
    }

    /// Where string `original_idx` stands in the sorted order, or `original_idx` itself where the
    /// sorted order does not name it.
    pub fn sorted_index(&self, original_idx: u32) -> (res: u32)
        ensures
            res == if self.spec_sorted_indices().contains(original_idx as usize) {
                first_index(self.spec_sorted_indices(), original_idx as usize) as u32
            } else {
                original_idx
            },
    {
        let ghost v = self.sorted_indices@;
        let mut k: usize = 0;
        while k < self.sorted_indices.len()
            invariant
                v == self.sorted_indices@,
                k <= v.len(),
                index_from(v, original_idx as usize, k as int) == first_index(v, original_idx as usize),
                forall|j: int| 0 <= j < k ==> v[j] != original_idx as usize,
            decreases self.sorted_indices.len() - k,
        {
            if self.sorted_indices[k] == original_idx as usize {
                assert(v.contains(original_idx as usize));
                return k as u32;
            }
            k += 1;
        }
        assert(!v.contains(original_idx as usize));
        original_idx
    }

    /// The strings in the last sorted order, each with its place in it.
    pub fn iter_sorted(&self) -> (res: Vec<(u32, &str)>)
        requires
            self.wf(),
        ensures
            res@.len() == self.spec_sorted_indices().len(),
            forall|k: int| 0 <= k < res@.len() ==> #[trigger] res@[k].0 == k as u32 && res@[k].1@
                == self.spec_items()[self.spec_sorted_indices()[k] as int],
    {
        let mut res: Vec<(u32, &str)> = Vec::new();
        let mut k: usize = 0;
        while k < self.sorted_indices.len()
            invariant
                self.wf(),
                k <= self.sorted_indices@.len(),
                res@.len() == k,
                forall|j: int| 0 <= j < k ==> #[trigger] res@[j].0 == j as u32 && res@[j].1@
                    == self.spec_items()[self.sorted_indices@[j] as int],
            decreases self.sorted_indices.len() - k,
        {
            let orig = self.sorted_indices[k];
            match string_set_get_index(&self.strings, orig) {
                Some(t) => {
                    res.push((k as u32, t.as_str()));
                },
                None => {
                    return res;
                },
            }
            k += 1;
        }
        res
    }
}

impl Default for StringPool {
    fn default() -> (res: Self)
        ensures
            res.wf(),
            res.spec_items() == Seq::<Seq<char>>::empty(),
            !res.spec_sorted(),
    {
        StringPool::new()
    }
}

/// The type descriptors of a DEX file, each once, at the index where it was first added, with a
/// string pool of their own.
pub struct TypePool {
    types: IndexSet<String>,
    string_pool: StringPool,
}

impl TypePool {
    /// The type descriptors, in the order they were first added.
    pub closed spec fn spec_items(&self) -> Seq<Seq<char>> {
        string_set_items(self.types)
    }

    /// The string pool that this pool holds.
    pub closed spec fn spec_string_pool(&self) -> StringPool {
        self.string_pool
    }

    /// Each type is there once.
    pub open spec fn wf(&self) -> bool {
        self.spec_items().no_duplicates()
    }

    pub fn new(string_pool: StringPool) -> (res: Self)
        ensures
            res.wf(),
            res.spec_items() == Seq::<Seq<char>>::empty(),
            res.spec_string_pool() == string_pool,
    {
        let res = TypePool { types: string_set_new(), string_pool };
        assert(res.spec_items().no_duplicates());
        res
    }

    /// Adds `type_descriptor` unless it is there, and returns its index.
    pub fn intern(&mut self, type_descriptor: &str) -> (res: u32)
        requires
            old(self).wf(),
        ensures
            final(self).wf(),
            final(self).spec_items() == if old(self).spec_items().contains(type_descriptor@) {
                old(self).spec_items()
            } else {
                old(self).spec_items().push(type_descriptor@)
            },
            res == first_index(final(self).spec_items(), type_descriptor@) as u32,
            final(self).spec_string_pool() == old(self).spec_string_pool(),
    {
        let ghost before = self.spec_items();
        let (idx, _) = string_set_insert_full(&mut self.types, type_descriptor.to_owned());
        proof {
            if before.contains(type_descriptor@) {
                lemma_first_index(before, type_descriptor@);
            } else {
                lemma_push_no_duplicates(before, type_descriptor@);
            }
        }
        idx as u32
    }

    /// The index of `type_descriptor`, if it is there.
    pub fn get_index(&self, type_descriptor: &str) -> (res: Option<u32>)
        requires
            self.wf(),
        ensures
            res == if self.spec_items().contains(type_descriptor@) {
                Some(first_index(self.spec_items(), type_descriptor@) as u32)
            } else {
                None
            },
    {
        proof {
            lemma_first_index(self.spec_items(), type_descriptor@);
        }
        match string_set_get_index_of(&self.types, type_descriptor) {
            Some(i) => Some(i as u32),
            None => None,
        }
    }

    /// The number of types, truncated to 32 bits.
    pub fn count(&self) -> (res: u32)
        ensures
            res == self.spec_items().len() as u32,
    {
        string_set_len(&self.types) as u32
    }

    /// Type `idx`, if there is one.
    pub fn get(&self, idx: u32) -> (res: Option<&str>)
        ensures
            res is Some == (idx < self.spec_items().len()),
            res matches Some(t) ==> t@ == self.spec_items()[idx as int],
    {
        match string_set_get_index(&self.types, idx as usize) {
            Some(t) => Some(t.as_str()),
            None => None,
        }
    }

    pub fn string_pool(&self) -> (res: &StringPool)
        ensures
            *res == self.spec_string_pool(),
    {
        &self.string_pool
    }

    pub fn string_pool_mut(&mut self) -> (res: &mut StringPool)
        ensures
            *res == old(self).spec_string_pool(),
            final(self).spec_string_pool() == *final(res),
            final(self).spec_items() == old(self).spec_items(),
    {
        &mut self.string_pool
    }
}


// ---------------------------------------------------------------------------------------------
// Prototypes, fields and methods
// ---------------------------------------------------------------------------------------------

/// Whether two lists of strings hold the same texts.
pub fn strings_equal(a: &[String], b: &[String]) -> (res: bool)
    ensures
        res == (strings_view(a@) == strings_view(b@)),
{
    if a.len() != b.len() {
        assert(strings_view(a@).len() != strings_view(b@).len());
        return false;
    }
    let mut k: usize = 0;
    while k < a.len()
        invariant
            a@.len() == b@.len(),
            k <= a@.len(),
            forall|j: int| 0 <= j < k ==> a@[j]@ == b@[j]@,
        decreases a.len() - k,
    {
        if !str_equal(a[k].as_str(), b[k].as_str()) {
            assert(strings_view(a@)[k as int] != strings_view(b@)[k as int]);
            return false;
        }
        k += 1;
    }
    assert(strings_view(a@) =~= strings_view(b@));
    true
}

/// Whether two prototype keys are equal.
pub fn proto_key_equal(a: &ProtoKey, b: &ProtoKey) -> (res: bool)
    ensures
        res == (a@ == b@),
{
    str_equal(a.shorty.as_str(), b.shorty.as_str()) && str_equal(a.return_type.as_str(), b.return_type.as_str())
        && strings_equal(a.parameters.as_slice(), b.parameters.as_slice())
}

/// The prototypes of a DEX file, each once, at the index where it was first added.
pub struct ProtoPool {
    protos: IndexSet<ProtoKey>,
}

impl ProtoPool {
    /// The prototypes, by their views, in the order they were first added.
    pub closed spec fn spec_items(&self) -> Seq<(Seq<char>, Seq<char>, Seq<Seq<char>>)> {
        proto_set_items(self.protos)
    }

    /// Each prototype is there once.
    pub open spec fn wf(&self) -> bool {
        self.spec_items().no_duplicates()
    }

    pub fn new() -> (res: Self)
        ensures
            res.wf(),
            res.spec_items() == Seq::<(Seq<char>, Seq<char>, Seq<Seq<char>>)>::empty(),
    {
        let res = ProtoPool { protos: proto_set_new() };
        assert(res.spec_items().no_duplicates());
        res
    }

    /// Adds the prototype unless it is there, and returns its index.
    pub fn intern(&mut self, shorty: &str, return_type: &str, parameters: Vec<String>) -> (res: u32)
        requires
            old(self).wf(),
        ensures
            ({
                let key = (shorty@, return_type@, strings_view(parameters@));
                &&& final(self).wf()
                &&& final(self).spec_items() == if old(self).spec_items().contains(key) {
                    old(self).spec_items()
                } else {
                    old(self).spec_items().push(key)
                }
                &&& res == first_index(final(self).spec_items(), key) as u32
            }),
    {
        let ghost before = self.spec_items();
        let key = ProtoKey { shorty: shorty.to_owned(), return_type: return_type.to_owned(), parameters };
        let ghost kv = key@;
        let (idx, _) = proto_set_insert_full(&mut self.protos, key);
        proof {
            if before.contains(kv) {
                lemma_first_index(before, kv);
            } else {
                lemma_push_no_duplicates(before, kv);
            }
        }
        idx as u32
    }

    /// The index of the prototype, if it is there.
    pub fn get_index(&self, shorty: &str, return_type: &str, parameters: &[String]) -> (res: Option<u32>)
        requires
            self.wf(),
        ensures
            ({
                let key = (shorty@, return_type@, strings_view(parameters@));
                res == if self.spec_items().contains(key) {
                    Some(first_index(self.spec_items(), key) as u32)
                } else {
                    None
                }
            }),
    {
        let ghost key = (shorty@, return_type@, strings_view(parameters@));
        let ghost items = self.spec_items();
        proof {
            lemma_first_index(items, key);
        }
        let n = proto_set_len(&self.protos);
        let mut k: usize = 0;
        while k < n
            invariant
                n == items.len(),
                items == self.spec_items(),
                key == (shorty@, return_type@, strings_view(parameters@)),
                items.no_duplicates(),
                k <= n,
                forall|j: int| 0 <= j < k ==> items[j] != key,
            decreases n - k,
        {
            match proto_set_get_index(&self.protos, k) {
                Some(p) => {
                    if str_equal(p.shorty.as_str(), shorty) && str_equal(p.return_type.as_str(), return_type)
                        && strings_equal(p.parameters.as_slice(), parameters) {
                        assert(items[k as int] == key);
                        proof {
                            lemma_first_index(items, key);
                        }
                        return Some(k as u32);
                    }
                },
                None => {},
            }
            k += 1;
        }
        assert(!items.contains(key));
        None
    }

    /// The number of prototypes, truncated to 32 bits.
    pub fn count(&self) -> (res: u32)
        ensures
            res == self.spec_items().len() as u32,
    {
        proto_set_len(&self.protos) as u32
    }

    /// Prototype `idx`, if there is one.
    pub fn get(&self, idx: u32) -> (res: Option<&ProtoKey>)
        ensures
            res is Some == (idx < self.spec_items().len()),
            res matches Some(k) ==> k@ == self.spec_items()[idx as int],
    {
        proto_set_get_index(&self.protos, idx as usize)
    }
}

impl Default for ProtoPool {
    fn default() -> (res: Self)
        ensures
            res.wf(),
            res.spec_items() == Seq::<(Seq<char>, Seq<char>, Seq<Seq<char>>)>::empty(),
    {
        ProtoPool::new()
    }
}

/// The fields of a DEX file, each once, at the index where it was first added.
pub struct FieldPool {
    fields: IndexSet<FieldKey>,
}

impl FieldPool {
    /// The fields, by their views, in the order they were first added.
    pub closed spec fn spec_items(&self) -> Seq<(Seq<char>, Seq<char>, Seq<char>)> {
        field_set_items(self.fields)
    }

    /// Each field is there once.
    pub open spec fn wf(&self) -> bool {
        self.spec_items().no_duplicates()
    }

    pub fn new() -> (res: Self)
        ensures
            res.wf(),
            res.spec_items() == Seq::<(Seq<char>, Seq<char>, Seq<char>)>::empty(),
    {
        let res = FieldPool { fields: field_set_new() };
        assert(res.spec_items().no_duplicates());
        res
    }

    /// Adds the field unless it is there, and returns its index.
    pub fn intern(&mut self, defining_class: &str, name: &str, field_type: &str) -> (res: u32)
        requires
            old(self).wf(),
        ensures
            ({
                let key = (defining_class@, name@, field_type@);
                &&& final(self).wf()
                &&& final(self).spec_items() == if old(self).spec_items().contains(key) {
                    old(self).spec_items()
                } else {
                    old(self).spec_items().push(key)
                }
                &&& res == first_index(final(self).spec_items(), key) as u32
            }),
    {
        let ghost before = self.spec_items();
        let key = FieldKey {
            defining_class: defining_class.to_owned(),
            name: name.to_owned(),
            field_type: field_type.to_owned(),
        };
        let ghost kv = key@;
        let (idx, _) = field_set_insert_full(&mut self.fields, key);
        proof {
            if before.contains(kv) {
                lemma_first_index(before, kv);
            } else {
                lemma_push_no_duplicates(before, kv);
            }
        }
        idx as u32
    }

    /// The index of the field, if it is there.
    pub fn get_index(&self, defining_class: &str, name: &str, field_type: &str) -> (res: Option<u32>)
        requires
            self.wf(),
        ensures
            ({
                let key = (defining_class@, name@, field_type@);
                res == if self.spec_items().contains(key) {
                    Some(first_index(self.spec_items(), key) as u32)
                } else {
                    None
                }
            }),
    {
        let ghost key = (defining_class@, name@, field_type@);
        let ghost items = self.spec_items();
        proof {
            lemma_first_index(items, key);
        }
        let n = field_set_len(&self.fields);
        let mut k: usize = 0;
        while k < n
            invariant
                n == items.len(),
                items == self.spec_items(),
                key == (defining_class@, name@, field_type@),
                items.no_duplicates(),
                k <= n,
                forall|j: int| 0 <= j < k ==> items[j] != key,
            decreases n - k,
        {
            match field_set_get_index(&self.fields, k) {
                Some(f) => {
                    if str_equal(f.defining_class.as_str(), defining_class) && str_equal(f.name.as_str(), name)
                        && str_equal(f.field_type.as_str(), field_type) {
                        assert(items[k as int] == key);
                        proof {
                            lemma_first_index(items, key);
                        }
                        return Some(k as u32);
                    }
                },
                None => {},
            }
            k += 1;
        }
        assert(!items.contains(key));
        None
    }

    /// The number of fields, truncated to 32 bits.
    pub fn count(&self) -> (res: u32)
        ensures
            res == self.spec_items().len() as u32,
    {
        field_set_len(&self.fields) as u32
    }

    /// Field `idx`, if there is one.
    pub fn get(&self, idx: u32) -> (res: Option<&FieldKey>)
        ensures
            res is Some == (idx < self.spec_items().len()),
            res matches Some(k) ==> k@ == self.spec_items()[idx as int],
    {
        field_set_get_index(&self.fields, idx as usize)
    }
}

impl Default for FieldPool {
    fn default() -> (res: Self)
        ensures
            res.wf(),
            res.spec_items() == Seq::<(Seq<char>, Seq<char>, Seq<char>)>::empty(),
    {
        FieldPool::new()
    }
}

/// The methods of a DEX file, each once, at the index where it was first added.
pub struct MethodPool {
    methods: IndexSet<MethodKey>,
}

impl MethodPool {
    /// The methods, by their views, in the order they were first added.
    pub closed spec fn spec_items(&self) -> Seq<(Seq<char>, Seq<char>, (Seq<char>, Seq<char>, Seq<Seq<char>>))> {
        method_set_items(self.methods)
    }

    /// Each method is there once.
    pub open spec fn wf(&self) -> bool {
        self.spec_items().no_duplicates()
    }

    pub fn new() -> (res: Self)
        ensures
            res.wf(),
            res.spec_items() == Seq::<(Seq<char>, Seq<char>, (Seq<char>, Seq<char>, Seq<Seq<char>>))>::empty(),
    {
        let res = MethodPool { methods: method_set_new() };
        assert(res.spec_items().no_duplicates());
        res
    }

    /// Adds the method unless it is there, and returns its index.
    pub fn intern(&mut self, defining_class: &str, name: &str, proto: ProtoKey) -> (res: u32)
        requires
            old(self).wf(),
        ensures
            ({
                let key = (defining_class@, name@, proto@);
                &&& final(self).wf()
                &&& final(self).spec_items() == if old(self).spec_items().contains(key) {
                    old(self).spec_items()
                } else {
                    old(self).spec_items().push(key)
                }
                &&& res == first_index(final(self).spec_items(), key) as u32
            }),
    {
        let ghost before = self.spec_items();
        let key = MethodKey { defining_class: defining_class.to_owned(), name: name.to_owned(), proto };
        let ghost kv = key@;
        let (idx, _) = method_set_insert_full(&mut self.methods, key);
        proof {
            if before.contains(kv) {
                lemma_first_index(before, kv);
            } else {
                lemma_push_no_duplicates(before, kv);
            }
        }
        idx as u32
    }

    /// The index of the method, if it is there.
    pub fn get_index(&self, defining_class: &str, name: &str, proto: &ProtoKey) -> (res: Option<u32>)
        requires
            self.wf(),
        ensures
            ({
                let key = (defining_class@, name@, proto@);
                res == if self.spec_items().contains(key) {
                    Some(first_index(self.spec_items(), key) as u32)
                } else {
                    None
                }
            }),
    {
        let ghost key = (defining_class@, name@, proto@);
        let ghost items = self.spec_items();
        proof {
            lemma_first_index(items, key);
        }
        let n = method_set_len(&self.methods);
        let mut k: usize = 0;
        while k < n
            invariant
                n == items.len(),
                items == self.spec_items(),
                key == (defining_class@, name@, proto@),
                items.no_duplicates(),
                k <= n,
                forall|j: int| 0 <= j < k ==> items[j] != key,
            decreases n - k,
        {
            match method_set_get_index(&self.methods, k) {
                Some(m) => {
                    if str_equal(m.defining_class.as_str(), defining_class) && str_equal(m.name.as_str(), name)
                        && proto_key_equal(&m.proto, proto) {
                        assert(items[k as int] == key);
                        proof {
                            lemma_first_index(items, key);
                        }
                        return Some(k as u32);
                    }
                },
                None => {},
            }
            k += 1;
        }
        assert(!items.contains(key));
        None
    }

    /// The number of methods, truncated to 32 bits.
    pub fn count(&self) -> (res: u32)
        ensures
            res == self.spec_items().len() as u32,
    {
        method_set_len(&self.methods) as u32
    }

    /// Method `idx`, if there is one.
    pub fn get(&self, idx: u32) -> (res: Option<&MethodKey>)
        ensures
            res is Some == (idx < self.spec_items().len()),
            res matches Some(k) ==> k@ == self.spec_items()[idx as int],
    {
        method_set_get_index(&self.methods, idx as usize)
    }
}

impl Default for MethodPool {
    fn default() -> (res: Self)
        ensures
            res.wf(),
            res.spec_items() == Seq::<(Seq<char>, Seq<char>, (Seq<char>, Seq<char>, Seq<Seq<char>>))>::empty(),
    {
        MethodPool::new()
    }
}

/// A class to be written.
#[derive(Debug)]
pub struct ClassEntry {
    pub type_descriptor: String,
    pub access_flags: u32,
    pub superclass_idx: Option<u32>,
    pub interfaces: Vec<String>,
    pub source_file: Option<String>,
    pub static_fields: Vec<FieldEntry>,
    pub instance_fields: Vec<FieldEntry>,
    pub direct_methods: Vec<MethodEntry>,
    pub virtual_methods: Vec<MethodEntry>,
}

/// A field of a class to be written.
#[derive(Debug, Clone)]
pub struct FieldEntry {
    pub name: String,
    pub field_type: String,
    pub access_flags: u32,
}

/// A method of a class to be written.
#[derive(Debug)]
pub struct MethodEntry {
    pub name: String,
    pub proto: ProtoKey,
    pub access_flags: u32,
    pub implementation: Option<MethodImplEntry>,
}

/// The code of a method to be written.
#[derive(Debug)]
pub struct MethodImplEntry {
    pub register_count: u16,
    pub instructions: Vec<AnyInstruction>,
    pub debug_info_off: u32,
}

/// The classes to be written, in the order they were added.
pub struct ClassPool {
    class_defs: Vec<ClassEntry>,
    class_indices: HashMap<String, u32>,
}

impl ClassPool {
    /// The classes, in the order they were added.
    pub closed spec fn spec_classes(&self) -> Seq<ClassEntry> {
        self.class_defs@
    }

    pub fn new() -> (res: Self)
        ensures
            res.spec_classes() == Seq::<ClassEntry>::empty(),
    {
        ClassPool { class_defs: Vec::new(), class_indices: HashMap::new() }
    }

    /// Adds a class at the end and returns its index.
    pub fn intern(&mut self, entry: ClassEntry) -> (res: u32)
        ensures
            final(self).spec_classes() == old(self).spec_classes().push(entry),
            res == old(self).spec_classes().len() as u32,
    {
        let idx = self.class_defs.len() as u32;
        self.class_indices.insert(entry.type_descriptor.clone(), idx);
        self.class_defs.push(entry);
        idx
    }

    /// The number of classes, truncated to 32 bits.
    pub fn count(&self) -> (res: u32)
        ensures
            res == self.spec_classes().len() as u32,
    {
        self.class_defs.len() as u32
    }

    /// Class `idx`, if there is one.
    pub fn get(&self, idx: u32) -> (res: Option<&ClassEntry>)
        ensures
            idx < self.spec_classes().len() ==> res == Some(&self.spec_classes()[idx as int]),
            idx >= self.spec_classes().len() ==> res is None,
    {
        if (idx as usize) < self.class_defs.len() {
            Some(&self.class_defs[idx as usize])
        } else {
            None
        }
    }

    /// The classes with their indices, in order.
    pub fn iter(&self) -> (res: Vec<(u32, &ClassEntry)>)
        ensures
            res@.len() == self.spec_classes().len(),
            forall|i: int|
                0 <= i < res@.len() ==> #[trigger] res@[i] == (i as u32, &self.spec_classes()[i]),
    {
        let mut res: Vec<(u32, &ClassEntry)> = Vec::new();
        let mut i: usize = 0;
        while i < self.class_defs.len()
            invariant
                i <= self.class_defs@.len(),
                res@.len() == i,
                forall|k: int|
                    0 <= k < i ==> #[trigger] res@[k] == (k as u32, &self.class_defs@[k]),
            decreases self.class_defs.len() - i,
        {
            res.push((i as u32, &self.class_defs[i]));
            i += 1;
        }
        res
    }
}

impl Default for ClassPool {
    fn default() -> (res: Self)
        ensures
            res.spec_classes() == Seq::<ClassEntry>::empty(),
    {
        ClassPool::new()
    }
}

} // verus!
