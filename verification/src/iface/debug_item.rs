use vstd::prelude::*;
use crate::base::text::{decimal, push_decimal, text};

verus! {

/// One entry of a method's debug information.
#[derive(Debug, Clone)]
pub enum DebugItem {
    StartLocal(StartLocal),
    EndLocal(EndLocal),
    RestartLocal(RestartLocal),
    PrologueEnd,
    EpilogueBegin,
    SetSourceFile(SetSourceFile),
    LineNumber(LineNumber),
}

/// A local variable comes into scope.
#[derive(Debug, Clone)]
pub struct StartLocal {
    pub code_address: u32,
    pub register: u16,
    pub name: Option<String>,
    pub type_descriptor: Option<String>,
    pub signature: Option<String>,
}

/// A local variable goes out of scope.
#[derive(Debug, Clone)]
pub struct EndLocal {
    pub code_address: u32,
    pub register: u16,
}

/// A local variable comes back into scope.
#[derive(Debug, Clone)]
pub struct RestartLocal {
    pub code_address: u32,
    pub register: u16,
}

/// The source file of the code that follows.
#[derive(Debug, Clone)]
pub struct SetSourceFile {
    pub source_file: Option<String>,
}

/// A source line starts at an address.
#[derive(Debug, Clone)]
pub struct LineNumber {
    pub code_address: u32,
    pub line: u32,
}

/// The code address an item applies to; 0 for the items that carry none.
pub open spec fn debug_item_address(item: DebugItem) -> u32 {
    match item {
        DebugItem::StartLocal(i) => i.code_address,
        DebugItem::EndLocal(i) => i.code_address,
        DebugItem::RestartLocal(i) => i.code_address,
        DebugItem::PrologueEnd => 0,
        DebugItem::EpilogueBegin => 0,
        DebugItem::SetSourceFile(_) => 0,
        DebugItem::LineNumber(i) => i.code_address,
    }
}

/// A copy of an optional string.
pub fn copy_opt_string(s: &Option<String>) -> (res: Option<String>)
    ensures
        res == *s,
{
    match s {
        Some(v) => Some(v.clone()),
        None => None,
    }
}

impl DebugItem {
    pub fn code_address(&self) -> (res: u32)
        ensures
            res == debug_item_address(*self),
    {
        match self {
            DebugItem::StartLocal(item) => item.code_address,
            DebugItem::EndLocal(item) => item.code_address,
            DebugItem::RestartLocal(item) => item.code_address,
            DebugItem::PrologueEnd => 0,
            DebugItem::EpilogueBegin => 0,
            DebugItem::SetSourceFile(_) => 0,
            DebugItem::LineNumber(item) => item.code_address,
        }
    }

    /// An identical copy of the item.
    pub fn duplicate(&self) -> (res: DebugItem)
        ensures
            res == *self,
    {
        match self {
            DebugItem::StartLocal(item) => DebugItem::StartLocal(
                StartLocal {
                    code_address: item.code_address,
                    register: item.register,
                    name: copy_opt_string(&item.name),
                    type_descriptor: copy_opt_string(&item.type_descriptor),
                    signature: copy_opt_string(&item.signature),
                },
            ),
            DebugItem::EndLocal(item) => DebugItem::EndLocal(
                EndLocal { code_address: item.code_address, register: item.register },
            ),
            DebugItem::RestartLocal(item) => DebugItem::RestartLocal(
                RestartLocal { code_address: item.code_address, register: item.register },
            ),
            DebugItem::PrologueEnd => DebugItem::PrologueEnd,
            DebugItem::EpilogueBegin => DebugItem::EpilogueBegin,
            DebugItem::SetSourceFile(item) => DebugItem::SetSourceFile(
                SetSourceFile { source_file: copy_opt_string(&item.source_file) },
            ),
            DebugItem::LineNumber(item) => DebugItem::LineNumber(
                LineNumber { code_address: item.code_address, line: item.line },
            ),
        }
    }
}

/// Identical copies of a list of debug items.
pub fn copy_debug_items(items: &[DebugItem]) -> (res: Vec<DebugItem>)
    ensures
        res@ == items@,
{
    let mut res: Vec<DebugItem> = Vec::new();
    let mut i: usize = 0;
    while i < items.len()
        invariant
            i <= items.len(),
            res@ == items@.take(i as int),
        decreases items.len() - i,
    {
        let item = items[i].duplicate();
        res.push(item);
        assert(res@ =~= items@.take(i + 1));
        i += 1;
    }
    assert(items@.take(items.len() as int) =~= items@);
    res
}

/// What `std`'s `Debug` formatting writes for a string: the string quoted, its characters
/// escaped.
pub uninterp spec fn debug_quoted(s: Seq<char>) -> Seq<char>;

/// `format!("{:?}", s)` for a string: its `Debug` form. Stated: the result is `debug_quoted` of
/// the string's characters; the escaping itself is left unsaid.
#[verifier::external_body]
fn quoted(s: &str) -> (res: String)
    ensures
        res@ == debug_quoted(s@),
{
    format!("{:?}", s)
}

/// The text of a debug item as a smali listing writes it.
pub open spec fn debug_item_text(item: DebugItem) -> Seq<char> {
    match item {
        DebugItem::StartLocal(i) => ".locals v"@ + decimal(i.register as nat),
        DebugItem::EndLocal(i) => ".end local v"@ + decimal(i.register as nat),
        DebugItem::RestartLocal(i) => ".restart local v"@ + decimal(i.register as nat),
        DebugItem::PrologueEnd => ".prologue"@,
        DebugItem::EpilogueBegin => ".epilogue"@,
        DebugItem::SetSourceFile(i) => ".source "@ + match i.source_file {
            Some(f) => "Some("@ + debug_quoted(f@) + ")"@,
            None => "None"@,
        },
        DebugItem::LineNumber(i) => ".line "@ + decimal(i.line as nat),
    }
}

impl DebugItem {
    /// The text of the item as a smali listing writes it.
    pub fn to_string(&self) -> (res: String)
        ensures
            res@ == debug_item_text(*self),
    {
        match self {
            DebugItem::StartLocal(i) => {
                let mut s = text(".locals v");
                push_decimal(&mut s, i.register as u64);
                s
            },
            DebugItem::EndLocal(i) => {
                let mut s = text(".end local v");
                push_decimal(&mut s, i.register as u64);
                s
            },
            DebugItem::RestartLocal(i) => {
                let mut s = text(".restart local v");
                push_decimal(&mut s, i.register as u64);
                s
            },
            DebugItem::PrologueEnd => text(".prologue"),
            DebugItem::EpilogueBegin => text(".epilogue"),
            DebugItem::SetSourceFile(i) => {
                let mut s = text(".source ");
                match &i.source_file {
                    Some(f) => {
                        s.append("Some(");
                        let q = quoted(f.as_str());
                        s.append(q.as_str());
                        s.append(")");
                    },
                    None => {
                        s.append("None");
                    },
                }
                s
            },
            DebugItem::LineNumber(i) => {
                let mut s = text(".line ");
                push_decimal(&mut s, i.line as u64);
                s
            },
        }
    }
}

} // verus!
