use vstd::prelude::*;
use crate::iface::debug_item::{copy_opt_string, DebugItem};
use crate::iface::instruction::AnyInstruction;

verus! {

/// A range of code covered by exception handlers.
#[derive(Debug, Clone)]
pub struct TryBlock {
    pub start_code_address: u32,
    pub code_unit_count: u16,
    pub handlers: Vec<ExceptionHandler>,
}

impl TryBlock {
    /// The first code address after the block.
    pub fn end_code_address(&self) -> (res: u32)
        requires
            self.start_code_address + self.code_unit_count <= u32::MAX,
        ensures
            res == self.start_code_address + self.code_unit_count,
    {
        self.start_code_address + self.code_unit_count as u32
    }

    /// A copy of the block, with copies of its handlers.
    pub fn duplicate(&self) -> (res: TryBlock)
        ensures
            res.start_code_address == self.start_code_address,
            res.code_unit_count == self.code_unit_count,
            res.handlers@ == self.handlers@,
    {
        let mut handlers: Vec<ExceptionHandler> = Vec::new();
        let mut i: usize = 0;
        while i < self.handlers.len()
            invariant
                i <= self.handlers.len(),
                handlers@ == self.handlers@.take(i as int),
            decreases self.handlers.len() - i,
        {
            let h = self.handlers[i].duplicate();
            handlers.push(h);
            assert(handlers@ =~= self.handlers@.take(i + 1));
            i += 1;
        }
        assert(self.handlers@.take(self.handlers.len() as int) =~= self.handlers@);
        TryBlock {
            start_code_address: self.start_code_address,
            code_unit_count: self.code_unit_count,
            handlers,
        }
    }
}

/// Where control goes when an exception of a type (or of any type) is thrown.
#[derive(Debug, Clone)]
pub struct ExceptionHandler {
    pub handler_type: Option<String>,
    pub handler_code_address: u32,
}

impl ExceptionHandler {
    /// A handler without a type catches everything.
    pub fn is_catch_all(&self) -> (res: bool)
        ensures
            res == self.handler_type.is_none(),
    {
        self.handler_type.is_none()
    }

    /// An identical copy of the handler.
    pub fn duplicate(&self) -> (res: ExceptionHandler)
        ensures
            res == *self,
    {
        ExceptionHandler {
            handler_type: copy_opt_string(&self.handler_type),
            handler_code_address: self.handler_code_address,
        }
    }
}

/// The start, length and handlers of each block.
pub open spec fn try_blocks_view(blocks: Seq<TryBlock>) -> Seq<(u32, u16, Seq<ExceptionHandler>)> {
    blocks.map_values(|b: TryBlock| (b.start_code_address, b.code_unit_count, b.handlers@))
}

/// Copies of a list of try blocks.
pub fn copy_try_blocks(blocks: &[TryBlock]) -> (res: Vec<TryBlock>)
    ensures
        try_blocks_view(res@) == try_blocks_view(blocks@),
{
    let mut res: Vec<TryBlock> = Vec::new();
    let mut i: usize = 0;
    while i < blocks.len()
        invariant
            i <= blocks.len(),
            res@.len() == i,
            forall|k: int|
                0 <= k < i ==> (#[trigger] res@[k]).start_code_address
                    == blocks@[k].start_code_address && res@[k].code_unit_count
                    == blocks@[k].code_unit_count && res@[k].handlers@ == blocks@[k].handlers@,
        decreases blocks.len() - i,
    {
        let b = blocks[i].duplicate();
        res.push(b);
        i += 1;
    }
    assert(try_blocks_view(res@) =~= try_blocks_view(blocks@));
    res
}

/// The body of a method: registers, code, exception ranges and debug information.
pub trait MethodImplementation {
    spec fn spec_register_count(&self) -> u16;

    spec fn spec_instructions(&self) -> Seq<AnyInstruction>;

    spec fn spec_try_blocks(&self) -> Seq<TryBlock>;

    spec fn spec_debug_items(&self) -> Seq<DebugItem>;

    fn register_count(&self) -> (res: u16)
        ensures
            res == self.spec_register_count(),
    ;

    fn instructions(&self) -> (res: &[AnyInstruction])
        ensures
            res@ == self.spec_instructions(),
    ;

    fn try_blocks(&self) -> (res: &[TryBlock])
        ensures
            res@ == self.spec_try_blocks(),
    ;

    fn debug_items(&self) -> (res: &[DebugItem])
        ensures
            res@ == self.spec_debug_items(),
    ;
}

/// A method body held by value.
#[derive(Debug)]
pub struct MethodImplementationData {
    pub register_count: u16,
    pub instructions: Vec<AnyInstruction>,
    pub try_blocks: Vec<TryBlock>,
    pub debug_items: Vec<DebugItem>,
}

impl MethodImplementation for MethodImplementationData {
    open spec fn spec_register_count(&self) -> u16 {
        self.register_count
    }

    open spec fn spec_instructions(&self) -> Seq<AnyInstruction> {
        self.instructions@
    }

    open spec fn spec_try_blocks(&self) -> Seq<TryBlock> {
        self.try_blocks@
    }

    open spec fn spec_debug_items(&self) -> Seq<DebugItem> {
        self.debug_items@
    }

    fn register_count(&self) -> (res: u16) {
        self.register_count
    }

    fn instructions(&self) -> (res: &[AnyInstruction]) {
        self.instructions.as_slice()
    }

    fn try_blocks(&self) -> (res: &[TryBlock]) {
        self.try_blocks.as_slice()
    }

    fn debug_items(&self) -> (res: &[DebugItem]) {
        self.debug_items.as_slice()
    }
}

} // verus!
