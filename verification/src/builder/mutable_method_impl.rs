use vstd::prelude::*;
use crate::base::opcode::Opcode;
use crate::builder::builder_instruction::{BuilderInstruction, BuilderInstruction10x};
use crate::iface::debug_item::{copy_debug_items, DebugItem};
use crate::iface::instruction::{AnyInstruction, Instruction};
use crate::iface::method::{copy_try_blocks, try_blocks_view, MethodImplementation, TryBlock};

verus! {

/// The number of code units taken by the first `n` instructions: the address of instruction `n`.
pub open spec fn units_before(instrs: Seq<AnyInstruction>, n: int) -> int
    decreases n,
{
    if n <= 0 {
        0
    } else {
        units_before(instrs, n - 1) + instrs[n - 1].spec_code_units()
    }
}

/// Addresses grow with the index.
pub proof fn lemma_units_before_monotonic(instrs: Seq<AnyInstruction>, m: int, n: int)
    requires
        m <= n,
    ensures
        units_before(instrs, m) <= units_before(instrs, n),
    decreases n - m,
{
    if m < n {
        lemma_units_before_monotonic(instrs, m, n - 1);
    }
}

/// The address of an instruction depends only on the instructions before it.
pub proof fn lemma_units_before_prefix(a: Seq<AnyInstruction>, b: Seq<AnyInstruction>, n: int)
    requires
        0 <= n <= a.len(),
        n <= b.len(),
        forall|k: int| 0 <= k < n ==> a[k] == b[k],
    ensures
        units_before(a, n) == units_before(b, n),
    decreases n,
{
    if n > 0 {
        lemma_units_before_prefix(a, b, n - 1);
    }
}

/// `a - b`, or 0 where that would be negative.
pub open spec fn saturating_sub_u16(a: u16, b: u16) -> u16 {
    if a >= b {
        (a - b) as u16
    } else {
        0
    }
}

/// Whether moving a try block for an insertion of `units` code units at `addr` stays in range.
pub open spec fn insert_fits(tb: TryBlock, addr: int, units: u32) -> bool {
    if tb.start_code_address >= addr {
        tb.start_code_address + units <= u32::MAX
    } else {
        &&& tb.start_code_address + tb.code_unit_count <= u32::MAX
        &&& tb.start_code_address + tb.code_unit_count > addr ==> tb.code_unit_count + (units as u16)
            <= u16::MAX
    }
}

/// A try block after `units` code units are inserted at `addr`: a block at or after the point
/// moves, a block around it grows, a block before it stays.
pub open spec fn insert_adjusted(tb: TryBlock, addr: int, units: u32) -> TryBlock {
    if tb.start_code_address >= addr {
        TryBlock {
            start_code_address: (tb.start_code_address + units) as u32,
            code_unit_count: tb.code_unit_count,
            handlers: tb.handlers,
        }
    } else if tb.start_code_address + tb.code_unit_count > addr {
        TryBlock {
            start_code_address: tb.start_code_address,
            code_unit_count: (tb.code_unit_count + (units as u16)) as u16,
            handlers: tb.handlers,
        }
    } else {
        tb
    }
}

/// Whether adjusting a try block for a removal of `units` code units at `addr` stays in range.
pub open spec fn remove_fits(tb: TryBlock, addr: int) -> bool {
    tb.start_code_address < addr ==> tb.start_code_address + tb.code_unit_count <= u32::MAX
}

/// A try block after `units` code units at `addr` are removed: a block after them moves back,
/// a block that starts among them or covers them shrinks (a block that shrinks to nothing
/// from inside the removed range also moves to address 0), a block before them stays.
pub open spec fn remove_adjusted(tb: TryBlock, addr: int, units: u32) -> TryBlock {
    if tb.start_code_address >= addr + units {
        TryBlock {
            start_code_address: (tb.start_code_address - units) as u32,
            code_unit_count: tb.code_unit_count,
            handlers: tb.handlers,
        }
    } else if tb.start_code_address >= addr {
        let c = saturating_sub_u16(tb.code_unit_count, units as u16);
        TryBlock {
            start_code_address: if c == 0 {
                0
            } else {
                tb.start_code_address
            },
            code_unit_count: c,
            handlers: tb.handlers,
        }
    } else if tb.start_code_address + tb.code_unit_count > addr {
        TryBlock {
            start_code_address: tb.start_code_address,
            code_unit_count: saturating_sub_u16(tb.code_unit_count, units as u16),
            handlers: tb.handlers,
        }
    } else {
        tb
    }
}

/// Whether adjusting a try block for a size change of `diff` of the instruction ending at `end`
/// stays in range.
pub open spec fn replace_fits(tb: TryBlock, end: int, diff: int) -> bool {
    if tb.start_code_address >= end {
        i32::MIN <= (tb.start_code_address as i32) + diff <= i32::MAX
    } else {
        &&& tb.start_code_address + tb.code_unit_count <= u32::MAX
        &&& tb.start_code_address + tb.code_unit_count > end ==> tb.code_unit_count + diff
            <= i32::MAX
    }
}

/// A try block after the instruction ending at `end` grows by `diff` code units: a block after it
/// moves, a block around it grows or shrinks, a block before it stays.
pub open spec fn replace_adjusted(tb: TryBlock, end: int, diff: int) -> TryBlock {
    if tb.start_code_address >= end {
        TryBlock {
            start_code_address: (((tb.start_code_address as i32) + diff) as i32) as u32,
            code_unit_count: tb.code_unit_count,
            handlers: tb.handlers,
        }
    } else if tb.start_code_address + tb.code_unit_count > end {
        TryBlock {
            start_code_address: tb.start_code_address,
            code_unit_count: ((tb.code_unit_count + diff) as i32) as u16,
            handlers: tb.handlers,
        }
    } else {
        tb
    }
}

/// The difference in size between two instructions, as the signed 32-bit values of their sizes.
pub open spec fn size_diff(new_units: u32, old_units: u32) -> int {
    (new_units as i32) - (old_units as i32)
}

proof fn lemma_signed_move(s: u32, d: i32, r: u32)
    by (bit_vector)
    requires
        -0x8000_0000 <= (s as i32) + d <= 0x7FFF_FFFF,
        0 <= s + d <= 0xFFFF_FFFF,
        r == (((s as i32) + d) as i32) as u32,
    ensures
        r == s + d,
{
}

proof fn lemma_small_u32_as_i32(x: u32, y: i32)
    by (bit_vector)
    requires
        x <= 0x7FFF_FFFF,
        y == x as i32,
    ensures
        y == x,
{
}

/// Replacing the instruction at `index` leaves a try block that ends before its end alone, and a
/// try block that starts before the end of the replaced instruction and reaches past it keeps its
/// start and ends the same number of code units past the end of the new instruction.
pub proof fn lemma_replace_keeps_earlier_and_covering_blocks(
    instrs: Seq<AnyInstruction>,
    tb: TryBlock,
    index: int,
    instruction: AnyInstruction,
)
    requires
        0 <= index < instrs.len(),
        instrs[index].spec_code_units() <= i32::MAX,
        instruction.spec_code_units() <= i32::MAX,
        tb.start_code_address < units_before(instrs, index + 1),
        0 <= tb.code_unit_count + instruction.spec_code_units() - instrs[index].spec_code_units() <= u16::MAX,
        replace_fits(
            tb,
            units_before(instrs, index + 1),
            size_diff(instruction.spec_code_units(), instrs[index].spec_code_units()),
        ),
    ensures
        ({
            let end = units_before(instrs, index + 1);
            let diff = size_diff(instruction.spec_code_units(), instrs[index].spec_code_units());
            let moved = if diff == 0 {
                tb
            } else {
                replace_adjusted(tb, end, diff)
            };
            &&& moved.start_code_address == tb.start_code_address
            &&& tb.start_code_address + tb.code_unit_count <= end ==> moved == tb
            &&& tb.start_code_address + tb.code_unit_count > end ==> moved.start_code_address
                + moved.code_unit_count == tb.start_code_address + tb.code_unit_count - end + units_before(
                instrs.update(index, instruction),
                index + 1,
            )
        }),
{
    let new_instrs = instrs.update(index, instruction);
    let new_units = instruction.spec_code_units();
    let old_units = instrs[index].spec_code_units();
    lemma_units_before_prefix(instrs, new_instrs, index);
    assert(units_before(new_instrs, index + 1) == units_before(new_instrs, index) + new_units);
    lemma_small_u32_as_i32(new_units, new_units as i32);
    lemma_small_u32_as_i32(old_units, old_units as i32);
    let diff = size_diff(new_units, old_units);
    assert(diff == new_units - old_units);
}

/// Replacing the instruction at `index` keeps each try block that starts at or after it on the
/// same code: the block starts as far past the end of the new instruction as it started past the
/// end of the old one, and keeps its length, whether the new instruction is longer, shorter or
/// of the same size.
pub proof fn lemma_replace_keeps_later_blocks(
    instrs: Seq<AnyInstruction>,
    tb: TryBlock,
    index: int,
    instruction: AnyInstruction,
)
    requires
        0 <= index < instrs.len(),
        instrs[index].spec_code_units() <= i32::MAX,
        instruction.spec_code_units() <= i32::MAX,
        units_before(instrs, index + 1) <= tb.start_code_address,
        tb.start_code_address + instruction.spec_code_units() - instrs[index].spec_code_units() <= u32::MAX,
        replace_fits(
            tb,
            units_before(instrs, index + 1),
            size_diff(instruction.spec_code_units(), instrs[index].spec_code_units()),
        ),
    ensures
        ({
            let end = units_before(instrs, index + 1);
            let diff = size_diff(instruction.spec_code_units(), instrs[index].spec_code_units());
            let moved = if diff == 0 {
                tb
            } else {
                replace_adjusted(tb, end, diff)
            };
            &&& moved.start_code_address == tb.start_code_address - end + units_before(
                instrs.update(index, instruction),
                index + 1,
            )
            &&& moved.code_unit_count == tb.code_unit_count
        }),
{
    let new_instrs = instrs.update(index, instruction);
    let new_units = instruction.spec_code_units();
    let old_units = instrs[index].spec_code_units();
    lemma_units_before_prefix(instrs, new_instrs, index);
    assert(units_before(new_instrs, index + 1) == units_before(new_instrs, index) + new_units);
    lemma_small_u32_as_i32(new_units, new_units as i32);
    lemma_small_u32_as_i32(old_units, old_units as i32);
    let diff = size_diff(new_units, old_units);
    assert(diff == new_units - old_units);
    if diff != 0 {
        let s = tb.start_code_address;
        lemma_units_before_monotonic(instrs, 0, index);
        assert(units_before(instrs, 0) == 0);
        let d = diff as i32;
        assert(d == diff);
        assert(0 <= s + d);
        lemma_signed_move(s, d, (((s as i32) + diff) as i32) as u32);
    }
}

/// Whether inserting `instruction` at position `index` keeps its arithmetic in range.
pub open spec fn add_fits(
    instrs: Seq<AnyInstruction>,
    blocks: Seq<TryBlock>,
    index: int,
    instruction: AnyInstruction,
) -> bool {
    let addr = units_before(instrs, index);
    0 <= index <= instrs.len() ==> {
        &&& addr <= u32::MAX
        &&& forall|k: int|
            0 <= k < blocks.len() ==> insert_fits(
                #[trigger] blocks[k],
                addr,
                instruction.spec_code_units(),
            )
    }
}

/// Whether removing the instruction at position `index` keeps its arithmetic in range.
pub open spec fn remove_fits_all(
    instrs: Seq<AnyInstruction>,
    blocks: Seq<TryBlock>,
    index: int,
) -> bool {
    let addr = units_before(instrs, index);
    0 <= index < instrs.len() ==> {
        &&& addr + instrs[index].spec_code_units() <= u32::MAX
        &&& forall|k: int| 0 <= k < blocks.len() ==> remove_fits(#[trigger] blocks[k], addr)
    }
}

/// Inserting an instruction and then removing it again, at the same position, gives back the
/// instructions and the try blocks, whenever both edits keep their arithmetic in range.
pub proof fn lemma_add_then_remove_restores(
    instrs: Seq<AnyInstruction>,
    blocks: Seq<TryBlock>,
    index: int,
    instruction: AnyInstruction,
)
    requires
        0 <= index <= instrs.len(),
        add_fits(instrs, blocks, index, instruction),
        remove_fits_all(
            instrs.insert(index, instruction),
            blocks.map_values(
                |tb: TryBlock|
                    insert_adjusted(tb, units_before(instrs, index), instruction.spec_code_units()),
            ),
            index,
        ),
    ensures
        instrs.insert(index, instruction).remove(index) == instrs,
        ({
            let grown = instrs.insert(index, instruction);
            let moved = blocks.map_values(
                |tb: TryBlock|
                    insert_adjusted(tb, units_before(instrs, index), instruction.spec_code_units()),
            );
            moved.map_values(
                |tb: TryBlock|
                    remove_adjusted(
                        tb,
                        units_before(grown, index),
                        grown[index].spec_code_units(),
                    ),
            ) == blocks
        }),
{
    let grown = instrs.insert(index, instruction);
    let addr = units_before(instrs, index);
    let units = instruction.spec_code_units();
    assert(grown.remove(index) =~= instrs);
    lemma_units_before_prefix(instrs, grown, index);
    let moved = blocks.map_values(|tb: TryBlock| insert_adjusted(tb, addr, units));
    let back = moved.map_values(|tb: TryBlock| remove_adjusted(tb, addr, units));
    assert forall|k: int| 0 <= k < blocks.len() implies back[k] == blocks[k] by {
        let tb = blocks[k];
        assert(insert_fits(tb, addr, units));
        assert(remove_fits(moved[k], addr));
    }
    assert(back =~= blocks);
}

/// Exchanging the same two instructions twice gives back the instructions.
pub proof fn lemma_swap_twice_restores(instrs: Seq<AnyInstruction>, i: int, j: int)
    requires
        0 <= i < instrs.len(),
        0 <= j < instrs.len(),
    ensures
        ({
            let once = instrs.update(i, instrs[j]).update(j, instrs[i]);
            once.update(i, once[j]).update(j, once[i])
        }) == instrs,
{
    let once = instrs.update(i, instrs[j]).update(j, instrs[i]);
    assert(once.update(i, once[j]).update(j, once[i]) =~= instrs);
}

/// A method body that can be edited, instruction by instruction.
#[derive(Debug)]
pub struct MutableMethodImplementation {
    register_count: u16,
    instructions: Vec<BuilderInstruction>,
    try_blocks: Vec<TryBlock>,
    debug_items: Vec<DebugItem>,
}

impl MethodImplementation for MutableMethodImplementation {
    closed spec fn spec_register_count(&self) -> u16 {
        self.register_count
    }

    closed spec fn spec_instructions(&self) -> Seq<AnyInstruction> {
        self.instructions@
    }

    closed spec fn spec_try_blocks(&self) -> Seq<TryBlock> {
        self.try_blocks@
    }

    closed spec fn spec_debug_items(&self) -> Seq<DebugItem> {
        self.debug_items@
    }

    fn register_count(&self) -> (res: u16) {
        self.register_count
    }

    fn instructions(&self) -> (res: &[AnyInstruction]) {
        self.instructions.as_slice()
    }

    fn try_blocks(&self) -> (res: &[TryBlock]) {
        self.try_blocks.as_slice()
    }

    fn debug_items(&self) -> (res: &[DebugItem]) {
        self.debug_items.as_slice()
    }
}

impl MutableMethodImplementation {
    /// Whether `add_instruction(index, instruction)` keeps its arithmetic in range.
    pub open spec fn add_fits(&self, index: int, instruction: AnyInstruction) -> bool {
        add_fits(self.spec_instructions(), self.spec_try_blocks(), index, instruction)
    }

    /// Whether `remove_instruction(index)` keeps its arithmetic in range.
    pub open spec fn remove_fits(&self, index: int) -> bool {
        remove_fits_all(self.spec_instructions(), self.spec_try_blocks(), index)
    }

    /// Whether `replace_instruction(index, instruction)` keeps its arithmetic in range.
    pub open spec fn replace_fits(&self, index: int, instruction: AnyInstruction) -> bool {
        let instrs = self.spec_instructions();
        let addr = units_before(instrs, index);
        let old_units = instrs[index].spec_code_units();
        let diff = size_diff(instruction.spec_code_units(), old_units);
        0 <= index < instrs.len() ==> {
            &&& i32::MIN <= diff <= i32::MAX
            &&& diff != 0 ==> {
                &&& addr + old_units <= u32::MAX
                &&& forall|k: int|
                    0 <= k < self.spec_try_blocks().len() ==> replace_fits(
                        #[trigger] self.spec_try_blocks()[k],
                        addr + old_units,
                        diff,
                    )
            }
        }
    }

    pub fn new(register_count: u16, instructions: Vec<BuilderInstruction>) -> (res: Self)
        ensures
            res.spec_register_count() == register_count,
            res.spec_instructions() == instructions@,
            res.spec_try_blocks() == Seq::<TryBlock>::empty(),
            res.spec_debug_items() == Seq::<DebugItem>::empty(),
    {
        MutableMethodImplementation {
            register_count,
            instructions,
            try_blocks: Vec::new(),
            debug_items: Vec::new(),
        }
    }

    /// An editable copy of a method body: each instruction keeps only its opcode.
    pub fn from_implementation(impl_data: &dyn MethodImplementation) -> (res: Self)
        ensures
            res.spec_register_count() == impl_data.spec_register_count(),
            res.spec_instructions().len() == impl_data.spec_instructions().len(),
            forall|k: int|
                0 <= k < impl_data.spec_instructions().len() ==> (#[trigger] res.spec_instructions()[k])
                    == AnyInstruction::B10x(
                    BuilderInstruction10x { opcode: impl_data.spec_instructions()[k].spec_opcode() },
                ),
            try_blocks_view(res.spec_try_blocks()) == try_blocks_view(impl_data.spec_try_blocks()),
            res.spec_debug_items() == impl_data.spec_debug_items(),
    {
        let source = impl_data.instructions();
        let mut instructions: Vec<BuilderInstruction> = Vec::new();
        let mut i: usize = 0;
        while i < source.len()
            invariant
                i <= source.len(),
                source@ == impl_data.spec_instructions(),
                instructions@.len() == i,
                forall|k: int|
                    0 <= k < i ==> (#[trigger] instructions@[k]) == AnyInstruction::B10x(
                        BuilderInstruction10x { opcode: source@[k].spec_opcode() },
                    ),
            decreases source.len() - i,
        {
            let opcode = source[i].opcode();
            instructions.push(AnyInstruction::B10x(BuilderInstruction10x { opcode }));
            i += 1;
        }
        MutableMethodImplementation {
            register_count: impl_data.register_count(),
            instructions,
            try_blocks: copy_try_blocks(impl_data.try_blocks()),
            debug_items: copy_debug_items(impl_data.debug_items()),
        }
    }

    pub fn with_register_count(register_count: u16) -> (res: Self)
        ensures
            res.spec_register_count() == register_count,
            res.spec_instructions() == Seq::<AnyInstruction>::empty(),
            res.spec_try_blocks() == Seq::<TryBlock>::empty(),
            res.spec_debug_items() == Seq::<DebugItem>::empty(),
    {
        MutableMethodImplementation {
            register_count,
            instructions: Vec::new(),
            try_blocks: Vec::new(),
            debug_items: Vec::new(),
        }
    }

    pub fn register_count(&self) -> (res: u16)
        ensures
            res == self.spec_register_count(),
    {
        self.register_count
    }

    pub fn set_register_count(&mut self, count: u16)
        ensures
            final(self).spec_register_count() == count,
            final(self).spec_instructions() == old(self).spec_instructions(),
            final(self).spec_try_blocks() == old(self).spec_try_blocks(),
            final(self).spec_debug_items() == old(self).spec_debug_items(),
    {
        self.register_count = count;
    }

    pub fn instructions(&self) -> (res: &[BuilderInstruction])
        ensures
            res@ == self.spec_instructions(),
    {
        self.instructions.as_slice()
    }

    /// The address of instruction `index`: the code units of the instructions before it.
    fn instruction_address(&self, index: usize) -> (res: u32)
        requires
            index <= self.instructions@.len(),
            units_before(self.instructions@, index as int) <= u32::MAX,
        ensures
            res == units_before(self.instructions@, index as int),
    {
        let mut addr: u32 = 0;
        let mut i: usize = 0;
        while i < index
            invariant
                i <= index <= self.instructions@.len(),
                addr == units_before(self.instructions@, i as int),
                units_before(self.instructions@, index as int) <= u32::MAX,
            decreases index - i,
        {
            proof {
                lemma_units_before_monotonic(self.instructions@, i + 1, index as int);
            }
            addr = addr + self.instructions[i].code_units();
            i += 1;
        }
        addr
    }

    /// Inserts an instruction before position `index` and moves or grows the try blocks at or
    /// around its address; an index past the end changes nothing.
    pub fn add_instruction(&mut self, index: usize, instruction: BuilderInstruction)
        requires
            old(self).add_fits(index as int, instruction),
        ensures
            index > old(self).spec_instructions().len() ==> *final(self) == *old(self),
            index <= old(self).spec_instructions().len() ==> {
                &&& final(self).spec_instructions() == old(self).spec_instructions().insert(
                    index as int,
                    instruction,
                )
                &&& final(self).spec_try_blocks() == old(self).spec_try_blocks().map_values(
                    |tb: TryBlock|
                        insert_adjusted(
                            tb,
                            units_before(old(self).spec_instructions(), index as int),
                            instruction.spec_code_units(),
                        ),
                )
            },
            final(self).spec_register_count() == old(self).spec_register_count(),
            final(self).spec_debug_items() == old(self).spec_debug_items(),
    {
        if index > self.instructions.len() {
            return;
        }
        let code_units = instruction.code_units();
        let insert_addr = self.instruction_address(index);
        let ghost old_blocks = self.try_blocks@;
        assert forall|k: int| 0 <= k < old_blocks.len() implies insert_fits(
            #[trigger] old_blocks[k],
            insert_addr as int,
            code_units,
        ) by {
            assert(old(self).spec_try_blocks()[k] == old_blocks[k]);
        }
        self.instructions.insert(index, instruction);
        let mut i: usize = 0;
        while i < self.try_blocks.len()
            invariant
                i <= self.try_blocks@.len() == old_blocks.len(),
                self.instructions@ == old(self).instructions@.insert(index as int, instruction),
                self.register_count == old(self).register_count,
                self.debug_items == old(self).debug_items,
                forall|k: int|
                    0 <= k < old_blocks.len() ==> insert_fits(
                        #[trigger] old_blocks[k],
                        insert_addr as int,
                        code_units,
                    ),
                forall|k: int|
                    0 <= k < i ==> #[trigger] self.try_blocks@[k] == insert_adjusted(
                        old_blocks[k],
                        insert_addr as int,
                        code_units,
                    ),
                forall|k: int| i <= k < old_blocks.len() ==> #[trigger] self.try_blocks@[k] == old_blocks[k],
            decreases old_blocks.len() - i,
        {
            let start = self.try_blocks[i].start_code_address;
            let count = self.try_blocks[i].code_unit_count;
            assert(insert_fits(old_blocks[i as int], insert_addr as int, code_units));
            if start >= insert_addr {
                self.try_blocks[i].start_code_address = start + code_units;
            } else if start + count as u32 > insert_addr {
                self.try_blocks[i].code_unit_count = count + #[verifier::truncate] (code_units as u16);
            }
            i += 1;
        }
        assert(self.try_blocks@ =~= old_blocks.map_values(
            |tb: TryBlock| insert_adjusted(tb, insert_addr as int, code_units),
        ));
    }

    /// Replaces instruction `index`; where the size changes, the try blocks after or around it
    /// move or change size by the difference. An index past the end changes nothing.
    pub fn replace_instruction(&mut self, index: usize, instruction: BuilderInstruction)
        requires
            old(self).replace_fits(index as int, instruction),
        ensures
            index >= old(self).spec_instructions().len() ==> *final(self) == *old(self),
            index < old(self).spec_instructions().len() ==> {
                let old_units = old(self).spec_instructions()[index as int].spec_code_units();
                let diff = size_diff(instruction.spec_code_units(), old_units);
                let end = units_before(old(self).spec_instructions(), index as int) + old_units;
                &&& final(self).spec_instructions() == old(self).spec_instructions().update(
                    index as int,
                    instruction,
                )
                &&& final(self).spec_try_blocks() == if diff == 0 {
                    old(self).spec_try_blocks()
                } else {
                    old(self).spec_try_blocks().map_values(
                        |tb: TryBlock| replace_adjusted(tb, end, diff),
                    )
                }
            },
            final(self).spec_register_count() == old(self).spec_register_count(),
            final(self).spec_debug_items() == old(self).spec_debug_items(),
            index < old(self).spec_instructions().len() && old(self).spec_instructions()[index as int].spec_code_units()
                <= i32::MAX && instruction.spec_code_units() <= i32::MAX ==> forall|k: int|
                0 <= k < old(self).spec_try_blocks().len() && units_before(old(self).spec_instructions(), index + 1)
                    <= old(self).spec_try_blocks()[k].start_code_address && old(self).spec_try_blocks()[k].start_code_address
                    + instruction.spec_code_units() - old(self).spec_instructions()[index as int].spec_code_units()
                    <= u32::MAX ==> #[trigger] final(self).spec_try_blocks()[k].start_code_address
                    == old(self).spec_try_blocks()[k].start_code_address - units_before(
                    old(self).spec_instructions(),
                    index + 1,
                ) + units_before(final(self).spec_instructions(), index + 1),
    {
        let ghost new_instruction = instruction;
        if index >= self.instructions.len() {
            return;
        }
        let old_code_units = self.instructions[index].code_units();
        let new_code_units = instruction.code_units();
        let diff: i32 = #[verifier::truncate] (new_code_units as i32) - #[verifier::truncate] (
        old_code_units as i32);
        let ghost old_instrs = self.instructions@;
        self.instructions.set(index, instruction);
        if diff != 0 {
            proof {
                lemma_units_before_prefix(old_instrs, self.instructions@, index as int);
            }
            let replace_addr = self.instruction_address(index);
            let end_addr = replace_addr + old_code_units;
            let ghost old_blocks = self.try_blocks@;
            assert forall|k: int| 0 <= k < old_blocks.len() implies replace_fits(
                #[trigger] old_blocks[k],
                end_addr as int,
                diff as int,
            ) by {
                assert(old(self).spec_try_blocks()[k] == old_blocks[k]);
            }
            let mut i: usize = 0;
            while i < self.try_blocks.len()
                invariant
                    i <= self.try_blocks@.len() == old_blocks.len(),
                    self.instructions@ == old(self).instructions@.update(index as int, instruction),
                    self.register_count == old(self).register_count,
                    self.debug_items == old(self).debug_items,
                    forall|k: int|
                        0 <= k < old_blocks.len() ==> replace_fits(
                            #[trigger] old_blocks[k],
                            end_addr as int,
                            diff as int,
                        ),
                    forall|k: int|
                        0 <= k < i ==> #[trigger] self.try_blocks@[k] == replace_adjusted(
                            old_blocks[k],
                            end_addr as int,
                            diff as int,
                        ),
                    forall|k: int|
                        i <= k < old_blocks.len() ==> #[trigger] self.try_blocks@[k] == old_blocks[k],
                decreases old_blocks.len() - i,
            {
                let start = self.try_blocks[i].start_code_address;
                let count = self.try_blocks[i].code_unit_count;
                assert(replace_fits(old_blocks[i as int], end_addr as int, diff as int));
                if start >= end_addr {
                    self.try_blocks[i].start_code_address = #[verifier::truncate] ((
                    #[verifier::truncate] (start as i32) + diff) as u32);
                } else if start + count as u32 > end_addr {
                    self.try_blocks[i].code_unit_count = #[verifier::truncate] ((count as i32
                        + diff) as u16);
                }
                i += 1;
            }
            assert(self.try_blocks@ =~= old_blocks.map_values(
                |tb: TryBlock| replace_adjusted(tb, end_addr as int, diff as int),
            ));
        }
        proof {
            let old_instrs = old(self).spec_instructions();
            let old_blocks = old(self).spec_try_blocks();
            let old_units = old_instrs[index as int].spec_code_units();
            let new_units = new_instruction.spec_code_units();
            if old_units <= i32::MAX && new_units <= i32::MAX {
                let end = units_before(old_instrs, index + 1);
                assert(end == units_before(old_instrs, index as int) + old_units);
                assert forall|k: int|
                    0 <= k < old_blocks.len() && end <= old_blocks[k].start_code_address
                        && old_blocks[k].start_code_address + new_units - old_units <= u32::MAX implies #[trigger] self.spec_try_blocks()[k].start_code_address
                    == old_blocks[k].start_code_address - end + units_before(self.spec_instructions(), index + 1) by {
                    lemma_replace_keeps_later_blocks(old_instrs, old_blocks[k], index as int, new_instruction);
                }
            }
        }
    }

    /// Removes instruction `index` and moves or shrinks the try blocks at or after its address;
    /// an index past the end changes nothing.
    pub fn remove_instruction(&mut self, index: usize)
        requires
            old(self).remove_fits(index as int),
        ensures
            index >= old(self).spec_instructions().len() ==> *final(self) == *old(self),
            index < old(self).spec_instructions().len() ==> {
                &&& final(self).spec_instructions() == old(self).spec_instructions().remove(
                    index as int,
                )
                &&& final(self).spec_try_blocks() == old(self).spec_try_blocks().map_values(
                    |tb: TryBlock|
                        remove_adjusted(
                            tb,
                            units_before(old(self).spec_instructions(), index as int),
                            old(self).spec_instructions()[index as int].spec_code_units(),
                        ),
                )
            },
            final(self).spec_register_count() == old(self).spec_register_count(),
            final(self).spec_debug_items() == old(self).spec_debug_items(),
    {
        if index >= self.instructions.len() {
            return;
        }
        let removed_code_units = self.instructions[index].code_units();
        proof {
            lemma_units_before_monotonic(self.instructions@, index as int, index as int + 1);
        }
        let remove_addr = self.instruction_address(index);
        let end_addr = remove_addr + removed_code_units;
        let removed = self.instructions.remove(index);
        let ghost old_blocks = self.try_blocks@;
        assert forall|k: int| 0 <= k < old_blocks.len() implies remove_fits(
            #[trigger] old_blocks[k],
            remove_addr as int,
        ) by {
            assert(old(self).spec_try_blocks()[k] == old_blocks[k]);
        }
        let mut i: usize = 0;
        while i < self.try_blocks.len()
            invariant
                i <= self.try_blocks@.len() == old_blocks.len(),
                self.instructions@ == old(self).instructions@.remove(index as int),
                self.register_count == old(self).register_count,
                self.debug_items == old(self).debug_items,
                end_addr == remove_addr + removed_code_units,
                forall|k: int|
                    0 <= k < old_blocks.len() ==> remove_fits(#[trigger] old_blocks[k], remove_addr as int),
                forall|k: int|
                    0 <= k < i ==> #[trigger] self.try_blocks@[k] == remove_adjusted(
                        old_blocks[k],
                        remove_addr as int,
                        removed_code_units,
                    ),
                forall|k: int| i <= k < old_blocks.len() ==> #[trigger] self.try_blocks@[k] == old_blocks[k],
            decreases old_blocks.len() - i,
        {
            let start = self.try_blocks[i].start_code_address;
            let count = self.try_blocks[i].code_unit_count;
            assert(remove_fits(old_blocks[i as int], remove_addr as int));
            if start >= end_addr {
                self.try_blocks[i].start_code_address = start - removed_code_units;
            } else if start >= remove_addr {
                let c = count.saturating_sub(#[verifier::truncate] (removed_code_units as u16));
                self.try_blocks[i].code_unit_count = c;
                if c == 0 {
                    self.try_blocks[i].start_code_address = 0;
                }
            } else if start + count as u32 > remove_addr {
                self.try_blocks[i].code_unit_count = count.saturating_sub(#[verifier::truncate] (removed_code_units as u16));
            }
            i += 1;
        }
        assert(self.try_blocks@ =~= old_blocks.map_values(
            |tb: TryBlock| remove_adjusted(tb, remove_addr as int, removed_code_units),
        ));
    }

    /// Exchanges instructions `i` and `j`; out-of-range or equal indices change nothing.
    /// Try blocks are left as they are.
    pub fn swap_instructions(&mut self, i: usize, j: usize)
        ensures
            (i >= old(self).spec_instructions().len() || j >= old(self).spec_instructions().len()
                || i == j) ==> *final(self) == *old(self),
            (i < old(self).spec_instructions().len() && j < old(self).spec_instructions().len()
                && i != j) ==> final(self).spec_instructions() == old(self).spec_instructions().update(
                i as int,
                old(self).spec_instructions()[j as int],
            ).update(j as int, old(self).spec_instructions()[i as int]),
            final(self).spec_register_count() == old(self).spec_register_count(),
            final(self).spec_try_blocks() == old(self).spec_try_blocks(),
            final(self).spec_debug_items() == old(self).spec_debug_items(),
    {
        if i >= self.instructions.len() || j >= self.instructions.len() || i == j {
            return;
        }
        let mut held = AnyInstruction::B10x(BuilderInstruction10x { opcode: Opcode::Nop });
        std::mem::swap(&mut held, &mut self.instructions[i]);
        std::mem::swap(&mut held, &mut self.instructions[j]);
        self.instructions.set(i, held);
    }

    pub fn try_blocks(&self) -> (res: &[TryBlock])
        ensures
            res@ == self.spec_try_blocks(),
    {
        self.try_blocks.as_slice()
    }

    pub fn try_blocks_mut(&mut self) -> (res: &mut Vec<TryBlock>)
        ensures
            res@ == old(self).spec_try_blocks(),
            final(self).spec_try_blocks() == final(res)@,
            final(self).spec_register_count() == old(self).spec_register_count(),
            final(self).spec_instructions() == old(self).spec_instructions(),
            final(self).spec_debug_items() == old(self).spec_debug_items(),
    {
        &mut self.try_blocks
    }

    pub fn debug_items(&self) -> (res: &[DebugItem])
        ensures
            res@ == self.spec_debug_items(),
    {
        self.debug_items.as_slice()
    }

    pub fn debug_items_mut(&mut self) -> (res: &mut Vec<DebugItem>)
        ensures
            res@ == old(self).spec_debug_items(),
            final(self).spec_debug_items() == final(res)@,
            final(self).spec_register_count() == old(self).spec_register_count(),
            final(self).spec_instructions() == old(self).spec_instructions(),
            final(self).spec_try_blocks() == old(self).spec_try_blocks(),
    {
        &mut self.debug_items
    }
}

} // verus!
