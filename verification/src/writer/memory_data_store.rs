use vstd::prelude::*;

verus! {

/// `buf` grown with zeros to at least `end` bytes.
pub open spec fn grown_to(buf: Seq<u8>, end: int) -> Seq<u8> {
    if end > buf.len() {
        buf + Seq::new((end - buf.len()) as nat, |i: int| 0u8)
    } else {
        buf
    }
}

/// `buf` after `data` is written at `offset`: grown with zeros where it is too short, the bytes
/// from `offset` on replaced by `data`, the rest unchanged.
pub open spec fn written(buf: Seq<u8>, offset: int, data: Seq<u8>) -> Seq<u8> {
    let grown = grown_to(buf, offset + data.len());
    Seq::new(
        grown.len(),
        |i: int|
            if offset <= i < offset + data.len() {
                data[i - offset]
            } else {
                grown[i]
            },
    )
}

/// Reading back what was just written gives it back, and every other byte stays as it was.
pub proof fn lemma_written_reads_back(buf: Seq<u8>, offset: int, data: Seq<u8>)
    requires
        0 <= offset,
    ensures
        written(buf, offset, data).len() == if offset + data.len() > buf.len() {
            offset + data.len()
        } else {
            buf.len() as int
        },
        written(buf, offset, data).subrange(offset, offset + data.len()) == data,
        forall|i: int|
            0 <= i < buf.len() && !(offset <= i < offset + data.len()) ==> #[trigger] written(
                buf,
                offset,
                data,
            )[i] == buf[i],
{
    assert(written(buf, offset, data).subrange(offset, offset + data.len()) =~= data);
}

/// Writing `a` and then `b` right after it is writing `a + b`.
pub proof fn lemma_written_concat(buf: Seq<u8>, offset: int, a: Seq<u8>, b: Seq<u8>)
    requires
        0 <= offset,
    ensures
        written(written(buf, offset, a), offset + a.len(), b) == written(buf, offset, a + b),
{
    let lhs = written(written(buf, offset, a), offset + a.len(), b);
    let rhs = written(buf, offset, a + b);
    assert(lhs.len() == rhs.len());
    assert forall|i: int| 0 <= i < lhs.len() implies lhs[i] == rhs[i] by {
        if offset <= i < offset + a.len() {
            assert((a + b)[i - offset] == a[i - offset]);
        } else if offset + a.len() <= i < offset + a.len() + b.len() {
            assert((a + b)[i - offset] == b[i - offset - a.len()]);
        }
    }
    assert(lhs =~= rhs);
}

/// `after` keeps every byte of `before` below `bound`, and is no shorter.
pub open spec fn keeps_below(before: Seq<u8>, after: Seq<u8>, bound: int) -> bool {
    &&& before.len() <= after.len()
    &&& forall|i: int| 0 <= i < bound && i < before.len() ==> #[trigger] after[i] == before[i]
}

/// A write keeps every byte below where it starts.
pub proof fn lemma_written_keeps_below(buf: Seq<u8>, offset: int, data: Seq<u8>)
    requires
        0 <= offset,
    ensures
        keeps_below(buf, written(buf, offset, data), offset),
{
    lemma_written_reads_back(buf, offset, data);
}

/// Somewhere bytes can be written at any offset.
pub trait DataStore {
    /// The bytes held.
    spec fn spec_bytes(&self) -> Seq<u8>;

    /// Writes `data` at `offset`, growing the store with zeros where needed.
    fn write_at(&mut self, offset: u32, data: &[u8])
        requires
            offset + data@.len() <= usize::MAX,
        ensures
            final(self).spec_bytes() == written(old(self).spec_bytes(), offset as int, data@),
    ;

    /// The number of bytes held, truncated to 32 bits.
    fn size(&self) -> (res: u32)
        ensures
            res == self.spec_bytes().len() as u32,
    ;

    /// The bytes held.
    fn get_buffer(&self) -> (res: &[u8])
        ensures
            res@ == self.spec_bytes(),
    ;
}

/// A data store in memory.
pub struct MemoryDataStore {
    buffer: Vec<u8>,
}

impl MemoryDataStore {
    pub fn new() -> (res: Self)
        ensures
            res.spec_bytes() == Seq::<u8>::empty(),
    {
        MemoryDataStore { buffer: Vec::new() }
    }

    /// An empty store; the capacity is a hint for the allocation.
    pub fn with_capacity(capacity: usize) -> (res: Self)
        ensures
            res.spec_bytes() == Seq::<u8>::empty(),
    {
        MemoryDataStore { buffer: Vec::with_capacity(capacity) }
    }

    /// Grows the store with zeros to at least `needed` bytes.
    pub fn ensure_capacity(&mut self, needed: usize)
        ensures
            final(self).spec_bytes() == grown_to(old(self).spec_bytes(), needed as int),
    {
        if needed > self.buffer.len() {
            let ghost before = self.buffer@;
            self.buffer.resize(needed, 0);
            assert(self.buffer@ =~= grown_to(before, needed as int));
        }
    }
}

impl DataStore for MemoryDataStore {
    closed spec fn spec_bytes(&self) -> Seq<u8> {
        self.buffer@
    }

    fn write_at(&mut self, offset: u32, data: &[u8]) {
        let end = offset as usize + data.len();
        self.ensure_capacity(end);
        let ghost grown = self.buffer@;
        let mut i: usize = 0;
        while i < data.len()
            invariant
                i <= data.len(),
                end == offset + data@.len(),
                grown.len() >= end,
                self.buffer@.len() == grown.len(),
                forall|k: int|
                    0 <= k < grown.len() ==> #[trigger] self.buffer@[k] == if offset <= k < offset
                        + i {
                        data@[k - offset]
                    } else {
                        grown[k]
                    },
            decreases data.len() - i,
        {
            self.buffer.set(offset as usize + i, data[i]);
            i += 1;
        }
        assert(self.buffer@ =~= written(old(self).buffer@, offset as int, data@));
    }

    fn size(&self) -> (res: u32) {
        self.buffer.len() as u32
    }

    fn get_buffer(&self) -> (res: &[u8]) {
        self.buffer.as_slice()
    }
}

impl Default for MemoryDataStore {
    fn default() -> (res: Self)
        ensures
            res.spec_bytes() == Seq::<u8>::empty(),
    {
        MemoryDataStore::new()
    }
}

} // verus!
