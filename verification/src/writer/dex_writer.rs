use vstd::prelude::*;
use crate::base::leb128::{
    encode_sleb128, encode_uleb128, lemma_uleb128_encoded_len, lemma_uleb128_roundtrip,
    spec_encode_sleb128, spec_encode_uleb128,
};
use crate::base::mutf8::{
    encode_mutf8, lemma_mutf8_counted_roundtrip, spec_char_utf16_len, spec_encode_mutf8,
    spec_utf16_len,
};
use crate::dexbacked::header::{spec_string_data, spec_u16_le, spec_u32_le};
use crate::writer::memory_data_store::{
    keeps_below, lemma_written_concat, lemma_written_keeps_below,
    lemma_written_reads_back, written, DataStore,
};

verus! {

/// The two bytes of `v`, least significant first.
pub open spec fn le_bytes_u16(v: u16) -> Seq<u8> {
    seq![(v % 256) as u8, (v / 256) as u8]
}

/// The four bytes of `v`, least significant first.
pub open spec fn le_bytes_u32(v: u32) -> Seq<u8> {
    seq![(v % 256) as u8, ((v / 256) % 256) as u8, ((v / 65536) % 256) as u8, (v / 16777216) as u8]
}

/// The eight bytes of `v`, least significant first.
pub open spec fn le_bytes_u64(v: u64) -> Seq<u8> {
    le_bytes_u32((v % 4294967296) as u32) + le_bytes_u32((v / 4294967296) as u32)
}

/// The number of UTF-16 code units of `s`, adding one char at a time.
pub proof fn lemma_utf16_len_push(s: Seq<char>, c: char)
    ensures
        spec_utf16_len(s.push(c)) == spec_utf16_len(s) + spec_char_utf16_len(c),
    decreases s.len(),
{
    if s.len() > 0 {
        assert(s.push(c).drop_first() =~= s.drop_first().push(c));
        assert(s.push(c)[0] == s[0]);
        lemma_utf16_len_push(s.drop_first(), c);
    } else {
        assert(s.push(c).drop_first() =~= Seq::<char>::empty());
        assert(s.push(c)[0] == c);
        assert(spec_utf16_len(Seq::<char>::empty()) == 0);
    }
}

/// The bytes of a string's data item: its length in UTF-16 code units as unsigned LEB128, then
/// its modified UTF-8 bytes and a zero byte.
pub open spec fn string_data_bytes(s: Seq<char>) -> Seq<u8> {
    spec_encode_uleb128(spec_utf16_len(s) as u32) + spec_encode_mutf8(s)
}

/// Where the data item of a string stands in a buffer, it reads back there as the string.
pub proof fn lemma_string_data_found(w: Seq<u8>, offset: int, s: Seq<char>)
    requires
        0 <= offset,
        spec_utf16_len(s) <= u32::MAX,
        offset + string_data_bytes(s).len() <= w.len(),
        w.subrange(offset, offset + string_data_bytes(s).len()) == string_data_bytes(s),
    ensures
        spec_string_data(w, offset) == Ok::<Seq<char>, crate::base::mutf8::Mutf8Error>(s),
{
    let bytes = string_data_bytes(s);
    let len = spec_utf16_len(s) as u32;
    let lebs = spec_encode_uleb128(len);
    let enc = spec_encode_mutf8(s);
    assert(w.subrange(offset, offset + lebs.len()) =~= lebs) by {
        assert(w.subrange(offset, offset + bytes.len()).subrange(0, lebs.len() as int) =~= lebs);
    }
    lemma_uleb128_roundtrip(len, w, offset);
    let pos = offset + lebs.len();
    let rest = w.subrange(pos, w.len() as int);
    assert(rest.subrange(0, enc.len() as int) =~= enc) by {
        assert(w.subrange(offset, offset + bytes.len()).subrange(lebs.len() as int, bytes.len() as int) =~= enc);
    }
    lemma_mutf8_counted_roundtrip(s, rest);
}

/// The data item of a string, written anywhere, reads back at that offset as the string.
pub proof fn lemma_string_data_roundtrip(buf: Seq<u8>, offset: int, s: Seq<char>)
    requires
        0 <= offset,
        spec_utf16_len(s) <= u32::MAX,
    ensures
        spec_string_data(written(buf, offset, string_data_bytes(s)), offset) == Ok::<
            Seq<char>,
            crate::base::mutf8::Mutf8Error,
        >(s),
{
    lemma_written_reads_back(buf, offset, string_data_bytes(s));
    lemma_string_data_found(written(buf, offset, string_data_bytes(s)), offset, s);
}

/// A 16-bit value written anywhere reads back at that offset as the same value.
pub proof fn lemma_u16_roundtrip(buf: Seq<u8>, offset: int, v: u16)
    requires
        0 <= offset,
    ensures
        spec_u16_le(written(buf, offset, le_bytes_u16(v)), offset) == v,
{
    let w = written(buf, offset, le_bytes_u16(v));
    lemma_written_reads_back(buf, offset, le_bytes_u16(v));
    assert(w[offset] == le_bytes_u16(v)[0] && w[offset + 1] == le_bytes_u16(v)[1]);
}

/// A 32-bit value written anywhere reads back at that offset as the same value.
pub proof fn lemma_u32_roundtrip(buf: Seq<u8>, offset: int, v: u32)
    requires
        0 <= offset,
    ensures
        spec_u32_le(written(buf, offset, le_bytes_u32(v)), offset) == v,
{
    let b = le_bytes_u32(v);
    let w = written(buf, offset, b);
    lemma_written_reads_back(buf, offset, b);
    assert(w[offset] == b[0] && w[offset + 1] == b[1] && w[offset + 2] == b[2] && w[offset + 3] == b[3]);
    assert(b[0] + 256 * b[1] + 65536 * b[2] + 16777216 * b[3] == v) by (nonlinear_arith)
        requires
            b[0] == v % 256,
            b[1] == (v / 256) % 256,
            b[2] == (v / 65536) % 256,
            b[3] == v / 16777216,
            v <= u32::MAX,
    ;
}

/// Writes a dex file's values, one after the other, into a data store.
pub struct DexWriter<'a, D: DataStore> {
    pub data_store: &'a mut D,
    pub offset: u32,
}

impl<'a, D: DataStore> DexWriter<'a, D> {
    /// Where the next value goes.
    pub closed spec fn spec_offset(&self) -> u32 {
        self.offset
    }

    /// The bytes of the store.
    pub closed spec fn spec_bytes(&self) -> Seq<u8> {
        self.data_store.spec_bytes()
    }

    /// A writer that starts at offset 0.
    pub fn new(data_store: &'a mut D) -> (res: Self)
        ensures
            res.spec_offset() == 0,
            res.spec_bytes() == old(data_store).spec_bytes(),
            *final(res.data_store) == *final(data_store),
    {
        DexWriter { data_store, offset: 0 }
    }

    /// Once nothing writes through the writer any more, the store holds what it wrote.
    pub proof fn lemma_done(&self)
        requires
            has_resolved(*self),
        ensures
            final(self.data_store).spec_bytes() == self.spec_bytes(),
    {
    }

    /// Writes `data` at the current offset and moves past it.
    pub fn write_bytes(&mut self, data: &[u8])
        requires
            old(self).spec_offset() + data@.len() <= u32::MAX,
        ensures
            keeps_below(old(self).spec_bytes(), final(self).spec_bytes(), old(self).spec_offset() as int),
            final(self).spec_bytes() == written(old(self).spec_bytes(), old(self).spec_offset() as int, data@),
            final(self).spec_offset() == old(self).spec_offset() + data@.len(),
            *final(final(self).data_store) == *final(old(self).data_store),
            final(self).spec_bytes().len() <= old(self).spec_bytes().len() || final(self).spec_bytes().len() <= final(self).spec_offset(),
    {
        proof {
            lemma_written_keeps_below(self.spec_bytes(), self.spec_offset() as int, data@);
        }
        self.data_store.write_at(self.offset, data);
        self.offset = self.offset + data.len() as u32;
    }

    pub fn write_u8(&mut self, value: u8)
        requires
            old(self).spec_offset() + 1 <= u32::MAX,
        ensures
            keeps_below(old(self).spec_bytes(), final(self).spec_bytes(), old(self).spec_offset() as int),
            final(self).spec_bytes() == written(old(self).spec_bytes(), old(self).spec_offset() as int, seq![value]),
            final(self).spec_offset() == old(self).spec_offset() + 1,
            *final(final(self).data_store) == *final(old(self).data_store),
            final(self).spec_bytes().len() <= old(self).spec_bytes().len() || final(self).spec_bytes().len() <= final(self).spec_offset(),
    {
        let bytes: [u8; 1] = [value];
        assert(bytes@ =~= seq![value]);
        self.write_bytes(bytes.as_slice());
    }

    /// Writes `value` little-endian.
    pub fn write_u16(&mut self, value: u16)
        requires
            old(self).spec_offset() + 2 <= u32::MAX,
        ensures
            keeps_below(old(self).spec_bytes(), final(self).spec_bytes(), old(self).spec_offset() as int),
            final(self).spec_bytes() == written(old(self).spec_bytes(), old(self).spec_offset() as int, le_bytes_u16(value)),
            final(self).spec_offset() == old(self).spec_offset() + 2,
            *final(final(self).data_store) == *final(old(self).data_store),
            final(self).spec_bytes().len() <= old(self).spec_bytes().len() || final(self).spec_bytes().len() <= final(self).spec_offset(),
    {
        let bytes: [u8; 2] = [(value % 256) as u8, (value / 256) as u8];
        assert(bytes@ =~= le_bytes_u16(value));
        self.write_bytes(bytes.as_slice());
    }

    /// Writes `value` little-endian.
    pub fn write_u32(&mut self, value: u32)
        requires
            old(self).spec_offset() + 4 <= u32::MAX,
        ensures
            keeps_below(old(self).spec_bytes(), final(self).spec_bytes(), old(self).spec_offset() as int),
            final(self).spec_bytes() == written(old(self).spec_bytes(), old(self).spec_offset() as int, le_bytes_u32(value)),
            final(self).spec_offset() == old(self).spec_offset() + 4,
            *final(final(self).data_store) == *final(old(self).data_store),
            final(self).spec_bytes().len() <= old(self).spec_bytes().len() || final(self).spec_bytes().len() <= final(self).spec_offset(),
    {
        let bytes = u32_bytes(value);
        self.write_bytes(bytes.as_slice());
    }

    pub fn write_i8(&mut self, value: i8)
        requires
            old(self).spec_offset() + 1 <= u32::MAX,
        ensures
            keeps_below(old(self).spec_bytes(), final(self).spec_bytes(), old(self).spec_offset() as int),
            final(self).spec_bytes() == written(old(self).spec_bytes(), old(self).spec_offset() as int, seq![value as u8]),
            final(self).spec_offset() == old(self).spec_offset() + 1,
            *final(final(self).data_store) == *final(old(self).data_store),
            final(self).spec_bytes().len() <= old(self).spec_bytes().len() || final(self).spec_bytes().len() <= final(self).spec_offset(),
    {
        self.write_u8(value as u8);
    }

    /// Writes `value` little-endian, in two's complement.
    pub fn write_i16(&mut self, value: i16)
        requires
            old(self).spec_offset() + 2 <= u32::MAX,
        ensures
            keeps_below(old(self).spec_bytes(), final(self).spec_bytes(), old(self).spec_offset() as int),
            final(self).spec_bytes() == written(old(self).spec_bytes(), old(self).spec_offset() as int, le_bytes_u16(value as u16)),
            final(self).spec_offset() == old(self).spec_offset() + 2,
            *final(final(self).data_store) == *final(old(self).data_store),
            final(self).spec_bytes().len() <= old(self).spec_bytes().len() || final(self).spec_bytes().len() <= final(self).spec_offset(),
    {
        self.write_u16(value as u16);
    }

    /// Writes `value` little-endian, in two's complement.
    pub fn write_i32(&mut self, value: i32)
        requires
            old(self).spec_offset() + 4 <= u32::MAX,
        ensures
            keeps_below(old(self).spec_bytes(), final(self).spec_bytes(), old(self).spec_offset() as int),
            final(self).spec_bytes() == written(old(self).spec_bytes(), old(self).spec_offset() as int, le_bytes_u32(value as u32)),
            final(self).spec_offset() == old(self).spec_offset() + 4,
            *final(final(self).data_store) == *final(old(self).data_store),
            final(self).spec_bytes().len() <= old(self).spec_bytes().len() || final(self).spec_bytes().len() <= final(self).spec_offset(),
    {
        self.write_u32(value as u32);
    }

    /// Writes `value` little-endian, in two's complement.
    pub fn write_i64(&mut self, value: i64)
        requires
            old(self).spec_offset() + 8 <= u32::MAX,
        ensures
            keeps_below(old(self).spec_bytes(), final(self).spec_bytes(), old(self).spec_offset() as int),
            final(self).spec_bytes() == written(old(self).spec_bytes(), old(self).spec_offset() as int, le_bytes_u64(value as u64)),
            final(self).spec_offset() == old(self).spec_offset() + 8,
            *final(final(self).data_store) == *final(old(self).data_store),
            final(self).spec_bytes().len() <= old(self).spec_bytes().len() || final(self).spec_bytes().len() <= final(self).spec_offset(),
    {
        let v = value as u64;
        let lo = u32_bytes((v % 4294967296) as u32);
        let hi = u32_bytes((v / 4294967296) as u32);
        let bytes: [u8; 8] = [lo[0], lo[1], lo[2], lo[3], hi[0], hi[1], hi[2], hi[3]];
        assert(bytes@ =~= le_bytes_u64(v));
        self.write_bytes(bytes.as_slice());
    }

    /// Writes `value` as unsigned LEB128.
    pub fn write_uleb128(&mut self, value: u32)
        requires
            old(self).spec_offset() + spec_encode_uleb128(value).len() <= u32::MAX,
        ensures
            keeps_below(old(self).spec_bytes(), final(self).spec_bytes(), old(self).spec_offset() as int),
            final(self).spec_bytes() == written(old(self).spec_bytes(), old(self).spec_offset() as int, spec_encode_uleb128(value)),
            final(self).spec_offset() == old(self).spec_offset() + spec_encode_uleb128(value).len(),
            *final(final(self).data_store) == *final(old(self).data_store),
            final(self).spec_bytes().len() <= old(self).spec_bytes().len() || final(self).spec_bytes().len() <= final(self).spec_offset(),
    {
        let encoded = encode_uleb128(value);
        self.write_bytes(encoded.as_slice());
    }

    /// Writes `value` as signed LEB128.
    pub fn write_sleb128(&mut self, value: i32)
        requires
            old(self).spec_offset() + spec_encode_sleb128(value).len() <= u32::MAX,
        ensures
            keeps_below(old(self).spec_bytes(), final(self).spec_bytes(), old(self).spec_offset() as int),
            final(self).spec_bytes() == written(old(self).spec_bytes(), old(self).spec_offset() as int, spec_encode_sleb128(value)),
            final(self).spec_offset() == old(self).spec_offset() + spec_encode_sleb128(value).len(),
            *final(final(self).data_store) == *final(old(self).data_store),
            final(self).spec_bytes().len() <= old(self).spec_bytes().len() || final(self).spec_bytes().len() <= final(self).spec_offset(),
    {
        let encoded = encode_sleb128(value);
        self.write_bytes(encoded.as_slice());
    }

    /// Writes `value` little-endian at `offset`, leaving the current offset as it is.
    pub fn write_u16_at(&mut self, offset: u32, value: u16)
        requires
            offset + 2 <= usize::MAX,
        ensures
            final(self).spec_bytes() == written(old(self).spec_bytes(), offset as int, le_bytes_u16(value)),
            final(self).spec_offset() == old(self).spec_offset(),
            *final(final(self).data_store) == *final(old(self).data_store),
    {
        let bytes: [u8; 2] = [(value % 256) as u8, (value / 256) as u8];
        assert(bytes@ =~= le_bytes_u16(value));
        self.data_store.write_at(offset, bytes.as_slice());
    }

    /// Writes `value` little-endian at `offset`, leaving the current offset as it is.
    pub fn write_u32_at(&mut self, offset: u32, value: u32)
        requires
            offset + 4 <= usize::MAX,
        ensures
            final(self).spec_bytes() == written(old(self).spec_bytes(), offset as int, le_bytes_u32(value)),
            final(self).spec_offset() == old(self).spec_offset(),
            *final(final(self).data_store) == *final(old(self).data_store),
    {
        let bytes = u32_bytes(value);
        self.data_store.write_at(offset, bytes.as_slice());
    }

    /// Writes zeros up to the next multiple of `alignment`.
    pub fn align_to(&mut self, alignment: u32)
        requires
            alignment > 0,
            old(self).spec_offset() % alignment == 0 || old(self).spec_offset() + (alignment
                - old(self).spec_offset() % alignment) <= u32::MAX,
        ensures
            keeps_below(old(self).spec_bytes(), final(self).spec_bytes(), old(self).spec_offset() as int),
            ({
                let pad: int = if old(self).spec_offset() % alignment == 0 {
                    0
                } else {
                    alignment - old(self).spec_offset() % alignment
                };
                &&& final(self).spec_offset() == old(self).spec_offset() + pad
                &&& pad == 0 ==> final(self).spec_bytes() == old(self).spec_bytes()
                &&& pad > 0 ==> final(self).spec_bytes() == written(
                    old(self).spec_bytes(),
                    old(self).spec_offset() as int,
                    Seq::new(pad as nat, |i: int| 0u8),
                )
            }),
            *final(final(self).data_store) == *final(old(self).data_store),
            final(self).spec_bytes().len() <= old(self).spec_bytes().len() || final(self).spec_bytes().len() <= final(self).spec_offset(),
    {
        let misalignment = self.offset % alignment;
        if misalignment != 0 {
            let padding = alignment - misalignment;
            let start = self.offset;
            let ghost bytes0 = self.spec_bytes();
            let mut k: u32 = 0;
            while k < padding
                invariant
                    k <= padding,
                    start + padding <= u32::MAX,
                    self.spec_offset() == start + k,
                    k == 0 ==> self.spec_bytes() == bytes0,
                    k > 0 ==> self.spec_bytes() == written(bytes0, start as int, Seq::new(k as nat, |i: int| 0u8)),
                    keeps_below(bytes0, self.spec_bytes(), start as int),
                    *final(self.data_store) == *final(old(self).data_store),
                    self.spec_bytes().len() <= old(self).spec_bytes().len() || self.spec_bytes().len() <= self.spec_offset(),
                decreases padding - k,
            {
                let ghost before = self.spec_bytes();
                self.write_u8(0);
                proof {
                    assert(Seq::new(k as nat, |i: int| 0u8) + seq![0u8] =~= Seq::new((k + 1) as nat, |i: int| 0u8));
                    if k > 0 {
                        lemma_written_concat(bytes0, start as int, Seq::new(k as nat, |i: int| 0u8), seq![0u8]);
                    } else {
                        assert(seq![0u8] =~= Seq::new(1nat, |i: int| 0u8));
                    }
                }
                k += 1;
            }
        }
    }

    /// The bytes written so far.
    pub fn bytes(&self) -> (res: &[u8])
        ensures
            res@ == self.spec_bytes(),
    {
        self.data_store.get_buffer()
    }

    pub fn current_offset(&self) -> (res: u32)
        ensures
            res == self.spec_offset(),
    {
        self.offset
    }

    pub fn set_offset(&mut self, offset: u32)
        ensures
            final(self).spec_offset() == offset,
            final(self).spec_bytes() == old(self).spec_bytes(),
            *final(final(self).data_store) == *final(old(self).data_store),
            final(self).spec_bytes().len() <= old(self).spec_bytes().len() || final(self).spec_bytes().len() <= final(self).spec_offset(),
    {
        self.offset = offset;
    }

    /// Writes a string's data item at the current offset and returns that offset.
    pub fn write_string_data(&mut self, string: &str) -> (res: u32)
        requires
            spec_utf16_len(string@) <= u32::MAX,
            old(self).spec_offset() + string_data_bytes(string@).len() <= u32::MAX,
        ensures
            keeps_below(old(self).spec_bytes(), final(self).spec_bytes(), old(self).spec_offset() as int),
            res == old(self).spec_offset(),
            final(self).spec_bytes() == written(old(self).spec_bytes(), res as int, string_data_bytes(string@)),
            final(self).spec_offset() == old(self).spec_offset() + string_data_bytes(string@).len(),
            *final(final(self).data_store) == *final(old(self).data_store),
            final(self).spec_bytes().len() <= old(self).spec_bytes().len() || final(self).spec_bytes().len() <= final(self).spec_offset(),
    {
        let start_offset = self.offset;
        let ghost bytes0 = self.spec_bytes();
        let encoded = encode_mutf8(string);
        let mut utf16_len: u32 = 0;
        let ghost chars = string@;
        for c in it: string.chars()
            invariant
                chars == string@,
                it.seq() == chars,
                utf16_len == spec_utf16_len(chars.take(it.index() as int)),
                spec_utf16_len(chars) <= u32::MAX,
        {
            proof {
                let i = it.index() as int;
                assert(chars.take(i + 1) =~= chars.take(i).push(c));
                lemma_utf16_len_push(chars.take(i), c);
                lemma_utf16_len_prefix(chars, i + 1);
            }
            if (c as u32) < 0x10000 {
                utf16_len = utf16_len + 1;
            } else {
                utf16_len = utf16_len + 2;
            }
        }
        assert(chars.take(chars.len() as int) =~= chars);
        proof {
            lemma_uleb128_encoded_len(utf16_len);
        }
        self.write_uleb128(utf16_len);
        let body = vstd::slice::slice_subrange(encoded.as_slice(), 0, encoded.len() - 1);
        self.write_bytes(body);
        self.write_u8(0);
        proof {
            let lebs = spec_encode_uleb128(utf16_len);
            let enc = spec_encode_mutf8(chars);
            lemma_written_concat(bytes0, start_offset as int, lebs, body@);
            lemma_written_concat(bytes0, start_offset as int, lebs + body@, seq![0u8]);
            assert(body@ + seq![0u8] =~= enc);
            assert(lebs + body@ + seq![0u8] =~= string_data_bytes(chars));
        }
        start_offset
    }
}

/// The four bytes of `value`, least significant first.
fn u32_bytes(value: u32) -> (res: [u8; 4])
    ensures
        res@ == le_bytes_u32(value),
{
    let bytes: [u8; 4] = [
        (value % 256) as u8,
        ((value / 256) % 256) as u8,
        ((value / 65536) % 256) as u8,
        (value / 16777216) as u8,
    ];
    assert(bytes@ =~= le_bytes_u32(value));
    bytes
}

/// The UTF-16 length of a prefix is at most that of the whole.
pub proof fn lemma_utf16_len_prefix(s: Seq<char>, n: int)
    requires
        0 <= n <= s.len(),
    ensures
        spec_utf16_len(s.take(n)) <= spec_utf16_len(s),
    decreases s.len() - n,
{
    if n < s.len() {
        lemma_utf16_len_prefix(s, n + 1);
        lemma_utf16_len_push(s.take(n), s[n]);
        assert(s.take(n + 1) =~= s.take(n).push(s[n]));
    } else {
        assert(s.take(n) =~= s);
    }
}

} // verus!
