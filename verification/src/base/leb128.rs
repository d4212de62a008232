use vstd::prelude::*;

verus! {

/// Decoding state machine of an unsigned LEB128 number: the value accumulated so far is
/// `acc`, the next byte is read at `pos` and lands at bit `shift`. Reading stops at the first
/// byte without the continuation bit, after the fifth byte, or at the end of the data.
/// Returns the value and the position just past the last byte read.
pub open spec fn uleb128_decode_from(data: Seq<u8>, pos: int, shift: u32, acc: u32) -> (u32, int)
    decreases data.len() - pos,
{
    if pos < 0 || pos >= data.len() {
        (acc, pos)
    } else {
        let byte = data[pos];
        let next = acc | (((byte & 0x7f) as u32) << shift);
        if byte & 0x80 == 0 || shift + 7 >= 35 {
            (next, pos + 1)
        } else {
            uleb128_decode_from(data, pos + 1, (shift + 7) as u32, next)
        }
    }
}

/// The unsigned LEB128 number that starts at `offset`, with the position after it.
pub open spec fn spec_decode_uleb128(data: Seq<u8>, offset: int) -> (u32, int) {
    uleb128_decode_from(data, offset, 0, 0)
}

/// The unsigned LEB128 encoding of `value`: seven bits per byte, least significant first,
/// the high bit set on every byte but the last.
pub open spec fn spec_encode_uleb128(value: u32) -> Seq<u8>
    decreases value,
{
    if value >> 7 == 0 {
        seq![(value & 0x7f) as u8]
    } else {
        proof {
            lemma_shr7_smaller(value);
        }
        seq![((value & 0x7f) | 0x80) as u8] + spec_encode_uleb128(value >> 7)
    }
}

pub proof fn lemma_shr7_smaller(value: u32)
    ensures
        value >> 7 != 0 ==> value >> 7 < value,
        value >> 7 <= value,
{
    assert(value >> 7 != 0 ==> value >> 7 < value) by (bit_vector);
    assert(value >> 7 <= value) by (bit_vector);
}

/// Decoding never moves backwards, and from inside the data it stops at its end at the latest.
pub proof fn lemma_uleb128_decode_from_bounds(data: Seq<u8>, pos: int, shift: u32, acc: u32)
    ensures
        pos <= uleb128_decode_from(data, pos, shift, acc).1,
        0 <= pos <= data.len() ==> uleb128_decode_from(data, pos, shift, acc).1 <= data.len(),
    decreases data.len() - pos,
{
    if !(pos < 0 || pos >= data.len()) {
        let byte = data[pos];
        let next = acc | (((byte & 0x7f) as u32) << shift);
        if !(byte & 0x80 == 0 || shift + 7 >= 35) {
            lemma_uleb128_decode_from_bounds(data, pos + 1, (shift + 7) as u32, next);
        }
    }
}

/// Reads an unsigned LEB128 number at `offset`; returns it with the offset just past it.
pub fn decode_uleb128(data: &[u8], offset: usize) -> (res: (u32, usize))
    ensures
        (res.0, res.1 as int) == spec_decode_uleb128(data@, offset as int),
        offset <= res.1,
        offset <= data.len() ==> res.1 <= data.len(),
{
    proof {
        lemma_uleb128_decode_from_bounds(data@, offset as int, 0, 0);
    }
    let mut result: u32 = 0;
    let mut shift: u32 = 0;
    let mut pos: usize = offset;
    loop
        invariant_except_break
            uleb128_decode_from(data@, pos as int, shift, result) == spec_decode_uleb128(
                data@,
                offset as int,
            ),
            shift <= 28,
            shift % 7 == 0,
        ensures
            (result, pos as int) == spec_decode_uleb128(data@, offset as int),
        decreases 35 - shift,
    {
        if pos >= data.len() {
            break ;
        }
        let byte: u8 = data[pos];
        result |= ((byte & 0x7F) as u32) << shift;
        pos += 1;
        if byte & 0x80 == 0 {
            break ;
        }
        shift += 7;
        if shift >= 35 {
            break ;
        }
    }
    (result, pos)
}

/// Writes `value` as an unsigned LEB128 number.
pub fn encode_uleb128(value: u32) -> (res: Vec<u8>)
    ensures
        res@ == spec_encode_uleb128(value),
{
    let mut result: Vec<u8> = Vec::new();
    let mut remaining: u32 = value;
    loop
        invariant_except_break
            result@ + spec_encode_uleb128(remaining) == spec_encode_uleb128(value),
        ensures
            result@ == spec_encode_uleb128(value),
        decreases remaining,
    {
        let ghost before = remaining;
        let mut byte: u8 = (remaining & 0x7F) as u8;
        remaining >>= 7;
        proof {
            lemma_shr7_smaller(before);
        }
        if remaining != 0 {
            assert(((before & 0x7f) as u8 | 0x80) == ((before & 0x7f) | 0x80) as u8) by (bit_vector);
            byte |= 0x80;
        }
        result.push(byte);
        if remaining == 0 {
            assert(result@ =~= spec_encode_uleb128(value));
            break ;
        }
        assert(result@ + spec_encode_uleb128(remaining) =~= spec_encode_uleb128(value));
    }
    result
}

proof fn lemma_uleb128_decode_encoded(data: Seq<u8>, pos: int, shift: u32, acc: u32, value: u32)
    requires
        0 <= pos,
        pos + spec_encode_uleb128(value).len() <= data.len(),
        data.subrange(pos, pos + spec_encode_uleb128(value).len()) == spec_encode_uleb128(value),
        shift == 0 || shift == 7 || shift == 14 || shift == 21 || shift == 28,
        acc >> shift == 0,
        (value << shift) >> shift == value,
    ensures
        uleb128_decode_from(data, pos, shift, acc) == (
            acc | (value << shift),
            pos + spec_encode_uleb128(value).len(),
        ),
    decreases value,
{
    let enc = spec_encode_uleb128(value);
    assert(data[pos] == enc[0]);
    if value >> 7 == 0 {
        let byte = (value & 0x7f) as u8;
        assert(byte & 0x80 == 0 && acc | (((byte & 0x7f) as u32) << shift) == acc | (value << shift))
            by (bit_vector)
            requires
                value >> 7 == 0,
                byte == (value & 0x7f) as u8,
        ;
    } else {
        let byte = ((value & 0x7f) | 0x80) as u8;
        if shift == 28 {
            assert(false) by (bit_vector)
                requires
                    (value << 28) >> 28 == value,
                    value >> 7 != 0,
            ;
        }
        assert(shift <= 21);
        let next = acc | (((byte & 0x7f) as u32) << shift);
        assert(byte & 0x80 != 0 && next == acc | ((value & 0x7f) << shift)) by (bit_vector)
            requires
                byte == ((value & 0x7f) | 0x80) as u8,
                next == acc | (((byte & 0x7f) as u32) << shift),
        ;
        let s2 = (shift + 7) as u32;
        assert(next >> s2 == 0 && ((value >> 7) << s2) >> s2 == value >> 7 && next | ((value
            >> 7) << s2) == acc | (value << shift)) by (bit_vector)
            requires
                shift <= 21,
                s2 == shift + 7,
                acc >> shift == 0,
                (value << shift) >> shift == value,
                next == acc | ((value & 0x7f) << shift),
        ;
        lemma_shr7_smaller(value);
        let rest = spec_encode_uleb128(value >> 7);
        assert(enc == seq![byte] + rest);
        assert(data.subrange(pos + 1, pos + 1 + rest.len()) =~= rest) by {
            assert forall|i: int| 0 <= i < rest.len() implies data[pos + 1 + i] == rest[i] by {
                assert(data.subrange(pos, pos + enc.len())[1 + i] == enc[1 + i]);
            }
        }
        lemma_uleb128_decode_encoded(data, pos + 1, s2, next, value >> 7);
    }
}

/// Whatever bytes surround it, the encoding of `value` read back at its position gives
/// `value` and ends just past the encoding.
pub proof fn lemma_uleb128_roundtrip(value: u32, data: Seq<u8>, offset: int)
    requires
        0 <= offset,
        offset + spec_encode_uleb128(value).len() <= data.len(),
        data.subrange(offset, offset + spec_encode_uleb128(value).len()) == spec_encode_uleb128(
            value,
        ),
    ensures
        spec_decode_uleb128(data, offset) == (value, offset + spec_encode_uleb128(value).len()),
{
    assert((value << 0u32) >> 0u32 == value && (0u32 >> 0u32) == 0 && (0u32 | (value << 0u32))
        == value) by (bit_vector);
    lemma_uleb128_decode_encoded(data, offset, 0, 0, value);
}

proof fn lemma_uleb128_len_from(value: u32, shift: u32)
    requires
        shift == 0 || shift == 7 || shift == 14 || shift == 21 || shift == 28,
        (value << shift) >> shift == value,
    ensures
        shift + 7 * spec_encode_uleb128(value).len() <= 35,
        spec_encode_uleb128(value).len() >= 1,
    decreases value,
{
    if value >> 7 != 0 {
        if shift == 28 {
            assert(false) by (bit_vector)
                requires
                    (value << 28) >> 28 == value,
                    value >> 7 != 0,
            ;
        }
        let s2 = (shift + 7) as u32;
        assert(((value >> 7) << s2) >> s2 == value >> 7) by (bit_vector)
            requires
                shift <= 21,
                s2 == shift + 7,
                (value << shift) >> shift == value,
        ;
        lemma_shr7_smaller(value);
        lemma_uleb128_len_from(value >> 7, s2);
    }
}

/// An unsigned LEB128 encoding takes one to five bytes.
pub proof fn lemma_uleb128_encoded_len(value: u32)
    ensures
        1 <= spec_encode_uleb128(value).len() <= 5,
{
    assert((value << 0u32) >> 0u32 == value) by (bit_vector);
    lemma_uleb128_len_from(value, 0);
}

/// The sign extension applied once the last byte of a signed LEB128 number has been read:
/// when bit 6 of that byte is set and fewer than 32 bits were filled, the upper bits become ones.
pub open spec fn sleb128_finish(acc: i32, shift: u32, last: u8) -> i32 {
    if shift < 32 && last & 0x40 != 0 {
        acc | (!0i32 << shift)
    } else {
        acc
    }
}

/// Decoding state machine of a signed LEB128 number (see `uleb128_decode_from`); `last` is the
/// byte read most recently. Reading stops at the first byte without the continuation bit or at
/// the end of the data.
pub open spec fn sleb128_decode_from(data: Seq<u8>, pos: int, shift: u32, acc: i32, last: u8) -> (
    i32,
    int,
)
    decreases data.len() - pos,
{
    if pos < 0 || pos >= data.len() {
        (sleb128_finish(acc, shift, last), pos)
    } else {
        let byte = data[pos];
        let next = acc | (((byte & 0x7f) as i32) << shift);
        if byte & 0x80 == 0 {
            (sleb128_finish(next, (shift + 7) as u32, byte), pos + 1)
        } else {
            sleb128_decode_from(data, pos + 1, (shift + 7) as u32, next, byte)
        }
    }
}

/// The signed LEB128 number that starts at `offset`, with the position after it.
pub open spec fn spec_decode_sleb128(data: Seq<u8>, offset: int) -> (i32, int) {
    sleb128_decode_from(data, offset, 0, 0, 0)
}

/// A signed LEB128 number at `offset` ends within five bytes or runs into the end of the data;
/// a sixth byte would be shifted past the width of `i32`.
pub open spec fn sleb128_within_five_bytes(data: Seq<u8>, offset: int) -> bool {
    !(offset + 5 < data.len() && forall|j: int|
        offset <= j < offset + 5 ==> #[trigger] data[j] & 0x80 != 0)
}

/// Whether the signed LEB128 encoding of a number ends after the byte `byte`, given the number
/// `rest` left once that byte's seven bits are removed.
pub open spec fn sleb128_is_last(byte: u8, rest: i32) -> bool {
    (rest == 0 && byte & 0x40 == 0) || (rest == -1 && byte & 0x40 != 0)
}

pub open spec fn sleb128_measure(value: i32) -> int {
    if value >= 0 {
        value as int
    } else {
        -1 - value as int
    }
}

pub proof fn lemma_sar7_measure(value: i32)
    ensures
        !sleb128_is_last((value & 0x7f) as u8, value >> 7) ==> sleb128_measure(value >> 7)
            < sleb128_measure(value),
{
    let byte = (value & 0x7f) as u8;
    let rest = value >> 7;
    assert((value >= 0 ==> rest >= 0) && (value < 0 ==> rest < 0) && (value > 0 ==> rest < value)
        && (value < -1 ==> rest > value) && (value == 0 ==> rest == 0 && byte & 0x40 == 0) && (
    value == -1 ==> rest == -1 && byte & 0x40 != 0)) by (bit_vector)
        requires
            byte == (value & 0x7f) as u8,
            rest == value >> 7,
    ;
}

/// The signed LEB128 encoding of `value`: seven bits per byte, least significant first, the
/// high bit set on every byte but the last, and bit 6 of the last byte equal to the sign.
pub open spec fn spec_encode_sleb128(value: i32) -> Seq<u8>
    decreases sleb128_measure(value),
{
    let byte = (value & 0x7f) as u8;
    let rest = value >> 7;
    if sleb128_is_last(byte, rest) {
        seq![byte]
    } else {
        proof {
            lemma_sar7_measure(value);
        }
        seq![byte | 0x80] + spec_encode_sleb128(rest)
    }
}

/// Reads a signed LEB128 number at `offset`; returns it with the offset just past it.
pub fn decode_sleb128(data: &[u8], offset: usize) -> (res: (i32, usize))
    requires
        sleb128_within_five_bytes(data@, offset as int),
    ensures
        (res.0, res.1 as int) == spec_decode_sleb128(data@, offset as int),
{
    let mut result: i32 = 0;
    let mut shift: u32 = 0;
    let mut pos: usize = offset;
    let mut byte: u8 = 0;
    loop
        invariant_except_break
            sleb128_decode_from(data@, pos as int, shift, result, byte) == spec_decode_sleb128(
                data@,
                offset as int,
            ),
            pos >= offset,
            shift == 7 * (pos - offset),
            forall|j: int| offset <= j < pos ==> #[trigger] data@[j] & 0x80 != 0,
            sleb128_within_five_bytes(data@, offset as int),
            shift <= 35,
        ensures
            (sleb128_finish(result, shift, byte), pos as int) == spec_decode_sleb128(
                data@,
                offset as int,
            ),
        decreases 35 - shift,
    {
        if pos >= data.len() {
            break ;
        }
        if shift >= 32 {
            assert(data@[offset + 4] & 0x80 != 0);
            assert(false);
        }
        byte = data[pos];
        result |= ((byte & 0x7F) as i32) << shift;
        shift += 7;
        pos += 1;
        if byte & 0x80 == 0 {
            break ;
        }
    }
    if shift < 32 && (byte & 0x40) != 0 {
        result |= !0i32 << shift;
    }
    (result, pos)
}

/// Writes `value` as a signed LEB128 number.
pub fn encode_sleb128(value: i32) -> (res: Vec<u8>)
    ensures
        res@ == spec_encode_sleb128(value),
{
    let mut result: Vec<u8> = Vec::new();
    let mut remaining: i32 = value;
    let mut more = true;
    while more
        invariant
            more ==> result@ + spec_encode_sleb128(remaining) == spec_encode_sleb128(value),
            !more ==> result@ == spec_encode_sleb128(value),
        decreases sleb128_measure(remaining) + (if more { 1int } else { 0 }),
    {
        let ghost before = remaining;
        let mut byte: u8 = (remaining & 0x7F) as u8;
        remaining >>= 7;
        proof {
            lemma_sar7_measure(before);
        }
        if (remaining == 0 && (byte & 0x40) == 0) || (remaining == -1 && (byte & 0x40) != 0) {
            more = false;
            result.push(byte);
            assert(result@ =~= spec_encode_sleb128(value));
        } else {
            byte |= 0x80;
            result.push(byte);
            assert(result@ + spec_encode_sleb128(remaining) =~= spec_encode_sleb128(value));
        }
    }
    result
}

proof fn lemma_sleb128_decode_encoded(
    data: Seq<u8>,
    pos: int,
    shift: u32,
    acc: i32,
    last: u8,
    value: i32,
)
    requires
        0 <= pos,
        pos + spec_encode_sleb128(value).len() <= data.len(),
        data.subrange(pos, pos + spec_encode_sleb128(value).len()) == spec_encode_sleb128(value),
        shift == 0 || shift == 7 || shift == 14 || shift == 21 || shift == 28,
        acc >= 0,
        acc >> shift == 0,
        (value << shift) >> shift == value,
    ensures
        sleb128_decode_from(data, pos, shift, acc, last) == (
            acc | (value << shift),
            pos + spec_encode_sleb128(value).len(),
        ),
        shift + 7 * spec_encode_sleb128(value).len() <= 35,
        forall|j: int|
            pos <= j < pos + spec_encode_sleb128(value).len() - 1 ==> #[trigger] data[j] & 0x80
                != 0,
        data[pos + spec_encode_sleb128(value).len() - 1] & 0x80 == 0,
    decreases sleb128_measure(value),
{
    let enc = spec_encode_sleb128(value);
    assert(data[pos] == enc[0]);
    let byte = (value & 0x7f) as u8;
    let rest = value >> 7;
    let next = acc | (((byte & 0x7f) as i32) << shift);
    if sleb128_is_last(byte, rest) {
        let s2 = (shift + 7) as u32;
        assert(byte & 0x80 == 0 && sleb128_finish(next, s2, byte) == acc | (value << shift))
            by (bit_vector)
            requires
                byte == (value & 0x7f) as u8,
                rest == value >> 7,
                (rest == 0 && byte & 0x40 == 0) || (rest == -1 && byte & 0x40 != 0),
                next == acc | (((byte & 0x7f) as i32) << shift),
                s2 == shift + 7,
                shift <= 28,
                acc >= 0,
                acc >> shift == 0,
                (value << shift) >> shift == value,
        ;
    } else {
        if shift == 28 {
            assert(false) by (bit_vector)
                requires
                    (value << 28) >> 28 == value,
                    byte == (value & 0x7f) as u8,
                    rest == value >> 7,
                    !((rest == 0 && byte & 0x40 == 0) || (rest == -1 && byte & 0x40 != 0)),
            ;
        }
        let b2 = byte | 0x80;
        let next2 = acc | (((b2 & 0x7f) as i32) << shift);
        let s2 = (shift + 7) as u32;
        assert(b2 & 0x80 != 0 && next2 >= 0 && next2 >> s2 == 0 && (rest << s2) >> s2 == rest
            && next2 | (rest << s2) == acc | (value << shift)) by (bit_vector)
            requires
                byte == (value & 0x7f) as u8,
                b2 == byte | 0x80,
                rest == value >> 7,
                next2 == acc | (((b2 & 0x7f) as i32) << shift),
                s2 == shift + 7,
                shift <= 21,
                acc >= 0,
                acc >> shift == 0,
                (value << shift) >> shift == value,
        ;
        lemma_sar7_measure(value);
        let tail = spec_encode_sleb128(rest);
        assert(enc == seq![b2] + tail);
        assert(data.subrange(pos + 1, pos + 1 + tail.len()) =~= tail) by {
            assert forall|i: int| 0 <= i < tail.len() implies data[pos + 1 + i] == tail[i] by {
                assert(data.subrange(pos, pos + enc.len())[1 + i] == enc[1 + i]);
            }
        }
        lemma_sleb128_decode_encoded(data, pos + 1, s2, next2, b2, rest);
    }
}

/// Whatever bytes surround it, the signed encoding of `value` can be read back at its position
/// (it ends within five bytes) and gives `value`, ending just past the encoding.
pub proof fn lemma_sleb128_roundtrip(value: i32, data: Seq<u8>, offset: int)
    requires
        0 <= offset,
        offset + spec_encode_sleb128(value).len() <= data.len(),
        data.subrange(offset, offset + spec_encode_sleb128(value).len()) == spec_encode_sleb128(
            value,
        ),
    ensures
        sleb128_within_five_bytes(data, offset),
        spec_decode_sleb128(data, offset) == (value, offset + spec_encode_sleb128(value).len()),
        1 <= spec_encode_sleb128(value).len() <= 5,
{
    assert((value << 0u32) >> 0u32 == value && (0i32 >> 0u32) == 0 && (0i32 | (value << 0u32))
        == value) by (bit_vector);
    lemma_sleb128_decode_encoded(data, offset, 0, 0, 0, value);
    let n = spec_encode_sleb128(value).len();
    if offset + 5 < data.len() {
        assert(data[offset + n - 1] & 0x80 == 0);
    }
}

/// Reads an unsigned LEB128 number stored plus one (so that -1 fits in a byte); returns it
/// minus one, wrapping, with the offset just past it.
pub fn decode_uleb128p1(data: &[u8], offset: usize) -> (res: (u32, usize))
    ensures
        res.0 == spec_decode_uleb128(data@, offset as int).0.wrapping_sub(1),
        res.1 as int == spec_decode_uleb128(data@, offset as int).1,
{
    let (value, new_offset) = decode_uleb128(data, offset);
    (value.wrapping_sub(1), new_offset)
}

/// The stored value of a `uleb128p1` number: the bit pattern of `value` plus one, wrapping.
pub open spec fn uleb128p1_stored(value: i32) -> u32 {
    (value as u32).wrapping_add(1)
}

/// Writes `value` as a `uleb128p1` number: the unsigned encoding of its bits plus one.
pub fn encode_uleb128p1(value: i32) -> (res: Vec<u8>)
    ensures
        res@ == spec_encode_uleb128(uleb128p1_stored(value)),
{
    encode_uleb128((value as u32).wrapping_add(1))
}

/// A `uleb128p1` number read back gives the bit pattern of the number written.
pub proof fn lemma_uleb128p1_roundtrip(value: i32, data: Seq<u8>, offset: int)
    requires
        0 <= offset,
        offset + spec_encode_uleb128(uleb128p1_stored(value)).len() <= data.len(),
        data.subrange(offset, offset + spec_encode_uleb128(uleb128p1_stored(value)).len())
            == spec_encode_uleb128(uleb128p1_stored(value)),
    ensures
        spec_decode_uleb128(data, offset).0.wrapping_sub(1) == value as u32,
{
    lemma_uleb128_roundtrip(uleb128p1_stored(value), data, offset);
}

} // verus!
