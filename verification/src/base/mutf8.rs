use vstd::prelude::*;
use crate::base::text::{hexadecimal, push_hex};

verus! {

/// What goes wrong while reading modified UTF-8.
#[derive(Debug, Clone, PartialEq, Eq)]
pub enum Mutf8Error {
    UnexpectedEnd,
    InvalidByte(u8),
    InvalidSurrogate(u16),
}

/// The message that describes an error.
pub open spec fn mutf8_error_message(e: Mutf8Error) -> Seq<char> {
    match e {
        Mutf8Error::UnexpectedEnd => "unexpected end of MUTF-8 data"@,
        Mutf8Error::InvalidByte(b) => "invalid MUTF-8 byte: 0x"@ + hexadecimal(b as nat, 2, true),
        Mutf8Error::InvalidSurrogate(u) => "invalid surrogate: 0x"@ + hexadecimal(u as nat, 4, true),
    }
}

impl Mutf8Error {
    /// The message that describes the error, with the byte or code unit in upper-case hex.
    pub fn to_string(&self) -> (res: String)
        ensures
            res@ == mutf8_error_message(*self),
    {
        let mut s = String::new();
        match self {
            Mutf8Error::UnexpectedEnd => {
                s.append("unexpected end of MUTF-8 data");
            },
            Mutf8Error::InvalidByte(b) => {
                s.append("invalid MUTF-8 byte: 0x");
                push_hex(&mut s, *b as u64, 2, true);
            },
            Mutf8Error::InvalidSurrogate(u) => {
                s.append("invalid surrogate: 0x");
                push_hex(&mut s, *u as u64, 4, true);
            },
        }
        s
    }
}

/// Whether `v` is a Unicode scalar value, i.e. the code of some `char`.
pub open spec fn is_scalar_value(v: u32) -> bool {
    v <= 0x10FFFF && !(0xD800 <= v <= 0xDFFF)
}

/// `char::from_u32`: the char whose code is `v`, if `v` is a Unicode scalar value.
#[verifier::external_body]
pub(crate) fn char_from_u32(v: u32) -> (res: Option<char>)
    ensures
        res is Some <==> is_scalar_value(v),
        res matches Some(c) ==> c as u32 == v,
{
    char::from_u32(v)
}

/// `String::push`: appends one char.
#[verifier::external_body]
pub(crate) fn string_push(s: &mut String, c: char)
    ensures
        final(s)@ == old(s)@.push(c),
{
    s.push(c);
}

/// The code point of a two-byte sequence `110xxxxx 10yyyyyy`.
pub open spec fn two_byte_code(b1: u8, b2: u8) -> u32 {
    (((b1 & 0x1F) as u32) << 6) | ((b2 & 0x3F) as u32)
}

/// The code unit of a three-byte sequence `1110xxxx 10yyyyyy 10zzzzzz`.
pub open spec fn three_byte_code(b1: u8, b2: u8, b3: u8) -> u32 {
    (((b1 & 0x0F) as u32) << 12) | (((b2 & 0x3F) as u32) << 6) | ((b3 & 0x3F) as u32)
}

/// The supplementary code point that a high surrogate `high` and a low surrogate `low` stand for.
pub open spec fn surrogate_pair_code(high: u32, low: u32) -> u32 {
    (0x10000 + (((high - 0xD800) as u32) << 10) + (low - 0xDC00)) as u32
}

/// Whether a three-byte sequence that encodes a low surrogate follows at `pos`, so that it
/// completes a pair with the high surrogate `high`.
pub open spec fn low_surrogate_follows(data: Seq<u8>, pos: int, high: u32) -> bool {
    &&& pos + 2 < data.len()
    &&& data[pos] & 0xF0 == 0xE0
    &&& data[pos + 1] & 0xC0 == 0x80
    &&& data[pos + 2] & 0xC0 == 0x80
    &&& 0xDC00 <= three_byte_code(data[pos], data[pos + 1], data[pos + 2]) <= 0xDFFF
    &&& is_scalar_value(
        surrogate_pair_code(high, three_byte_code(data[pos], data[pos + 1], data[pos + 2])),
    )
}

/// One character of modified UTF-8 read at `pos`, with the position after it. A NUL byte is
/// refused (NUL is written as `C0 80`), a surrogate pair must come as two three-byte sequences,
/// and a sequence that runs past the data is refused.
pub open spec fn spec_decode_mutf8_char(data: Seq<u8>, pos: int) -> Result<(char, int), Mutf8Error> {
    if pos < 0 || pos >= data.len() {
        Err(Mutf8Error::UnexpectedEnd)
    } else {
        let b1 = data[pos];
        if b1 == 0 {
            Err(Mutf8Error::InvalidByte(0))
        } else if b1 & 0x80 == 0 {
            Ok((b1 as char, pos + 1))
        } else if b1 & 0xE0 == 0xC0 {
            if pos + 1 >= data.len() {
                Err(Mutf8Error::UnexpectedEnd)
            } else if data[pos + 1] & 0xC0 != 0x80 {
                Err(Mutf8Error::InvalidByte(data[pos + 1]))
            } else {
                Ok((two_byte_code(b1, data[pos + 1]) as char, pos + 2))
            }
        } else if b1 & 0xF0 == 0xE0 {
            if data.len() - pos <= 2 {
                Err(Mutf8Error::UnexpectedEnd)
            } else if data[pos + 1] & 0xC0 != 0x80 || data[pos + 2] & 0xC0 != 0x80 {
                Err(Mutf8Error::InvalidByte(data[pos + 2]))
            } else {
                let code = three_byte_code(b1, data[pos + 1], data[pos + 2]);
                if 0xD800 <= code <= 0xDFFF {
                    if pos + 5 < data.len() && low_surrogate_follows(data, pos + 3, code) {
                        let low = three_byte_code(data[pos + 3], data[pos + 4], data[pos + 5]);
                        Ok((surrogate_pair_code(code, low) as char, pos + 6))
                    } else {
                        Err(Mutf8Error::InvalidSurrogate(code as u16))
                    }
                } else if is_scalar_value(code) {
                    Ok((code as char, pos + 3))
                } else {
                    Err(Mutf8Error::InvalidByte(b1))
                }
            }
        } else {
            Err(Mutf8Error::InvalidByte(b1))
        }
    }
}

proof fn lemma_char_from_code(c: char, code: u32)
    requires
        c as u32 == code,
    ensures
        c == code as char,
{
    let d = code as char;
    assert(d as u32 == code);
}

pub proof fn lemma_decode_char_advances(data: Seq<u8>, pos: int)
    ensures
        spec_decode_mutf8_char(data, pos) matches Ok((c, next)) ==> pos < next <= pos + 6
            && next <= data.len(),
{
}

/// The characters of the modified UTF-8 text at `pos`, up to a NUL byte or the end of the data.
pub open spec fn spec_decode_mutf8_from(data: Seq<u8>, pos: int) -> Result<Seq<char>, Mutf8Error>
    decreases data.len() - pos,
{
    if pos < 0 || pos >= data.len() || data[pos] == 0 {
        Ok(Seq::empty())
    } else {
        match spec_decode_mutf8_char(data, pos) {
            Err(e) => Err(e),
            Ok((c, next)) => {
                proof {
                    lemma_decode_char_advances(data, pos);
                }
                match spec_decode_mutf8_from(data, next) {
                    Err(e) => Err(e),
                    Ok(rest) => Ok(seq![c] + rest),
                }
            },
        }
    }
}

/// The text that `decode_mutf8` reads from `data`.
pub open spec fn spec_decode_mutf8(data: Seq<u8>) -> Result<Seq<char>, Mutf8Error> {
    spec_decode_mutf8_from(data, 0)
}

/// Reads one character at `pos`.
fn decode_mutf8_char(data: &[u8], pos: usize) -> (res: Result<(char, usize), Mutf8Error>)
    ensures
        match res {
            Ok((c, next)) => spec_decode_mutf8_char(data@, pos as int) == Ok::<(char, int), Mutf8Error>((c, next as int)),
            Err(e) => spec_decode_mutf8_char(data@, pos as int) == Err::<(char, int), Mutf8Error>(e),
        },
{
    if pos >= data.len() {
        return Err(Mutf8Error::UnexpectedEnd);
    }
    let b1: u8 = data[pos];

    if b1 == 0x00 {
        return Err(Mutf8Error::InvalidByte(0x00));
    }

    if (b1 & 0x80) == 0x00 {
        return Ok((b1 as char, pos + 1));
    }

    if (b1 & 0xE0) == 0xC0 {
        if pos + 1 >= data.len() {
            return Err(Mutf8Error::UnexpectedEnd);
        }
        let b2: u8 = data[pos + 1];
        if (b2 & 0xC0) != 0x80 {
            return Err(Mutf8Error::InvalidByte(b2));
        }
        let code_point: u32 = (((b1 & 0x1F) as u32) << 6) | ((b2 & 0x3F) as u32);
        if code_point == 0 {
            assert(('\0' as u32) == (code_point as char) as u32);
            return Ok(('\0', pos + 2));
        }
        assert(code_point < 0x800) by (bit_vector)
            requires
                code_point == (((b1 & 0x1F) as u32) << 6) | ((b2 & 0x3F) as u32),
        ;
        assert(is_scalar_value(code_point));
        let ch = match char_from_u32(code_point) {
            Some(c) => c,
            None => '\u{FFFD}',
        };
        proof {
            lemma_char_from_code(ch, code_point);
        }
        return Ok((ch, pos + 2));
    }

    if (b1 & 0xF0) == 0xE0 {
        if data.len() - pos <= 2 {
            return Err(Mutf8Error::UnexpectedEnd);
        }
        let b2: u8 = data[pos + 1];
        let b3: u8 = data[pos + 2];
        if (b2 & 0xC0) != 0x80 || (b3 & 0xC0) != 0x80 {
            return Err(Mutf8Error::InvalidByte(b3));
        }
        let code_point: u32 = (((b1 & 0x0F) as u32) << 12) | (((b2 & 0x3F) as u32) << 6) | ((b3
            & 0x3F) as u32);
        assert(code_point <= 0xFFFF) by (bit_vector)
            requires
                code_point == (((b1 & 0x0F) as u32) << 12) | (((b2 & 0x3F) as u32) << 6) | ((b3
                    & 0x3F) as u32),
        ;

        if 0xD800 <= code_point && code_point <= 0xDFFF {
            let high: u32 = code_point - 0xD800;
            if data.len() - pos > 5 && (data[pos + 3] & 0xF0) == 0xE0 && (data[pos + 4] & 0xC0)
                == 0x80 && (data[pos + 5] & 0xC0) == 0x80 {
                let low_byte1: u8 = data[pos + 3];
                let low_byte2: u8 = data[pos + 4];
                let low_byte3: u8 = data[pos + 5];
                let low_surrogate: u32 = (((low_byte1 & 0x0F) as u32) << 12) | (((low_byte2
                    & 0x3F) as u32) << 6) | ((low_byte3 & 0x3F) as u32);
                if 0xDC00 <= low_surrogate && low_surrogate <= 0xDFFF {
                    let low: u32 = low_surrogate - 0xDC00;
                    assert(high << 10u32 <= 0x7FF * 0x400) by (bit_vector)
                        requires
                            high <= 0x7FF,
                    ;
                    let full_char: u32 = 0x10000 + (high << 10) + low;
                    if let Some(ch) = char_from_u32(full_char) {
                        proof {
                            lemma_char_from_code(ch, full_char);
                        }
                        assert(low_surrogate == three_byte_code(low_byte1, low_byte2, low_byte3));
                        assert(full_char == surrogate_pair_code(code_point, low_surrogate));
                        assert(low_surrogate_follows(data@, pos + 3, code_point));
                        return Ok((ch, pos + 6));
                    }
                }
            }
            return Err(Mutf8Error::InvalidSurrogate(code_point as u16));
        }
        if let Some(ch) = char_from_u32(code_point) {
            proof {
                lemma_char_from_code(ch, code_point);
            }
            return Ok((ch, pos + 3));
        }
        return Err(Mutf8Error::InvalidByte(b1));
    }

    Err(Mutf8Error::InvalidByte(b1))
}

/// Reads modified UTF-8 text up to a NUL byte or the end of `data`.
pub fn decode_mutf8(data: &[u8]) -> (res: Result<String, Mutf8Error>)
    ensures
        match res {
            Ok(s) => spec_decode_mutf8(data@) == Ok::<Seq<char>, Mutf8Error>(s@),
            Err(e) => spec_decode_mutf8(data@) == Err::<Seq<char>, Mutf8Error>(e),
        },
{
    let mut chars = String::new();
    let mut pos: usize = 0;
    while pos < data.len()
        invariant_except_break
            pos <= data.len(),
            spec_decode_mutf8_from(data@, pos as int) matches Ok(rest) ==> spec_decode_mutf8(data@) == Ok::<Seq<char>, Mutf8Error>(chars@ + rest),
            spec_decode_mutf8_from(data@, pos as int) matches Err(e) ==> spec_decode_mutf8(data@) == Err::<Seq<char>, Mutf8Error>(e),
        ensures
            spec_decode_mutf8(data@) == Ok::<Seq<char>, Mutf8Error>(chars@),
        decreases data.len() - pos,
    {
        if data[pos] == 0x00 {
            assert(chars@ + Seq::<char>::empty() =~= chars@);
            break ;
        }
        let (ch, new_pos) = match decode_mutf8_char(data, pos) {
            Ok(v) => v,
            Err(e) => {
                return Err(e);
            },
        };
        proof {
            lemma_decode_char_advances(data@, pos as int);
            if let Ok(rest) = spec_decode_mutf8_from(data@, new_pos as int) {
                assert(chars@ + (seq![ch] + rest) =~= chars@.push(ch) + rest);
            }
        }
        string_push(&mut chars, ch);
        pos = new_pos;
    }
    proof {
        if pos >= data.len() {
            assert(chars@ + Seq::<char>::empty() =~= chars@);
        }
    }
    Ok(chars)
}

/// The three bytes that encode one UTF-16 surrogate code unit.
pub open spec fn spec_encode_mutf8_surrogate(unit: u16) -> Seq<u8> {
    seq![
        (0xE0u8 | ((unit >> 12) as u8)) as u8,
        (0x80u8 | (((unit >> 6) & 0x3F) as u8)) as u8,
        (0x80u8 | ((unit & 0x3F) as u8)) as u8,
    ]
}

/// The high surrogate of a supplementary code point.
pub open spec fn high_surrogate(code: u32) -> u16 {
    (0xD800 + ((((code - 0x10000) as u32) >> 10) as u16)) as u16
}

/// The low surrogate of a supplementary code point.
pub open spec fn low_surrogate(code: u32) -> u16 {
    (0xDC00 + ((((code - 0x10000) as u32) & 0x3FF) as u16)) as u16
}

/// The modified UTF-8 encoding of one char: NUL as `C0 80`, other chars below U+10000 as in
/// UTF-8, and supplementary chars as the two three-byte encodings of their surrogate pair.
pub open spec fn spec_encode_mutf8_char(c: char) -> Seq<u8> {
    let code = c as u32;
    if code == 0 {
        seq![0xC0u8, 0x80u8]
    } else if code < 0x80 {
        seq![code as u8]
    } else if code < 0x800 {
        seq![(0xC0u8 | ((code >> 6) as u8)) as u8, (0x80u8 | ((code & 0x3F) as u8)) as u8]
    } else if code >= 0x10000 {
        spec_encode_mutf8_surrogate(high_surrogate(code)) + spec_encode_mutf8_surrogate(
            low_surrogate(code),
        )
    } else {
        seq![
            (0xE0u8 | ((code >> 12) as u8)) as u8,
            (0x80u8 | (((code >> 6) & 0x3F) as u8)) as u8,
            (0x80u8 | ((code & 0x3F) as u8)) as u8,
        ]
    }
}

/// The modified UTF-8 encoding of a sequence of chars, without terminator.
pub open spec fn spec_encode_mutf8_chars(s: Seq<char>) -> Seq<u8>
    decreases s.len(),
{
    if s.len() == 0 {
        Seq::empty()
    } else {
        spec_encode_mutf8_chars(s.drop_last()) + spec_encode_mutf8_char(s.last())
    }
}

/// What `encode_mutf8` writes: the encoded chars followed by a NUL terminator.
pub open spec fn spec_encode_mutf8(s: Seq<char>) -> Seq<u8> {
    spec_encode_mutf8_chars(s).push(0)
}

fn encode_mutf8_surrogate(surrogate: u16, out: &mut Vec<u8>)
    ensures
        final(out)@ == old(out)@ + spec_encode_mutf8_surrogate(surrogate),
{
    out.push(0xE0 | ((surrogate >> 12) as u8));
    out.push(0x80 | (((surrogate >> 6) & 0x3F) as u8));
    out.push(0x80 | ((surrogate & 0x3F) as u8));
    assert(final(out)@ =~= old(out)@ + spec_encode_mutf8_surrogate(surrogate));
}

fn encode_mutf8_char(ch: char, out: &mut Vec<u8>)
    ensures
        final(out)@ == old(out)@ + spec_encode_mutf8_char(ch),
{
    let code: u32 = ch as u32;

    if code == 0 {
        out.push(0xC0);
        out.push(0x80);
        assert(final(out)@ =~= old(out)@ + spec_encode_mutf8_char(ch));
        return ;
    }

    if code < 0x80 {
        out.push(code as u8);
        assert(final(out)@ =~= old(out)@ + spec_encode_mutf8_char(ch));
        return ;
    }

    if code < 0x800 {
        out.push(0xC0 | ((code >> 6) as u8));
        out.push(0x80 | ((code & 0x3F) as u8));
        assert(final(out)@ =~= old(out)@ + spec_encode_mutf8_char(ch));
        return ;
    }

    if code >= 0x10000 {
        let v: u32 = code - 0x10000;
        assert(v >> 10u32 <= 0x3FF && v & 0x3FF <= 0x3FF) by (bit_vector)
            requires
                v <= 0xFFFFF,
        ;
        let high: u16 = 0xD800 + ((v >> 10) as u16);
        let low: u16 = 0xDC00 + ((v & 0x3FF) as u16);
        encode_mutf8_surrogate(high, out);
        encode_mutf8_surrogate(low, out);
        assert(final(out)@ =~= old(out)@ + spec_encode_mutf8_char(ch));
        return ;
    }

    out.push(0xE0 | ((code >> 12) as u8));
    out.push(0x80 | (((code >> 6) & 0x3F) as u8));
    out.push(0x80 | ((code & 0x3F) as u8));
    assert(final(out)@ =~= old(out)@ + spec_encode_mutf8_char(ch));
}

/// Writes `s` as modified UTF-8 followed by a NUL byte.
pub fn encode_mutf8(s: &str) -> (res: Vec<u8>)
    ensures
        res@ == spec_encode_mutf8(s@),
{
    let mut result: Vec<u8> = Vec::new();
    for ch in it: s.chars()
        invariant
            it.seq() == s@,
            result@ == spec_encode_mutf8_chars(s@.take(it.index() as int)),
    {
        let ghost before = result@;
        encode_mutf8_char(ch, &mut result);
        proof {
            let i = it.index() as int;
            assert(s@.take(i + 1).drop_last() =~= s@.take(i));
        }
    }
    proof {
        assert(s@.take(s@.len() as int) =~= s@);
    }
    result.push(0x00);
    result
}

proof fn lemma_encode_chars_cons(c: char, t: Seq<char>)
    ensures
        spec_encode_mutf8_chars(seq![c] + t) == spec_encode_mutf8_char(c)
            + spec_encode_mutf8_chars(t),
    decreases t.len(),
{
    let ct = seq![c] + t;
    if t.len() == 0 {
        assert(ct =~= seq![c]);
        assert(ct.drop_last() =~= Seq::<char>::empty());
        assert(spec_encode_mutf8_chars(ct.drop_last()) == Seq::<u8>::empty());
        assert(spec_encode_mutf8_chars(ct) == Seq::<u8>::empty() + spec_encode_mutf8_char(c));
        assert(spec_encode_mutf8_chars(t) == Seq::<u8>::empty());
        assert(Seq::<u8>::empty() + spec_encode_mutf8_char(c) =~= spec_encode_mutf8_char(c)
            + Seq::<u8>::empty());
    } else {
        lemma_encode_chars_cons(c, t.drop_last());
        assert(ct.drop_last() =~= seq![c] + t.drop_last());
        assert(ct.last() == t.last());
        let a = spec_encode_mutf8_char(c);
        let b = spec_encode_mutf8_chars(t.drop_last());
        let d = spec_encode_mutf8_char(t.last());
        assert(spec_encode_mutf8_chars(ct) == spec_encode_mutf8_chars(ct.drop_last()) + d);
        assert(spec_encode_mutf8_chars(ct.drop_last()) == a + b);
        assert(spec_encode_mutf8_chars(t) == b + d);
        assert((a + b) + d =~= a + (b + d));
    }
}

proof fn lemma_subrange_at(data: Seq<u8>, pos: int, e: Seq<u8>, i: int)
    requires
        0 <= pos,
        pos + e.len() <= data.len(),
        data.subrange(pos, pos + e.len()) == e,
        0 <= i < e.len(),
    ensures
        data[pos + i] == e[i],
{
    assert(data.subrange(pos, pos + e.len())[i] == e[i]);
}

proof fn lemma_surrogate_bytes(unit: u16)
    requires
        0xD800 <= unit <= 0xDFFF,
    ensures
        ({
            let e = spec_encode_mutf8_surrogate(unit);
            &&& e[0] != 0
            &&& e[0] & 0x80 != 0
            &&& e[0] & 0xE0 != 0xC0
            &&& e[0] & 0xF0 == 0xE0
            &&& e[1] & 0xC0 == 0x80
            &&& e[2] & 0xC0 == 0x80
            &&& three_byte_code(e[0], e[1], e[2]) == unit as u32
        }),
{
    let e = spec_encode_mutf8_surrogate(unit);
    let b1 = e[0];
    let b2 = e[1];
    let b3 = e[2];
    assert(b1 != 0 && b1 & 0x80 != 0 && b1 & 0xE0 != 0xC0 && b1 & 0xF0 == 0xE0 && b2 & 0xC0
        == 0x80 && b3 & 0xC0 == 0x80 && three_byte_code(b1, b2, b3) == unit as u32) by (bit_vector)
        requires
            0xD800 <= unit <= 0xDFFF,
            b1 == (0xE0u8 | ((unit >> 12) as u8)) as u8,
            b2 == (0x80u8 | (((unit >> 6) & 0x3F) as u8)) as u8,
            b3 == (0x80u8 | ((unit & 0x3F) as u8)) as u8,
    ;
}

/// Reading the encoding of one char, with at least one byte after it, gives the char back.
proof fn lemma_decode_encoded_char(data: Seq<u8>, pos: int, c: char)
    requires
        0 <= pos,
        pos + spec_encode_mutf8_char(c).len() < data.len(),
        data.subrange(pos, pos + spec_encode_mutf8_char(c).len()) == spec_encode_mutf8_char(c),
    ensures
        data[pos] != 0,
        spec_decode_mutf8_char(data, pos) == Ok::<(char, int), Mutf8Error>(
            (c, pos + spec_encode_mutf8_char(c).len()),
        ),
{
    let e = spec_encode_mutf8_char(c);
    let code = c as u32;
    lemma_subrange_at(data, pos, e, 0);
    if e.len() > 1 {
        lemma_subrange_at(data, pos, e, 1);
    }
    if e.len() > 2 {
        lemma_subrange_at(data, pos, e, 2);
    }
    if e.len() > 3 {
        lemma_subrange_at(data, pos, e, 3);
        lemma_subrange_at(data, pos, e, 4);
        lemma_subrange_at(data, pos, e, 5);
    }
    if code == 0 {
        let b1 = data[pos];
        let b2 = data[pos + 1];
        assert(b1 != 0 && b1 & 0x80 != 0 && b1 & 0xE0 == 0xC0 && b2 & 0xC0 == 0x80
            && two_byte_code(b1, b2) == 0) by (bit_vector)
            requires
                b1 == 0xC0u8,
                b2 == 0x80u8,
        ;
        lemma_char_from_code(c, 0);
        assert(spec_decode_mutf8_char(data, pos) == Ok::<(char, int), Mutf8Error>((c, pos + e.len())));
    } else if code < 0x80 {
        let b = code as u8;
        assert(b != 0 && b & 0x80 == 0 && b as u32 == code) by (bit_vector)
            requires
                code != 0,
                code < 0x80,
                b == code as u8,
        ;
        lemma_char_from_code(c, b as u32);
        assert((b as char) as u32 == b as u32);
        lemma_char_from_code(b as char, b as u32);
        assert(spec_decode_mutf8_char(data, pos) == Ok::<(char, int), Mutf8Error>((c, pos + e.len())));
    } else if code < 0x800 {
        let b1 = e[0];
        let b2 = e[1];
        assert(b1 != 0 && b1 & 0x80 != 0 && b1 & 0xE0 == 0xC0 && b2 & 0xC0 == 0x80
            && two_byte_code(b1, b2) == code) by (bit_vector)
            requires
                0x80 <= code < 0x800,
                b1 == (0xC0u8 | ((code >> 6) as u8)) as u8,
                b2 == (0x80u8 | ((code & 0x3F) as u8)) as u8,
        ;
        lemma_char_from_code(c, code);
        assert(spec_decode_mutf8_char(data, pos) == Ok::<(char, int), Mutf8Error>((c, pos + e.len())));
    } else if code >= 0x10000 {
        let high = high_surrogate(code);
        let low = low_surrogate(code);
        let v = (code - 0x10000) as u32;
        assert(0xD800 <= high <= 0xDBFF && 0xDC00 <= low <= 0xDFFF && surrogate_pair_code(
            high as u32,
            low as u32,
        ) == code) by (bit_vector)
            requires
                0x10000 <= code <= 0x10FFFF,
                v == code - 0x10000,
                high == (0xD800 + ((v >> 10) as u16)) as u16,
                low == (0xDC00 + ((v & 0x3FF) as u16)) as u16,
        ;
        lemma_surrogate_bytes(high);
        lemma_surrogate_bytes(low);
        let eh = spec_encode_mutf8_surrogate(high);
        let el = spec_encode_mutf8_surrogate(low);
        assert(e == eh + el);
        assert(e.len() == 6);
        assert(e[0] == eh[0] && e[1] == eh[1] && e[2] == eh[2]);
        assert(e[3] == el[0] && e[4] == el[1] && e[5] == el[2]);
        assert(data[pos] == eh[0] && data[pos + 1] == eh[1] && data[pos + 2] == eh[2]);
        assert(data[pos + 3] == el[0] && data[pos + 4] == el[1] && data[pos + 5] == el[2]);
        assert(low_surrogate_follows(data, pos + 3, high as u32));
        lemma_char_from_code(c, code);
        assert(spec_decode_mutf8_char(data, pos) == Ok::<(char, int), Mutf8Error>((c, pos + e.len())));
    } else {
        let b1 = e[0];
        let b2 = e[1];
        let b3 = e[2];
        assert(b1 != 0 && b1 & 0x80 != 0 && b1 & 0xE0 != 0xC0 && b1 & 0xF0 == 0xE0 && b2 & 0xC0
            == 0x80 && b3 & 0xC0 == 0x80 && three_byte_code(b1, b2, b3) == code) by (bit_vector)
            requires
                0x800 <= code < 0x10000,
                b1 == (0xE0u8 | ((code >> 12) as u8)) as u8,
                b2 == (0x80u8 | (((code >> 6) & 0x3F) as u8)) as u8,
                b3 == (0x80u8 | ((code & 0x3F) as u8)) as u8,
        ;
        lemma_char_from_code(c, code);
        assert(spec_decode_mutf8_char(data, pos) == Ok::<(char, int), Mutf8Error>((c, pos + e.len())));
    }
}

proof fn lemma_decode_encoded_from(data: Seq<u8>, pos: int, s: Seq<char>)
    requires
        0 <= pos,
        pos + spec_encode_mutf8(s).len() <= data.len(),
        data.subrange(pos, pos + spec_encode_mutf8(s).len()) == spec_encode_mutf8(s),
    ensures
        spec_decode_mutf8_from(data, pos) == Ok::<Seq<char>, Mutf8Error>(s),
    decreases s.len(),
{
    let enc = spec_encode_mutf8(s);
    if s.len() == 0 {
        assert(spec_encode_mutf8_chars(s) == Seq::<u8>::empty());
        assert(enc =~= seq![0u8]);
        lemma_subrange_at(data, pos, enc, 0);
        assert(s =~= Seq::<char>::empty());
    } else {
        let c = s[0];
        let t = s.drop_first();
        assert(s == seq![c] + t);
        lemma_encode_chars_cons(c, t);
        let ec = spec_encode_mutf8_char(c);
        let et = spec_encode_mutf8(t);
        assert(enc =~= ec + et);
        assert(data.subrange(pos, pos + ec.len()) =~= ec) by {
            assert forall|i: int| 0 <= i < ec.len() implies data[pos + i] == ec[i] by {
                assert(data.subrange(pos, pos + enc.len())[i] == enc[i]);
            }
        }
        assert(data.subrange(pos + ec.len(), pos + ec.len() + et.len()) =~= et) by {
            assert forall|i: int| 0 <= i < et.len() implies data[pos + ec.len() + i] == et[i] by {
                assert(data.subrange(pos, pos + enc.len())[ec.len() + i] == enc[ec.len() + i]);
            }
        }
        lemma_decode_encoded_char(data, pos, c);
        lemma_decode_encoded_from(data, pos + ec.len(), t);
        assert(et.len() >= 1);
        assert(pos < data.len());
        assert(data[pos] != 0);
        assert(spec_decode_mutf8_char(data, pos) == Ok::<(char, int), Mutf8Error>((c, pos + ec.len())));
        assert(spec_decode_mutf8_from(data, pos + ec.len()) == Ok::<Seq<char>, Mutf8Error>(t));
    }
}

/// Reading back what `encode_mutf8` wrote gives the same text, whatever follows it.
pub proof fn lemma_mutf8_roundtrip(s: Seq<char>, data: Seq<u8>)
    requires
        data.len() >= spec_encode_mutf8(s).len(),
        data.subrange(0, spec_encode_mutf8(s).len() as int) == spec_encode_mutf8(s),
    ensures
        spec_decode_mutf8(data) == Ok::<Seq<char>, Mutf8Error>(s),
{
    lemma_decode_encoded_from(data, 0, s);
}

/// The number of UTF-16 code units that `c` takes.
pub open spec fn spec_char_utf16_len(c: char) -> nat {
    if (c as u32) < 0x10000 {
        1
    } else {
        2
    }
}

/// The number of UTF-16 code units that `s` takes.
pub open spec fn spec_utf16_len(s: Seq<char>) -> nat
    decreases s.len(),
{
    if s.len() == 0 {
        0
    } else {
        spec_char_utf16_len(s[0]) + spec_utf16_len(s.drop_first())
    }
}

fn char_utf16_len(ch: char) -> (res: usize)
    ensures
        res == spec_char_utf16_len(ch),
{
    if (ch as u32) < 0x10000 {
        1
    } else {
        2
    }
}

/// The characters of the modified UTF-8 text at `pos` that fit in `remaining` UTF-16 code
/// units; reading also stops at a NUL byte or at the end of the data.
pub open spec fn spec_decode_mutf8_counted(data: Seq<u8>, pos: int, remaining: int) -> Result<
    Seq<char>,
    Mutf8Error,
>
    decreases data.len() - pos,
{
    if remaining <= 0 || pos < 0 || pos >= data.len() || data[pos] == 0 {
        Ok(Seq::empty())
    } else {
        match spec_decode_mutf8_char(data, pos) {
            Err(e) => Err(e),
            Ok((c, next)) => {
                if spec_char_utf16_len(c) > remaining {
                    Ok(Seq::empty())
                } else {
                    proof {
                        lemma_decode_char_advances(data, pos);
                    }
                    match spec_decode_mutf8_counted(data, next, remaining - spec_char_utf16_len(c)) {
                        Err(e) => Err(e),
                        Ok(rest) => Ok(seq![c] + rest),
                    }
                }
            },
        }
    }
}

/// Reads modified UTF-8 text of at most `utf16_len` UTF-16 code units, stopping early at a
/// NUL byte or at the end of `data`.
pub fn decode_mutf8_with_length(data: &[u8], utf16_len: usize) -> (res: Result<String, Mutf8Error>)
    ensures
        match res {
            Ok(s) => spec_decode_mutf8_counted(data@, 0, utf16_len as int) == Ok::<Seq<char>, Mutf8Error>(s@),
            Err(e) => spec_decode_mutf8_counted(data@, 0, utf16_len as int) == Err::<Seq<char>, Mutf8Error>(e),
        },
{
    let mut chars = String::new();
    let mut pos: usize = 0;
    let mut utf16_count: usize = 0;
    while utf16_count < utf16_len && pos < data.len()
        invariant_except_break
            pos <= data.len(),
            utf16_count <= utf16_len,
            spec_decode_mutf8_counted(data@, pos as int, utf16_len - utf16_count) matches Ok(rest) ==> spec_decode_mutf8_counted(data@, 0, utf16_len as int) == Ok::<Seq<char>, Mutf8Error>(chars@ + rest),
            spec_decode_mutf8_counted(data@, pos as int, utf16_len - utf16_count) matches Err(e) ==> spec_decode_mutf8_counted(data@, 0, utf16_len as int) == Err::<Seq<char>, Mutf8Error>(e),
        ensures
            spec_decode_mutf8_counted(data@, 0, utf16_len as int) == Ok::<Seq<char>, Mutf8Error>(chars@),
        decreases data.len() - pos,
    {
        if data[pos] == 0x00 {
            assert(chars@ + Seq::<char>::empty() =~= chars@);
            break ;
        }
        let (ch, new_pos) = match decode_mutf8_char(data, pos) {
            Ok(v) => v,
            Err(e) => {
                return Err(e);
            },
        };
        let units = char_utf16_len(ch);
        if units > utf16_len - utf16_count {
            assert(chars@ + Seq::<char>::empty() =~= chars@);
            break ;
        }
        utf16_count += units;
        proof {
            lemma_decode_char_advances(data@, pos as int);
            if let Ok(rest) = spec_decode_mutf8_counted(data@, new_pos as int, utf16_len - utf16_count) {
                assert(chars@ + (seq![ch] + rest) =~= chars@.push(ch) + rest);
            }
        }
        string_push(&mut chars, ch);
        pos = new_pos;
    }
    proof {
        if !(utf16_count < utf16_len && pos < data.len()) {
            assert(chars@ + Seq::<char>::empty() =~= chars@);
        }
    }
    Ok(chars)
}

proof fn lemma_decode_counted_encoded(data: Seq<u8>, pos: int, s: Seq<char>)
    requires
        0 <= pos,
        pos + spec_encode_mutf8(s).len() <= data.len(),
        data.subrange(pos, pos + spec_encode_mutf8(s).len()) == spec_encode_mutf8(s),
    ensures
        spec_decode_mutf8_counted(data, pos, spec_utf16_len(s) as int) == Ok::<Seq<char>, Mutf8Error>(s),
    decreases s.len(),
{
    let enc = spec_encode_mutf8(s);
    if s.len() == 0 {
        assert(s =~= Seq::<char>::empty());
    } else {
        let c = s[0];
        let t = s.drop_first();
        assert(s == seq![c] + t);
        lemma_encode_chars_cons(c, t);
        let ec = spec_encode_mutf8_char(c);
        let et = spec_encode_mutf8(t);
        assert(enc =~= ec + et);
        assert(data.subrange(pos, pos + ec.len()) =~= ec) by {
            assert forall|i: int| 0 <= i < ec.len() implies data[pos + i] == ec[i] by {
                assert(data.subrange(pos, pos + enc.len())[i] == enc[i]);
            }
        }
        assert(data.subrange(pos + ec.len(), pos + ec.len() + et.len()) =~= et) by {
            assert forall|i: int| 0 <= i < et.len() implies data[pos + ec.len() + i] == et[i] by {
                assert(data.subrange(pos, pos + enc.len())[ec.len() + i] == enc[ec.len() + i]);
            }
        }
        lemma_decode_encoded_char(data, pos, c);
        lemma_decode_counted_encoded(data, pos + ec.len(), t);
        assert(et.len() >= 1);
        assert(spec_decode_mutf8_char(data, pos) == Ok::<(char, int), Mutf8Error>((c, pos + ec.len())));
    }
}

/// Reading back what `encode_mutf8` wrote, for as many UTF-16 code units as the text takes,
/// gives the same text.
pub proof fn lemma_mutf8_counted_roundtrip(s: Seq<char>, data: Seq<u8>)
    requires
        data.len() >= spec_encode_mutf8(s).len(),
        data.subrange(0, spec_encode_mutf8(s).len() as int) == spec_encode_mutf8(s),
    ensures
        spec_decode_mutf8_counted(data, 0, spec_utf16_len(s) as int) == Ok::<Seq<char>, Mutf8Error>(s),
{
    lemma_decode_counted_encoded(data, 0, s);
}

} // verus!
