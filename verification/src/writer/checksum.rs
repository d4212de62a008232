use vstd::prelude::*;

verus! {

// ---------------------------------------------------------------------------------------------
// Adler-32, the DEX checksum
// ---------------------------------------------------------------------------------------------

/// The two running sums of Adler-32 over `data`: the first starts at 1 and adds each byte, the
/// second adds each value of the first, both modulo 65521.
pub open spec fn adler_sums(data: Seq<u8>) -> (u32, u32)
    decreases data.len(),
{
    if data.len() == 0 {
        (1, 0)
    } else {
        let (a, b) = adler_sums(data.drop_last());
        let a2 = ((a + data.last()) % 65521) as u32;
        (a2, ((b + a2) % 65521) as u32)
    }
}

/// The Adler-32 checksum of `data`: the second sum in the high half, the first in the low half.
pub open spec fn spec_adler32(data: Seq<u8>) -> u32 {
    let (a, b) = adler_sums(data);
    (b * 65536 + a) as u32
}

proof fn lemma_adler_sums_small(data: Seq<u8>)
    ensures
        adler_sums(data).0 < 65521,
        adler_sums(data).1 < 65521,
    decreases data.len(),
{
    if data.len() > 0 {
        lemma_adler_sums_small(data.drop_last());
    }
}

/// The Adler-32 checksum of `data`.
pub fn adler32(data: &[u8]) -> (res: u32)
    ensures
        res == spec_adler32(data@),
{
    let mut a: u32 = 1;
    let mut b: u32 = 0;
    let mut i: usize = 0;
    while i < data.len()
        invariant
            i <= data@.len(),
            (a, b) == adler_sums(data@.take(i as int)),
            a < 65521,
            b < 65521,
        decreases data.len() - i,
    {
        assert(data@.take(i + 1).drop_last() =~= data@.take(i as int));
        a = (a + data[i] as u32) % 65521;
        b = (b + a) % 65521;
        i += 1;
    }
    assert(data@.take(data@.len() as int) =~= data@);
    proof {
        lemma_adler_sums_small(data@);
    }
    b * 65536 + a
}

// ---------------------------------------------------------------------------------------------
// SHA-1, the DEX signature
// ---------------------------------------------------------------------------------------------

/// The state of SHA-1 between blocks: five 32-bit words.
pub type Sha1State = (u32, u32, u32, u32, u32);

/// The state before the first block.
pub open spec fn sha1_initial() -> Sha1State {
    (0x67452301, 0xEFCDAB89, 0x98BADCFE, 0x10325476, 0xC3D2E1F0)
}

/// `x` rotated left by `n` bits (0 < n < 32).
pub open spec fn rotl(x: u32, n: u32) -> u32 {
    (x << n) | (x >> (32 - n) as u32)
}

/// The number of zero bytes between the 0x80 byte and the length in the padded message.
pub open spec fn sha1_zeros(len: nat) -> nat {
    ((119 - (len % 64) as int) % 64) as nat
}

/// The length of the padded message: the message, the 0x80 byte, the zeros and eight bytes of
/// length; a multiple of 64.
pub open spec fn sha1_padded_len(len: nat) -> nat {
    len + 1 + sha1_zeros(len) + 8
}

/// Byte `i` of the padded message: the message, then 0x80, then zeros, then the length of the
/// message in bits, most significant byte first.
pub open spec fn sha1_padded_byte(msg: Seq<u8>, i: int) -> u8 {
    let len = msg.len();
    let bits = (len * 8) as u64;
    let total = sha1_padded_len(len);
    if i < len {
        msg[i]
    } else if i == len {
        0x80
    } else if i < total - 8 {
        0
    } else {
        ((bits >> (8 * (total - 1 - i)) as u64) & 0xFF) as u8
    }
}

/// The 32-bit word at byte `i` of the padded message, most significant byte first.
pub open spec fn sha1_word(msg: Seq<u8>, i: int) -> u32 {
    ((sha1_padded_byte(msg, i) as u32) << 24u32) | ((sha1_padded_byte(msg, i + 1) as u32) << 16u32) | ((
    sha1_padded_byte(msg, i + 2) as u32) << 8u32) | (sha1_padded_byte(msg, i + 3) as u32)
}

/// Word `t` of the message schedule of the block that starts at byte `base` of the padded
/// message.
pub open spec fn sha1_schedule(msg: Seq<u8>, base: int, t: nat) -> u32
    decreases t,
{
    if t < 16 {
        sha1_word(msg, base + 4 * t)
    } else if t < 80 {
        rotl(
            sha1_schedule(msg, base, (t - 3) as nat) ^ sha1_schedule(msg, base, (t - 8) as nat)
                ^ sha1_schedule(msg, base, (t - 14) as nat) ^ sha1_schedule(msg, base, (t - 16) as nat),
            1,
        )
    } else {
        0
    }
}

/// The round function and constant of round `t`.
pub open spec fn sha1_f(t: nat, b: u32, c: u32, d: u32) -> (u32, u32) {
    if t < 20 {
        ((b & c) | (!b & d), 0x5A827999)
    } else if t < 40 {
        (b ^ c ^ d, 0x6ED9EBA1)
    } else if t < 60 {
        ((b & c) | (b & d) | (c & d), 0x8F1BBCDC)
    } else {
        (b ^ c ^ d, 0xCA62C1D6)
    }
}

/// The working variables after the first `t` rounds on the block at `base`, from state `h`.
pub open spec fn sha1_rounds(h: Sha1State, msg: Seq<u8>, base: int, t: nat) -> Sha1State
    decreases t,
{
    if t == 0 {
        h
    } else {
        let (a, b, c, d, e) = sha1_rounds(h, msg, base, (t - 1) as nat);
        let (f, k) = sha1_f((t - 1) as nat, b, c, d);
        let temp = rotl(a, 5).wrapping_add(f).wrapping_add(e).wrapping_add(k).wrapping_add(
            sha1_schedule(msg, base, (t - 1) as nat),
        );
        (temp, a, rotl(b, 30), c, d)
    }
}

/// The state after the block at `base`, from state `h`.
pub open spec fn sha1_compress(h: Sha1State, msg: Seq<u8>, base: int) -> Sha1State {
    let r = sha1_rounds(h, msg, base, 80);
    (
        h.0.wrapping_add(r.0),
        h.1.wrapping_add(r.1),
        h.2.wrapping_add(r.2),
        h.3.wrapping_add(r.3),
        h.4.wrapping_add(r.4),
    )
}

/// The state after the first `n` blocks of the padded message.
pub open spec fn sha1_state(msg: Seq<u8>, n: nat) -> Sha1State
    decreases n,
{
    if n == 0 {
        sha1_initial()
    } else {
        sha1_compress(sha1_state(msg, (n - 1) as nat), msg, 64 * (n - 1))
    }
}

/// The four bytes of `v`, most significant first.
pub open spec fn be_bytes_u32(v: u32) -> Seq<u8> {
    seq![(v >> 24u32) as u8, ((v >> 16u32) & 0xFF) as u8, ((v >> 8u32) & 0xFF) as u8, (v & 0xFF) as u8]
}

/// The SHA-1 digest of `msg`: the state after every block, its words most significant byte first.
pub open spec fn spec_sha1(msg: Seq<u8>) -> Seq<u8> {
    let s = sha1_state(msg, sha1_padded_len(msg.len()) / 64);
    be_bytes_u32(s.0) + be_bytes_u32(s.1) + be_bytes_u32(s.2) + be_bytes_u32(s.3) + be_bytes_u32(s.4)
}

fn rotl_exec(x: u32, n: u32) -> (res: u32)
    requires
        0 < n < 32,
    ensures
        res == rotl(x, n),
{
    (x << n) | (x >> (32 - n))
}

/// Byte `i` of the padded message.
fn padded_byte(msg: &[u8], i: u64) -> (res: u8)
    requires
        i < sha1_padded_len(msg@.len()),
        msg@.len() < 0x1000_0000_0000_0000,
    ensures
        res == sha1_padded_byte(msg@, i as int),
{
    let len = msg.len() as u64;
    let bits: u64 = len * 8;
    let zeros: u64 = (119 - (len % 64)) % 64;
    let total: u64 = len + 1 + zeros + 8;
    assert(zeros == sha1_zeros(msg@.len()));
    if i < len {
        msg[i as usize]
    } else if i == len {
        0x80
    } else if i < total - 8 {
        0
    } else {
        ((bits >> (8 * (total - 1 - i))) & 0xFF) as u8
    }
}

fn word_at(msg: &[u8], i: u64) -> (res: u32)
    requires
        i + 4 <= sha1_padded_len(msg@.len()),
        msg@.len() < 0x1000_0000_0000_0000,
    ensures
        res == sha1_word(msg@, i as int),
{
    ((padded_byte(msg, i) as u32) << 24) | ((padded_byte(msg, i + 1) as u32) << 16) | ((padded_byte(msg, i + 2)
        as u32) << 8) | (padded_byte(msg, i + 3) as u32)
}

fn f_exec(t: u64, b: u32, c: u32, d: u32) -> (res: (u32, u32))
    ensures
        res == sha1_f(t as nat, b, c, d),
{
    if t < 20 {
        ((b & c) | (!b & d), 0x5A827999)
    } else if t < 40 {
        (b ^ c ^ d, 0x6ED9EBA1)
    } else if t < 60 {
        ((b & c) | (b & d) | (c & d), 0x8F1BBCDC)
    } else {
        (b ^ c ^ d, 0xCA62C1D6)
    }
}

/// The state after the block at `base`, from state `h`.
fn compress(h: Sha1State, msg: &[u8], base: u64) -> (res: Sha1State)
    requires
        base + 64 <= sha1_padded_len(msg@.len()),
        msg@.len() < 0x1000_0000_0000_0000,
    ensures
        res == sha1_compress(h, msg@, base as int),
{
    let mut w: Vec<u32> = Vec::new();
    let mut t: u64 = 0;
    while t < 80
        invariant
            t <= 80,
            w@.len() == t,
            base + 64 <= sha1_padded_len(msg@.len()),
            msg@.len() < 0x1000_0000_0000_0000,
            forall|j: int| 0 <= j < t ==> #[trigger] w@[j] == sha1_schedule(msg@, base as int, j as nat),
        decreases 80 - t,
    {
        if t < 16 {
            let v = word_at(msg, base + 4 * t);
            w.push(v);
        } else {
            let ti = t as usize;
            let x = w[ti - 3] ^ w[ti - 8] ^ w[ti - 14] ^ w[ti - 16];
            let v = rotl_exec(x, 1);
            w.push(v);
        }
        t += 1;
    }
    let (mut a, mut b, mut c, mut d, mut e) = h;
    let mut t: u64 = 0;
    while t < 80
        invariant
            t <= 80,
            w@.len() == 80,
            forall|j: int| 0 <= j < 80 ==> #[trigger] w@[j] == sha1_schedule(msg@, base as int, j as nat),
            (a, b, c, d, e) == sha1_rounds(h, msg@, base as int, t as nat),
        decreases 80 - t,
    {
        let (f, k) = f_exec(t, b, c, d);
        let temp = rotl_exec(a, 5).wrapping_add(f).wrapping_add(e).wrapping_add(k).wrapping_add(w[t as usize]);
        e = d;
        d = c;
        c = rotl_exec(b, 30);
        b = a;
        a = temp;
        t += 1;
    }
    (h.0.wrapping_add(a), h.1.wrapping_add(b), h.2.wrapping_add(c), h.3.wrapping_add(d), h.4.wrapping_add(e))
}

fn push_be_u32(v: &mut Vec<u8>, x: u32)
    ensures
        final(v)@ == old(v)@ + be_bytes_u32(x),
{
    v.push((x >> 24) as u8);
    v.push(((x >> 16) & 0xFF) as u8);
    v.push(((x >> 8) & 0xFF) as u8);
    v.push((x & 0xFF) as u8);
    assert(final(v)@ =~= old(v)@ + be_bytes_u32(x));
}

/// The SHA-1 digest of `msg`.
pub fn sha1(msg: &[u8]) -> (res: Vec<u8>)
    requires
        msg@.len() < 0x1000_0000_0000_0000,
    ensures
        res@ == spec_sha1(msg@),
        res@.len() == 20,
{
    let len = msg.len() as u64;
    let zeros: u64 = (119 - (len % 64)) % 64;
    let total: u64 = len + 1 + zeros + 8;
    assert(total == sha1_padded_len(msg@.len()));
    assert(total % 64 == 0);
    let blocks = total / 64;
    let mut h: Sha1State = (0x67452301, 0xEFCDAB89, 0x98BADCFE, 0x10325476, 0xC3D2E1F0);
    let mut n: u64 = 0;
    while n < blocks
        invariant
            n <= blocks,
            blocks * 64 == sha1_padded_len(msg@.len()),
            msg@.len() < 0x1000_0000_0000_0000,
            h == sha1_state(msg@, n as nat),
        decreases blocks - n,
    {
        h = compress(h, msg, 64 * n);
        n += 1;
    }
    let mut res: Vec<u8> = Vec::new();
    push_be_u32(&mut res, h.0);
    push_be_u32(&mut res, h.1);
    push_be_u32(&mut res, h.2);
    push_be_u32(&mut res, h.3);
    push_be_u32(&mut res, h.4);
    res
}

} // verus!
