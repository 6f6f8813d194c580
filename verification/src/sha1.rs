//! SHA-1 over byte sequences, as laid down in FIPS 180-4.

use vstd::prelude::*;

verus! {

/// The five 32-bit words of a SHA-1 chaining value.
#[derive(Clone, Copy, Debug)]
pub struct State {
    pub a: u32,
    pub b: u32,
    pub c: u32,
    pub d: u32,
    pub e: u32,
}

/// Left rotation of a 32-bit word by `n` bits, `0 < n < 32`.
pub open spec fn rotl(x: u32, n: u32) -> u32 {
    (x << n) | (x >> ((32 - n) as u32))
}

/// Addition modulo 2^32.
pub open spec fn add32(x: u32, y: u32) -> u32 {
    x.wrapping_add(y)
}

/// The big-endian word made of four bytes.
pub open spec fn be32(b0: u8, b1: u8, b2: u8, b3: u8) -> u32 {
    ((b0 as u32) << 24) | ((b1 as u32) << 16) | ((b2 as u32) << 8) | (b3 as u32)
}

/// The initial chaining value.
pub open spec fn initial_state() -> State {
    State { a: 0x67452301, b: 0xEFCDAB89, c: 0x98BADCFE, d: 0x10325476, e: 0xC3D2E1F0 }
}

/// The first `t` words of the message schedule of a 64-byte block.
pub open spec fn schedule(block: Seq<u8>, t: nat) -> Seq<u32>
    decreases t,
{
    if t == 0 {
        Seq::empty()
    } else {
        let w = schedule(block, (t - 1) as nat);
        let i = t - 1;
        if i < 16 {
            w.push(be32(block[4 * i], block[4 * i + 1], block[4 * i + 2], block[4 * i + 3]))
        } else {
            w.push(rotl(w[i - 3] ^ w[i - 8] ^ w[i - 14] ^ w[i - 16], 1))
        }
    }
}

/// The round function and constant of round `t`.
pub open spec fn mix(t: int, b: u32, c: u32, d: u32) -> u32 {
    if t < 20 {
        add32((b & c) | (!b & d), 0x5A827999)
    } else if t < 40 {
        add32(b ^ c ^ d, 0x6ED9EBA1)
    } else if t < 60 {
        add32((b & c) | (b & d) | (c & d), 0x8F1BBCDC)
    } else {
        add32(b ^ c ^ d, 0xCA62C1D6)
    }
}

/// One round of the compression function.
pub open spec fn round(s: State, t: int, w: u32) -> State {
    State {
        a: add32(add32(add32(rotl(s.a, 5), mix(t, s.b, s.c, s.d)), s.e), w),
        b: s.a,
        c: rotl(s.b, 30),
        d: s.c,
        e: s.d,
    }
}

/// The state after the first `t` rounds.
pub open spec fn rounds(s: State, w: Seq<u32>, t: nat) -> State
    decreases t,
{
    if t == 0 {
        s
    } else {
        round(rounds(s, w, (t - 1) as nat), t - 1, w[t - 1])
    }
}

/// The compression function: the chaining value after one 64-byte block.
pub open spec fn compress(h: State, block: Seq<u8>) -> State {
    let r = rounds(h, schedule(block, 80), 80);
    State {
        a: add32(h.a, r.a),
        b: add32(h.b, r.b),
        c: add32(h.c, r.c),
        d: add32(h.d, r.d),
        e: add32(h.e, r.e),
    }
}

/// The chaining value after the first `n` blocks of `data`.
pub open spec fn absorb(data: Seq<u8>, n: nat) -> State
    decreases n,
{
    if n == 0 {
        initial_state()
    } else {
        compress(absorb(data, (n - 1) as nat), data.subrange(64 * (n - 1), 64 * n as int))
    }
}

/// The number of zero bytes between the `0x80` marker and the length field.
pub open spec fn zero_fill(len: nat) -> nat {
    ((119 - len % 64) % 64) as nat
}

/// The eight big-endian bytes of the message length in bits, modulo 2^64.
pub open spec fn length_field(len: nat) -> Seq<u8> {
    let bits = ((len * 8) % 0x1_0000_0000_0000_0000) as u64;
    seq![
        (bits >> 56) as u8,
        (bits >> 48) as u8,
        (bits >> 40) as u8,
        (bits >> 32) as u8,
        (bits >> 24) as u8,
        (bits >> 16) as u8,
        (bits >> 8) as u8,
        bits as u8,
    ]
}

/// The padded message: a multiple of 64 bytes long.
pub open spec fn padded(msg: Seq<u8>) -> Seq<u8> {
    msg.push(0x80u8) + Seq::new(zero_fill(msg.len()), |i: int| 0u8) + length_field(msg.len())
}

/// The four big-endian bytes of a word.
pub open spec fn word_bytes(x: u32) -> Seq<u8> {
    seq![(x >> 24) as u8, (x >> 16) as u8, (x >> 8) as u8, x as u8]
}

/// The twenty bytes of a chaining value.
pub open spec fn state_bytes(s: State) -> Seq<u8> {
    word_bytes(s.a) + word_bytes(s.b) + word_bytes(s.c) + word_bytes(s.d) + word_bytes(s.e)
}

/// The SHA-1 digest of `msg`.
pub open spec fn sha1(msg: Seq<u8>) -> Seq<u8> {
    let p = padded(msg);
    state_bytes(absorb(p, p.len() / 64))
}

fn rotate(x: u32, n: u32) -> (r: u32)
    requires
        0 < n < 32,
    ensures
        r == rotl(x, n),
{
    (x << n) | (x >> (32 - n))
}

fn load_word(data: &Vec<u8>, at: usize) -> (r: u32)
    requires
        at + 4 <= data.len(),
    ensures
        r == be32(data[at as int], data[at + 1], data[at + 2], data[at + 3]),
{
    ((data[at] as u32) << 24) | ((data[at + 1] as u32) << 16) | ((data[at + 2] as u32) << 8) | (
    data[at + 3] as u32)
}

fn expand(data: &Vec<u8>, at: usize) -> (w: Vec<u32>)
    requires
        at + 64 <= data.len(),
    ensures
        w@ == schedule(data@.subrange(at as int, at + 64), 80),
        w@.len() == 80,
{
    let ghost block = data@.subrange(at as int, at + 64);
    let mut w: Vec<u32> = Vec::new();
    let mut t: usize = 0;
    while t < 80
        invariant
            t <= 80,
            at + 64 <= data.len(),
            block == data@.subrange(at as int, at + 64),
            w@.len() == t,
            w@ == schedule(block, t as nat),
        decreases 80 - t,
    {
        if t < 16 {
            let x = load_word(data, at + 4 * t);
            w.push(x);
        } else {
            let x = rotate(w[t - 3] ^ w[t - 8] ^ w[t - 14] ^ w[t - 16], 1);
            w.push(x);
        }
        t += 1;
    }
    w
}

fn mix_round(t: usize, b: u32, c: u32, d: u32) -> (r: u32)
    ensures
        r == mix(t as int, b, c, d),
{
    if t < 20 {
        ((b & c) | (!b & d)).wrapping_add(0x5A827999)
    } else if t < 40 {
        (b ^ c ^ d).wrapping_add(0x6ED9EBA1)
    } else if t < 60 {
        ((b & c) | (b & d) | (c & d)).wrapping_add(0x8F1BBCDC)
    } else {
        (b ^ c ^ d).wrapping_add(0xCA62C1D6)
    }
}

fn compress_block(h: State, data: &Vec<u8>, at: usize) -> (r: State)
    requires
        at + 64 <= data.len(),
    ensures
        r == compress(h, data@.subrange(at as int, at + 64)),
{
    let w = expand(data, at);
    let mut s = h;
    let mut t: usize = 0;
    while t < 80
        invariant
            t <= 80,
            w@.len() == 80,
            s == rounds(h, w@, t as nat),
        decreases 80 - t,
    {
        let a = rotate(s.a, 5).wrapping_add(mix_round(t, s.b, s.c, s.d)).wrapping_add(
            s.e,
        ).wrapping_add(w[t]);
        s = State { a, b: s.a, c: rotate(s.b, 30), d: s.c, e: s.d };
        t += 1;
    }
    State {
        a: h.a.wrapping_add(s.a),
        b: h.b.wrapping_add(s.b),
        c: h.c.wrapping_add(s.c),
        d: h.d.wrapping_add(s.d),
        e: h.e.wrapping_add(s.e),
    }
}

fn push_word(out: &mut Vec<u8>, x: u32)
    ensures
        final(out)@ == old(out)@ + word_bytes(x),
{
    out.push(#[verifier::truncate] ((x >> 24) as u8));
    out.push(#[verifier::truncate] ((x >> 16) as u8));
    out.push(#[verifier::truncate] ((x >> 8) as u8));
    out.push(#[verifier::truncate] (x as u8));
    assert(out@ =~= old(out)@ + word_bytes(x));
}

fn pad_message(msg: &[u8]) -> (p: Vec<u8>)
    ensures
        p@ == padded(msg@),
        p@.len() % 64 == 0,
{
    let n: usize = msg.len();
    let mut p: Vec<u8> = Vec::new();
    let mut i: usize = 0;
    while i < n
        invariant
            i <= n,
            n == msg@.len(),
            p@ == msg@.subrange(0, i as int),
        decreases n - i,
    {
        p.push(msg[i]);
        assert(p@ =~= msg@.subrange(0, i + 1));
        i += 1;
    }
    assert(p@ =~= msg@);
    p.push(0x80u8);
    let fill: usize = (119 - n % 64) % 64;
    let mut k: usize = 0;
    while k < fill
        invariant
            k <= fill,
            p@ == msg@.push(0x80u8) + Seq::new(k as nat, |j: int| 0u8),
        decreases fill - k,
    {
        p.push(0u8);
        assert(p@ =~= msg@.push(0x80u8) + Seq::new((k + 1) as nat, |j: int| 0u8));
        k += 1;
    }
    let bits: u64 = (n as u64).wrapping_mul(8);
    let ghost before = p@;
    p.push(#[verifier::truncate] ((bits >> 56) as u8));
    p.push(#[verifier::truncate] ((bits >> 48) as u8));
    p.push(#[verifier::truncate] ((bits >> 40) as u8));
    p.push(#[verifier::truncate] ((bits >> 32) as u8));
    p.push(#[verifier::truncate] ((bits >> 24) as u8));
    p.push(#[verifier::truncate] ((bits >> 16) as u8));
    p.push(#[verifier::truncate] ((bits >> 8) as u8));
    p.push(#[verifier::truncate] (bits as u8));
    assert(p@ =~= before + length_field(msg@.len()));
    p
}

/// Computes the SHA-1 digest of a message: twenty bytes.
pub fn digest(msg: &[u8]) -> (out: Vec<u8>)
    ensures
        out@ == sha1(msg@),
        out@.len() == 20,
{
    let p = pad_message(msg);
    let blocks: usize = p.len() / 64;
    let mut h = State { a: 0x67452301, b: 0xEFCDAB89, c: 0x98BADCFE, d: 0x10325476, e: 0xC3D2E1F0 };
    let mut i: usize = 0;
    while i < blocks
        invariant
            i <= blocks,
            blocks * 64 == p.len(),
            h == absorb(p@, i as nat),
        decreases blocks - i,
    {
        h = compress_block(h, &p, i * 64);
        i += 1;
    }
    let mut out: Vec<u8> = Vec::new();
    push_word(&mut out, h.a);
    push_word(&mut out, h.b);
    push_word(&mut out, h.c);
    push_word(&mut out, h.d);
    push_word(&mut out, h.e);
    assert(out@ =~= state_bytes(h));
    out
}

} // verus!
