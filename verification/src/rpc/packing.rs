//! Fixed-width big-endian integers, the atoms of every encoding.

use vstd::prelude::*;

verus! {

/// The four bytes of `n`, most significant first.
pub open spec fn be32(n: u32) -> Seq<u8> {
    seq![
        (n / 0x100_0000) as u8,
        ((n / 0x1_0000) % 0x100) as u8,
        ((n / 0x100) % 0x100) as u8,
        (n % 0x100) as u8,
    ]
}

/// The number whose big-endian bytes are the first four of `b`.
pub open spec fn from_be32(b: Seq<u8>) -> u32
    recommends
        b.len() >= 4,
{
    (b[0] as int * 0x100_0000 + b[1] as int * 0x1_0000 + b[2] as int * 0x100 + b[3] as int) as u32
}

/// The eight bytes of `n`, most significant first.
pub open spec fn be64(n: u64) -> Seq<u8> {
    be32((n / 0x1_0000_0000) as u32) + be32((n % 0x1_0000_0000) as u32)
}

/// The number whose big-endian bytes are the first eight of `b`.
pub open spec fn from_be64(b: Seq<u8>) -> u64
    recommends
        b.len() >= 8,
{
    (from_be32(b) as int * 0x1_0000_0000 + from_be32(b.subrange(4, 8)) as int) as u64
}

/// Reading back the bytes of a 32-bit number gives the number, whatever
/// follows them.
pub proof fn lemma_be32_round_trip(n: u32, rest: Seq<u8>)
    ensures
        be32(n).len() == 4,
        from_be32(be32(n) + rest) == n,
{
    let b = be32(n) + rest;
    assert(b[0] == be32(n)[0]);
    assert(b[1] == be32(n)[1]);
    assert(b[2] == be32(n)[2]);
    assert(b[3] == be32(n)[3]);
}

/// Writing out the number read from four bytes gives those bytes.
pub proof fn lemma_be32_canonical(b: Seq<u8>)
    requires
        b.len() >= 4,
    ensures
        be32(from_be32(b)) == b.subrange(0, 4),
{
    let (b0, b1, b2, b3) = (b[0] as int, b[1] as int, b[2] as int, b[3] as int);
    let n = b0 * 0x100_0000 + b1 * 0x1_0000 + b2 * 0x100 + b3;
    lemma_digits(b0, b1 * 0x1_0000 + b2 * 0x100 + b3, 0x100_0000);
    lemma_digits(b0 * 0x100 + b1, b2 * 0x100 + b3, 0x1_0000);
    lemma_digits(b0, b1, 0x100);
    lemma_digits(b0 * 0x1_0000 + b1 * 0x100 + b2, b3, 0x100);
    lemma_digits(b0 * 0x100 + b1, b2, 0x100);
    assert(n / 0x100_0000 == b0);
    assert((n / 0x1_0000) % 0x100 == b1);
    assert((n / 0x100) % 0x100 == b2);
    assert(n % 0x100 == b3);
    assert(be32(from_be32(b)) =~= b.subrange(0, 4));
}

/// Splitting `high * base + low` at `base` gives `high` and `low` back.
proof fn lemma_digits(high: int, low: int, base: int)
    requires
        0 <= high,
        0 <= low < base,
    ensures
        (high * base + low) / base == high,
        (high * base + low) % base == low,
{
    vstd::arithmetic::div_mod::lemma_fundamental_div_mod_converse(
        high * base + low,
        base,
        high,
        low,
    );
}

/// Reading back the bytes of a 64-bit number gives the number, whatever
/// follows them.
pub proof fn lemma_be64_round_trip(n: u64, rest: Seq<u8>)
    ensures
        be64(n).len() == 8,
        from_be64(be64(n) + rest) == n,
{
    let hi = (n / 0x1_0000_0000) as u32;
    let lo = (n % 0x1_0000_0000) as u32;
    let b = be64(n) + rest;
    lemma_be32_round_trip(hi, be32(lo) + rest);
    lemma_be32_round_trip(lo, Seq::empty());
    assert(b =~= be32(hi) + (be32(lo) + rest));
    assert(b.subrange(4, 8) =~= be32(lo) + Seq::empty());
}

/// Writing out the number read from eight bytes gives those bytes.
pub proof fn lemma_be64_canonical(b: Seq<u8>)
    requires
        b.len() >= 8,
    ensures
        be64(from_be64(b)) == b.subrange(0, 8),
{
    let hi: u32 = from_be32(b);
    let lo: u32 = from_be32(b.subrange(4, 8));
    let n: u64 = from_be64(b);
    assert(n == hi as int * 0x1_0000_0000 + lo as int);
    assert((n / 0x1_0000_0000) as u32 == hi && (n % 0x1_0000_0000) as u32 == lo);
    assert(be32(hi) == b.subrange(0, 4)) by {
        lemma_be32_canonical(b);
    }
    assert(be32(lo) == b.subrange(4, 8)) by {
        lemma_be32_canonical(b.subrange(4, 8));
        assert(b.subrange(4, 8).subrange(0, 4) =~= b.subrange(4, 8));
    }
    assert(b.subrange(0, 4) + b.subrange(4, 8) =~= b.subrange(0, 8));
}

/// Appends the big-endian bytes of `n` to `out`.
pub fn put_u32(out: &mut Vec<u8>, n: u32)
    ensures
        final(out)@ == old(out)@ + be32(n),
{
    out.push((n / 0x100_0000) as u8);
    out.push(((n / 0x1_0000) % 0x100) as u8);
    out.push(((n / 0x100) % 0x100) as u8);
    out.push((n % 0x100) as u8);
    assert(out@ =~= old(out)@ + be32(n));
}

/// Appends the big-endian bytes of `n` to `out`.
pub fn put_u64(out: &mut Vec<u8>, n: u64)
    ensures
        final(out)@ == old(out)@ + be64(n),
{
    put_u32(out, (n / 0x1_0000_0000) as u32);
    put_u32(out, (n % 0x1_0000_0000) as u32);
    assert(out@ =~= old(out)@ + be64(n));
}

/// Reads the big-endian number that starts at `pos`.
pub fn get_u32(input: &[u8], pos: usize) -> (n: u32)
    requires
        pos + 4 <= input@.len(),
    ensures
        n == from_be32(input@.subrange(pos as int, input@.len() as int)),
{
    let b0: u32 = input[pos] as u32;
    let b1: u32 = input[pos + 1] as u32;
    let b2: u32 = input[pos + 2] as u32;
    let b3: u32 = input[pos + 3] as u32;
    b0 * 0x100_0000 + b1 * 0x1_0000 + b2 * 0x100 + b3
}

/// Reads the big-endian number that starts at `pos`.
pub fn get_u64(input: &[u8], pos: usize) -> (n: u64)
    requires
        pos + 8 <= input@.len(),
    ensures
        n == from_be64(input@.subrange(pos as int, input@.len() as int)),
{
    assert(pos + 8 <= input.len());
    let hi: u64 = get_u32(input, pos) as u64;
    let lo: u64 = get_u32(input, pos + 4) as u64;
    proof {
        let tail = input@.subrange(pos as int, input@.len() as int);
        let tail4 = input@.subrange(pos + 4, input@.len() as int);
        assert(tail.subrange(4, 8)[0] == tail4[0]);
        assert(tail.subrange(4, 8)[1] == tail4[1]);
        assert(tail.subrange(4, 8)[2] == tail4[2]);
        assert(tail.subrange(4, 8)[3] == tail4[3]);
    }
    hi * 0x1_0000_0000 + lo
}

} // verus!
