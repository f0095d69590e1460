//! Big-endian wire primitives: specification-level byte images of the
//! fixed-width integers, their executable writers and readers, and small
//! helpers on byte vectors that the codec and the accumulator share.

use vstd::prelude::*;

verus! {

/// The four big-endian bytes of a 32-bit integer.
pub open spec fn be4(x: u32) -> Seq<u8> {
    seq![(x >> 24) as u8, (x >> 16) as u8, (x >> 8) as u8, x as u8]
}

/// The eight big-endian bytes of a 64-bit integer.
pub open spec fn be8(x: u64) -> Seq<u8> {
    seq![
        (x >> 56) as u8,
        (x >> 48) as u8,
        (x >> 40) as u8,
        (x >> 32) as u8,
        (x >> 24) as u8,
        (x >> 16) as u8,
        (x >> 8) as u8,
        x as u8,
    ]
}

/// The sixteen big-endian bytes of a 128-bit integer.
pub open spec fn be16(x: u128) -> Seq<u8> {
    seq![
        (x >> 120) as u8,
        (x >> 112) as u8,
        (x >> 104) as u8,
        (x >> 96) as u8,
        (x >> 88) as u8,
        (x >> 80) as u8,
        (x >> 72) as u8,
        (x >> 64) as u8,
        (x >> 56) as u8,
        (x >> 48) as u8,
        (x >> 40) as u8,
        (x >> 32) as u8,
        (x >> 24) as u8,
        (x >> 16) as u8,
        (x >> 8) as u8,
        x as u8,
    ]
}

/// The 32-bit integer read back from four big-endian bytes.
pub open spec fn u32_from_be(s: Seq<u8>) -> u32
    recommends
        s.len() == 4,
{
    ((s[0] as u32) << 24) | ((s[1] as u32) << 16) | ((s[2] as u32) << 8) | (s[3] as u32)
}

/// The 64-bit integer read back from eight big-endian bytes.
pub open spec fn u64_from_be(s: Seq<u8>) -> u64
    recommends
        s.len() == 8,
{
    ((s[0] as u64) << 56) | ((s[1] as u64) << 48) | ((s[2] as u64) << 40) | ((s[3] as u64) << 32)
        | ((s[4] as u64) << 24) | ((s[5] as u64) << 16) | ((s[6] as u64) << 8) | (s[7] as u64)
}

/// The 128-bit integer read back from sixteen big-endian bytes.
pub open spec fn u128_from_be(s: Seq<u8>) -> u128
    recommends
        s.len() == 16,
{
    ((s[0] as u128) << 120) | ((s[1] as u128) << 112) | ((s[2] as u128) << 104)
        | ((s[3] as u128) << 96) | ((s[4] as u128) << 88) | ((s[5] as u128) << 80)
        | ((s[6] as u128) << 72) | ((s[7] as u128) << 64) | ((s[8] as u128) << 56)
        | ((s[9] as u128) << 48) | ((s[10] as u128) << 40) | ((s[11] as u128) << 32)
        | ((s[12] as u128) << 24) | ((s[13] as u128) << 16) | ((s[14] as u128) << 8)
        | (s[15] as u128)
}

/// Reading the big-endian image of a 32-bit integer yields the integer back.
pub proof fn lemma_be4_roundtrip(x: u32)
    ensures
        u32_from_be(be4(x)) == x,
{
    assert(((((x >> 24) as u8) as u32) << 24) | ((((x >> 16) as u8) as u32) << 16) | ((((x
        >> 8) as u8) as u32) << 8) | ((x as u8) as u32) == x) by (bit_vector);
}

/// Reading the big-endian image of a 64-bit integer yields the integer back.
pub proof fn lemma_be8_roundtrip(x: u64)
    ensures
        u64_from_be(be8(x)) == x,
{
    assert(((((x >> 56) as u8) as u64) << 56) | ((((x >> 48) as u8) as u64) << 48) | ((((x
        >> 40) as u8) as u64) << 40) | ((((x >> 32) as u8) as u64) << 32) | ((((x
        >> 24) as u8) as u64) << 24) | ((((x >> 16) as u8) as u64) << 16) | ((((x
        >> 8) as u8) as u64) << 8) | ((x as u8) as u64) == x) by (bit_vector);
}

/// Reading the big-endian image of a 128-bit integer yields the integer back.
pub proof fn lemma_be16_roundtrip(x: u128)
    ensures
        u128_from_be(be16(x)) == x,
{
    assert(((((x >> 120) as u8) as u128) << 120) | ((((x >> 112) as u8) as u128) << 112) | ((((x
        >> 104) as u8) as u128) << 104) | ((((x >> 96) as u8) as u128) << 96) | ((((x
        >> 88) as u8) as u128) << 88) | ((((x >> 80) as u8) as u128) << 80) | ((((x
        >> 72) as u8) as u128) << 72) | ((((x >> 64) as u8) as u128) << 64) | ((((x
        >> 56) as u8) as u128) << 56) | ((((x >> 48) as u8) as u128) << 48) | ((((x
        >> 40) as u8) as u128) << 40) | ((((x >> 32) as u8) as u128) << 32) | ((((x
        >> 24) as u8) as u128) << 24) | ((((x >> 16) as u8) as u128) << 16) | ((((x
        >> 8) as u8) as u128) << 8) | ((x as u8) as u128) == x) by (bit_vector);
}

/// Appends the big-endian bytes of a 32-bit integer.
pub fn push_be4(out: &mut Vec<u8>, x: u32)
    ensures
        final(out)@ == old(out)@ + be4(x),
{
    out.push((x >> 24) as u8);
    out.push((x >> 16) as u8);
    out.push((x >> 8) as u8);
    out.push(x as u8);
    proof {
        assert(final(out)@ =~= old(out)@ + be4(x));
    }
}

/// Appends the big-endian bytes of a 64-bit integer.
pub fn push_be8(out: &mut Vec<u8>, x: u64)
    ensures
        final(out)@ == old(out)@ + be8(x),
{
    out.push((x >> 56) as u8);
    out.push((x >> 48) as u8);
    out.push((x >> 40) as u8);
    out.push((x >> 32) as u8);
    out.push((x >> 24) as u8);
    out.push((x >> 16) as u8);
    out.push((x >> 8) as u8);
    out.push(x as u8);
    proof {
        assert(final(out)@ =~= old(out)@ + be8(x));
    }
}

/// Appends the big-endian bytes of a 128-bit integer.
pub fn push_be16(out: &mut Vec<u8>, x: u128)
    ensures
        final(out)@ == old(out)@ + be16(x),
{
    out.push((x >> 120) as u8);
    out.push((x >> 112) as u8);
    out.push((x >> 104) as u8);
    out.push((x >> 96) as u8);
    out.push((x >> 88) as u8);
    out.push((x >> 80) as u8);
    out.push((x >> 72) as u8);
    out.push((x >> 64) as u8);
    out.push((x >> 56) as u8);
    out.push((x >> 48) as u8);
    out.push((x >> 40) as u8);
    out.push((x >> 32) as u8);
    out.push((x >> 24) as u8);
    out.push((x >> 16) as u8);
    out.push((x >> 8) as u8);
    out.push(x as u8);
    proof {
        assert(final(out)@ =~= old(out)@ + be16(x));
    }
}

/// Appends a copy of the given bytes.
pub fn push_bytes(out: &mut Vec<u8>, b: &Vec<u8>)
    ensures
        final(out)@ == old(out)@ + b@,
{
    let mut i: usize = 0;
    while i < b.len()
        invariant
            i <= b@.len(),
            out@ == old(out)@ + b@.subrange(0, i as int),
        decreases b@.len() - i,
    {
        out.push(b[i]);
        i = i + 1;
        proof {
            assert(out@ =~= old(out)@ + b@.subrange(0, i as int));
        }
    }
    proof {
        assert(b@.subrange(0, b@.len() as int) =~= b@);
    }
}

/// A fresh copy of the given bytes.
pub fn clone_bytes(b: &Vec<u8>) -> (r: Vec<u8>)
    ensures
        r@ == b@,
{
    let mut out: Vec<u8> = Vec::new();
    push_bytes(&mut out, b);
    proof {
        assert(Seq::<u8>::empty() + b@ =~= b@);
    }
    out
}

/// A copy of the bytes between the two given positions.
pub fn copy_range(buf: &Vec<u8>, start: usize, end: usize) -> (r: Vec<u8>)
    requires
        start <= end <= buf@.len(),
    ensures
        r@ == buf@.subrange(start as int, end as int),
{
    let mut out: Vec<u8> = Vec::new();
    let mut i: usize = start;
    while i < end
        invariant
            start <= i <= end <= buf@.len(),
            out@ == buf@.subrange(start as int, i as int),
        decreases end - i,
    {
        out.push(buf[i]);
        i = i + 1;
        proof {
            assert(out@ =~= buf@.subrange(start as int, i as int));
        }
    }
    out
}

/// A vector of the given number of zero bytes.
pub fn zero_bytes(n: usize) -> (r: Vec<u8>)
    ensures
        r@ == Seq::new(n as nat, |i: int| 0u8),
{
    let mut out: Vec<u8> = Vec::new();
    let mut i: usize = 0;
    while i < n
        invariant
            i <= n,
            out@ == Seq::new(i as nat, |j: int| 0u8),
        decreases n - i,
    {
        out.push(0u8);
        i = i + 1;
        proof {
            assert(out@ =~= Seq::new(i as nat, |j: int| 0u8));
        }
    }
    out
}

/// Whether two byte vectors hold the same bytes.
pub fn bytes_eq(a: &Vec<u8>, b: &Vec<u8>) -> (r: bool)
    ensures
        r == (a@ == b@),
{
    if a.len() != b.len() {
        proof {
            assert(a@.len() != b@.len());
        }
        return false;
    }
    let mut i: usize = 0;
    while i < a.len()
        invariant
            i <= a@.len(),
            a@.len() == b@.len(),
            forall|j: int| 0 <= j < i ==> a@[j] == b@[j],
        decreases a@.len() - i,
    {
        if a[i] != b[i] {
            return false;
        }
        i = i + 1;
    }
    proof {
        assert(a@ =~= b@);
    }
    true
}

/// Reads a 32-bit integer from four big-endian bytes at the given offset.
pub fn read_u32_be(buf: &Vec<u8>, off: usize) -> (r: u32)
    requires
        off + 4 <= buf@.len(),
    ensures
        r == u32_from_be(buf@.subrange(off as int, off as int + 4)),
{
    let n: usize = buf.len();
    assert(off + 4 <= n);
    let r = ((buf[off] as u32) << 24u32) | ((buf[off + 1] as u32) << 16u32) | ((buf[off
        + 2] as u32) << 8u32) | (buf[off + 3] as u32);
    proof {
        let s = buf@.subrange(off as int, off as int + 4);
        assert(s[0] == buf@[off as int] && s[1] == buf@[off as int + 1] && s[2] == buf@[off as int
            + 2] && s[3] == buf@[off as int + 3]);
    }
    r
}

/// Reads a 64-bit integer from eight big-endian bytes at the given offset.
pub fn read_u64_be(buf: &Vec<u8>, off: usize) -> (r: u64)
    requires
        off + 8 <= buf@.len(),
    ensures
        r == u64_from_be(buf@.subrange(off as int, off as int + 8)),
{
    let n: usize = buf.len();
    assert(off + 8 <= n);
    let r = ((buf[off] as u64) << 56u64) | ((buf[off + 1] as u64) << 48u64) | ((buf[off
        + 2] as u64) << 40u64) | ((buf[off + 3] as u64) << 32u64) | ((buf[off + 4] as u64)
        << 24u64) | ((buf[off + 5] as u64) << 16u64) | ((buf[off + 6] as u64) << 8u64) | (buf[off
        + 7] as u64);
    proof {
        let s = buf@.subrange(off as int, off as int + 8);
        assert(forall|j: int| 0 <= j < 8 ==> s[j] == buf@[off as int + j]);
    }
    r
}

/// Reads a 128-bit integer from sixteen big-endian bytes at the given offset.
pub fn read_u128_be(buf: &Vec<u8>, off: usize) -> (r: u128)
    requires
        off + 16 <= buf@.len(),
    ensures
        r == u128_from_be(buf@.subrange(off as int, off as int + 16)),
{
    let n: usize = buf.len();
    assert(off + 16 <= n);
    let r = ((buf[off] as u128) << 120u128) | ((buf[off + 1] as u128) << 112u128) | ((buf[off
        + 2] as u128) << 104u128) | ((buf[off + 3] as u128) << 96u128) | ((buf[off + 4] as u128)
        << 88u128) | ((buf[off + 5] as u128) << 80u128) | ((buf[off + 6] as u128) << 72u128)
        | ((buf[off + 7] as u128) << 64u128) | ((buf[off + 8] as u128) << 56u128) | ((buf[off
        + 9] as u128) << 48u128) | ((buf[off + 10] as u128) << 40u128) | ((buf[off + 11] as u128)
        << 32u128) | ((buf[off + 12] as u128) << 24u128) | ((buf[off + 13] as u128) << 16u128)
        | ((buf[off + 14] as u128) << 8u128) | (buf[off + 15] as u128);
    proof {
        let s = buf@.subrange(off as int, off as int + 16);
        assert(forall|j: int| 0 <= j < 16 ==> s[j] == buf@[off as int + j]);
    }
    r
}

} // verus!
