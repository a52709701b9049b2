//! Byte-level helpers for the wire codec: big-endian integer fields and
//! front-consumption of a receive buffer.

use vstd::prelude::*;
use vstd::arithmetic::div_mod::lemma_fundamental_div_mod_converse;

verus! {

/// The big-endian value of two bytes.
pub open spec fn spec_be16(s: Seq<u8>) -> u16
    recommends
        s.len() == 2,
{
    (s[0] * 0x100 + s[1]) as u16
}

/// The big-endian value of four bytes.
pub open spec fn spec_be32(s: Seq<u8>) -> u32
    recommends
        s.len() == 4,
{
    (s[0] * 0x1000000 + s[1] * 0x10000 + s[2] * 0x100 + s[3]) as u32
}

/// The big-endian value of eight bytes.
pub open spec fn spec_be64(s: Seq<u8>) -> u64
    recommends
        s.len() == 8,
{
    (s[0] * 0x100000000000000 + s[1] * 0x1000000000000 + s[2] * 0x10000000000 + s[3] * 0x100000000
        + s[4] * 0x1000000 + s[5] * 0x10000 + s[6] * 0x100 + s[7]) as u64
}

/// The two big-endian bytes of a 16-bit value.
pub open spec fn spec_u16_bytes(x: u16) -> Seq<u8> {
    seq![(x / 0x100) as u8, (x % 0x100) as u8]
}

/// The four big-endian bytes of a 32-bit value.
pub open spec fn spec_u32_bytes(x: u32) -> Seq<u8> {
    seq![
        (x / 0x1000000) as u8,
        ((x / 0x10000) % 0x100) as u8,
        ((x / 0x100) % 0x100) as u8,
        (x % 0x100) as u8,
    ]
}

/// The eight big-endian bytes of a 64-bit value.
pub open spec fn spec_u64_bytes(x: u64) -> Seq<u8> {
    seq![
        (x / 0x100000000000000) as u8,
        ((x / 0x1000000000000) % 0x100) as u8,
        ((x / 0x10000000000) % 0x100) as u8,
        ((x / 0x100000000) % 0x100) as u8,
        ((x / 0x1000000) % 0x100) as u8,
        ((x / 0x10000) % 0x100) as u8,
        ((x / 0x100) % 0x100) as u8,
        (x % 0x100) as u8,
    ]
}

/// Reads a big-endian 16-bit field at `off`.
pub fn read_u16_be(v: &Vec<u8>, off: usize) -> (r: u16)
    requires
        off + 2 <= v@.len(),
    ensures
        r == spec_be16(v@.subrange(off as int, off as int + 2)),
{
    // Binding the length ties the view's length to a machine word, which
    // bounds the index arithmetic below.
    let len: usize = v.len();
    let b0 = v[off];
    let b1 = v[off + 1];
    (b0 as u16) * 0x100 + (b1 as u16)
}

/// Reads a big-endian 32-bit field at `off`.
pub fn read_u32_be(v: &Vec<u8>, off: usize) -> (r: u32)
    requires
        off + 4 <= v@.len(),
    ensures
        r == spec_be32(v@.subrange(off as int, off as int + 4)),
{
    let len: usize = v.len();
    let b0 = v[off];
    let b1 = v[off + 1];
    let b2 = v[off + 2];
    let b3 = v[off + 3];
    (b0 as u32) * 0x1000000 + (b1 as u32) * 0x10000 + (b2 as u32) * 0x100 + (b3 as u32)
}

/// Reads a big-endian 64-bit field at `off`.
pub fn read_u64_be(v: &Vec<u8>, off: usize) -> (r: u64)
    requires
        off + 8 <= v@.len(),
    ensures
        r == spec_be64(v@.subrange(off as int, off as int + 8)),
{
    let len: usize = v.len();
    let b0 = v[off];
    let b1 = v[off + 1];
    let b2 = v[off + 2];
    let b3 = v[off + 3];
    let b4 = v[off + 4];
    let b5 = v[off + 5];
    let b6 = v[off + 6];
    let b7 = v[off + 7];
    (b0 as u64) * 0x100000000000000 + (b1 as u64) * 0x1000000000000 + (b2 as u64) * 0x10000000000
        + (b3 as u64) * 0x100000000 + (b4 as u64) * 0x1000000 + (b5 as u64) * 0x10000 + (b6 as u64)
        * 0x100 + (b7 as u64)
}

/// Appends a 16-bit value as two big-endian bytes.
pub fn push_u16_be(dst: &mut Vec<u8>, x: u16)
    ensures
        final(dst)@ == old(dst)@ + spec_u16_bytes(x),
{
    dst.push((x / 0x100) as u8);
    dst.push((x % 0x100) as u8);
    proof {
        assert(dst@ =~= old(dst)@ + spec_u16_bytes(x));
    }
}

/// Appends a 32-bit value as four big-endian bytes.
pub fn push_u32_be(dst: &mut Vec<u8>, x: u32)
    ensures
        final(dst)@ == old(dst)@ + spec_u32_bytes(x),
{
    dst.push((x / 0x1000000) as u8);
    dst.push(((x / 0x10000) % 0x100) as u8);
    dst.push(((x / 0x100) % 0x100) as u8);
    dst.push((x % 0x100) as u8);
    proof {
        assert(dst@ =~= old(dst)@ + spec_u32_bytes(x));
    }
}

/// Appends a 64-bit value as eight big-endian bytes.
pub fn push_u64_be(dst: &mut Vec<u8>, x: u64)
    ensures
        final(dst)@ == old(dst)@ + spec_u64_bytes(x),
{
    dst.push((x / 0x100000000000000) as u8);
    dst.push(((x / 0x1000000000000) % 0x100) as u8);
    dst.push(((x / 0x10000000000) % 0x100) as u8);
    dst.push(((x / 0x100000000) % 0x100) as u8);
    dst.push(((x / 0x1000000) % 0x100) as u8);
    dst.push(((x / 0x10000) % 0x100) as u8);
    dst.push(((x / 0x100) % 0x100) as u8);
    dst.push((x % 0x100) as u8);
    proof {
        assert(dst@ =~= old(dst)@ + spec_u64_bytes(x));
    }
}

/// Copies the bytes of `v` between `start` and `end` into a fresh vector.
pub fn vec_slice(v: &Vec<u8>, start: usize, end: usize) -> (out: Vec<u8>)
    requires
        start <= end,
        end <= v@.len(),
    ensures
        out@ == v@.subrange(start as int, end as int),
{
    let mut out: Vec<u8> = Vec::new();
    let mut i: usize = start;
    while i < end
        invariant
            start <= i <= end,
            end <= v@.len(),
            out@ == v@.subrange(start as int, i as int),
        decreases end - i,
    {
        out.push(v[i]);
        proof {
            assert(v@.subrange(start as int, i + 1 as int) =~= v@.subrange(start as int, i as int)
                .push(v@[i as int]));
        }
        i = i + 1;
    }
    out
}

/// Removes the first `n` bytes of a buffer, keeping the rest in order.
pub fn drain_front(v: &mut Vec<u8>, n: usize)
    requires
        n <= old(v)@.len(),
    ensures
        final(v)@ == old(v)@.skip(n as int),
{
    let len = v.len();
    let rest = vec_slice(v, n, len);
    *v = rest;
    proof {
        assert(v@ =~= old(v)@.skip(n as int));
    }
}

/// Appends every byte of `src` to `dst`.
pub fn push_bytes(dst: &mut Vec<u8>, src: &Vec<u8>)
    ensures
        final(dst)@ == old(dst)@ + src@,
{
    let mut j: usize = 0;
    proof {
        assert(dst@ =~= old(dst)@ + src@.subrange(0, 0));
    }
    while j < src.len()
        invariant
            j <= src@.len(),
            dst@ == old(dst)@ + src@.subrange(0, j as int),
        decreases src@.len() - j,
    {
        dst.push(src[j]);
        proof {
            assert(old(dst)@ + src@.subrange(0, j + 1 as int) =~= (old(dst)@ + src@.subrange(
                0,
                j as int,
            )).push(src@[j as int]));
        }
        j = j + 1;
    }
    proof {
        assert(dst@ =~= old(dst)@ + src@);
    }
}

/// Concatenates two byte vectors into a fresh one.
pub fn vec_concat(a: &Vec<u8>, b: &Vec<u8>) -> (out: Vec<u8>)
    ensures
        out@ == a@ + b@,
{
    let a_len = a.len();
    let mut out = vec_slice(a, 0, a_len);
    let mut j: usize = 0;
    proof {
        assert(out@ =~= a@ + b@.subrange(0, 0));
    }
    while j < b.len()
        invariant
            j <= b@.len(),
            out@ == a@ + b@.subrange(0, j as int),
        decreases b@.len() - j,
    {
        out.push(b[j]);
        proof {
            assert(a@ + b@.subrange(0, j + 1 as int) =~= (a@ + b@.subrange(0, j as int)).push(
                b@[j as int]));
        }
        j = j + 1;
    }
    proof {
        assert(out@ =~= a@ + b@);
    }
    out
}

/// Serializing a four-byte field and reading it back is the identity on the
/// bytes.
pub proof fn lemma_u32_bytes_roundtrip(s: Seq<u8>)
    requires
        s.len() == 4,
    ensures
        spec_u32_bytes(spec_be32(s)) == s,
{
    let x = s[0] * 0x1000000 + s[1] * 0x10000 + s[2] * 0x100 + s[3];
    assert(0 <= x <= u32::MAX);
    assert(spec_be32(s) == x);
    lemma_fundamental_div_mod_converse(x, 0x1000000, s[0] as int, (s[1] * 0x10000 + s[2] * 0x100
        + s[3]) as int);
    lemma_fundamental_div_mod_converse(x, 0x10000, (s[0] * 0x100 + s[1]) as int, (s[2] * 0x100
        + s[3]) as int);
    lemma_fundamental_div_mod_converse((s[0] * 0x100 + s[1]) as int, 0x100, s[0] as int, s[1] as int);
    lemma_fundamental_div_mod_converse(x, 0x100, (s[0] * 0x10000 + s[1] * 0x100 + s[2]) as int, s[3] as int);
    lemma_fundamental_div_mod_converse((s[0] * 0x10000 + s[1] * 0x100 + s[2]) as int, 0x100, (s[0]
        * 0x100 + s[1]) as int, s[2] as int);
    assert(spec_u32_bytes(spec_be32(s)) =~= s);
}

} // verus!
