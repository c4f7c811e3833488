//! Big-endian integer reading and writing over byte sequences.
use vstd::prelude::*;

verus! {

/// The big-endian 16-bit value stored at `s[i..i + 2]`.
pub open spec fn be16(s: Seq<u8>, i: int) -> nat {
    (s[i] as nat) * 256 + (s[i + 1] as nat)
}

/// The big-endian 32-bit value stored at `s[i..i + 4]`.
pub open spec fn be32(s: Seq<u8>, i: int) -> nat {
    (s[i] as nat) * 16777216 + (s[i + 1] as nat) * 65536 + (s[i + 2] as nat) * 256 + (s[i + 3] as nat)
}

/// The big-endian 64-bit value stored at `s[i..i + 8]`.
pub open spec fn be64(s: Seq<u8>, i: int) -> nat {
    be32(s, i) * 4294967296 + be32(s, i + 4)
}

/// The little-endian 32-bit value stored at `s[i..i + 4]`.
pub open spec fn le32(s: Seq<u8>, i: int) -> nat {
    (s[i + 3] as nat) * 16777216 + (s[i + 2] as nat) * 65536 + (s[i + 1] as nat) * 256 + (s[i] as nat)
}

/// The little-endian 64-bit value stored at `s[i..i + 8]`.
pub open spec fn le64(s: Seq<u8>, i: int) -> nat {
    le32(s, i + 4) * 4294967296 + le32(s, i)
}

/// The two big-endian bytes of `x` (`u16::to_be_bytes`).
pub open spec fn be16_bytes(x: u16) -> Seq<u8> {
    seq![(x / 256) as u8, (x % 256) as u8]
}

/// The four big-endian bytes of `x` (`u32::to_be_bytes`).
pub open spec fn be32_bytes(x: u32) -> Seq<u8> {
    seq![(x / 16777216) as u8, ((x / 65536) % 256) as u8, ((x / 256) % 256) as u8, (x % 256) as u8]
}

/// The four little-endian bytes of `x` (`u32::to_le_bytes`).
pub open spec fn le32_bytes(x: u32) -> Seq<u8> {
    seq![(x % 256) as u8, ((x / 256) % 256) as u8, ((x / 65536) % 256) as u8, (x / 16777216) as u8]
}

/// The eight little-endian bytes of `x` (`u64::to_le_bytes`).
pub open spec fn le64_bytes(x: u64) -> Seq<u8> {
    le32_bytes((x % 4294967296) as u32) + le32_bytes((x / 4294967296) as u32)
}

/// The two little-endian bytes of `x` (`u16::to_le_bytes`).
pub open spec fn le16_bytes(x: u16) -> Seq<u8> {
    seq![(x % 256) as u8, (x / 256) as u8]
}

pub fn read_be16(s: &[u8], i: usize) -> (r: u16)
    requires
        i + 2 <= s@.len(),
    ensures
        r as nat == be16(s@, i as int),
{
    assert(s@.len() == s.len());
    (s[i] as u16) * 256 + (s[i + 1] as u16)
}

pub fn read_be32(s: &[u8], i: usize) -> (r: u32)
    requires
        i + 4 <= s@.len(),
    ensures
        r as nat == be32(s@, i as int),
{
    assert(s@.len() == s.len());
    (s[i] as u32) * 16777216 + (s[i + 1] as u32) * 65536 + (s[i + 2] as u32) * 256 + (s[i + 3] as u32)
}

pub fn read_be64(s: &[u8], i: usize) -> (r: u64)
    requires
        i + 8 <= s@.len(),
    ensures
        r as nat == be64(s@, i as int),
{
    assert(s@.len() == s.len());
    let h = read_be32(s, i) as u64;
    let l = read_be32(s, i + 4) as u64;
    assert(h * 4294967296 + l <= u64::MAX) by (nonlinear_arith)
        requires
            h <= 4294967295,
            l <= 4294967295,
    ;
    h * 4294967296 + l
}

pub fn read_le32(s: &[u8], i: usize) -> (r: u32)
    requires
        i + 4 <= s@.len(),
    ensures
        r as nat == le32(s@, i as int),
{
    assert(s@.len() == s.len());
    (s[i + 3] as u32) * 16777216 + (s[i + 2] as u32) * 65536 + (s[i + 1] as u32) * 256 + (s[i] as u32)
}

pub fn read_le64(s: &[u8], i: usize) -> (r: u64)
    requires
        i + 8 <= s@.len(),
    ensures
        r as nat == le64(s@, i as int),
{
    assert(s@.len() == s.len());
    let h = read_le32(s, i + 4) as u64;
    let l = read_le32(s, i) as u64;
    assert(h * 4294967296 + l <= u64::MAX) by (nonlinear_arith)
        requires
            h <= 4294967295,
            l <= 4294967295,
    ;
    h * 4294967296 + l
}

pub fn push_be16(v: &mut Vec<u8>, x: u16)
    ensures
        final(v)@ == old(v)@ + be16_bytes(x),
{
    v.push((x / 256) as u8);
    v.push((x % 256) as u8);
    assert(final(v)@ =~= old(v)@ + be16_bytes(x));
}

pub fn push_be32(v: &mut Vec<u8>, x: u32)
    ensures
        final(v)@ == old(v)@ + be32_bytes(x),
{
    v.push((x / 16777216) as u8);
    v.push(((x / 65536) % 256) as u8);
    v.push(((x / 256) % 256) as u8);
    v.push((x % 256) as u8);
    assert(final(v)@ =~= old(v)@ + be32_bytes(x));
}

pub fn push_le16(v: &mut Vec<u8>, x: u16)
    ensures
        final(v)@ == old(v)@ + le16_bytes(x),
{
    v.push((x % 256) as u8);
    v.push((x / 256) as u8);
    assert(final(v)@ =~= old(v)@ + le16_bytes(x));
}

pub fn push_le32(v: &mut Vec<u8>, x: u32)
    ensures
        final(v)@ == old(v)@ + le32_bytes(x),
{
    v.push((x % 256) as u8);
    v.push(((x / 256) % 256) as u8);
    v.push(((x / 65536) % 256) as u8);
    v.push((x / 16777216) as u8);
    assert(final(v)@ =~= old(v)@ + le32_bytes(x));
}

pub fn push_le64(v: &mut Vec<u8>, x: u64)
    ensures
        final(v)@ == old(v)@ + le64_bytes(x),
{
    push_le32(v, (x % 4294967296) as u32);
    push_le32(v, (x / 4294967296) as u32);
    assert(final(v)@ =~= old(v)@ + le64_bytes(x));
}

/// Appends all of `src` to `v`.
pub fn push_all(v: &mut Vec<u8>, src: &[u8])
    ensures
        final(v)@ == old(v)@ + src@,
{
    let mut i: usize = 0;
    while i < src.len()
        invariant
            i <= src@.len(),
            v@ == old(v)@ + src@.take(i as int),
        decreases src@.len() - i,
    {
        v.push(src[i]);
        i = i + 1;
        assert(v@ =~= old(v)@ + src@.take(i as int));
    }
    assert(src@.take(src@.len() as int) =~= src@);
}

/// A copy of `s[start..end]`.
pub fn copy_range(s: &[u8], start: usize, end: usize) -> (r: Vec<u8>)
    requires
        start <= end <= s@.len(),
    ensures
        r@ == s@.subrange(start as int, end as int),
{
    let mut r: Vec<u8> = Vec::new();
    let mut i = start;
    while i < end
        invariant
            start <= i <= end <= s@.len(),
            r@ == s@.subrange(start as int, i as int),
        decreases end - i,
    {
        r.push(s[i]);
        i = i + 1;
        assert(r@ =~= s@.subrange(start as int, i as int));
    }
    r
}

} // verus!
