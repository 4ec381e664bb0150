//! Little-endian byte strings of 16- and 32-bit values, and runs of bytes.

use vstd::prelude::*;

verus! {

/// `n` zero bytes.
pub open spec fn zeros(n: nat) -> Seq<u8> {
    Seq::new(n, |i: int| 0u8)
}

/// The two bytes of `x`, least significant first.
pub open spec fn le16(x: u16) -> Seq<u8> {
    seq![(x % 256) as u8, (x / 256) as u8]
}

/// The four bytes of `x`, least significant first.
pub open spec fn le32(x: u32) -> Seq<u8> {
    seq![
        (x % 256) as u8,
        (x / 256 % 256) as u8,
        (x / 65536 % 256) as u8,
        (x / 16777216) as u8,
    ]
}

/// The value whose little-endian bytes start at `at` in `s`.
pub open spec fn from_le16(s: Seq<u8>, at: int) -> u16 {
    (s[at] as int + s[at + 1] as int * 256) as u16
}

/// The value whose little-endian bytes start at `at` in `s`.
pub open spec fn from_le32(s: Seq<u8>, at: int) -> u32 {
    (s[at] as int + s[at + 1] as int * 256 + s[at + 2] as int * 65536 + s[at + 3] as int
        * 16777216) as u32
}

/// Reading back what `le32` wrote gives the value.
pub proof fn lemma_le32_read_back(x: u32)
    ensures
        from_le32(le32(x), 0) == x,
{
    let q1 = x / 256;
    let q2 = q1 / 256;
    let q3 = q2 / 256;
    assert(x == q1 * 256 + x % 256);
    assert(q1 == q2 * 256 + q1 % 256);
    assert(q2 == q3 * 256 + q2 % 256);
    assert(x / 65536 == q2);
    assert(x / 16777216 == q3);
}

/// Reading back what `le16` wrote gives the value.
pub proof fn lemma_le16_read_back(x: u16)
    ensures
        from_le16(le16(x), 0) == x,
{
}

/// Appends the little-endian bytes of `x` to `out`.
pub fn put_le32(out: &mut Vec<u8>, x: u32)
    ensures
        final(out)@ == old(out)@ + le32(x),
{
    out.push((x % 256) as u8);
    out.push((x / 256 % 256) as u8);
    out.push((x / 65536 % 256) as u8);
    out.push((x / 16777216) as u8);
    assert(out@ =~= old(out)@ + le32(x));
}

/// Appends the little-endian bytes of `x` to `out`.
pub fn put_le16(out: &mut Vec<u8>, x: u16)
    ensures
        final(out)@ == old(out)@ + le16(x),
{
    out.push((x % 256) as u8);
    out.push((x / 256) as u8);
    assert(out@ =~= old(out)@ + le16(x));
}

/// Appends `n` zero bytes to `out`.
pub fn put_zeros(out: &mut Vec<u8>, n: usize)
    ensures
        final(out)@ == old(out)@ + zeros(n as nat),
{
    let mut j: usize = 0;
    assert(out@ =~= old(out)@ + zeros(0));
    while j < n
        invariant
            j <= n,
            out@ == old(out)@ + zeros(j as nat),
        decreases n - j,
    {
        out.push(0u8);
        assert(out@ =~= old(out)@ + zeros((j + 1) as nat));
        j = j + 1;
    }
}

/// Appends to `out` the `n` bytes of `from` that start at `at`.
pub fn put_range(out: &mut Vec<u8>, from: &[u8], at: usize, n: usize)
    requires
        at + n <= from.len(),
    ensures
        final(out)@ == old(out)@ + from@.subrange(at as int, at + n),
{
    let mut j: usize = 0;
    assert(out@ =~= old(out)@ + from@.subrange(at as int, at + 0));
    while j < n
        invariant
            j <= n,
            at + n <= from.len(),
            out@ == old(out)@ + from@.subrange(at as int, at + j),
        decreases n - j,
    {
        out.push(from[at + j]);
        assert(out@ =~= old(out)@ + from@.subrange(at as int, at + j + 1));
        j = j + 1;
    }
}

/// Whether two byte strings are the same.
pub fn same_bytes(a: &[u8], b: &[u8]) -> (same: bool)
    ensures
        same == (a@ == b@),
{
    if a.len() != b.len() {
        return false;
    }
    let mut i: usize = 0;
    while i < a.len()
        invariant
            i <= a.len(),
            a.len() == b.len(),
            a@.subrange(0, i as int) == b@.subrange(0, i as int),
        decreases a.len() - i,
    {
        if a[i] != b[i] {
            return false;
        }
        assert(a@.subrange(0, i + 1) =~= a@.subrange(0, i as int).push(a@[i as int]));
        assert(b@.subrange(0, i + 1) =~= b@.subrange(0, i as int).push(b@[i as int]));
        i = i + 1;
    }
    assert(a@.subrange(0, i as int) =~= a@);
    assert(b@.subrange(0, i as int) =~= b@);
    true
}

/// Reads the 32-bit little-endian value at `at`.
pub fn get_le32(s: &[u8], at: usize) -> (x: u32)
    requires
        at + 4 <= s.len(),
    ensures
        x == from_le32(s@, at as int),
{
    let b0: u32 = s[at] as u32;
    let b1: u32 = s[at + 1] as u32;
    let b2: u32 = s[at + 2] as u32;
    let b3: u32 = s[at + 3] as u32;
    b0 + b1 * 256 + b2 * 65536 + b3 * 16777216
}

/// Reads the 16-bit little-endian value at `at`.
pub fn get_le16(s: &[u8], at: usize) -> (x: u16)
    requires
        at + 2 <= s.len(),
    ensures
        x == from_le16(s@, at as int),
{
    let b0: u16 = s[at] as u16;
    let b1: u16 = s[at + 1] as u16;
    b0 + b1 * 256
}

} // verus!
