//! Fixed-width integers in byte strings.

use vstd::prelude::*;

verus! {

/// The big-endian value of the four bytes of `b` from `off`.
pub open spec fn be32_at(b: Seq<u8>, off: int) -> nat {
    (b[off] * 0x100_0000 + b[off + 1] * 0x1_0000 + b[off + 2] * 0x100 + b[off + 3]) as nat
}

/// The little-endian value of the four bytes of `b` from `off`.
pub open spec fn le32_at(b: Seq<u8>, off: int) -> nat {
    (b[off + 3] * 0x100_0000 + b[off + 2] * 0x1_0000 + b[off + 1] * 0x100 + b[off]) as nat
}

/// The big-endian value of the two bytes of `b` from `off`.
pub open spec fn be16_at(b: Seq<u8>, off: int) -> nat {
    (b[off] * 0x100 + b[off + 1]) as nat
}

/// Four bytes, most significant first.
pub open spec fn be32(n: u32) -> Seq<u8> {
    seq![
        (n / 0x100_0000) as u8,
        (n / 0x1_0000 % 0x100) as u8,
        (n / 0x100 % 0x100) as u8,
        (n % 0x100) as u8,
    ]
}

/// Two bytes, most significant first.
pub open spec fn be16(n: u16) -> Seq<u8> {
    seq![(n / 0x100) as u8, (n % 0x100) as u8]
}

/// Reads a big-endian `u32`.
pub fn read_be32(b: &[u8], off: usize) -> (r: u32)
    requires
        off + 4 <= b@.len(),
    ensures
        r == be32_at(b@, off as int),
{
    b[off] as u32 * 0x100_0000 + b[off + 1] as u32 * 0x1_0000 + b[off + 2] as u32 * 0x100 + b[off
        + 3] as u32
}

/// Reads a little-endian `u32`.
pub fn read_le32(b: &[u8], off: usize) -> (r: u32)
    requires
        off + 4 <= b@.len(),
    ensures
        r == le32_at(b@, off as int),
{
    b[off] as u32 + b[off + 1] as u32 * 0x100 + b[off + 2] as u32 * 0x1_0000 + b[off + 3] as u32
        * 0x100_0000
}

/// Reads a big-endian `u16`.
pub fn read_be16(b: &[u8], off: usize) -> (r: u16)
    requires
        off + 2 <= b@.len(),
    ensures
        r == be16_at(b@, off as int),
{
    b[off] as u16 * 0x100 + b[off + 1] as u16
}

/// Appends a `u32`, most significant byte first.
pub fn push_be32(out: &mut Vec<u8>, n: u32)
    ensures
        final(out)@ == old(out)@ + be32(n),
{
    out.push((n / 0x100_0000) as u8);
    out.push((n / 0x1_0000 % 0x100) as u8);
    out.push((n / 0x100 % 0x100) as u8);
    out.push((n % 0x100) as u8);
    proof {
        assert(out@ =~= old(out)@ + be32(n));
    }
}

/// Appends a `u16`, most significant byte first.
pub fn push_be16(out: &mut Vec<u8>, n: u16)
    ensures
        final(out)@ == old(out)@ + be16(n),
{
    out.push((n / 0x100) as u8);
    out.push((n % 0x100) as u8);
    proof {
        assert(out@ =~= old(out)@ + be16(n));
    }
}

/// Appends a copy of `more`.
pub fn push_all(out: &mut Vec<u8>, more: &[u8])
    ensures
        final(out)@ == old(out)@ + more@,
{
    let mut i: usize = 0;
    while i < more.len()
        invariant
            i <= more@.len(),
            out@ == old(out)@ + more@.take(i as int),
        decreases more@.len() - i,
    {
        out.push(more[i]);
        i = i + 1;
        proof {
            assert(more@.take(i as int) =~= more@.take(i - 1).push(more@[i - 1]));
            assert(out@ =~= old(out)@ + more@.take(i as int));
        }
    }
    proof {
        assert(more@.take(more@.len() as int) =~= more@);
    }
}

/// A copy of `b[from..to]`.
pub fn copy_range(b: &[u8], from: usize, to: usize) -> (r: Vec<u8>)
    requires
        from <= to <= b@.len(),
    ensures
        r@ == b@.subrange(from as int, to as int),
{
    let mut out: Vec<u8> = Vec::new();
    let mut i: usize = from;
    while i < to
        invariant
            from <= i <= to <= b@.len(),
            out@ == b@.subrange(from as int, i as int),
        decreases to - i,
    {
        out.push(b[i]);
        i = i + 1;
        proof {
            assert(b@.subrange(from as int, i as int) =~= b@.subrange(from as int, i - 1).push(
                b@[i - 1],
            ));
        }
    }
    out
}

/// Whether `a` and `b` hold the same bytes.
pub fn same_bytes(a: &[u8], b: &[u8]) -> (r: bool)
    ensures
        r == (a@ == b@),
{
    if a.len() != b.len() {
        return false;
    }
    let mut i: usize = 0;
    while i < a.len()
        invariant
            i <= a@.len(),
            a@.len() == b@.len(),
            forall|j: int| 0 <= j < i ==> a@[j] == b@[j],
        decreases a@.len() - i,
    {
        if a[i] != b[i] {
            return false;
        }
        i = i + 1;
    }
    proof {
        assert(a@ =~= b@);
    }
    true
}

/// What is written is what is read back.
pub proof fn lemma_be32_round_trip(n: u32, before: Seq<u8>, after: Seq<u8>)
    ensures
        be32_at(before + be32(n) + after, before.len() as int) == n,
{
    let b = before + be32(n) + after;
    let k = before.len() as int;
    assert(b[k] == be32(n)[0]);
    assert(b[k + 1] == be32(n)[1]);
    assert(b[k + 2] == be32(n)[2]);
    assert(b[k + 3] == be32(n)[3]);
}

/// What is written is what is read back.
pub proof fn lemma_be16_round_trip(n: u16, before: Seq<u8>, after: Seq<u8>)
    ensures
        be16_at(before + be16(n) + after, before.len() as int) == n,
{
    let b = before + be16(n) + after;
    let k = before.len() as int;
    assert(b[k] == be16(n)[0]);
    assert(b[k + 1] == be16(n)[1]);
}

} // verus!
