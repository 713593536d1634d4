//! SHA-256, as computed by the `sha2` crate, and the byte-encoding helpers
//! that feed it (decimal text and fixed-width integers).
use vstd::prelude::*;

verus! {

/// What `sha2::Sha256::digest` returns for a byte string.
pub uninterp spec fn sha256_spec(data: Seq<u8>) -> Seq<u8>;

/// Calls `sha2::Sha256::digest` (one-shot SHA-256). The contract claims only
/// that the 32-byte result is the SHA-256 digest of exactly the bytes given,
/// i.e. a function of those bytes alone; what that digest is on given bytes
/// is left to `sha2`.
#[verifier::external_body]
pub(crate) fn sha256(data: &[u8]) -> (r: [u8; 32])
    ensures
        r@ == sha256_spec(data@),
{
    <sha2::Sha256 as sha2::Digest>::digest(data).into()
}

/// The first eight bytes of a digest.
pub open spec fn prefix8(d: Seq<u8>) -> Seq<u8> {
    d.subrange(0, 8)
}

/// Copy the first eight bytes of a 32-byte digest.
pub fn truncate8(d: &[u8; 32]) -> (r: [u8; 8])
    ensures
        r@ == prefix8(d@),
{
    let r = [d[0], d[1], d[2], d[3], d[4], d[5], d[6], d[7]];
    assert(r@ =~= prefix8(d@));
    r
}

/// ASCII decimal digits of a natural number, most significant first.
pub open spec fn decimal(n: nat) -> Seq<u8>
    decreases n,
{
    if n < 10 {
        seq![(48 + n) as u8]
    } else {
        decimal(n / 10) + seq![(48 + n % 10) as u8]
    }
}

/// ASCII decimal rendering of an integer, with a leading '-' when negative.
pub open spec fn signed_decimal(v: int) -> Seq<u8> {
    if v < 0 {
        seq![45u8] + decimal((-v) as nat)
    } else {
        decimal(v as nat)
    }
}

/// Append the decimal digits of `n`.
pub fn push_decimal(out: &mut Vec<u8>, n: u64)
    ensures
        final(out)@ == old(out)@ + decimal(n as nat),
    decreases n,
{
    if n >= 10 {
        push_decimal(out, n / 10);
    }
    let d = (n % 10) as u8;
    out.push(48 + d);
    assert(final(out)@ =~= old(out)@ + decimal(n as nat));
}

/// Append the signed decimal rendering of `v`.
pub fn push_signed_decimal(out: &mut Vec<u8>, v: i64)
    ensures
        final(out)@ == old(out)@ + signed_decimal(v as int),
{
    if v < 0 {
        out.push(45u8);
        let mag: u64 = if v == i64::MIN {
            0x8000_0000_0000_0000u64
        } else {
            (-v) as u64
        };
        push_decimal(out, mag);
        assert(final(out)@ =~= old(out)@ + signed_decimal(v as int));
    } else {
        push_decimal(out, v as u64);
    }
}

/// Append every byte of `bytes`.
pub fn push_bytes(out: &mut Vec<u8>, bytes: &[u8])
    ensures
        final(out)@ == old(out)@ + bytes@,
{
    let n = bytes.len();
    let mut i: usize = 0;
    while i < n
        invariant
            n == bytes@.len(),
            i <= n,
            out@ == old(out)@ + bytes@.subrange(0, i as int),
        decreases n - i,
    {
        out.push(bytes[i]);
        assert(out@ =~= old(out)@ + bytes@.subrange(0, i as int + 1));
        i = i + 1;
    }
    assert(bytes@.subrange(0, n as int) =~= bytes@);
}

/// Big-endian bytes of a 32-bit word.
pub open spec fn be32(v: u32) -> Seq<u8> {
    seq![
        (v / 0x100_0000) as u8,
        ((v / 0x1_0000) % 0x100) as u8,
        ((v / 0x100) % 0x100) as u8,
        (v % 0x100) as u8,
    ]
}

/// Big-endian bytes of a 64-bit word.
pub open spec fn be64(v: u64) -> Seq<u8> {
    be32((v / 0x1_0000_0000) as u32) + be32((v % 0x1_0000_0000) as u32)
}

/// Little-endian bytes of a 32-bit word.
pub open spec fn le32(v: u32) -> Seq<u8> {
    seq![
        (v % 0x100) as u8,
        ((v / 0x100) % 0x100) as u8,
        ((v / 0x1_0000) % 0x100) as u8,
        (v / 0x100_0000) as u8,
    ]
}

/// Little-endian bytes of a 64-bit word.
pub open spec fn le64(v: u64) -> Seq<u8> {
    le32((v % 0x1_0000_0000) as u32) + le32((v / 0x1_0000_0000) as u32)
}

proof fn lemma_word_bytes(v: u32)
    by (bit_vector)
    ensures
        v >> 24u32 == v / 0x100_0000,
        (v >> 16u32) & 0xff == (v / 0x1_0000) % 0x100,
        (v >> 8u32) & 0xff == (v / 0x100) % 0x100,
        v & 0xff == v % 0x100,
{
}

pub proof fn lemma_dword_halves(v: u64)
    by (bit_vector)
    ensures
        (v >> 32u64) as u32 == v / 0x1_0000_0000,
        v as u32 == v % 0x1_0000_0000,
{
}

/// Append the big-endian bytes of `v`.
pub fn push_be32(out: &mut Vec<u8>, v: u32)
    ensures
        final(out)@ == old(out)@ + be32(v),
{
    let b0 = (v >> 24u32) as u8;
    let b1 = ((v >> 16u32) & 0xff) as u8;
    let b2 = ((v >> 8u32) & 0xff) as u8;
    let b3 = (v & 0xff) as u8;
    proof {
        lemma_word_bytes(v);
    }
    out.push(b0);
    out.push(b1);
    out.push(b2);
    out.push(b3);
    assert(final(out)@ =~= old(out)@ + be32(v));
}

/// Append the big-endian bytes of `v`.
pub fn push_be64(out: &mut Vec<u8>, v: u64)
    ensures
        final(out)@ == old(out)@ + be64(v),
{
    let hi = (v >> 32u64) as u32;
    let lo = v as u32;
    proof {
        lemma_dword_halves(v);
    }
    push_be32(out, hi);
    push_be32(out, lo);
    assert(final(out)@ =~= old(out)@ + be64(v));
}

/// Append the little-endian bytes of `v`.
pub fn push_le32(out: &mut Vec<u8>, v: u32)
    ensures
        final(out)@ == old(out)@ + le32(v),
{
    let b3 = (v >> 24u32) as u8;
    let b2 = ((v >> 16u32) & 0xff) as u8;
    let b1 = ((v >> 8u32) & 0xff) as u8;
    let b0 = (v & 0xff) as u8;
    proof {
        lemma_word_bytes(v);
    }
    out.push(b0);
    out.push(b1);
    out.push(b2);
    out.push(b3);
    assert(final(out)@ =~= old(out)@ + le32(v));
}

/// Append the little-endian bytes of `v`.
pub fn push_le64(out: &mut Vec<u8>, v: u64)
    ensures
        final(out)@ == old(out)@ + le64(v),
{
    let hi = (v >> 32u64) as u32;
    let lo = v as u32;
    proof {
        lemma_dword_halves(v);
    }
    push_le32(out, lo);
    push_le32(out, hi);
    assert(final(out)@ =~= old(out)@ + le64(v));
}

} // verus!
