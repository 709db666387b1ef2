//! Little-endian integer encoding, the byte layout shared by every format of
//! this crate.

use byteorder::{ByteOrder, LittleEndian};
use vstd::prelude::*;

verus! {

/// The two bytes of `n`, least significant first.
pub open spec fn le16(n: u16) -> Seq<u8> {
    seq![(n % 256) as u8, (n / 256) as u8]
}

/// The four bytes of `n`, least significant first.
pub open spec fn le32(n: u32) -> Seq<u8> {
    seq![
        (n % 256) as u8,
        ((n / 256) % 256) as u8,
        ((n / 65536) % 256) as u8,
        (n / 16777216) as u8,
    ]
}

/// The value of the first two bytes of `s`, read least significant first.
pub open spec fn le16_value(s: Seq<u8>) -> int {
    s[0] + 256 * s[1]
}

/// The value of the first four bytes of `s`, read least significant first.
pub open spec fn le32_value(s: Seq<u8>) -> int {
    s[0] + 256 * s[1] + 65536 * s[2] + 16777216 * s[3]
}

/// Reading back what `le16` wrote gives the number.
pub proof fn lemma_le16_roundtrip(n: u16)
    ensures
        le16(n).len() == 2,
        le16_value(le16(n)) == n,
{
    assert((n % 256) + 256 * (n / 256) == n) by (nonlinear_arith);
}

/// Reading back what `le32` wrote gives the number.
pub proof fn lemma_le32_roundtrip(n: u32)
    ensures
        le32(n).len() == 4,
        le32_value(le32(n)) == n,
{
    let a = n % 256;
    let b = (n / 256) % 256;
    let c = (n / 65536) % 256;
    let d = n / 16777216;
    assert(a + 256 * b + 65536 * c + 16777216 * d == n) by (nonlinear_arith)
        requires
            a == n % 256,
            b == (n / 256) % 256,
            c == (n / 65536) % 256,
            d == n / 16777216,
            0 <= n < 0x1_0000_0000,
    {
        assert(n == 256 * (n / 256) + n % 256);
        assert(n / 256 == 256 * ((n / 256) / 256) + (n / 256) % 256);
        assert((n / 256) / 256 == n / 65536);
        assert(n / 65536 == 256 * ((n / 65536) / 256) + (n / 65536) % 256);
        assert((n / 65536) / 256 == n / 16777216);
    }
}

/// `byteorder::LittleEndian::read_u16`: the first two bytes of `buf`, least
/// significant first. It panics on fewer than two bytes, which `requires`
/// rules out.
#[verifier::external_body]
pub(crate) fn read_le16(buf: &[u8]) -> (n: u16)
    requires
        buf@.len() >= 2,
    ensures
        n == le16_value(buf@),
{
    <LittleEndian as ByteOrder>::read_u16(buf)
}

/// `byteorder::LittleEndian::read_u32`: the first four bytes of `buf`, least
/// significant first. It panics on fewer than four bytes, which `requires`
/// rules out.
#[verifier::external_body]
pub(crate) fn read_le32(buf: &[u8]) -> (n: u32)
    requires
        buf@.len() >= 4,
    ensures
        n == le32_value(buf@),
{
    <LittleEndian as ByteOrder>::read_u32(buf)
}

/// `byteorder::LittleEndian::write_u16` into a two-byte buffer: the bytes of
/// `n`, least significant first.
#[verifier::external_body]
fn le16_bytes(n: u16) -> (b: [u8; 2])
    ensures
        b@ == le16(n),
{
    let mut b = [0u8; 2];
    <LittleEndian as ByteOrder>::write_u16(&mut b, n);
    b
}

/// `byteorder::LittleEndian::write_u32` into a four-byte buffer: the bytes of
/// `n`, least significant first.
#[verifier::external_body]
fn le32_bytes(n: u32) -> (b: [u8; 4])
    ensures
        b@ == le32(n),
{
    let mut b = [0u8; 4];
    <LittleEndian as ByteOrder>::write_u32(&mut b, n);
    b
}

/// Appends the little-endian bytes of `n` to `out`.
pub fn push_le16(out: &mut Vec<u8>, n: u16)
    ensures
        final(out)@ == old(out)@ + le16(n),
{
    let b = le16_bytes(n);
    out.push(b[0]);
    out.push(b[1]);
    assert(final(out)@ =~= old(out)@ + le16(n));
}

/// Appends the little-endian bytes of `n` to `out`.
pub fn push_le32(out: &mut Vec<u8>, n: u32)
    ensures
        final(out)@ == old(out)@ + le32(n),
{
    let b = le32_bytes(n);
    out.push(b[0]);
    out.push(b[1]);
    out.push(b[2]);
    out.push(b[3]);
    assert(final(out)@ =~= old(out)@ + le32(n));
}

/// Appends every byte of `data` to `out`.
pub fn push_all(out: &mut Vec<u8>, data: &[u8])
    ensures
        final(out)@ == old(out)@ + data@,
{
    let ghost start = out@;
    let mut i: usize = 0;
    while i < data.len()
        invariant
            i <= data@.len(),
            out@ == start + data@.subrange(0, i as int),
        decreases data@.len() - i,
    {
        out.push(data[i]);
        i = i + 1;
        assert(out@ =~= start + data@.subrange(0, i as int));
    }
    assert(data@.subrange(0, data@.len() as int) =~= data@);
}

/// Overwrites the four bytes of `out` at `pos` with the little-endian bytes
/// of `n`.
pub fn set_le32(out: &mut Vec<u8>, pos: usize, n: u32)
    requires
        pos + 4 <= old(out)@.len(),
    ensures
        final(out)@ == old(out)@.subrange(0, pos as int) + le32(n) + old(out)@.subrange(
            pos + 4,
            old(out)@.len() as int,
        ),
{
    let b = le32_bytes(n);
    let _len = out.len();
    out.set(pos, b[0]);
    out.set(pos + 1, b[1]);
    out.set(pos + 2, b[2]);
    out.set(pos + 3, b[3]);
    assert(final(out)@ =~= old(out)@.subrange(0, pos as int) + le32(n) + old(out)@.subrange(
        pos + 4,
        old(out)@.len() as int,
    ));
}

} // verus!
