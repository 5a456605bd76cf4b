//! Big-endian integers: their mathematical meaning, and the calls into
//! `byteorder` that compute them.

use byteorder::{BigEndian, ByteOrder};
use vstd::prelude::*;

verus! {

/// The number of values that `width` bytes can tell apart: 256 to the power `width`.
pub open spec fn span(width: nat) -> nat
    decreases width,
{
    if width == 0 {
        1
    } else {
        256 * span((width - 1) as nat)
    }
}

/// The `width` bytes that stand for `n`, most significant byte first.
pub open spec fn be_bytes(n: nat, width: nat) -> Seq<u8>
    decreases width,
{
    if width == 0 {
        Seq::empty()
    } else {
        be_bytes(n / 256, (width - 1) as nat).push((n % 256) as u8)
    }
}

/// The number that `bytes` stand for, most significant byte first.
pub open spec fn be_value(bytes: Seq<u8>) -> nat
    decreases bytes.len(),
{
    if bytes.len() == 0 {
        0
    } else {
        be_value(bytes.drop_last()) * 256 + bytes.last() as nat
    }
}

/// The unsigned number that stands for `v` in two's complement of `width` bytes.
pub open spec fn twos_complement(v: int, width: nat) -> nat {
    if v < 0 {
        (v + span(width)) as nat
    } else {
        v as nat
    }
}

/// The signed number that `n` stands for in two's complement of `width` bytes.
pub open spec fn signed_value(n: nat, width: nat) -> int {
    if 2 * n >= span(width) {
        n - span(width)
    } else {
        n as int
    }
}

/// The spans of the widths that the wire format uses.
pub proof fn lemma_spans()
    ensures
        span(1) == 0x100,
        span(2) == 0x1_0000,
        span(4) == 0x1_0000_0000,
        span(8) == 0x1_0000_0000_0000_0000,
{
    reveal_with_fuel(span, 9);
}

/// Big-endian bytes are as many as were asked for.
pub proof fn lemma_be_bytes_len(n: nat, width: nat)
    ensures
        be_bytes(n, width).len() == width,
    decreases width,
{
    if width > 0 {
        lemma_be_bytes_len(n / 256, (width - 1) as nat);
    }
}

/// Bytes stand for a number below the span of their count.
pub proof fn lemma_be_value_bound(bytes: Seq<u8>)
    ensures
        be_value(bytes) < span(bytes.len()),
    decreases bytes.len(),
{
    if bytes.len() > 0 {
        lemma_be_value_bound(bytes.drop_last());
    }
}

/// A number below the span of a width is read back from its bytes.
pub proof fn lemma_be_value_of_bytes(n: nat, width: nat)
    requires
        n < span(width),
    ensures
        be_value(be_bytes(n, width)) == n,
    decreases width,
{
    if width > 0 {
        let shorter = be_bytes(n / 256, (width - 1) as nat);
        lemma_be_value_of_bytes(n / 256, (width - 1) as nat);
        lemma_be_bytes_len(n / 256, (width - 1) as nat);
        assert(be_bytes(n, width).drop_last() =~= shorter);
    }
}

/// `byteorder::BigEndian::read_u16`: the number that the first two bytes of
/// `buf` stand for, most significant byte first.
#[verifier::external_body]
pub(crate) fn read_u16(buf: &[u8]) -> (n: u16)
    requires
        buf@.len() >= 2,
    ensures
        n as nat == be_value(buf@.take(2)),
{
    BigEndian::read_u16(buf)
}

/// `byteorder::BigEndian::read_i16`: the number that the first two bytes of
/// `buf` stand for in two's complement, most significant byte first.
#[verifier::external_body]
pub(crate) fn read_i16(buf: &[u8]) -> (n: i16)
    requires
        buf@.len() >= 2,
    ensures
        n as int == signed_value(be_value(buf@.take(2)), 2),
{
    BigEndian::read_i16(buf)
}

/// `byteorder::BigEndian::write_u16`: the first two bytes of `buf` become
/// those of `n`, most significant byte first; the rest of `buf` stays.
#[verifier::external_body]
pub(crate) fn write_u16(buf: &mut [u8], n: u16)
    requires
        old(buf)@.len() >= 2,
    ensures
        final(buf)@ == be_bytes(n as nat, 2) + old(buf)@.skip(2),
{
    BigEndian::write_u16(buf, n)
}

/// `byteorder::BigEndian::write_i16`: the first two bytes of `buf` become
/// those of `n` in two's complement, most significant byte first; the rest of
/// `buf` stays.
#[verifier::external_body]
pub(crate) fn write_i16(buf: &mut [u8], n: i16)
    requires
        old(buf)@.len() >= 2,
    ensures
        final(buf)@ == be_bytes(twos_complement(n as int, 2), 2) + old(buf)@.skip(2),
{
    BigEndian::write_i16(buf, n)
}

/// `byteorder::BigEndian::read_u32`: the number that the first four bytes of
/// `buf` stand for, most significant byte first.
#[verifier::external_body]
pub(crate) fn read_u32(buf: &[u8]) -> (n: u32)
    requires
        buf@.len() >= 4,
    ensures
        n as nat == be_value(buf@.take(4)),
{
    BigEndian::read_u32(buf)
}

/// `byteorder::BigEndian::read_i32`: the number that the first four bytes of
/// `buf` stand for in two's complement, most significant byte first.
#[verifier::external_body]
pub(crate) fn read_i32(buf: &[u8]) -> (n: i32)
    requires
        buf@.len() >= 4,
    ensures
        n as int == signed_value(be_value(buf@.take(4)), 4),
{
    BigEndian::read_i32(buf)
}

/// `byteorder::BigEndian::write_u32`: the first four bytes of `buf` become
/// those of `n`, most significant byte first; the rest of `buf` stays.
#[verifier::external_body]
pub(crate) fn write_u32(buf: &mut [u8], n: u32)
    requires
        old(buf)@.len() >= 4,
    ensures
        final(buf)@ == be_bytes(n as nat, 4) + old(buf)@.skip(4),
{
    BigEndian::write_u32(buf, n)
}

/// `byteorder::BigEndian::write_i32`: the first four bytes of `buf` become
/// those of `n` in two's complement, most significant byte first; the rest of
/// `buf` stays.
#[verifier::external_body]
pub(crate) fn write_i32(buf: &mut [u8], n: i32)
    requires
        old(buf)@.len() >= 4,
    ensures
        final(buf)@ == be_bytes(twos_complement(n as int, 4), 4) + old(buf)@.skip(4),
{
    BigEndian::write_i32(buf, n)
}

/// `byteorder::BigEndian::read_u64`: the number that the first eight bytes of
/// `buf` stand for, most significant byte first.
#[verifier::external_body]
pub(crate) fn read_u64(buf: &[u8]) -> (n: u64)
    requires
        buf@.len() >= 8,
    ensures
        n as nat == be_value(buf@.take(8)),
{
    BigEndian::read_u64(buf)
}

/// `byteorder::BigEndian::read_i64`: the number that the first eight bytes of
/// `buf` stand for in two's complement, most significant byte first.
#[verifier::external_body]
pub(crate) fn read_i64(buf: &[u8]) -> (n: i64)
    requires
        buf@.len() >= 8,
    ensures
        n as int == signed_value(be_value(buf@.take(8)), 8),
{
    BigEndian::read_i64(buf)
}

/// `byteorder::BigEndian::write_u64`: the first eight bytes of `buf` become
/// those of `n`, most significant byte first; the rest of `buf` stays.
#[verifier::external_body]
pub(crate) fn write_u64(buf: &mut [u8], n: u64)
    requires
        old(buf)@.len() >= 8,
    ensures
        final(buf)@ == be_bytes(n as nat, 8) + old(buf)@.skip(8),
{
    BigEndian::write_u64(buf, n)
}

/// `byteorder::BigEndian::write_i64`: the first eight bytes of `buf` become
/// those of `n` in two's complement, most significant byte first; the rest of
/// `buf` stays.
#[verifier::external_body]
pub(crate) fn write_i64(buf: &mut [u8], n: i64)
    requires
        old(buf)@.len() >= 8,
    ensures
        final(buf)@ == be_bytes(twos_complement(n as int, 8), 8) + old(buf)@.skip(8),
{
    BigEndian::write_i64(buf, n)
}

} // verus!
