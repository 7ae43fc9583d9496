use crate::config::Endian;
use byteorder::{BigEndian, ByteOrder, LittleEndian};
use vstd::prelude::*;

verus! {

/// The unsigned integer whose little-endian encoding is `bytes`
/// (first byte least significant).
pub open spec fn le_value(bytes: Seq<u8>) -> nat
    decreases bytes.len(),
{
    if bytes.len() == 0 {
        0
    } else {
        bytes[0] as nat + 256 * le_value(bytes.drop_first())
    }
}

/// The unsigned integer whose big-endian encoding is `bytes`
/// (first byte most significant).
pub open spec fn be_value(bytes: Seq<u8>) -> nat
    decreases bytes.len(),
{
    if bytes.len() == 0 {
        0
    } else {
        256 * be_value(bytes.drop_last()) + bytes.last() as nat
    }
}

/// The unsigned integer that `bytes` encode in the given byte order.
pub open spec fn uint_value(endian: Endian, bytes: Seq<u8>) -> nat {
    match endian {
        Endian::Little => le_value(bytes),
        Endian::Big => be_value(bytes),
    }
}

/// `256` to the power `n`: one more than the largest value of `n` bytes.
pub open spec fn byte_range(n: nat) -> nat
    decreases n,
{
    if n == 0 {
        1
    } else {
        256 * byte_range((n - 1) as nat)
    }
}

/// The `n`-byte little-endian encoding of `v` (taken modulo `256^n`).
pub open spec fn le_bytes(v: nat, n: nat) -> Seq<u8>
    decreases n,
{
    if n == 0 {
        Seq::empty()
    } else {
        seq![(v % 256) as u8] + le_bytes(v / 256, (n - 1) as nat)
    }
}

/// The `n`-byte encoding of `v` in the given byte order.
pub open spec fn uint_bytes(endian: Endian, v: nat, n: nat) -> Seq<u8> {
    match endian {
        Endian::Little => le_bytes(v, n),
        Endian::Big => le_bytes(v, n).reverse(),
    }
}

/// Big-endian reading is little-endian reading of the reversed bytes.
pub proof fn lemma_be_is_reversed_le(bytes: Seq<u8>)
    ensures
        be_value(bytes) == le_value(bytes.reverse()),
    decreases bytes.len(),
{
    if bytes.len() > 0 {
        let rest = bytes.drop_last();
        lemma_be_is_reversed_le(rest);
        assert(bytes.reverse().drop_first() =~= rest.reverse());
        assert(bytes.reverse()[0] == bytes.last());
    }
}

/// `n` bytes encode a value below `256^n`, in either byte order.
pub proof fn lemma_value_in_range(endian: Endian, bytes: Seq<u8>)
    ensures
        uint_value(endian, bytes) < byte_range(bytes.len()),
{
    lemma_le_value_in_range(bytes);
    lemma_be_is_reversed_le(bytes);
    lemma_le_value_in_range(bytes.reverse());
}

proof fn lemma_le_value_in_range(bytes: Seq<u8>)
    ensures
        le_value(bytes) < byte_range(bytes.len()),
    decreases bytes.len(),
{
    if bytes.len() > 0 {
        lemma_le_value_in_range(bytes.drop_first());
        assert(byte_range(bytes.len()) == 256 * byte_range((bytes.len() - 1) as nat));
    }
}

proof fn lemma_le_round_trip(v: nat, n: nat)
    requires
        v < byte_range(n),
    ensures
        le_bytes(v, n).len() == n,
        le_value(le_bytes(v, n)) == v,
    decreases n,
{
    if n > 0 {
        let b = le_bytes(v, n);
        assert(v / 256 < byte_range((n - 1) as nat)) by (nonlinear_arith)
            requires
                v < 256 * byte_range((n - 1) as nat),
        ;
        lemma_le_round_trip(v / 256, (n - 1) as nat);
        assert(b.drop_first() =~= le_bytes(v / 256, (n - 1) as nat));
    }
}

proof fn lemma_le_bytes_of_value(bytes: Seq<u8>)
    ensures
        le_bytes(le_value(bytes), bytes.len()) == bytes,
    decreases bytes.len(),
{
    if bytes.len() > 0 {
        let rest = bytes.drop_first();
        lemma_le_bytes_of_value(rest);
        let v = le_value(bytes);
        assert(v % 256 == bytes[0] as nat && v / 256 == le_value(rest)) by (nonlinear_arith)
            requires
                v == bytes[0] as nat + 256 * le_value(rest),
                0 <= bytes[0] < 256,
        ;
        assert(le_bytes(v, bytes.len()) =~= bytes);
    }
}

/// Reading `n` bytes in a byte order gives back every value below `256^n`
/// that was written in that order, and a value written from bytes gives back
/// the same bytes: integer decoding is a bijection between `n`-byte strings
/// and `0..256^n`.
pub proof fn lemma_uint_round_trip(endian: Endian, v: nat, n: nat, bytes: Seq<u8>)
    requires
        v < byte_range(n),
    ensures
        uint_bytes(endian, v, n).len() == n,
        uint_value(endian, uint_bytes(endian, v, n)) == v,
        uint_bytes(endian, uint_value(endian, bytes), bytes.len()) == bytes,
{
    lemma_le_round_trip(v, n);
    lemma_le_bytes_of_value(bytes);
    match endian {
        Endian::Little => {},
        Endian::Big => {
            lemma_be_is_reversed_le(le_bytes(v, n).reverse());
            assert(le_bytes(v, n).reverse().reverse() =~= le_bytes(v, n));
            lemma_be_is_reversed_le(bytes);
            lemma_le_bytes_of_value(bytes.reverse());
            assert(bytes.reverse().reverse() =~= bytes);
        },
    }
}

/// Calls `byteorder::LittleEndian::read_u16`, which decodes the first two
/// bytes of `buf` least significant first; trusted to do exactly that.
#[verifier::external_body]
pub(crate) fn le_read_u16(buf: &[u8]) -> (r: u16)
    requires
        buf@.len() >= 2,
    ensures
        r == le_value(buf@.take(2)),
{
    <LittleEndian as ByteOrder>::read_u16(buf)
}

/// Calls `byteorder::LittleEndian::read_u32` (first four bytes, least
/// significant first); trusted to do exactly that.
#[verifier::external_body]
pub(crate) fn le_read_u32(buf: &[u8]) -> (r: u32)
    requires
        buf@.len() >= 4,
    ensures
        r == le_value(buf@.take(4)),
{
    <LittleEndian as ByteOrder>::read_u32(buf)
}

/// Calls `byteorder::LittleEndian::read_u64` (first eight bytes, least
/// significant first); trusted to do exactly that.
#[verifier::external_body]
pub(crate) fn le_read_u64(buf: &[u8]) -> (r: u64)
    requires
        buf@.len() >= 8,
    ensures
        r == le_value(buf@.take(8)),
{
    <LittleEndian as ByteOrder>::read_u64(buf)
}

/// Calls `byteorder::LittleEndian::read_u128` (first sixteen bytes, least
/// significant first); trusted to do exactly that.
#[verifier::external_body]
pub(crate) fn le_read_u128(buf: &[u8]) -> (r: u128)
    requires
        buf@.len() >= 16,
    ensures
        r == le_value(buf@.take(16)),
{
    <LittleEndian as ByteOrder>::read_u128(buf)
}

/// Calls `byteorder::BigEndian::read_u16`, which decodes the first two
/// bytes of `buf` most significant first; trusted to do exactly that.
#[verifier::external_body]
pub(crate) fn be_read_u16(buf: &[u8]) -> (r: u16)
    requires
        buf@.len() >= 2,
    ensures
        r == be_value(buf@.take(2)),
{
    <BigEndian as ByteOrder>::read_u16(buf)
}

/// Calls `byteorder::BigEndian::read_u32` (first four bytes, most
/// significant first); trusted to do exactly that.
#[verifier::external_body]
pub(crate) fn be_read_u32(buf: &[u8]) -> (r: u32)
    requires
        buf@.len() >= 4,
    ensures
        r == be_value(buf@.take(4)),
{
    <BigEndian as ByteOrder>::read_u32(buf)
}

/// Calls `byteorder::BigEndian::read_u64` (first eight bytes, most
/// significant first); trusted to do exactly that.
#[verifier::external_body]
pub(crate) fn be_read_u64(buf: &[u8]) -> (r: u64)
    requires
        buf@.len() >= 8,
    ensures
        r == be_value(buf@.take(8)),
{
    <BigEndian as ByteOrder>::read_u64(buf)
}

/// Calls `byteorder::BigEndian::read_u128` (first sixteen bytes, most
/// significant first); trusted to do exactly that.
#[verifier::external_body]
pub(crate) fn be_read_u128(buf: &[u8]) -> (r: u128)
    requires
        buf@.len() >= 16,
    ensures
        r == be_value(buf@.take(16)),
{
    <BigEndian as ByteOrder>::read_u128(buf)
}

} // verus!
