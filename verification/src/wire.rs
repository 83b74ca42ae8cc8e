//! Fixed-width integers in the byte order of the host.
//!
//! The ghost functions say what two or four bytes mean in either byte
//! order; the executable ones read and write them in the order of the
//! machine the program runs on, which `vstd::endian::endianness` names.

use byteorder::ByteOrder;
use vstd::endian::{endianness, Endian};
use vstd::prelude::*;

verus! {

/// The 16-bit value that the two bytes of `b` hold in byte order `order`.
pub open spec fn u16_in(order: Endian, b: Seq<u8>) -> u16
    recommends
        b.len() == 2,
{
    match order {
        Endian::Little => (b[0] + 256 * b[1]) as u16,
        Endian::Big => (b[1] + 256 * b[0]) as u16,
    }
}

/// The two bytes that hold `x` in byte order `order`.
pub open spec fn u16_bytes_in(order: Endian, x: u16) -> Seq<u8> {
    match order {
        Endian::Little => seq![(x % 256) as u8, (x / 256) as u8],
        Endian::Big => seq![(x / 256) as u8, (x % 256) as u8],
    }
}

/// The 32-bit value that the four bytes of `b` hold in byte order `order`.
pub open spec fn u32_in(order: Endian, b: Seq<u8>) -> u32
    recommends
        b.len() == 4,
{
    match order {
        Endian::Little => (b[0] + 0x100 * b[1] + 0x1_0000 * b[2] + 0x100_0000 * b[3]) as u32,
        Endian::Big => (b[3] + 0x100 * b[2] + 0x1_0000 * b[1] + 0x100_0000 * b[0]) as u32,
    }
}

/// The four bytes that hold `x` in byte order `order`.
pub open spec fn u32_bytes_in(order: Endian, x: u32) -> Seq<u8> {
    match order {
        Endian::Little => seq![
            (x % 0x100) as u8,
            ((x / 0x100) % 0x100) as u8,
            ((x / 0x1_0000) % 0x100) as u8,
            (x / 0x100_0000) as u8,
        ],
        Endian::Big => seq![
            (x / 0x100_0000) as u8,
            ((x / 0x1_0000) % 0x100) as u8,
            ((x / 0x100) % 0x100) as u8,
            (x % 0x100) as u8,
        ],
    }
}

/// The 16-bit value of two bytes in host byte order.
pub open spec fn native_u16(b: Seq<u8>) -> u16 {
    u16_in(endianness(), b)
}

/// The two bytes of `x` in host byte order.
pub open spec fn native_u16_bytes(x: u16) -> Seq<u8> {
    u16_bytes_in(endianness(), x)
}

/// The 32-bit value of four bytes in host byte order.
pub open spec fn native_u32(b: Seq<u8>) -> u32 {
    u32_in(endianness(), b)
}

/// The four bytes of `x` in host byte order.
pub open spec fn native_u32_bytes(x: u32) -> Seq<u8> {
    u32_bytes_in(endianness(), x)
}

/// The signed value with the same 32 bits as `u`.
pub open spec fn i32_of_bits(u: u32) -> i32 {
    if u < 0x8000_0000 {
        u as i32
    } else {
        (u - 0x1_0000_0000) as i32
    }
}

/// The unsigned value with the same 32 bits as `x`.
pub open spec fn bits_of_i32(x: i32) -> u32 {
    if x >= 0 {
        x as u32
    } else {
        (x + 0x1_0000_0000) as u32
    }
}

/// Writing a 16-bit value and reading it back gives the value, in either
/// byte order; so does reading two bytes and writing the value back.
pub proof fn lemma_u16_round_trip(order: Endian, x: u16, b: Seq<u8>)
    ensures
        u16_bytes_in(order, x).len() == 2,
        u16_in(order, u16_bytes_in(order, x)) == x,
        b.len() == 2 ==> u16_bytes_in(order, u16_in(order, b)) == b,
{
    if b.len() == 2 {
        assert(u16_bytes_in(order, u16_in(order, b)) =~= b);
    }
}

/// A 32-bit value is the sum of its four bytes, each at its weight.
proof fn lemma_u32_split(x: u32)
    ensures
        x == (x % 0x100) + 0x100 * ((x / 0x100) % 0x100) + 0x1_0000 * ((x / 0x1_0000) % 0x100)
            + 0x100_0000 * (x / 0x100_0000),
        x / 0x100_0000 < 0x100,
{
    assert(x == (x % 0x100) + 0x100 * ((x / 0x100) % 0x100) + 0x1_0000 * ((x / 0x1_0000) % 0x100)
        + 0x100_0000 * (x / 0x100_0000)) by (bit_vector);
    assert(x / 0x100_0000 < 0x100) by (bit_vector);
}

/// Four bytes, each at its weight, are the four bytes of their sum.
proof fn lemma_u32_join(b0: u8, b1: u8, b2: u8, b3: u8)
    ensures
        ({
            let x = b0 + 0x100 * b1 + 0x1_0000 * b2 + 0x100_0000 * b3;
            &&& x <= u32::MAX
            &&& x % 0x100 == b0
            &&& (x / 0x100) % 0x100 == b1
            &&& (x / 0x1_0000) % 0x100 == b2
            &&& x / 0x100_0000 == b3
        }),
{
}

/// Writing a 32-bit value and reading it back gives the value, in either
/// byte order; so does reading four bytes and writing the value back.
pub proof fn lemma_u32_round_trip(order: Endian, x: u32, b: Seq<u8>)
    ensures
        u32_bytes_in(order, x).len() == 4,
        u32_in(order, u32_bytes_in(order, x)) == x,
        b.len() == 4 ==> u32_bytes_in(order, u32_in(order, b)) == b,
{
    lemma_u32_split(x);
    if b.len() == 4 {
        match order {
            Endian::Little => lemma_u32_join(b[0], b[1], b[2], b[3]),
            Endian::Big => lemma_u32_join(b[3], b[2], b[1], b[0]),
        }
        assert(u32_bytes_in(order, u32_in(order, b)) =~= b);
    }
}

/// The signed and the unsigned reading of 32 bits determine each other.
pub proof fn lemma_i32_bits_round_trip(x: i32, u: u32)
    ensures
        i32_of_bits(bits_of_i32(x)) == x,
        bits_of_i32(i32_of_bits(u)) == u,
{
}

/// `u16::from_ne_bytes` of std: the value that two bytes hold in the byte
/// order of the host.
#[verifier::external_body]
pub(crate) fn u16_from_ne(b: [u8; 2]) -> (r: u16)
    ensures
        r == native_u16(b@),
{
    u16::from_ne_bytes(b)
}

/// `u32::from_ne_bytes` of std: the value that four bytes hold in the byte
/// order of the host.
#[verifier::external_body]
pub(crate) fn u32_from_ne(b: [u8; 4]) -> (r: u32)
    ensures
        r == native_u32(b@),
{
    u32::from_ne_bytes(b)
}

/// `u16::to_ne_bytes` of std: the two bytes of a value in the byte order of
/// the host.
#[verifier::external_body]
pub(crate) fn u16_to_ne(x: u16) -> (b: [u8; 2])
    ensures
        b@ == native_u16_bytes(x),
{
    x.to_ne_bytes()
}

/// `u32::to_ne_bytes` of std: the four bytes of a value in the byte order of
/// the host.
#[verifier::external_body]
pub(crate) fn u32_to_ne(x: u32) -> (b: [u8; 4])
    ensures
        b@ == native_u32_bytes(x),
{
    x.to_ne_bytes()
}

/// `ByteOrder::read_u32` of byteorder for `NativeEndian`: the value that the
/// first four bytes of `buf` hold in the byte order of the host. The call
/// panics on a shorter buffer, which the precondition rules out.
#[verifier::external_body]
pub(crate) fn read_u32_native(buf: &[u8]) -> (r: u32)
    requires
        buf@.len() >= 4,
    ensures
        r == native_u32(buf@.subrange(0, 4)),
{
    byteorder::NativeEndian::read_u32(buf)
}

/// The signed value with the same bits as `u`.
pub fn i32_from_bits(u: u32) -> (r: i32)
    ensures
        r == i32_of_bits(u),
{
    if u < 0x8000_0000 {
        u as i32
    } else {
        let low: u32 = u - 0x8000_0000;
        (low as i32) + i32::MIN
    }
}

/// The unsigned value with the same bits as `x`.
pub fn i32_to_bits(x: i32) -> (r: u32)
    ensures
        r == bits_of_i32(x),
{
    if x >= 0 {
        x as u32
    } else {
        let low: i32 = x - i32::MIN;
        (low as u32) + 0x8000_0000
    }
}

} // verus!
