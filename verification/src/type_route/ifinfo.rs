//! The fixed sub-header that opens the payload of a link message.

use crate::error::NetlinkError;
use crate::proto::packet::{push_u16, push_u32};
use crate::wire::{
    bits_of_i32, i32_from_bits, i32_of_bits, i32_to_bits, u16_bytes_in, u16_from_ne, u16_in,
    u32_bytes_in, u32_from_ne, u32_in,
};
use crate::Serializable;
use vstd::endian::{endianness, Endian};
use vstd::prelude::*;
use vstd::std_specs::cmp::PartialEqSpecImpl;

verus! {

/// The number of bytes the sub-header takes on the wire.
pub const IFINFO_LEN: usize = 0x10;

/// What the kernel says of a link before its attributes.
#[derive(Debug, Eq, Clone, Copy)]
pub struct IfInfoMsg {
    /// The address family.
    pub family: u8,
    /// A byte of padding, which takes no part in comparing two values.
    pub _pad: u8,
    /// The kind of device.
    pub typ: u16,
    /// The index of the link.
    pub index: i32,
    /// The flags of the device.
    pub flags: u32,
    /// Which flags a request changes.
    pub change: u32,
}

impl IfInfoMsg {
    /// The sixteen bytes of the sub-header in byte order `order`.
    pub open spec fn wire_in(self, order: Endian) -> Seq<u8> {
        seq![self.family, self._pad] + u16_bytes_in(order, self.typ) + u32_bytes_in(
            order,
            bits_of_i32(self.index),
        ) + u32_bytes_in(order, self.flags) + u32_bytes_in(order, self.change)
    }

    /// The sub-header that the first sixteen bytes of `b` hold in byte
    /// order `order`.
    pub open spec fn parse_in(order: Endian, b: Seq<u8>) -> IfInfoMsg
        recommends
            b.len() >= 16,
    {
        IfInfoMsg {
            family: b[0],
            _pad: b[1],
            typ: u16_in(order, b.subrange(2, 4)),
            index: i32_of_bits(u32_in(order, b.subrange(4, 8))),
            flags: u32_in(order, b.subrange(8, 12)),
            change: u32_in(order, b.subrange(12, 16)),
        }
    }

    /// What decoding a sub-header from `b` gives: that of its first sixteen
    /// bytes, or a truncation where it has fewer.
    pub open spec fn decode_in(order: Endian, b: Seq<u8>) -> Result<IfInfoMsg, NetlinkError> {
        if b.len() < 16 {
            Err(NetlinkError::Truncated)
        } else {
            Ok(Self::parse_in(order, b))
        }
    }

    /// Whether two values agree in every field but the padding.
    pub open spec fn same_fields(self, other: IfInfoMsg) -> bool {
        self.family == other.family && self.typ == other.typ && self.index == other.index
            && self.flags == other.flags && self.change == other.change
    }

    /// Decodes the sub-header at the start of `v`, in host byte order.
    /// Bytes after the sixteenth are left alone.
    pub fn from_bytes(v: &[u8]) -> (r: Result<IfInfoMsg, NetlinkError>)
        ensures
            r == Self::decode_in(endianness(), v@),
    {
        if v.len() < IfInfoMsg::size() {
            return Err(NetlinkError::Truncated);
        }
        let typ = u16_from_ne([v[2], v[3]]);
        let index = i32_from_bits(u32_from_ne([v[4], v[5], v[6], v[7]]));
        let flags = u32_from_ne([v[8], v[9], v[10], v[11]]);
        let change = u32_from_ne([v[12], v[13], v[14], v[15]]);
        proof {
            assert(v@.subrange(2, 4) =~= seq![v@[2], v@[3]]);
            assert(v@.subrange(4, 8) =~= seq![v@[4], v@[5], v@[6], v@[7]]);
            assert(v@.subrange(8, 12) =~= seq![v@[8], v@[9], v@[10], v@[11]]);
            assert(v@.subrange(12, 16) =~= seq![v@[12], v@[13], v@[14], v@[15]]);
        }
        Ok(IfInfoMsg { family: v[0], _pad: v[1], typ, index, flags, change })
    }

    /// The number of bytes the sub-header takes on the wire.
    pub fn size() -> (n: usize)
        ensures
            n == 16,
    {
        IFINFO_LEN
    }
}

impl PartialEq for IfInfoMsg {
    fn eq(&self, other: &IfInfoMsg) -> (r: bool) {
        self.family == other.family && self.typ == other.typ && self.index == other.index
            && self.flags == other.flags && self.change == other.change
    }
}

impl PartialEqSpecImpl for IfInfoMsg {
    open spec fn obeys_eq_spec() -> bool {
        true
    }

    open spec fn eq_spec(&self, other: &IfInfoMsg) -> bool {
        self.same_fields(*other)
    }
}

impl Default for IfInfoMsg {
    fn default() -> (m: IfInfoMsg)
        ensures
            m == (IfInfoMsg { family: 0, _pad: 0, typ: 0, index: 0, flags: 0, change: 0 }),
    {
        IfInfoMsg { family: 0, _pad: 0, typ: 0, index: 0, flags: 0, change: 0 }
    }
}

impl Serializable for IfInfoMsg {
    open spec fn encodable(&self) -> bool {
        true
    }

    open spec fn serialized(&self) -> Seq<u8> {
        self.wire_in(endianness())
    }

    fn to_bytes(&self) -> (out: Vec<u8>) {
        let mut out: Vec<u8> = Vec::with_capacity(IfInfoMsg::size());
        out.push(self.family);
        out.push(self._pad);
        assert(out@ =~= seq![self.family, self._pad]);
        push_u16(&mut out, self.typ);
        push_u32(&mut out, i32_to_bits(self.index));
        push_u32(&mut out, self.flags);
        push_u32(&mut out, self.change);
        out
    }
}

/// Encoding a sub-header and decoding the bytes gives it back, field for
/// field and the padding byte too, whatever follows the sixteen bytes.
pub proof fn lemma_ifinfo_round_trip(order: Endian, m: IfInfoMsg, rest: Seq<u8>)
    ensures
        m.wire_in(order).len() == 16,
        IfInfoMsg::parse_in(order, m.wire_in(order) + rest) == m,
        IfInfoMsg::decode_in(order, m.wire_in(order) + rest) == Ok::<IfInfoMsg, NetlinkError>(m),
{
    let e = Seq::<u8>::empty();
    crate::wire::lemma_u16_round_trip(order, m.typ, e);
    crate::wire::lemma_u32_round_trip(order, bits_of_i32(m.index), e);
    crate::wire::lemma_u32_round_trip(order, m.flags, e);
    crate::wire::lemma_u32_round_trip(order, m.change, e);
    crate::wire::lemma_i32_bits_round_trip(m.index, 0);
    let b = m.wire_in(order) + rest;
    assert(b.subrange(2, 4) =~= u16_bytes_in(order, m.typ));
    assert(b.subrange(4, 8) =~= u32_bytes_in(order, bits_of_i32(m.index)));
    assert(b.subrange(8, 12) =~= u32_bytes_in(order, m.flags));
    assert(b.subrange(12, 16) =~= u32_bytes_in(order, m.change));
}

} // verus!
