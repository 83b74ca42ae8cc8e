//! Routing attributes: a length, a type and a value, padded to the boundary
//! and nested by putting attributes into a value.

use crate::error::NetlinkError;
use crate::proto::packet::push_u16;
use crate::util::{align, align_up, align_within, padding, zeros};
use crate::wire::{native_u16, native_u32, u16_bytes_in, u16_from_ne, u16_in, u32_from_ne};
use crate::Serializable;
use vstd::endian::{endianness, Endian};
use vstd::prelude::*;
use vstd::slice::{slice_subrange, slice_to_vec};

verus! {

/// The number of bytes an attribute's header takes on the wire.
pub const RTA_HDRLEN: usize = 4;

/// The length-type-value struct that holds data.
#[derive(Debug, Clone)]
pub struct RtAttr {
    /// The length and the type.
    pub header: RtAttrHeader,
    /// The value.
    pub data: Vec<u8>,
}

/// The header of an attribute.
#[derive(Debug, Clone, Copy, PartialEq, Eq, Structural)]
pub struct RtAttrHeader {
    /// The length of header and value in bytes, without the padding that
    /// follows the value on the wire.
    pub len: u16,
    /// What the value means; the reader decides by it how to read the value.
    pub typ: u16,
}

/// What an attribute is: its header and the bytes of its value.
pub struct AttrView {
    pub header: RtAttrHeader,
    pub data: Seq<u8>,
}

impl View for RtAttr {
    type V = AttrView;

    open spec fn view(&self) -> AttrView {
        AttrView { header: self.header, data: self.data@ }
    }
}

/// The views of a run of attributes, in order.
pub open spec fn attr_views(attrs: Seq<RtAttr>) -> Seq<AttrView> {
    attrs.map_values(|a: RtAttr| a@)
}

impl RtAttrHeader {
    /// The four bytes of the header in byte order `order`.
    pub open spec fn wire_in(self, order: Endian) -> Seq<u8> {
        u16_bytes_in(order, self.len) + u16_bytes_in(order, self.typ)
    }

    /// The header that the first four bytes of `b` hold in byte order
    /// `order`.
    pub open spec fn parse_in(order: Endian, b: Seq<u8>) -> RtAttrHeader
        recommends
            b.len() >= 4,
    {
        RtAttrHeader { len: u16_in(order, b.subrange(0, 2)), typ: u16_in(order, b.subrange(2, 4)) }
    }

    /// What decoding a header from `b` gives: the header of its first four
    /// bytes, or a truncation where it has fewer.
    pub open spec fn decode_in(order: Endian, b: Seq<u8>) -> Result<RtAttrHeader, NetlinkError> {
        if b.len() < 4 {
            Err(NetlinkError::Truncated)
        } else {
            Ok(Self::parse_in(order, b))
        }
    }

    /// The number of bytes a header takes on the wire.
    pub fn size() -> (n: usize)
        ensures
            n == 4,
    {
        RTA_HDRLEN
    }

    /// The number of bytes that the length leaves for the value.
    pub fn data_size(&self) -> (n: usize)
        requires
            self.len >= 4,
        ensures
            n == self.len - 4,
    {
        self.len as usize - 4
    }

    /// Decodes the header at the start of `v`, in host byte order.
    pub fn from_bytes(v: &[u8]) -> (r: Result<RtAttrHeader, NetlinkError>)
        ensures
            r == Self::decode_in(endianness(), v@),
    {
        if v.len() < RtAttrHeader::size() {
            return Err(NetlinkError::Truncated);
        }
        let len = u16_from_ne([v[0], v[1]]);
        let typ = u16_from_ne([v[2], v[3]]);
        proof {
            assert(v@.subrange(0, 2) =~= seq![v@[0], v@[1]]);
            assert(v@.subrange(2, 4) =~= seq![v@[2], v@[3]]);
        }
        Ok(RtAttrHeader { len, typ })
    }
}

impl AttrView {
    /// The header's length says what the attribute holds: four bytes and
    /// the value.
    pub open spec fn consistent(self) -> bool {
        self.header.len == 4 + self.data.len()
    }

    /// The header followed by the value, in byte order `order`.
    pub open spec fn wire_in(self, order: Endian) -> Seq<u8> {
        self.header.wire_in(order) + self.data
    }

    /// The attribute on the wire followed by the zero bytes that bring the
    /// next one to the boundary.
    pub open spec fn padded_wire_in(self, order: Endian) -> Seq<u8> {
        self.wire_in(order) + zeros(padding(self.wire_in(order).len() as int))
    }

    /// What decoding one attribute at offset `idx` of `buf` gives.
    ///
    /// A truncation where fewer than four bytes remain at `idx` or where
    /// the length that the header declares reaches past the end of `buf`;
    /// invalid data where that length is below the header's own size; else
    /// the header with the bytes from the header's end to the declared
    /// length.
    #[verifier::opaque]
    pub open spec fn decode_one_in(order: Endian, buf: Seq<u8>, idx: int) -> Result<
        AttrView,
        NetlinkError,
    > {
        if buf.len() < idx + 4 {
            Err(NetlinkError::Truncated)
        } else {
            let header = RtAttrHeader::parse_in(order, buf.subrange(idx, idx + 4));
            if header.len < 4 {
                Err(NetlinkError::InvalidData)
            } else if buf.len() < idx + header.len {
                Err(NetlinkError::Truncated)
            } else {
                Ok(AttrView { header, data: buf.subrange(idx + 4, idx + header.len) })
            }
        }
    }

    /// What decoding every attribute of `buf` from offset `idx` on gives:
    /// the attributes in order, each found at the boundary after the one
    /// before it, or the first error.
    pub open spec fn decode_from_in(order: Endian, buf: Seq<u8>, idx: int) -> Result<
        Seq<AttrView>,
        NetlinkError,
    >
        decreases buf.len() + 3 - idx,
    {
        if idx < 0 || idx >= buf.len() {
            Ok(Seq::empty())
        } else {
            match Self::decode_one_in(order, buf, idx) {
                Err(e) => Err(e),
                Ok(a) => {
                    proof {
                        reveal(AttrView::decode_one_in);
                        crate::util::lemma_align_up(idx + a.header.len);
                    }
                    match Self::decode_from_in(order, buf, align_up(idx + a.header.len)) {
                        Err(e) => Err(e),
                        Ok(rest) => Ok(seq![a] + rest),
                    }
                },
            }
        }
    }

    /// What decoding the whole of `buf` gives.
    pub open spec fn decode_all_in(order: Endian, buf: Seq<u8>) -> Result<
        Seq<AttrView>,
        NetlinkError,
    > {
        Self::decode_from_in(order, buf, 0)
    }

    /// The value read as a 32-bit integer in host byte order: its first
    /// four bytes, or invalid data where it has fewer.
    pub open spec fn value_u32(self) -> Result<u32, NetlinkError> {
        if self.data.len() < 4 {
            Err(NetlinkError::InvalidData)
        } else {
            Ok(native_u32(self.data.subrange(0, 4)))
        }
    }

    /// The value read as a 16-bit integer in host byte order: its first two
    /// bytes, or invalid data where it has fewer.
    pub open spec fn value_u16(self) -> Result<u16, NetlinkError> {
        if self.data.len() < 2 {
            Err(NetlinkError::InvalidData)
        } else {
            Ok(native_u16(self.data.subrange(0, 2)))
        }
    }

    /// The value read as a flag: whether its first byte is one, or invalid
    /// data where it is empty.
    pub open spec fn value_bool(self) -> Result<bool, NetlinkError> {
        if self.data.len() == 0 {
            Err(NetlinkError::InvalidData)
        } else {
            Ok(self.data[0] == 1)
        }
    }

    /// Whether the value is text closed by a zero byte: it ends in one and
    /// holds no other.
    pub open spec fn is_terminated_text(self) -> bool {
        &&& self.data.len() > 0
        &&& self.data.last() == 0
        &&& forall|i: int| 0 <= i < self.data.len() - 1 ==> self.data[i] != 0
    }

    /// The value read as text: its bytes without the closing zero byte, or
    /// invalid data where it is not text closed by one.
    pub open spec fn value_text(self) -> Result<Seq<u8>, NetlinkError> {
        if self.is_terminated_text() {
            Ok(self.data.drop_last())
        } else {
            Err(NetlinkError::InvalidData)
        }
    }
}

/// `found` put in front of what the rest of a buffer decodes to.
pub open spec fn prepend_attrs(
    found: Seq<AttrView>,
    rest: Result<Seq<AttrView>, NetlinkError>,
) -> Result<Seq<AttrView>, NetlinkError> {
    match rest {
        Err(e) => Err(e),
        Ok(more) => Ok(found + more),
    }
}

/// Putting two runs in front, one after the other, puts their
/// concatenation in front.
pub proof fn lemma_prepend_attrs_twice(
    first: Seq<AttrView>,
    second: Seq<AttrView>,
    rest: Result<Seq<AttrView>, NetlinkError>,
)
    ensures
        prepend_attrs(first, prepend_attrs(second, rest)) == prepend_attrs(first + second, rest),
{
    match rest {
        Ok(more) => {
            assert(first + (second + more) =~= (first + second) + more);
        },
        Err(_) => {},
    }
}

/// Nothing is decoded from an offset at or past the end of the buffer.
pub proof fn lemma_attrs_past_end(order: Endian, buf: Seq<u8>, idx: int)
    ensures
        idx >= buf.len() ==> AttrView::decode_from_in(order, buf, idx) == Ok::<
            Seq<AttrView>,
            NetlinkError,
        >(Seq::empty()),
{
}

/// Where an attribute is decoded at `idx`, the buffer from `idx` on holds
/// that attribute and then what is decoded at the boundary after it.
pub proof fn lemma_attrs_step(order: Endian, buf: Seq<u8>, idx: int, a: AttrView)
    requires
        0 <= idx < buf.len(),
        AttrView::decode_one_in(order, buf, idx) == Ok::<AttrView, NetlinkError>(a),
    ensures
        AttrView::decode_from_in(order, buf, idx) == prepend_attrs(
            seq![a],
            AttrView::decode_from_in(order, buf, align_up(idx + a.header.len)),
        ),
        a.header.len >= 4,
        a.consistent(),
        idx + a.header.len <= buf.len(),
{
    reveal(AttrView::decode_one_in);
}

/// Encoding a header and decoding the bytes gives the header back, whatever
/// follows the four bytes.
pub proof fn lemma_attr_header_round_trip(order: Endian, h: RtAttrHeader, rest: Seq<u8>)
    ensures
        h.wire_in(order).len() == 4,
        RtAttrHeader::parse_in(order, h.wire_in(order) + rest) == h,
        RtAttrHeader::decode_in(order, h.wire_in(order) + rest) == Ok::<
            RtAttrHeader,
            NetlinkError,
        >(h),
{
    let e = Seq::<u8>::empty();
    crate::wire::lemma_u16_round_trip(order, h.len, e);
    crate::wire::lemma_u16_round_trip(order, h.typ, e);
    let b = h.wire_in(order) + rest;
    assert(b.subrange(0, 2) =~= u16_bytes_in(order, h.len));
    assert(b.subrange(2, 4) =~= u16_bytes_in(order, h.typ));
}

/// Encoding an attribute whose header states its true length and decoding
/// the bytes gives the attribute back, whatever follows it in the buffer.
pub proof fn lemma_attr_round_trip(order: Endian, a: AttrView, rest: Seq<u8>)
    requires
        a.consistent(),
    ensures
        a.wire_in(order).len() == a.header.len,
        AttrView::decode_one_in(order, a.wire_in(order) + rest, 0) == Ok::<
            AttrView,
            NetlinkError,
        >(a),
{
    reveal(AttrView::decode_one_in);
    let buf = a.wire_in(order) + rest;
    lemma_attr_header_round_trip(order, a.header, a.data + rest);
    assert(buf.subrange(0, 4) =~= a.header.wire_in(order));
    lemma_attr_header_round_trip(order, a.header, Seq::empty());
    assert(a.header.wire_in(order) + Seq::<u8>::empty() =~= a.header.wire_in(order));
    assert(buf.subrange(4, a.header.len as int) =~= a.data);
}

/// Decoding does not depend on what stands before the offset, as long as
/// that is a whole number of four-byte units.
pub proof fn lemma_attrs_shift(order: Endian, front: Seq<u8>, rest: Seq<u8>, idx: int)
    requires
        front.len() % 4 == 0,
        0 <= idx,
    ensures
        AttrView::decode_one_in(order, front + rest, front.len() + idx)
            == AttrView::decode_one_in(order, rest, idx),
        AttrView::decode_from_in(order, front + rest, front.len() + idx)
            == AttrView::decode_from_in(order, rest, idx),
    decreases rest.len() + 3 - idx,
{
    reveal(AttrView::decode_one_in);
    let buf = front + rest;
    let at = front.len() + idx;
    if rest.len() >= idx + 4 {
        assert(buf.subrange(at, at + 4) =~= rest.subrange(idx, idx + 4));
        let header = RtAttrHeader::parse_in(order, rest.subrange(idx, idx + 4));
        if header.len >= 4 && rest.len() >= idx + header.len {
            assert(buf.subrange(at + 4, at + header.len) =~= rest.subrange(
                idx + 4,
                idx + header.len,
            ));
        }
    }
    if idx < rest.len() {
        match AttrView::decode_one_in(order, rest, idx) {
            Ok(a) => {
                crate::util::lemma_align_up(idx + a.header.len);
                crate::util::lemma_align_up_shift(front.len() as int, idx + a.header.len);
                lemma_attrs_shift(order, front, rest, align_up(idx + a.header.len));
            },
            Err(_) => {},
        }
    }
}

/// A buffer that starts with an encoded attribute, padded to the boundary,
/// decodes to that attribute followed by what the rest of the buffer
/// decodes to.
pub proof fn lemma_attrs_front(order: Endian, a: AttrView, rest: Seq<u8>)
    requires
        a.consistent(),
    ensures
        AttrView::decode_all_in(order, a.padded_wire_in(order) + rest) == prepend_attrs(
            seq![a],
            AttrView::decode_all_in(order, rest),
        ),
{
    let wire = a.wire_in(order);
    let pad = zeros(padding(wire.len() as int));
    let front = a.padded_wire_in(order);
    let buf = front + rest;
    let next = align_up(a.header.len as int);
    assert(wire.len() == a.header.len && AttrView::decode_one_in(order, buf, 0) == Ok::<
        AttrView,
        NetlinkError,
    >(a)) by {
        lemma_attr_round_trip(order, a, pad + rest);
        assert(buf =~= wire + (pad + rest));
    }
    assert(front.len() == next && next % 4 == 0) by {
        crate::util::lemma_align_up(wire.len() as int);
    }
    assert(AttrView::decode_from_in(order, buf, 0) == prepend_attrs(
        seq![a],
        AttrView::decode_from_in(order, buf, next),
    )) by {
        lemma_attrs_step(order, buf, 0, a);
    }
    assert(AttrView::decode_from_in(order, buf, next) == AttrView::decode_from_in(
        order,
        rest,
        0,
    )) by {
        lemma_attrs_shift(order, front, rest, 0);
    }
}

/// A buffer that ends inside an attribute is rejected as truncated:
/// decoding the first `keep` bytes of an encoded attribute fails so for
/// every `keep` from one byte up to one short of header and value.
pub proof fn lemma_cut_attr_is_truncated(order: Endian, a: AttrView, keep: int)
    requires
        a.consistent(),
        0 < keep < a.header.len,
    ensures
        AttrView::decode_one_in(order, a.wire_in(order).take(keep), 0) == Err::<
            AttrView,
            NetlinkError,
        >(NetlinkError::Truncated),
        AttrView::decode_all_in(order, a.wire_in(order).take(keep)) == Err::<
            Seq<AttrView>,
            NetlinkError,
        >(NetlinkError::Truncated),
{
    reveal(AttrView::decode_one_in);
    let wire = a.wire_in(order);
    let buf = wire.take(keep);
    lemma_attr_header_round_trip(order, a.header, a.data);
    if keep >= 4 {
        assert(buf.subrange(0, 4) =~= a.header.wire_in(order));
        lemma_attr_header_round_trip(order, a.header, Seq::empty());
        assert(a.header.wire_in(order) + Seq::<u8>::empty() =~= a.header.wire_in(order));
    }
}

impl RtAttr {
    /// An attribute of type `typ` with the value `data`. Its length covers
    /// the header and the value.
    pub fn new(typ: u16, data: Vec<u8>) -> (a: RtAttr)
        requires
            4 + data@.len() <= u16::MAX,
        ensures
            a@ == (AttrView {
                header: RtAttrHeader { len: (4 + data@.len()) as u16, typ },
                data: data@,
            }),
            a@.consistent(),
    {
        RtAttr { header: RtAttrHeader { len: 0x4 + data.len() as u16, typ: typ }, data: data }
    }

    /// Appends the bytes of `data` to the value, followed by the zero bytes
    /// that bring them to the boundary, and adds the length of both to the
    /// header.
    pub fn add_data<S: Serializable>(&mut self, data: &S)
        requires
            data.encodable(),
            old(self).header.len + align_up(data.serialized().len() as int) <= u16::MAX,
        ensures
            final(self).data@ == old(self).data@ + data.serialized() + zeros(
                padding(data.serialized().len() as int),
            ),
            final(self).header == (RtAttrHeader {
                len: (old(self).header.len + align_up(data.serialized().len() as int)) as u16,
                typ: old(self).header.typ,
            }),
            old(self)@.consistent() ==> final(self)@.consistent(),
    {
        let mut d = data.to_bytes();
        proof {
            crate::util::lemma_align_up(d@.len() as int);
        }
        let l = d.len();
        let aligned_len = align(l);
        let padding = aligned_len - l;
        let ghost start = self.data@ + d@;

        self.data.append(&mut d);
        let mut i: usize = 0;
        while i < padding
            invariant
                i <= padding,
                self.data@ == start + zeros(i as int),
                self.header == old(self).header,
            decreases padding - i,
        {
            self.data.push(0);
            i += 1;
            assert(self.data@ =~= start + zeros(i as int));
        }
        self.header.len += aligned_len as u16;
    }

    /// The type of the attribute.
    pub fn get_typ(&self) -> (t: u16)
        ensures
            t == self.header.typ,
    {
        self.header.typ
    }

    /// The value as a 32-bit integer in host byte order.
    pub fn as_u32(&self) -> (r: Result<u32, NetlinkError>)
        ensures
            r == self@.value_u32(),
    {
        if self.data.len() < 4 {
            return Err(NetlinkError::InvalidData);
        }
        let d: [u8; 4] = [self.data[0], self.data[1], self.data[2], self.data[3]];
        assert(self.data@.subrange(0, 4) =~= d@);
        Ok(u32_from_ne(d))
    }

    /// The value as a 16-bit integer in host byte order.
    pub fn as_u16(&self) -> (r: Result<u16, NetlinkError>)
        ensures
            r == self@.value_u16(),
    {
        if self.data.len() < 2 {
            return Err(NetlinkError::InvalidData);
        }
        let d: [u8; 2] = [self.data[0], self.data[1]];
        assert(self.data@.subrange(0, 2) =~= d@);
        Ok(u16_from_ne(d))
    }

    /// The value as a flag.
    pub fn as_bool(&self) -> (r: Result<bool, NetlinkError>)
        ensures
            r == self@.value_bool(),
    {
        if self.data.len() == 0 {
            return Err(NetlinkError::InvalidData);
        }
        Ok(self.data[0] == 1)
    }

    /// The value as text: its bytes up to the zero byte that closes it.
    pub fn to_cstring(&self) -> (r: Result<Vec<u8>, NetlinkError>)
        ensures
            match r {
                Ok(text) => self@.value_text() == Ok::<Seq<u8>, NetlinkError>(text@),
                Err(e) => self@.value_text() == Err::<Seq<u8>, NetlinkError>(e),
            },
    {
        let n = self.data.len();
        if n == 0 || self.data[n - 1] != 0 {
            return Err(NetlinkError::InvalidData);
        }
        let mut text: Vec<u8> = Vec::new();
        let mut i: usize = 0;
        while i < n - 1
            invariant
                n == self.data@.len(),
                n > 0,
                i <= n - 1,
                text@ == self.data@.subrange(0, i as int),
                forall|j: int| 0 <= j < i ==> self.data@[j] != 0,
            decreases n - i,
        {
            let byte = self.data[i];
            if byte == 0 {
                return Err(NetlinkError::InvalidData);
            }
            text.push(byte);
            i += 1;
            assert(text@ =~= self.data@.subrange(0, i as int));
        }
        assert(self.data@.subrange(0, n - 1) =~= self.data@.drop_last());
        Ok(text)
    }

    /// Decodes the attribute at offset `idx` of `v`, in host byte order.
    pub fn one_from_bytes(v: &[u8], idx: usize) -> (r: Result<RtAttr, NetlinkError>)
        ensures
            match r {
                Ok(a) => AttrView::decode_one_in(endianness(), v@, idx as int) == Ok::<
                    AttrView,
                    NetlinkError,
                >(a@),
                Err(e) => AttrView::decode_one_in(endianness(), v@, idx as int) == Err::<
                    AttrView,
                    NetlinkError,
                >(e),
            },
            r is Ok ==> r->Ok_0@.consistent(),
    {
        proof {
            reveal(AttrView::decode_one_in);
        }
        let n = v.len();
        if idx > n || n - idx < RtAttrHeader::size() {
            return Err(NetlinkError::Truncated);
        }
        let header = match RtAttrHeader::from_bytes(
            slice_subrange(v, idx, idx + RtAttrHeader::size()),
        ) {
            Ok(header) => header,
            Err(e) => {
                return Err(e);
            },
        };
        let header_len = header.len as usize;
        if header_len < RtAttrHeader::size() {
            return Err(NetlinkError::InvalidData);
        }
        if n - idx < header_len {
            return Err(NetlinkError::Truncated);
        }
        // the leftover data is [idx + header .. idx + len]
        let attr = RtAttr {
            header: header,
            data: slice_to_vec(slice_subrange(v, idx + RtAttrHeader::size(), idx + header_len)),
        };
        Ok(attr)
    }

    /// Decodes the attributes that fill `v`, in host byte order.
    pub fn from_bytes(v: &[u8]) -> (r: Result<Vec<RtAttr>, NetlinkError>)
        ensures
            match r {
                Ok(attrs) => AttrView::decode_all_in(endianness(), v@) == Ok::<
                    Seq<AttrView>,
                    NetlinkError,
                >(attr_views(attrs@)),
                Err(e) => AttrView::decode_all_in(endianness(), v@) == Err::<
                    Seq<AttrView>,
                    NetlinkError,
                >(e),
            },
    {
        let mut idx: usize = 0;
        let mut res: Vec<RtAttr> = Vec::new();
        let len = v.len();
        assert(attr_views(res@) =~= Seq::empty());
        while idx < len
            invariant
                len == v@.len(),
                AttrView::decode_all_in(endianness(), v@) == prepend_attrs(
                    attr_views(res@),
                    AttrView::decode_from_in(endianness(), v@, idx as int),
                ),
            decreases len - idx,
        {
            let msg = match RtAttr::one_from_bytes(v, idx) {
                Ok(msg) => msg,
                Err(e) => {
                    return Err(e);
                },
            };
            proof {
                lemma_attrs_step(endianness(), v@, idx as int, msg@);
            }
            let end: usize = idx + msg.header.len as usize;
            let next = align_within(end, len);
            proof {
                let order = endianness();
                let before = attr_views(res@);
                lemma_attrs_past_end(order, v@, align_up(end as int));
                lemma_attrs_past_end(order, v@, next as int);
                lemma_prepend_attrs_twice(
                    before,
                    seq![msg@],
                    AttrView::decode_from_in(order, v@, next as int),
                );
                assert(attr_views(res@.push(msg)) =~= before + seq![msg@]);
            }
            res.push(msg);
            idx = next;
        }
        proof {
            lemma_attrs_past_end(endianness(), v@, idx as int);
            assert(attr_views(res@) + Seq::<AttrView>::empty() =~= attr_views(res@));
        }
        Ok(res)
    }
}

impl Serializable for RtAttr {
    open spec fn encodable(&self) -> bool {
        true
    }

    /// The header, the value, and the zero bytes that bring the two to the
    /// boundary.
    open spec fn serialized(&self) -> Seq<u8> {
        self@.padded_wire_in(endianness())
    }

    fn to_bytes(&self) -> (out: Vec<u8>) {
        let mut out: Vec<u8> = Vec::with_capacity(self.header.len as usize);
        push_u16(&mut out, self.header.len);
        push_u16(&mut out, self.header.typ);
        let ghost head = out@;
        let mut i: usize = 0;
        while i < self.data.len()
            invariant
                i <= self.data@.len(),
                out@ == head + self.data@.subrange(0, i as int),
            decreases self.data@.len() - i,
        {
            out.push(self.data[i]);
            i += 1;
            assert(out@ =~= head + self.data@.subrange(0, i as int));
        }
        assert(self.data@.subrange(0, i as int) =~= self.data@);
        let ghost wire = out@;
        proof {
            crate::util::lemma_align_up_remainder(wire.len() as int);
        }
        let rem: usize = out.len() % 4;
        let pad: usize = if rem == 0 {
            0
        } else {
            4 - rem
        };
        let mut j: usize = 0;
        while j < pad
            invariant
                j <= pad,
                out@ == wire + zeros(j as int),
            decreases pad - j,
        {
            out.push(0);
            j += 1;
            assert(out@ =~= wire + zeros(j as int));
        }
        out
    }
}

} // verus!
