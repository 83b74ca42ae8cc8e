//! The fixed header of a netlink message, the message itself, and the
//! splitting of a receive buffer into the messages it holds.

use crate::error::NetlinkError;
use crate::util::{align, align_up, align_within, padding, zeros};
use crate::wire::{
    u16_bytes_in, u16_from_ne, u16_in, u16_to_ne, u32_bytes_in, u32_from_ne, u32_in, u32_to_ne,
};
use crate::Serializable;
use vstd::endian::{endianness, Endian};
use vstd::prelude::*;
use vstd::slice::{slice_subrange, slice_to_vec};

verus! {

/// The number of bytes a header takes on the wire.
pub const NLMSG_HDRLEN: usize = 16;

/// The preamble of every netlink message.
#[derive(Debug, Clone, Copy, PartialEq, Eq, Structural)]
pub struct NetlinkHeader {
    /// The length of the message in bytes, this header included.
    pub len: u32,
    /// What the message is.
    pub typ: u16,
    /// The flags of the request or the response.
    pub flags: u16,
    /// The sequence number that ties a response to its request.
    pub seq: u32,
    /// The port id of the sending or the receiving socket.
    pub pid: u32,
}

impl NetlinkHeader {
    /// The sixteen bytes of the header in byte order `order`.
    pub open spec fn wire_in(self, order: Endian) -> Seq<u8> {
        u32_bytes_in(order, self.len) + u16_bytes_in(order, self.typ) + u16_bytes_in(
            order,
            self.flags,
        ) + u32_bytes_in(order, self.seq) + u32_bytes_in(order, self.pid)
    }

    /// The header that the first sixteen bytes of `b` hold in byte order
    /// `order`.
    pub open spec fn parse_in(order: Endian, b: Seq<u8>) -> NetlinkHeader
        recommends
            b.len() >= 16,
    {
        NetlinkHeader {
            len: u32_in(order, b.subrange(0, 4)),
            typ: u16_in(order, b.subrange(4, 6)),
            flags: u16_in(order, b.subrange(6, 8)),
            seq: u32_in(order, b.subrange(8, 12)),
            pid: u32_in(order, b.subrange(12, 16)),
        }
    }

    /// What decoding a header from `b` gives: the header of its first
    /// sixteen bytes, or a truncation where it has fewer.
    pub open spec fn decode_in(order: Endian, b: Seq<u8>) -> Result<NetlinkHeader, NetlinkError> {
        if b.len() < 16 {
            Err(NetlinkError::Truncated)
        } else {
            Ok(Self::parse_in(order, b))
        }
    }

    /// Decodes the header at the start of `v`, in host byte order.
    pub fn from_bytes(v: &[u8]) -> (r: Result<NetlinkHeader, NetlinkError>)
        ensures
            r == Self::decode_in(endianness(), v@),
    {
        if v.len() < NetlinkHeader::size() {
            return Err(NetlinkError::Truncated);
        }
        let len = u32_from_ne([v[0], v[1], v[2], v[3]]);
        let typ = u16_from_ne([v[4], v[5]]);
        let flags = u16_from_ne([v[6], v[7]]);
        let seq = u32_from_ne([v[8], v[9], v[10], v[11]]);
        let pid = u32_from_ne([v[12], v[13], v[14], v[15]]);
        proof {
            assert(v@.subrange(0, 4) =~= seq![v@[0], v@[1], v@[2], v@[3]]);
            assert(v@.subrange(4, 6) =~= seq![v@[4], v@[5]]);
            assert(v@.subrange(6, 8) =~= seq![v@[6], v@[7]]);
            assert(v@.subrange(8, 12) =~= seq![v@[8], v@[9], v@[10], v@[11]]);
            assert(v@.subrange(12, 16) =~= seq![v@[12], v@[13], v@[14], v@[15]]);
        }
        Ok(NetlinkHeader { len, typ, flags, seq, pid })
    }

    /// The number of bytes a header takes on the wire.
    pub fn size() -> (n: usize)
        ensures
            n == 16,
    {
        NLMSG_HDRLEN
    }
}

impl Serializable for NetlinkHeader {
    /// A header can be written once its length covers the header itself.
    open spec fn encodable(&self) -> bool {
        self.len >= 16
    }

    open spec fn serialized(&self) -> Seq<u8> {
        self.wire_in(endianness())
    }

    /// The sixteen bytes of the header in host byte order, in a vector with
    /// room for the whole message.
    fn to_bytes(&self) -> (out: Vec<u8>) {
        let mut out: Vec<u8> = Vec::with_capacity(self.len as usize);
        push_u32(&mut out, self.len);
        push_u16(&mut out, self.typ);
        push_u16(&mut out, self.flags);
        push_u32(&mut out, self.seq);
        push_u32(&mut out, self.pid);
        out
    }
}

/// A single netlink message, sent or received over the socket.
#[derive(Debug, Clone)]
pub struct NetlinkMessage {
    /// The header; its `len` covers the header and the payload.
    pub header: NetlinkHeader,
    /// The payload that follows the header.
    pub data: Vec<u8>,
}

/// What a message is: its header and the bytes of its payload.
pub struct MessageView {
    pub header: NetlinkHeader,
    pub data: Seq<u8>,
}

impl View for NetlinkMessage {
    type V = MessageView;

    open spec fn view(&self) -> MessageView {
        MessageView { header: self.header, data: self.data@ }
    }
}

/// The views of a run of messages, in order.
pub open spec fn message_views(msgs: Seq<NetlinkMessage>) -> Seq<MessageView> {
    msgs.map_values(|m: NetlinkMessage| m@)
}

impl MessageView {
    /// The header's length says what the message holds: sixteen bytes and
    /// the payload.
    pub open spec fn consistent(self) -> bool {
        self.header.len == 16 + self.data.len()
    }

    /// The header followed by the payload, in byte order `order`.
    pub open spec fn wire_in(self, order: Endian) -> Seq<u8> {
        self.header.wire_in(order) + self.data
    }

    /// The message on the wire followed by the zero bytes that bring the
    /// next one to the boundary.
    pub open spec fn padded_wire_in(self, order: Endian) -> Seq<u8> {
        self.wire_in(order) + zeros(padding(self.wire_in(order).len() as int))
    }

    /// What decoding one message at offset `idx` of `buf` gives.
    ///
    /// A truncation where fewer than sixteen bytes remain at `idx` or where
    /// the length that the header declares reaches past the end of `buf`;
    /// invalid data where that length is below the header's own size; else
    /// the header with the bytes from the header's end to the declared
    /// length.
    #[verifier::opaque]
    pub open spec fn decode_one_in(order: Endian, buf: Seq<u8>, idx: int) -> Result<
        MessageView,
        NetlinkError,
    > {
        if buf.len() < idx + 16 {
            Err(NetlinkError::Truncated)
        } else {
            let header = NetlinkHeader::parse_in(order, buf.subrange(idx, idx + 16));
            if header.len < 16 {
                Err(NetlinkError::InvalidData)
            } else if buf.len() < idx + header.len {
                Err(NetlinkError::Truncated)
            } else {
                Ok(MessageView { header, data: buf.subrange(idx + 16, idx + header.len) })
            }
        }
    }

    /// What decoding every message of `buf` from offset `idx` on gives: the
    /// messages in order, each found at the boundary after the one before
    /// it, or the first error.
    pub open spec fn decode_from_in(order: Endian, buf: Seq<u8>, idx: int) -> Result<
        Seq<MessageView>,
        NetlinkError,
    >
        decreases buf.len() + 3 - idx,
    {
        if idx < 0 || idx >= buf.len() {
            Ok(Seq::empty())
        } else {
            match Self::decode_one_in(order, buf, idx) {
                Err(e) => Err(e),
                Ok(m) => {
                    proof {
                        reveal(MessageView::decode_one_in);
                        crate::util::lemma_align_up(idx + m.header.len);
                    }
                    match Self::decode_from_in(order, buf, align_up(idx + m.header.len)) {
                        Err(e) => Err(e),
                        Ok(rest) => Ok(seq![m] + rest),
                    }
                },
            }
        }
    }

    /// What splitting the whole of `buf` gives.
    pub open spec fn decode_all_in(order: Endian, buf: Seq<u8>) -> Result<
        Seq<MessageView>,
        NetlinkError,
    > {
        Self::decode_from_in(order, buf, 0)
    }
}

/// `found` put in front of what the rest of a buffer decodes to.
pub open spec fn prepend_messages(
    found: Seq<MessageView>,
    rest: Result<Seq<MessageView>, NetlinkError>,
) -> Result<Seq<MessageView>, NetlinkError> {
    match rest {
        Err(e) => Err(e),
        Ok(more) => Ok(found + more),
    }
}

/// Putting two runs in front, one after the other, puts their
/// concatenation in front.
pub proof fn lemma_prepend_twice(
    first: Seq<MessageView>,
    second: Seq<MessageView>,
    rest: Result<Seq<MessageView>, NetlinkError>,
)
    ensures
        prepend_messages(first, prepend_messages(second, rest)) == prepend_messages(
            first + second,
            rest,
        ),
{
    match rest {
        Ok(more) => {
            assert(first + (second + more) =~= (first + second) + more);
        },
        Err(_) => {},
    }
}

/// Nothing is decoded from an offset at or past the end of the buffer.
pub proof fn lemma_decode_past_end(order: Endian, buf: Seq<u8>, idx: int)
    ensures
        idx >= buf.len() ==> MessageView::decode_from_in(order, buf, idx) == Ok::<
            Seq<MessageView>,
            NetlinkError,
        >(Seq::empty()),
{
}

/// Where a message is decoded at `idx`, the buffer from `idx` on holds that
/// message and then what is decoded at the boundary after it.
pub proof fn lemma_decode_step(order: Endian, buf: Seq<u8>, idx: int, m: MessageView)
    requires
        0 <= idx < buf.len(),
        MessageView::decode_one_in(order, buf, idx) == Ok::<MessageView, NetlinkError>(m),
    ensures
        MessageView::decode_from_in(order, buf, idx) == prepend_messages(
            seq![m],
            MessageView::decode_from_in(order, buf, align_up(idx + m.header.len)),
        ),
        m.header.len >= 16,
        m.consistent(),
        idx + m.header.len <= buf.len(),
{
    reveal(MessageView::decode_one_in);
}

/// Encoding a header and decoding the bytes gives the header back, field
/// for field, whatever follows the sixteen bytes.
pub proof fn lemma_header_round_trip(order: Endian, h: NetlinkHeader, rest: Seq<u8>)
    ensures
        h.wire_in(order).len() == 16,
        NetlinkHeader::parse_in(order, h.wire_in(order) + rest) == h,
        NetlinkHeader::decode_in(order, h.wire_in(order) + rest) == Ok::<
            NetlinkHeader,
            NetlinkError,
        >(h),
{
    let e = Seq::<u8>::empty();
    crate::wire::lemma_u32_round_trip(order, h.len, e);
    crate::wire::lemma_u16_round_trip(order, h.typ, e);
    crate::wire::lemma_u16_round_trip(order, h.flags, e);
    crate::wire::lemma_u32_round_trip(order, h.seq, e);
    crate::wire::lemma_u32_round_trip(order, h.pid, e);
    let b = h.wire_in(order) + rest;
    assert(b.subrange(0, 4) =~= u32_bytes_in(order, h.len));
    assert(b.subrange(4, 6) =~= u16_bytes_in(order, h.typ));
    assert(b.subrange(6, 8) =~= u16_bytes_in(order, h.flags));
    assert(b.subrange(8, 12) =~= u32_bytes_in(order, h.seq));
    assert(b.subrange(12, 16) =~= u32_bytes_in(order, h.pid));
}

/// Encoding a message whose header states its true length and decoding the
/// bytes gives the message back, whatever follows it in the buffer.
pub proof fn lemma_message_round_trip(order: Endian, m: MessageView, rest: Seq<u8>)
    requires
        m.consistent(),
    ensures
        m.wire_in(order).len() == m.header.len,
        MessageView::decode_one_in(order, m.wire_in(order) + rest, 0) == Ok::<
            MessageView,
            NetlinkError,
        >(m),
{
    reveal(MessageView::decode_one_in);
    let buf = m.wire_in(order) + rest;
    lemma_header_round_trip(order, m.header, m.data + rest);
    assert(buf.subrange(0, 16) =~= m.header.wire_in(order));
    lemma_header_round_trip(order, m.header, Seq::empty());
    assert(m.header.wire_in(order) + Seq::<u8>::empty() =~= m.header.wire_in(order));
    assert(buf.subrange(16, m.header.len as int) =~= m.data);
}

/// Decoding does not depend on what stands before the offset, as long as
/// that is a whole number of four-byte units.
pub proof fn lemma_decode_shift(order: Endian, front: Seq<u8>, rest: Seq<u8>, idx: int)
    requires
        front.len() % 4 == 0,
        0 <= idx,
    ensures
        MessageView::decode_one_in(order, front + rest, front.len() + idx)
            == MessageView::decode_one_in(order, rest, idx),
        MessageView::decode_from_in(order, front + rest, front.len() + idx)
            == MessageView::decode_from_in(order, rest, idx),
    decreases rest.len() + 3 - idx,
{
    reveal(MessageView::decode_one_in);
    let buf = front + rest;
    let at = front.len() + idx;
    if rest.len() >= idx + 16 {
        assert(buf.subrange(at, at + 16) =~= rest.subrange(idx, idx + 16));
        let header = NetlinkHeader::parse_in(order, rest.subrange(idx, idx + 16));
        if header.len >= 16 && rest.len() >= idx + header.len {
            assert(buf.subrange(at + 16, at + header.len) =~= rest.subrange(
                idx + 16,
                idx + header.len,
            ));
        }
    }
    if idx < rest.len() {
        match MessageView::decode_one_in(order, rest, idx) {
            Ok(m) => {
                crate::util::lemma_align_up(idx + m.header.len);
                crate::util::lemma_align_up_shift(front.len() as int, idx + m.header.len);
                lemma_decode_shift(order, front, rest, align_up(idx + m.header.len));
            },
            Err(_) => {},
        }
    }
}

/// A buffer that starts with an encoded message, padded to the boundary,
/// decodes to that message followed by what the rest of the buffer decodes
/// to.
pub proof fn lemma_decode_front(order: Endian, m: MessageView, rest: Seq<u8>)
    requires
        m.consistent(),
    ensures
        MessageView::decode_all_in(order, m.padded_wire_in(order) + rest) == prepend_messages(
            seq![m],
            MessageView::decode_all_in(order, rest),
        ),
{
    let wire = m.wire_in(order);
    let pad = zeros(padding(wire.len() as int));
    let front = m.padded_wire_in(order);
    let buf = front + rest;
    let next = align_up(m.header.len as int);
    assert(wire.len() == m.header.len && MessageView::decode_one_in(order, buf, 0) == Ok::<
        MessageView,
        NetlinkError,
    >(m)) by {
        lemma_message_round_trip(order, m, pad + rest);
        assert(buf =~= wire + (pad + rest));
    }
    assert(front.len() == next && next % 4 == 0) by {
        crate::util::lemma_align_up(wire.len() as int);
    }
    assert(MessageView::decode_from_in(order, buf, 0) == prepend_messages(
        seq![m],
        MessageView::decode_from_in(order, buf, next),
    )) by {
        lemma_decode_step(order, buf, 0, m);
    }
    assert(MessageView::decode_from_in(order, buf, next) == MessageView::decode_from_in(
        order,
        rest,
        0,
    )) by {
        lemma_decode_shift(order, front, rest, 0);
    }
}

/// A buffer made of two encoded messages, each padded to the boundary,
/// splits into exactly those two messages, headers and payloads unchanged.
pub proof fn lemma_split_two(order: Endian, first: MessageView, second: MessageView)
    requires
        first.consistent(),
        second.consistent(),
    ensures
        MessageView::decode_all_in(
            order,
            first.padded_wire_in(order) + second.padded_wire_in(order),
        ) == Ok::<Seq<MessageView>, NetlinkError>(seq![first, second]),
{
    let empty = Seq::<u8>::empty();
    let none = Seq::<MessageView>::empty();
    let tail = second.padded_wire_in(order);
    assert(tail + empty =~= tail);
    assert(MessageView::decode_all_in(order, tail) == Ok::<Seq<MessageView>, NetlinkError>(
        seq![second],
    )) by {
        lemma_decode_front(order, second, empty);
        lemma_decode_past_end(order, empty, 0);
        assert(seq![second] + none =~= seq![second]);
    }
    assert(MessageView::decode_all_in(order, first.padded_wire_in(order) + tail) == Ok::<
        Seq<MessageView>,
        NetlinkError,
    >(seq![first, second])) by {
        lemma_decode_front(order, first, tail);
        assert(seq![first] + seq![second] =~= seq![first, second]);
    }
}

/// A buffer that ends inside a message is rejected as truncated: decoding
/// the first `keep` bytes of an encoded message fails so for every `keep`
/// from one byte up to one short of the whole.
pub proof fn lemma_cut_message_is_truncated(order: Endian, m: MessageView, keep: int)
    requires
        m.consistent(),
        0 < keep < m.header.len,
    ensures
        MessageView::decode_one_in(order, m.wire_in(order).take(keep), 0) == Err::<
            MessageView,
            NetlinkError,
        >(NetlinkError::Truncated),
        MessageView::decode_all_in(order, m.wire_in(order).take(keep)) == Err::<
            Seq<MessageView>,
            NetlinkError,
        >(NetlinkError::Truncated),
{
    reveal(MessageView::decode_one_in);
    let wire = m.wire_in(order);
    let buf = wire.take(keep);
    lemma_header_round_trip(order, m.header, m.data);
    if keep >= 16 {
        assert(buf.subrange(0, 16) =~= m.header.wire_in(order));
        lemma_header_round_trip(order, m.header, Seq::empty());
        assert(m.header.wire_in(order) + Seq::<u8>::empty() =~= m.header.wire_in(order));
    }
}

impl NetlinkMessage {
    /// A message of type `typ` with flags `flags` and no payload. The
    /// sequence number is set when the message is sent, the port id by the
    /// kernel.
    pub fn new(typ: u16, flags: u16) -> (m: NetlinkMessage)
        ensures
            m@ == (MessageView {
                header: NetlinkHeader { len: 16, typ, flags, seq: 0, pid: 0 },
                data: Seq::empty(),
            }),
    {
        NetlinkMessage {
            header: NetlinkHeader {
                len: NetlinkHeader::size() as u32,
                typ: typ,
                flags: flags,
                seq: 0,
                pid: 0,
            },
            data: Vec::new(),
        }
    }

    /// Splits a receive buffer into the messages it holds, in host byte
    /// order.
    pub fn from_bytes(v: &[u8]) -> (r: Result<Vec<NetlinkMessage>, NetlinkError>)
        ensures
            match r {
                Ok(msgs) => MessageView::decode_all_in(endianness(), v@) == Ok::<
                    Seq<MessageView>,
                    NetlinkError,
                >(message_views(msgs@)),
                Err(e) => MessageView::decode_all_in(endianness(), v@) == Err::<
                    Seq<MessageView>,
                    NetlinkError,
                >(e),
            },
    {
        let mut idx: usize = 0;
        let mut res: Vec<NetlinkMessage> = Vec::new();
        let len = v.len();
        assert(message_views(res@) =~= Seq::empty());
        while idx < len
            invariant
                len == v@.len(),
                MessageView::decode_all_in(endianness(), v@) == prepend_messages(
                    message_views(res@),
                    MessageView::decode_from_in(endianness(), v@, idx as int),
                ),
            decreases len - idx,
        {
            let msg = match NetlinkMessage::one_from_bytes(v, idx) {
                Ok(msg) => msg,
                Err(e) => {
                    return Err(e);
                },
            };
            proof {
                lemma_decode_step(endianness(), v@, idx as int, msg@);
            }
            let end: usize = idx + msg.header.len as usize;
            let next = align_within(end, len);
            proof {
                let order = endianness();
                let before = message_views(res@);
                lemma_decode_past_end(order, v@, align_up(end as int));
                lemma_decode_past_end(order, v@, next as int);
                lemma_prepend_twice(
                    before,
                    seq![msg@],
                    MessageView::decode_from_in(order, v@, next as int),
                );
                assert(message_views(res@.push(msg)) =~= before + seq![msg@]);
            }
            res.push(msg);
            idx = next;
        }
        proof {
            lemma_decode_past_end(endianness(), v@, idx as int);
            assert(message_views(res@) + Seq::<MessageView>::empty() =~= message_views(res@));
        }
        Ok(res)
    }

    /// Decodes the message at offset `idx` of `v`, in host byte order.
    pub fn one_from_bytes(v: &[u8], idx: usize) -> (r: Result<NetlinkMessage, NetlinkError>)
        ensures
            match r {
                Ok(m) => MessageView::decode_one_in(endianness(), v@, idx as int) == Ok::<
                    MessageView,
                    NetlinkError,
                >(m@),
                Err(e) => MessageView::decode_one_in(endianness(), v@, idx as int) == Err::<
                    MessageView,
                    NetlinkError,
                >(e),
            },
            r is Ok ==> r->Ok_0@.consistent(),
    {
        proof {
            reveal(MessageView::decode_one_in);
        }
        let n = v.len();
        if idx > n || n - idx < NetlinkHeader::size() {
            return Err(NetlinkError::Truncated);
        }
        // read the header pointing at idx
        let header = match NetlinkHeader::from_bytes(
            slice_subrange(v, idx, idx + NetlinkHeader::size()),
        ) {
            Ok(header) => header,
            Err(e) => {
                return Err(e);
            },
        };
        let header_len = header.len as usize;
        if header_len < NetlinkHeader::size() {
            return Err(NetlinkError::InvalidData);
        }
        if n - idx < header_len {
            return Err(NetlinkError::Truncated);
        }
        // the leftover data is [idx + header .. idx + len]
        let pkt = NetlinkMessage {
            header: header,
            data: slice_to_vec(slice_subrange(v, idx + NetlinkHeader::size(), idx + header_len)),
        };
        Ok(pkt)
    }

    /// Adds raw data to the payload, followed by the zero bytes that bring
    /// it to the boundary, and adds the length of both to the header.
    pub fn add_data(&mut self, mut d: Vec<u8>)
        requires
            old(self).header.len + align_up(d@.len() as int) <= u32::MAX,
        ensures
            final(self).data@ == old(self).data@ + d@ + zeros(padding(d@.len() as int)),
            final(self).header == (NetlinkHeader {
                len: (old(self).header.len + align_up(d@.len() as int)) as u32,
                ..old(self).header
            }),
            old(self)@.consistent() ==> final(self)@.consistent(),
    {
        proof {
            crate::util::lemma_align_up(d@.len() as int);
        }
        let l = d.len();
        let aligned_len = align(l);
        let padding = aligned_len - l;
        let ghost start = self.data@ + d@;

        // Netlink messages are always aligned; pad with zeroes.
        self.data.append(&mut d);
        let mut i: usize = 0;
        while i < padding
            invariant
                i <= padding,
                self.data@ == start + zeros(i as int),
                self.header == old(self).header,
            decreases padding - i,
        {
            self.data.push(0);
            i += 1;
            assert(self.data@ =~= start + zeros(i as int));
        }
        self.header.len += aligned_len as u32;
    }
}

impl Serializable for NetlinkMessage {
    /// A message can be written once its header can.
    open spec fn encodable(&self) -> bool {
        self.header.len >= 16
    }

    open spec fn serialized(&self) -> Seq<u8> {
        self@.wire_in(endianness())
    }

    /// The header followed by the payload.
    fn to_bytes(&self) -> (out: Vec<u8>) {
        let mut out = self.header.to_bytes();
        let ghost head = out@;
        let mut i: usize = 0;
        while i < self.data.len()
            invariant
                i <= self.data@.len(),
                out@ == head + self.data@.subrange(0, i as int),
            decreases self.data@.len() - i,
        {
            out.push(self.data[i]);
            i += 1;
            assert(out@ =~= head + self.data@.subrange(0, i as int));
        }
        assert(self.data@.subrange(0, i as int) =~= self.data@);
        out
    }
}

/// Appends the two bytes of `x` in host byte order.
pub(crate) fn push_u16(out: &mut Vec<u8>, x: u16)
    ensures
        final(out)@ == old(out)@ + u16_bytes_in(endianness(), x),
{
    let b = u16_to_ne(x);
    out.push(b[0]);
    out.push(b[1]);
    assert(out@ =~= old(out)@ + b@);
}

/// Appends the four bytes of `x` in host byte order.
pub(crate) fn push_u32(out: &mut Vec<u8>, x: u32)
    ensures
        final(out)@ == old(out)@ + u32_bytes_in(endianness(), x),
{
    let b = u32_to_ne(x);
    out.push(b[0]);
    out.push(b[1]);
    out.push(b[2]);
    out.push(b[3]);
    assert(out@ =~= old(out)@ + b@);
}

} // verus!
