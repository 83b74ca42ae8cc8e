//! One exchange with the kernel: a request goes out under the session's
//! next sequence number, and what comes back is checked, filtered and
//! gathered until a frame ends the exchange.
//!
//! The socket itself is not here. The caller sends the bytes that
//! `Session::prepare` returns, asks the socket for its port id, and hands
//! each datagram it receives to `Transaction::receive`, until that says the
//! exchange has ended.

use crate::error::NetlinkError;
use crate::proto::packet::{message_views, MessageView, NetlinkHeader, NetlinkMessage};
use crate::uapi::{NLMSG_DONE, NLMSG_ERROR, NLM_F_MULTI};
use crate::wire::{i32_from_bits, i32_of_bits, read_u32_native, u32_in};
use crate::Serializable;
use vstd::endian::{endianness, Endian};
use vstd::prelude::*;

verus! {

/// `libc::NLMSG_ERROR`: the message type of an acknowledgment or error
/// frame, which is 2.
#[verifier::external_body]
fn nlmsg_error() -> (r: i32)
    ensures
        r == NLMSG_ERROR,
{
    libc::NLMSG_ERROR
}

/// `libc::NLMSG_DONE`: the message type that ends a dump, which is 3.
#[verifier::external_body]
fn nlmsg_done() -> (r: i32)
    ensures
        r == NLMSG_DONE,
{
    libc::NLMSG_DONE
}

/// `libc::NLM_F_MULTI`: the flag of a message that is one of several, which
/// is 2.
#[verifier::external_body]
fn nlm_f_multi() -> (r: i32)
    ensures
        r == NLM_F_MULTI,
{
    libc::NLM_F_MULTI
}

/// What one session keeps between exchanges: the protocol it speaks and
/// the sequence number of its next request.
#[derive(Debug)]
pub struct Session {
    /// The protocol that the socket was opened for.
    pub proto: i32,
    /// The sequence number that the next request gets.
    pub next_seq: u32,
}

impl Session {
    /// A session for protocol `proto` that has sent nothing yet.
    pub fn new(proto: i32) -> (s: Session)
        ensures
            s.proto == proto,
            s.next_seq == 0,
    {
        Session { next_seq: 0, proto: proto }
    }

    /// Gives the request the session's next sequence number, moves the
    /// counter on by one, and returns the bytes to send in one datagram.
    pub fn prepare(&mut self, request: &mut NetlinkMessage) -> (bytes: Vec<u8>)
        requires
            old(self).next_seq < u32::MAX,
            old(request).header.len >= 16,
        ensures
            final(self).next_seq == old(self).next_seq + 1,
            final(self).proto == old(self).proto,
            final(request).header.seq == old(self).next_seq,
            final(request).header.len == old(request).header.len,
            final(request).header.typ == old(request).header.typ,
            final(request).header.flags == old(request).header.flags,
            final(request).header.pid == old(request).header.pid,
            final(request).data@ == old(request).data@,
            bytes@ == final(request)@.wire_in(endianness()),
    {
        request.header.seq = self.next_seq;
        self.next_seq += 1;
        request.to_bytes()
    }
}

/// What the exchange does with one message it received.
#[derive(Debug, Clone, Copy, PartialEq, Eq, Structural)]
pub enum Verdict {
    /// The exchange fails with this error.
    Fail(NetlinkError),
    /// The exchange ends with what was gathered; the message is not part of
    /// the result.
    End,
    /// The message is not of the awaited type: it is left out and the
    /// exchange goes on.
    Skip,
    /// The message joins the result and more are to come.
    Keep,
    /// The message joins the result and ends the exchange.
    KeepAndEnd,
}

/// The magnitude of an error code.
pub open spec fn magnitude(code: i32) -> u32 {
    if code < 0 {
        (-code) as u32
    } else {
        code as u32
    }
}

/// What the exchange does with message `m`, when it awaits sequence number
/// `seq` on port `pid` and, if `resp_typ` is set, messages of that type.
///
/// The checks are made in this order: the sequence number, the port id,
/// whether `m` is an acknowledgment or error frame (whose payload opens
/// with a signed code in byte order `order`; zero ends the exchange well),
/// whether it ends a dump, whether it is of the awaited type, and at last
/// whether it says that more messages follow.
pub open spec fn judge_in(
    order: Endian,
    seq: u32,
    pid: u32,
    resp_typ: Option<u16>,
    m: MessageView,
) -> Verdict {
    if m.header.seq != seq {
        Verdict::Fail(NetlinkError::SequenceMismatch)
    } else if m.header.pid != pid {
        Verdict::Fail(NetlinkError::PortMismatch)
    } else if m.header.typ == NLMSG_ERROR {
        if m.data.len() < 4 {
            Verdict::Fail(NetlinkError::Truncated)
        } else {
            let code = i32_of_bits(u32_in(order, m.data.subrange(0, 4)));
            if code == 0 {
                Verdict::End
            } else {
                Verdict::Fail(NetlinkError::Remote(magnitude(code)))
            }
        }
    } else if m.header.typ == NLMSG_DONE {
        Verdict::End
    } else if resp_typ is Some && resp_typ->0 != m.header.typ {
        Verdict::Skip
    } else if m.header.flags & 2 == 0 {
        Verdict::KeepAndEnd
    } else {
        Verdict::Keep
    }
}

/// An exchange that waits for responses: what it expects of them and what
/// it has gathered.
#[derive(Debug)]
pub struct Transaction {
    /// The sequence number of the request.
    pub seq: u32,
    /// The port id of the session's own socket.
    pub pid: u32,
    /// The message type that the caller wants, if it wants only one.
    pub resp_typ: Option<u16>,
    /// The responses gathered so far, in the order in which they came.
    pub out: Vec<NetlinkMessage>,
}

/// What a waiting exchange is: its expectations and the views of what it
/// gathered.
pub struct TransactionView {
    pub seq: u32,
    pub pid: u32,
    pub resp_typ: Option<u16>,
    pub out: Seq<MessageView>,
}

impl View for Transaction {
    type V = TransactionView;

    open spec fn view(&self) -> TransactionView {
        TransactionView {
            seq: self.seq,
            pid: self.pid,
            resp_typ: self.resp_typ,
            out: message_views(self.out@),
        }
    }
}

/// Where an exchange stands after a message or a datagram.
#[derive(Debug)]
pub enum Step {
    /// It waits for the next datagram.
    Receiving(Transaction),
    /// It ended well, with these responses.
    Succeeded(Vec<NetlinkMessage>),
    /// It failed.
    Failed(NetlinkError),
}

/// What a step is, over views.
pub enum StepView {
    Receiving(TransactionView),
    Succeeded(Seq<MessageView>),
    Failed(NetlinkError),
}

impl View for Step {
    type V = StepView;

    open spec fn view(&self) -> StepView {
        match *self {
            Step::Receiving(t) => StepView::Receiving(t@),
            Step::Succeeded(out) => StepView::Succeeded(message_views(out@)),
            Step::Failed(e) => StepView::Failed(e),
        }
    }
}

impl TransactionView {
    /// The verdict on `m`.
    pub open spec fn judge_in(self, order: Endian, m: MessageView) -> Verdict {
        judge_in(order, self.seq, self.pid, self.resp_typ, m)
    }

    /// Where the exchange stands after message `m`.
    pub open spec fn accept_in(self, order: Endian, m: MessageView) -> StepView {
        match self.judge_in(order, m) {
            Verdict::Fail(e) => StepView::Failed(e),
            Verdict::End => StepView::Succeeded(self.out),
            Verdict::Skip => StepView::Receiving(self),
            Verdict::Keep => StepView::Receiving(TransactionView { out: self.out.push(m), ..self }),
            Verdict::KeepAndEnd => StepView::Succeeded(self.out.push(m)),
        }
    }

    /// Where the exchange stands after the messages `msgs`, taken in order.
    /// Once a message ends the exchange, those after it are not looked at.
    pub open spec fn run_in(self, order: Endian, msgs: Seq<MessageView>) -> StepView
        decreases msgs.len(),
    {
        if msgs.len() == 0 {
            StepView::Receiving(self)
        } else {
            match self.accept_in(order, msgs[0]) {
                StepView::Receiving(next) => next.run_in(order, msgs.drop_first()),
                ended => ended,
            }
        }
    }

    /// Where the exchange stands after the datagram `buf`: it fails with a
    /// truncation where `buf` cannot hold a header and with the decoder's
    /// error where `buf` does not split into messages; else the messages
    /// are taken in order.
    pub open spec fn receive_in(self, order: Endian, buf: Seq<u8>) -> StepView {
        if buf.len() < 16 {
            StepView::Failed(NetlinkError::Truncated)
        } else {
            match MessageView::decode_all_in(order, buf) {
                Err(e) => StepView::Failed(e),
                Ok(msgs) => self.run_in(order, msgs),
            }
        }
    }
}

/// Whether `m` carries the sequence number and the port id that the
/// exchange awaits.
pub open spec fn addressed_to(t: TransactionView, m: MessageView) -> bool {
    m.header.seq == t.seq && m.header.pid == t.pid
}

/// An acknowledgment, that is an error frame whose code is zero, ends the
/// exchange well with what was gathered before it, which may be nothing.
/// The frame is not part of the result and what follows it is not looked
/// at.
pub proof fn lemma_ack_ends_exchange(
    order: Endian,
    t: TransactionView,
    ack: MessageView,
    rest: Seq<MessageView>,
)
    requires
        addressed_to(t, ack),
        ack.header.typ == NLMSG_ERROR,
        ack.data.len() >= 4,
        u32_in(order, ack.data.subrange(0, 4)) == 0,
    ensures
        t.accept_in(order, ack) == StepView::Succeeded(t.out),
        t.run_in(order, seq![ack] + rest) == StepView::Succeeded(t.out),
{
    assert((seq![ack] + rest)[0] == ack);
}

/// An error frame whose code is not zero ends the exchange with the remote
/// error of that code's magnitude, whatever was gathered before.
pub proof fn lemma_error_fails_exchange(
    order: Endian,
    t: TransactionView,
    frame: MessageView,
    rest: Seq<MessageView>,
)
    requires
        addressed_to(t, frame),
        frame.header.typ == NLMSG_ERROR,
        frame.data.len() >= 4,
        u32_in(order, frame.data.subrange(0, 4)) != 0,
    ensures
        ({
            let code = i32_of_bits(u32_in(order, frame.data.subrange(0, 4)));
            &&& magnitude(code) != 0
            &&& t.accept_in(order, frame) == StepView::Failed(
                NetlinkError::Remote(magnitude(code)),
            )
            &&& t.run_in(order, seq![frame] + rest) == StepView::Failed(
                NetlinkError::Remote(magnitude(code)),
            )
        }),
{
    assert((seq![frame] + rest)[0] == frame);
}

/// The frame that closes a dump ends the exchange well with what was
/// gathered before it. The frame is not part of the result.
pub proof fn lemma_done_ends_exchange(
    order: Endian,
    t: TransactionView,
    done: MessageView,
    rest: Seq<MessageView>,
)
    requires
        addressed_to(t, done),
        done.header.typ == NLMSG_DONE,
    ensures
        t.accept_in(order, done) == StepView::Succeeded(t.out),
        t.run_in(order, seq![done] + rest) == StepView::Succeeded(t.out),
{
    assert((seq![done] + rest)[0] == done);
}

/// A message of the awaited type that is not marked as one of several ends
/// the exchange at once, as the last of the result; on a fresh exchange the
/// result is that one message.
pub proof fn lemma_single_ends_exchange(
    order: Endian,
    t: TransactionView,
    m: MessageView,
    rest: Seq<MessageView>,
)
    requires
        addressed_to(t, m),
        m.header.typ != NLMSG_ERROR,
        m.header.typ != NLMSG_DONE,
        t.resp_typ is None || t.resp_typ == Some(m.header.typ),
        m.header.flags & 2 == 0,
    ensures
        t.accept_in(order, m) == StepView::Succeeded(t.out.push(m)),
        t.run_in(order, seq![m] + rest) == StepView::Succeeded(t.out.push(m)),
        t.out.len() == 0 ==> t.run_in(order, seq![m] + rest) == StepView::Succeeded(seq![m]),
{
    assert((seq![m] + rest)[0] == m);
    if t.out.len() == 0 {
        assert(t.out.push(m) =~= seq![m]);
    }
}

/// A wrong sequence number fails the exchange, and so does a wrong port id
/// under the right sequence number, whatever else the message holds.
pub proof fn lemma_stranger_fails_exchange(order: Endian, t: TransactionView, m: MessageView)
    ensures
        m.header.seq != t.seq ==> t.accept_in(order, m) == StepView::Failed(
            NetlinkError::SequenceMismatch,
        ),
        m.header.seq == t.seq && m.header.pid != t.pid ==> t.accept_in(order, m)
            == StepView::Failed(NetlinkError::PortMismatch),
{
}

/// Taking two runs of messages one after the other is taking their
/// concatenation, as long as the first run does not end the exchange.
pub proof fn lemma_run_in_two_parts(
    order: Endian,
    t: TransactionView,
    first: Seq<MessageView>,
    second: Seq<MessageView>,
)
    ensures
        t.run_in(order, first + second) == match t.run_in(order, first) {
            StepView::Receiving(next) => next.run_in(order, second),
            ended => ended,
        },
    decreases first.len(),
{
    if first.len() == 0 {
        assert(first + second =~= second);
    } else {
        let all = first + second;
        assert(all[0] == first[0]);
        assert(all.drop_first() =~= first.drop_first() + second);
        match t.accept_in(order, first[0]) {
            StepView::Receiving(next) => {
                lemma_run_in_two_parts(order, next, first.drop_first(), second);
            },
            _ => {},
        }
    }
}

/// A dump comes back whole: where every message of `parts` is kept and the
/// frame after them ends the exchange, the result is what was gathered
/// before followed by `parts`, in the order of receipt and without the
/// closing frame.
pub proof fn lemma_dump_gathers_parts(
    order: Endian,
    t: TransactionView,
    parts: Seq<MessageView>,
    last: MessageView,
    rest: Seq<MessageView>,
)
    requires
        forall|i: int| 0 <= i < parts.len() ==> t.judge_in(order, #[trigger] parts[i])
            == Verdict::Keep,
        t.judge_in(order, last) == Verdict::End,
    ensures
        t.run_in(order, parts + seq![last] + rest) == StepView::Succeeded(t.out + parts),
    decreases parts.len(),
{
    let all = parts + seq![last] + rest;
    if parts.len() == 0 {
        assert(all[0] == last);
        assert(t.out + parts =~= t.out);
    } else {
        let next = TransactionView { out: t.out.push(parts[0]), ..t };
        let tail = parts.drop_first();
        assert(all[0] == parts[0]);
        assert(all.drop_first() =~= tail + seq![last] + rest);
        assert forall|i: int| 0 <= i < tail.len() implies next.judge_in(order, #[trigger] tail[i])
            == Verdict::Keep by {
            assert(tail[i] == parts[i + 1]);
        }
        lemma_dump_gathers_parts(order, next, tail, last, rest);
        assert(next.out + tail =~= t.out + parts);
    }
}

/// The magnitude of `code`.
pub fn code_magnitude(code: i32) -> (r: u32)
    ensures
        r == magnitude(code),
{
    if code >= 0 {
        code as u32
    } else if code == i32::MIN {
        0x8000_0000
    } else {
        (-code) as u32
    }
}

impl Transaction {
    /// An exchange that has sent its request under `seq` from port `pid`
    /// and has gathered nothing yet.
    pub fn new(seq: u32, pid: u32, resp_typ: Option<u16>) -> (t: Transaction)
        ensures
            t@ == (TransactionView { seq, pid, resp_typ, out: Seq::empty() }),
    {
        let t = Transaction { seq, pid, resp_typ, out: Vec::new() };
        assert(message_views(t.out@) =~= Seq::empty());
        t
    }

    /// The verdict on one response.
    pub fn judge(&self, resp: &NetlinkMessage) -> (v: Verdict)
        ensures
            v == self@.judge_in(endianness(), resp@),
    {
        // seq no matches
        if resp.header.seq != self.seq {
            return Verdict::Fail(NetlinkError::SequenceMismatch);
        }
        // port id matches
        if resp.header.pid != self.pid {
            return Verdict::Fail(NetlinkError::PortMismatch);
        }
        // Did the kernel return an error? The code is the next 4 bytes.
        if (resp.header.typ as i32) == nlmsg_error() {
            if resp.data.len() < 4 {
                return Verdict::Fail(NetlinkError::Truncated);
            }
            let errno: u32 = read_u32_native(resp.data.as_slice());
            if errno == 0 {
                return Verdict::End;
            }
            return Verdict::Fail(NetlinkError::Remote(code_magnitude(i32_from_bits(errno))));
        }
        // have we reached the end?
        if (resp.header.typ as i32) == nlmsg_done() {
            return Verdict::End;
        }
        // If we know which type of message we want, skip those that don't
        // match
        match self.resp_typ {
            Some(typ) => {
                if resp.header.typ != typ {
                    return Verdict::Skip;
                }
            },
            None => {},
        }
        // If this isn't a multipart message, we're done.
        let multi: u16 = nlm_f_multi() as u16;
        if resp.header.flags & multi == 0 {
            Verdict::KeepAndEnd
        } else {
            Verdict::Keep
        }
    }

    /// Takes one response and says where the exchange stands after it.
    pub fn accept(self, resp: NetlinkMessage) -> (step: Step)
        ensures
            step@ == self@.accept_in(endianness(), resp@),
    {
        let verdict = self.judge(&resp);
        let mut this = self;
        match verdict {
            Verdict::Fail(e) => Step::Failed(e),
            Verdict::End => Step::Succeeded(this.out),
            Verdict::Skip => Step::Receiving(this),
            Verdict::Keep => {
                assert(message_views(this.out@.push(resp)) =~= message_views(this.out@).push(
                    resp@,
                ));
                this.out.push(resp);
                Step::Receiving(this)
            },
            Verdict::KeepAndEnd => {
                assert(message_views(this.out@.push(resp)) =~= message_views(this.out@).push(
                    resp@,
                ));
                this.out.push(resp);
                Step::Succeeded(this.out)
            },
        }
    }

    /// Takes the responses `resps` in order and says where the exchange
    /// stands after them.
    pub fn run(self, resps: Vec<NetlinkMessage>) -> (step: Step)
        ensures
            step@ == self@.run_in(endianness(), message_views(resps@)),
    {
        let ghost start = self@;
        let ghost all = message_views(resps@);
        let ghost items = resps@;
        let mut current = self;
        assert(all.skip(0) =~= all);
        for resp in it: resps
            invariant
                it.seq() == items,
                items == resps@,
                start == self@,
                all == message_views(items),
                start.run_in(endianness(), all) == current@.run_in(
                    endianness(),
                    all.skip(it.index() as int),
                ),
        {
            let ghost left = all.skip(it.index() as int);
            assert(left.len() > 0 && left[0] == resp@);
            assert(left.drop_first() =~= all.skip(it.index() + 1));
            let ghost before = current@;
            let step = current.accept(resp);
            assert(before.run_in(endianness(), left) == match step@ {
                StepView::Receiving(next) => next.run_in(endianness(), left.drop_first()),
                ended => ended,
            });
            match step {
                Step::Receiving(next) => {
                    current = next;
                },
                Step::Succeeded(out) => {
                    return Step::Succeeded(out);
                },
                Step::Failed(e) => {
                    return Step::Failed(e);
                },
            }
        }
        Step::Receiving(current)
    }

    /// Takes one datagram and says where the exchange stands after it.
    pub fn receive(self, buf: &[u8]) -> (step: Step)
        ensures
            step@ == self@.receive_in(endianness(), buf@),
    {
        if buf.len() < NetlinkHeader::size() {
            return Step::Failed(NetlinkError::Truncated);
        }
        match NetlinkMessage::from_bytes(buf) {
            Ok(resps) => self.run(resps),
            Err(e) => Step::Failed(e),
        }
    }
}

} // verus!
