use netlink::error::NetlinkError;
use netlink::proto::conn::{code_magnitude, Session, Step, Transaction, Verdict};
use netlink::proto::{NetlinkHeader, NetlinkMessage};
use netlink::Serializable;

const SEQ: u32 = 41;
const PID: u32 = 4711;
const RTM_NEWLINK: u16 = 16;
const RTM_GETLINK: u16 = 18;
const NLMSG_ERROR: u16 = 2;
const NLMSG_DONE: u16 = 3;
const NLM_F_MULTI: u16 = 2;

fn message(typ: u16, flags: u16, seq: u32, pid: u32, payload: &[u8]) -> NetlinkMessage {
    NetlinkMessage {
        header: NetlinkHeader {
            len: 16 + payload.len() as u32,
            typ,
            flags,
            seq,
            pid,
        },
        data: payload.to_vec(),
    }
}

fn padded(m: &NetlinkMessage) -> Vec<u8> {
    let mut b = m.to_bytes();
    while b.len() % 4 != 0 {
        b.push(0);
    }
    b
}

fn ack(code: i32) -> NetlinkMessage {
    message(NLMSG_ERROR, 0, SEQ, PID, &code.to_ne_bytes())
}

fn done() -> NetlinkMessage {
    message(NLMSG_DONE, NLM_F_MULTI, SEQ, PID, &0u32.to_ne_bytes())
}

fn link(tag: u8, flags: u16) -> NetlinkMessage {
    message(RTM_NEWLINK, flags, SEQ, PID, &[tag, 0, 0, 0])
}

fn succeeded(step: Step) -> Vec<NetlinkMessage> {
    match step {
        Step::Succeeded(out) => out,
        other => panic!("the exchange did not end well: {:?}", other),
    }
}

fn failed(step: Step) -> NetlinkError {
    match step {
        Step::Failed(e) => e,
        other => panic!("the exchange did not fail: {:?}", other),
    }
}

fn receiving(step: Step) -> Transaction {
    match step {
        Step::Receiving(t) => t,
        other => panic!("the exchange ended: {:?}", other),
    }
}

#[test]
fn session_counts_requests() {
    let mut s = Session::new(0);
    assert_eq!(s.proto, 0);
    assert_eq!(s.next_seq, 0);

    let mut first = NetlinkMessage::new(RTM_GETLINK, 0x301);
    first.add_data(vec![1, 2, 3, 4]);
    let bytes = s.prepare(&mut first);
    assert_eq!(first.header.seq, 0);
    assert_eq!(s.next_seq, 1);
    assert_eq!(bytes, first.to_bytes());
    assert_eq!(bytes.len(), 20);

    let mut second = NetlinkMessage::new(RTM_GETLINK, 0x5);
    let bytes = s.prepare(&mut second);
    assert_eq!(second.header.seq, 1);
    assert_eq!(s.next_seq, 2);
    assert_eq!(s.proto, 0);
    assert_eq!(
        NetlinkHeader::from_bytes(&bytes),
        Ok(NetlinkHeader {
            len: 16,
            typ: RTM_GETLINK,
            flags: 0x5,
            seq: 1,
            pid: 0,
        })
    );
}

#[test]
fn session_keeps_the_request_but_for_its_sequence_number() {
    let mut s = Session::new(0);
    s.next_seq = 0xffff_fffe;
    let mut req = message(RTM_GETLINK, 0x301, 5, 77, &[9, 9, 9, 9]);
    s.prepare(&mut req);
    assert_eq!(s.next_seq, 0xffff_ffff);
    assert_eq!(
        req.header,
        NetlinkHeader {
            len: 20,
            typ: RTM_GETLINK,
            flags: 0x301,
            seq: 0xffff_fffe,
            pid: 77,
        }
    );
    assert_eq!(req.data, vec![9, 9, 9, 9]);
}

#[test]
fn fresh_transaction_has_gathered_nothing() {
    let t = Transaction::new(SEQ, PID, Some(RTM_NEWLINK));
    assert_eq!(t.seq, SEQ);
    assert_eq!(t.pid, PID);
    assert_eq!(t.resp_typ, Some(RTM_NEWLINK));
    assert!(t.out.is_empty());
}

#[test]
fn magnitudes() {
    assert_eq!(code_magnitude(0), 0);
    assert_eq!(code_magnitude(19), 19);
    assert_eq!(code_magnitude(-19), 19);
    assert_eq!(code_magnitude(i32::MAX), 0x7fff_ffff);
    assert_eq!(code_magnitude(i32::MIN), 0x8000_0000);
}

#[test]
fn verdicts_in_order_of_the_checks() {
    let t = Transaction::new(SEQ, PID, Some(RTM_NEWLINK));
    // a wrong sequence number comes before everything else
    assert_eq!(
        t.judge(&message(NLMSG_DONE, 0, SEQ + 1, PID + 1, &[])),
        Verdict::Fail(NetlinkError::SequenceMismatch)
    );
    assert_eq!(
        t.judge(&message(NLMSG_DONE, 0, SEQ, PID + 1, &[])),
        Verdict::Fail(NetlinkError::PortMismatch)
    );
    assert_eq!(t.judge(&ack(0)), Verdict::End);
    assert_eq!(t.judge(&ack(-2)), Verdict::Fail(NetlinkError::Remote(2)));
    assert_eq!(t.judge(&done()), Verdict::End);
    assert_eq!(t.judge(&message(17, 0, SEQ, PID, &[])), Verdict::Skip);
    assert_eq!(t.judge(&link(1, NLM_F_MULTI)), Verdict::Keep);
    assert_eq!(t.judge(&link(1, NLM_F_MULTI | 0x10)), Verdict::Keep);
    assert_eq!(t.judge(&link(1, 0)), Verdict::KeepAndEnd);
    assert_eq!(t.judge(&link(1, 0xfffd)), Verdict::KeepAndEnd);
}

#[test]
fn ack_ends_with_what_was_gathered() {
    // nothing gathered
    let t = Transaction::new(SEQ, PID, None);
    assert!(succeeded(t.accept(ack(0))).is_empty());

    // one message gathered, then the ack
    let t = Transaction::new(SEQ, PID, None);
    let t = receiving(t.accept(link(1, NLM_F_MULTI)));
    let out = succeeded(t.accept(ack(0)));
    assert_eq!(out.len(), 1);
    assert_eq!(out[0].header.typ, RTM_NEWLINK);
    assert_eq!(out[0].data, vec![1, 0, 0, 0]);
}

#[test]
fn ack_with_longer_payload_reads_its_first_four_bytes() {
    let mut payload = 0i32.to_ne_bytes().to_vec();
    payload.extend_from_slice(&[1, 2, 3, 4, 5, 6, 7, 8]);
    let t = Transaction::new(SEQ, PID, None);
    assert!(succeeded(t.accept(message(NLMSG_ERROR, 0, SEQ, PID, &payload))).is_empty());
}

#[test]
fn error_code_fails_with_its_magnitude() {
    let t = Transaction::new(SEQ, PID, None);
    assert_eq!(failed(t.accept(ack(-19))), NetlinkError::Remote(19));
    let t = Transaction::new(SEQ, PID, None);
    assert_eq!(failed(t.accept(ack(1))), NetlinkError::Remote(1));
    let t = Transaction::new(SEQ, PID, None);
    assert_eq!(failed(t.accept(ack(i32::MIN))), NetlinkError::Remote(0x8000_0000));

    // what was gathered does not change that
    let t = Transaction::new(SEQ, PID, None);
    let t = receiving(t.accept(link(1, NLM_F_MULTI)));
    assert_eq!(failed(t.accept(ack(-95))), NetlinkError::Remote(95));
}

#[test]
fn error_frame_without_its_code_is_truncated() {
    let t = Transaction::new(SEQ, PID, None);
    assert_eq!(
        failed(t.accept(message(NLMSG_ERROR, 0, SEQ, PID, &[0, 0, 0]))),
        NetlinkError::Truncated
    );
    let t = Transaction::new(SEQ, PID, None);
    assert_eq!(
        failed(t.accept(message(NLMSG_ERROR, 0, SEQ, PID, &[]))),
        NetlinkError::Truncated
    );
}

#[test]
fn done_ends_with_what_was_gathered() {
    let t = Transaction::new(SEQ, PID, None);
    assert!(succeeded(t.accept(done())).is_empty());

    let t = Transaction::new(SEQ, PID, None);
    let t = receiving(t.accept(link(1, NLM_F_MULTI)));
    let t = receiving(t.accept(link(2, NLM_F_MULTI)));
    let out = succeeded(t.accept(done()));
    assert_eq!(out.len(), 2);
    assert_eq!(out[0].data[0], 1);
    assert_eq!(out[1].data[0], 2);
}

#[test]
fn single_message_ends_at_once() {
    let t = Transaction::new(SEQ, PID, Some(RTM_NEWLINK));
    let out = succeeded(t.accept(link(7, 0)));
    assert_eq!(out.len(), 1);
    assert_eq!(out[0].header.typ, RTM_NEWLINK);
    assert_eq!(out[0].data, vec![7, 0, 0, 0]);

    // without a filter any type will do
    let t = Transaction::new(SEQ, PID, None);
    let out = succeeded(t.accept(message(99, 0, SEQ, PID, &[])));
    assert_eq!(out.len(), 1);
    assert_eq!(out[0].header.typ, 99);
}

#[test]
fn single_message_hides_what_follows_in_the_datagram() {
    let mut buf = padded(&link(7, 0));
    buf.extend_from_slice(&padded(&link(8, 0)));
    buf.extend_from_slice(&padded(&ack(-1)));
    let t = Transaction::new(SEQ, PID, Some(RTM_NEWLINK));
    let out = succeeded(t.receive(&buf));
    assert_eq!(out.len(), 1);
    assert_eq!(out[0].data[0], 7);
}

#[test]
fn other_types_are_skipped() {
    let t = Transaction::new(SEQ, PID, Some(RTM_NEWLINK));
    let t = receiving(t.accept(message(20, 0, SEQ, PID, &[1])));
    assert!(t.out.is_empty());
    let t = receiving(t.accept(message(20, NLM_F_MULTI, SEQ, PID, &[2])));
    assert!(t.out.is_empty());
    let out = succeeded(t.accept(link(3, 0)));
    assert_eq!(out.len(), 1);
    assert_eq!(out[0].data[0], 3);
}

#[test]
fn wrong_sequence_number_fails() {
    let t = Transaction::new(SEQ, PID, None);
    assert_eq!(
        failed(t.accept(message(RTM_NEWLINK, 0, SEQ + 1, PID, &[]))),
        NetlinkError::SequenceMismatch
    );
    // also on a frame that would end the exchange, and on one to skip
    let t = Transaction::new(SEQ, PID, Some(RTM_NEWLINK));
    assert_eq!(
        failed(t.accept(message(NLMSG_DONE, 0, SEQ - 1, PID, &[]))),
        NetlinkError::SequenceMismatch
    );
    let t = Transaction::new(SEQ, PID, Some(RTM_NEWLINK));
    assert_eq!(
        failed(t.accept(message(20, 0, 0, PID, &[]))),
        NetlinkError::SequenceMismatch
    );
}

#[test]
fn wrong_port_fails() {
    let t = Transaction::new(SEQ, PID, None);
    assert_eq!(
        failed(t.accept(message(RTM_NEWLINK, 0, SEQ, PID + 1, &[]))),
        NetlinkError::PortMismatch
    );
    let t = Transaction::new(SEQ, PID, None);
    assert_eq!(
        failed(t.accept(message(NLMSG_ERROR, 0, SEQ, 0, &0i32.to_ne_bytes()))),
        NetlinkError::PortMismatch
    );
}

#[test]
fn dump_returns_the_links_without_the_terminator() {
    let mut session = Session::new(0);
    session.next_seq = SEQ;
    let mut request = NetlinkMessage::new(RTM_GETLINK, 0x301);
    request.add_data(vec![0; 16]);
    let sent = session.prepare(&mut request);
    assert_eq!(sent.len(), 32);
    assert_eq!(request.header.seq, SEQ);
    assert_eq!(request.header.typ, 18);
    assert_eq!(request.header.flags, 0x301);

    let first = message(RTM_NEWLINK, NLM_F_MULTI, SEQ, PID, &[1, 1, 1, 1, 1]);
    let second = message(RTM_NEWLINK, NLM_F_MULTI, SEQ, PID, &[2, 2]);
    let mut reply = padded(&first);
    reply.extend_from_slice(&padded(&second));
    reply.extend_from_slice(&padded(&done()));

    let t = Transaction::new(request.header.seq, PID, Some(RTM_NEWLINK));
    let out = succeeded(t.receive(&reply));
    assert_eq!(out.len(), 2);
    assert_eq!(out[0].header, first.header);
    assert_eq!(out[0].data, vec![1, 1, 1, 1, 1]);
    assert_eq!(out[1].header, second.header);
    assert_eq!(out[1].data, vec![2, 2]);
}

#[test]
fn dump_over_several_datagrams() {
    let t = Transaction::new(SEQ, PID, Some(RTM_NEWLINK));
    let t = receiving(t.receive(&padded(&link(1, NLM_F_MULTI))));
    assert_eq!(t.out.len(), 1);
    let mut two = padded(&link(2, NLM_F_MULTI));
    two.extend_from_slice(&padded(&link(3, NLM_F_MULTI)));
    let t = receiving(t.receive(&two));
    assert_eq!(t.out.len(), 3);
    assert_eq!(t.seq, SEQ);
    assert_eq!(t.pid, PID);
    assert_eq!(t.resp_typ, Some(RTM_NEWLINK));
    let out = succeeded(t.receive(&padded(&done())));
    assert_eq!(out.len(), 3);
    assert_eq!(out[0].data[0], 1);
    assert_eq!(out[1].data[0], 2);
    assert_eq!(out[2].data[0], 3);
}

#[test]
fn run_takes_messages_in_order() {
    let t = Transaction::new(SEQ, PID, None);
    let t = receiving(t.run(vec![]));
    assert!(t.out.is_empty());
    let t = receiving(t.run(vec![link(1, NLM_F_MULTI), link(2, NLM_F_MULTI)]));
    assert_eq!(t.out.len(), 2);
    let out = succeeded(t.run(vec![link(3, NLM_F_MULTI), done(), link(4, NLM_F_MULTI)]));
    assert_eq!(out.len(), 3);
    assert_eq!(out[2].data[0], 3);
}

#[test]
fn short_datagram_is_truncated() {
    let t = Transaction::new(SEQ, PID, None);
    assert_eq!(failed(t.receive(&[])), NetlinkError::Truncated);
    let t = Transaction::new(SEQ, PID, None);
    assert_eq!(failed(t.receive(&[0; 15])), NetlinkError::Truncated);
}

#[test]
fn malformed_datagram_fails() {
    // the second message declares more than the datagram holds
    let mut buf = padded(&link(1, NLM_F_MULTI));
    let mut cut = padded(&link(2, NLM_F_MULTI));
    cut.truncate(18);
    buf.extend_from_slice(&cut);
    let t = Transaction::new(SEQ, PID, None);
    assert_eq!(failed(t.receive(&buf)), NetlinkError::Truncated);

    // a declared length below the header's size
    let mut bad = 8u32.to_ne_bytes().to_vec();
    bad.extend_from_slice(&[0; 12]);
    let t = Transaction::new(SEQ, PID, None);
    assert_eq!(failed(t.receive(&bad)), NetlinkError::InvalidData);
}
