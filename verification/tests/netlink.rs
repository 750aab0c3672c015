use std::num::NonZeroI32;

use netlink_packet_core::{DoneMessage, ErrorMessage, NetlinkHeader, NetlinkMessage, NetlinkPayload};
use netlink_packet_route::tc::{
    TcAttribute as RawAttribute, TcFqCodelQdStats, TcFqCodelXstats, TcMessage,
    TcOption as RawOption, TcQdiscFqCodelOption, TcStats, TcStats2, TcStatsBasic, TcStatsQueue,
    TcXstats,
};
use netlink_packet_route::RouteNetlinkMessage;

use nettools::fq_codel::FqCodelOption;
use nettools::netlink::{
    decode_reply, qdisc_dump_request, DumpStep, QdiscDump, ReplyMessage, ReplyPayload, TcError,
    DUMP_REQUEST_LEN, NLM_F_DUMP, NLM_F_REQUEST, RTM_GETQDISC,
};
use nettools::wire::is_decodable;
use nettools::tc::{
    parse_message, Classless, QdiscOption, Stats2Entry, TcAttribute, TcMessageInfo, XStats,
    XStatsEntry,
};

fn serialize(payload: NetlinkPayload<RouteNetlinkMessage>) -> Vec<u8> {
    let mut packet = NetlinkMessage::new(NetlinkHeader::default(), payload);
    packet.finalize();
    let mut buf = vec![0; packet.header.length as usize];
    packet.serialize(&mut buf[..]);
    buf
}

fn fq_codel_message(index: i32) -> Vec<u8> {
    let mut message = TcMessage::default();
    message.header.index = index;
    let mut basic = TcStatsBasic::default();
    basic.bytes = 123456;
    basic.packets = 789;
    let mut queue = TcStatsQueue::default();
    queue.qlen = 1;
    queue.backlog = 2;
    queue.drops = 3;
    queue.requeues = 4;
    queue.overlimits = 5;
    let mut legacy = TcStats::default();
    legacy.bps = 800;
    legacy.pps = 9;
    let mut block = TcFqCodelQdStats::default();
    block.maxpacket = 1514;
    block.drop_overmemory = 6;
    message.attributes = vec![
        RawAttribute::Kind("fq_codel".to_string()),
        RawAttribute::Options(vec![
            RawOption::FqCodel(TcQdiscFqCodelOption::Target(4999)),
            RawOption::FqCodel(TcQdiscFqCodelOption::Limit(10240)),
            RawOption::FqCodel(TcQdiscFqCodelOption::Quantum(1514)),
        ]),
        RawAttribute::Stats2(vec![TcStats2::Basic(basic), TcStats2::Queue(queue)]),
        RawAttribute::Stats(legacy),
        RawAttribute::Xstats(TcXstats::FqCodel(TcFqCodelXstats::Qdisc(block))),
    ];
    serialize(NetlinkPayload::from(RouteNetlinkMessage::NewQueueDiscipline(message)))
}

fn done_message() -> Vec<u8> {
    serialize(NetlinkPayload::Done(DoneMessage::default()))
}

fn qdisc(index: i32) -> ReplyPayload {
    ReplyPayload::QueueDiscipline(TcMessageInfo { index, attributes: vec![TcAttribute::Other] })
}

#[test]
fn dump_request_layout() {
    let buf = qdisc_dump_request();
    assert_eq!(buf.len(), DUMP_REQUEST_LEN);
    assert_eq!(u32::from_ne_bytes(buf[0..4].try_into().unwrap()), 36);
    assert_eq!(u16::from_ne_bytes(buf[4..6].try_into().unwrap()), RTM_GETQDISC);
    assert_eq!(RTM_GETQDISC, 38);
    assert_eq!(u16::from_ne_bytes(buf[6..8].try_into().unwrap()), NLM_F_REQUEST | NLM_F_DUMP);
    assert_eq!(u16::from_ne_bytes(buf[6..8].try_into().unwrap()), 0x301);
    assert!(buf[8..].iter().all(|b| *b == 0));
}

#[test]
fn dump_collects_qdisc_messages_until_done() {
    let mut dump = QdiscDump::new();
    assert_eq!(dump.offset(), 0);
    match dump.on_message(ReplyMessage { length: 100, payload: qdisc(1) }, 300) {
        DumpStep::Decode(100) => {}
        other => panic!("unexpected {:?}", other),
    }
    assert_eq!(dump.offset(), 100);
    match dump.on_message(ReplyMessage { length: 60, payload: ReplyPayload::OtherMessage }, 300) {
        DumpStep::Decode(160) => {}
        other => panic!("unexpected {:?}", other),
    }
    match dump.on_message(ReplyMessage { length: 140, payload: qdisc(2) }, 300) {
        DumpStep::Receive => {}
        other => panic!("unexpected {:?}", other),
    }
    assert_eq!(dump.offset(), 0);
    match dump.on_message(ReplyMessage { length: 20, payload: ReplyPayload::Done }, 20) {
        DumpStep::Finished(Ok(messages)) => {
            let indices: Vec<i32> = messages.iter().map(|m| m.index).collect();
            assert_eq!(indices, vec![1, 2]);
        }
        other => panic!("unexpected {:?}", other),
    }
}

#[test]
fn zero_length_message_moves_to_the_next_datagram() {
    let mut dump = QdiscDump::new();
    match dump.on_message(ReplyMessage { length: 0, payload: ReplyPayload::Other }, 300) {
        DumpStep::Receive => {}
        other => panic!("unexpected {:?}", other),
    }
    assert_eq!(dump.offset(), 0);
}

#[test]
fn kernel_error_ends_the_dump() {
    let mut dump = QdiscDump::new();
    let _ = dump.on_message(ReplyMessage { length: 40, payload: qdisc(3) }, 100);
    match dump.on_message(
        ReplyMessage {
            length: 36,
            payload: ReplyPayload::Error { errno: 1, text: "Operation not permitted".to_string() },
        },
        100,
    ) {
        DumpStep::Finished(Err(TcError::Netlink(text))) => assert_eq!(text, "Operation not permitted"),
        other => panic!("unexpected {:?}", other),
    }
}

#[test]
fn receive_failure_keeps_what_was_collected() {
    let mut dump = QdiscDump::new();
    let _ = dump.on_message(ReplyMessage { length: 40, payload: qdisc(3) }, 40);
    let messages = dump.into_messages();
    assert_eq!(messages.len(), 1);
    assert_eq!(messages[0].index, 3);
}

#[test]
fn qdisc_message_is_decoded() {
    let bytes = fq_codel_message(4);
    let reply = decode_reply(&bytes).expect("a message");
    assert_eq!(reply.length as usize, bytes.len());
    let info = match reply.payload {
        ReplyPayload::QueueDiscipline(info) => info,
        other => panic!("unexpected {:?}", other),
    };
    assert_eq!(info.index, 4);
    assert_eq!(info.attributes.len(), 5);
    match &info.attributes[1] {
        TcAttribute::Options(options) => match options.as_slice() {
            [QdiscOption::FqCodel(FqCodelOption::Target(4999)), QdiscOption::FqCodel(FqCodelOption::Limit(10240)), QdiscOption::FqCodel(FqCodelOption::Quantum(1514))] => {}
            other => panic!("unexpected options {:?}", other),
        },
        other => panic!("unexpected {:?}", other),
    }
    match &info.attributes[2] {
        TcAttribute::Stats2(entries) => match entries.as_slice() {
            [Stats2Entry::Basic(b), Stats2Entry::Queue(q)] => {
                assert_eq!((b.bytes, b.packets), (123456, 789));
                assert_eq!((q.qlen, q.backlog, q.drops, q.requeues, q.overlimits), (1, 2, 3, 4, 5));
            }
            other => panic!("unexpected entries {:?}", other),
        },
        other => panic!("unexpected {:?}", other),
    }
    match &info.attributes[4] {
        TcAttribute::Xstats(XStatsEntry::FqCodelQdisc(b)) => assert_eq!((b.maxpacket, b.drop_overmemory), (1514, 6)),
        other => panic!("unexpected {:?}", other),
    }

    let q = parse_message(&info);
    assert_eq!(q.kind.as_deref(), Some("fq_codel"));
    match q.qdisc {
        Some(Classless::FqCodel(fq)) => assert_eq!((fq.target, fq.limit, fq.quantum, fq.flows), (4999, 10240, 1514, 0)),
        None => panic!("no configuration"),
    }
    let s = q.stats.expect("statistics");
    assert_eq!((s.bytes, s.packets, s.qlen, s.overlimits, s.bps, s.pps), (123456, 789, 1, 5, 800, 9));
    match s.xstats {
        Some(XStats::FqCodel(x)) => assert_eq!(x.maxpacket, 1514),
        None => panic!("no fq_codel statistics"),
    }
}

#[test]
fn other_payloads_are_decoded() {
    let done = decode_reply(&done_message()).expect("a message");
    assert!(matches!(done.payload, ReplyPayload::Done));
    let mut error = ErrorMessage::default();
    error.code = NonZeroI32::new(-1);
    let bytes = serialize(NetlinkPayload::Error(error));
    match decode_reply(&bytes).expect("a message").payload {
        ReplyPayload::Error { errno, text } => {
            assert_eq!(errno, 1);
            assert_eq!(text, std::io::Error::from_raw_os_error(1).to_string());
        }
        other => panic!("unexpected {:?}", other),
    }
    let class = serialize(NetlinkPayload::from(RouteNetlinkMessage::NewTrafficClass(TcMessage::default())));
    assert!(matches!(decode_reply(&class).expect("a message").payload, ReplyPayload::OtherMessage));
    let link = serialize(NetlinkPayload::from(RouteNetlinkMessage::NewLink(Default::default())));
    assert!(!is_decodable(&link));
    assert!(decode_reply(&link).is_none());
    assert!(decode_reply(&[1, 2, 3]).is_none());
    assert!(decode_reply(&[]).is_none());
}

#[test]
fn datagram_walk_collects_qdiscs() {
    let first = fq_codel_message(1);
    let second = fq_codel_message(2);
    let mut buf = vec![0u8; 4096];
    buf[..first.len()].copy_from_slice(&first);
    buf[first.len()..first.len() + second.len()].copy_from_slice(&second);
    let size = first.len() + second.len();

    let mut dump = QdiscDump::new();
    match dump.on_datagram(&buf, size) {
        Some(DumpStep::Decode(offset)) => assert_eq!(offset, first.len()),
        other => panic!("unexpected {:?}", other),
    }
    match dump.on_datagram(&buf, size) {
        Some(DumpStep::Receive) => {}
        other => panic!("unexpected {:?}", other),
    }
    let done = done_message();
    let mut buf = vec![0u8; 4096];
    buf[..done.len()].copy_from_slice(&done);
    match dump.on_datagram(&buf, done.len()) {
        Some(DumpStep::Finished(Ok(messages))) => {
            let indices: Vec<i32> = messages.iter().map(|m| m.index).collect();
            assert_eq!(indices, vec![1, 2]);
        }
        other => panic!("unexpected {:?}", other),
    }
}

#[test]
fn undecodable_bytes_leave_the_dump_unchanged() {
    let mut dump = QdiscDump::new();
    let buf = vec![0xffu8; 8];
    assert!(dump.on_datagram(&buf, 8).is_none());
    assert_eq!(dump.offset(), 0);
}

/// An RTM_NEWQDISC message whose only attributes are `attributes`, each a
/// type and a value, written in the machine's byte order.
fn raw_qdisc_message(attributes: &[(u16, Vec<u8>)]) -> Vec<u8> {
    let mut body = Vec::new();
    for (kind, value) in attributes {
        body.extend_from_slice(&((value.len() + 4) as u16).to_ne_bytes());
        body.extend_from_slice(&kind.to_ne_bytes());
        body.extend_from_slice(value);
        while body.len() % 4 != 0 {
            body.push(0);
        }
    }
    let length = 16 + 20 + body.len();
    let mut bytes = Vec::new();
    bytes.extend_from_slice(&(length as u32).to_ne_bytes());
    bytes.extend_from_slice(&36u16.to_ne_bytes());
    bytes.extend_from_slice(&[0u8; 10]);
    bytes.extend_from_slice(&[0u8; 20]);
    bytes.extend_from_slice(&body);
    bytes
}

fn nested(kind: u16, value: Vec<u8>) -> Vec<u8> {
    let mut entry = Vec::new();
    entry.extend_from_slice(&((value.len() + 4) as u16).to_ne_bytes());
    entry.extend_from_slice(&kind.to_ne_bytes());
    entry.extend_from_slice(&value);
    entry
}

#[test]
fn short_fq_codel_statistics_block_is_refused() {
    let mut value = 0u32.to_ne_bytes().to_vec();
    value.extend_from_slice(&[1, 2, 3, 4]);
    let bytes = raw_qdisc_message(&[(1, b"fq_codel\0".to_vec()), (4, value.clone())]);
    assert!(!is_decodable(&bytes));
    assert!(decode_reply(&bytes).is_none());
    let mut dump = QdiscDump::new();
    assert!(dump.on_datagram(&bytes, bytes.len()).is_none());
    assert_eq!(dump.offset(), 0);

    let other_kind = raw_qdisc_message(&[(1, b"pfifo\0".to_vec()), (4, value)]);
    assert!(is_decodable(&other_kind));
    let reply = decode_reply(&other_kind).expect("a message");
    match reply.payload {
        ReplyPayload::QueueDiscipline(info) => {
            assert_eq!(info.attributes.len(), 2);
            assert!(matches!(info.attributes[1], TcAttribute::Xstats(XStatsEntry::Other)));
        }
        other => panic!("unexpected {:?}", other),
    }
}

#[test]
fn short_class_statistics_block_is_refused() {
    let mut value = 1u32.to_ne_bytes().to_vec();
    value.extend_from_slice(&[0u8; 20]);
    let bytes = raw_qdisc_message(&[(1, b"fq_codel".to_vec()), (4, value.clone())]);
    assert!(!is_decodable(&bytes));
    value.extend_from_slice(&[0u8; 4]);
    let whole = raw_qdisc_message(&[(1, b"fq_codel".to_vec()), (4, value)]);
    assert!(is_decodable(&whole));
    assert!(decode_reply(&whole).is_some());
}

#[test]
fn short_stats2_entries_are_refused() {
    let short_basic = raw_qdisc_message(&[(7, nested(1, vec![0u8; 4]))]);
    assert!(!is_decodable(&short_basic));
    assert!(decode_reply(&short_basic).is_none());
    let short_queue = raw_qdisc_message(&[(7, nested(3, vec![0u8; 16]))]);
    assert!(!is_decodable(&short_queue));

    let mut basic = 77u64.to_ne_bytes().to_vec();
    basic.extend_from_slice(&5u32.to_ne_bytes());
    let whole = raw_qdisc_message(&[(7, nested(1, basic))]);
    assert!(is_decodable(&whole));
    match decode_reply(&whole).expect("a message").payload {
        ReplyPayload::QueueDiscipline(info) => match &info.attributes[0] {
            TcAttribute::Stats2(entries) => match entries.as_slice() {
                [Stats2Entry::Basic(b)] => assert_eq!((b.bytes, b.packets), (77, 5)),
                other => panic!("unexpected entries {:?}", other),
            },
            other => panic!("unexpected {:?}", other),
        },
        other => panic!("unexpected {:?}", other),
    }
}

#[test]
fn filter_options_are_refused() {
    let bytes = raw_qdisc_message(&[(1, b"u32\0".to_vec()), (2, vec![0u8; 4])]);
    assert!(!is_decodable(&bytes));
    let bytes = raw_qdisc_message(&[(1, b"matchall".to_vec()), (2, vec![0u8; 4])]);
    assert!(!is_decodable(&bytes));
    let bytes = raw_qdisc_message(&[(1, b"ingress".to_vec()), (2, vec![0u8; 4])]);
    assert!(is_decodable(&bytes));
}

#[test]
fn messages_outside_a_whole_buffer_pass_the_check() {
    assert!(is_decodable(&[]));
    assert!(is_decodable(&[1, 2, 3]));
    assert!(is_decodable(&done_message()));
    assert!(is_decodable(&fq_codel_message(7)));
}

#[test]
fn dump_request_bytes_in_machine_order() {
    let buf = qdisc_dump_request();
    let mut expected = Vec::new();
    expected.extend_from_slice(&36u32.to_ne_bytes());
    expected.extend_from_slice(&38u16.to_ne_bytes());
    expected.extend_from_slice(&0x301u16.to_ne_bytes());
    expected.extend_from_slice(&[0u8; 28]);
    assert_eq!(buf, expected);
    if u16::from_ne_bytes([1, 0]) == 1 {
        assert_eq!(&buf[0..8], &[36, 0, 0, 0, 38, 0, 0x01, 0x03]);
    }
}
