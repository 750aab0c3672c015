//! The rtnetlink exchange that lists the queueing disciplines of the host:
//! the request that asks for a dump, and the walk through the datagrams
//! that answer it.
use vstd::endian::endianness;
use vstd::prelude::*;

use netlink_packet_core::NetlinkPayload::InnerMessage;
use netlink_packet_core::{NetlinkHeader, NetlinkMessage, NetlinkPayload};
use netlink_packet_route::tc::TcQdiscFqCodelOption::{
    CeThreshold as RawCeThreshold, DropBatchSize as RawDropBatchSize, Ecn as RawEcn,
    Flows as RawFlows, Interval as RawInterval, Limit as RawLimit, MemoryLimit as RawMemoryLimit,
    Quantum as RawQuantum, Target as RawTarget,
};
use netlink_packet_route::tc::{
    TcAttribute as RawAttribute, TcFqCodelXstats as RawFqCodelXstats, TcMessage,
    TcOption as RawOption, TcStats2 as RawStats2, TcXstats as RawXstats,
};
use netlink_packet_route::RouteNetlinkMessage;
use netlink_packet_route::RouteNetlinkMessage::NewQueueDiscipline;

use crate::fq_codel::FqCodelOption::{
    CeThreshold, DropBatchSize, Ecn, Flows, Interval, Limit, MemoryLimit, Other as OtherOption,
    Quantum, Target,
};
use crate::fq_codel::FqCodelQdiscStats;
use crate::wire::{decodable, is_decodable};
use crate::tc::{
    QdiscOption, RateEstimate, Stats2Entry, StatsBasic, StatsQueue, TcAttribute, TcMessageInfo,
    XStatsEntry,
};

verus! {

/// Size of the buffer into which each reply datagram is received.
pub const RECEIVE_BUFFER_LEN: usize = 4096;

/// Netlink header flag: the message is a request.
pub const NLM_F_REQUEST: u16 = 1;

/// Netlink header flag: the request asks for a dump of every object.
pub const NLM_F_DUMP: u16 = 0x300;

/// Length of a qdisc dump request: a netlink header (16 bytes) and an
/// empty `tcmsg` (20 bytes).
pub const DUMP_REQUEST_LEN: usize = 36;

/// Errors of the qdisc dump.
#[derive(Clone, Debug)]
pub enum TcError {
    /// The netlink socket could not be opened or connected.
    Socket(String),
    /// The request could not be sent.
    Send(String),
    /// The kernel answered with an error message.
    Netlink(String),
}

/// The message type of a request for qdiscs (RTM_GETQDISC).
pub const RTM_GETQDISC: u16 = 38;

/// The value of two bytes, least significant first.
pub open spec fn le16(b: Seq<u8>, at: int) -> int {
    b[at] + b[at + 1] * 0x100
}

/// The value of four bytes, least significant first.
pub open spec fn le32(b: Seq<u8>, at: int) -> int {
    le16(b, at) + le16(b, at + 2) * 0x1_0000
}

/// The value of two bytes, most significant first.
pub open spec fn be16(b: Seq<u8>, at: int) -> int {
    b[at] * 0x100 + b[at + 1]
}

/// The value of four bytes, most significant first.
pub open spec fn be32(b: Seq<u8>, at: int) -> int {
    be16(b, at) * 0x1_0000 + be16(b, at + 2)
}

/// Whether `b` is a qdisc dump request with these header flags: a 36-byte
/// message whose length, type and flags fields (bytes 0..8) hold 36,
/// RTM_GETQDISC and `flags` in the byte order of the machine that runs the
/// code (`vstd::endian::endianness()`), with sequence and port numbers and
/// the whole `tcmsg` zero.
pub open spec fn is_qdisc_request(b: Seq<u8>, flags: u16) -> bool {
    &&& b.len() == DUMP_REQUEST_LEN
    &&& forall|k: int| 8 <= k < DUMP_REQUEST_LEN ==> b[k] == 0
    &&& if endianness() is Little {
        le32(b, 0) == DUMP_REQUEST_LEN && le16(b, 4) == RTM_GETQDISC && le16(b, 6) == flags
    } else {
        be32(b, 0) == DUMP_REQUEST_LEN && be16(b, 4) == RTM_GETQDISC && be16(b, 6) == flags
    }
}

/// Serializes an RTM_GETQDISC request with `netlink_packet_core` and
/// `netlink_packet_route`: `finalize` sets the length field to 36 (a 16-byte
/// netlink header and a 20-byte `tcmsg`) and the type to RTM_GETQDISC;
/// `serialize` writes length, type and flags in native byte order, and zero
/// for the sequence and port numbers and for every field of the default
/// `tcmsg`.
#[verifier::external_body]
fn serialize_qdisc_request(flags: u16) -> (buf: Vec<u8>)
    ensures
        is_qdisc_request(buf@, flags),
{
    let mut header = NetlinkHeader::default();
    header.flags = flags;
    let payload = RouteNetlinkMessage::GetQueueDiscipline(TcMessage::default());
    let mut packet = NetlinkMessage::new(header, NetlinkPayload::from(payload));
    packet.finalize();
    let mut buf = vec![0; packet.header.length as usize];
    packet.serialize(&mut buf[..]);
    buf
}

/// The request that asks the kernel for a dump of every qdisc: its flags are
/// NLM_F_REQUEST | NLM_F_DUMP, which is 0x301.
pub fn qdisc_dump_request() -> (buf: Vec<u8>)
    ensures
        is_qdisc_request(buf@, NLM_F_REQUEST | NLM_F_DUMP),
        is_qdisc_request(buf@, 0x301),
{
    assert(1u16 | 0x300u16 == 0x301u16) by (bit_vector);
    serialize_qdisc_request(NLM_F_REQUEST | NLM_F_DUMP)
}

// ---------------------------------------------------------------------------
// Decoding of reply messages with `netlink_packet_core` and
// `netlink_packet_route`. Each decoder deserializes the message that starts
// at the first byte with `NetlinkMessage::<RouteNetlinkMessage>::deserialize`
// and reads one part of it. That function reads some statistics blocks
// without testing their length, so each decoder takes only bytes that
// `wire::decodable` accepts.
// ---------------------------------------------------------------------------

/// What a reply message is, before the attributes of a qdisc are read.
#[derive(Clone, Debug)]
pub enum ReplyKind {
    /// An RTM_NEWQDISC message: its interface index and its number of attributes.
    QueueDiscipline { index: i32, attributes: usize },
    OtherMessage,
    /// An error message, with its raw error code (zero for an acknowledgement).
    Error(i32),
    Done,
    Other,
}

/// The length field of a reply message's header, and what the message is.
#[derive(Clone, Debug)]
pub struct ReplyHead {
    pub length: u32,
    pub kind: ReplyKind,
}

/// One attribute of a qdisc message, before its nested entries are read:
/// lists are given by their number of entries.
#[derive(Clone, Debug)]
pub enum AttributeHead {
    Kind(String),
    Options(usize),
    Stats(RateEstimate),
    Xstats,
    Stats2(usize),
    Other,
}

/// What the decoding of the message that starts at the first of `bytes`
/// gives, if it succeeds.
pub uninterp spec fn reply_head(bytes: Seq<u8>) -> Option<ReplyHead>;

/// The `i`-th attribute of the qdisc message that starts at the first of `bytes`.
pub uninterp spec fn attribute_head(bytes: Seq<u8>, i: usize) -> Option<AttributeHead>;

/// The `j`-th entry of the TCA_OPTIONS attribute `i` of that qdisc message.
pub uninterp spec fn option_entry(bytes: Seq<u8>, i: usize, j: usize) -> Option<QdiscOption>;

/// The `j`-th entry of the TCA_STATS2 attribute `i` of that qdisc message.
pub uninterp spec fn stats2_entry(bytes: Seq<u8>, i: usize, j: usize) -> Option<Stats2Entry>;

/// The TCA_XSTATS attribute `i` of that qdisc message.
pub uninterp spec fn xstats_entry(bytes: Seq<u8>, i: usize) -> Option<XStatsEntry>;

/// Decodes the header and the payload kind of the message at the start of
/// `bytes` with `NetlinkMessage::<RouteNetlinkMessage>::deserialize`; an
/// error payload is given by its raw code (`ErrorMessage::raw_code`).
#[verifier::external_body]
fn decode_reply_head(bytes: &[u8]) -> (r: Option<ReplyHead>)
    requires
        decodable(bytes@),
    ensures
        r == reply_head(bytes@),
{
    let message = NetlinkMessage::<RouteNetlinkMessage>::deserialize(bytes).ok()?;
    let kind = match message.payload {
        InnerMessage(NewQueueDiscipline(m)) => {
            ReplyKind::QueueDiscipline { index: m.header.index, attributes: m.attributes.len() }
        },
        InnerMessage(_) => ReplyKind::OtherMessage,
        NetlinkPayload::Error(e) => ReplyKind::Error(e.raw_code()),
        NetlinkPayload::Done(_) => ReplyKind::Done,
        _ => ReplyKind::Other,
    };
    Some(ReplyHead { length: message.header.length, kind })
}

/// Deserializes the message at the start of `bytes` and reads its `i`-th
/// attribute, which is there exactly when the message decodes to a qdisc
/// message with more than `i` attributes.
#[verifier::external_body]
fn decode_attribute(bytes: &[u8], i: usize) -> (r: Option<AttributeHead>)
    requires
        decodable(bytes@),
    ensures
        r == attribute_head(bytes@, i),
        r is Some <==> (reply_head(bytes@) matches Some(h)
            && h.kind matches ReplyKind::QueueDiscipline { attributes, .. } && i < attributes),
{
    let m = match NetlinkMessage::<RouteNetlinkMessage>::deserialize(bytes).ok()?.payload { InnerMessage(NewQueueDiscipline(m)) => m, _ => return None };
    Some(match m.attributes.get(i)? {
        RawAttribute::Kind(kind) => AttributeHead::Kind(kind.clone()),
        RawAttribute::Options(options) => AttributeHead::Options(options.len()),
        RawAttribute::Stats(s) => AttributeHead::Stats(RateEstimate { bps: s.bps, pps: s.pps }),
        RawAttribute::Xstats(_) => AttributeHead::Xstats,
        RawAttribute::Stats2(entries) => AttributeHead::Stats2(entries.len()),
        _ => AttributeHead::Other,
    })
}

/// Deserializes the message at the start of `bytes` and reads entry `j` of
/// its TCA_OPTIONS attribute `i`, which is there exactly when attribute `i`
/// is such a block with more than `j` entries.
#[verifier::external_body]
fn decode_option(bytes: &[u8], i: usize, j: usize) -> (r: Option<QdiscOption>)
    requires
        decodable(bytes@),
    ensures
        r == option_entry(bytes@, i, j),
        r is Some <==> (attribute_head(bytes@, i) matches Some(AttributeHead::Options(n)) && j < n),
{
    let m = match NetlinkMessage::<RouteNetlinkMessage>::deserialize(bytes).ok()?.payload { InnerMessage(NewQueueDiscipline(m)) => m, _ => return None };
    let f = match m.attributes.get(i)? { RawAttribute::Options(o) => o.get(j)?, _ => return None };
    Some(match f {
        RawOption::FqCodel(o) => QdiscOption::FqCodel(match *o {
            RawTarget(v) => Target(v), RawLimit(v) => Limit(v), RawInterval(v) => Interval(v),
            RawEcn(v) => Ecn(v), RawFlows(v) => Flows(v), RawQuantum(v) => Quantum(v),
            RawCeThreshold(v) => CeThreshold(v), RawDropBatchSize(v) => DropBatchSize(v),
            RawMemoryLimit(v) => MemoryLimit(v), _ => OtherOption,
        }),
        _ => QdiscOption::Other,
    })
}

/// Deserializes the message at the start of `bytes` and reads entry `j` of
/// its TCA_STATS2 attribute `i`, which is there exactly when attribute `i`
/// is such a block with more than `j` entries.
#[verifier::external_body]
fn decode_stats2(bytes: &[u8], i: usize, j: usize) -> (r: Option<Stats2Entry>)
    requires
        decodable(bytes@),
    ensures
        r == stats2_entry(bytes@, i, j),
        r is Some <==> (attribute_head(bytes@, i) matches Some(AttributeHead::Stats2(n)) && j < n),
{
    let m = match NetlinkMessage::<RouteNetlinkMessage>::deserialize(bytes).ok()?.payload { InnerMessage(NewQueueDiscipline(m)) => m, _ => return None };
    let e = match m.attributes.get(i)? { RawAttribute::Stats2(e) => e.get(j)?, _ => return None };
    Some(match e {
        RawStats2::Basic(s) => Stats2Entry::Basic(StatsBasic { bytes: s.bytes, packets: s.packets }),
        RawStats2::Queue(s) => Stats2Entry::Queue(StatsQueue { qlen: s.qlen, backlog: s.backlog, drops: s.drops, requeues: s.requeues, overlimits: s.overlimits }),
        _ => Stats2Entry::Other,
    })
}

/// Deserializes the message at the start of `bytes` and reads its TCA_XSTATS
/// attribute `i`, which is there exactly when attribute `i` is such a block.
#[verifier::external_body]
fn decode_xstats(bytes: &[u8], i: usize) -> (r: Option<XStatsEntry>)
    requires
        decodable(bytes@),
    ensures
        r == xstats_entry(bytes@, i),
        r is Some <==> attribute_head(bytes@, i) == Some(AttributeHead::Xstats),
{
    let m = match NetlinkMessage::<RouteNetlinkMessage>::deserialize(bytes).ok()?.payload { InnerMessage(NewQueueDiscipline(m)) => m, _ => return None };
    Some(match m.attributes.get(i)? {
        RawAttribute::Xstats(RawXstats::FqCodel(RawFqCodelXstats::Qdisc(q))) => XStatsEntry::FqCodelQdisc(FqCodelQdiscStats {
            maxpacket: q.maxpacket, drop_overlimit: q.drop_overlimit, ecn_mark: q.ecn_mark,
            new_flow_count: q.new_flow_count, new_flows_len: q.new_flows_len, old_flows_len: q.old_flows_len,
            ce_mark: q.ce_mark, memory_usage: q.memory_usage, drop_overmemory: q.drop_overmemory,
        }),
        RawAttribute::Xstats(RawXstats::FqCodel(_)) => XStatsEntry::FqCodelOther,
        RawAttribute::Xstats(_) => XStatsEntry::Other,
        _ => return None,
    })
}

/// What a decoded reply message carries.
#[derive(Clone, Debug)]
pub enum ReplyPayload {
    /// An RTM_NEWQDISC message: one qdisc of the dump.
    QueueDiscipline(TcMessageInfo),
    /// Any other rtnetlink message.
    OtherMessage,
    /// An error message of the kernel: the error number (the magnitude of
    /// the message's code) and the text that describes it.
    Error { errno: i32, text: String },
    /// The message that ends the dump.
    Done,
    /// Any other netlink message (no-op, overrun).
    Other,
}

/// A decoded reply message: the length field of its header and its payload.
#[derive(Clone, Debug)]
pub struct ReplyMessage {
    pub length: u32,
    pub payload: ReplyPayload,
}

/// The text with which the standard library displays the operating-system
/// error `code` (`std::io::Error::from_raw_os_error`), which is how
/// `netlink_packet_core` displays an error message. The text comes from the
/// platform's error table; nothing is stated of it.
#[verifier::external_body]
fn os_error_text(code: i32) -> String {
    std::io::Error::from_raw_os_error(code).to_string()
}

/// Whether `a` is what attribute `i` of the qdisc message at the start of
/// `bytes` decodes to, its nested entries included.
pub open spec fn attribute_decodes_to(bytes: Seq<u8>, i: usize, a: TcAttribute) -> bool {
    match attribute_head(bytes, i) {
        Some(AttributeHead::Kind(k)) => a == TcAttribute::Kind(k),
        Some(AttributeHead::Options(n)) => {
            &&& a matches TcAttribute::Options(v)
            &&& v@.len() == n
            &&& forall|j: int| 0 <= j < n ==> option_entry(bytes, i, j as usize) == Some(#[trigger] v@[j])
        },
        Some(AttributeHead::Stats(r)) => a == TcAttribute::Stats(r),
        Some(AttributeHead::Xstats) => xstats_entry(bytes, i) matches Some(x) && a == TcAttribute::Xstats(x),
        Some(AttributeHead::Stats2(n)) => {
            &&& a matches TcAttribute::Stats2(v)
            &&& v@.len() == n
            &&& forall|j: int| 0 <= j < n ==> stats2_entry(bytes, i, j as usize) == Some(#[trigger] v@[j])
        },
        Some(AttributeHead::Other) => a is Other,
        None => false,
    }
}

/// The error number of a netlink error code: its magnitude, as `i32::abs`
/// gives it where it does not overflow (the most negative code stays as it is).
pub open spec fn error_magnitude(code: i32) -> i32 {
    if code < 0 && code > i32::MIN {
        (-code) as i32
    } else {
        code
    }
}

/// Whether `reply` is what the message at the start of `bytes` decodes to.
pub open spec fn decodes_to(bytes: Seq<u8>, reply: ReplyMessage) -> bool {
    match reply_head(bytes) {
        None => false,
        Some(h) => reply.length == h.length && match h.kind {
            ReplyKind::QueueDiscipline { index, attributes } => {
                &&& reply.payload matches ReplyPayload::QueueDiscipline(m)
                &&& m.index == index
                &&& m.attributes@.len() == attributes
                &&& forall|k: int| 0 <= k < attributes
                    ==> attribute_decodes_to(bytes, k as usize, #[trigger] m.attributes@[k])
            },
            ReplyKind::OtherMessage => reply.payload is OtherMessage,
            ReplyKind::Error(code) => reply.payload matches ReplyPayload::Error { errno, .. }
                && errno == error_magnitude(code),
            ReplyKind::Done => reply.payload is Done,
            ReplyKind::Other => reply.payload is Other,
        },
    }
}

/// The `n` entries of the TCA_OPTIONS attribute `i`.
fn decode_options(bytes: &[u8], i: usize, n: usize) -> (v: Vec<QdiscOption>)
    requires
        decodable(bytes@),
        attribute_head(bytes@, i) == Some(AttributeHead::Options(n)),
    ensures
        v@.len() == n,
        forall|j: int| 0 <= j < n ==> option_entry(bytes@, i, j as usize) == Some(#[trigger] v@[j]),
{
    let mut v: Vec<QdiscOption> = Vec::new();
    let mut j: usize = 0;
    while j < n
        invariant
            decodable(bytes@),
            attribute_head(bytes@, i) == Some(AttributeHead::Options(n)),
            j <= n,
            v@.len() == j,
            forall|k: int| 0 <= k < j ==> option_entry(bytes@, i, k as usize) == Some(#[trigger] v@[k]),
        decreases n - j,
    {
        match decode_option(bytes, i, j) {
            Some(o) => v.push(o),
            None => {
                assert(false);
            },
        }
        j = j + 1;
    }
    v
}

/// The `n` entries of the TCA_STATS2 attribute `i`.
fn decode_stats2_entries(bytes: &[u8], i: usize, n: usize) -> (v: Vec<Stats2Entry>)
    requires
        decodable(bytes@),
        attribute_head(bytes@, i) == Some(AttributeHead::Stats2(n)),
    ensures
        v@.len() == n,
        forall|j: int| 0 <= j < n ==> stats2_entry(bytes@, i, j as usize) == Some(#[trigger] v@[j]),
{
    let mut v: Vec<Stats2Entry> = Vec::new();
    let mut j: usize = 0;
    while j < n
        invariant
            decodable(bytes@),
            attribute_head(bytes@, i) == Some(AttributeHead::Stats2(n)),
            j <= n,
            v@.len() == j,
            forall|k: int| 0 <= k < j ==> stats2_entry(bytes@, i, k as usize) == Some(#[trigger] v@[k]),
        decreases n - j,
    {
        match decode_stats2(bytes, i, j) {
            Some(e) => v.push(e),
            None => {
                assert(false);
            },
        }
        j = j + 1;
    }
    v
}

/// Attribute `i` of the qdisc message at the start of `bytes`.
fn decode_tc_attribute(bytes: &[u8], i: usize) -> (a: Option<TcAttribute>)
    requires
        decodable(bytes@),
    ensures
        a is Some <==> (reply_head(bytes@) matches Some(h)
            && h.kind matches ReplyKind::QueueDiscipline { attributes, .. } && i < attributes),
        a matches Some(x) ==> attribute_decodes_to(bytes@, i, x),
{
    match decode_attribute(bytes, i) {
        Some(AttributeHead::Kind(k)) => Some(TcAttribute::Kind(k)),
        Some(AttributeHead::Options(n)) => Some(TcAttribute::Options(decode_options(bytes, i, n))),
        Some(AttributeHead::Stats(r)) => Some(TcAttribute::Stats(r)),
        Some(AttributeHead::Xstats) => match decode_xstats(bytes, i) {
            Some(x) => Some(TcAttribute::Xstats(x)),
            None => None,
        },
        Some(AttributeHead::Stats2(n)) => Some(TcAttribute::Stats2(decode_stats2_entries(bytes, i, n))),
        Some(AttributeHead::Other) => Some(TcAttribute::Other),
        None => None,
    }
}

/// Decodes the reply message at the start of `bytes` into the library's
/// values; `None` where the bytes do not hold a message, or hold one that
/// the check of `wire::decodable` refuses.
pub fn decode_reply(bytes: &[u8]) -> (r: Option<ReplyMessage>)
    ensures
        r is Some <==> decodable(bytes@) && reply_head(bytes@) is Some,
        r matches Some(m) ==> decodes_to(bytes@, m),
{
    if !is_decodable(bytes) {
        return None;
    }
    let head = match decode_reply_head(bytes) {
        Some(h) => h,
        None => {
            return None;
        },
    };
    let ghost h = head;
    let length = head.length;
    let payload = match head.kind {
        ReplyKind::QueueDiscipline { index, attributes } => {
            let mut attrs: Vec<TcAttribute> = Vec::new();
            let mut i: usize = 0;
            while i < attributes
                invariant
                    decodable(bytes@),
                    reply_head(bytes@) == Some(h),
                    h.kind == (ReplyKind::QueueDiscipline { index, attributes }),
                    i <= attributes,
                    attrs@.len() == i,
                    forall|k: int| 0 <= k < i
                        ==> attribute_decodes_to(bytes@, k as usize, #[trigger] attrs@[k]),
                decreases attributes - i,
            {
                match decode_tc_attribute(bytes, i) {
                    Some(a) => attrs.push(a),
                    None => {
                        assert(false);
                    },
                }
                i = i + 1;
            }
            ReplyPayload::QueueDiscipline(TcMessageInfo { index, attributes: attrs })
        },
        ReplyKind::OtherMessage => ReplyPayload::OtherMessage,
        ReplyKind::Error(code) => {
            let magnitude: i32 = if code < 0 && code > i32::MIN {
                -code
            } else {
                code
            };
            ReplyPayload::Error { errno: magnitude, text: os_error_text(magnitude) }
        },
        ReplyKind::Done => ReplyPayload::Done,
        ReplyKind::Other => ReplyPayload::Other,
    };
    Some(ReplyMessage { length, payload })
}

/// What the caller does next.
#[derive(Debug)]
pub enum DumpStep {
    /// Decode the next message of the current datagram, at this offset.
    Decode(usize),
    /// Receive the next datagram and decode its first message.
    Receive,
    /// The dump is over, with this outcome.
    Finished(Result<Vec<TcMessageInfo>, TcError>),
}

/// How one reply message moves a dump from `before` to `after`, with `step`
/// the caller's next step: a qdisc message is collected; an error message
/// ends the dump with that error, and the end-of-dump message ends it with
/// the messages collected. Otherwise the offset moves past the message; when
/// it reaches the end of the datagram of `size` bytes, or when the message
/// claims a length of zero, the next message is the first of the next datagram.
pub open spec fn dump_step(before: QdiscDump, after: QdiscDump, reply: ReplyMessage, size: usize, step: DumpStep) -> bool {
    match reply.payload {
        ReplyPayload::Error { text, .. } => {
            &&& step == DumpStep::Finished(Err(TcError::Netlink(text)))
            &&& after.collected() == before.collected()
            &&& after.position() == before.position()
        },
        ReplyPayload::Done => {
            &&& step matches DumpStep::Finished(Ok(ms))
            &&& ms@ == before.collected()
            &&& after.collected() == Seq::<TcMessageInfo>::empty()
            &&& after.position() == before.position()
        },
        _ => {
            let next = before.position() + reply.length;
            &&& after.collected() == (match reply.payload {
                ReplyPayload::QueueDiscipline(m) => before.collected().push(m),
                _ => before.collected(),
            })
            &&& if next == size || reply.length == 0 {
                step == DumpStep::Receive && after.position() == 0
            } else {
                step == DumpStep::Decode(next as usize) && after.position() == next
            }
        },
    }
}

/// The qdisc messages among a sequence of reply messages, in order.
pub open spec fn qdisc_payloads(replies: Seq<ReplyMessage>) -> Seq<TcMessageInfo>
    decreases replies.len(),
{
    if replies.len() == 0 {
        Seq::empty()
    } else {
        let rest = qdisc_payloads(replies.drop_last());
        match replies.last().payload {
            ReplyPayload::QueueDiscipline(m) => rest.push(m),
            _ => rest,
        }
    }
}

/// Whether `states[k]` goes to `states[k + 1]` by `replies[k]` (in a
/// datagram of `sizes[k]` bytes) with step `steps[k]`, for every `k`.
pub open spec fn dump_run(
    states: Seq<QdiscDump>,
    replies: Seq<ReplyMessage>,
    sizes: Seq<usize>,
    steps: Seq<DumpStep>,
) -> bool {
    &&& states.len() == replies.len() + 1
    &&& sizes.len() == replies.len()
    &&& steps.len() == replies.len()
    &&& forall|k: int|
        #![trigger replies[k]]
        0 <= k < replies.len() ==> dump_step(states[k], states[k + 1], replies[k], sizes[k], steps[k])
}

proof fn lemma_dump_run_collects(
    states: Seq<QdiscDump>,
    replies: Seq<ReplyMessage>,
    sizes: Seq<usize>,
    steps: Seq<DumpStep>,
    n: int,
)
    requires
        dump_run(states, replies, sizes, steps),
        states[0].collected() == Seq::<TcMessageInfo>::empty(),
        0 <= n <= replies.len(),
        forall|k: int| 0 <= k < n ==> !(#[trigger] replies[k].payload is Done) && !(replies[k].payload is Error),
    ensures
        states[n].collected() == qdisc_payloads(replies.take(n)),
    decreases n,
{
    if n > 0 {
        lemma_dump_run_collects(states, replies, sizes, steps, n - 1);
        assert(replies.take(n).drop_last() =~= replies.take(n - 1));
        assert(dump_step(states[n - 1], states[n], replies[n - 1], sizes[n - 1], steps[n - 1]));
        assert(!(replies[n - 1].payload is Done) && !(replies[n - 1].payload is Error));
    } else {
        assert(replies.take(0) =~= Seq::<ReplyMessage>::empty());
    }
}

/// A dump that starts empty and takes in a sequence of reply messages of
/// which only the last is an end-of-dump or error message ends with the
/// qdisc messages among the earlier ones, in arrival order, or with the
/// kernel's error; before that last message it has not finished.
pub proof fn lemma_dump_outcome(
    states: Seq<QdiscDump>,
    replies: Seq<ReplyMessage>,
    sizes: Seq<usize>,
    steps: Seq<DumpStep>,
)
    requires
        dump_run(states, replies, sizes, steps),
        replies.len() > 0,
        states[0].collected() == Seq::<TcMessageInfo>::empty(),
        forall|k: int|
            0 <= k < replies.len() - 1 ==> !(#[trigger] replies[k].payload is Done) && !(replies[k].payload is Error),
    ensures
        forall|k: int| 0 <= k < replies.len() - 1 ==> !(#[trigger] steps[k] is Finished),
        match replies.last().payload {
            ReplyPayload::Done => steps.last() matches DumpStep::Finished(Ok(ms))
                && ms@ == qdisc_payloads(replies.drop_last()),
            ReplyPayload::Error { text, .. } => steps.last() == DumpStep::Finished(Err(TcError::Netlink(text))),
            _ => !(steps.last() is Finished) && states.last().collected() == qdisc_payloads(replies),
        },
{
    let n = replies.len() - 1;
    lemma_dump_run_collects(states, replies, sizes, steps, n);
    assert(replies.take(n) =~= replies.drop_last());
    assert(dump_step(states[n], states[n + 1], replies[n], sizes[n], steps[n]));
    assert forall|k: int| 0 <= k < replies.len() - 1 implies !(#[trigger] steps[k] is Finished) by {
        assert(dump_step(states[k], states[k + 1], replies[k], sizes[k], steps[k]));
    }
    if !(replies.last().payload is Done) && !(replies.last().payload is Error) {
        lemma_dump_run_collects(states, replies, sizes, steps, replies.len() as int);
        assert(replies.take(replies.len() as int) =~= replies);
    }
}

/// The total length of the first `n` reply messages.
pub open spec fn lengths_before(replies: Seq<ReplyMessage>, n: int) -> int
    decreases n,
{
    if n <= 0 {
        0
    } else {
        lengths_before(replies, n - 1) + replies[n - 1].length
    }
}

proof fn lemma_lengths_grow(replies: Seq<ReplyMessage>, j: int, n: int)
    requires
        0 <= j < n <= replies.len(),
        forall|k: int| 0 <= k < replies.len() ==> #[trigger] replies[k].length > 0,
    ensures
        lengths_before(replies, j) < lengths_before(replies, n),
    decreases n - j,
{
    assert(replies[n - 1].length > 0);
    if j < n - 1 {
        lemma_lengths_grow(replies, j, n - 1);
    }
}

proof fn lemma_walk_prefix(
    states: Seq<QdiscDump>,
    replies: Seq<ReplyMessage>,
    sizes: Seq<usize>,
    steps: Seq<DumpStep>,
    size: usize,
    m: int,
)
    requires
        dump_run(states, replies, sizes, steps),
        states[0].position() == 0,
        0 <= m < replies.len(),
        forall|k: int| 0 <= k < replies.len() ==> #[trigger] sizes[k] == size,
        forall|k: int| 0 <= k < replies.len() ==> #[trigger] replies[k].length > 0,
        forall|k: int|
            0 <= k < replies.len() ==> !(#[trigger] replies[k].payload is Done) && !(replies[k].payload is Error),
        lengths_before(replies, replies.len() as int) == size,
    ensures
        states[m].position() == lengths_before(replies, m),
        forall|k: int| 0 <= k < m ==> #[trigger] steps[k] == DumpStep::Decode(lengths_before(replies, k + 1) as usize),
    decreases m,
{
    if m > 0 {
        lemma_walk_prefix(states, replies, sizes, steps, size, m - 1);
        let k = m - 1;
        assert(dump_step(states[k], states[k + 1], replies[k], sizes[k], steps[k]));
        assert(!(replies[k].payload is Done) && !(replies[k].payload is Error));
        assert(replies[k].length > 0);
        assert(sizes[k] == size);
        lemma_lengths_grow(replies, m, replies.len() as int);
        assert(lengths_before(replies, m) == lengths_before(replies, k) + replies[k].length);
    }
}

/// A datagram of `size` bytes that holds reply messages back to back, each
/// of non-zero length and none ending or failing the dump, is walked message
/// by message: after each message but the last the next step decodes the
/// message that follows it, at the sum of the lengths before that one, and
/// only after the last does the dump ask for the next datagram.
pub proof fn lemma_datagram_walk(
    states: Seq<QdiscDump>,
    replies: Seq<ReplyMessage>,
    sizes: Seq<usize>,
    steps: Seq<DumpStep>,
    size: usize,
)
    requires
        dump_run(states, replies, sizes, steps),
        replies.len() > 0,
        states[0].position() == 0,
        forall|k: int| 0 <= k < replies.len() ==> #[trigger] sizes[k] == size,
        forall|k: int| 0 <= k < replies.len() ==> #[trigger] replies[k].length > 0,
        forall|k: int|
            0 <= k < replies.len() ==> !(#[trigger] replies[k].payload is Done) && !(replies[k].payload is Error),
        lengths_before(replies, replies.len() as int) == size,
    ensures
        forall|k: int|
            0 <= k < replies.len() - 1 ==> #[trigger] steps[k] == DumpStep::Decode(
                lengths_before(replies, k + 1) as usize,
            ),
        steps.last() == DumpStep::Receive,
{
    let n = replies.len() - 1;
    lemma_walk_prefix(states, replies, sizes, steps, size, n);
    assert(dump_step(states[n], states[n + 1], replies[n], sizes[n], steps[n]));
    assert(!(replies[n].payload is Done) && !(replies[n].payload is Error));
    assert(sizes[n] == size);
    assert(lengths_before(replies, n + 1) == lengths_before(replies, n) + replies[n].length);
}

/// The state of a qdisc dump: the qdisc messages collected so far, and the
/// offset of the next message in the current datagram.
pub struct QdiscDump {
    messages: Vec<TcMessageInfo>,
    offset: usize,
}

impl QdiscDump {
    /// The qdisc messages collected so far, in the order they arrived.
    pub closed spec fn collected(self) -> Seq<TcMessageInfo> {
        self.messages@
    }

    /// The offset of the next message in the current datagram.
    pub closed spec fn position(self) -> usize {
        self.offset
    }

    /// A dump that has collected nothing and waits for its first datagram.
    pub fn new() -> (d: QdiscDump)
        ensures
            d.collected() == Seq::<TcMessageInfo>::empty(),
            d.position() == 0,
    {
        QdiscDump { messages: Vec::new(), offset: 0 }
    }

    /// The offset at which the next message of the current datagram starts.
    pub fn offset(&self) -> (o: usize)
        ensures
            o == self.position(),
    {
        self.offset
    }

    /// Takes in the message decoded at `self.offset()` of a datagram of
    /// `size` bytes (see `dump_step`).
    pub fn on_message(&mut self, reply: ReplyMessage, size: usize) -> (step: DumpStep)
        requires
            old(self).position() + reply.length <= usize::MAX,
        ensures
            dump_step(*old(self), *final(self), reply, size, step),
    {
        match reply.payload {
            ReplyPayload::QueueDiscipline(message) => {
                self.messages.push(message);
            },
            ReplyPayload::Error { text, .. } => {
                return DumpStep::Finished(Err(TcError::Netlink(text)));
            },
            ReplyPayload::Done => {
                let mut messages: Vec<TcMessageInfo> = Vec::new();
                std::mem::swap(&mut messages, &mut self.messages);
                return DumpStep::Finished(Ok(messages));
            },
            ReplyPayload::OtherMessage => {},
            ReplyPayload::Other => {},
        }
        self.offset = self.offset + reply.length as usize;
        if self.offset == size || reply.length == 0 {
            self.offset = 0;
            DumpStep::Receive
        } else {
            DumpStep::Decode(self.offset)
        }
    }

    /// Decodes the message at `self.offset()` of a received datagram of
    /// `size` bytes, and takes it in as `on_message` does. `None`, with the
    /// dump unchanged, where the bytes from that offset on do not hold a
    /// message that `decode_reply` decodes, or where the message's length
    /// would overflow the offset.
    pub fn on_datagram(&mut self, buf: &[u8], size: usize) -> (step: Option<DumpStep>)
        requires
            old(self).position() <= buf@.len(),
        ensures
            ({
                let rest = buf@.subrange(old(self).position() as int, buf@.len() as int);
                match reply_head(rest) {
                    Some(h) if decodable(rest) => if old(self).position() + h.length <= usize::MAX {
                        step matches Some(s) && exists|reply: ReplyMessage|
                            #[trigger] decodes_to(rest, reply)
                                && dump_step(*old(self), *final(self), reply, size, s)
                    } else {
                        step is None && *final(self) == *old(self)
                    },
                    _ => step is None && *final(self) == *old(self),
                }
            }),
    {
        let rest = &buf[self.offset..buf.len()];
        match decode_reply(rest) {
            None => None,
            Some(reply) => {
                if reply.length as usize > usize::MAX - self.offset {
                    return None;
                }
                let ghost r = reply;
                let step = self.on_message(reply, size);
                assert(decodes_to(rest@, r));
                Some(step)
            },
        }
    }

    /// Ends the dump when no further datagram can be received: the outcome
    /// is the messages collected so far.
    pub fn into_messages(self) -> (ms: Vec<TcMessageInfo>)
        ensures
            ms@ == self.collected(),
    {
        self.messages
    }
}

} // verus!
