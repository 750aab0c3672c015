//! Queueing disciplines of the traffic-control subsystem, assembled from the
//! attributes of the rtnetlink messages that a qdisc dump returns.
use std::collections::BTreeMap;
use vstd::prelude::*;

use crate::fq_codel::{FqCodel, FqCodelOption, FqCodelQdiscStats, FqCodelXStats};

verus! {

broadcast use {vstd::std_specs::btree::group_btree_axioms, vstd::laws_cmp::group_laws_cmp};

// ---------------------------------------------------------------------------
// What a qdisc dump message holds (the attributes that this module reads).
// ---------------------------------------------------------------------------

/// Byte and packet counters (TCA_STATS_BASIC).
#[derive(Clone, Copy, Debug)]
pub struct StatsBasic {
    pub bytes: u64,
    pub packets: u32,
}

/// Queue counters (TCA_STATS_QUEUE).
#[derive(Clone, Copy, Debug)]
pub struct StatsQueue {
    pub qlen: u32,
    pub backlog: u32,
    pub drops: u32,
    pub requeues: u32,
    pub overlimits: u32,
}

/// The rate estimates of the legacy statistics block (TCA_STATS).
#[derive(Clone, Copy, Debug)]
pub struct RateEstimate {
    pub bps: u32,
    pub pps: u32,
}

/// One entry of a TCA_STATS2 block.
#[derive(Clone, Copy, Debug)]
pub enum Stats2Entry {
    Basic(StatsBasic),
    Queue(StatsQueue),
    /// Any other entry (application statistics, hardware counters, ...).
    Other,
}

/// The qdisc-specific statistics block (TCA_XSTATS).
#[derive(Clone, Copy, Debug)]
pub enum XStatsEntry {
    /// fq_codel, with its qdisc-wide statistics.
    FqCodelQdisc(FqCodelQdiscStats),
    /// fq_codel, with statistics of another type (per class).
    FqCodelOther,
    /// The block of any other qdisc kind.
    Other,
}

/// One entry of the TCA_OPTIONS block.
#[derive(Clone, Copy, Debug)]
pub enum QdiscOption {
    FqCodel(FqCodelOption),
    Other,
}

/// One attribute of a qdisc message.
#[derive(Clone, Debug)]
pub enum TcAttribute {
    Kind(String),
    Options(Vec<QdiscOption>),
    Stats(RateEstimate),
    Xstats(XStatsEntry),
    Stats2(Vec<Stats2Entry>),
    Other,
}

/// A qdisc message of the dump: the interface index of its header and its
/// attributes, in the order in which they arrived.
#[derive(Clone, Debug)]
pub struct TcMessageInfo {
    pub index: i32,
    pub attributes: Vec<TcAttribute>,
}

// ---------------------------------------------------------------------------
// What this module builds from them.
// ---------------------------------------------------------------------------

/// Statistics of one qdisc.
#[derive(Clone, Debug)]
pub struct Stats {
    // from TCA_STATS2 / TCA_STATS_BASIC
    pub bytes: u64,
    pub packets: u32,
    // from TCA_STATS2 / TCA_STATS_QUEUE
    pub qlen: u32,
    pub backlog: u32,
    pub drops: u32,
    pub requeues: u32,
    pub overlimits: u32,
    // from TCA_XSTATS
    pub xstats: Option<XStats>,
    // from TCA_STATS
    pub bps: u32,
    pub pps: u32,
}

/// Configuration of a classless qdisc.
#[derive(Clone, Debug)]
pub enum Classless {
    FqCodel(FqCodel),
}

/// Qdisc-specific statistics.
#[derive(Clone, Debug)]
pub enum XStats {
    FqCodel(FqCodelXStats),
}

/// One queueing discipline of an interface.
#[derive(Clone, Debug)]
pub struct QDisc {
    pub handle: Option<u32>,
    pub parent: Option<u32>,
    pub kind: Option<String>,
    pub stats: Option<Stats>,
    pub qdisc: Option<Classless>,
}

impl Stats {
    /// Statistics with every counter zero and no qdisc-specific part.
    pub open spec fn zeroed() -> Stats {
        Stats {
            bytes: 0,
            packets: 0,
            qlen: 0,
            backlog: 0,
            drops: 0,
            requeues: 0,
            overlimits: 0,
            xstats: None,
            bps: 0,
            pps: 0,
        }
    }
}

impl Default for Stats {
    fn default() -> (s: Stats)
        ensures
            s == Stats::zeroed(),
    {
        Stats {
            bytes: 0,
            packets: 0,
            qlen: 0,
            backlog: 0,
            drops: 0,
            requeues: 0,
            overlimits: 0,
            xstats: None,
            bps: 0,
            pps: 0,
        }
    }
}

impl QDisc {
    /// A qdisc of which nothing is known yet.
    pub open spec fn empty() -> QDisc {
        QDisc { handle: None, parent: None, kind: None, stats: None, qdisc: None }
    }

    /// The statistics of `self`, zeroed ones where it has none yet.
    pub open spec fn stats_or_zeroed(self) -> Stats {
        match self.stats {
            Some(s) => s,
            None => Stats::zeroed(),
        }
    }
}

impl Default for QDisc {
    fn default() -> (q: QDisc)
        ensures
            q == QDisc::empty(),
    {
        QDisc { handle: None, parent: None, kind: None, stats: None, qdisc: None }
    }
}

impl From<FqCodel> for Classless {
    fn from(fq_codel: FqCodel) -> (c: Classless) {
        Classless::FqCodel(fq_codel)
    }
}

impl vstd::std_specs::convert::FromSpecImpl<FqCodel> for Classless {
    open spec fn obeys_from_spec() -> bool {
        true
    }

    open spec fn from_spec(fq_codel: FqCodel) -> Classless {
        Classless::FqCodel(fq_codel)
    }
}

// ---------------------------------------------------------------------------
// How each attribute changes the qdisc being assembled.
// ---------------------------------------------------------------------------

/// Reads the rate estimates of a TCA_STATS block.
pub open spec fn with_rates(q: QDisc, s: RateEstimate) -> QDisc {
    QDisc { stats: Some(Stats { bps: s.bps, pps: s.pps, ..q.stats_or_zeroed() }), ..q }
}

/// Reads a TCA_STATS_BASIC entry.
pub open spec fn with_basic(q: QDisc, s: StatsBasic) -> QDisc {
    QDisc { stats: Some(Stats { bytes: s.bytes, packets: s.packets, ..q.stats_or_zeroed() }), ..q }
}

/// Reads a TCA_STATS_QUEUE entry.
pub open spec fn with_queue(q: QDisc, s: StatsQueue) -> QDisc {
    QDisc {
        stats: Some(
            Stats {
                qlen: s.qlen,
                backlog: s.backlog,
                drops: s.drops,
                requeues: s.requeues,
                overlimits: s.overlimits,
                ..q.stats_or_zeroed()
            },
        ),
        ..q
    }
}

/// Reads one TCA_STATS2 entry; entries of other kinds leave the qdisc as it is.
pub open spec fn with_stats2_entry(q: QDisc, e: Stats2Entry) -> QDisc {
    match e {
        Stats2Entry::Basic(s) => with_basic(q, s),
        Stats2Entry::Queue(s) => with_queue(q, s),
        Stats2Entry::Other => q,
    }
}

/// Reads the entries of a TCA_STATS2 block in order.
pub open spec fn with_stats2(q: QDisc, es: Seq<Stats2Entry>) -> QDisc
    decreases es.len(),
{
    if es.len() == 0 {
        q
    } else {
        with_stats2_entry(with_stats2(q, es.drop_last()), es.last())
    }
}

/// Reads a TCA_XSTATS block: the statistics are created if the qdisc has none;
/// fq_codel qdisc-wide statistics replace the qdisc-specific part, other
/// fq_codel statistics clear it, and the block of another kind changes nothing more.
pub open spec fn with_xstats(q: QDisc, x: XStatsEntry) -> QDisc {
    let s = q.stats_or_zeroed();
    match x {
        XStatsEntry::FqCodelQdisc(b) => QDisc {
            stats: Some(Stats { xstats: Some(XStats::FqCodel(FqCodelXStats::from_block(b))), ..s }),
            ..q
        },
        XStatsEntry::FqCodelOther => QDisc { stats: Some(Stats { xstats: None, ..s }), ..q },
        XStatsEntry::Other => QDisc { stats: Some(s), ..q },
    }
}

/// Reading a statistics entry copies its counters unchanged: after a
/// TCA_STATS_BASIC entry the qdisc's byte and packet counters are the
/// entry's, after a TCA_STATS_QUEUE entry its five queue counters are the
/// entry's, and after a TCA_STATS block its two rates are the block's. Every
/// other counter keeps the value it had (zero where the qdisc had no
/// statistics yet), and the kind, handles and configuration are untouched.
pub proof fn lemma_stats_entries_copied(q: QDisc, b: StatsBasic, sq: StatsQueue, r: RateEstimate)
    ensures
        with_basic(q, b).stats matches Some(st) && st.bytes == b.bytes && st.packets == b.packets
            && st.qlen == q.stats_or_zeroed().qlen && st.backlog == q.stats_or_zeroed().backlog
            && st.drops == q.stats_or_zeroed().drops && st.requeues == q.stats_or_zeroed().requeues
            && st.overlimits == q.stats_or_zeroed().overlimits && st.bps == q.stats_or_zeroed().bps
            && st.pps == q.stats_or_zeroed().pps && st.xstats == q.stats_or_zeroed().xstats,
        with_queue(q, sq).stats matches Some(st) && st.qlen == sq.qlen && st.backlog == sq.backlog
            && st.drops == sq.drops && st.requeues == sq.requeues && st.overlimits == sq.overlimits
            && st.bytes == q.stats_or_zeroed().bytes && st.packets == q.stats_or_zeroed().packets
            && st.bps == q.stats_or_zeroed().bps && st.pps == q.stats_or_zeroed().pps
            && st.xstats == q.stats_or_zeroed().xstats,
        with_rates(q, r).stats matches Some(st) && st.bps == r.bps && st.pps == r.pps
            && st.bytes == q.stats_or_zeroed().bytes && st.packets == q.stats_or_zeroed().packets
            && st.qlen == q.stats_or_zeroed().qlen && st.backlog == q.stats_or_zeroed().backlog
            && st.drops == q.stats_or_zeroed().drops && st.requeues == q.stats_or_zeroed().requeues
            && st.overlimits == q.stats_or_zeroed().overlimits && st.xstats == q.stats_or_zeroed().xstats,
        q.stats is None ==> q.stats_or_zeroed() == Stats::zeroed() && Stats::zeroed().bytes == 0
            && Stats::zeroed().packets == 0 && Stats::zeroed().qlen == 0 && Stats::zeroed().backlog == 0
            && Stats::zeroed().drops == 0 && Stats::zeroed().requeues == 0
            && Stats::zeroed().overlimits == 0 && Stats::zeroed().bps == 0 && Stats::zeroed().pps == 0
            && Stats::zeroed().xstats is None,
        q.stats matches Some(s0) ==> q.stats_or_zeroed() == s0,
        with_basic(q, b).kind == q.kind && with_basic(q, b).handle == q.handle
            && with_basic(q, b).parent == q.parent && with_basic(q, b).qdisc == q.qdisc,
        with_queue(q, sq).kind == q.kind && with_queue(q, sq).handle == q.handle
            && with_queue(q, sq).parent == q.parent && with_queue(q, sq).qdisc == q.qdisc,
        with_rates(q, r).kind == q.kind && with_rates(q, r).handle == q.handle
            && with_rates(q, r).parent == q.parent && with_rates(q, r).qdisc == q.qdisc,
{
}

/// Reading an fq_codel qdisc-wide statistics block (TCA_XSTATS) sets the
/// qdisc-specific statistics to that block's nine counters, unchanged, and
/// keeps the other counters.
pub proof fn lemma_xstats_block_copied(q: QDisc, blk: FqCodelQdiscStats)
    ensures
        with_xstats(q, XStatsEntry::FqCodelQdisc(blk)).stats is Some,
        ({
            let st = with_xstats(q, XStatsEntry::FqCodelQdisc(blk)).stats.unwrap();
            &&& st.bytes == q.stats_or_zeroed().bytes && st.packets == q.stats_or_zeroed().packets
            &&& st.qlen == q.stats_or_zeroed().qlen && st.bps == q.stats_or_zeroed().bps
            &&& st.xstats matches Some(XStats::FqCodel(x))
                && x.maxpacket == blk.maxpacket && x.drop_overlimit == blk.drop_overlimit
                && x.ecn_mark == blk.ecn_mark && x.new_flow_count == blk.new_flow_count
                && x.new_flows_len == blk.new_flows_len && x.old_flows_len == blk.old_flows_len
                && x.ce_mark == blk.ce_mark && x.memory_usage == blk.memory_usage
                && x.drop_overmemory == blk.drop_overmemory
        }),
{
}

/// The fq_codel entries of a TCA_OPTIONS block, in order.
pub open spec fn fq_codel_options(opts: Seq<QdiscOption>) -> Seq<FqCodelOption>
    decreases opts.len(),
{
    if opts.len() == 0 {
        Seq::empty()
    } else {
        let rest = fq_codel_options(opts.drop_last());
        match opts.last() {
            QdiscOption::FqCodel(o) => rest.push(o),
            QdiscOption::Other => rest,
        }
    }
}

/// Reads a TCA_OPTIONS block: where it configures an fq_codel qdisc, that
/// configuration replaces the one the qdisc had.
pub open spec fn with_options(q: QDisc, opts: Seq<QdiscOption>) -> QDisc {
    let fq = fq_codel_options(opts);
    if fq.len() == 0 {
        q
    } else {
        QDisc { qdisc: Some(Classless::FqCodel(FqCodel::from_options(fq))), ..q }
    }
}

/// Reads one attribute.
pub open spec fn with_attribute(q: QDisc, a: TcAttribute) -> QDisc {
    match a {
        TcAttribute::Kind(k) => QDisc { kind: Some(k), ..q },
        TcAttribute::Options(opts) => with_options(q, opts@),
        TcAttribute::Stats(s) => with_rates(q, s),
        TcAttribute::Xstats(x) => with_xstats(q, x),
        TcAttribute::Stats2(es) => with_stats2(q, es@),
        TcAttribute::Other => q,
    }
}

/// Reads the attributes in order.
pub open spec fn with_attributes(q: QDisc, attrs: Seq<TcAttribute>) -> QDisc
    decreases attrs.len(),
{
    if attrs.len() == 0 {
        q
    } else {
        with_attribute(with_attributes(q, attrs.drop_last()), attrs.last())
    }
}

/// The qdisc that one dump message describes.
pub open spec fn qdisc_of(m: TcMessageInfo) -> QDisc {
    with_attributes(QDisc::empty(), m.attributes@)
}

/// The interface under which a message's qdisc is filed.
pub open spec fn device_of(m: TcMessageInfo) -> u32 {
    m.index as u32
}

/// The qdiscs of interface `dev`, in the order of their messages.
pub open spec fn qdiscs_on(ms: Seq<TcMessageInfo>, dev: u32) -> Seq<QDisc>
    decreases ms.len(),
{
    if ms.len() == 0 {
        Seq::empty()
    } else {
        let rest = qdiscs_on(ms.drop_last(), dev);
        if device_of(ms.last()) == dev {
            rest.push(qdisc_of(ms.last()))
        } else {
            rest
        }
    }
}

/// Whether some message is about interface `dev`.
pub open spec fn mentions_device(ms: Seq<TcMessageInfo>, dev: u32) -> bool {
    exists|i: int| 0 <= i < ms.len() && device_of(#[trigger] ms[i]) == dev
}

/// The number of qdiscs that the messages `ms` file under the interfaces `devs`.
pub open spec fn count_on(ms: Seq<TcMessageInfo>, devs: Seq<u32>) -> int
    decreases devs.len(),
{
    if devs.len() == 0 {
        0
    } else {
        count_on(ms, devs.drop_last()) + qdiscs_on(ms, devs.last()).len()
    }
}

/// The number of qdiscs listed under the interfaces `devs` in `lists`.
pub open spec fn listed_count(lists: Map<u32, Vec<QDisc>>, devs: Seq<u32>) -> int
    decreases devs.len(),
{
    if devs.len() == 0 {
        0
    } else {
        listed_count(lists, devs.drop_last()) + lists[devs.last()]@.len()
    }
}

proof fn lemma_count_on_nothing(devs: Seq<u32>)
    ensures
        count_on(Seq::<TcMessageInfo>::empty(), devs) == 0,
    decreases devs.len(),
{
    if devs.len() > 0 {
        lemma_count_on_nothing(devs.drop_last());
    }
}

proof fn lemma_count_on_last(ms: Seq<TcMessageInfo>, devs: Seq<u32>)
    requires
        ms.len() > 0,
        devs.no_duplicates(),
    ensures
        count_on(ms, devs) == count_on(ms.drop_last(), devs) + (if devs.contains(device_of(ms.last())) {
            1int
        } else {
            0int
        }),
    decreases devs.len(),
{
    if devs.len() > 0 {
        let rest = devs.drop_last();
        assert(rest.no_duplicates());
        lemma_count_on_last(ms, rest);
        let x = device_of(ms.last());
        if rest.contains(x) {
            let k = choose|k: int| 0 <= k < rest.len() && rest[k] == x;
            assert(devs[k] == x);
            assert(devs.last() != x);
        }
        assert(devs.contains(x) <==> rest.contains(x) || devs.last() == x) by {
            if devs.contains(x) {
                let k = choose|k: int| 0 <= k < devs.len() && devs[k] == x;
                if k < devs.len() - 1 {
                    assert(rest[k] == x);
                }
            }
            if rest.contains(x) {
                let k = choose|k: int| 0 <= k < rest.len() && rest[k] == x;
                assert(devs[k] == x);
            }
        }
    }
}

/// Every message files exactly one qdisc under its interface: over a list of
/// distinct interfaces that holds every interface the messages mention, the
/// qdiscs filed add up to the number of messages.
pub proof fn lemma_every_message_counted(ms: Seq<TcMessageInfo>, devs: Seq<u32>)
    requires
        devs.no_duplicates(),
        forall|d: u32| mentions_device(ms, d) ==> #[trigger] devs.contains(d),
    ensures
        count_on(ms, devs) == ms.len(),
    decreases ms.len(),
{
    if ms.len() == 0 {
        lemma_count_on_nothing(devs);
        assert(ms =~= Seq::<TcMessageInfo>::empty());
    } else {
        let rest = ms.drop_last();
        assert forall|d: u32| mentions_device(rest, d) implies #[trigger] devs.contains(d) by {
            let j = choose|j: int| 0 <= j < rest.len() && device_of(#[trigger] rest[j]) == d;
            assert(ms[j] == rest[j]);
        }
        lemma_every_message_counted(rest, devs);
        lemma_count_on_last(ms, devs);
        assert(device_of(ms[ms.len() - 1]) == device_of(ms.last()));
        assert(devs.contains(device_of(ms.last())));
    }
}

proof fn lemma_listed_is_counted(lists: Map<u32, Vec<QDisc>>, ms: Seq<TcMessageInfo>, devs: Seq<u32>)
    requires
        forall|d: u32| #[trigger] devs.contains(d) ==> lists.contains_key(d) && lists[d]@ == qdiscs_on(ms, d),
    ensures
        listed_count(lists, devs) == count_on(ms, devs),
    decreases devs.len(),
{
    if devs.len() > 0 {
        let rest = devs.drop_last();
        assert forall|d: u32| #[trigger] rest.contains(d) implies lists.contains_key(d) && lists[d]@ == qdiscs_on(ms, d) by {
            let k = choose|k: int| 0 <= k < rest.len() && rest[k] == d;
            assert(devs[k] == d);
            assert(devs.contains(d));
        }
        lemma_listed_is_counted(lists, ms, rest);
        assert(devs.contains(devs.last()));
    }
}

// ---------------------------------------------------------------------------
// The executable parsers.
// ---------------------------------------------------------------------------

/// Reads the rate estimates of a TCA_STATS block into `qdisc`.
pub fn parse_stats(qdisc: &mut QDisc, tc_stats: &RateEstimate)
    ensures
        *final(qdisc) == with_rates(*old(qdisc), *tc_stats),
{
    let mut stats = match qdisc.stats.take() {
        Some(s) => s,
        None => Stats::default(),
    };
    stats.bps = tc_stats.bps;
    stats.pps = tc_stats.pps;
    qdisc.stats = Some(stats);
}

/// Reads a TCA_STATS_BASIC entry into `qdisc`.
pub fn parse_stats_basic(qdisc: &mut QDisc, stats_basic: &StatsBasic)
    ensures
        *final(qdisc) == with_basic(*old(qdisc), *stats_basic),
{
    let mut stats = match qdisc.stats.take() {
        Some(s) => s,
        None => Stats::default(),
    };
    stats.bytes = stats_basic.bytes;
    stats.packets = stats_basic.packets;
    qdisc.stats = Some(stats);
}

/// Reads a TCA_STATS_QUEUE entry into `qdisc`.
pub fn parse_stats_queue(qdisc: &mut QDisc, stats_queue: &StatsQueue)
    ensures
        *final(qdisc) == with_queue(*old(qdisc), *stats_queue),
{
    let mut stats = match qdisc.stats.take() {
        Some(s) => s,
        None => Stats::default(),
    };
    stats.qlen = stats_queue.qlen;
    stats.backlog = stats_queue.backlog;
    stats.drops = stats_queue.drops;
    stats.requeues = stats_queue.requeues;
    stats.overlimits = stats_queue.overlimits;
    qdisc.stats = Some(stats);
}

/// Reads a TCA_OPTIONS block into `qdisc`.
fn parse_qdisc(qdisc: &mut QDisc, options: &Vec<QdiscOption>)
    ensures
        *final(qdisc) == with_options(*old(qdisc), options@),
{
    let mut fq: Vec<FqCodelOption> = Vec::new();
    let mut i: usize = 0;
    while i < options.len()
        invariant
            i <= options@.len(),
            fq@ == fq_codel_options(options@.take(i as int)),
        decreases options@.len() - i,
    {
        assert(options@.take(i + 1).drop_last() =~= options@.take(i as int));
        match options[i] {
            QdiscOption::FqCodel(o) => fq.push(o),
            QdiscOption::Other => {},
        }
        i = i + 1;
    }
    assert(options@.take(options@.len() as int) =~= options@);
    if fq.len() > 0 {
        qdisc.qdisc = Some(FqCodel::new(fq.as_slice()).into());
    }
}

/// Reads a TCA_XSTATS block into `qdisc`.
fn parse_xstats(qdisc: &mut QDisc, xstats: &XStatsEntry)
    ensures
        *final(qdisc) == with_xstats(*old(qdisc), *xstats),
{
    let mut stats = match qdisc.stats.take() {
        Some(s) => s,
        None => Stats::default(),
    };
    match xstats {
        XStatsEntry::FqCodelQdisc(b) => {
            stats.xstats = Some(XStats::FqCodel(FqCodelXStats::new(b)));
        },
        XStatsEntry::FqCodelOther => {
            stats.xstats = None;
        },
        XStatsEntry::Other => {},
    }
    qdisc.stats = Some(stats);
}

/// Reads the entries of a TCA_STATS2 block into `qdisc`.
fn parse_stats2(qdisc: &mut QDisc, entries: &Vec<Stats2Entry>)
    ensures
        *final(qdisc) == with_stats2(*old(qdisc), entries@),
{
    let ghost start = *qdisc;
    let mut i: usize = 0;
    while i < entries.len()
        invariant
            i <= entries@.len(),
            *qdisc == with_stats2(start, entries@.take(i as int)),
        decreases entries@.len() - i,
    {
        assert(entries@.take(i + 1).drop_last() =~= entries@.take(i as int));
        match &entries[i] {
            Stats2Entry::Basic(s) => parse_stats_basic(qdisc, s),
            Stats2Entry::Queue(s) => parse_stats_queue(qdisc, s),
            Stats2Entry::Other => {},
        }
        i = i + 1;
    }
    assert(entries@.take(entries@.len() as int) =~= entries@);
}

/// Assembles the qdisc that one dump message describes.
pub fn parse_message(message: &TcMessageInfo) -> (q: QDisc)
    ensures
        q == qdisc_of(*message),
{
    let mut qdisc = QDisc::default();
    let attrs = &message.attributes;
    let mut i: usize = 0;
    while i < attrs.len()
        invariant
            i <= attrs@.len(),
            attrs == &message.attributes,
            qdisc == with_attributes(QDisc::empty(), attrs@.take(i as int)),
        decreases attrs@.len() - i,
    {
        assert(attrs@.take(i + 1).drop_last() =~= attrs@.take(i as int));
        match &attrs[i] {
            TcAttribute::Kind(kind) => qdisc.kind = Some(kind.clone()),
            TcAttribute::Stats2(stats) => parse_stats2(&mut qdisc, stats),
            TcAttribute::Stats(stats) => parse_stats(&mut qdisc, stats),
            TcAttribute::Options(options) => parse_qdisc(&mut qdisc, options),
            TcAttribute::Xstats(xstats) => parse_xstats(&mut qdisc, xstats),
            TcAttribute::Other => {},
        }
        i = i + 1;
    }
    assert(attrs@.take(attrs@.len() as int) =~= attrs@);
    qdisc
}

/// Groups the qdiscs of a dump by interface index: each message gives one
/// qdisc, filed under its interface in the order of the messages. No list is
/// empty, and the lists together hold one qdisc for each message.
pub fn get_qdiscs(messages: &Vec<TcMessageInfo>) -> (qdiscs: BTreeMap<u32, Vec<QDisc>>)
    ensures
        forall|dev: u32| #[trigger] qdiscs@.contains_key(dev) <==> mentions_device(messages@, dev),
        forall|dev: u32| #[trigger] qdiscs@.contains_key(dev) ==> qdiscs@[dev]@ == qdiscs_on(messages@, dev),
        forall|dev: u32| #[trigger] qdiscs@.contains_key(dev) ==> qdiscs@[dev]@.len() > 0,
        forall|devs: Seq<u32>|
            devs.no_duplicates() && (forall|d: u32| #[trigger] devs.contains(d) <==> qdiscs@.contains_key(d))
                ==> #[trigger] listed_count(qdiscs@, devs) == messages@.len(),
{
    let mut qdiscs: BTreeMap<u32, Vec<QDisc>> = BTreeMap::new();
    let mut i: usize = 0;
    while i < messages.len()
        invariant
            i <= messages@.len(),
            forall|dev: u32| #[trigger] qdiscs@.contains_key(dev)
                <==> mentions_device(messages@.take(i as int), dev),
            forall|dev: u32| #[trigger] qdiscs@.contains_key(dev)
                ==> qdiscs@[dev]@ == qdiscs_on(messages@.take(i as int), dev),
            forall|dev: u32| #[trigger] qdiscs@.contains_key(dev) ==> qdiscs@[dev]@.len() > 0,
        decreases messages@.len() - i,
    {
        let ghost prefix = messages@.take(i as int);
        let ghost next = messages@.take(i + 1);
        assert(next.drop_last() =~= prefix);
        assert(next.last() == messages@[i as int]);
        let qdisc = parse_message(&messages[i]);
        let dev = messages[i].index as u32;
        let list = match qdiscs.remove(&dev) {
            Some(mut list) => {
                list.push(qdisc);
                list
            },
            None => {
                let mut list: Vec<QDisc> = Vec::new();
                list.push(qdisc);
                list
            },
        };
        qdiscs.insert(dev, list);
        assert forall|d: u32| #[trigger] qdiscs@.contains_key(d)
            <==> mentions_device(next, d) by {
            if mentions_device(prefix, d) {
                let j = choose|j: int| 0 <= j < prefix.len() && device_of(#[trigger] prefix[j]) == d;
                assert(next[j] == prefix[j]);
            }
            if mentions_device(next, d) && d != dev {
                let j = choose|j: int| 0 <= j < next.len() && device_of(#[trigger] next[j]) == d;
                assert(j < prefix.len());
                assert(prefix[j] == next[j]);
            }
            if d == dev {
                assert(device_of(next[i as int]) == d);
            }
        }
        assert forall|d: u32| #[trigger] qdiscs@.contains_key(d)
            implies qdiscs@[d]@ == qdiscs_on(next, d) by {
            if d == dev {
                if !mentions_device(prefix, d) {
                    lemma_absent_device_has_none(prefix, d);
                }
            }
        }
        i = i + 1;
    }
    assert(messages@.take(messages@.len() as int) =~= messages@);
    assert forall|devs: Seq<u32>|
        devs.no_duplicates() && (forall|d: u32| #[trigger] devs.contains(d) <==> qdiscs@.contains_key(d))
        implies #[trigger] listed_count(qdiscs@, devs) == messages@.len() by {
        lemma_listed_is_counted(qdiscs@, messages@, devs);
        lemma_every_message_counted(messages@, devs);
    }
    qdiscs
}

/// An interface that no message mentions has no qdiscs.
proof fn lemma_absent_device_has_none(ms: Seq<TcMessageInfo>, dev: u32)
    requires
        !mentions_device(ms, dev),
    ensures
        qdiscs_on(ms, dev) == Seq::<QDisc>::empty(),
    decreases ms.len(),
{
    if ms.len() > 0 {
        let prefix = ms.drop_last();
        assert forall|j: int| 0 <= j < prefix.len() implies device_of(#[trigger] prefix[j]) != dev by {
            assert(prefix[j] == ms[j]);
        }
        assert(device_of(ms[ms.len() - 1]) != dev);
        lemma_absent_device_has_none(prefix, dev);
    }
}


// ---------------------------------------------------------------------------
// Laws.
// ---------------------------------------------------------------------------

/// Whether an attribute carries statistics that the qdisc keeps.
pub open spec fn carries_stats(a: TcAttribute) -> bool {
    match a {
        TcAttribute::Stats(_) => true,
        TcAttribute::Xstats(_) => true,
        TcAttribute::Stats2(es) => exists|j: int|
            0 <= j < es@.len() && !(#[trigger] es@[j] is Other),
        _ => false,
    }
}

/// The kind that the last TCA_KIND attribute names, if there is one.
pub open spec fn last_kind(attrs: Seq<TcAttribute>) -> Option<String>
    decreases attrs.len(),
{
    if attrs.len() == 0 {
        None
    } else {
        match attrs.last() {
            TcAttribute::Kind(k) => Some(k),
            _ => last_kind(attrs.drop_last()),
        }
    }
}

proof fn lemma_stats2_keeps(q: QDisc, es: Seq<Stats2Entry>)
    ensures
        with_stats2(q, es).kind == q.kind,
        with_stats2(q, es).handle == q.handle,
        with_stats2(q, es).parent == q.parent,
        with_stats2(q, es).stats is Some <==> (q.stats is Some
            || exists|j: int| 0 <= j < es.len() && !(#[trigger] es[j] is Other)),
    decreases es.len(),
{
    if es.len() > 0 {
        let prefix = es.drop_last();
        lemma_stats2_keeps(q, prefix);
        if exists|j: int| 0 <= j < es.len() && !(#[trigger] es[j] is Other) {
            let j = choose|j: int| 0 <= j < es.len() && !(#[trigger] es[j] is Other);
            if j < es.len() - 1 {
                assert(prefix[j] == es[j]);
            }
        }
        if exists|j: int| 0 <= j < prefix.len() && !(#[trigger] prefix[j] is Other) {
            let j = choose|j: int| 0 <= j < prefix.len() && !(#[trigger] prefix[j] is Other);
            assert(es[j] == prefix[j]);
        }
    }
}

/// What a qdisc dump message makes of its qdisc: the kind is the one that
/// its last TCA_KIND attribute names, the qdisc has statistics exactly when
/// some attribute carries statistics, and handle and parent are never set.
pub proof fn lemma_qdisc_of_attributes(attrs: Seq<TcAttribute>)
    ensures
        with_attributes(QDisc::empty(), attrs).kind == last_kind(attrs),
        with_attributes(QDisc::empty(), attrs).stats is Some
            <==> exists|i: int| 0 <= i < attrs.len() && carries_stats(#[trigger] attrs[i]),
        with_attributes(QDisc::empty(), attrs).handle is None,
        with_attributes(QDisc::empty(), attrs).parent is None,
    decreases attrs.len(),
{
    if attrs.len() > 0 {
        let prefix = attrs.drop_last();
        lemma_qdisc_of_attributes(prefix);
        let q = with_attributes(QDisc::empty(), prefix);
        if let TcAttribute::Stats2(es) = attrs.last() {
            lemma_stats2_keeps(q, es@);
        }
        if exists|i: int| 0 <= i < attrs.len() && carries_stats(#[trigger] attrs[i]) {
            let i = choose|i: int| 0 <= i < attrs.len() && carries_stats(#[trigger] attrs[i]);
            if i < attrs.len() - 1 {
                assert(prefix[i] == attrs[i]);
            }
        }
        if exists|i: int| 0 <= i < prefix.len() && carries_stats(#[trigger] prefix[i]) {
            let i = choose|i: int| 0 <= i < prefix.len() && carries_stats(#[trigger] prefix[i]);
            assert(attrs[i] == prefix[i]);
        }
    }
}

/// The qdiscs filed under an interface are exactly those of the messages
/// about that interface, in the order of the messages.
pub proof fn lemma_qdiscs_on_device(ms: Seq<TcMessageInfo>, dev: u32)
    ensures
        qdiscs_on(ms, dev) == ms.filter(|m: TcMessageInfo| device_of(m) == dev).map_values(
            |m: TcMessageInfo| qdisc_of(m),
        ),
    decreases ms.len(),
{
    let pred = |m: TcMessageInfo| device_of(m) == dev;
    let f = |m: TcMessageInfo| qdisc_of(m);
    reveal_with_fuel(Seq::<_>::filter, 1);
    if ms.len() > 0 {
        lemma_qdiscs_on_device(ms.drop_last(), dev);
        assert(ms.filter(pred) == (if pred(ms.last()) {
            ms.drop_last().filter(pred).push(ms.last())
        } else {
            ms.drop_last().filter(pred)
        }));
        if pred(ms.last()) {
            assert(ms.drop_last().filter(pred).push(ms.last()).map_values(f)
                =~= ms.drop_last().filter(pred).map_values(f).push(qdisc_of(ms.last())));
        }
    } else {
        assert(ms.filter(pred).map_values(f) =~= Seq::<QDisc>::empty());
    }
}

/// The basic counters, the queue counters and the rate estimates fill
/// disjoint fields of the statistics, so reading them in either order gives
/// the same qdisc.
pub proof fn lemma_stats_blocks_commute(q: QDisc, b: StatsBasic, sq: StatsQueue, r: RateEstimate)
    ensures
        with_queue(with_basic(q, b), sq) == with_basic(with_queue(q, sq), b),
        with_queue(with_rates(q, r), sq) == with_rates(with_queue(q, sq), r),
        with_basic(with_rates(q, r), b) == with_rates(with_basic(q, b), r),
{
}

} // verus!
