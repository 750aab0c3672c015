use nettools::fq_codel::{FqCodel, FqCodelOption, FqCodelQdiscStats, FqCodelXStats};
use nettools::tc::{
    get_qdiscs, parse_message, parse_stats, parse_stats_basic, parse_stats_queue, Classless, QdiscOption, QDisc, RateEstimate, Stats, Stats2Entry,
    StatsBasic, StatsQueue, TcAttribute, TcMessageInfo, XStats, XStatsEntry,
};

fn block() -> FqCodelQdiscStats {
    FqCodelQdiscStats {
        maxpacket: 1514,
        drop_overlimit: 2,
        ecn_mark: 3,
        new_flow_count: 4,
        new_flows_len: 5,
        old_flows_len: 6,
        ce_mark: 7,
        memory_usage: 8,
        drop_overmemory: 9,
    }
}

fn message(index: i32, attributes: Vec<TcAttribute>) -> TcMessageInfo {
    TcMessageInfo { index, attributes }
}

#[test]
fn fq_codel_configuration_reads_options_in_order() {
    let fq = FqCodel::new(&[
        FqCodelOption::Target(4999),
        FqCodelOption::Limit(10240),
        FqCodelOption::Interval(99999),
        FqCodelOption::Ecn(1),
        FqCodelOption::Flows(1024),
        FqCodelOption::Quantum(1514),
        FqCodelOption::CeThreshold(7),
        FqCodelOption::DropBatchSize(64),
        FqCodelOption::MemoryLimit(33554432),
        FqCodelOption::Other,
        FqCodelOption::Limit(5),
    ]);
    assert_eq!(
        (fq.target, fq.limit, fq.interval, fq.ecn, fq.flows, fq.quantum, fq.ce_threshold, fq.drop_batch_size, fq.memory_limit),
        (4999, 5, 99999, 1, 1024, 1514, 7, 64, 33554432)
    );
    let empty = FqCodel::new(&[]);
    assert_eq!((empty.target, empty.limit, empty.memory_limit), (0, 0, 0));
}

#[test]
fn fq_codel_statistics_copy_the_block() {
    let x = FqCodelXStats::new(&block());
    assert_eq!(
        (x.maxpacket, x.drop_overlimit, x.ecn_mark, x.new_flow_count, x.new_flows_len, x.old_flows_len, x.ce_mark, x.memory_usage, x.drop_overmemory),
        (1514, 2, 3, 4, 5, 6, 7, 8, 9)
    );
}

#[test]
fn classless_from_fq_codel() {
    let fq = FqCodel::new(&[FqCodelOption::Flows(3)]);
    let Classless::FqCodel(inner) = Classless::from(fq);
    assert_eq!(inner.flows, 3);
}

#[test]
fn message_without_attributes_gives_an_empty_qdisc() {
    let q = parse_message(&message(1, vec![]));
    assert!(q.handle.is_none() && q.parent.is_none() && q.kind.is_none());
    assert!(q.stats.is_none() && q.qdisc.is_none());
}

#[test]
fn full_fq_codel_message() {
    let q = parse_message(&message(
        2,
        vec![
            TcAttribute::Kind("fq_codel".to_string()),
            TcAttribute::Options(vec![
                QdiscOption::FqCodel(FqCodelOption::Target(4999)),
                QdiscOption::Other,
                QdiscOption::FqCodel(FqCodelOption::Quantum(1514)),
            ]),
            TcAttribute::Stats2(vec![
                Stats2Entry::Basic(StatsBasic { bytes: 1000, packets: 10 }),
                Stats2Entry::Queue(StatsQueue { qlen: 1, backlog: 2, drops: 3, requeues: 4, overlimits: 5 }),
                Stats2Entry::Other,
            ]),
            TcAttribute::Stats(RateEstimate { bps: 80, pps: 1 }),
            TcAttribute::Xstats(XStatsEntry::FqCodelQdisc(block())),
            TcAttribute::Other,
        ],
    ));
    assert_eq!(q.kind.as_deref(), Some("fq_codel"));
    assert!(q.handle.is_none() && q.parent.is_none());
    match q.qdisc {
        Some(Classless::FqCodel(fq)) => {
            assert_eq!((fq.target, fq.quantum, fq.limit), (4999, 1514, 0));
        }
        None => panic!("no configuration"),
    }
    let s = q.stats.expect("statistics");
    assert_eq!((s.bytes, s.packets), (1000, 10));
    assert_eq!((s.qlen, s.backlog, s.drops, s.requeues, s.overlimits), (1, 2, 3, 4, 5));
    assert_eq!((s.bps, s.pps), (80, 1));
    match s.xstats {
        Some(XStats::FqCodel(x)) => assert_eq!((x.maxpacket, x.drop_overmemory), (1514, 9)),
        None => panic!("no fq_codel statistics"),
    }
}

#[test]
fn later_attributes_override_earlier_ones() {
    let q = parse_message(&message(
        2,
        vec![
            TcAttribute::Kind("pfifo".to_string()),
            TcAttribute::Xstats(XStatsEntry::FqCodelQdisc(block())),
            TcAttribute::Stats2(vec![Stats2Entry::Basic(StatsBasic { bytes: 1, packets: 1 })]),
            TcAttribute::Kind("fq_codel".to_string()),
            TcAttribute::Stats2(vec![Stats2Entry::Basic(StatsBasic { bytes: 2, packets: 3 })]),
            TcAttribute::Xstats(XStatsEntry::FqCodelOther),
        ],
    ));
    assert_eq!(q.kind.as_deref(), Some("fq_codel"));
    let s = q.stats.expect("statistics");
    assert_eq!((s.bytes, s.packets), (2, 3));
    assert!(s.xstats.is_none());
}

#[test]
fn statistics_appear_only_with_statistics_attributes() {
    let q = parse_message(&message(
        2,
        vec![
            TcAttribute::Stats2(vec![]),
            TcAttribute::Stats2(vec![Stats2Entry::Other]),
            TcAttribute::Options(vec![QdiscOption::Other]),
        ],
    ));
    assert!(q.stats.is_none());
    assert!(q.qdisc.is_none());
    let q = parse_message(&message(2, vec![TcAttribute::Xstats(XStatsEntry::Other)]));
    let s = q.stats.expect("statistics");
    assert_eq!((s.bytes, s.qlen, s.bps), (0, 0, 0));
    assert!(s.xstats.is_none());
}

#[test]
fn default_values_are_zero() {
    let s = Stats::default();
    assert_eq!((s.bytes, s.packets, s.qlen, s.backlog, s.drops, s.requeues, s.overlimits, s.bps, s.pps), (0, 0, 0, 0, 0, 0, 0, 0, 0));
    assert!(s.xstats.is_none());
    let q = QDisc::default();
    assert!(q.kind.is_none() && q.stats.is_none());
}

#[test]
fn qdiscs_are_grouped_by_interface_in_order() {
    let messages = vec![
        message(1, vec![TcAttribute::Kind("noqueue".to_string())]),
        message(2, vec![TcAttribute::Kind("mq".to_string())]),
        message(2, vec![TcAttribute::Kind("fq_codel".to_string())]),
        message(1, vec![TcAttribute::Kind("ingress".to_string())]),
        message(-1, vec![]),
    ];
    let map = get_qdiscs(&messages);
    assert_eq!(map.len(), 3);
    let kinds = |dev: u32| -> Vec<Option<String>> {
        map[&dev].iter().map(|q| q.kind.clone()).collect()
    };
    assert_eq!(kinds(1), vec![Some("noqueue".to_string()), Some("ingress".to_string())]);
    assert_eq!(kinds(2), vec![Some("mq".to_string()), Some("fq_codel".to_string())]);
    assert_eq!(kinds(u32::MAX), vec![None]);
    assert!(get_qdiscs(&vec![]).is_empty());
}

#[test]
fn statistics_blocks_read_in_either_order() {
    let basic = Stats2Entry::Basic(StatsBasic { bytes: 7, packets: 8 });
    let queue = Stats2Entry::Queue(StatsQueue { qlen: 1, backlog: 2, drops: 3, requeues: 4, overlimits: 5 });
    let rates = TcAttribute::Stats(RateEstimate { bps: 6, pps: 9 });
    let a = parse_message(&message(1, vec![TcAttribute::Stats2(vec![basic, queue]), rates.clone()]));
    let b = parse_message(&message(1, vec![rates, TcAttribute::Stats2(vec![queue, basic])]));
    let (a, b) = (a.stats.unwrap(), b.stats.unwrap());
    assert_eq!(
        (a.bytes, a.packets, a.qlen, a.backlog, a.drops, a.requeues, a.overlimits, a.bps, a.pps),
        (b.bytes, b.packets, b.qlen, b.backlog, b.drops, b.requeues, b.overlimits, b.bps, b.pps)
    );
    assert_eq!((a.bytes, a.qlen, a.pps), (7, 1, 9));
}

#[test]
fn stats_parsers_commute() {
    let basic = StatsBasic { bytes: 70, packets: 80 };
    let queue = StatsQueue { qlen: 11, backlog: 12, drops: 13, requeues: 14, overlimits: 15 };
    let rates = RateEstimate { bps: 16, pps: 17 };
    let mut first = QDisc::default();
    parse_stats_basic(&mut first, &basic);
    parse_stats_queue(&mut first, &queue);
    parse_stats(&mut first, &rates);
    let mut second = QDisc::default();
    parse_stats(&mut second, &rates);
    parse_stats_queue(&mut second, &queue);
    parse_stats_basic(&mut second, &basic);
    let (a, b) = (first.stats.unwrap(), second.stats.unwrap());
    assert_eq!(
        (a.bytes, a.packets, a.qlen, a.backlog, a.drops, a.requeues, a.overlimits, a.bps, a.pps),
        (70, 80, 11, 12, 13, 14, 15, 16, 17)
    );
    assert_eq!(
        (b.bytes, b.packets, b.qlen, b.backlog, b.drops, b.requeues, b.overlimits, b.bps, b.pps),
        (70, 80, 11, 12, 13, 14, 15, 16, 17)
    );
}

#[test]
fn grouped_lists_hold_every_message_once() {
    let messages: Vec<TcMessageInfo> = [3, 1, 3, 3, 2, 1].iter().map(|i| message(*i, vec![])).collect();
    let map = get_qdiscs(&messages);
    assert!(map.values().all(|list| !list.is_empty()));
    assert_eq!(map.values().map(|list| list.len()).sum::<usize>(), messages.len());
    assert_eq!((map[&1].len(), map[&2].len(), map[&3].len()), (2, 1, 3));
}
