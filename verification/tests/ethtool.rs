use std::convert::TryInto;

use nettools::common::{GSTRINGS_DATA_LEN, MAX_GSTRINGS};
use nettools::ethtool::{
    parse_features, parse_values, Ethtool, StatsProgress, StatsQuery, StatsReply, StatsStep,
};
use nettools::{ethtool_stats, EthtoolError, EthtoolReadable};

fn zeroed_area() -> Box<[u8; GSTRINGS_DATA_LEN]> {
    vec![0u8; GSTRINGS_DATA_LEN].into_boxed_slice().try_into().unwrap()
}

fn names_area(names: &[&[u8]]) -> Box<[u8; GSTRINGS_DATA_LEN]> {
    let mut area = zeroed_area();
    for (i, name) in names.iter().enumerate() {
        area[32 * i..32 * i + name.len()].copy_from_slice(name);
    }
    area
}

fn values_area(values: &[u64]) -> Box<[u8; GSTRINGS_DATA_LEN]> {
    let mut area = zeroed_area();
    for (i, v) in values.iter().enumerate() {
        area[8 * i..8 * i + 8].copy_from_slice(&v.to_le_bytes());
    }
    area
}

/// A NIC whose driver answers the ethtool requests with a recorded set of
/// statistics, driven through the library's exchange.
struct RecordedNic {
    handle: Ethtool,
}

const RECORDED: [(&str, u64); 4] = [
    ("rx_packets", 1523),
    ("tx_packets", 977),
    ("rx_bytes", 2_098_213),
    ("tx_queue_0_restart", 0),
];

impl EthtoolReadable for RecordedNic {
    fn new(if_name: &str) -> Result<Self, EthtoolError> {
        Ok(RecordedNic { handle: Ethtool::new(3, if_name) })
    }

    fn stats(&self) -> Result<Vec<(String, u64)>, EthtoolError> {
        let mut step = self.handle.begin_stats();
        loop {
            match step {
                StatsStep::Finished(outcome) => return outcome.map_err(EthtoolError::Stats),
                StatsStep::Issue { next, query } => {
                    let reply = match query {
                        StatsQuery::SetInfo(mut info) => {
                            info.data = RECORDED.len();
                            StatsReply::SetInfo(info)
                        }
                        StatsQuery::Strings(_) => {
                            let names: Vec<&[u8]> =
                                RECORDED.iter().map(|(n, _)| n.as_bytes()).collect();
                            StatsReply::Strings(names_area(&names))
                        }
                        StatsQuery::Stats(_) => {
                            let values: Vec<u64> = RECORDED.iter().map(|(_, v)| *v).collect();
                            StatsReply::Stats(values_area(&values))
                        }
                    };
                    step = self.handle.continue_stats(next, Ok(reply));
                }
            }
        }
    }
}

#[test]
fn test_stats() {
    let result = ethtool_stats::<RecordedNic>("ens5");
    assert!(result.is_ok());

    let stats = result.unwrap();
    assert_ne!(stats.len(), 0);
    assert!(stats.iter().any(|stat| stat.1 != 0));
}

#[test]
fn recorded_stats_pair_names_with_values() {
    let stats = ethtool_stats::<RecordedNic>("ens5").unwrap();
    let expected: Vec<(String, u64)> =
        RECORDED.iter().map(|(n, v)| (n.to_string(), *v)).collect();
    assert_eq!(stats, expected);
}

struct Unreachable;

impl EthtoolReadable for Unreachable {
    fn new(if_name: &str) -> Result<Self, EthtoolError> {
        Err(EthtoolError::Open(format!("no interface {}", if_name)))
    }

    fn stats(&self) -> Result<Vec<(String, u64)>, EthtoolError> {
        Ok(vec![("never".to_string(), 1)])
    }
}

#[test]
fn open_failure_is_returned() {
    match ethtool_stats::<Unreachable>("ens5") {
        Err(EthtoolError::Open(msg)) => assert_eq!(msg, "no interface ens5"),
        other => panic!("unexpected outcome {:?}", other),
    }
}

#[test]
fn values_are_little_endian() {
    let mut area = zeroed_area();
    area[0..8].copy_from_slice(&[0x01, 0x02, 0, 0, 0, 0, 0, 0]);
    area[8..16].copy_from_slice(&[0xff; 8]);
    area[16..24].copy_from_slice(&[0, 0, 0, 0, 0, 0, 0, 0x80]);
    let values = parse_values(*area, 3);
    assert_eq!(values, vec![0x0201, u64::MAX, 0x8000_0000_0000_0000]);
}

#[test]
fn values_of_zero_statistics() {
    let area = zeroed_area();
    assert_eq!(parse_values(*area, 0), Vec::<u64>::new());
}

#[test]
fn values_fill_the_whole_area() {
    let values: Vec<u64> = (0..(GSTRINGS_DATA_LEN / 8) as u64).collect();
    let area = values_area(&values);
    let parsed = parse_values(*area, GSTRINGS_DATA_LEN / 8);
    assert_eq!(parsed, values);
}

#[test]
fn features_skip_slots_without_a_name() {
    let mut area = names_area(&[b"rx_packets", b"", b"tx_packets", &[0xc3, 0x28], b"rx_\xc3\xa9"]);
    // slot 5: 32 bytes without a terminating zero
    area[32 * 5..32 * 6].copy_from_slice(&[b'a'; 32]);
    // slot 6: a name followed by garbage after its terminator
    area[32 * 6..32 * 6 + 6].copy_from_slice(b"ok\0zzz");
    let names = parse_features(*area, 7);
    assert_eq!(names, vec!["rx_packets", "tx_packets", "rx_é", "ok"]);
}

#[test]
fn features_only_read_the_first_slots() {
    let area = names_area(&[b"a", b"b", b"c"]);
    assert_eq!(parse_features(*area, 2), vec!["a", "b"]);
    assert_eq!(parse_features(*area, 0), Vec::<String>::new());
}

#[test]
fn features_at_the_limit() {
    let mut area = zeroed_area();
    area[32 * (MAX_GSTRINGS - 1)] = b'z';
    let names = parse_features(*area, MAX_GSTRINGS);
    assert_eq!(names, vec!["z"]);
}

#[test]
fn ifreq_name_is_zero_padded() {
    let handle = Ethtool::new(7, "eth0");
    assert_eq!(handle.sock_fd(), 7);
    assert_eq!(handle.if_name(), "eth0");
    let mut expected = [0u8; 16];
    expected[..4].copy_from_slice(b"eth0");
    assert_eq!(handle.ifreq_name(), expected);
    let full = Ethtool::new(7, "abcdefghijklmnop");
    assert_eq!(&full.ifreq_name(), b"abcdefghijklmnop");
}

#[test]
fn requests_carry_the_ethtool_commands() {
    let handle = Ethtool::new(7, "eth0");
    let info = handle.gsset_info_request();
    assert_eq!((info.cmd, info.reserved, info.mask, info.data), (0x37, 1, 2, 0));
    let strings = handle.gstrings_request(12);
    assert_eq!((strings.cmd, strings.string_set, strings.len), (0x1b, 1, 12));
    let features = vec!["a".to_string(), "b".to_string()];
    let stats = handle.gstats_request(&features);
    assert_eq!((stats.cmd, stats.len), (0x1d, 2));
}

#[test]
fn replies_are_decoded() {
    let handle = Ethtool::new(7, "eth0");
    let mut info = handle.gsset_info_request();
    info.data = 42;
    assert_eq!(handle.gsset_info(Ok(info)), Ok(42));
    assert_eq!(handle.gsset_info(Err(-1)), Err(-1));
    assert_eq!(handle.gstrings(1, Ok(names_area(&[b"x"]))), Ok(vec!["x".to_string()]));
    assert_eq!(handle.gstrings(1, Err(5)), Err(5));
    let features = vec!["x".to_string()];
    assert_eq!(handle.gstats(&features, Ok(values_area(&[9]))), Ok(vec![9]));
    assert_eq!(handle.gstats(&features, Err(6)), Err(6));
}

#[test]
fn exchange_walks_through_the_three_requests() {
    let handle = Ethtool::new(7, "eth0");
    let step = handle.begin_stats();
    let next = match step {
        StatsStep::Issue { next: next @ StatsProgress::Counting, query: StatsQuery::SetInfo(info) } => {
            assert_eq!(info.cmd, 0x37);
            next
        }
        other => panic!("unexpected step {:?}", other),
    };
    let mut info = handle.gsset_info_request();
    info.data = 3;
    let next = match handle.continue_stats(next, Ok(StatsReply::SetInfo(info))) {
        StatsStep::Issue { next: next @ StatsProgress::Naming { length: 3 }, query: StatsQuery::Strings(req) } => {
            assert_eq!(req.len, 3);
            next
        }
        other => panic!("unexpected step {:?}", other),
    };
    let next = match handle.continue_stats(next, Ok(StatsReply::Strings(names_area(&[b"a", b"", b"c"])))) {
        StatsStep::Issue { next, query: StatsQuery::Stats(req) } => {
            assert_eq!(req.len, 2);
            next
        }
        other => panic!("unexpected step {:?}", other),
    };
    match handle.continue_stats(next, Ok(StatsReply::Stats(values_area(&[10, 20, 30])))) {
        StatsStep::Finished(Ok(stats)) => {
            assert_eq!(stats, vec![("a".to_string(), 10), ("c".to_string(), 20)]);
        }
        other => panic!("unexpected step {:?}", other),
    }
}

#[test]
fn failed_requests_end_the_exchange() {
    let handle = Ethtool::new(7, "eth0");
    match handle.continue_stats(StatsProgress::Counting, Err(1)) {
        StatsStep::Finished(Err(msg)) => assert_eq!(
            msg,
            "failed to fetch number of stats using ETHTOOL_GSSET_INFO with errno=EPERM: Operation not permitted"
        ),
        other => panic!("unexpected step {:?}", other),
    }
    match handle.continue_stats(StatsProgress::Naming { length: 1 }, Err(-1)) {
        StatsStep::Finished(Err(msg)) => assert_eq!(
            msg,
            "failed to fetch the stat names using ETHTOOL_GSTRINGS with errno=UnknownErrno: Unknown errno"
        ),
        other => panic!("unexpected step {:?}", other),
    }
    match handle.continue_stats(StatsProgress::Measuring { features: vec![] }, Err(19)) {
        StatsStep::Finished(Err(msg)) => assert_eq!(
            msg,
            "failed to fetch values of stats using ETHTOOL_GSTATS with errno=ENODEV: No such device"
        ),
        other => panic!("unexpected step {:?}", other),
    }
}
