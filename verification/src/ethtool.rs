//! NIC statistics through the ethtool ioctl interface: the requests that the
//! SIOCETHTOOL ioctl carries, the decoding of its replies, and the sequence
//! of requests that reads all statistics of an interface.
use vstd::prelude::*;
use vstd::string::StringExecFns;
use vstd::utf8::{decode_utf8, encode_utf8, valid_utf8};

use crate::common::{
    ETHTOOL_GSSET_INFO, ETHTOOL_GSTATS, ETHTOOL_GSTRINGS, ETH_GSTRING_LEN, ETH_SS_STATS,
    GSTRINGS_DATA_LEN, IFNAME_MAX_SIZE, MAX_GSTRINGS,
};
use crate::text::utf8_text;

verus! {

// ---------------------------------------------------------------------------
// Decoding of the data areas.
// ---------------------------------------------------------------------------

/// The unsigned value of eight bytes in little-endian order.
pub open spec fn le_u64(b: Seq<u8>) -> int {
    b[0] + b[1] * 0x100 + b[2] * 0x1_0000 + b[3] * 0x100_0000 + b[4] * 0x1_0000_0000
        + b[5] * 0x100_0000_0000 + b[6] * 0x1_0000_0000_0000 + b[7] * 0x100_0000_0000_0000
}

/// The `i`-th 64-bit counter of a statistics data area.
pub open spec fn counter_at(data: Seq<u8>, i: int) -> int {
    le_u64(data.subrange(8 * i, 8 * i + 8))
}

/// Decodes the first `length` counters of the data area of an ETHTOOL_GSTATS
/// reply: 64-bit values in little-endian order, one after the other.
pub fn parse_values(data: [u8; GSTRINGS_DATA_LEN], length: usize) -> (values: Vec<u64>)
    requires
        8 * length <= GSTRINGS_DATA_LEN,
    ensures
        values@.len() == length,
        forall|i: int| 0 <= i < length ==> values@[i] == counter_at(data@, i),
        forall|i: int| 0 <= i < length ==> values@[i] == little_endian_value(data@.subrange(8 * i, 8 * i + 8)),
{
    let bytes = data.as_slice();
    let mut values: Vec<u64> = Vec::with_capacity(length);
    let mut i: usize = 0;
    while i < length
        invariant
            8 * length <= GSTRINGS_DATA_LEN,
            bytes@ == data@,
            bytes@.len() == GSTRINGS_DATA_LEN,
            i <= length,
            values@.len() == i,
            forall|j: int| 0 <= j < i ==> values@[j] == counter_at(data@, j),
        decreases length - i,
    {
        let offset = 8 * i;
        let b0 = bytes[offset] as u64;
        let b1 = bytes[offset + 1] as u64;
        let b2 = bytes[offset + 2] as u64;
        let b3 = bytes[offset + 3] as u64;
        let b4 = bytes[offset + 4] as u64;
        let b5 = bytes[offset + 5] as u64;
        let b6 = bytes[offset + 6] as u64;
        let b7 = bytes[offset + 7] as u64;
        let value = b0 + b1 * 0x100 + b2 * 0x1_0000 + b3 * 0x100_0000 + b4 * 0x1_0000_0000
            + b5 * 0x100_0000_0000 + b6 * 0x1_0000_0000_0000 + b7 * 0x100_0000_0000_0000;
        proof {
            let s = data@.subrange(8 * i, 8 * i + 8);
            assert(s[0] == b0 && s[1] == b1 && s[2] == b2 && s[3] == b3);
            assert(s[4] == b4 && s[5] == b5 && s[6] == b6 && s[7] == b7);
        }
        values.push(value);
        i = i + 1;
    }
    proof {
        assert forall|i: int| 0 <= i < length implies values@[i] == little_endian_value(
            data@.subrange(8 * i, 8 * i + 8),
        ) by {
            lemma_counter_is_little_endian(data@, i);
        }
    }
    values
}

/// The unsigned number whose little-endian encoding is `s`: the first byte
/// is the least significant digit in base 256.
pub open spec fn little_endian_value(s: Seq<u8>) -> nat
    decreases s.len(),
{
    if s.len() == 0 {
        0
    } else {
        s[0] as nat + 256 * little_endian_value(s.drop_first())
    }
}

/// Each counter of a statistics area is the unsigned number whose
/// little-endian encoding is the eight bytes at its offset.
pub proof fn lemma_counter_is_little_endian(data: Seq<u8>, i: int)
    requires
        0 <= i,
        8 * i + 8 <= data.len(),
    ensures
        counter_at(data, i) == little_endian_value(data.subrange(8 * i, 8 * i + 8)),
{
    let s = data.subrange(8 * i, 8 * i + 8);
    let s1 = s.drop_first();
    let s2 = s1.drop_first();
    let s3 = s2.drop_first();
    let s4 = s3.drop_first();
    let s5 = s4.drop_first();
    let s6 = s5.drop_first();
    let s7 = s6.drop_first();
    let s8 = s7.drop_first();
    assert(s8.len() == 0);
    assert(little_endian_value(s8) == 0);
    assert(little_endian_value(s7) == s[7] as nat);
    assert(little_endian_value(s6) == s[6] + 256 * little_endian_value(s7));
    assert(little_endian_value(s5) == s[5] + 256 * little_endian_value(s6));
    assert(little_endian_value(s4) == s[4] + 256 * little_endian_value(s5));
    assert(little_endian_value(s3) == s[3] + 256 * little_endian_value(s4));
    assert(little_endian_value(s2) == s[2] + 256 * little_endian_value(s3));
    assert(little_endian_value(s1) == s[1] + 256 * little_endian_value(s2));
    assert(little_endian_value(s) == s[0] + 256 * little_endian_value(s1));
}

/// The position of the first zero byte of `block` at or after `from`.
pub open spec fn zero_from(block: Seq<u8>, from: int) -> Option<int>
    decreases block.len() - from,
{
    if from < 0 || from >= block.len() {
        None
    } else if block[from] == 0 {
        Some(from)
    } else {
        zero_from(block, from + 1)
    }
}

/// The `i`-th string slot of a string-set data area.
pub open spec fn gstring_slot(data: Seq<u8>, i: int) -> Seq<u8> {
    data.subrange(i * ETH_GSTRING_LEN, i * ETH_GSTRING_LEN + ETH_GSTRING_LEN)
}

/// The name that a string slot holds: the bytes before its first zero,
/// where there is one, they are well-formed UTF-8 and the text is not empty.
pub open spec fn slot_name(slot: Seq<u8>) -> Option<Seq<char>> {
    match zero_from(slot, 0) {
        None => None,
        Some(end) => {
            let bytes = slot.take(end);
            if valid_utf8(bytes) && decode_utf8(bytes).len() > 0 {
                Some(decode_utf8(bytes))
            } else {
                None
            }
        },
    }
}

/// The names held by the first `n` slots of a string-set data area, in slot
/// order; slots that hold no name are skipped.
pub open spec fn slot_names(data: Seq<u8>, n: int) -> Seq<Seq<char>>
    decreases n,
{
    if n <= 0 {
        Seq::empty()
    } else {
        let prev = slot_names(data, n - 1);
        match slot_name(gstring_slot(data, n - 1)) {
            Some(name) => prev.push(name),
            None => prev,
        }
    }
}

/// The names read from the first `n` string slots are at most `n`; none of
/// them is empty, and the UTF-8 encoding of each is shorter than a slot and
/// holds no zero byte.
pub proof fn lemma_slot_names_bounded(data: Seq<u8>, n: int)
    requires
        n * ETH_GSTRING_LEN <= data.len(),
    ensures
        slot_names(data, n).len() <= if n < 0 { 0 } else { n },
        forall|k: int| 0 <= k < slot_names(data, n).len() ==> {
            let name = #[trigger] slot_names(data, n)[k];
            &&& name.len() > 0
            &&& encode_utf8(name).len() < ETH_GSTRING_LEN
            &&& forall|j: int| 0 <= j < encode_utf8(name).len() ==> encode_utf8(name)[j] != 0
        },
    decreases n,
{
    if n > 0 {
        lemma_slot_names_bounded(data, n - 1);
        let slot = gstring_slot(data, n - 1);
        lemma_zero_from_bounds(slot, 0);
        if let Some(name) = slot_name(slot) {
            let end = zero_from(slot, 0)->0;
            let bytes = slot.take(end);
            vstd::utf8::decode_utf8_encode_utf8(bytes);
            assert(encode_utf8(name) == bytes);
            assert forall|j: int| 0 <= j < bytes.len() implies bytes[j] != 0 by {
                assert(bytes[j] == slot[j]);
            }
            let prev = slot_names(data, n - 1);
            assert(slot_names(data, n) == prev.push(name));
            assert forall|k: int| 0 <= k < slot_names(data, n).len() implies {
                let nm = #[trigger] slot_names(data, n)[k];
                &&& nm.len() > 0
                &&& encode_utf8(nm).len() < ETH_GSTRING_LEN
                &&& forall|j: int| 0 <= j < encode_utf8(nm).len() ==> encode_utf8(nm)[j] != 0
            } by {
                if k < prev.len() {
                    assert(slot_names(data, n)[k] == prev[k]);
                }
            }
        }
    }
}

/// The texts of a list of names.
pub open spec fn texts(names: Seq<String>) -> Seq<Seq<char>> {
    names.map_values(|s: String| s@)
}

/// A zero found at or after `from` lies in the block, and no earlier byte
/// from `from` on is zero.
proof fn lemma_zero_from_bounds(block: Seq<u8>, from: int)
    ensures
        zero_from(block, from) matches Some(e) ==> {
            &&& 0 <= from <= e < block.len()
            &&& block[e] == 0
            &&& forall|k: int| from <= k < e ==> block[k] != 0
        },
    decreases block.len() - from,
{
    if 0 <= from < block.len() && block[from] != 0 {
        lemma_zero_from_bounds(block, from + 1);
    }
}

/// A string slot holds a name exactly when it has a zero byte and the bytes
/// before its first zero are non-empty, well-formed UTF-8; the name's UTF-8
/// encoding is then those bytes, so that the slot starts with the encoded
/// name followed by a zero, and the name holds no zero byte.
pub proof fn lemma_slot_name_before_first_zero(slot: Seq<u8>, z: int)
    requires
        0 <= z < slot.len(),
        slot[z] == 0,
        forall|k: int| 0 <= k < z ==> slot[k] != 0,
    ensures
        slot_name(slot) is Some <==> valid_utf8(slot.take(z)) && z > 0,
        slot_name(slot) matches Some(name) ==> {
            &&& encode_utf8(name) == slot.take(z)
            &&& slot[encode_utf8(name).len() as int] == 0
            &&& forall|k: int| 0 <= k < encode_utf8(name).len() ==> encode_utf8(name)[k] != 0
        },
{
    lemma_zero_from_bounds(slot, 0);
    assert(zero_from(slot, 0) == Some(z)) by {
        lemma_zero_from_first(slot, 0, z);
    }
    let bytes = slot.take(z);
    if valid_utf8(bytes) {
        vstd::utf8::decode_utf8_encode_utf8(bytes);
        assert(decode_utf8(bytes).len() > 0 <==> bytes.len() > 0);
    }
}

/// The first zero at or after `from` is the zero at `z` when no byte between
/// them is zero.
proof fn lemma_zero_from_first(block: Seq<u8>, from: int, z: int)
    requires
        0 <= from <= z < block.len(),
        block[z] == 0,
        forall|k: int| from <= k < z ==> block[k] != 0,
    ensures
        zero_from(block, from) == Some(z),
    decreases z - from,
{
    if from < z {
        lemma_zero_from_first(block, from + 1, z);
    }
}

/// The position of the first zero byte of a string slot, if it has one.
fn zero_position(slot: &[u8]) -> (end: Option<usize>)
    ensures
        match end {
            Some(e) => zero_from(slot@, 0) == Some(e as int),
            None => zero_from(slot@, 0) is None,
        },
{
    let mut j: usize = 0;
    while j < slot.len()
        invariant
            j <= slot@.len(),
            zero_from(slot@, 0) == zero_from(slot@, j as int),
        decreases slot@.len() - j,
    {
        if slot[j] == 0 {
            return Some(j);
        }
        j = j + 1;
    }
    None
}

/// Decodes the names of the first `length` slots of the data area of an
/// ETHTOOL_GSTRINGS reply, skipping the slots that hold no name.
pub fn parse_features(data: [u8; GSTRINGS_DATA_LEN], length: usize) -> (names: Vec<String>)
    requires
        length <= MAX_GSTRINGS,
    ensures
        texts(names@) == slot_names(data@, length as int),
{
    let bytes = data.as_slice();
    let mut names: Vec<String> = Vec::new();
    let mut i: usize = 0;
    while i < length
        invariant
            length <= MAX_GSTRINGS,
            bytes@ == data@,
            bytes@.len() == GSTRINGS_DATA_LEN,
            i <= length,
            texts(names@) == slot_names(data@, i as int),
        decreases length - i,
    {
        let slot = &bytes[i * ETH_GSTRING_LEN..(i + 1) * ETH_GSTRING_LEN];
        assert(slot@ == gstring_slot(data@, i as int));
        let ghost before = names@;
        match zero_position(slot) {
            Some(end) => {
                proof {
                    lemma_zero_from_bounds(slot@, 0);
                }
                let name_bytes = &slot[0..end];
                assert(name_bytes@ =~= slot@.take(end as int));
                match utf8_text(name_bytes) {
                    Some(text) => {
                        if !text.is_empty() {
                            names.push(text.to_owned());
                            assert(texts(names@) =~= texts(before).push(text@));
                        }
                    },
                    None => {},
                }
            },
            None => {},
        }
        i = i + 1;
    }
    names
}


// ---------------------------------------------------------------------------
// The requests.
// ---------------------------------------------------------------------------

/// An ETHTOOL_GSSET_INFO request (`struct ethtool_sset_info`); after the
/// ioctl, `data` holds the size of the requested string set.
#[derive(Clone, Copy, Debug)]
pub struct StringSetInfo {
    pub cmd: u32,
    pub reserved: u32,
    pub mask: u32,
    pub data: usize,
}

/// The header of an ETHTOOL_GSTRINGS request (`struct ethtool_gstrings`);
/// the caller appends a zeroed data area of `GSTRINGS_DATA_LEN` bytes.
#[derive(Clone, Copy, Debug)]
pub struct GStrings {
    pub cmd: u32,
    pub string_set: u32,
    pub len: u32,
}

/// The header of an ETHTOOL_GSTATS request (`struct ethtool_stats`); the
/// caller appends a zeroed data area of `GSTRINGS_DATA_LEN` bytes.
#[derive(Clone, Copy, Debug)]
pub struct GStats {
    pub cmd: u32,
    pub len: u32,
}

/// The interface-name field of a `struct ifreq`: the name's bytes, padded
/// with zeros to `IFNAME_MAX_SIZE` bytes.
pub open spec fn ifreq_name_field(name: Seq<u8>) -> Seq<u8> {
    Seq::new(IFNAME_MAX_SIZE as nat, |j: int| if j < name.len() { name[j] } else { 0u8 })
}

/// The text with which `nix` displays the errno value `code`
/// (its symbolic name, a colon and its description).
pub uninterp spec fn errno_display(code: i32) -> Seq<char>;

/// The text that `nix` displays for the errno value `code`: the value is
/// turned into an `Errno` with `nix::errno::Errno::from_i32` and displayed.
#[verifier::external_body]
fn errno_text(code: i32) -> (text: String)
    ensures
        text@ == errno_display(code),
{
    nix::errno::Errno::from_i32(code).to_string()
}

/// An error message: `context` followed by the text of the errno value `code`.
fn errno_message(context: &str, code: i32) -> (msg: String)
    ensures
        msg@ == context@ + errno_display(code),
{
    let mut msg = context.to_owned();
    let text = errno_text(code);
    msg.append(text.as_str());
    msg
}

/// A handle on the statistics of one interface: a datagram socket on which
/// the SIOCETHTOOL ioctl is issued, and the interface's name.
pub struct Ethtool {
    sock_fd: i32,
    if_name: String,
}

/// What the caller of the statistics exchange sends next through SIOCETHTOOL.
#[derive(Clone, Copy, Debug)]
pub enum StatsQuery {
    SetInfo(StringSetInfo),
    Strings(GStrings),
    Stats(GStats),
}

/// The reply to a query of the statistics exchange, when the ioctl succeeded.
#[derive(Debug)]
pub enum StatsReply {
    /// The `StringSetInfo` request as the kernel filled it.
    SetInfo(StringSetInfo),
    /// The data area of an ETHTOOL_GSTRINGS request.
    Strings(Box<[u8; GSTRINGS_DATA_LEN]>),
    /// The data area of an ETHTOOL_GSTATS request.
    Stats(Box<[u8; GSTRINGS_DATA_LEN]>),
}

/// Where the statistics exchange stands.
#[derive(Debug)]
pub enum StatsProgress {
    /// Waiting for the number of statistics.
    Counting,
    /// Waiting for the names of `length` statistics.
    Naming { length: usize },
    /// Waiting for the values of the named statistics.
    Measuring { features: Vec<String> },
}

/// The next step of the statistics exchange.
#[derive(Debug)]
pub enum StatsStep {
    /// Issue `query`, then continue from `next` with its outcome.
    Issue { next: StatsProgress, query: StatsQuery },
    /// The exchange is over: the statistics paired with their names, or the
    /// reason why they could not be read.
    Finished(Result<Vec<(String, u64)>, String>),
}

/// Whether a reply is of the kind that the exchange waits for.
pub open spec fn reply_fits(progress: StatsProgress, reply: Result<StatsReply, i32>) -> bool {
    match reply {
        Err(_) => true,
        Ok(r) => match progress {
            StatsProgress::Counting => r is SetInfo,
            StatsProgress::Naming { .. } => r is Strings,
            StatsProgress::Measuring { .. } => r is Stats,
        },
    }
}

/// The statistics named `features`, paired in order with the counters of a
/// statistics data area.
pub open spec fn paired(features: Seq<String>, data: Seq<u8>, stats: Seq<(String, u64)>) -> bool {
    &&& stats.len() == features.len()
    &&& forall|i: int|
        0 <= i < features.len() ==> #[trigger] stats[i] == (features[i], counter_at(data, i) as u64)
}

/// How the statistics exchange moves on from `progress` with the outcome of
/// the last query (an errno value where the ioctl failed): the number of
/// statistics leads to a request for their names, the names to a request for
/// their values, and the values to the statistics paired with their names; a
/// failed ioctl ends the exchange with a message that says which request
/// failed and why.
pub open spec fn stats_transition(progress: StatsProgress, outcome: Result<StatsReply, i32>, step: StatsStep) -> bool {
    match (progress, outcome) {
        (StatsProgress::Counting, Err(code)) => step matches StatsStep::Finished(Err(msg))
            && msg@ == "failed to fetch number of stats using ETHTOOL_GSSET_INFO with errno="@ + errno_display(code),
        (StatsProgress::Counting, Ok(StatsReply::SetInfo(info))) => step == (StatsStep::Issue {
            next: StatsProgress::Naming { length: info.data },
            query: StatsQuery::Strings(GStrings { cmd: ETHTOOL_GSTRINGS, string_set: ETH_SS_STATS, len: info.data as u32 }),
        }),
        (StatsProgress::Naming { length }, Err(code)) => step matches StatsStep::Finished(Err(msg))
            && msg@ == "failed to fetch the stat names using ETHTOOL_GSTRINGS with errno="@ + errno_display(code),
        (StatsProgress::Naming { length }, Ok(StatsReply::Strings(data))) => step matches StatsStep::Issue {
            next: StatsProgress::Measuring { features },
            query: StatsQuery::Stats(req),
        } && texts(features@) == slot_names(data@, length as int)
          && features@.len() <= length
          && req == (GStats { cmd: ETHTOOL_GSTATS, len: features@.len() as u32 }),
        (StatsProgress::Measuring { features }, Err(code)) => step matches StatsStep::Finished(Err(msg))
            && msg@ == "failed to fetch values of stats using ETHTOOL_GSTATS with errno="@ + errno_display(code),
        (StatsProgress::Measuring { features }, Ok(StatsReply::Stats(data))) =>
            step matches StatsStep::Finished(Ok(stats)) && paired(features@, data@, stats@),
        _ => false,
    }
}

/// A statistics read in which all three ioctls succeed: the names are asked
/// for with the count that the first reply gave, the values with the number
/// of names found, and the outcome pairs each name found in the second reply
/// with the counter at the same index of the third.
pub proof fn lemma_stats_exchange(
    info: StringSetInfo,
    names: Box<[u8; GSTRINGS_DATA_LEN]>,
    values: Box<[u8; GSTRINGS_DATA_LEN]>,
    first: StatsStep,
    second: StatsStep,
    last: StatsStep,
)
    requires
        stats_transition(StatsProgress::Counting, Ok(StatsReply::SetInfo(info)), first),
        first matches StatsStep::Issue { next, .. }
            && stats_transition(next, Ok(StatsReply::Strings(names)), second),
        second matches StatsStep::Issue { next, .. }
            && stats_transition(next, Ok(StatsReply::Stats(values)), last),
    ensures
        first matches StatsStep::Issue { query: StatsQuery::Strings(req), .. }
            && req == (GStrings { cmd: ETHTOOL_GSTRINGS, string_set: ETH_SS_STATS, len: info.data as u32 }),
        second matches StatsStep::Issue { query: StatsQuery::Stats(req), .. }
            && req == (GStats { cmd: ETHTOOL_GSTATS, len: slot_names(names@, info.data as int).len() as u32 }),
        last matches StatsStep::Finished(Ok(stats)) && {
            let found = slot_names(names@, info.data as int);
            &&& stats@.len() == found.len()
            &&& stats@.len() <= info.data
            &&& forall|i: int| 0 <= i < found.len() ==> {
                &&& (#[trigger] stats@[i]).0@ == found[i]
                &&& stats@[i].1 == counter_at(values@, i) as u64
            }
        },
{
    if let StatsStep::Issue { next: StatsProgress::Measuring { features }, .. } = second {
        assert(texts(features@).len() == features@.len());
        assert forall|i: int| 0 <= i < features@.len() implies #[trigger] texts(features@)[i] == features@[i]@ by {}
    }
}

/// A failed ioctl ends the statistics read, whatever the stage.
pub proof fn lemma_failed_ioctl_ends(progress: StatsProgress, code: i32, step: StatsStep)
    requires
        stats_transition(progress, Err(code), step),
    ensures
        step matches StatsStep::Finished(Err(_)),
{
}

impl Ethtool {
    /// The socket on which the ioctl is issued.
    pub closed spec fn socket(self) -> i32 {
        self.sock_fd
    }

    /// The name of the interface.
    pub closed spec fn interface(self) -> Seq<char> {
        self.if_name@
    }

    /// A handle on the interface `if_name`, through the datagram socket `sock_fd`.
    pub fn new(sock_fd: i32, if_name: &str) -> (e: Ethtool)
        ensures
            e.socket() == sock_fd,
            e.interface() == if_name@,
    {
        Ethtool { sock_fd, if_name: if_name.to_owned() }
    }

    /// The socket on which the ioctl is issued.
    pub fn sock_fd(&self) -> (fd: i32)
        ensures
            fd == self.socket(),
    {
        self.sock_fd
    }

    /// The name of the interface.
    pub fn if_name(&self) -> (name: &str)
        ensures
            name@ == self.interface(),
    {
        self.if_name.as_str()
    }

    /// The interface-name field of the `struct ifreq` that every request
    /// travels in.
    pub fn ifreq_name(&self) -> (field: [u8; IFNAME_MAX_SIZE])
        requires
            encode_utf8(self.interface()).len() <= IFNAME_MAX_SIZE,
        ensures
            field@ == ifreq_name_field(encode_utf8(self.interface())),
    {
        let bytes = self.if_name.as_str().as_bytes();
        let mut field = [0u8; 16];
        let mut j: usize = 0;
        while j < bytes.len()
            invariant
                bytes@ == encode_utf8(self.interface()),
                bytes@.len() <= IFNAME_MAX_SIZE,
                j <= bytes@.len(),
                forall|k: int| 0 <= k < j ==> field@[k] == bytes@[k],
                forall|k: int| j <= k < IFNAME_MAX_SIZE ==> field@[k] == 0,
            decreases bytes@.len() - j,
        {
            field[j] = bytes[j];
            j = j + 1;
        }
        assert(field@ =~= ifreq_name_field(encode_utf8(self.interface())));
        field
    }

    /// The request for the number of statistics.
    pub fn gsset_info_request(&self) -> (req: StringSetInfo)
        ensures
            req == (StringSetInfo {
                cmd: ETHTOOL_GSSET_INFO,
                reserved: 1,
                mask: 2,
                data: 0,
            }),
    {
        let mask: u32 = 1u32 << ETH_SS_STATS;
        assert(1u32 << 1u32 == 2u32) by (bit_vector);
        StringSetInfo { cmd: ETHTOOL_GSSET_INFO, reserved: 1, mask, data: 0 }
    }

    /// The number of statistics, from the outcome of the ETHTOOL_GSSET_INFO
    /// request (an errno value where the ioctl failed).
    pub fn gsset_info(&self, outcome: Result<StringSetInfo, i32>) -> (length: Result<usize, i32>)
        ensures
            length == (match outcome {
                Ok(info) => Ok(info.data),
                Err(code) => Err(code),
            }),
    {
        match outcome {
            Ok(info) => Ok(info.data),
            Err(code) => Err(code),
        }
    }

    /// The request for the names of `length` statistics.
    pub fn gstrings_request(&self, length: usize) -> (req: GStrings)
        ensures
            req == (GStrings { cmd: ETHTOOL_GSTRINGS, string_set: ETH_SS_STATS, len: length as u32 }),
    {
        GStrings { cmd: ETHTOOL_GSTRINGS, string_set: ETH_SS_STATS, len: length as u32 }
    }

    /// The names of the statistics, from the outcome of the ETHTOOL_GSTRINGS
    /// request for `length` of them.
    pub fn gstrings(&self, length: usize, outcome: Result<Box<[u8; GSTRINGS_DATA_LEN]>, i32>) -> (names: Result<Vec<String>, i32>)
        requires
            length <= MAX_GSTRINGS,
        ensures
            match outcome {
                Ok(data) => names matches Ok(ns) && texts(ns@) == slot_names(data@, length as int),
                Err(code) => names == Err::<Vec<String>, i32>(code),
            },
    {
        match outcome {
            Ok(data) => Ok(parse_features(*data, length)),
            Err(code) => Err(code),
        }
    }

    /// The request for the values of the statistics named `features`.
    pub fn gstats_request(&self, features: &Vec<String>) -> (req: GStats)
        ensures
            req == (GStats { cmd: ETHTOOL_GSTATS, len: features@.len() as u32 }),
    {
        GStats { cmd: ETHTOOL_GSTATS, len: features.len() as u32 }
    }

    /// The values of the statistics named `features`, from the outcome of
    /// the ETHTOOL_GSTATS request.
    pub fn gstats(&self, features: &Vec<String>, outcome: Result<Box<[u8; GSTRINGS_DATA_LEN]>, i32>) -> (values: Result<Vec<u64>, i32>)
        requires
            8 * features@.len() <= GSTRINGS_DATA_LEN,
        ensures
            match outcome {
                Ok(data) => values matches Ok(vs) && vs@.len() == features@.len()
                    && forall|i: int| 0 <= i < vs@.len() ==> vs@[i] == counter_at(data@, i),
                Err(code) => values == Err::<Vec<u64>, i32>(code),
            },
    {
        match outcome {
            Ok(data) => Ok(parse_values(*data, features.len())),
            Err(code) => Err(code),
        }
    }

    /// The first step of reading the statistics: ask for their number.
    pub fn begin_stats(&self) -> (step: StatsStep)
        ensures
            step == (StatsStep::Issue {
                next: StatsProgress::Counting,
                query: StatsQuery::SetInfo(StringSetInfo {
                    cmd: ETHTOOL_GSSET_INFO,
                    reserved: 1,
                    mask: 2,
                    data: 0,
                }),
            }),
    {
        StatsStep::Issue { next: StatsProgress::Counting, query: StatsQuery::SetInfo(self.gsset_info_request()) }
    }

    /// The next step of reading the statistics, from where the exchange
    /// stands and the outcome of the last query (an errno value where the
    /// ioctl failed). The number of statistics leads to a request for their
    /// names, the names to a request for their values, and the values to the
    /// statistics paired with their names; a failed ioctl ends the exchange
    /// with a message that says which request failed and why.
    pub fn continue_stats(&self, progress: StatsProgress, outcome: Result<StatsReply, i32>) -> (step: StatsStep)
        requires
            reply_fits(progress, outcome),
            progress matches StatsProgress::Naming { length } ==> length <= MAX_GSTRINGS,
            progress matches StatsProgress::Measuring { features } ==> 8 * features@.len() <= GSTRINGS_DATA_LEN,
        ensures
            stats_transition(progress, outcome, step),
    {
        match progress {
            StatsProgress::Counting => {
                let info = match outcome {
                    Ok(StatsReply::SetInfo(info)) => Ok(info),
                    Err(code) => Err(code),
                    Ok(_) => {
                        assert(false);
                        Err(0)
                    },
                };
                match self.gsset_info(info) {
                    Ok(length) => StatsStep::Issue {
                        next: StatsProgress::Naming { length },
                        query: StatsQuery::Strings(self.gstrings_request(length)),
                    },
                    Err(code) => StatsStep::Finished(Err(errno_message(
                        "failed to fetch number of stats using ETHTOOL_GSSET_INFO with errno=",
                        code,
                    ))),
                }
            },
            StatsProgress::Naming { length } => {
                let area = match outcome {
                    Ok(StatsReply::Strings(data)) => Ok(data),
                    Err(code) => Err(code),
                    Ok(_) => {
                        assert(false);
                        Err(0)
                    },
                };
                let ghost area_view = match area {
                    Ok(ref d) => d@,
                    Err(_) => Seq::<u8>::empty(),
                };
                match self.gstrings(length, area) {
                    Ok(features) => {
                        proof {
                            lemma_slot_names_bounded(area_view, length as int);
                        }
                        let query = StatsQuery::Stats(self.gstats_request(&features));
                        StatsStep::Issue { next: StatsProgress::Measuring { features }, query }
                    },
                    Err(code) => StatsStep::Finished(Err(errno_message(
                        "failed to fetch the stat names using ETHTOOL_GSTRINGS with errno=",
                        code,
                    ))),
                }
            },
            StatsProgress::Measuring { features } => {
                let area = match outcome {
                    Ok(StatsReply::Stats(data)) => Ok(data),
                    Err(code) => Err(code),
                    Ok(_) => {
                        assert(false);
                        Err(0)
                    },
                };
                let ghost data = match area {
                    Ok(ref d) => d@,
                    Err(_) => Seq::<u8>::empty(),
                };
                match self.gstats(&features, area) {
                    Ok(values) => StatsStep::Finished(Ok(zip_stats(features, values, Ghost(data)))),
                    Err(code) => StatsStep::Finished(Err(errno_message(
                        "failed to fetch values of stats using ETHTOOL_GSTATS with errno=",
                        code,
                    ))),
                }
            },
        }
    }
}

/// Pairs each statistic's name with its value, in order.
fn zip_stats(features: Vec<String>, values: Vec<u64>, Ghost(data): Ghost<Seq<u8>>) -> (stats: Vec<(String, u64)>)
    requires
        values@.len() == features@.len(),
        forall|i: int| 0 <= i < values@.len() ==> values@[i] == counter_at(data, i),
    ensures
        paired(features@, data, stats@),
{
    let mut stats: Vec<(String, u64)> = Vec::new();
    let mut i: usize = 0;
    while i < features.len()
        invariant
            values@.len() == features@.len(),
            forall|k: int| 0 <= k < values@.len() ==> values@[k] == counter_at(data, k),
            i <= features@.len(),
            stats@.len() == i,
            forall|k: int| 0 <= k < i ==> #[trigger] stats@[k] == (features@[k], counter_at(data, k) as u64),
        decreases features@.len() - i,
    {
        stats.push((features[i].clone(), values[i]));
        i = i + 1;
    }
    stats
}

} // verus!
