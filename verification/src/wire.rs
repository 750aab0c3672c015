//! The byte layout of the rtnetlink replies that carry traffic-control
//! objects, and the check, made before a reply is decoded, that every
//! statistics block in it is as long as its decoder reads.
//!
//! The decoder reads the fixed-size statistics blocks of a message (the basic
//! and queue entries of TCA_STATS2, and the fq_codel block of TCA_XSTATS or of
//! an application entry of TCA_STATS2) without testing their length first, and
//! decodes the options of the `u32` and `matchall` filters with parsers of
//! their own. A reply passes the check when it holds none of these in a form
//! that the decoder could read past, and it is not another kind of rtnetlink
//! message (links, addresses, routes and the like), whose decoders are not
//! part of this library's exchange. Fields are read in either byte order:
//! the check passes only where both orders pass.
use vstd::prelude::*;

use crate::netlink::{be16, le16};

verus! {

/// The value of two bytes at `at`, least significant first where `little`.
pub open spec fn u16_at(b: Seq<u8>, at: int, little: bool) -> int {
    if little {
        le16(b, at)
    } else {
        be16(b, at)
    }
}

/// The value of four bytes at `at`, least significant first where `little`.
pub open spec fn u32_at(b: Seq<u8>, at: int, little: bool) -> int {
    if little {
        le16(b, at) + le16(b, at + 2) * 0x1_0000
    } else {
        be16(b, at) * 0x1_0000 + be16(b, at + 2)
    }
}

/// The room an attribute of `len` bytes takes: its length rounded up to a
/// multiple of four.
pub open spec fn aligned(len: int) -> int {
    len + (4 - len % 4) % 4
}

/// Whether a well-formed attribute header starts at `p` of a block that ends
/// at `end`: four header bytes fit, and the length field counts at least the
/// header and no more than the block holds.
pub open spec fn attribute_at(b: Seq<u8>, p: int, end: int, little: bool) -> bool {
    &&& end - p >= 4
    &&& 4 <= u16_at(b, p, little) <= end - p
}

/// The type of the attribute at `p`, without its two flag bits.
pub open spec fn attribute_type(b: Seq<u8>, p: int, little: bool) -> int {
    u16_at(b, p + 2, little) % 0x4000
}

/// What the kind of a tc object (its TCA_KIND attribute) tells the decoder.
#[derive(Clone, Copy, Debug)]
pub enum KindClass {
    /// The `fq_codel` queueing discipline.
    FqCodel,
    /// The `u32` or `matchall` filter.
    Filter,
    /// Any other kind, or none yet.
    Other,
}

/// Where the text of a TCA_KIND value held in `s..e` ends: one trailing zero
/// byte is not part of it.
pub open spec fn kind_end(b: Seq<u8>, s: int, e: int) -> int {
    if e > s && b[e - 1] == 0 {
        e - 1
    } else {
        e
    }
}

/// Whether the text `s..n` spells "fq_codel".
pub open spec fn spells_fq_codel(b: Seq<u8>, s: int, n: int) -> bool {
    &&& n - s == 8
    &&& b[s] == 102 && b[s + 1] == 113 && b[s + 2] == 95 && b[s + 3] == 99
    &&& b[s + 4] == 111 && b[s + 5] == 100 && b[s + 6] == 101 && b[s + 7] == 108
}

/// Whether the text `s..n` spells "u32".
pub open spec fn spells_u32(b: Seq<u8>, s: int, n: int) -> bool {
    n - s == 3 && b[s] == 117 && b[s + 1] == 51 && b[s + 2] == 50
}

/// Whether the text `s..n` spells "matchall".
pub open spec fn spells_matchall(b: Seq<u8>, s: int, n: int) -> bool {
    &&& n - s == 8
    &&& b[s] == 109 && b[s + 1] == 97 && b[s + 2] == 116 && b[s + 3] == 99
    &&& b[s + 4] == 104 && b[s + 5] == 97 && b[s + 6] == 108 && b[s + 7] == 108
}

/// The class of the kind whose TCA_KIND value is held in `s..e`.
pub open spec fn kind_class(b: Seq<u8>, s: int, e: int) -> KindClass {
    let n = kind_end(b, s, e);
    if spells_fq_codel(b, s, n) {
        KindClass::FqCodel
    } else if spells_u32(b, s, n) || spells_matchall(b, s, n) {
        KindClass::Filter
    } else {
        KindClass::Other
    }
}

/// Whether an fq_codel statistics block held in `s..e` is as long as its
/// decoder reads: after the four-byte type word, 36 bytes for the qdisc
/// statistics (type 0) and 24 for the class statistics (type 1).
pub open spec fn fq_codel_block_fits(b: Seq<u8>, s: int, e: int, little: bool) -> bool {
    e - s >= 4 ==> {
        let word = u32_at(b, s, little);
        &&& word == 0 ==> e - s - 4 >= 36
        &&& word == 1 ==> e - s - 4 >= 24
    }
}

/// Whether a TCA_STATS2 entry of type `t`, held in `s..e`, is as long as
/// its decoder reads: 12 bytes for the basic counters (types 1 and 7), 20
/// for the queue counters (type 3), and for an application entry (type 4)
/// of an fq_codel object what `fq_codel_block_fits` asks.
pub open spec fn stats2_entry_fits(b: Seq<u8>, s: int, e: int, t: int, fq_codel: bool, little: bool) -> bool {
    if t == 1 || t == 7 {
        e - s >= 12
    } else if t == 3 {
        e - s >= 20
    } else if t == 4 {
        fq_codel ==> fq_codel_block_fits(b, s, e, little)
    } else {
        true
    }
}

/// Whether every entry of the TCA_STATS2 block from `p` to `end` fits, as
/// far as the entries are well formed (the decoder stops at the first that
/// is not).
pub open spec fn stats2_fits(b: Seq<u8>, p: int, end: int, fq_codel: bool, little: bool) -> bool
    decreases end - p,
{
    if attribute_at(b, p, end, little) {
        let len = u16_at(b, p, little);
        &&& stats2_entry_fits(b, p + 4, p + len, attribute_type(b, p, little), fq_codel, little)
        &&& p + aligned(len) < end ==> stats2_fits(b, p + aligned(len), end, fq_codel, little)
    } else {
        true
    }
}

/// Whether an attribute of type `t` of a tc object of kind `kind`, with its
/// value held in `s..e`, can be decoded: no options of a `u32` or `matchall`
/// filter, and statistics blocks that fit.
pub open spec fn attribute_fits(b: Seq<u8>, s: int, e: int, t: int, kind: KindClass, little: bool) -> bool {
    if t == 2 {
        !(kind is Filter)
    } else if t == 4 {
        kind is FqCodel ==> fq_codel_block_fits(b, s, e, little)
    } else if t == 7 {
        stats2_fits(b, s, e, kind is FqCodel, little)
    } else {
        true
    }
}

/// Whether every attribute of a tc message from `p` to `end` can be decoded,
/// as far as the attributes are well formed, with `kind` the class of the
/// last TCA_KIND attribute before `p`.
pub open spec fn attributes_fit(b: Seq<u8>, p: int, end: int, kind: KindClass, little: bool) -> bool
    decreases end - p,
{
    if attribute_at(b, p, end, little) {
        let len = u16_at(b, p, little);
        let t = attribute_type(b, p, little);
        let next_kind = if t == 1 {
            kind_class(b, p + 4, p + len)
        } else {
            kind
        };
        &&& attribute_fits(b, p + 4, p + len, t, kind, little)
        &&& p + aligned(len) < end ==> attributes_fit(b, p + aligned(len), end, next_kind, little)
    } else {
        true
    }
}

/// Whether `t` is the type of a traffic-control message: a qdisc (36 to 38),
/// a class or a filter (40 to 46), or a filter chain (100 to 102).
pub open spec fn is_tc_type(t: int) -> bool {
    ||| 36 <= t <= 38
    ||| 40 <= t <= 46
    ||| 100 <= t <= 102
}

/// Whether the message at the start of `b` can be decoded, its fields read in
/// the given byte order. Bytes that do not hold a whole netlink message (16
/// header bytes, and a length field from 16 to the number of bytes) are
/// refused by the decoder itself. Otherwise the message type must be one of
/// netlink's own (below 16), or a traffic-control message whose attributes,
/// after its 20-byte `tcmsg`, can be decoded.
pub open spec fn message_fits(b: Seq<u8>, little: bool) -> bool {
    let end = u32_at(b, 0, little);
    let t = u16_at(b, 4, little);
    (b.len() >= 16 && 16 <= end <= b.len()) ==> {
        ||| t < 16
        ||| is_tc_type(t) && (end < 36 || attributes_fit(b, 36, end, KindClass::Other, little))
    }
}

/// Whether the reply message at the start of `b` can be handed to the
/// decoder, whichever byte order the machine has.
pub open spec fn decodable(b: Seq<u8>) -> bool {
    message_fits(b, true) && message_fits(b, false)
}

/// What the decoder reads of an fq_codel statistics block held in `s..e`:
/// nothing where fewer than four bytes hold the type word, else the type word
/// and 36 further bytes for type 0, 24 for type 1, none for another type.
pub open spec fn fq_codel_block_needs(b: Seq<u8>, s: int, little: bool) -> int {
    let word = u32_at(b, s, little);
    if word == 0 {
        40
    } else if word == 1 {
        28
    } else {
        4
    }
}

/// A TCA_STATS2 entry is refused exactly when it is shorter than what the
/// decoder reads of it: the basic counters (types 1 and 7) read 12 bytes, the
/// queue counters (type 3) 20, and the application entry (type 4) of an
/// fq_codel object its statistics block (`fq_codel_block_needs`). Any entry
/// that holds at least that much passes.
pub proof fn lemma_stats2_entry_refused_only_when_short(
    b: Seq<u8>,
    s: int,
    e: int,
    t: int,
    fq_codel: bool,
    little: bool,
)
    requires
        s <= e,
    ensures
        stats2_entry_fits(b, s, e, t, fq_codel, little) <==> {
            &&& (t == 1 || t == 7) ==> e - s >= 12
            &&& t == 3 ==> e - s >= 20
            &&& (t == 4 && fq_codel && e - s >= 4) ==> e - s >= fq_codel_block_needs(b, s, little)
        },
{
}

/// A tc attribute is refused exactly when it is the options of a `u32` or
/// `matchall` filter, an fq_codel TCA_XSTATS block shorter than what the
/// decoder reads of it (`fq_codel_block_needs`), or a TCA_STATS2 block with
/// an entry that is refused; a statistics block of another kind, and every
/// other attribute, always passes.
pub proof fn lemma_attribute_refused_only_when_short(
    b: Seq<u8>,
    s: int,
    e: int,
    t: int,
    kind: KindClass,
    little: bool,
)
    requires
        s <= e,
    ensures
        attribute_fits(b, s, e, t, kind, little) <==> {
            &&& t == 2 ==> !(kind is Filter)
            &&& (t == 4 && kind is FqCodel && e - s >= 4) ==> e - s >= fq_codel_block_needs(b, s, little)
            &&& t == 7 ==> stats2_fits(b, s, e, kind is FqCodel, little)
        },
{
}

/// An entry list that holds no well-formed entry, or a block of fewer than
/// four bytes, always passes; a list whose first entry passes passes exactly
/// when the rest of it, from the next four-byte boundary after that entry,
/// passes.
pub proof fn lemma_stats2_walk(b: Seq<u8>, p: int, end: int, fq_codel: bool, little: bool)
    ensures
        end - p < 4 ==> stats2_fits(b, p, end, fq_codel, little),
        attribute_at(b, p, end, little) ==> {
            let len = u16_at(b, p, little);
            let next = p + len + (4 - len % 4) % 4;
            stats2_fits(b, p, end, fq_codel, little) <==> {
                &&& stats2_entry_fits(b, p + 4, p + len, attribute_type(b, p, little), fq_codel, little)
                &&& next < end ==> stats2_fits(b, next, end, fq_codel, little)
            }
        },
{
}

/// The two bytes at `at`.
fn read_u16(b: &[u8], at: usize, little: bool) -> (v: u16)
    requires
        at + 2 <= b.len(),
    ensures
        v == u16_at(b@, at as int, little),
{
    let first = b[at] as u16;
    let second = b[at + 1] as u16;
    if little {
        first + second * 0x100
    } else {
        first * 0x100 + second
    }
}

/// The four bytes at `at`.
fn read_u32(b: &[u8], at: usize, little: bool) -> (v: u32)
    requires
        at + 4 <= b.len(),
    ensures
        v == u32_at(b@, at as int, little),
{
    let first = read_u16(b, at, little) as u32;
    let second = read_u16(b, at + 2, little) as u32;
    if little {
        first + second * 0x1_0000
    } else {
        first * 0x1_0000 + second
    }
}

/// The class of the kind whose TCA_KIND value is held in `s..e`.
fn kind_class_of(b: &[u8], s: usize, e: usize) -> (k: KindClass)
    requires
        s <= e <= b.len(),
    ensures
        k == kind_class(b@, s as int, e as int),
{
    let n = if e > s && b[e - 1] == 0 {
        e - 1
    } else {
        e
    };
    if n - s == 8 && b[s] == 102 && b[s + 1] == 113 && b[s + 2] == 95 && b[s + 3] == 99
        && b[s + 4] == 111 && b[s + 5] == 100 && b[s + 6] == 101 && b[s + 7] == 108 {
        KindClass::FqCodel
    } else if n - s == 3 && b[s] == 117 && b[s + 1] == 51 && b[s + 2] == 50 {
        KindClass::Filter
    } else if n - s == 8 && b[s] == 109 && b[s + 1] == 97 && b[s + 2] == 116 && b[s + 3] == 99
        && b[s + 4] == 104 && b[s + 5] == 97 && b[s + 6] == 108 && b[s + 7] == 108 {
        KindClass::Filter
    } else {
        KindClass::Other
    }
}

/// Whether the fq_codel statistics block held in `s..e` fits.
fn fq_codel_block_fits_in(b: &[u8], s: usize, e: usize, little: bool) -> (ok: bool)
    requires
        s <= e <= b.len(),
    ensures
        ok == fq_codel_block_fits(b@, s as int, e as int, little),
{
    if e - s < 4 {
        return true;
    }
    let word = read_u32(b, s, little);
    let rest = e - s - 4;
    !((word == 0 && rest < 36) || (word == 1 && rest < 24))
}

/// Whether every entry of the TCA_STATS2 block held in `start..end` fits.
fn stats2_fits_in(b: &[u8], start: usize, end: usize, fq_codel: bool, little: bool) -> (ok: bool)
    requires
        start <= end <= b.len(),
    ensures
        ok == stats2_fits(b@, start as int, end as int, fq_codel, little),
{
    let mut p = start;
    loop
        invariant
            start <= p <= end <= b.len(),
            stats2_fits(b@, start as int, end as int, fq_codel, little)
                == stats2_fits(b@, p as int, end as int, fq_codel, little),
        decreases end - p,
    {
        if end - p < 4 {
            return true;
        }
        let len = read_u16(b, p, little) as usize;
        if len < 4 || len > end - p {
            return true;
        }
        let t = read_u16(b, p + 2, little) % 0x4000;
        let rest = end - p - len;
        let entry = if t == 1 || t == 7 {
            len - 4 >= 12
        } else if t == 3 {
            len - 4 >= 20
        } else if t == 4 && fq_codel {
            fq_codel_block_fits_in(b, p + 4, p + len, little)
        } else {
            true
        };
        if !entry {
            return false;
        }
        let step = len + (4 - len % 4) % 4;
        if step >= end - p {
            return true;
        }
        p = p + step;
    }
}

/// Whether every attribute of a tc message held in `start..end` can be decoded.
fn attributes_fit_in(b: &[u8], start: usize, end: usize, little: bool) -> (ok: bool)
    requires
        start <= end <= b.len(),
    ensures
        ok == attributes_fit(b@, start as int, end as int, KindClass::Other, little),
{
    let mut p = start;
    let mut kind = KindClass::Other;
    loop
        invariant
            start <= p <= end <= b.len(),
            attributes_fit(b@, start as int, end as int, KindClass::Other, little)
                == attributes_fit(b@, p as int, end as int, kind, little),
        decreases end - p,
    {
        if end - p < 4 {
            return true;
        }
        let len = read_u16(b, p, little) as usize;
        if len < 4 || len > end - p {
            return true;
        }
        let t = read_u16(b, p + 2, little) % 0x4000;
        let fits = if t == 2 {
            !matches!(kind, KindClass::Filter)
        } else if t == 4 {
            match kind {
                KindClass::FqCodel => fq_codel_block_fits_in(b, p + 4, p + len, little),
                _ => true,
            }
        } else if t == 7 {
            stats2_fits_in(b, p + 4, p + len, matches!(kind, KindClass::FqCodel), little)
        } else {
            true
        };
        if !fits {
            return false;
        }
        let next_kind = if t == 1 {
            kind_class_of(b, p + 4, p + len)
        } else {
            kind
        };
        let step = len + (4 - len % 4) % 4;
        if step >= end - p {
            return true;
        }
        p = p + step;
        kind = next_kind;
    }
}

/// Whether the message at the start of `b` can be decoded, its fields read in
/// the given byte order.
fn message_fits_in(b: &[u8], little: bool) -> (ok: bool)
    ensures
        ok == message_fits(b@, little),
{
    if b.len() < 16 {
        return true;
    }
    let end = read_u32(b, 0, little) as usize;
    if end < 16 || end > b.len() {
        return true;
    }
    let t = read_u16(b, 4, little);
    if t < 16 {
        true
    } else if !((36 <= t && t <= 38) || (40 <= t && t <= 46) || (100 <= t && t <= 102)) {
        false
    } else if end < 36 {
        true
    } else {
        attributes_fit_in(b, 36, end, little)
    }
}

/// Whether the reply message at the start of `bytes` can be handed to the
/// decoder (see `decodable`).
pub fn is_decodable(bytes: &[u8]) -> (ok: bool)
    ensures
        ok == decodable(bytes@),
{
    message_fits_in(bytes, true) && message_fits_in(bytes, false)
}

} // verus!
