//! The fq_codel queueing discipline: its configuration and its statistics.
use vstd::prelude::*;

verus! {

/// One configuration attribute of an fq_codel qdisc (TCA_FQ_CODEL_*), as it
/// arrives in the TCA_OPTIONS block of a qdisc dump.
#[derive(Clone, Copy, Debug)]
pub enum FqCodelOption {
    Target(u32),
    Limit(u32),
    Interval(u32),
    Ecn(u32),
    Flows(u32),
    Quantum(u32),
    CeThreshold(u32),
    DropBatchSize(u32),
    MemoryLimit(u32),
    /// Any attribute that the configuration below does not keep.
    Other,
}

/// Configuration of an fq_codel qdisc.
#[derive(Clone, Copy, Debug)]
pub struct FqCodel {
    pub target: u32,
    pub limit: u32,
    pub interval: u32,
    pub ecn: u32,
    pub flows: u32,
    pub quantum: u32,
    pub ce_threshold: u32,
    pub drop_batch_size: u32,
    pub memory_limit: u32,
}

impl FqCodel {
    /// The configuration with every field zero.
    pub open spec fn zeroed() -> FqCodel {
        FqCodel {
            target: 0,
            limit: 0,
            interval: 0,
            ecn: 0,
            flows: 0,
            quantum: 0,
            ce_threshold: 0,
            drop_batch_size: 0,
            memory_limit: 0,
        }
    }

    /// The configuration after one attribute has been read into `self`.
    pub open spec fn with_option(self, option: FqCodelOption) -> FqCodel {
        match option {
            FqCodelOption::Target(v) => FqCodel { target: v, ..self },
            FqCodelOption::Limit(v) => FqCodel { limit: v, ..self },
            FqCodelOption::Interval(v) => FqCodel { interval: v, ..self },
            FqCodelOption::Ecn(v) => FqCodel { ecn: v, ..self },
            FqCodelOption::Flows(v) => FqCodel { flows: v, ..self },
            FqCodelOption::Quantum(v) => FqCodel { quantum: v, ..self },
            FqCodelOption::CeThreshold(v) => FqCodel { ce_threshold: v, ..self },
            FqCodelOption::DropBatchSize(v) => FqCodel { drop_batch_size: v, ..self },
            FqCodelOption::MemoryLimit(v) => FqCodel { memory_limit: v, ..self },
            FqCodelOption::Other => self,
        }
    }

    /// The configuration that a list of attributes describes: they are read
    /// in order, starting from the zeroed configuration, so that a later
    /// attribute overrides an earlier one of the same kind.
    pub open spec fn from_options(options: Seq<FqCodelOption>) -> FqCodel
        decreases options.len(),
    {
        if options.len() == 0 {
            FqCodel::zeroed()
        } else {
            FqCodel::from_options(options.drop_last()).with_option(options.last())
        }
    }

    /// Builds the configuration from the attributes of a dump.
    pub fn new(options: &[FqCodelOption]) -> (res: FqCodel)
        ensures
            res == FqCodel::from_options(options@),
    {
        let mut res = FqCodel {
            target: 0,
            limit: 0,
            interval: 0,
            ecn: 0,
            flows: 0,
            quantum: 0,
            ce_threshold: 0,
            drop_batch_size: 0,
            memory_limit: 0,
        };
        let mut i: usize = 0;
        while i < options.len()
            invariant
                i <= options@.len(),
                res == FqCodel::from_options(options@.take(i as int)),
            decreases options@.len() - i,
        {
            assert(options@.take(i + 1).drop_last() =~= options@.take(i as int));
            match options[i] {
                FqCodelOption::Target(v) => res.target = v,
                FqCodelOption::Limit(v) => res.limit = v,
                FqCodelOption::Interval(v) => res.interval = v,
                FqCodelOption::Ecn(v) => res.ecn = v,
                FqCodelOption::Flows(v) => res.flows = v,
                FqCodelOption::Quantum(v) => res.quantum = v,
                FqCodelOption::CeThreshold(v) => res.ce_threshold = v,
                FqCodelOption::DropBatchSize(v) => res.drop_batch_size = v,
                FqCodelOption::MemoryLimit(v) => res.memory_limit = v,
                FqCodelOption::Other => {},
            }
            i = i + 1;
        }
        assert(options@.take(options@.len() as int) =~= options@);
        res
    }
}

/// The qdisc-wide statistics block of fq_codel (`struct tc_fq_codel_qd_stats`),
/// as it arrives in TCA_XSTATS.
#[derive(Clone, Copy, Debug)]
pub struct FqCodelQdiscStats {
    pub maxpacket: u32,
    pub drop_overlimit: u32,
    pub ecn_mark: u32,
    pub new_flow_count: u32,
    pub new_flows_len: u32,
    pub old_flows_len: u32,
    pub ce_mark: u32,
    pub memory_usage: u32,
    pub drop_overmemory: u32,
}

/// Statistics of an fq_codel qdisc.
#[derive(Clone, Copy, Debug)]
pub struct FqCodelXStats {
    pub maxpacket: u32,
    pub drop_overlimit: u32,
    pub ecn_mark: u32,
    pub new_flow_count: u32,
    pub new_flows_len: u32,
    pub old_flows_len: u32,
    pub ce_mark: u32,
    pub memory_usage: u32,
    pub drop_overmemory: u32,
}

impl FqCodelXStats {
    /// The statistics that a qdisc-wide statistics block carries.
    pub open spec fn from_block(xstats: FqCodelQdiscStats) -> FqCodelXStats {
        FqCodelXStats {
            maxpacket: xstats.maxpacket,
            drop_overlimit: xstats.drop_overlimit,
            ecn_mark: xstats.ecn_mark,
            new_flow_count: xstats.new_flow_count,
            new_flows_len: xstats.new_flows_len,
            old_flows_len: xstats.old_flows_len,
            ce_mark: xstats.ce_mark,
            memory_usage: xstats.memory_usage,
            drop_overmemory: xstats.drop_overmemory,
        }
    }

    /// Copies the counters of a qdisc-wide statistics block.
    pub fn new(xstats: &FqCodelQdiscStats) -> (res: FqCodelXStats)
        ensures
            res == FqCodelXStats::from_block(*xstats),
            res.maxpacket == xstats.maxpacket,
            res.drop_overlimit == xstats.drop_overlimit,
            res.ecn_mark == xstats.ecn_mark,
            res.new_flow_count == xstats.new_flow_count,
            res.new_flows_len == xstats.new_flows_len,
            res.old_flows_len == xstats.old_flows_len,
            res.ce_mark == xstats.ce_mark,
            res.memory_usage == xstats.memory_usage,
            res.drop_overmemory == xstats.drop_overmemory,
    {
        FqCodelXStats {
            maxpacket: xstats.maxpacket,
            drop_overlimit: xstats.drop_overlimit,
            ecn_mark: xstats.ecn_mark,
            new_flow_count: xstats.new_flow_count,
            new_flows_len: xstats.new_flows_len,
            old_flows_len: xstats.old_flows_len,
            ce_mark: xstats.ce_mark,
            memory_usage: xstats.memory_usage,
            drop_overmemory: xstats.drop_overmemory,
        }
    }
}

/// Reading a configuration attribute sets the field it names to the
/// attribute's value, unchanged, and leaves every other field as it was; an
/// attribute of another kind changes nothing. With no attribute read, every
/// field is zero.
pub proof fn lemma_option_sets_its_field(c: FqCodel, v: u32)
    ensures
        c.with_option(FqCodelOption::Target(v)) == (FqCodel { target: v, ..c }),
        c.with_option(FqCodelOption::Limit(v)) == (FqCodel { limit: v, ..c }),
        c.with_option(FqCodelOption::Interval(v)) == (FqCodel { interval: v, ..c }),
        c.with_option(FqCodelOption::Ecn(v)) == (FqCodel { ecn: v, ..c }),
        c.with_option(FqCodelOption::Flows(v)) == (FqCodel { flows: v, ..c }),
        c.with_option(FqCodelOption::Quantum(v)) == (FqCodel { quantum: v, ..c }),
        c.with_option(FqCodelOption::CeThreshold(v)) == (FqCodel { ce_threshold: v, ..c }),
        c.with_option(FqCodelOption::DropBatchSize(v)) == (FqCodel { drop_batch_size: v, ..c }),
        c.with_option(FqCodelOption::MemoryLimit(v)) == (FqCodel { memory_limit: v, ..c }),
        c.with_option(FqCodelOption::Other) == c,
        FqCodel::from_options(Seq::<FqCodelOption>::empty()) == (FqCodel {
            target: 0,
            limit: 0,
            interval: 0,
            ecn: 0,
            flows: 0,
            quantum: 0,
            ce_threshold: 0,
            drop_batch_size: 0,
            memory_limit: 0,
        }),
{
}

/// Reading a qdisc-wide statistics block copies each of its nine counters
/// unchanged into the same-named field of the statistics.
pub proof fn lemma_block_counters_copied(b: FqCodelQdiscStats)
    ensures
        FqCodelXStats::from_block(b).maxpacket == b.maxpacket,
        FqCodelXStats::from_block(b).drop_overlimit == b.drop_overlimit,
        FqCodelXStats::from_block(b).ecn_mark == b.ecn_mark,
        FqCodelXStats::from_block(b).new_flow_count == b.new_flow_count,
        FqCodelXStats::from_block(b).new_flows_len == b.new_flows_len,
        FqCodelXStats::from_block(b).old_flows_len == b.old_flows_len,
        FqCodelXStats::from_block(b).ce_mark == b.ce_mark,
        FqCodelXStats::from_block(b).memory_usage == b.memory_usage,
        FqCodelXStats::from_block(b).drop_overmemory == b.drop_overmemory,
{
}

} // verus!
