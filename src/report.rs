use vstd::prelude::*;

verus! {

/// One block on which the two sources disagree.
#[derive(Clone, Copy, Debug, PartialEq, Eq, Structural)]
pub struct MismatchRecord {
    pub slot: u64,
    pub stream_count: u64,
    pub reference_count: u64,
}

/// Outcome of one comparison.
#[derive(Clone, Copy, Debug, PartialEq, Eq, Structural)]
pub enum Verdict {
    Match,
    Mismatch,
}

/// Mathematical model of a report: unbounded counters and the detail list.
pub ghost struct ReportModel {
    pub total_blocks: nat,
    pub compared_blocks: nat,
    pub mismatched_blocks: nat,
    pub total_stream_txs: nat,
    pub total_rpc_txs: nat,
    pub details: Seq<MismatchRecord>,
}

/// The model after a block with `stream_count` transactions was seen on the stream.
pub open spec fn after_block(m: ReportModel, stream_count: nat) -> ReportModel {
    ReportModel {
        total_blocks: m.total_blocks + 1,
        total_stream_txs: m.total_stream_txs + stream_count,
        ..m
    }
}

/// The model after one completed comparison of `slot`.
pub open spec fn after_comparison(
    m: ReportModel,
    slot: u64,
    stream_count: u64,
    reference_count: u64,
) -> ReportModel {
    if stream_count == reference_count {
        ReportModel {
            compared_blocks: m.compared_blocks + 1,
            total_rpc_txs: m.total_rpc_txs + reference_count as nat,
            ..m
        }
    } else {
        ReportModel {
            compared_blocks: m.compared_blocks + 1,
            mismatched_blocks: m.mismatched_blocks + 1,
            total_rpc_txs: m.total_rpc_txs + reference_count as nat,
            details: m.details.push(
                MismatchRecord { slot, stream_count, reference_count },
            ),
            ..m
        }
    }
}

/// A consistent model: every comparison belongs to a counted block, every
/// mismatch to a comparison, and each mismatch has exactly one detail record.
pub open spec fn model_wf(m: ReportModel) -> bool {
    &&& m.mismatched_blocks <= m.compared_blocks
    &&& m.compared_blocks <= m.total_blocks
    &&& m.details.len() == m.mismatched_blocks
}

/// The empty report that a run starts with.
pub open spec fn empty_model() -> ReportModel {
    ReportModel {
        total_blocks: 0,
        compared_blocks: 0,
        mismatched_blocks: 0,
        total_stream_txs: 0,
        total_rpc_txs: 0,
        details: Seq::empty(),
    }
}

/// Running totals of a reconciliation run, with the mismatches in the order
/// in which their comparisons completed.
pub struct Report {
    pub total_blocks: u64,
    pub compared_blocks: u64,
    pub mismatched_blocks: u64,
    pub total_stream_txs: u64,
    pub total_rpc_txs: u64,
    pub details: Vec<MismatchRecord>,
}

impl View for Report {
    type V = ReportModel;

    open spec fn view(&self) -> ReportModel {
        ReportModel {
            total_blocks: self.total_blocks as nat,
            compared_blocks: self.compared_blocks as nat,
            mismatched_blocks: self.mismatched_blocks as nat,
            total_stream_txs: self.total_stream_txs as nat,
            total_rpc_txs: self.total_rpc_txs as nat,
            details: self.details@,
        }
    }
}

/// Whether the counters of `m` can take one more block of `stream_count`
/// transactions without leaving `u64`.
pub open spec fn block_fits(m: ReportModel, stream_count: nat) -> bool {
    &&& m.total_blocks + 1 <= u64::MAX
    &&& m.total_stream_txs + stream_count <= u64::MAX
}

/// Whether the counters of `m` can take one more comparison.
pub open spec fn comparison_fits(m: ReportModel, reference_count: nat) -> bool {
    &&& m.compared_blocks < m.total_blocks
    &&& m.total_rpc_txs + reference_count <= u64::MAX
}

/// Each comparison of a counted block records exactly one outcome, a match or
/// a mismatch with its detail record, and mismatches never outnumber blocks.
pub proof fn lemma_one_outcome_per_comparison(
    m: ReportModel,
    slot: u64,
    stream_count: u64,
    reference_count: u64,
)
    requires
        model_wf(m),
        m.compared_blocks < m.total_blocks,
    ensures
        ({
            let n = after_comparison(m, slot, stream_count, reference_count);
            &&& model_wf(n)
            &&& n.compared_blocks == m.compared_blocks + 1
            &&& n.total_blocks == m.total_blocks
            &&& n.mismatched_blocks <= n.total_blocks
            &&& (n.compared_blocks - n.mismatched_blocks == m.compared_blocks - m.mismatched_blocks
                + 1) != (n.mismatched_blocks == m.mismatched_blocks + 1)
        }),
{
}

impl Report {
    pub open spec fn wf(&self) -> bool {
        model_wf(self@)
    }

    /// An empty report.
    pub fn new() -> (r: Report)
        ensures
            r@ == empty_model(),
            r.wf(),
    {
        Report {
            total_blocks: 0,
            compared_blocks: 0,
            mismatched_blocks: 0,
            total_stream_txs: 0,
            total_rpc_txs: 0,
            details: Vec::new(),
        }
    }

    /// Whether `record_block` can take a block of `stream_count` transactions.
    pub fn can_record_block(&self, stream_count: u64) -> (r: bool)
        ensures
            r == block_fits(self@, stream_count as nat),
    {
        self.total_blocks < u64::MAX && stream_count <= u64::MAX - self.total_stream_txs
    }

    /// Whether `record_comparison` can take a reference count of `reference_count`.
    pub fn can_record_comparison(&self, reference_count: u64) -> (r: bool)
        ensures
            r == comparison_fits(self@, reference_count as nat),
    {
        self.compared_blocks < self.total_blocks && reference_count <= u64::MAX
            - self.total_rpc_txs
    }

    /// Counts one block seen on the stream, with its transaction count.
    pub fn record_block(&mut self, stream_count: u64)
        requires
            old(self).wf(),
            block_fits(old(self)@, stream_count as nat),
        ensures
            final(self).wf(),
            final(self)@ == after_block(old(self)@, stream_count as nat),
    {
        self.total_blocks = self.total_blocks + 1;
        self.total_stream_txs = self.total_stream_txs + stream_count;
    }

    /// Records the outcome of comparing a block's stream count with the
    /// reference count: a match, or a mismatch with one detail record.
    pub fn record_comparison(&mut self, slot: u64, stream_count: u64, reference_count: u64) -> (v:
        Verdict)
        requires
            old(self).wf(),
            comparison_fits(old(self)@, reference_count as nat),
        ensures
            final(self).wf(),
            final(self)@ == after_comparison(old(self)@, slot, stream_count, reference_count),
            v == Verdict::Match <==> stream_count == reference_count,
            stream_count == reference_count ==> final(self).details@ == old(self).details@,
            stream_count != reference_count ==> final(self).details@ == old(self).details@.push(
                MismatchRecord { slot, stream_count, reference_count },
            ),
    {
        self.compared_blocks = self.compared_blocks + 1;
        self.total_rpc_txs = self.total_rpc_txs + reference_count;
        if stream_count == reference_count {
            Verdict::Match
        } else {
            self.mismatched_blocks = self.mismatched_blocks + 1;
            self.details.push(MismatchRecord { slot, stream_count, reference_count });
            Verdict::Mismatch
        }
    }
}

} // verus!
