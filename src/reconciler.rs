use vstd::prelude::*;
use crate::report::{
    after_block, after_comparison, block_fits, Report, ReportModel,
};

verus! {

/// An update from the streaming source.
#[derive(Clone, Copy, Debug, PartialEq, Eq, Structural)]
pub enum UpdateEvent {
    /// A block, with the number of transactions that the stream reports for it.
    Block { slot: u64, executed_transaction_count: u64 },
    /// A keepalive that must be answered.
    Ping,
    /// Any other kind of update: ignored.
    Other,
}

/// What the next receive on the stream gave.
#[derive(Clone, Copy, Debug, PartialEq, Eq, Structural)]
pub enum Incoming {
    Update(UpdateEvent),
    /// An item that could not be decoded.
    Malformed,
    /// The remote closed the stream.
    Closed,
}

/// What the event loop does next.
#[derive(Clone, Copy, Debug, PartialEq, Eq, Structural)]
pub enum Step {
    /// The observation window is over, or the counters are full: the run ends
    /// for good.
    Completed,
    /// The stream is gone: the session is to be rebuilt.
    StreamEnded,
    /// The block was counted; its reference count is to be fetched and compared.
    Compare { slot: u64, stream_count: u64 },
    /// A keepalive answer is to be sent.
    Pong,
    /// Nothing to do: receive the next item.
    Continue,
}

/// The report after one update event was counted.
pub open spec fn event_after(m: ReportModel, e: UpdateEvent) -> ReportModel {
    match e {
        UpdateEvent::Block { slot, executed_transaction_count } => after_block(
            m,
            executed_transaction_count as nat,
        ),
        _ => m,
    }
}

/// Whether the window of `duration_ms` is over after `elapsed_ms`.
pub open spec fn deadline_reached(elapsed_ms: u64, duration_ms: u64) -> bool {
    elapsed_ms >= duration_ms
}

/// The step that the loop takes on `item`, given the report before it.
pub open spec fn step_of(m: ReportModel, elapsed_ms: u64, duration_ms: u64, item: Incoming) -> Step {
    match item {
        Incoming::Closed => Step::StreamEnded,
        _ => if deadline_reached(elapsed_ms, duration_ms) {
            Step::Completed
        } else {
            match item {
                Incoming::Update(UpdateEvent::Block { slot, executed_transaction_count }) => {
                    if block_fits(m, executed_transaction_count as nat) {
                        Step::Compare { slot, stream_count: executed_transaction_count }
                    } else {
                        Step::Completed
                    }
                },
                Incoming::Update(UpdateEvent::Ping) => Step::Pong,
                Incoming::Update(UpdateEvent::Other) => Step::Continue,
                _ => Step::StreamEnded,
            }
        },
    }
}

/// Handles one item received from the stream, `elapsed_ms` after the run
/// began: checks the window, counts a block, and says what to do next.
pub fn handle_incoming(report: &mut Report, elapsed_ms: u64, duration_ms: u64, item: Incoming) -> (s:
    Step)
    requires
        old(report).wf(),
    ensures
        final(report).wf(),
        s == step_of(old(report)@, elapsed_ms, duration_ms, item),
        match s {
            Step::Compare { .. } => match item {
                Incoming::Update(e) => final(report)@ == event_after(old(report)@, e),
                _ => false,
            },
            _ => final(report)@ == old(report)@,
        },
{
    match item {
        Incoming::Closed => Step::StreamEnded,
        _ => {
            if elapsed_ms >= duration_ms {
                Step::Completed
            } else {
                match item {
                    Incoming::Update(UpdateEvent::Block { slot, executed_transaction_count }) => {
                        if report.can_record_block(executed_transaction_count) {
                            report.record_block(executed_transaction_count);
                            Step::Compare { slot, stream_count: executed_transaction_count }
                        } else {
                            Step::Completed
                        }
                    },
                    Incoming::Update(UpdateEvent::Ping) => Step::Pong,
                    Incoming::Update(UpdateEvent::Other) => Step::Continue,
                    _ => Step::StreamEnded,
                }
            }
        },
    }
}

/// One thing that changes a report during a run: an update from the stream,
/// or a completed comparison.
pub ghost enum Activity {
    Update(UpdateEvent),
    Compared { slot: u64, stream_count: u64, reference_count: u64 },
}

/// The report after `acts`, applied in order, starting from `m`.
pub open spec fn run_after(m: ReportModel, acts: Seq<Activity>) -> ReportModel
    decreases acts.len(),
{
    if acts.len() == 0 {
        m
    } else {
        let prev = run_after(m, acts.drop_last());
        match acts.last() {
            Activity::Update(e) => event_after(prev, e),
            Activity::Compared { slot, stream_count, reference_count } => after_comparison(
                prev,
                slot,
                stream_count,
                reference_count,
            ),
        }
    }
}

/// The number of block events in `acts`.
pub open spec fn block_events(acts: Seq<Activity>) -> nat
    decreases acts.len(),
{
    if acts.len() == 0 {
        0
    } else {
        block_events(acts.drop_last()) + match acts.last() {
            Activity::Update(UpdateEvent::Block { .. }) => 1nat,
            _ => 0nat,
        }
    }
}

/// The sum of the reference counts of the comparisons in `acts`.
pub open spec fn reference_sum(acts: Seq<Activity>) -> nat
    decreases acts.len(),
{
    if acts.len() == 0 {
        0
    } else {
        reference_sum(acts.drop_last()) + match acts.last() {
            Activity::Compared { reference_count, .. } => reference_count as nat,
            _ => 0nat,
        }
    }
}

/// The total block count grows by exactly the number of block events, however
/// they are interleaved with keepalives, other updates and comparisons.
pub proof fn lemma_total_blocks_counts_block_events(m: ReportModel, acts: Seq<Activity>)
    ensures
        run_after(m, acts).total_blocks == m.total_blocks + block_events(acts),
    decreases acts.len(),
{
    if acts.len() > 0 {
        lemma_total_blocks_counts_block_events(m, acts.drop_last());
    }
}

/// Serialised comparisons lose no update: whatever order they complete in,
/// the reference total grows by exactly the sum of their reference counts.
pub proof fn lemma_reference_total_is_exact_sum(m: ReportModel, acts: Seq<Activity>)
    ensures
        run_after(m, acts).total_rpc_txs == m.total_rpc_txs + reference_sum(acts),
    decreases acts.len(),
{
    if acts.len() > 0 {
        lemma_reference_total_is_exact_sum(m, acts.drop_last());
    }
}

/// A window of zero length ends the run on the first item received, before
/// any block is counted or compared.
pub proof fn lemma_zero_window_counts_nothing(m: ReportModel, elapsed_ms: u64, item: Incoming)
    ensures
        step_of(m, elapsed_ms, 0, item) == Step::Completed || step_of(m, elapsed_ms, 0, item)
            == Step::StreamEnded,
{
}

} // verus!
