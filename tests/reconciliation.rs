use block_reconciler::comparator::{compare_counts, compare_with_reference, reference_count, CompareError};
use block_reconciler::reconciler::{handle_incoming, Incoming, Step, UpdateEvent};
use block_reconciler::report::{MismatchRecord, Report, Verdict};
use block_reconciler::session::{blocks_request, window_ms, Commitment};
use block_reconciler::supervisor::{
    next_backoff, next_interval, BackoffPolicy, Decision, SessionOutcome, Supervisor,
};
use block_reconciler::text::{decimal_string, verdict_log_line};

fn block(slot: u64, count: u64) -> Incoming {
    Incoming::Update(UpdateEvent::Block { slot, executed_transaction_count: count })
}

#[test]
fn three_block_stream_reports_one_mismatch() {
    let mut report = Report::new();
    let stream = [(100u64, 5u64), (101, 7), (102, 2)];
    let reference = [5u64, 7, 3];
    for (i, (slot, count)) in stream.iter().enumerate() {
        let step = handle_incoming(&mut report, 10, 60_000, block(*slot, *count));
        assert_eq!(step, Step::Compare { slot: *slot, stream_count: *count });
        compare_counts(&mut report, *slot, *count, reference[i]).unwrap();
    }
    assert_eq!(report.total_blocks, 3);
    assert_eq!(report.mismatched_blocks, 1);
    assert_eq!(report.total_stream_txs, 14);
    assert_eq!(report.total_rpc_txs, 15);
    assert_eq!(
        report.details,
        vec![MismatchRecord { slot: 102, stream_count: 2, reference_count: 3 }]
    );
    assert_eq!(report.details[0].to_line(), "Slot 102 mismatch: gRPC Tx Count=2 RPC Tx Count=3");
}

#[test]
fn zero_window_counts_nothing() {
    let mut report = Report::new();
    let step = handle_incoming(&mut report, 0, window_ms(0), block(9, 4));
    assert_eq!(step, Step::Completed);
    let step = handle_incoming(&mut report, 0, 0, Incoming::Update(UpdateEvent::Ping));
    assert_eq!(step, Step::Completed);
    assert_eq!(report.total_blocks, 0);
    assert_eq!(report.mismatched_blocks, 0);
    assert_eq!(report.total_stream_txs, 0);
    assert_eq!(report.total_rpc_txs, 0);
    assert!(report.details.is_empty());
    let mut sup = Supervisor::new(BackoffPolicy::standard());
    assert_eq!(sup.on_outcome(SessionOutcome::Completed, 0, 0), Decision::Stop);
    assert_eq!(sup.attempts, 1);
}

#[test]
fn block_count_ignores_pings_and_other_updates() {
    let mut report = Report::new();
    let items = [
        Incoming::Update(UpdateEvent::Ping),
        block(1, 3),
        Incoming::Update(UpdateEvent::Other),
        block(2, 4),
        Incoming::Update(UpdateEvent::Ping),
        block(3, 0),
    ];
    let mut steps = Vec::new();
    for item in items.iter() {
        steps.push(handle_incoming(&mut report, 5, 100, *item));
    }
    assert_eq!(
        steps,
        vec![
            Step::Pong,
            Step::Compare { slot: 1, stream_count: 3 },
            Step::Continue,
            Step::Compare { slot: 2, stream_count: 4 },
            Step::Pong,
            Step::Compare { slot: 3, stream_count: 0 },
        ]
    );
    assert_eq!(report.total_blocks, 3);
    assert_eq!(report.total_stream_txs, 7);
}

#[test]
fn closed_and_malformed_items_end_the_stream() {
    let mut report = Report::new();
    assert_eq!(handle_incoming(&mut report, 0, 100, Incoming::Closed), Step::StreamEnded);
    assert_eq!(handle_incoming(&mut report, 0, 100, Incoming::Malformed), Step::StreamEnded);
    assert_eq!(handle_incoming(&mut report, 200, 100, Incoming::Closed), Step::StreamEnded);
    assert_eq!(handle_incoming(&mut report, 200, 100, Incoming::Malformed), Step::Completed);
    assert_eq!(report.total_blocks, 0);
}

#[test]
fn full_counters_end_the_run() {
    let mut report = Report::new();
    report.total_stream_txs = u64::MAX - 1;
    assert_eq!(handle_incoming(&mut report, 0, 100, block(1, 2)), Step::Completed);
    assert_eq!(report.total_blocks, 0);
    assert_eq!(handle_incoming(&mut report, 0, 100, block(1, 1)), Step::Compare { slot: 1, stream_count: 1 });
    assert_eq!(report.total_stream_txs, u64::MAX);
}

#[test]
fn matching_counts_append_no_detail() {
    let mut report = Report::new();
    report.record_block(8);
    assert_eq!(report.record_comparison(4, 8, 8), Verdict::Match);
    assert_eq!(report.compared_blocks, 1);
    assert_eq!(report.mismatched_blocks, 0);
    assert!(report.details.is_empty());
}

#[test]
fn differing_counts_append_one_detail() {
    let mut report = Report::new();
    report.record_block(8);
    assert_eq!(report.record_comparison(4, 8, 9), Verdict::Mismatch);
    assert_eq!(report.mismatched_blocks, 1);
    assert_eq!(
        report.details,
        vec![MismatchRecord { slot: 4, stream_count: 8, reference_count: 9 }]
    );
    assert!(report.mismatched_blocks <= report.total_blocks);
}

#[test]
fn comparisons_in_any_order_sum_reference_counts() {
    let counts = [3u64, 11, 0, 25, 7];
    let mut forward = Report::new();
    let mut backward = Report::new();
    for _ in 0..counts.len() {
        forward.record_block(1);
        backward.record_block(1);
    }
    for (i, c) in counts.iter().enumerate() {
        compare_counts(&mut forward, i as u64, 1, *c).unwrap();
    }
    for (i, c) in counts.iter().enumerate().rev() {
        compare_counts(&mut backward, i as u64, 1, *c).unwrap();
    }
    assert_eq!(forward.total_rpc_txs, 46);
    assert_eq!(backward.total_rpc_txs, 46);
    assert_eq!(forward.mismatched_blocks, 5);
    assert_eq!(backward.mismatched_blocks, 5);
    assert_eq!(forward.details[0].slot, 0);
    assert_eq!(backward.details[0].slot, 4);
}

#[test]
fn comparison_without_pending_block_fails() {
    let mut report = Report::new();
    assert_eq!(compare_counts(&mut report, 1, 1, 1), Err(CompareError::NoPendingBlock));
    report.record_block(1);
    report.total_rpc_txs = u64::MAX;
    assert_eq!(compare_counts(&mut report, 1, 1, 1), Err(CompareError::CounterOverflow));
    assert_eq!(report.compared_blocks, 0);
    assert_eq!(compare_counts(&mut report, 1, 0, 0), Ok(Verdict::Match));
}

#[test]
fn reference_count_is_signature_count() {
    assert_eq!(reference_count(&None), 0);
    let sigs = Some(vec!["a".to_string(), "b".to_string(), "c".to_string()]);
    assert_eq!(reference_count(&sigs), 3);
    let mut report = Report::new();
    report.record_block(2);
    assert_eq!(compare_with_reference(&mut report, 6, 2, &sigs), Ok(Verdict::Mismatch));
    assert_eq!(report.total_rpc_txs, 3);
    report.record_block(0);
    assert_eq!(compare_with_reference(&mut report, 7, 0, &None), Ok(Verdict::Match));
}

#[test]
fn standard_backoff_schedule() {
    let p = BackoffPolicy::standard();
    let expected = [500u64, 750, 1125, 1687, 2530, 3795];
    for (k, d) in expected.iter().enumerate() {
        assert_eq!(next_backoff(&p, k as u64), *d);
    }
    assert_eq!(next_backoff(&p, 40), 60_000);
    assert_eq!(next_interval(&p, 50_000), 60_000);
    assert_eq!(next_interval(&p, u64::MAX), 60_000);
}

#[test]
fn transient_failures_then_success_retry_k_times() {
    let p = BackoffPolicy::standard();
    let mut sup = Supervisor::new(p);
    let mut delays = Vec::new();
    for i in 0..14u64 {
        match sup.on_outcome(SessionOutcome::SetupFailed, i * 1000, 3_600_000) {
            Decision::Retry { delay_ms } => delays.push(delay_ms),
            Decision::Stop => panic!("stopped early"),
        }
    }
    assert_eq!(sup.attempts, 15);
    for w in delays.windows(2) {
        assert!(w[0] <= w[1]);
    }
    assert!(delays.iter().all(|d| *d <= 60_000));
    assert_eq!(delays[0], 500);
    assert_eq!(delays[11], 43_222);
    assert_eq!(delays[13], 60_000);
    assert_eq!(sup.on_outcome(SessionOutcome::Completed, 20_000, 3_600_000), Decision::Stop);
    assert_eq!(sup.attempts, 15);
}

#[test]
fn stream_end_starts_a_fresh_cycle() {
    let mut sup = Supervisor::new(BackoffPolicy::standard());
    assert_eq!(sup.on_outcome(SessionOutcome::SetupFailed, 0, 10_000), Decision::Retry { delay_ms: 500 });
    assert_eq!(sup.on_outcome(SessionOutcome::SetupFailed, 1, 10_000), Decision::Retry { delay_ms: 750 });
    assert_eq!(sup.on_outcome(SessionOutcome::StreamEnded, 2, 10_000), Decision::Retry { delay_ms: 500 });
    assert_eq!(sup.on_outcome(SessionOutcome::SetupFailed, 3, 10_000), Decision::Retry { delay_ms: 750 });
}

#[test]
fn supervisor_stops_on_window_permanent_or_elapsed_limit() {
    let mut sup = Supervisor::new(BackoffPolicy::standard());
    assert_eq!(sup.on_outcome(SessionOutcome::SetupFailed, 10_000, 10_000), Decision::Stop);
    assert!(sup.finished);
    assert_eq!(sup.on_outcome(SessionOutcome::SetupFailed, 0, 10_000), Decision::Stop);

    let mut sup = Supervisor::new(BackoffPolicy::standard());
    assert_eq!(sup.on_outcome(SessionOutcome::Permanent, 0, 10_000), Decision::Stop);

    let mut sup = Supervisor::new(BackoffPolicy::standard());
    assert_eq!(sup.on_outcome(SessionOutcome::SetupFailed, 900_001, u64::MAX), Decision::Stop);
}

#[test]
fn decimal_rendering() {
    assert_eq!(decimal_string(0), "0");
    assert_eq!(decimal_string(7), "7");
    assert_eq!(decimal_string(1_234_567_890), "1234567890");
    assert_eq!(decimal_string(u64::MAX), "18446744073709551615");
}

#[test]
fn verdict_lines() {
    assert_eq!(verdict_log_line(Verdict::Match, 12, 5, 5), "MATCH slot 12 \u{2192} stream=5 rpc=5");
    assert_eq!(verdict_log_line(Verdict::Mismatch, 13, 2, 3), "MISMATCH slot 13 \u{2192} stream=2 rpc=3");
}

#[test]
fn summary_lists_totals_and_details() {
    let mut report = Report::new();
    report.record_block(5);
    report.record_comparison(40, 5, 6);
    let lines = report.summary();
    assert_eq!(
        lines,
        vec![
            "",
            "============== FINAL REPORT ==============",
            "Total Blocks Received: 1",
            "Total gRPC Tx Count: 5",
            "Total RPC Tx Count: 6",
            "Mismatched Blocks: 1",
            "",
            "--- MISMATCH DETAILS ---",
            "Slot 40 mismatch: gRPC Tx Count=5 RPC Tx Count=6",
            "===========================================",
        ]
    );
    let empty = Report::new().summary();
    assert_eq!(empty.len(), 7);
    assert_eq!(empty[5], "Mismatched Blocks: 0");
}

#[test]
fn subscription_asks_for_finalized_blocks() {
    let r = blocks_request();
    assert_eq!(r.filter_name, "client");
    assert!(r.include_transactions);
    assert_eq!(r.commitment, Commitment::Finalized);
    assert_eq!(window_ms(60), 60_000);
    assert_eq!(window_ms(u64::MAX), u64::MAX);
}
