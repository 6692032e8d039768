use vstd::prelude::*;
use crate::report::{after_comparison, comparison_fits, Report, Verdict};

verus! {

/// Why a reference count could not be recorded.
#[derive(Clone, Copy, Debug, PartialEq, Eq, Structural)]
pub enum CompareError {
    /// Every counted block already has its comparison.
    NoPendingBlock,
    /// The reference total would leave `u64`.
    CounterOverflow,
}

/// The reference source's transaction count for a block: the number of
/// signatures it lists, zero when it lists none.
pub open spec fn signature_count(signatures: Option<Seq<String>>) -> nat {
    match signatures {
        Some(s) => s.len(),
        None => 0,
    }
}

/// The transaction count of a block as the reference source gives it.
pub fn reference_count(signatures: &Option<Vec<String>>) -> (r: u64)
    ensures
        r as nat == signature_count(
            match signatures {
                Some(v) => Some(v@),
                None => None,
            },
        ),
{
    match signatures {
        Some(v) => v.len() as u64,
        None => 0,
    }
}

/// Compares a block's stream count with the count that the reference source
/// gave for it, and records the outcome in `report`. Fails, leaving the
/// report as it was, when no counted block awaits a comparison or when the
/// reference total would overflow.
pub fn compare_counts(
    report: &mut Report,
    slot: u64,
    stream_count: u64,
    reference_count: u64,
) -> (r: Result<Verdict, CompareError>)
    requires
        old(report).wf(),
    ensures
        final(report).wf(),
        old(report).compared_blocks >= old(report).total_blocks ==> r == Err::<
            Verdict,
            CompareError,
        >(CompareError::NoPendingBlock),
        old(report).compared_blocks < old(report).total_blocks && !comparison_fits(
            old(report)@,
            reference_count as nat,
        ) ==> r == Err::<Verdict, CompareError>(CompareError::CounterOverflow),
        r is Err ==> final(report)@ == old(report)@,
        comparison_fits(old(report)@, reference_count as nat) ==> {
            &&& r is Ok
            &&& final(report)@ == after_comparison(
                old(report)@,
                slot,
                stream_count,
                reference_count,
            )
            &&& (r == Ok::<Verdict, CompareError>(Verdict::Match) <==> stream_count
                == reference_count)
        },
{
    if report.compared_blocks >= report.total_blocks {
        return Err(CompareError::NoPendingBlock);
    }
    if !report.can_record_comparison(reference_count) {
        return Err(CompareError::CounterOverflow);
    }
    Ok(report.record_comparison(slot, stream_count, reference_count))
}

/// Counts the signatures that the reference source listed for `slot` and
/// compares that count with the stream's, as `compare_counts` does.
pub fn compare_with_reference(
    report: &mut Report,
    slot: u64,
    stream_count: u64,
    signatures: &Option<Vec<String>>,
) -> (r: Result<Verdict, CompareError>)
    requires
        old(report).wf(),
    ensures
        final(report).wf(),
        ({
            let rc = signature_count(
                match signatures {
                    Some(v) => Some(v@),
                    None => None,
                },
            );
            &&& old(report).compared_blocks >= old(report).total_blocks ==> r == Err::<
                Verdict,
                CompareError,
            >(CompareError::NoPendingBlock)
            &&& old(report).compared_blocks < old(report).total_blocks && !comparison_fits(
                old(report)@,
                rc,
            ) ==> r == Err::<Verdict, CompareError>(CompareError::CounterOverflow)
            &&& r is Err ==> final(report)@ == old(report)@
            &&& comparison_fits(old(report)@, rc) ==> {
                &&& r is Ok
                &&& final(report)@ == after_comparison(
                    old(report)@,
                    slot,
                    stream_count,
                    rc as u64,
                )
                &&& (r == Ok::<Verdict, CompareError>(Verdict::Match) <==> stream_count == rc)
            }
        }),
{
    let rc = reference_count(signatures);
    compare_counts(report, slot, stream_count, rc)
}

} // verus!
