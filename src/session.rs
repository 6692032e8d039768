use vstd::prelude::*;

verus! {

/// How final the data must be before the source hands it out.
#[derive(Clone, Copy, Debug, PartialEq, Eq, Structural)]
pub enum Commitment {
    Processed,
    Confirmed,
    Finalized,
}

/// The filter of a block subscription.
pub struct BlockSubscription {
    /// The name under which the filter is registered.
    pub filter_name: String,
    pub include_transactions: bool,
    pub commitment: Commitment,
}

/// The subscription that a session asks for: blocks with their transaction
/// details, at the strongest commitment level.
pub fn blocks_request() -> (r: BlockSubscription)
    ensures
        r.filter_name@ == "client"@,
        r.include_transactions,
        r.commitment == Commitment::Finalized,
{
    BlockSubscription {
        filter_name: String::from_str("client"),
        include_transactions: true,
        commitment: Commitment::Finalized,
    }
}

/// An observation window of `secs` seconds in milliseconds, saturating at
/// the largest `u64`.
pub fn window_ms(secs: u64) -> (r: u64)
    ensures
        secs * 1000 <= u64::MAX ==> r == secs * 1000,
        secs * 1000 > u64::MAX ==> r == u64::MAX,
{
    if secs <= u64::MAX / 1000 {
        secs * 1000
    } else {
        u64::MAX
    }
}

} // verus!
