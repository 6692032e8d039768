use vstd::prelude::*;
use vstd::string::*;
use crate::report::{MismatchRecord, Report, ReportModel, Verdict};

verus! {

/// The decimal digit `d`.
pub open spec fn digit_char(d: nat) -> char {
    if d == 0 {
        '0'
    } else if d == 1 {
        '1'
    } else if d == 2 {
        '2'
    } else if d == 3 {
        '3'
    } else if d == 4 {
        '4'
    } else if d == 5 {
        '5'
    } else if d == 6 {
        '6'
    } else if d == 7 {
        '7'
    } else if d == 8 {
        '8'
    } else {
        '9'
    }
}

/// `n` written in decimal, without leading zeros.
pub open spec fn decimal(n: nat) -> Seq<char>
    decreases n,
{
    if n < 10 {
        seq![digit_char(n)]
    } else {
        decimal(n / 10).push(digit_char(n % 10))
    }
}

fn digit_str(d: u64) -> (r: &'static str)
    requires
        d < 10,
    ensures
        r@ == seq![digit_char(d as nat)],
{
    proof {
        reveal_strlit("0");
        reveal_strlit("1");
        reveal_strlit("2");
        reveal_strlit("3");
        reveal_strlit("4");
        reveal_strlit("5");
        reveal_strlit("6");
        reveal_strlit("7");
        reveal_strlit("8");
        reveal_strlit("9");
    }
    let r = if d == 0 {
        "0"
    } else if d == 1 {
        "1"
    } else if d == 2 {
        "2"
    } else if d == 3 {
        "3"
    } else if d == 4 {
        "4"
    } else if d == 5 {
        "5"
    } else if d == 6 {
        "6"
    } else if d == 7 {
        "7"
    } else if d == 8 {
        "8"
    } else {
        "9"
    };
    assert(r@ =~= seq![digit_char(d as nat)]);
    r
}

/// Appends `n` in decimal to `s`.
pub fn push_decimal(s: &mut String, n: u64)
    ensures
        final(s)@ == old(s)@ + decimal(n as nat),
    decreases n,
{
    let ghost start = s@;
    if n >= 10 {
        push_decimal(s, n / 10);
    }
    s.append(digit_str(n % 10));
    proof {
        if n >= 10 {
            assert(s@ =~= start + decimal(n as nat));
        } else {
            assert(s@ =~= start + decimal(n as nat));
        }
    }
}

/// `n` in decimal.
pub fn decimal_string(n: u64) -> (r: String)
    ensures
        r@ == decimal(n as nat),
{
    let mut s = String::new();
    push_decimal(&mut s, n);
    assert(s@ =~= decimal(n as nat));
    s
}

/// The detail line of a mismatch.
pub open spec fn mismatch_line(r: MismatchRecord) -> Seq<char> {
    "Slot "@ + decimal(r.slot as nat) + " mismatch: gRPC Tx Count="@ + decimal(
        r.stream_count as nat,
    ) + " RPC Tx Count="@ + decimal(r.reference_count as nat)
}

/// The log line of a completed comparison.
pub open spec fn verdict_line(v: Verdict, slot: u64, stream_count: u64, reference_count: u64) -> Seq<
    char,
> {
    (if v == Verdict::Match {
        "MATCH"@
    } else {
        "MISMATCH"@
    }) + " slot "@ + decimal(slot as nat) + " \u{2192} stream="@ + decimal(stream_count as nat)
        + " rpc="@ + decimal(reference_count as nat)
}

impl MismatchRecord {
    /// The human-readable detail line of this mismatch.
    pub fn to_line(&self) -> (r: String)
        ensures
            r@ == mismatch_line(*self),
    {
        let mut s = String::from_str("Slot ");
        push_decimal(&mut s, self.slot);
        s.append(" mismatch: gRPC Tx Count=");
        push_decimal(&mut s, self.stream_count);
        s.append(" RPC Tx Count=");
        push_decimal(&mut s, self.reference_count);
        s
    }
}

/// The log line that notes a match or a mismatch.
pub fn verdict_log_line(v: Verdict, slot: u64, stream_count: u64, reference_count: u64) -> (r:
    String)
    ensures
        r@ == verdict_line(v, slot, stream_count, reference_count),
{
    let mut s = match v {
        Verdict::Match => String::from_str("MATCH"),
        Verdict::Mismatch => String::from_str("MISMATCH"),
    };
    s.append(" slot ");
    push_decimal(&mut s, slot);
    s.append(" \u{2192} stream=");
    push_decimal(&mut s, stream_count);
    s.append(" rpc=");
    push_decimal(&mut s, reference_count);
    s
}

/// The detail lines of `details`, in order.
pub open spec fn detail_lines(details: Seq<MismatchRecord>) -> Seq<Seq<char>> {
    details.map_values(|r: MismatchRecord| mismatch_line(r))
}

/// The lines of the final summary: the totals, then, if there were any
/// mismatches, their detail lines.
pub open spec fn summary_lines(m: ReportModel) -> Seq<Seq<char>> {
    let head = seq![
        Seq::<char>::empty(),
        "============== FINAL REPORT =============="@,
        "Total Blocks Received: "@ + decimal(m.total_blocks),
        "Total gRPC Tx Count: "@ + decimal(m.total_stream_txs),
        "Total RPC Tx Count: "@ + decimal(m.total_rpc_txs),
        "Mismatched Blocks: "@ + decimal(m.mismatched_blocks),
    ];
    let body = if m.details.len() == 0 {
        Seq::empty()
    } else {
        seq![Seq::<char>::empty(), "--- MISMATCH DETAILS ---"@] + detail_lines(m.details)
    };
    head + body + seq!["==========================================="@]
}

fn labelled(label: &str, n: u64) -> (r: String)
    ensures
        r@ == label@ + decimal(n as nat),
{
    let mut s = String::from_str(label);
    push_decimal(&mut s, n);
    s
}

impl Report {
    /// The final summary of this report, one string per line.
    pub fn summary(&self) -> (r: Vec<String>)
        ensures
            r@.map_values(|s: String| s@) == summary_lines(self@),
    {
        let ghost expect = summary_lines(self@);
        let ghost n_details: int = if self.details@.len() == 0 {
            0
        } else {
            self.details@.len() + 2int
        };
        assert(expect.len() == 7 + n_details);
        let mut out: Vec<String> = Vec::new();
        out.push(String::new());
        out.push(String::from_str("============== FINAL REPORT =============="));
        out.push(labelled("Total Blocks Received: ", self.total_blocks));
        out.push(labelled("Total gRPC Tx Count: ", self.total_stream_txs));
        out.push(labelled("Total RPC Tx Count: ", self.total_rpc_txs));
        out.push(labelled("Mismatched Blocks: ", self.mismatched_blocks));
        assert(forall|k: int| 0 <= k < out@.len() ==> #[trigger] out@[k]@ == expect[k]);
        if self.details.len() > 0 {
            out.push(String::new());
            out.push(String::from_str("--- MISMATCH DETAILS ---"));
            assert(forall|k: int| 0 <= k < out@.len() ==> #[trigger] out@[k]@ == expect[k]);
            let mut i: usize = 0;
            while i < self.details.len()
                invariant
                    0 <= i <= self.details@.len(),
                    expect == summary_lines(self@),
                    self.details@.len() > 0,
                    out@.len() == 8 + i,
                    forall|k: int| 0 <= k < out@.len() ==> #[trigger] out@[k]@ == expect[k],
                decreases self.details.len() - i,
            {
                let line = self.details[i].to_line();
                out.push(line);
                i = i + 1;
            }
        }
        out.push(String::from_str("==========================================="));
        assert(out@.map_values(|s: String| s@) =~= expect);
        out
    }
}

} // verus!
