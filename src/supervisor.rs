use vstd::prelude::*;

verus! {

/// Exponential backoff between reconnection attempts. Each delay is the
/// previous one times `multiplier_num / multiplier_den`, capped at
/// `max_interval_ms`; a failure cycle that has lasted longer than
/// `max_elapsed_ms` is given up.
#[derive(Clone, Copy, Debug, PartialEq, Eq, Structural)]
pub struct BackoffPolicy {
    pub initial_interval_ms: u64,
    pub multiplier_num: u64,
    pub multiplier_den: u64,
    pub max_interval_ms: u64,
    pub max_elapsed_ms: Option<u64>,
}

impl BackoffPolicy {
    /// A policy whose delays never shrink.
    pub open spec fn wf(&self) -> bool {
        &&& self.multiplier_den > 0
        &&& self.multiplier_num >= self.multiplier_den
    }

    /// Half a second at first, half as long again after each failure, at most a
    /// minute apart, given up after a quarter of an hour of failures.
    pub fn standard() -> (p: BackoffPolicy)
        ensures
            p.wf(),
            p.initial_interval_ms == 500,
            p.multiplier_num == 3,
            p.multiplier_den == 2,
            p.max_interval_ms == 60_000,
            p.max_elapsed_ms == Some(900_000u64),
    {
        BackoffPolicy {
            initial_interval_ms: 500,
            multiplier_num: 3,
            multiplier_den: 2,
            max_interval_ms: 60_000,
            max_elapsed_ms: Some(900_000),
        }
    }
}

pub open spec fn min_nat(a: nat, b: nat) -> nat {
    if a <= b {
        a
    } else {
        b
    }
}

/// The delay that follows a delay of `d`.
pub open spec fn grow(p: BackoffPolicy, d: nat) -> nat {
    min_nat(d * p.multiplier_num as nat / p.multiplier_den as nat, p.max_interval_ms as nat)
}

/// The delay before the retry that follows `k` consecutive failures.
pub open spec fn backoff_delay(p: BackoffPolicy, k: nat) -> nat
    decreases k,
{
    if k == 0 {
        min_nat(p.initial_interval_ms as nat, p.max_interval_ms as nat)
    } else {
        grow(p, backoff_delay(p, (k - 1) as nat))
    }
}

proof fn lemma_grow_bounds(p: BackoffPolicy, d: nat)
    requires
        p.wf(),
        d <= p.max_interval_ms,
    ensures
        d <= grow(p, d) <= p.max_interval_ms,
{
    let num = p.multiplier_num as nat;
    let den = p.multiplier_den as nat;
    assert(d * num >= d * den) by (nonlinear_arith)
        requires
            num >= den,
    ;
    assert(d * den / den == d) by (nonlinear_arith)
        requires
            den > 0,
    ;
    assert(d * num / den >= d * den / den) by (nonlinear_arith)
        requires
            d * num >= d * den,
            den > 0,
    ;
}

proof fn lemma_delay_capped(p: BackoffPolicy, k: nat)
    requires
        p.wf(),
    ensures
        backoff_delay(p, k) <= p.max_interval_ms,
    decreases k,
{
    if k > 0 {
        lemma_delay_capped(p, (k - 1) as nat);
        lemma_grow_bounds(p, backoff_delay(p, (k - 1) as nat));
    }
}

/// Delays never shrink from one failure to the next, and never pass the
/// policy's maximum interval.
pub proof fn lemma_delays_non_decreasing_and_capped(p: BackoffPolicy, i: nat, j: nat)
    requires
        p.wf(),
        i <= j,
    ensures
        backoff_delay(p, i) <= backoff_delay(p, j),
        backoff_delay(p, j) <= p.max_interval_ms,
    decreases j - i,
{
    lemma_delay_capped(p, j);
    if i < j {
        lemma_delays_non_decreasing_and_capped(p, i, (j - 1) as nat);
        lemma_delay_capped(p, (j - 1) as nat);
        lemma_grow_bounds(p, backoff_delay(p, (j - 1) as nat));
    }
}

/// The delay that follows a delay of `current_ms`.
pub fn next_interval(p: &BackoffPolicy, current_ms: u64) -> (r: u64)
    requires
        p.wf(),
    ensures
        r == grow(*p, current_ms as nat),
{
    let num = p.multiplier_num as u128;
    let den = p.multiplier_den as u128;
    let d = current_ms as u128;
    assert(d * num <= u64::MAX as int * u64::MAX as int) by (nonlinear_arith)
        requires
            d <= u64::MAX,
            num <= u64::MAX,
    ;
    let g = d * num / den;
    if g >= p.max_interval_ms as u128 {
        p.max_interval_ms
    } else {
        g as u64
    }
}

/// The delay before the retry that follows `attempt` consecutive failures.
pub fn next_backoff(p: &BackoffPolicy, attempt: u64) -> (r: u64)
    requires
        p.wf(),
    ensures
        r == backoff_delay(*p, attempt as nat),
{
    let mut d: u64 = if p.initial_interval_ms <= p.max_interval_ms {
        p.initial_interval_ms
    } else {
        p.max_interval_ms
    };
    let mut k: u64 = 0;
    while k < attempt
        invariant
            p.wf(),
            k <= attempt,
            d == backoff_delay(*p, k as nat),
        decreases attempt - k,
    {
        d = next_interval(p, d);
        k = k + 1;
    }
    d
}

/// How a session ended, as the supervisor learns it.
#[derive(Clone, Copy, Debug, PartialEq, Eq, Structural)]
pub enum SessionOutcome {
    /// Connecting or subscribing failed; worth another try.
    SetupFailed,
    /// The stream ended after the session was set up; worth another try.
    StreamEnded,
    /// The observation window is over: the run is done.
    Completed,
    /// A failure that no retry can mend.
    Permanent,
}

/// What the supervisor does next.
#[derive(Clone, Copy, Debug, PartialEq, Eq, Structural)]
pub enum Decision {
    /// Wait `delay_ms`, then start a new session.
    Retry { delay_ms: u64 },
    /// End the run.
    Stop,
}

/// Model of the supervisor: sessions started, consecutive failures in the
/// current cycle, when that cycle began, and whether the run is over.
pub ghost struct SupervisorModel {
    pub attempts: nat,
    pub failures: nat,
    pub cycle_start_ms: nat,
    pub finished: bool,
}

/// The supervisor of a run that has just made its first connection attempt.
pub open spec fn start_model() -> SupervisorModel {
    SupervisorModel { attempts: 1, failures: 0, cycle_start_ms: 0, finished: false }
}

/// Whether a failure cycle that began at `start` is still worth retrying at `now`.
pub open spec fn within_elapsed(p: BackoffPolicy, start: nat, now: nat) -> bool {
    match p.max_elapsed_ms {
        Some(m) => now < start || now - start <= m,
        None => true,
    }
}

/// The supervisor's answer to `outcome`, reported `now_ms` after the run
/// began, for a window of `duration_ms`.
pub open spec fn decide(
    p: BackoffPolicy,
    s: SupervisorModel,
    outcome: SessionOutcome,
    now_ms: u64,
    duration_ms: u64,
) -> (SupervisorModel, Decision) {
    let stop = (SupervisorModel { finished: true, ..s }, Decision::Stop);
    if s.finished {
        (s, Decision::Stop)
    } else {
        match outcome {
            SessionOutcome::Completed => stop,
            SessionOutcome::Permanent => stop,
            _ => {
                let c = if outcome == SessionOutcome::StreamEnded {
                    SupervisorModel { failures: 0, cycle_start_ms: now_ms as nat, ..s }
                } else {
                    s
                };
                if now_ms >= duration_ms || !within_elapsed(p, c.cycle_start_ms, now_ms as nat)
                    || c.attempts >= u64::MAX {
                    (SupervisorModel { finished: true, ..c }, Decision::Stop)
                } else {
                    (
                        SupervisorModel {
                            attempts: c.attempts + 1,
                            failures: c.failures + 1,
                            ..c
                        },
                        Decision::Retry { delay_ms: backoff_delay(p, c.failures) as u64 },
                    )
                }
            },
        }
    }
}

/// Decides, after each session, whether and when to start another one.
pub struct Supervisor {
    pub policy: BackoffPolicy,
    pub attempts: u64,
    pub current_interval_ms: u64,
    pub cycle_start_ms: u64,
    pub finished: bool,
    pub failures: Ghost<nat>,
}

impl View for Supervisor {
    type V = SupervisorModel;

    open spec fn view(&self) -> SupervisorModel {
        SupervisorModel {
            attempts: self.attempts as nat,
            failures: self.failures@,
            cycle_start_ms: self.cycle_start_ms as nat,
            finished: self.finished,
        }
    }
}

impl Supervisor {
    pub open spec fn wf(&self) -> bool {
        &&& self.policy.wf()
        &&& self.current_interval_ms == backoff_delay(self.policy, self.failures@)
    }

    /// A supervisor for a run whose first connection attempt starts now.
    pub fn new(policy: BackoffPolicy) -> (s: Supervisor)
        requires
            policy.wf(),
        ensures
            s.wf(),
            s.policy == policy,
            s@ == start_model(),
    {
        Supervisor {
            policy,
            attempts: 1,
            current_interval_ms: next_backoff(&policy, 0),
            cycle_start_ms: 0,
            finished: false,
            failures: Ghost(0),
        }
    }

    /// Takes the outcome of the last session, `now_ms` after the run began,
    /// and says whether to retry and after what delay.
    pub fn on_outcome(&mut self, outcome: SessionOutcome, now_ms: u64, duration_ms: u64) -> (d:
        Decision)
        requires
            old(self).wf(),
        ensures
            final(self).wf(),
            final(self).policy == old(self).policy,
            (final(self)@, d) == decide(old(self).policy, old(self)@, outcome, now_ms, duration_ms),
    {
        if self.finished {
            return Decision::Stop;
        }
        match outcome {
            SessionOutcome::Completed | SessionOutcome::Permanent => {
                self.finished = true;
                return Decision::Stop;
            },
            _ => {},
        }
        if outcome == SessionOutcome::StreamEnded {
            self.failures = Ghost(0);
            self.current_interval_ms = next_backoff(&self.policy, 0);
            self.cycle_start_ms = now_ms;
        }
        let within = match self.policy.max_elapsed_ms {
            Some(m) => now_ms < self.cycle_start_ms || now_ms - self.cycle_start_ms <= m,
            None => true,
        };
        if now_ms >= duration_ms || !within || self.attempts == u64::MAX {
            self.finished = true;
            return Decision::Stop;
        }
        let delay = self.current_interval_ms;
        self.current_interval_ms = next_interval(&self.policy, delay);
        self.failures = Ghost(self.failures@ + 1);
        self.attempts = self.attempts + 1;
        Decision::Retry { delay_ms: delay }
    }
}

/// With a window of zero length the run never retries: whatever the first
/// session's outcome, the answer is to stop.
pub proof fn lemma_zero_window_never_retries(
    p: BackoffPolicy,
    s: SupervisorModel,
    outcome: SessionOutcome,
    now_ms: u64,
)
    ensures
        decide(p, s, outcome, now_ms, 0).1 == Decision::Stop,
{
}

/// The supervisor and its decisions after one setup failure at each of `times`.
pub open spec fn run_setup_failures(
    p: BackoffPolicy,
    s: SupervisorModel,
    times: Seq<u64>,
    duration_ms: u64,
) -> (SupervisorModel, Seq<Decision>)
    decreases times.len(),
{
    if times.len() == 0 {
        (s, Seq::empty())
    } else {
        let (s1, ds) = run_setup_failures(p, s, times.drop_last(), duration_ms);
        let (s2, d) = decide(p, s1, SessionOutcome::SetupFailed, times.last(), duration_ms);
        (s2, ds.push(d))
    }
}

/// K transient failures inside the window, each within the policy's elapsed
/// limit, are each answered by a retry: the run makes exactly K + 1
/// connection attempts, and the delays between them follow the backoff
/// schedule, never shrinking and never passing the maximum interval.
pub proof fn lemma_transient_failures_then_success(
    p: BackoffPolicy,
    times: Seq<u64>,
    duration_ms: u64,
)
    requires
        p.wf(),
        times.len() + 1 < u64::MAX,
        forall|i: int|
            0 <= i < times.len() ==> #[trigger] times[i] < duration_ms && within_elapsed(
                p,
                0,
                times[i] as nat,
            ),
    ensures
        ({
            let (s, ds) = run_setup_failures(p, start_model(), times, duration_ms);
            &&& s.attempts == times.len() + 1
            &&& !s.finished
            &&& ds.len() == times.len()
            &&& forall|i: int|
                0 <= i < ds.len() ==> #[trigger] ds[i] == Decision::Retry {
                    delay_ms: backoff_delay(p, i as nat) as u64,
                }
            &&& forall|i: int, j: int|
                #![trigger backoff_delay(p, i as nat), backoff_delay(p, j as nat)]
                0 <= i <= j < ds.len() ==> backoff_delay(p, i as nat) <= backoff_delay(p, j as nat)
                    <= p.max_interval_ms
        }),
    decreases times.len(),
{
    if times.len() > 0 {
        let prefix = times.drop_last();
        assert forall|i: int| 0 <= i < prefix.len() implies #[trigger] prefix[i] < duration_ms
            && within_elapsed(p, 0, prefix[i] as nat) by {
            assert(prefix[i] == times[i]);
        }
        lemma_transient_failures_then_success(p, prefix, duration_ms);
        let (s1, ds1) = run_setup_failures(p, start_model(), prefix, duration_ms);
        assert(s1 == SupervisorModel {
            attempts: prefix.len() + 1,
            failures: prefix.len(),
            cycle_start_ms: 0,
            finished: false,
        }) by {
            lemma_failures_track_attempts(p, prefix, duration_ms);
        }
        assert(times.last() == times[times.len() - 1]);
    }
    assert forall|i: int, j: int|
        #![trigger backoff_delay(p, i as nat), backoff_delay(p, j as nat)]
        0 <= i <= j < times.len() implies backoff_delay(p, i as nat) <= backoff_delay(p, j as nat)
            <= p.max_interval_ms by {
        lemma_delays_non_decreasing_and_capped(p, i as nat, j as nat);
    }
}

proof fn lemma_failures_track_attempts(p: BackoffPolicy, times: Seq<u64>, duration_ms: u64)
    requires
        p.wf(),
        times.len() + 1 < u64::MAX,
        forall|i: int|
            0 <= i < times.len() ==> #[trigger] times[i] < duration_ms && within_elapsed(
                p,
                0,
                times[i] as nat,
            ),
    ensures
        run_setup_failures(p, start_model(), times, duration_ms).0 == (SupervisorModel {
            attempts: times.len() + 1,
            failures: times.len(),
            cycle_start_ms: 0,
            finished: false,
        }),
    decreases times.len(),
{
    if times.len() > 0 {
        let prefix = times.drop_last();
        assert forall|i: int| 0 <= i < prefix.len() implies #[trigger] prefix[i] < duration_ms
            && within_elapsed(p, 0, prefix[i] as nat) by {
            assert(prefix[i] == times[i]);
        }
        lemma_failures_track_attempts(p, prefix, duration_ms);
        assert(times.last() == times[times.len() - 1]);
    }
}

} // verus!
