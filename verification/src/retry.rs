//! Bounded retry with exponential backoff and jitter.
//!
//! A single fetch attempt either succeeds, fails in a way worth retrying
//! (transport trouble, server-side errors), or fails fatally (client
//! errors).  `decide` turns one attempt's outcome into the next action;
//! `run_retry` drives a whole sequence of outcomes and is the reference
//! semantics of the executor.

use vstd::arithmetic::mul::lemma_mul_inequality;
use vstd::arithmetic::power::{lemma_pow_adds, lemma_pow_positive, pow};
use vstd::prelude::*;

use crate::fetch::{FetchFailure, FetchStep};

verus! {

/// Configuration of the retry executor: how many attempts to make, how the
/// delay between attempts grows, and which failures are worth repeating.
pub struct RetryPolicy {
    /// Total number of attempts, the first one included.
    pub max_attempts: u32,
    /// Delay before the second attempt, in milliseconds.
    pub base_delay_ms: u64,
    /// Growth factor of the delay from one retry to the next.
    pub multiplier: u64,
    /// Upper bound on the pre-jitter delay, in milliseconds.
    pub max_delay_ms: u64,
    /// Jitter amplitude as a percentage of the computed delay.
    pub jitter_percent: u64,
    /// Whether a rate-limiting status (429) is retried like a server error.
    pub retry_rate_limited: bool,
}

impl RetryPolicy {
    /// A policy is usable when it grants at least one attempt and its
    /// jitter amplitude is at most the whole delay.
    pub open spec fn wf(&self) -> bool {
        &&& self.max_attempts >= 1
        &&& self.jitter_percent <= 100
    }
}

/// Pre-jitter delay before retry number `attempt + 1`, where `attempt`
/// counts the attempts already made (so the first retry uses `attempt == 1`):
/// the capped exponential `min(max_delay, base * multiplier^(attempt - 1))`.
pub open spec fn pre_jitter_delay(p: RetryPolicy, attempt: nat) -> int
    recommends
        attempt >= 1,
{
    let raw = p.base_delay_ms * pow(p.multiplier as int, (attempt - 1) as nat);
    if raw > p.max_delay_ms { p.max_delay_ms as int } else { raw }
}

/// Whether `f` is a failure that the policy retries: transport failures and
/// server-side statuses always, rate limiting when the policy says so.
pub open spec fn spec_retryable(p: RetryPolicy, f: FetchFailure) -> bool {
    match f {
        FetchFailure::Transport { detail: _ } => true,
        FetchFailure::Status { code } => {
            ||| 500 <= code <= 599
            ||| (code == 429 && p.retry_rate_limited)
        },
    }
}

/// Classifies one failure under the policy.
pub fn is_retryable(p: &RetryPolicy, f: &FetchFailure) -> (r: bool)
    ensures
        r == spec_retryable(*p, *f),
{
    match f {
        FetchFailure::Transport { detail: _ } => true,
        FetchFailure::Status { code } => {
            let c = *code;
            (500 <= c && c <= 599) || (c == 429 && p.retry_rate_limited)
        },
    }
}

/// With a growth factor of at least one, the raw exponential delay never
/// shrinks as the attempt number grows.
proof fn lemma_raw_delay_monotone(p: RetryPolicy, a1: nat, a2: nat)
    requires
        p.multiplier >= 1,
        1 <= a1 <= a2,
    ensures
        p.base_delay_ms * pow(p.multiplier as int, (a1 - 1) as nat) <= p.base_delay_ms * pow(
            p.multiplier as int,
            (a2 - 1) as nat,
        ),
{
    let m = p.multiplier as int;
    let e1 = (a1 - 1) as nat;
    let e2 = (a2 - 1) as nat;
    lemma_pow_adds(m, e1, (e2 - e1) as nat);
    lemma_pow_positive(m, (e2 - e1) as nat);
    lemma_pow_positive(m, e1);
    lemma_mul_inequality(1, pow(m, (e2 - e1) as nat), pow(m, e1));
    assert(pow(m, e1) <= pow(m, e2));
    lemma_mul_inequality(pow(m, e1), pow(m, e2), p.base_delay_ms as int);
}

/// Computes the pre-jitter delay before retry number `attempt + 1`:
/// exactly `min(max_delay, base * multiplier^(attempt - 1))`.
pub fn compute_delay(p: &RetryPolicy, attempt: u32) -> (d: u64)
    requires
        attempt >= 1,
    ensures
        d == pre_jitter_delay(*p, attempt as nat),
{
    let maxd = p.max_delay_ms;
    if p.multiplier == 0 {
        proof {
            if attempt == 1 {
                vstd::arithmetic::power::lemma_pow0(0int);
            } else {
                vstd::arithmetic::power::lemma0_pow((attempt - 1) as nat);
            }
        }
        if attempt == 1 {
            if p.base_delay_ms > maxd {
                return maxd;
            }
            return p.base_delay_ms;
        }
        // the raw delay collapses to zero from the second retry on
        return 0;
    }
    let m = p.multiplier;
    proof {
        vstd::arithmetic::power::lemma_pow0(m as int);
    }
    if p.base_delay_ms >= maxd {
        // the very first raw delay already reaches the cap, and it never
        // shrinks while the growth factor is at least one
        proof {
            lemma_raw_delay_monotone(*p, 1, attempt as nat);
        }
        return maxd;
    }
    let mut d: u64 = p.base_delay_ms;
    let mut j: u32 = 1;
    while j < attempt
        invariant
            1 <= j <= attempt,
            m == p.multiplier,
            m >= 1,
            maxd == p.max_delay_ms,
            d < maxd,
            d == p.base_delay_ms * pow(m as int, (j - 1) as nat),
        decreases attempt - j,
    {
        proof {
            lemma_pow_adds(m as int, (j - 1) as nat, 1);
            assert(pow(m as int, 1) == m) by {
                vstd::arithmetic::power::lemma_pow1(m as int);
            }
            vstd::arithmetic::mul::lemma_mul_is_associative(
                p.base_delay_ms as int,
                pow(m as int, (j - 1) as nat),
                m as int,
            );
            assert(p.base_delay_ms * pow(m as int, j as nat) == d * m);
        }
        if d > maxd / m {
            // The next raw delay would exceed the cap, and from there the
            // raw delay only grows: the capped delay is the cap itself.
            proof {
                assert(d * m >= (maxd / m + 1) * m) by {
                    lemma_mul_inequality(maxd / m + 1, d as int, m as int);
                }
                assert((maxd / m + 1) * m > maxd) by {
                    vstd::arithmetic::div_mod::lemma_fundamental_div_mod(maxd as int, m as int);
                    vstd::arithmetic::mul::lemma_mul_is_distributive_add_other_way(
                        m as int,
                        (maxd / m) as int,
                        1,
                    );
                }
                lemma_raw_delay_monotone(*p, (j + 1) as nat, attempt as nat);
            }
            return maxd;
        }
        proof {
            assert(d * m <= (maxd / m) * m) by {
                lemma_mul_inequality(d as int, (maxd / m) as int, m as int);
            }
            assert((maxd / m) * m <= maxd) by {
                vstd::arithmetic::div_mod::lemma_fundamental_div_mod(maxd as int, m as int);
            }
        }
        let next = d * m;
        if next >= maxd {
            // the raw delay has reached the cap exactly and stays at or
            // above it for every later attempt
            proof {
                lemma_raw_delay_monotone(*p, (j + 1) as nat, attempt as nat);
            }
            return maxd;
        }
        d = next;
        j = j + 1;
    }
    d
}

/// Perturbs a delay by at most `jitter_percent` percent of itself, in
/// either direction, steered by the caller's source of randomness.  The
/// result never leaves `[delay - amount, delay + amount]` where `amount`
/// is `delay * jitter_percent / 100`; in particular it never goes
/// negative.
pub fn apply_jitter(delay: u64, jitter_percent: u64, entropy: u64) -> (r: u64)
    requires
        jitter_percent <= 100,
    ensures
        delay - delay * jitter_percent / 100 <= r <= delay + delay * jitter_percent / 100,
{
    proof {
        assert(delay * jitter_percent <= delay * 100) by {
            lemma_mul_inequality(jitter_percent as int, 100, delay as int);
        }
        assert(delay * 100 <= u64::MAX * 100) by {
            lemma_mul_inequality(delay as int, u64::MAX as int, 100);
        }
    }
    let amount: u128 = (delay as u128) * (jitter_percent as u128) / 100;
    proof {
        assert(delay * jitter_percent / 100 <= delay * 100 / 100) by {
            vstd::arithmetic::div_mod::lemma_div_is_ordered(
                (delay * jitter_percent) as int,
                (delay * 100) as int,
                100,
            );
        }
        assert(delay * 100 / 100 == delay) by {
            vstd::arithmetic::div_mod::lemma_div_multiples_vanish(delay as int, 100);
        }
    }
    proof {
        assert(amount == delay * jitter_percent / 100);
        assert(amount <= delay);
    }
    let span: u128 = 2 * amount + 1;
    let offset: u128 = (entropy as u128) % span;
    let val: u128 = (delay as u128) - amount + offset;
    if val > u64::MAX as u128 {
        u64::MAX
    } else {
        val as u64
    }
}

/// One attempt's raw outcome, as the caller observed it.
pub type AttemptOutcome = Result<FetchStep, FetchFailure>;

/// Terminal failure of a whole retried fetch.
#[derive(Debug)]
pub enum RetryError {
    /// The server rejected the request itself; repeating it cannot help.
    ClientRequest { failure: FetchFailure },
    /// Every allowed attempt failed with a transient failure; this wraps
    /// the last one observed.
    Exhausted { last: FetchFailure },
}

/// What to do after one attempt.
#[derive(Debug)]
pub enum RetryDecision {
    /// The attempt succeeded; hand its result to the caller.
    Done { step: FetchStep },
    /// Give up, fatally or with the attempts exhausted.
    Fail { error: RetryError },
    /// Sleep this many milliseconds, then attempt again.
    Sleep { delay_ms: u64 },
}

/// Turns the outcome of attempt number `attempt` into the next action:
/// success returns, a fatal failure gives up at once, a transient failure
/// waits out the jittered backoff delay while attempts remain and gives up
/// as exhausted otherwise.
pub fn decide(p: &RetryPolicy, attempt: u32, outcome: AttemptOutcome, entropy: u64) -> (d:
    RetryDecision)
    requires
        p.wf(),
        attempt >= 1,
    ensures
        match outcome {
            Ok(s) => d == (RetryDecision::Done { step: s }),
            Err(f) => if !spec_retryable(*p, f) {
                d == (RetryDecision::Fail { error: RetryError::ClientRequest { failure: f } })
            } else if attempt >= p.max_attempts {
                d == (RetryDecision::Fail { error: RetryError::Exhausted { last: f } })
            } else {
                d matches RetryDecision::Sleep { delay_ms } && {
                    let pre = pre_jitter_delay(*p, attempt as nat);
                    pre - pre * p.jitter_percent / 100 <= delay_ms <= pre + pre
                        * p.jitter_percent / 100
                }
            },
        },
{
    match outcome {
        Ok(step) => RetryDecision::Done { step },
        Err(f) => {
            if !is_retryable(p, &f) {
                RetryDecision::Fail { error: RetryError::ClientRequest { failure: f } }
            } else if attempt >= p.max_attempts {
                RetryDecision::Fail { error: RetryError::Exhausted { last: f } }
            } else {
                let pre = compute_delay(p, attempt);
                RetryDecision::Sleep { delay_ms: apply_jitter(pre, p.jitter_percent, entropy) }
            }
        },
    }
}

/// Reference semantics of the whole executor, fed with the outcome of each
/// attempt in order: the final result, and the index just past the last
/// attempt made (so the second component is the number of attempts).
pub open spec fn spec_run_from(p: RetryPolicy, outs: Seq<AttemptOutcome>, i: nat) -> (Result<
    FetchStep,
    RetryError,
>, nat)
    recommends
        i < p.max_attempts,
        p.max_attempts <= outs.len(),
    decreases p.max_attempts - i,
    when i < p.max_attempts <= outs.len()
{
    match outs[i as int] {
        Ok(s) => (Ok(s), (i + 1) as nat),
        Err(f) => {
            if !spec_retryable(p, f) {
                (Err(RetryError::ClientRequest { failure: f }), (i + 1) as nat)
            } else if i + 1 < p.max_attempts {
                spec_run_from(p, outs, (i + 1) as nat)
            } else {
                (Err(RetryError::Exhausted { last: f }), (i + 1) as nat)
            }
        },
    }
}

/// Runs the executor against a fixed list of attempt outcomes, consuming
/// them in order: the result and the number of attempts made are exactly
/// the ones of the reference semantics.
pub fn run_retry(p: &RetryPolicy, outcomes: &Vec<AttemptOutcome>) -> (r: (Result<
    FetchStep,
    RetryError,
>, usize))
    requires
        p.wf(),
        p.max_attempts <= outcomes@.len(),
    ensures
        (r.0, r.1 as nat) == spec_run_from(*p, outcomes@, 0),
        r.1 <= p.max_attempts,
{
    let ghost outs = outcomes@;
    let mut i: usize = 0;
    loop
        invariant
            i < p.max_attempts,
            p.wf(),
            outs == outcomes@,
            p.max_attempts <= outs.len(),
            spec_run_from(*p, outs, 0) == spec_run_from(*p, outs, i as nat),
        decreases p.max_attempts - i,
    {
        match &outcomes[i] {
            Ok(s) => {
                return (Ok(s.duplicate()), i + 1);
            },
            Err(f) => {
                if !is_retryable(p, f) {
                    return (Err(RetryError::ClientRequest { failure: f.duplicate() }), i + 1);
                }
                if i + 1 >= p.max_attempts as usize {
                    return (Err(RetryError::Exhausted { last: f.duplicate() }), i + 1);
                }
                i = i + 1;
            },
        }
    }
}

/// Retry termination, the successful half: when the first `k` attempts
/// fail in a retryable way, attempt `k + 1` succeeds, and the policy still
/// allows it, the executor returns that success after exactly `k + 1`
/// attempts.
pub proof fn lemma_retry_success_after_failures(
    p: RetryPolicy,
    outs: Seq<AttemptOutcome>,
    k: nat,
)
    requires
        p.wf(),
        p.max_attempts <= outs.len(),
        k < p.max_attempts,
        forall|j: int| 0 <= j < k ==> outs[j] is Err && spec_retryable(p, outs[j]->Err_0),
        outs[k as int] is Ok,
    ensures
        spec_run_from(p, outs, 0) == (Ok::<FetchStep, RetryError>(outs[k as int]->Ok_0), (k
            + 1) as nat),
{
    lemma_run_from_to_success(p, outs, 0, k);
}

proof fn lemma_run_from_to_success(p: RetryPolicy, outs: Seq<AttemptOutcome>, i: nat, k: nat)
    requires
        p.wf(),
        p.max_attempts <= outs.len(),
        i <= k < p.max_attempts,
        forall|j: int| i <= j < k ==> outs[j] is Err && spec_retryable(p, outs[j]->Err_0),
        outs[k as int] is Ok,
    ensures
        spec_run_from(p, outs, i) == (Ok::<FetchStep, RetryError>(outs[k as int]->Ok_0), (k
            + 1) as nat),
    decreases k - i,
{
    if i < k {
        lemma_run_from_to_success(p, outs, (i + 1) as nat, k);
    }
}

/// Retry termination, the exhausted half: when every allowed attempt fails
/// in a retryable way, the executor gives up after exactly `max_attempts`
/// attempts, wrapping the failure it saw last.
pub proof fn lemma_retry_exhausted(p: RetryPolicy, outs: Seq<AttemptOutcome>)
    requires
        p.wf(),
        p.max_attempts <= outs.len(),
        forall|j: int| 0 <= j < p.max_attempts ==> outs[j] is Err && spec_retryable(p, outs[j]->Err_0),
    ensures
        spec_run_from(p, outs, 0) == (Err::<FetchStep, RetryError>(RetryError::Exhausted {
            last: outs[p.max_attempts - 1]->Err_0,
        }), p.max_attempts as nat),
{
    lemma_run_from_to_exhausted(p, outs, 0);
}

proof fn lemma_run_from_to_exhausted(p: RetryPolicy, outs: Seq<AttemptOutcome>, i: nat)
    requires
        p.wf(),
        p.max_attempts <= outs.len(),
        i < p.max_attempts,
        forall|j: int| i <= j < p.max_attempts ==> outs[j] is Err && spec_retryable(p, outs[j]->Err_0),
    ensures
        spec_run_from(p, outs, i) == (Err::<FetchStep, RetryError>(RetryError::Exhausted {
            last: outs[p.max_attempts - 1]->Err_0,
        }), p.max_attempts as nat),
    decreases p.max_attempts - i,
{
    if i + 1 < p.max_attempts {
        lemma_run_from_to_exhausted(p, outs, (i + 1) as nat);
    }
}

/// Fatal short-circuit: when the very first attempt fails in a way the
/// policy does not retry, the executor stops after that one attempt and
/// reports the server's rejection.
pub proof fn lemma_fatal_short_circuit(p: RetryPolicy, outs: Seq<AttemptOutcome>)
    requires
        p.wf(),
        p.max_attempts <= outs.len(),
        outs[0] is Err,
        !spec_retryable(p, outs[0]->Err_0),
    ensures
        spec_run_from(p, outs, 0) == (Err::<FetchStep, RetryError>(RetryError::ClientRequest {
            failure: outs[0]->Err_0,
        }), 1nat),
{
}

} // verus!
