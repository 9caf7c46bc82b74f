//! Exponential-backoff retry: the delay formula, the retry configuration,
//! and an engine that drives a fallible operation through repeated attempts
//! under a retryability rule.

use vstd::prelude::*;
use vstd::arithmetic::div_mod::{lemma_div_is_ordered, lemma_div_multiples_vanish};
use vstd::arithmetic::mul::lemma_mul_inequality;
use crate::errors::{spec_is_retryable, SecureNotifyError, is_retryable_error};

verus! {

/// Configuration of the retry engine. Delays are in milliseconds and the
/// backoff multiplier is a percentage (200 means the delay doubles), so the
/// growth formula stays in integers.
#[derive(Debug, Clone, Copy, PartialEq, Eq, Structural)]
pub struct RetryConfig {
    /// Maximum number of retries after the first attempt.
    pub max_retries: u32,
    /// Delay before the first retry, in milliseconds.
    pub initial_delay_ms: u64,
    /// Upper bound every delay is capped to, in milliseconds.
    pub max_delay_ms: u64,
    /// Growth factor between consecutive delays, in percent.
    pub backoff_multiplier_percent: u32,
    /// Whether a random additive jitter of up to a tenth of the delay is
    /// added before sleeping.
    pub jitter: bool,
}

/// The delay before the retry following attempt number `attempt`: the
/// initial delay grown by the multiplier once per attempt, capped at `max`
/// after every step. Growth is integer arithmetic: each step multiplies by
/// `percent` and divides by one hundred, discarding the remainder.
pub open spec fn spec_backoff_ms(initial: nat, percent: nat, max: nat, attempt: nat) -> nat
    decreases attempt,
{
    if attempt == 0 {
        if initial <= max {
            initial
        } else {
            max
        }
    } else {
        let grown = spec_backoff_ms(initial, percent, max, (attempt - 1) as nat) * percent / 100;
        if grown <= max {
            grown
        } else {
            max
        }
    }
}

/// The uncapped growth sequence: the initial delay multiplied by
/// `percent / 100` once per attempt, rounding down at every step.
pub open spec fn spec_backoff_raw(initial: nat, percent: nat, attempt: nat) -> nat
    decreases attempt,
{
    if attempt == 0 {
        initial
    } else {
        spec_backoff_raw(initial, percent, (attempt - 1) as nat) * percent / 100
    }
}

impl RetryConfig {
    /// The configuration invariant: the cap dominates the starting delay
    /// and the multiplier does not shrink delays.
    pub open spec fn wf(self) -> bool {
        self.initial_delay_ms <= self.max_delay_ms && self.backoff_multiplier_percent >= 100
    }

    /// The default configuration: three retries, delays growing from one
    /// second by a factor of two up to thirty seconds, with jitter.
    pub open spec fn spec_default() -> RetryConfig {
        RetryConfig {
            max_retries: 3,
            initial_delay_ms: 1000,
            max_delay_ms: 30000,
            backoff_multiplier_percent: 200,
            jitter: true,
        }
    }

    /// The delay this configuration assigns to an attempt number.
    pub open spec fn spec_delay(self, attempt: nat) -> nat {
        spec_backoff_ms(
            self.initial_delay_ms as nat,
            self.backoff_multiplier_percent as nat,
            self.max_delay_ms as nat,
            attempt,
        )
    }

    pub fn new() -> (r: Self)
        ensures
            r == RetryConfig::spec_default(),
    {
        RetryConfig {
            max_retries: 3,
            initial_delay_ms: 1000,
            max_delay_ms: 30000,
            backoff_multiplier_percent: 200,
            jitter: true,
        }
    }

    pub fn with_max_retries(self, max_retries: u32) -> (r: Self)
        ensures
            r == (RetryConfig { max_retries, ..self }),
    {
        RetryConfig { max_retries, ..self }
    }

    pub fn with_initial_delay(self, initial_delay_ms: u64) -> (r: Self)
        ensures
            r == (RetryConfig { initial_delay_ms, ..self }),
    {
        RetryConfig { initial_delay_ms, ..self }
    }

    pub fn with_max_delay(self, max_delay_ms: u64) -> (r: Self)
        ensures
            r == (RetryConfig { max_delay_ms, ..self }),
    {
        RetryConfig { max_delay_ms, ..self }
    }

    pub fn with_backoff_multiplier(self, backoff_multiplier_percent: u32) -> (r: Self)
        ensures
            r == (RetryConfig { backoff_multiplier_percent, ..self }),
    {
        RetryConfig { backoff_multiplier_percent, ..self }
    }

    pub fn with_jitter(self, jitter: bool) -> (r: Self)
        ensures
            r == (RetryConfig { jitter, ..self }),
    {
        RetryConfig { jitter, ..self }
    }
}

impl Default for RetryConfig {
    fn default() -> (r: Self)
        ensures
            r == RetryConfig::spec_default(),
    {
        RetryConfig::new()
    }
}

/// Law: the backoff delay never exceeds the configured maximum, whatever
/// the attempt number.
pub proof fn lemma_backoff_le_max(initial: nat, percent: nat, max: nat, attempt: nat)
    ensures
        spec_backoff_ms(initial, percent, max, attempt) <= max,
{
    if attempt == 0 {
    } else {
    }
}

/// Growing a value by at least one hundred percent of itself, in integer
/// arithmetic, never shrinks it.
proof fn lemma_growth_ge(x: nat, p: nat)
    requires
        p >= 100,
    ensures
        x * p / 100 >= x,
{
    lemma_mul_inequality(100, p as int, x as int);
    lemma_div_multiples_vanish(x as int, 100);
    lemma_div_is_ordered(100 * (x as int), (x as int) * (p as int), 100);
    assert(100 * (x as int) == (x as int) * 100);
}

/// Law: capping at every growth step agrees with capping the uncapped
/// growth once at the end, so the delay is exactly
/// `min(initial * (percent/100)^attempt, max)`.
pub proof fn lemma_backoff_exact(initial: nat, percent: nat, max: nat, attempt: nat)
    requires
        percent >= 100,
    ensures
        spec_backoff_ms(initial, percent, max, attempt) == if spec_backoff_raw(
            initial,
            percent,
            attempt,
        ) <= max {
            spec_backoff_raw(initial, percent, attempt)
        } else {
            max
        },
    decreases attempt,
{
    if attempt == 0 {
    } else {
        lemma_backoff_exact(initial, percent, max, (attempt - 1) as nat);
        let prev_capped = spec_backoff_ms(initial, percent, max, (attempt - 1) as nat);
        let prev_raw = spec_backoff_raw(initial, percent, (attempt - 1) as nat);
        if prev_raw <= max {
            assert(prev_capped == prev_raw);
        } else {
            assert(prev_capped == max);
            lemma_growth_ge(max, percent);
            lemma_growth_ge(prev_raw, percent);
            assert(spec_backoff_raw(initial, percent, attempt) == prev_raw * percent / 100);
            assert(prev_raw * percent / 100 >= prev_raw > max);
            assert(spec_backoff_ms(initial, percent, max, attempt) == max);
        }
    }
}

/// Compute the backoff delay for an attempt: the initial delay grown by
/// the multiplier once per attempt, capped at the maximum.
pub fn calculate_backoff(attempt: u32, config: &RetryConfig) -> (d: u64)
    requires
        config.wf(),
    ensures
        d as nat == config.spec_delay(attempt as nat),
        d <= config.max_delay_ms,
{
    let initial: u64 = config.initial_delay_ms;
    let percent: u32 = config.backoff_multiplier_percent;
    let max: u64 = config.max_delay_ms;
    let mut d: u64 = if initial <= max {
        initial
    } else {
        max
    };
    let mut i: u32 = 0;
    while i < attempt
        invariant
            i <= attempt,
            d as nat == spec_backoff_ms(initial as nat, percent as nat, max as nat, i as nat),
            d <= max,
        decreases attempt - i,
    {
        proof {
            assert((d as int) * (percent as int) <= (u64::MAX as int) * (u32::MAX as int))
                by (nonlinear_arith)
                requires
                    0 <= d <= u64::MAX,
                    0 <= percent <= u32::MAX,
            ;
        }
        let prod: u128 = (d as u128) * (percent as u128);
        let q: u128 = prod / 100;
        assert(q == (d as nat) * (percent as nat) / 100);
        if q >= max as u128 {
            d = max;
        } else {
            assert(q <= u64::MAX);
            d = q as u64;
        }
        i = i + 1;
    }
    d
}

/// Relies on `rand::random_range`: a draw from `0..=bound` lies within the
/// range's ends. Which value comes back is left unspecified.
#[verifier::external_body]
fn random_at_most(bound: u64) -> (r: u64)
    ensures
        r <= bound,
{
    rand::random_range(0u64..=bound)
}

/// The delay actually slept before a retry: the backoff delay, plus — when
/// jitter is enabled — a random addition of at most a tenth of it.
pub fn retry_delay_ms(attempt: u32, config: &RetryConfig) -> (d: u64)
    requires
        config.wf(),
        config.max_delay_ms <= u64::MAX / 2,
    ensures
        config.spec_delay(attempt as nat) <= d <= config.spec_delay(attempt as nat)
            + config.spec_delay(attempt as nat) / 10,
        !config.jitter ==> d as nat == config.spec_delay(attempt as nat),
{
    let base: u64 = calculate_backoff(attempt, config);
    if config.jitter {
        let extra: u64 = random_at_most(base / 10);
        base + extra
    } else {
        base
    }
}

/// A fallible operation the retry engine can drive: one call per attempt
/// index, plus a pause hook the engine uses to wait between attempts. The
/// surrounding I/O layer implements this for its requests.
///
/// `outcome` describes, per attempt index, the result the operation will
/// produce; `attempts` and `pauses` are the histories of what was asked of
/// the operation, so the engine's contract can pin how often it invoked
/// the operation, in which order, and how long it slept in between. Both
/// methods promise to extend their own history by exactly their call and
/// to leave everything else unchanged.
pub trait RetryOperation<T>: Sized {
    /// The result the operation produces for a given attempt index.
    spec fn outcome(&self, attempt: u32) -> Result<T, SecureNotifyError>;

    /// The attempt indices the operation has been invoked with, in call
    /// order.
    spec fn attempts(&self) -> Seq<u32>;

    /// The delays the operation has been asked to pause for, in call
    /// order.
    spec fn pauses(&self) -> Seq<u64>;

    /// Run one attempt: it is appended to the attempt history and yields
    /// the described outcome.
    fn attempt(&mut self, attempt: u32) -> (r: Result<T, SecureNotifyError>)
        ensures
            r == old(self).outcome(attempt),
            forall|a: u32| #[trigger] final(self).outcome(a) == old(self).outcome(a),
            final(self).attempts() == old(self).attempts().push(attempt),
            final(self).pauses() == old(self).pauses(),
    ;

    /// Wait before the next attempt: the delay is appended to the pause
    /// history.
    fn pause(&mut self, delay_ms: u64)
        ensures
            forall|a: u32| #[trigger] final(self).outcome(a) == old(self).outcome(a),
            final(self).attempts() == old(self).attempts(),
            final(self).pauses() == old(self).pauses().push(delay_ms),
    ;
}

/// The result retrying yields from attempt number `attempt` on: the first
/// success, or the first error that is non-retryable or exhausts the
/// attempt budget — returned unchanged.
pub open spec fn spec_retry_result<T, Op: RetryOperation<T>>(
    op: Op,
    max_retries: u32,
    attempt: nat,
) -> Result<T, SecureNotifyError>
    decreases max_retries - attempt,
{
    let r = op.outcome(attempt as u32);
    if attempt < max_retries && (r matches Err(e) && spec_is_retryable(e)) {
        spec_retry_result(op, max_retries, attempt + 1)
    } else {
        r
    }
}

/// How many attempts retrying makes from attempt number `attempt` on:
/// one for the attempt itself, plus the rest when its error is retryable
/// and the budget allows another try. The engine invokes the operation
/// exactly this often, with consecutive indices.
pub open spec fn spec_retry_count<T, Op: RetryOperation<T>>(
    op: Op,
    max_retries: u32,
    attempt: nat,
) -> nat
    decreases max_retries - attempt,
{
    let r = op.outcome(attempt as u32);
    if attempt < max_retries && (r matches Err(e) && spec_is_retryable(e)) {
        1 + spec_retry_count(op, max_retries, attempt + 1)
    } else {
        1
    }
}

/// The delay the engine may sleep before the retry that follows attempt
/// number `i`: the backoff delay, with at most a tenth of jitter on top,
/// and exactly the backoff delay when jitter is off.
pub open spec fn spec_pause_ok(config: RetryConfig, i: nat, d: u64) -> bool {
    &&& config.spec_delay(i) <= d <= config.spec_delay(i) + config.spec_delay(i) / 10
    &&& !config.jitter ==> d == config.spec_delay(i)
}

/// The retry result and the attempt count depend on the operation only
/// through its outcomes.
proof fn lemma_retry_result_congruent<T, Op: RetryOperation<T>>(
    o1: Op,
    o2: Op,
    max_retries: u32,
    attempt: nat,
)
    requires
        forall|a: u32| #[trigger] o1.outcome(a) == o2.outcome(a),
        attempt <= max_retries,
    ensures
        spec_retry_result(o1, max_retries, attempt) == spec_retry_result(o2, max_retries, attempt),
        spec_retry_count(o1, max_retries, attempt) == spec_retry_count(o2, max_retries, attempt),
    decreases max_retries - attempt,
{
    if attempt < max_retries {
        lemma_retry_result_congruent(o1, o2, max_retries, attempt + 1);
    }
}

/// Run an operation with retries: attempts `0..=max_retries`, sleeping the
/// backoff delay between attempts, retrying only retryable errors, and
/// returning the first success or the last observed error unchanged.
///
/// The contract also pins the schedule: the operation is invoked exactly
/// [`spec_retry_count`] times, with consecutive attempt indices starting
/// at zero, and is paused exactly once between consecutive attempts, for
/// a delay the backoff policy allows (see [`spec_pause_ok`]). In
/// particular nothing runs after the first success or the first
/// non-retryable error, and no sleep follows the final attempt.
pub fn with_retry<T, Op: RetryOperation<T>>(op: &mut Op, config: &RetryConfig) -> (r: Result<
    T,
    SecureNotifyError,
>)
    requires
        config.wf(),
        config.max_delay_ms <= u64::MAX / 2,
    ensures
        r == spec_retry_result(*old(op), config.max_retries, 0),
        forall|a: u32| #[trigger] final(op).outcome(a) == old(op).outcome(a),
        final(op).attempts() == old(op).attempts() + Seq::new(
            spec_retry_count(*old(op), config.max_retries, 0),
            |i: int| i as u32,
        ),
        final(op).pauses().len() == old(op).pauses().len() + spec_retry_count(
            *old(op),
            config.max_retries,
            0,
        ) - 1,
        forall|j: int|
            old(op).pauses().len() <= j < final(op).pauses().len() ==> spec_pause_ok(
                *config,
                (j - old(op).pauses().len()) as nat,
                #[trigger] final(op).pauses()[j],
            ),
{
    let mut attempt: u32 = 0;
    loop
        invariant
            attempt <= config.max_retries,
            config.wf(),
            config.max_delay_ms <= u64::MAX / 2,
            forall|a: u32| #[trigger] op.outcome(a) == old(op).outcome(a),
            spec_retry_result(*op, config.max_retries, attempt as nat) == spec_retry_result(
                *old(op),
                config.max_retries,
                0,
            ),
            spec_retry_count(*old(op), config.max_retries, 0) == attempt + spec_retry_count(
                *op,
                config.max_retries,
                attempt as nat,
            ),
            op.attempts() == old(op).attempts() + Seq::new(attempt as nat, |i: int| i as u32),
            op.pauses().len() == old(op).pauses().len() + attempt,
            forall|j: int|
                old(op).pauses().len() <= j < op.pauses().len() ==> spec_pause_ok(
                    *config,
                    (j - old(op).pauses().len()) as nat,
                    #[trigger] op.pauses()[j],
                ),
        decreases config.max_retries - attempt,
    {
        let ghost before = *op;
        let r = op.attempt(attempt);
        proof {
            lemma_retry_result_congruent(before, *op, config.max_retries, attempt as nat);
            assert(op.attempts() =~= old(op).attempts() + Seq::new(
                (attempt + 1) as nat,
                |i: int| i as u32,
            ));
        }
        match r {
            Ok(v) => {
                return Ok(v);
            },
            Err(e) => {
                if attempt < config.max_retries && is_retryable_error(&e) {
                    let delay: u64 = retry_delay_ms(attempt, config);
                    let ghost paused = *op;
                    op.pause(delay);
                    proof {
                        lemma_retry_result_congruent(
                            paused,
                            *op,
                            config.max_retries,
                            (attempt + 1) as nat,
                        );
                        assert forall|j: int|
                            old(op).pauses().len() <= j < op.pauses().len() implies spec_pause_ok(
                            *config,
                            (j - old(op).pauses().len()) as nat,
                            #[trigger] op.pauses()[j],
                        ) by {
                            if j < op.pauses().len() - 1 {
                                assert(op.pauses()[j] == paused.pauses()[j]);
                            } else {
                                assert(op.pauses()[j] == delay);
                            }
                        }
                    }
                    attempt = attempt + 1;
                } else {
                    return Err(e);
                }
            },
        }
    }
}

/// An operation whose outcomes follow a fixed script: attempt `k` yields
/// the `k`-th scripted result, and attempts past the end repeat the last
/// one. It records which attempts were run and which delays the engine
/// asked it to pause for, so a caller can observe the engine's behaviour.
pub struct ScriptedOperation {
    script: Vec<Result<String, SecureNotifyError>>,
    fallback: Result<String, SecureNotifyError>,
    attempt_log: Vec<u32>,
    pause_log: Vec<u64>,
}

fn clone_outcome(r: &Result<String, SecureNotifyError>) -> (c: Result<String, SecureNotifyError>)
    ensures
        c == *r,
{
    match r {
        Ok(s) => Ok(s.clone()),
        Err(e) => Err(e.clone()),
    }
}

impl ScriptedOperation {
    /// The scripted outcome for an attempt index.
    pub closed spec fn spec_outcome(self, attempt: u32) -> Result<String, SecureNotifyError> {
        if attempt < self.script@.len() {
            self.script@[attempt as int]
        } else {
            self.fallback
        }
    }

    /// The attempt indices run against this operation, in call order.
    pub closed spec fn spec_attempts(self) -> Seq<u32> {
        self.attempt_log@
    }

    /// The pause delays requested so far, oldest first.
    pub closed spec fn spec_pauses(self) -> Seq<u64> {
        self.pause_log@
    }

    pub fn new(script: Vec<Result<String, SecureNotifyError>>) -> (r: Self)
        requires
            script@.len() >= 1,
        ensures
            forall|a: u32| #[trigger] r.spec_outcome(a) == if a < script@.len() {
                script@[a as int]
            } else {
                script@.last()
            },
            r.spec_attempts() == Seq::<u32>::empty(),
            r.spec_pauses() == Seq::<u64>::empty(),
    {
        let fallback = clone_outcome(&script[script.len() - 1]);
        ScriptedOperation { script, fallback, attempt_log: Vec::new(), pause_log: Vec::new() }
    }

    /// How many attempts have been run against this operation.
    pub fn call_count(&self) -> (r: usize)
        ensures
            r == self.spec_attempts().len(),
    {
        self.attempt_log.len()
    }

    /// How often the engine asked this operation to pause.
    pub fn pause_count(&self) -> (r: usize)
        ensures
            r == self.spec_pauses().len(),
    {
        self.pause_log.len()
    }

    /// The attempt indices run so far, in call order.
    pub fn attempt_history(&self) -> (r: &Vec<u32>)
        ensures
            r@ == self.spec_attempts(),
    {
        &self.attempt_log
    }

    /// The delays slept so far, in call order.
    pub fn pause_history(&self) -> (r: &Vec<u64>)
        ensures
            r@ == self.spec_pauses(),
    {
        &self.pause_log
    }
}

impl RetryOperation<String> for ScriptedOperation {
    open spec fn outcome(&self, attempt: u32) -> Result<String, SecureNotifyError> {
        (*self).spec_outcome(attempt)
    }

    open spec fn attempts(&self) -> Seq<u32> {
        (*self).spec_attempts()
    }

    open spec fn pauses(&self) -> Seq<u64> {
        (*self).spec_pauses()
    }

    fn attempt(&mut self, attempt: u32) -> (r: Result<String, SecureNotifyError>) {
        self.attempt_log.push(attempt);
        if (attempt as usize) < self.script.len() {
            clone_outcome(&self.script[attempt as usize])
        } else {
            clone_outcome(&self.fallback)
        }
    }

    fn pause(&mut self, delay_ms: u64) {
        self.pause_log.push(delay_ms);
    }
}

} // verus!
