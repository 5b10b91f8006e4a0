//! Retry policy: whether another attempt is allowed, and how long to wait
//! before it.

use vstd::prelude::*;

verus! {

/// What the policy says after a failed attempt.
#[derive(Clone, Copy, Debug, PartialEq, Eq, Structural)]
pub enum Decision {
    /// Another attempt may be made.
    Proceed,
    /// The last observed error must be surfaced.
    GiveUp,
}

/// The decision as a mathematical function: proceed exactly while the
/// attempt number does not exceed the number of allowed retries.
pub open spec fn decide_spec(attempt: nat, max_attempts: nat) -> Decision {
    if attempt <= max_attempts {
        Decision::Proceed
    } else {
        Decision::GiveUp
    }
}

/// The backoff delay in milliseconds: linear in the attempt number.
pub open spec fn delay_spec(attempt: nat, factor_millis: nat) -> nat {
    factor_millis * attempt
}

/// Decides whether attempt number `attempt` (counted from 1), having failed,
/// may be followed by another one.
pub fn decide(attempt: usize, max_attempts: usize) -> (d: Decision)
    ensures
        d == decide_spec(attempt as nat, max_attempts as nat),
        (d == Decision::Proceed) <==> attempt <= max_attempts,
{
    if attempt <= max_attempts {
        Decision::Proceed
    } else {
        Decision::GiveUp
    }
}

/// The delay, in milliseconds, to wait after failed attempt number `attempt`.
/// The product of two 64-bit numbers always fits the 128-bit result.
pub fn delay(attempt: u64, factor_millis: u64) -> (d: u128)
    ensures
        d == delay_spec(attempt as nat, factor_millis as nat),
        d == factor_millis * attempt,
{
    assert(factor_millis * attempt <= 0xffff_ffff_ffff_ffff * 0xffff_ffff_ffff_ffff)
        by (nonlinear_arith)
        requires
            factor_millis <= 0xffff_ffff_ffff_ffff,
            attempt <= 0xffff_ffff_ffff_ffff,
    ;
    let a: u128 = attempt as u128;
    let f: u128 = factor_millis as u128;
    f * a
}

/// The delay never shrinks as the attempt number grows, for a fixed factor.
pub proof fn lemma_delay_monotonic(a: nat, b: nat, factor_millis: nat)
    requires
        a <= b,
    ensures
        delay_spec(a, factor_millis) <= delay_spec(b, factor_millis),
{
    assert(factor_millis * a <= factor_millis * b) by (nonlinear_arith)
        requires
            a <= b,
    ;
}

/// What the caller does after a failed attempt.
#[derive(Clone, Copy, Debug, PartialEq, Eq, Structural)]
pub enum Step {
    /// Wait this many milliseconds, then try again.
    Retry { delay_millis: u128 },
    /// Surface the last observed error.
    Stop,
}

/// The retry state of one unit of work: how many attempts have failed so
/// far, how many retries are allowed, and the backoff factor.
#[derive(Clone, Copy, Debug, PartialEq, Eq, Structural)]
pub struct RetryContext {
    failures: usize,
    max_attempts: usize,
    backoff_millis: u64,
}

impl RetryContext {
    /// The number of the attempt that is being made, counted from 1.
    pub closed spec fn attempt(&self) -> nat {
        (self.failures + 1) as nat
    }

    /// The number of retries allowed.
    pub closed spec fn max_attempts(&self) -> nat {
        self.max_attempts as nat
    }

    /// The backoff factor in milliseconds.
    pub closed spec fn backoff_millis(&self) -> nat {
        self.backoff_millis as nat
    }

    /// The engine never goes more than one attempt past the allowed
    /// retries.
    pub open spec fn wf(&self) -> bool {
        self.attempt() <= self.max_attempts() + 1
    }

    /// The context of a unit of work whose first attempt is about to be
    /// made.
    pub fn new(max_attempts: usize, backoff_millis: u64) -> (ctx: Self)
        ensures
            ctx.wf(),
            ctx.attempt() == 1,
            ctx.max_attempts() == max_attempts,
            ctx.backoff_millis() == backoff_millis,
    {
        RetryContext { failures: 0, max_attempts, backoff_millis }
    }

    /// The number of attempts that have failed so far.
    pub fn failures(&self) -> (n: usize)
        ensures
            n + 1 == self.attempt(),
    {
        self.failures
    }

    /// Records that the current attempt failed. While retries are left the
    /// attempt number grows by exactly one and the step is to wait for the
    /// backoff delay of the failed attempt; else nothing changes and the
    /// step is to stop.
    pub fn after_failure(&mut self) -> (step: Step)
        requires
            old(self).wf(),
        ensures
            final(self).wf(),
            final(self).max_attempts() == old(self).max_attempts(),
            final(self).backoff_millis() == old(self).backoff_millis(),
            decide_spec(old(self).attempt(), old(self).max_attempts()) == Decision::Proceed ==> {
                &&& final(self).attempt() == old(self).attempt() + 1
                &&& step == (Step::Retry {
                    delay_millis: delay_spec(old(self).attempt(), old(self).backoff_millis())
                        as u128,
                })
            },
            decide_spec(old(self).attempt(), old(self).max_attempts()) == Decision::GiveUp ==> {
                &&& *final(self) == *old(self)
                &&& step == Step::Stop
            },
    {
        if self.failures < self.max_attempts {
            let attempt: usize = self.failures + 1;
            let wait: u128 = delay(attempt as u64, self.backoff_millis);
            self.failures = attempt;
            Step::Retry { delay_millis: wait }
        } else {
            Step::Stop
        }
    }
}

/// The kinds of failure of one attempt.
#[derive(Clone, Copy, Debug, PartialEq, Eq, Structural)]
pub enum ErrorClass {
    /// Rate limiting, a server error, a gateway timeout or a failure of the
    /// network.
    Transient,
    /// Any other response status.
    NonRetryable,
    /// A body that does not decode into the expected shape.
    Malformed,
    /// The destination cannot be created, opened or written.
    LocalIo,
}

/// Whether exhausting the retries aborts the run or counts as no result.
#[derive(Clone, Copy, Debug, PartialEq, Eq, Structural)]
pub enum FetchMode {
    Strict,
    Lenient,
}

/// What becomes of a unit of work after a failed attempt.
#[derive(Clone, Copy, Debug, PartialEq, Eq, Structural)]
pub enum Resolution {
    /// Wait this many milliseconds, then try again.
    Retry { delay_millis: u128 },
    /// The unit has failed; the last observed error is surfaced.
    Fatal,
    /// The unit counts as absent and contributes nothing.
    Absent,
}

/// How a response status is read.
#[derive(Clone, Copy, Debug, PartialEq, Eq, Structural)]
pub enum StatusClass {
    /// The response carries the content asked for.
    Accepted,
    /// A failure worth another attempt.
    Transient,
    /// A failure that another attempt would not mend.
    NonRetryable,
}

/// The statuses that stand for a passing condition of the remote side:
/// too many requests, internal server error, bad gateway, service
/// unavailable, gateway timeout.
pub open spec fn is_transient_status(code: u16) -> bool {
    code == 429 || code == 500 || code == 502 || code == 503 || code == 504
}

/// The statuses that a fetch accepts: strictly only "OK"; leniently any
/// success status.
pub open spec fn is_accepted_status(code: u16, mode: FetchMode) -> bool {
    match mode {
        FetchMode::Strict => code == 200,
        FetchMode::Lenient => 200 <= code <= 299,
    }
}

/// The class of a response status for a document fetch.
pub open spec fn status_class_spec(code: u16, mode: FetchMode) -> StatusClass {
    if is_accepted_status(code, mode) {
        StatusClass::Accepted
    } else if is_transient_status(code) {
        StatusClass::Transient
    } else {
        StatusClass::NonRetryable
    }
}

/// Classifies the response status of a document fetch.
pub fn classify_status(code: u16, mode: FetchMode) -> (class: StatusClass)
    ensures
        class == status_class_spec(code, mode),
{
    let accepted = match mode {
        FetchMode::Strict => code == 200,
        FetchMode::Lenient => 200 <= code && code <= 299,
    };
    if accepted {
        StatusClass::Accepted
    } else if code == 429 || code == 500 || code == 502 || code == 503 || code == 504 {
        StatusClass::Transient
    } else {
        StatusClass::NonRetryable
    }
}

/// What a failure of each class comes to once no further attempt is made.
pub open spec fn final_resolution(class: ErrorClass, mode: FetchMode) -> Resolution {
    if class == ErrorClass::LocalIo || mode == FetchMode::Strict {
        Resolution::Fatal
    } else {
        Resolution::Absent
    }
}

/// The resolution of a failed attempt as a function of the failure, the
/// mode and the retry state before it.
pub open spec fn resolution_spec(class: ErrorClass, mode: FetchMode, ctx: RetryContext)
    -> Resolution {
    if class == ErrorClass::Transient && ctx.attempt() <= ctx.max_attempts() {
        Resolution::Retry { delay_millis: delay_spec(ctx.attempt(), ctx.backoff_millis()) as u128 }
    } else {
        final_resolution(class, mode)
    }
}

/// Resolves a failed attempt. Only a transient failure is tried again, and
/// only while retries are left: the attempt number then grows by one.
/// In every other case the retry state stays as it was.
pub fn resolve_failure(class: ErrorClass, mode: FetchMode, ctx: &mut RetryContext) -> (r:
    Resolution)
    requires
        old(ctx).wf(),
    ensures
        final(ctx).wf(),
        r == resolution_spec(class, mode, *old(ctx)),
        final(ctx).max_attempts() == old(ctx).max_attempts(),
        final(ctx).backoff_millis() == old(ctx).backoff_millis(),
        r is Retry ==> final(ctx).attempt() == old(ctx).attempt() + 1,
        !(r is Retry) ==> *final(ctx) == *old(ctx),
        mode == FetchMode::Lenient && class != ErrorClass::LocalIo ==> r != Resolution::Fatal,
{
    let step = match class {
        ErrorClass::Transient => ctx.after_failure(),
        _ => Step::Stop,
    };
    match step {
        Step::Retry { delay_millis } => Resolution::Retry { delay_millis },
        Step::Stop => {
            let local = match class {
                ErrorClass::LocalIo => true,
                _ => false,
            };
            let strict = match mode {
                FetchMode::Strict => true,
                FetchMode::Lenient => false,
            };
            if local || strict {
                Resolution::Fatal
            } else {
                Resolution::Absent
            }
        },
    }
}

/// A retry is made for a transient failure while the policy says proceed,
/// and in no other case: what a failure comes to otherwise depends on its
/// class and the mode alone.
pub proof fn lemma_retry_iff_transient_and_proceed(
    ctx: RetryContext,
    class: ErrorClass,
    mode: FetchMode,
)
    ensures
        resolution_spec(class, mode, ctx) is Retry <==> class == ErrorClass::Transient
            && decide_spec(ctx.attempt(), ctx.max_attempts()) == Decision::Proceed,
        !(resolution_spec(class, mode, ctx) is Retry) ==> resolution_spec(class, mode, ctx)
            == final_resolution(class, mode),
{
}

} // verus!
