//! The retry policy for opening a bucket that may not exist yet.
//!
//! Opening a bucket is network work, so the policy is a state machine: the
//! caller makes an attempt, reports what came of it, and is told what to do
//! next.

use vstd::prelude::*;

verus! {

/// The bucket that every query reads.
pub const BUCKET_NAME: &'static str = "events";

/// How many attempts to open the bucket one call may make, the first one
/// counted.
pub const MAX_ATTEMPTS: u8 = 60;

/// The pause before each attempt but the first, in milliseconds.
pub const RETRY_INTERVAL_MILLIS: u64 = 1000;

/// What an attempt to open the bucket came to.
#[derive(Clone, Copy, Debug, PartialEq, Eq, Structural)]
pub enum OpenOutcome {
    /// The bucket is open.
    Opened,
    /// The store answered with an authentication failure, which is how it
    /// reports a bucket that does not exist yet.
    AuthFailed,
    /// Any other failure.
    Failed,
}

/// Why no bucket handle could be had.
#[derive(Clone, Copy, Debug, PartialEq, Eq, Structural)]
pub enum ConnectError {
    /// Every attempt that the budget allows has failed.
    Exhausted,
}

/// The level at which a step is logged.
#[derive(Clone, Copy, Debug, PartialEq, Eq, Structural)]
pub enum LogLevel {
    Info,
    Warn,
    Error,
}

/// What the caller does after an attempt.
#[derive(Clone, Copy, Debug, PartialEq, Eq, Structural)]
pub enum ConnectStep {
    /// Keep the handle of this attempt and log the success at info level.
    Connected,
    /// Log the failure at `level` with `attempts_remaining`, pause for
    /// `wait_millis`, then attempt again.
    Retry { level: LogLevel, attempts_remaining: u8, wait_millis: u64 },
    /// Log the failure at error level and return the error; make no further
    /// attempt.
    GiveUp(ConnectError),
}

/// The step that follows an attempt made while `left` attempts were allowed,
/// that attempt counted, and the attempts allowed after it. An attempt made
/// when none was allowed counts for nothing, whatever came of it.
pub open spec fn spec_step(left: nat, outcome: OpenOutcome) -> (nat, ConnectStep) {
    if left == 0 {
        (0, ConnectStep::GiveUp(ConnectError::Exhausted))
    } else if outcome == OpenOutcome::Opened {
        (left, ConnectStep::Connected)
    } else if left == 1 {
        (0, ConnectStep::GiveUp(ConnectError::Exhausted))
    } else {
        (
            (left - 1) as nat,
            ConnectStep::Retry {
                level: if outcome == OpenOutcome::AuthFailed {
                    LogLevel::Warn
                } else {
                    LogLevel::Error
                },
                attempts_remaining: (left - 1) as u8,
                wait_millis: RETRY_INTERVAL_MILLIS,
            },
        )
    }
}

/// The budget of one call to connect: never more than `MAX_ATTEMPTS`
/// attempts are left.
#[derive(Clone, Copy, Debug, PartialEq, Eq)]
pub struct Connector {
    attempts: u8,
}

impl Connector {
    #[verifier::type_invariant]
    spec fn within_budget(self) -> bool {
        self.attempts <= MAX_ATTEMPTS
    }

    /// The attempts that may still be made, one whose outcome has not been
    /// reported yet counted.
    pub closed spec fn attempts_left(&self) -> nat {
        self.attempts as nat
    }

    /// A connector with the full budget, for the first attempt.
    pub fn new() -> (c: Connector)
        ensures
            c.attempts_left() == MAX_ATTEMPTS,
    {
        Connector { attempts: MAX_ATTEMPTS }
    }

    /// The attempts that may still be made.
    pub fn attempts(&self) -> (r: u8)
        ensures
            r == self.attempts_left(),
            r <= MAX_ATTEMPTS,
    {
        proof {
            use_type_invariant(self);
        }
        self.attempts
    }

    /// Takes the outcome of the latest attempt and decides what follows.
    pub fn on_outcome(&mut self, outcome: OpenOutcome) -> (step: ConnectStep)
        ensures
            step == spec_step(old(self).attempts_left(), outcome).1,
            final(self).attempts_left() == spec_step(old(self).attempts_left(), outcome).0,
    {
        proof {
            use_type_invariant(&*self);
        }
        if self.attempts == 0 {
            return ConnectStep::GiveUp(ConnectError::Exhausted);
        }
        match outcome {
            OpenOutcome::Opened => ConnectStep::Connected,
            _ => {
                if self.attempts == 1 {
                    self.attempts = 0;
                    ConnectStep::GiveUp(ConnectError::Exhausted)
                } else {
                    let level = match outcome {
                        OpenOutcome::AuthFailed => LogLevel::Warn,
                        _ => LogLevel::Error,
                    };
                    let remaining: u8 = self.attempts - 1;
                    self.attempts = remaining;
                    ConnectStep::Retry {
                        level,
                        attempts_remaining: remaining,
                        wait_millis: RETRY_INTERVAL_MILLIS,
                    }
                }
            },
        }
    }
}

/// What a whole run of the policy came to.
pub struct ConnectRun {
    /// `Some(Ok(i))`: the handle of attempt `i` (from 0) is returned;
    /// `Some(Err(e))`: the call fails with `e`; `None`: the outcomes ran out
    /// before the policy had decided.
    pub result: Option<Result<nat, ConnectError>>,
    /// The attempts that were made.
    pub attempts: nat,
    /// The lines logged at each level.
    pub infos: nat,
    pub warnings: nat,
    pub errors: nat,
    /// The sum of the pauses, in milliseconds.
    pub waited_millis: nat,
}

/// Runs the policy with `left` attempts allowed over the outcomes of the
/// successive attempts: `outcomes[i]` is what attempt `i` would come to.
pub open spec fn spec_run(left: nat, outcomes: Seq<OpenOutcome>) -> ConnectRun
    decreases outcomes.len(),
{
    if outcomes.len() == 0 {
        ConnectRun { result: None, attempts: 0, infos: 0, warnings: 0, errors: 0, waited_millis: 0 }
    } else {
        match spec_step(left, outcomes[0]).1 {
            ConnectStep::Connected => ConnectRun {
                result: Some(Ok(0)),
                attempts: 1,
                infos: 1,
                warnings: 0,
                errors: 0,
                waited_millis: 0,
            },
            ConnectStep::GiveUp(e) => ConnectRun {
                result: Some(Err(e)),
                attempts: 1,
                infos: 0,
                warnings: 0,
                errors: 1,
                waited_millis: 0,
            },
            ConnectStep::Retry { level, attempts_remaining, wait_millis } => {
                let rest = spec_run(spec_step(left, outcomes[0]).0, outcomes.drop_first());
                ConnectRun {
                    result: match rest.result {
                        Some(Ok(i)) => Some(Ok(i + 1)),
                        other => other,
                    },
                    attempts: rest.attempts + 1,
                    infos: rest.infos,
                    warnings: rest.warnings + if level == LogLevel::Warn { 1nat } else { 0nat },
                    errors: rest.errors + if level == LogLevel::Error { 1nat } else { 0nat },
                    waited_millis: rest.waited_millis + wait_millis as nat,
                }
            },
        }
    }
}

/// Whether none of the first `n` attempts opens the bucket.
pub open spec fn spec_all_fail(outcomes: Seq<OpenOutcome>, n: nat) -> bool {
    forall|i: int| 0 <= i < n && i < outcomes.len() ==> outcomes[i] != OpenOutcome::Opened
}

/// Whatever the attempts come to, a run with `left` attempts allowed makes
/// no more than `left` attempts and pauses once before each but the first.
/// It succeeds exactly where one of the first `left` attempts succeeds, with
/// the handle of the first that does; it fails, with
/// `ConnectError::Exhausted`, exactly where the first `left` attempts were
/// made and all failed. The kind of the failures plays no part.
pub proof fn lemma_run(left: nat, outcomes: Seq<OpenOutcome>)
    requires
        1 <= left <= MAX_ATTEMPTS,
    ensures
        spec_run(left, outcomes).attempts <= left,
        spec_run(left, outcomes).attempts <= outcomes.len(),
        spec_run(left, outcomes).waited_millis <= (left - 1) * RETRY_INTERVAL_MILLIS,
        spec_run(left, outcomes).result.is_some() ==> spec_run(left, outcomes).waited_millis == (
        spec_run(left, outcomes).attempts - 1) * RETRY_INTERVAL_MILLIS,
        forall|k: nat|
            spec_run(left, outcomes).result == Some(Ok::<nat, ConnectError>(k)) <==> k < left && k
                < outcomes.len() && outcomes[k as int] == OpenOutcome::Opened && spec_all_fail(
                outcomes,
                k,
            ),
        forall|e: ConnectError|
            spec_run(left, outcomes).result == Some(Err::<nat, ConnectError>(e)) <==> e
                == ConnectError::Exhausted && outcomes.len() >= left && spec_all_fail(
                outcomes,
                left,
            ),
        spec_run(left, outcomes).result.is_some() ==> spec_run(left, outcomes).warnings
            + spec_run(left, outcomes).errors + spec_run(left, outcomes).infos == spec_run(
            left,
            outcomes,
        ).attempts,
    decreases outcomes.len(),
{
    let run = spec_run(left, outcomes);
    if outcomes.len() == 0 {
    } else if outcomes[0] == OpenOutcome::Opened {
        assert forall|k: nat|
            run.result == Some(Ok::<nat, ConnectError>(k)) <==> k < left && k < outcomes.len()
                && outcomes[k as int] == OpenOutcome::Opened && spec_all_fail(outcomes, k) by {
            if k > 0 {
                assert(!spec_all_fail(outcomes, k));
            }
        }
        assert(!spec_all_fail(outcomes, left));
    } else if left == 1 {
        assert forall|k: nat|
            run.result == Some(Ok::<nat, ConnectError>(k)) <==> k < left && k < outcomes.len()
                && outcomes[k as int] == OpenOutcome::Opened && spec_all_fail(outcomes, k) by {}
        assert(spec_all_fail(outcomes, left));
    } else {
        let rest = outcomes.drop_first();
        let next = (left - 1) as nat;
        lemma_run(next, rest);
        let tail = spec_run(next, rest);
        assert(forall|i: int| 0 <= i < rest.len() ==> rest[i] == outcomes[i + 1]);
        assert forall|n: nat| spec_all_fail(rest, n) <==> spec_all_fail(outcomes, n + 1) by {
            if spec_all_fail(rest, n) {
                assert forall|i: int| 0 <= i < n + 1 && i < outcomes.len() implies outcomes[i]
                    != OpenOutcome::Opened by {
                    if i > 0 {
                        assert(outcomes[i] == rest[i - 1]);
                    }
                }
            }
            if spec_all_fail(outcomes, n + 1) {
                assert forall|i: int| 0 <= i < n && i < rest.len() implies rest[i]
                    != OpenOutcome::Opened by {
                    assert(rest[i] == outcomes[i + 1]);
                }
            }
        }
        assert forall|k: nat|
            run.result == Some(Ok::<nat, ConnectError>(k)) <==> k < left && k < outcomes.len()
                && outcomes[k as int] == OpenOutcome::Opened && spec_all_fail(outcomes, k) by {
            if k > 0 {
                let j = (k - 1) as nat;
                assert(tail.result == Some(Ok::<nat, ConnectError>(j)) <==> j < next && j
                    < rest.len() && rest[j as int] == OpenOutcome::Opened && spec_all_fail(rest, j));
                assert(spec_all_fail(rest, j) <==> spec_all_fail(outcomes, j + 1));
                if j < rest.len() {
                    assert(rest[j as int] == outcomes[k as int]);
                }
            }
        }
        assert forall|e: ConnectError|
            run.result == Some(Err::<nat, ConnectError>(e)) <==> e == ConnectError::Exhausted
                && outcomes.len() >= left && spec_all_fail(outcomes, left) by {
            assert(tail.result == Some(Err::<nat, ConnectError>(e)) <==> e
                == ConnectError::Exhausted && rest.len() >= next && spec_all_fail(rest, next));
            assert(spec_all_fail(rest, next) <==> spec_all_fail(outcomes, next + 1));
        }
        assert((tail.attempts + 1) * RETRY_INTERVAL_MILLIS == tail.attempts * RETRY_INTERVAL_MILLIS
            + RETRY_INTERVAL_MILLIS) by (nonlinear_arith);
    }
}

/// Where attempt after attempt fails, a call with the full budget makes
/// exactly `MAX_ATTEMPTS` attempts, pauses the fixed interval between one
/// attempt and the next, and ends with `ConnectError::Exhausted`: it neither
/// succeeds nor goes on. Where every failure was an authentication failure,
/// each but the last was logged as a warning, and the last as an error.
pub proof fn lemma_retry_bound(outcomes: Seq<OpenOutcome>)
    requires
        outcomes.len() >= MAX_ATTEMPTS,
        forall|i: int| 0 <= i < MAX_ATTEMPTS ==> outcomes[i] != OpenOutcome::Opened,
    ensures
        spec_run(MAX_ATTEMPTS as nat, outcomes).result == Some(
            Err::<nat, ConnectError>(ConnectError::Exhausted),
        ),
        spec_run(MAX_ATTEMPTS as nat, outcomes).attempts == 60,
        spec_run(MAX_ATTEMPTS as nat, outcomes).waited_millis == 59 * RETRY_INTERVAL_MILLIS,
        spec_run(MAX_ATTEMPTS as nat, outcomes).infos == 0,
        (forall|i: int| 0 <= i < MAX_ATTEMPTS ==> outcomes[i] == OpenOutcome::AuthFailed)
            ==> spec_run(MAX_ATTEMPTS as nat, outcomes).warnings == 59 && spec_run(
            MAX_ATTEMPTS as nat,
            outcomes,
        ).errors == 1,
{
    lemma_failures(MAX_ATTEMPTS as nat, outcomes);
}

/// Where the first `failures` attempts fail and the next one succeeds, with
/// `failures` less than `MAX_ATTEMPTS`, a call with the full budget returns
/// the handle of that first successful attempt, having logged each failure
/// once and the success once. Where every failure was an authentication
/// failure, each was logged as a warning.
pub proof fn lemma_retry_recovery(failures: nat, outcomes: Seq<OpenOutcome>)
    requires
        failures < MAX_ATTEMPTS,
        outcomes.len() > failures,
        forall|i: int| 0 <= i < failures ==> outcomes[i] != OpenOutcome::Opened,
        outcomes[failures as int] == OpenOutcome::Opened,
    ensures
        spec_run(MAX_ATTEMPTS as nat, outcomes).result == Some(Ok::<nat, ConnectError>(failures)),
        spec_run(MAX_ATTEMPTS as nat, outcomes).attempts == failures + 1,
        spec_run(MAX_ATTEMPTS as nat, outcomes).waited_millis == failures * RETRY_INTERVAL_MILLIS,
        spec_run(MAX_ATTEMPTS as nat, outcomes).infos == 1,
        spec_run(MAX_ATTEMPTS as nat, outcomes).warnings + spec_run(
            MAX_ATTEMPTS as nat,
            outcomes,
        ).errors == failures,
        (forall|i: int| 0 <= i < failures ==> outcomes[i] == OpenOutcome::AuthFailed) ==> spec_run(
            MAX_ATTEMPTS as nat,
            outcomes,
        ).warnings == failures,
{
    lemma_recovery(MAX_ATTEMPTS as nat, failures, outcomes);
}

/// After `MAX_ATTEMPTS` failures a call with the full budget has ended with
/// `ConnectError::Exhausted`, whatever a further attempt would have come to.
pub proof fn lemma_no_attempt_beyond_budget(outcomes: Seq<OpenOutcome>)
    requires
        outcomes.len() > MAX_ATTEMPTS,
        forall|i: int| 0 <= i < MAX_ATTEMPTS ==> outcomes[i] != OpenOutcome::Opened,
        outcomes[MAX_ATTEMPTS as int] == OpenOutcome::Opened,
    ensures
        spec_run(MAX_ATTEMPTS as nat, outcomes).result == Some(
            Err::<nat, ConnectError>(ConnectError::Exhausted),
        ),
        spec_run(MAX_ATTEMPTS as nat, outcomes).attempts == MAX_ATTEMPTS,
{
    lemma_failures(MAX_ATTEMPTS as nat, outcomes);
}

/// A run of failures as long as the attempts allowed spends them all and
/// ends with `ConnectError::Exhausted`.
proof fn lemma_failures(left: nat, outcomes: Seq<OpenOutcome>)
    requires
        1 <= left <= MAX_ATTEMPTS,
        outcomes.len() >= left,
        forall|i: int| 0 <= i < left ==> outcomes[i] != OpenOutcome::Opened,
    ensures
        spec_run(left, outcomes).result == Some(Err::<nat, ConnectError>(ConnectError::Exhausted)),
        spec_run(left, outcomes).attempts == left,
        spec_run(left, outcomes).waited_millis == (left - 1) * RETRY_INTERVAL_MILLIS,
        spec_run(left, outcomes).infos == 0,
        (forall|i: int| 0 <= i < left ==> outcomes[i] == OpenOutcome::AuthFailed) ==> spec_run(
            left,
            outcomes,
        ).warnings == left - 1 && spec_run(left, outcomes).errors == 1,
    decreases left,
{
    if left > 1 {
        let rest = outcomes.drop_first();
        assert forall|i: int| 0 <= i < left - 1 implies rest[i] != OpenOutcome::Opened by {
            assert(rest[i] == outcomes[i + 1]);
        }
        lemma_failures((left - 1) as nat, rest);
        if forall|i: int| 0 <= i < left ==> outcomes[i] == OpenOutcome::AuthFailed {
            assert forall|i: int| 0 <= i < left - 1 implies rest[i]
                == OpenOutcome::AuthFailed by {
                assert(rest[i] == outcomes[i + 1]);
            }
        }
        assert((left - 1) * RETRY_INTERVAL_MILLIS == (left - 2) * RETRY_INTERVAL_MILLIS
            + RETRY_INTERVAL_MILLIS) by (nonlinear_arith);
    }
}

/// A success after fewer failures than attempts are allowed is returned.
proof fn lemma_recovery(left: nat, failures: nat, outcomes: Seq<OpenOutcome>)
    requires
        left <= MAX_ATTEMPTS,
        failures < left,
        outcomes.len() > failures,
        forall|i: int| 0 <= i < failures ==> outcomes[i] != OpenOutcome::Opened,
        outcomes[failures as int] == OpenOutcome::Opened,
    ensures
        spec_run(left, outcomes).result == Some(Ok::<nat, ConnectError>(failures)),
        spec_run(left, outcomes).attempts == failures + 1,
        spec_run(left, outcomes).waited_millis == failures * RETRY_INTERVAL_MILLIS,
        spec_run(left, outcomes).infos == 1,
        spec_run(left, outcomes).warnings + spec_run(left, outcomes).errors == failures,
        (forall|i: int| 0 <= i < failures ==> outcomes[i] == OpenOutcome::AuthFailed) ==> spec_run(
            left,
            outcomes,
        ).warnings == failures,
    decreases failures,
{
    if failures > 0 {
        let rest = outcomes.drop_first();
        assert forall|i: int| 0 <= i < failures - 1 implies rest[i] != OpenOutcome::Opened by {
            assert(rest[i] == outcomes[i + 1]);
        }
        assert(rest[failures - 1] == outcomes[failures as int]);
        lemma_recovery((left - 1) as nat, (failures - 1) as nat, rest);
        if forall|i: int| 0 <= i < failures ==> outcomes[i] == OpenOutcome::AuthFailed {
            assert forall|i: int| 0 <= i < failures - 1 implies rest[i]
                == OpenOutcome::AuthFailed by {
                assert(rest[i] == outcomes[i + 1]);
            }
        }
        assert(failures * RETRY_INTERVAL_MILLIS == (failures - 1) * RETRY_INTERVAL_MILLIS
            + RETRY_INTERVAL_MILLIS) by (nonlinear_arith);
    }
}

} // verus!
