//! Doing something again until it has taken effect, but not for ever.
//!
//! An action on a live page and its effect are two things: the click returns
//! before the page has followed. So an attempt acts, then looks at the page,
//! and says whether to stop. The controller counts the attempts against a
//! budget that is fixed before the first one.

use crate::failure::Cause;
use crate::failure::CauseView;
use crate::failure::Failure;
use crate::failure::FailureView;
use vstd::prelude::*;

verus! {

/// How often an action on the page is tried at most, where nothing else
/// is said.
pub const ACTION_ATTEMPTS: u32 = 10;

/// How long to let the page settle between two attempts, in milliseconds,
/// where the page shows no sign of being busy that could be waited for.
pub const SETTLE_MILLIS: u64 = 500;

/// What one attempt says of itself.
#[derive(Debug)]
pub enum RetryAttemptOutcome<T, E> {
    /// Not there yet: try again.
    Continue,
    /// Done, with this value.
    Break(T),
    /// No further attempt can help.
    Fatal(E),
}

/// Why a retried action gave no value.
#[derive(Debug)]
pub enum RetryError<E> {
    /// An attempt said so.
    Fatal(E),
    /// The budget is spent; `attempts` were made.
    Exhausted { attempts: u32 },
}

/// What to do after an attempt.
#[derive(Debug)]
pub enum RetryDecision<T, E> {
    /// Make another attempt.
    Again,
    /// Stop with this value.
    Done(T),
    /// Stop without one.
    GiveUp(RetryError<E>),
}

/// Counts attempts against a budget.
#[derive(Clone, Copy, Debug)]
pub struct RetryController {
    /// How many attempts may be made in all.
    pub max_attempts: u32,
    /// How many have been made.
    pub attempts: u32,
}

impl RetryController {
    /// No more attempts were made than the budget allows.
    pub open spec fn wf(self) -> bool {
        self.attempts <= self.max_attempts
    }

    /// A controller before the first attempt.
    pub open spec fn fresh(max_attempts: u32) -> RetryController {
        RetryController { max_attempts, attempts: 0 }
    }

    /// Whether the budget is spent.
    pub open spec fn spent(self) -> bool {
        self.attempts >= self.max_attempts
    }

    /// The controller after one more attempt. A spent controller stays as
    /// it is.
    pub open spec fn counted(self) -> RetryController {
        if self.spent() {
            self
        } else {
            RetryController { max_attempts: self.max_attempts, attempts: (self.attempts + 1) as u32 }
        }
    }

    /// What follows from an attempt's outcome. With a spent budget no
    /// attempt should have been made, and its outcome is not looked at.
    pub open spec fn decision<T, E>(self, outcome: RetryAttemptOutcome<T, E>) -> RetryDecision<
        T,
        E,
    > {
        if self.spent() {
            RetryDecision::GiveUp(RetryError::Exhausted { attempts: self.attempts })
        } else {
            match outcome {
                RetryAttemptOutcome::Break(v) => RetryDecision::Done(v),
                RetryAttemptOutcome::Fatal(e) => RetryDecision::GiveUp(RetryError::Fatal(e)),
                RetryAttemptOutcome::Continue => if self.counted().spent() {
                    RetryDecision::GiveUp(
                        RetryError::Exhausted { attempts: self.counted().attempts },
                    )
                } else {
                    RetryDecision::Again
                },
            }
        }
    }

    /// A controller that allows `max_attempts` attempts and has seen none.
    pub fn new(max_attempts: u32) -> (r: Self)
        ensures
            r == Self::fresh(max_attempts),
            r.wf(),
    {
        RetryController { max_attempts, attempts: 0 }
    }

    /// Whether another attempt may be made.
    pub fn may_attempt(&self) -> (r: bool)
        ensures
            r == !self.spent(),
    {
        self.attempts < self.max_attempts
    }

    /// The error of a spent budget.
    pub fn exhausted<E>(&self) -> (r: RetryError<E>)
        ensures
            r == (RetryError::<E>::Exhausted { attempts: self.attempts }),
    {
        RetryError::Exhausted { attempts: self.attempts }
    }

    /// Counts one attempt and says what its outcome means.
    pub fn record<T, E>(&mut self, outcome: RetryAttemptOutcome<T, E>) -> (d: RetryDecision<T, E>)
        requires
            old(self).wf(),
        ensures
            *final(self) == old(self).counted(),
            final(self).wf(),
            d == old(self).decision(outcome),
    {
        if self.attempts >= self.max_attempts {
            return RetryDecision::GiveUp(RetryError::Exhausted { attempts: self.attempts });
        }
        self.attempts = self.attempts + 1;
        match outcome {
            RetryAttemptOutcome::Break(v) => RetryDecision::Done(v),
            RetryAttemptOutcome::Fatal(e) => RetryDecision::GiveUp(RetryError::Fatal(e)),
            RetryAttemptOutcome::Continue => {
                if self.attempts >= self.max_attempts {
                    RetryDecision::GiveUp(RetryError::Exhausted { attempts: self.attempts })
                } else {
                    RetryDecision::Again
                }
            },
        }
    }
}

/// How a run of attempts ended.
pub struct RetryRun<T, E> {
    /// How many attempts were made.
    pub invocations: nat,
    /// The value or the error; `None` while neither is reached.
    pub result: Option<Result<T, RetryError<E>>>,
}

/// Runs a controller over the outcomes that the attempts would give, one
/// after the other, and stops at the first that ends the run. Outcomes
/// behind that one belong to attempts that are never made.
pub open spec fn retry_run<T, E>(
    controller: RetryController,
    outcomes: Seq<RetryAttemptOutcome<T, E>>,
) -> RetryRun<T, E>
    decreases outcomes.len(),
{
    if controller.spent() {
        RetryRun {
            invocations: controller.attempts as nat,
            result: Some(Err(RetryError::Exhausted { attempts: controller.attempts })),
        }
    } else if outcomes.len() == 0 {
        RetryRun { invocations: controller.attempts as nat, result: None }
    } else {
        match controller.decision(outcomes[0]) {
            RetryDecision::Again => retry_run(controller.counted(), outcomes.drop_first()),
            RetryDecision::Done(v) => RetryRun {
                invocations: controller.counted().attempts as nat,
                result: Some(Ok(v)),
            },
            RetryDecision::GiveUp(e) => RetryRun {
                invocations: controller.counted().attempts as nat,
                result: Some(Err(e)),
            },
        }
    }
}

/// `n` times `Continue`.
pub open spec fn continues<T, E>(n: nat) -> Seq<RetryAttemptOutcome<T, E>> {
    Seq::new(n, |i: int| RetryAttemptOutcome::Continue)
}

/// Attempts that say `Continue` and stay within the budget only move the
/// count: the run goes on with what comes after them.
pub proof fn lemma_retry_skips_continues<T, E>(
    controller: RetryController,
    n: nat,
    rest: Seq<RetryAttemptOutcome<T, E>>,
)
    requires
        controller.attempts + n < controller.max_attempts,
    ensures
        retry_run(controller, continues::<T, E>(n) + rest) == retry_run(
            RetryController {
                max_attempts: controller.max_attempts,
                attempts: (controller.attempts + n) as u32,
            },
            rest,
        ),
    decreases n,
{
    let all = continues::<T, E>(n) + rest;
    if n == 0 {
        assert(all =~= rest);
    } else {
        assert(all[0] == RetryAttemptOutcome::<T, E>::Continue);
        assert(all.drop_first() =~= continues::<T, E>((n - 1) as nat) + rest);
        lemma_retry_skips_continues::<T, E>(controller.counted(), (n - 1) as nat, rest);
    }
}

/// An attempt that says `Continue` exactly `n` times and then `Break(v)`
/// makes the run return `v` after exactly `n + 1` attempts, if the budget
/// allows that many.
pub proof fn lemma_retry_break_after_continues<T, E>(
    max_attempts: u32,
    n: nat,
    v: T,
    later: Seq<RetryAttemptOutcome<T, E>>,
)
    requires
        n < max_attempts,
    ensures
        retry_run(
            RetryController::fresh(max_attempts),
            continues::<T, E>(n).push(RetryAttemptOutcome::Break(v)) + later,
        ) == (RetryRun::<T, E> { invocations: n + 1, result: Some(Ok(v)) }),
{
    let tail = seq![RetryAttemptOutcome::<T, E>::Break(v)] + later;
    assert(continues::<T, E>(n).push(RetryAttemptOutcome::Break(v)) + later =~= continues::<T, E>(
        n,
    ) + tail);
    lemma_retry_skips_continues::<T, E>(RetryController::fresh(max_attempts), n, tail);
}

/// An attempt that says `Fatal(e)` the first time makes the run return that
/// error after exactly one attempt.
pub proof fn lemma_retry_fatal_at_once<T, E>(
    max_attempts: u32,
    e: E,
    later: Seq<RetryAttemptOutcome<T, E>>,
)
    requires
        max_attempts > 0,
    ensures
        retry_run(
            RetryController::fresh(max_attempts),
            seq![RetryAttemptOutcome::<T, E>::Fatal(e)] + later,
        ) == (RetryRun::<T, E> { invocations: 1, result: Some(Err(RetryError::Fatal(e))) }),
{
}

/// An attempt that always says `Continue` is given up after exactly as many
/// attempts as the budget allows.
pub proof fn lemma_retry_exhausts<T, E>(max_attempts: u32, n: nat)
    requires
        n >= max_attempts,
    ensures
        retry_run(RetryController::fresh(max_attempts), continues::<T, E>(n)) == (RetryRun::<
            T,
            E,
        > {
            invocations: max_attempts as nat,
            result: Some(Err(RetryError::Exhausted { attempts: max_attempts })),
        }),
{
    if max_attempts > 0 {
        let done = (max_attempts - 1) as nat;
        let rest = continues::<T, E>((n - done) as nat);
        assert(continues::<T, E>(n) =~= continues::<T, E>(done) + rest);
        lemma_retry_skips_continues::<T, E>(RetryController::fresh(max_attempts), done, rest);
        assert(rest[0] == RetryAttemptOutcome::<T, E>::Continue);
    }
}

/// No run makes more attempts than the budget allows, whatever the
/// attempts say.
pub proof fn lemma_retry_is_bounded<T, E>(
    controller: RetryController,
    outcomes: Seq<RetryAttemptOutcome<T, E>>,
)
    requires
        controller.wf(),
    ensures
        controller.attempts <= retry_run(controller, outcomes).invocations
            <= controller.max_attempts,
    decreases outcomes.len(),
{
    if !controller.spent() && outcomes.len() > 0 {
        lemma_retry_is_bounded(controller.counted(), outcomes.drop_first());
    }
}

/// The failure that a retried action ends in, with the note of what was
/// being retried.
pub open spec fn retry_failure(error: RetryError<Failure>, description: Seq<char>) -> FailureView {
    match error {
        RetryError::Fatal(e) => e@.noted(description),
        RetryError::Exhausted { attempts } => FailureView {
            cause: CauseView::RetryExhausted { attempts: attempts as nat },
            context: seq![description],
        },
    }
}

impl RetryError<Failure> {
    /// Turns the error into a failure and notes what was being retried.
    pub fn into_failure(self, description: &str) -> (r: Failure)
        ensures
            r@ == retry_failure(self, description@),
    {
        match self {
            RetryError::Fatal(e) => e.context(description),
            RetryError::Exhausted { attempts } => {
                let r = Failure::new(Cause::RetryExhausted { attempts }).context(description);
                proof {
                    assert(r@.context =~= seq![description@]);
                }
                r
            },
        }
    }
}

/// Every outcome of `trace` is one that `attempt` may give.
pub open spec fn attempted<T, F: Fn() -> RetryAttemptOutcome<T, Failure>>(
    attempt: F,
    trace: Seq<RetryAttemptOutcome<T, Failure>>,
) -> bool {
    forall|i: int| 0 <= i < trace.len() ==> attempt.ensures((), #[trigger] trace[i])
}

/// What `retry_until` returns for the outcomes that its attempts gave.
pub open spec fn retry_outcome<T>(
    description: Seq<char>,
    max_attempts: u32,
    trace: Seq<RetryAttemptOutcome<T, Failure>>,
    r: Result<T, Failure>,
) -> bool {
    let run = retry_run(RetryController::fresh(max_attempts), trace);
    &&& run.invocations == trace.len()
    &&& match run.result {
        Some(Ok(v)) => r == Ok::<T, Failure>(v),
        Some(Err(e)) => r is Err && r->Err_0@ == retry_failure(e, description),
        None => false,
    }
}

/// Makes attempts until one says `Break` or `Fatal`, or until
/// `max_attempts` have been made.
///
/// The attempts that were made gave some outcomes, one each. The result is
/// what a run over exactly those outcomes ends in: the value of the first
/// `Break`; the error of the first `Fatal`; or, after `max_attempts` times
/// `Continue`, the failure of a spent budget. An error carries `description`
/// as its outermost note.
pub fn retry_until<T, F: Fn() -> RetryAttemptOutcome<T, Failure>>(
    description: &str,
    max_attempts: u32,
    attempt: F,
) -> (r: Result<T, Failure>)
    requires
        attempt.requires(()),
    ensures
        exists|trace: Seq<RetryAttemptOutcome<T, Failure>>|
            attempted(attempt, trace) && #[trigger] retry_outcome(
                description@,
                max_attempts,
                trace,
                r,
            ),
{
    let mut controller = RetryController::new(max_attempts);
    let ghost mut trace: Seq<RetryAttemptOutcome<T, Failure>> = Seq::empty();
    if !controller.may_attempt() {
        let r = Err(controller.exhausted::<Failure>().into_failure(description));
        proof {
            assert(attempted(attempt, trace));
            assert(retry_outcome(description@, max_attempts, trace, r));
        }
        return r;
    }
    loop
        invariant
            attempt.requires(()),
            controller.wf(),
            !controller.spent(),
            controller.max_attempts == max_attempts,
            trace =~= continues::<T, Failure>(controller.attempts as nat),
            attempted(attempt, trace),
        decreases controller.max_attempts - controller.attempts,
    {
        let outcome = attempt();
        let ghost before = controller;
        proof {
            let whole = trace.push(outcome);
            assert(whole =~= continues::<T, Failure>(before.attempts as nat) + seq![outcome]);
            lemma_retry_skips_continues::<T, Failure>(
                RetryController::fresh(max_attempts),
                before.attempts as nat,
                seq![outcome],
            );
            assert(attempted(attempt, whole));
            trace = whole;
        }
        match controller.record(outcome) {
            RetryDecision::Again => {},
            RetryDecision::Done(v) => {
                let r = Ok(v);
                proof {
                    assert(retry_outcome(description@, max_attempts, trace, r));
                }
                return r;
            },
            RetryDecision::GiveUp(e) => {
                let r = Err(e.into_failure(description));
                proof {
                    assert(retry_outcome(description@, max_attempts, trace, r));
                }
                return r;
            },
        }
    }
}

} // verus!
