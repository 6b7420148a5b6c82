use std::cell::Cell;

use srss::failure::Cause;
use srss::failure::Failure;
use srss::retry::retry_until;
use srss::retry::RetryAttemptOutcome;
use srss::retry::RetryController;
use srss::retry::RetryDecision;
use srss::retry::RetryError;

fn continue_then_break(n: u32, max_attempts: u32) -> (Result<u32, Failure>, u32) {
    let calls = Cell::new(0u32);
    let result = retry_until("waiting for the page", max_attempts, || {
        calls.set(calls.get() + 1);
        if calls.get() <= n {
            RetryAttemptOutcome::Continue
        } else {
            RetryAttemptOutcome::Break(calls.get() * 100)
        }
    });
    (result, calls.get())
}

#[test]
fn a_break_at_the_first_attempt_takes_one_attempt() {
    let (result, calls) = continue_then_break(0, 5);
    assert_eq!(result.unwrap(), 100);
    assert_eq!(calls, 1);
}

#[test]
fn a_break_after_n_continues_takes_n_plus_one_attempts() {
    for n in 0..9u32 {
        let (result, calls) = continue_then_break(n, 10);
        assert_eq!(result.unwrap(), (n + 1) * 100);
        assert_eq!(calls, n + 1);
    }
}

#[test]
fn a_break_at_the_last_allowed_attempt_still_counts() {
    let (result, calls) = continue_then_break(4, 5);
    assert_eq!(result.unwrap(), 500);
    assert_eq!(calls, 5);
}

#[test]
fn a_fatal_outcome_ends_the_attempts_at_once() {
    let calls = Cell::new(0u32);
    let result: Result<(), Failure> = retry_until("setting page size", 5, || {
        calls.set(calls.get() + 1);
        RetryAttemptOutcome::Fatal(Failure::outside("session lost".to_string()))
    });
    assert_eq!(calls.get(), 1);
    let failure = result.unwrap_err();
    assert!(matches!(&failure.cause, Cause::Outside(m) if m == "session lost"));
    assert_eq!(failure.to_string(), "setting page size: session lost");
}

#[test]
fn a_fatal_outcome_after_continues_ends_the_attempts_there() {
    let calls = Cell::new(0u32);
    let result: Result<(), Failure> = retry_until("x", 10, || {
        calls.set(calls.get() + 1);
        if calls.get() < 3 {
            RetryAttemptOutcome::Continue
        } else {
            RetryAttemptOutcome::Fatal(Failure::new(Cause::LoginFormNotFound))
        }
    });
    assert_eq!(calls.get(), 3);
    assert!(matches!(result.unwrap_err().cause, Cause::LoginFormNotFound));
}

#[test]
fn the_budget_bounds_the_attempts() {
    let (result, calls) = continue_then_break(5, 5);
    assert_eq!(calls, 5);
    let failure = result.unwrap_err();
    assert!(matches!(failure.cause, Cause::RetryExhausted { attempts: 5 }));
    assert_eq!(
        failure.to_string(),
        "waiting for the page: retry budget exhausted after 5 attempts"
    );
}

#[test]
fn an_attempt_that_never_ends_is_given_up() {
    let calls = Cell::new(0u32);
    let result: Result<(), Failure> = retry_until("x", 7, || {
        calls.set(calls.get() + 1);
        RetryAttemptOutcome::Continue
    });
    assert_eq!(calls.get(), 7);
    assert!(matches!(result.unwrap_err().cause, Cause::RetryExhausted { attempts: 7 }));
}

#[test]
fn a_budget_of_nothing_allows_no_attempt() {
    let calls = Cell::new(0u32);
    let result: Result<u8, Failure> = retry_until("x", 0, || {
        calls.set(calls.get() + 1);
        RetryAttemptOutcome::Break(1)
    });
    assert_eq!(calls.get(), 0);
    assert!(matches!(result.unwrap_err().cause, Cause::RetryExhausted { attempts: 0 }));
}

#[test]
fn the_controller_counts_every_attempt() {
    let mut controller = RetryController::new(3);
    assert!(controller.may_attempt());
    assert!(matches!(
        controller.record::<u8, u8>(RetryAttemptOutcome::Continue),
        RetryDecision::Again
    ));
    assert_eq!(controller.attempts, 1);
    assert!(matches!(
        controller.record::<u8, u8>(RetryAttemptOutcome::Continue),
        RetryDecision::Again
    ));
    assert!(matches!(
        controller.record::<u8, u8>(RetryAttemptOutcome::Continue),
        RetryDecision::GiveUp(RetryError::Exhausted { attempts: 3 })
    ));
    assert!(!controller.may_attempt());
    assert_eq!(controller.attempts, 3);
}

#[test]
fn the_controller_hands_on_value_and_error() {
    let mut controller = RetryController::new(3);
    assert!(matches!(
        controller.record::<u8, u8>(RetryAttemptOutcome::Break(9)),
        RetryDecision::Done(9)
    ));
    let mut controller = RetryController::new(3);
    assert!(matches!(
        controller.record::<u8, u8>(RetryAttemptOutcome::Fatal(4)),
        RetryDecision::GiveUp(RetryError::Fatal(4))
    ));
    assert_eq!(controller.attempts, 1);
}

#[test]
fn a_spent_controller_looks_at_no_outcome() {
    let mut controller = RetryController::new(1);
    assert!(matches!(
        controller.record::<u8, u8>(RetryAttemptOutcome::Continue),
        RetryDecision::GiveUp(RetryError::Exhausted { attempts: 1 })
    ));
    assert!(matches!(
        controller.record::<u8, u8>(RetryAttemptOutcome::Break(1)),
        RetryDecision::GiveUp(RetryError::Exhausted { attempts: 1 })
    ));
    assert_eq!(controller.attempts, 1);
    assert!(matches!(controller.exhausted::<u8>(), RetryError::Exhausted { attempts: 1 }));
}

#[test]
fn an_error_becomes_a_failure_with_the_description() {
    let fatal: RetryError<Failure> = RetryError::Fatal(Failure::new(Cause::Timeout).context("a"));
    assert_eq!(fatal.into_failure("b").to_string(), "b: a: timed out waiting for element");
    let spent: RetryError<Failure> = RetryError::Exhausted { attempts: 2 };
    assert_eq!(spent.into_failure("b").to_string(), "b: retry budget exhausted after 2 attempts");
}
