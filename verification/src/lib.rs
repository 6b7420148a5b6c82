//! Decisions of a dashboard scraper: what to ask of a browser session, what to
//! make of its answers, and what to hand on to be written.
//!
//! Nothing in this crate talks to a browser or to the disk. Every function
//! takes what was observed as plain values and answers with what to do next.

use crate::failure::Failure;
use tokio::task::JoinError;
use vstd::prelude::*;

pub mod cli;
pub mod components;
pub mod driver;
pub mod extraction;
pub mod failure;
pub mod listing;
pub mod model;
pub mod navigation;
pub mod pattern;
pub mod pipeline;
pub mod region;
pub mod retry;
pub mod template;
pub mod text;
pub mod tree;

verus! {

/// The error of a task that did not run to its end.
#[verifier::external_type_specification]
#[verifier::external_body]
pub struct ExJoinError(JoinError);

/// Whether `out` is what a task's result comes to under the note `ctx`.
///
/// A value is handed on. A failure of the task's own gets the note. A task
/// that did not run to its end gives a failure from outside, whose message
/// is what the task's error says of itself, with the note and no other.
pub open spec fn task_outcome<T>(
    ctx: Seq<char>,
    result: Result<Result<T, Failure>, JoinError>,
    out: Result<T, Failure>,
) -> bool {
    match result {
        Ok(Ok(value)) => out == Ok::<T, Failure>(value),
        Ok(Err(failure)) => out is Err && out->Err_0@ == failure@.noted(ctx),
        Err(_) => {
            &&& out is Err
            &&& out->Err_0@.cause is Outside
            &&& out->Err_0@.context == seq![ctx]
        },
    }
}

/// Makes of a note the function that turns what a joined task gave into
/// one result, with the note on every failure.
pub fn task_context<T>(ctx: String) -> (f: impl FnOnce(
    Result<Result<T, Failure>, JoinError>,
) -> Result<T, Failure>)
    ensures
        forall|result: Result<Result<T, Failure>, JoinError>| f.requires((result,)),
        forall|result: Result<Result<T, Failure>, JoinError>, out: Result<T, Failure>|
            f.ensures((result,), out) ==> task_outcome(ctx@, result, out),
{
    move |result: Result<Result<T, Failure>, JoinError>| -> (out: Result<T, Failure>)
        ensures
            task_outcome(ctx@, result, out),
        {
            match result {
                Ok(Ok(value)) => Ok(value),
                Ok(Err(failure)) => Err(failure.context(ctx.as_str())),
                Err(error) => {
                    let failure = Failure::outside(error.to_string()).context(ctx.as_str());
                    proof {
                        assert(failure@.context =~= seq![ctx@]);
                    }
                    Err(failure)
                },
            }
        }
}

} // verus!
