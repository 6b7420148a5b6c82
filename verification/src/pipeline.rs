//! From extraction to the disk: the queue between the two, the writer's
//! books, and what the whole run comes to.
//!
//! Reports wait in a queue of fixed length, so that reading cannot run
//! ahead of writing without bound. Each report is written on its own. A
//! report that cannot be written does not hold back the others, and its
//! failure is kept until all of them are done.

use crate::cli::ExportFormat;
use crate::failure::Failure;
use crate::failure::FailureView;
use crate::model::record_views;
use crate::model::Report;
use tokio::sync::mpsc::Receiver;
use tokio::sync::mpsc::Sender;
use vstd::prelude::*;
use vstd::string::*;

verus! {

/// How many reports may wait to be written.
pub const REPORT_QUEUE_CAPACITY: usize = 20;

/// The end of a queue into which values are put.
#[verifier::external_type_specification]
#[verifier::external_body]
#[verifier::reject_recursive_types(T)]
pub struct ExSender<T>(Sender<T>);

/// The end of a queue from which values are taken.
#[verifier::external_type_specification]
#[verifier::external_body]
#[verifier::reject_recursive_types(T)]
pub struct ExReceiver<T>(Receiver<T>);

/// How many reports the queue behind a sender was made to hold: what
/// `Sender::max_capacity` returns.
pub uninterp spec fn queue_limit(sender: Sender<Report>) -> nat;

/// `tokio::sync::mpsc::channel`, which makes a queue that holds up to
/// `capacity` values and hands out its two ends. It panics for a capacity
/// of zero and for one beyond an eighth of `usize::MAX`, so both are kept
/// out. The contract says that the queue was made with the capacity asked
/// for, and no more.
#[verifier::external_body]
fn channel(capacity: usize) -> (r: (Sender<Report>, Receiver<Report>))
    requires
        0 < capacity <= usize::MAX / 8,
    ensures
        queue_limit(r.0) == capacity,
{
    tokio::sync::mpsc::channel(capacity)
}

/// Makes the queue in which reports wait to be written. It holds
/// `REPORT_QUEUE_CAPACITY` reports; whoever puts in one more waits until
/// one is taken out.
pub fn report_queue() -> (r: (Sender<Report>, Receiver<Report>))
    ensures
        queue_limit(r.0) == REPORT_QUEUE_CAPACITY,
{
    channel(REPORT_QUEUE_CAPACITY)
}

/// The note on a failure of the scraping.
pub const SCRAPE_NOTE: &'static str = "unable to scrape dashboard";

/// The note on a failure of the writing.
pub const EXPORT_NOTE: &'static str = "unable to write report logs";

/// The note on a failure to make the directory of the reports.
pub const DIRECTORY_NOTE: &'static str = "Unable to create output directory";

/// The note on the first failure among the reports' writes.
pub const WRITES_NOTE: &'static str = "error writing station reports";

/// What is to be written for one report.
#[derive(Debug)]
pub struct WriteJob {
    /// The file's name without extension: the station's name.
    pub stem: String,
    /// The file's extension.
    pub extension: &'static str,
    /// The file's content.
    pub content: String,
    /// The note on a failure to create the file.
    pub create_note: String,
    /// The note on a failure to write into it.
    pub write_note: String,
}

/// The writer's books: how many writes are under way, whether more may
/// come, and the first failure among those that are done.
#[derive(Debug)]
pub struct WriteLedger {
    pub pending: u64,
    pub closed: bool,
    pub error: Option<Failure>,
}

/// The view of a failure that may be missing.
pub open spec fn failure_view(failure: Option<Failure>) -> Option<FailureView> {
    match failure {
        Some(failure) => Some(failure@),
        None => None,
    }
}

/// The failure of a write, if it failed.
pub open spec fn write_failure(result: Result<(), Failure>) -> Option<FailureView> {
    match result {
        Ok(_) => None,
        Err(failure) => Some(failure@),
    }
}

/// The failure that the books hold after a write is done: the one they
/// held before, or that of this write if they held none.
pub open spec fn kept(error: Option<FailureView>, result: Result<(), Failure>) -> Option<
    FailureView,
> {
    if error is Some {
        error
    } else {
        write_failure(result)
    }
}

/// The failure that the books hold after these writes are done, in this
/// order.
pub open spec fn kept_of(error: Option<FailureView>, results: Seq<Result<(), Failure>>) -> Option<
    FailureView,
>
    decreases results.len(),
{
    if results.len() == 0 {
        error
    } else {
        kept_of(kept(error, results[0]), results.drop_first())
    }
}

/// The failure of the first write that failed, if one did.
pub open spec fn first_failure(results: Seq<Result<(), Failure>>) -> Option<FailureView>
    decreases results.len(),
{
    if results.len() == 0 {
        None
    } else {
        match results[0] {
            Err(failure) => Some(failure@),
            Ok(_) => first_failure(results.drop_first()),
        }
    }
}

/// No failure of a write is lost, and none is covered by a later one:
/// books that held no failure hold, after any writes, the failure of the
/// first that failed; and books that held one still hold it.
pub proof fn lemma_first_failure_is_kept(error: Option<FailureView>, results: Seq<Result<(), Failure>>)
    ensures
        kept_of(error, results) == if error is Some {
            error
        } else {
            first_failure(results)
        },
    decreases results.len(),
{
    if results.len() > 0 {
        lemma_first_failure_is_kept(kept(error, results[0]), results.drop_first());
    }
}

impl WriteLedger {
    /// Books with nothing in them.
    pub fn new() -> (r: Self)
        ensures
            r.pending == 0,
            !r.closed,
            r.error is None,
    {
        WriteLedger { pending: 0, closed: false, error: None }
    }

    /// Books a report's write as under way and says what is to be
    /// written: the lines of the report's records in the given form, into
    /// a file named after the station.
    ///
    /// An earlier failure does not stand in the way.
    pub fn start(&mut self, report: &Report, format: ExportFormat) -> (job: WriteJob)
        requires
            old(self).pending < u64::MAX,
        ensures
            final(self).pending == old(self).pending + 1,
            final(self).closed == old(self).closed,
            final(self).error == old(self).error,
            job.stem@ == report.station.name@,
            job.extension@ == match format {
                ExportFormat::Values => "txt"@,
                ExportFormat::Log => "log"@,
                ExportFormat::Csv => "csv"@,
            },
            job.content@ == format.lines_of(record_views(report.records@)),
            job.create_note@ == "failed to create output file for station "@
                + report.station.name@,
            job.write_note@ == "failed to output record for station "@ + report.station.name@,
    {
        self.pending = self.pending + 1;
        WriteJob {
            stem: report.station.name.clone(),
            extension: format.extension(),
            content: format.render(&report.records),
            create_note: "failed to create output file for station ".to_owned().concat(
                report.station.name.as_str(),
            ),
            write_note: "failed to output record for station ".to_owned().concat(
                report.station.name.as_str(),
            ),
        }
    }

    /// Books a write as done. The first failure is kept, and a later one
    /// does not replace it.
    pub fn finish(&mut self, result: Result<(), Failure>)
        ensures
            final(self).pending == if old(self).pending > 0 {
                old(self).pending - 1
            } else {
                0
            },
            final(self).closed == old(self).closed,
            failure_view(final(self).error) == kept(failure_view(old(self).error), result),
    {
        if self.pending > 0 {
            self.pending = self.pending - 1;
        }
        if self.error.is_none() {
            if let Err(failure) = result {
                self.error = Some(failure);
            }
        }
    }

    /// Notes that no further report will come.
    pub fn close(&mut self)
        ensures
            final(self).pending == old(self).pending,
            final(self).closed,
            final(self).error == old(self).error,
    {
        self.closed = true;
    }

    /// Whether the writing is complete: no report will come and no write
    /// is under way.
    pub fn complete(&self) -> (r: bool)
        ensures
            r == (self.closed && self.pending == 0),
    {
        self.closed && self.pending == 0
    }

    /// What the writing came to, once it is complete: the first failure
    /// with the note for the writes, or success if no write failed. `None`
    /// while it is not complete.
    pub fn outcome(&self) -> (r: Option<Result<(), Failure>>)
        ensures
            !(self.closed && self.pending == 0) ==> r is None,
            self.closed && self.pending == 0 ==> match self.error {
                None => r == Some(Ok::<(), Failure>(())),
                Some(failure) => r matches Some(Err(noted)) && noted@ == failure@.noted(
                    WRITES_NOTE@,
                ),
            },
    {
        if !self.complete() {
            return None;
        }
        match &self.error {
            None => Some(Ok(())),
            Some(failure) => Some(Err(failure.clone().context(WRITES_NOTE))),
        }
    }
}

/// What the run comes to, once extraction and writing have both ended.
///
/// It succeeds only if both did. If extraction failed, its failure is the
/// run's, whatever the writing came to; else the writing's failure is.
pub fn run_outcome(scrape: Result<(), Failure>, export: Result<(), Failure>) -> (r: Result<
    (),
    Failure,
>)
    ensures
        r == match scrape {
            Err(failure) => Err::<(), Failure>(failure),
            Ok(_) => export,
        },
{
    match scrape {
        Err(failure) => Err(failure),
        Ok(_) => export,
    }
}

} // verus!
