//! The way through the dashboard, as a machine that is told what happened
//! and answers what to do next.
//!
//! The run logs in, waits for the dashboard, opens and sets the report's
//! filters, lists the stations, and then reads one station after the other.
//! Whoever drives the machine performs each task on the live session and
//! comes back with the event that tells how it went.
//!
//! Before the first station is read, any failure ends the run, and nothing
//! has been handed out by then. From the first station on, no failure ends
//! the run: a station that cannot be read is tried again, a bounded number
//! of times, and then left out.

use crate::failure::Failure;
use crate::model::Record;
use crate::model::Report;
use crate::model::Station;
use crate::tree::lemma_name_sorted;
use crate::tree::name_sorted;
use crate::tree::sort_by_name;
use vstd::prelude::*;
use vstd::string::*;

verus! {

/// How often one station is tried at most: once, and ten times more.
pub const EXTRACTION_ATTEMPTS: u32 = 11;

/// Where the run stands.
#[derive(Clone, Copy, Debug, PartialEq, Eq, Structural)]
pub enum Phase {
    /// Nothing was done yet; the login form is to be filled and sent.
    Unauthenticated,
    /// The credentials were sent; the dashboard is awaited.
    Authenticating,
    /// The dashboard is there; the report's controls are to be opened.
    Authenticated,
    /// The controls are open; granularity, period and page size are set.
    ConfiguringFilters,
    /// The filters are set; the stations are listed.
    EnumeratingTargets,
    /// The station with this index in the list is read.
    ExtractingTarget(usize),
    /// Every station was read or left out.
    Done,
    /// The run was given up before the first station.
    Failed,
}

/// What the machine asks to be done.
#[derive(Debug)]
pub enum Task {
    /// Open the login page, find the form and send the credentials.
    Login,
    /// Wait until the dashboard shows, and close the welcome notice if one
    /// is in the way.
    AwaitDashboard,
    /// Find the report's controls.
    OpenFilters,
    /// Set granularity, period and page size, each checked after it is set.
    ConfigureFilters,
    /// Open the whole tree of stations and hand back its stations.
    EnumerateTargets,
    /// Select this station, search, wait for the table and read it.
    Extract(Station),
}

impl Task {
    /// What a failure of the task is noted with.
    pub open spec fn note_of(self) -> Seq<char> {
        match self {
            Task::Login => "unable to login"@,
            Task::AwaitDashboard => "unable to reach dashboard"@,
            Task::OpenFilters => "failed to find control bar"@,
            Task::ConfigureFilters => "unable to configure report filters"@,
            Task::EnumerateTargets => "unable to list power stations"@,
            Task::Extract(station) => "failed to extract report for station "@ + station.name@,
        }
    }

    /// What a failure of the task is noted with: what was being done, and
    /// for which station where it was done for one.
    pub fn note(&self) -> (r: String)
        ensures
            r@ == self.note_of(),
    {
        match self {
            Task::Login => "unable to login".to_owned(),
            Task::AwaitDashboard => "unable to reach dashboard".to_owned(),
            Task::OpenFilters => "failed to find control bar".to_owned(),
            Task::ConfigureFilters => "unable to configure report filters".to_owned(),
            Task::EnumerateTargets => "unable to list power stations".to_owned(),
            Task::Extract(station) => "failed to extract report for station ".to_owned().concat(
                station.name.as_str(),
            ),
        }
    }

    /// The event of a task that failed: the failure with the task's note.
    pub fn failed(&self, failure: Failure) -> (r: Event)
        ensures
            r matches Event::Failed(noted) && noted@ == failure@.noted(self.note_of()),
    {
        let note = self.note();
        Event::Failed(failure.context(note.as_str()))
    }
}

/// How the task that was asked for went.
#[derive(Debug)]
pub enum Event {
    /// A task that hands nothing back was carried out.
    Completed,
    /// The stations were listed; these are they.
    Enumerated(Vec<Station>),
    /// A station's table was read; these are its rows.
    Extracted(Vec<Record>),
    /// The task failed.
    Failed(Failure),
}

/// What follows a step.
#[derive(Debug)]
pub enum Next {
    /// Carry out what is named and come back with its event.
    Perform(Task),
    /// The run is complete.
    Finish,
    /// The run is given up for this failure.
    Abort(Failure),
    /// The event does not answer what was asked, or the run had ended
    /// without success before; the run stays, or is now, given up.
    Refuse,
}

/// A station that was left out, and the last failure met on it if one was
/// reported.
#[derive(Debug)]
pub struct Skip {
    pub station: Station,
    pub failure: Option<Failure>,
}

/// What one event led to.
#[derive(Debug)]
pub struct Step {
    /// A report that is complete and to be handed on.
    pub emit: Option<Report>,
    /// A station that was given up.
    pub skip: Option<Skip>,
    /// What to do now.
    pub next: Next,
}

/// The machine's state as contracts see it.
pub struct NavState {
    pub phase: Phase,
    /// The stations in the order in which they are read; empty until they
    /// are listed.
    pub targets: Seq<Station>,
    /// How often the station at hand has failed.
    pub failures: nat,
    /// How often one station is tried at most; at least once.
    pub max_attempts: nat,
}

impl NavState {
    /// The state before anything was done.
    pub open spec fn start(max_attempts: u32) -> NavState {
        NavState {
            phase: Phase::Unauthenticated,
            targets: Seq::empty(),
            failures: 0,
            max_attempts: if max_attempts == 0 {
                1
            } else {
                max_attempts as nat
            },
        }
    }

    /// Whether the state is one that a run can be in.
    pub open spec fn wf(self) -> bool {
        &&& self.max_attempts >= 1
        &&& self.failures < self.max_attempts
        &&& self.targets.len() <= usize::MAX
        &&& (self.phase matches Phase::ExtractingTarget(i) ==> i < self.targets.len())
        &&& (!(self.phase is ExtractingTarget) ==> self.failures == 0)
        &&& (self.before_extraction() ==> self.targets.len() == 0)
    }

    /// Whether the run has not yet listed its stations.
    pub open spec fn before_extraction(self) -> bool {
        match self.phase {
            Phase::Unauthenticated
            | Phase::Authenticating
            | Phase::Authenticated
            | Phase::ConfiguringFilters
            | Phase::EnumeratingTargets => true,
            _ => false,
        }
    }

    /// The state in another phase, with nothing else changed.
    pub open spec fn in_phase(self, phase: Phase) -> NavState {
        NavState { phase, ..self }
    }

    /// The state in which the station with index `i` is read for the first
    /// time, or the end of the run if there is no such station.
    pub open spec fn at_target(self, i: nat) -> NavState {
        NavState {
            phase: if i < self.targets.len() {
                Phase::ExtractingTarget(i as usize)
            } else {
                Phase::Done
            },
            failures: 0,
            ..self
        }
    }

    /// What is to be done in this state.
    pub open spec fn todo(self) -> Next {
        match self.phase {
            Phase::Unauthenticated => Next::Perform(Task::Login),
            Phase::Authenticating => Next::Perform(Task::AwaitDashboard),
            Phase::Authenticated => Next::Perform(Task::OpenFilters),
            Phase::ConfiguringFilters => Next::Perform(Task::ConfigureFilters),
            Phase::EnumeratingTargets => Next::Perform(Task::EnumerateTargets),
            Phase::ExtractingTarget(i) => Next::Perform(Task::Extract(self.targets[i as int])),
            Phase::Done => Next::Finish,
            Phase::Failed => Next::Refuse,
        }
    }
}

/// The phase that follows when a phase before the listing has done its work.
pub open spec fn following(phase: Phase) -> Phase {
    match phase {
        Phase::Unauthenticated => Phase::Authenticating,
        Phase::Authenticating => Phase::Authenticated,
        Phase::Authenticated => Phase::ConfiguringFilters,
        Phase::ConfiguringFilters => Phase::EnumeratingTargets,
        other => other,
    }
}

/// A step that only says what to do next.
pub open spec fn quiet(next: Next) -> Step {
    Step { emit: None, skip: None, next }
}

/// The failure that an event reports, if it reports one.
pub open spec fn reported(event: Event) -> Option<Failure> {
    match event {
        Event::Failed(failure) => Some(failure),
        _ => None,
    }
}

/// The state and the step that an event leads to.
pub open spec fn advanced(s: NavState, event: Event) -> (NavState, Step) {
    match s.phase {
        Phase::Unauthenticated
        | Phase::Authenticating
        | Phase::Authenticated
        | Phase::ConfiguringFilters => match event {
            Event::Completed => {
                let t = s.in_phase(following(s.phase));
                (t, quiet(t.todo()))
            },
            Event::Failed(failure) => (s.in_phase(Phase::Failed), quiet(Next::Abort(failure))),
            _ => (s.in_phase(Phase::Failed), quiet(Next::Refuse)),
        },
        Phase::EnumeratingTargets => match event {
            Event::Enumerated(found) => {
                let t = (NavState { targets: name_sorted(found@), ..s }).at_target(0);
                (t, quiet(t.todo()))
            },
            Event::Failed(failure) => (s.in_phase(Phase::Failed), quiet(Next::Abort(failure))),
            _ => (s.in_phase(Phase::Failed), quiet(Next::Refuse)),
        },
        Phase::ExtractingTarget(i) => match event {
            Event::Extracted(records) => {
                let t = s.at_target((i + 1) as nat);
                (
                    t,
                    Step {
                        emit: Some(Report { station: s.targets[i as int], records }),
                        skip: None,
                        next: t.todo(),
                    },
                )
            },
            other => if s.failures + 1 < s.max_attempts {
                let t = NavState { failures: s.failures + 1, ..s };
                (t, quiet(t.todo()))
            } else {
                let t = s.at_target((i + 1) as nat);
                (
                    t,
                    Step {
                        emit: None,
                        skip: Some(Skip { station: s.targets[i as int], failure: reported(other) }),
                        next: t.todo(),
                    },
                )
            },
        },
        Phase::Done => (s, quiet(Next::Finish)),
        Phase::Failed => (s, quiet(Next::Refuse)),
    }
}

/// What a run has led to.
pub struct Run {
    /// The state it has reached.
    pub state: NavState,
    /// The reports it has handed out, in the order in which it did.
    pub reports: Seq<Report>,
    /// The stations it has left out, in the order in which it did.
    pub skipped: Seq<Station>,
}

/// The report that a step hands out, as a list of one or none.
pub open spec fn emitted(step: Step) -> Seq<Report> {
    match step.emit {
        Some(report) => seq![report],
        None => Seq::empty(),
    }
}

/// The station that a step leaves out, as a list of one or none.
pub open spec fn left_out(step: Step) -> Seq<Station> {
    match step.skip {
        Some(skip) => seq![skip.station],
        None => Seq::empty(),
    }
}

/// Where a machine in state `s` gets when it is told `events` one after the
/// other, and what it hands out and leaves out on the way.
pub open spec fn run(s: NavState, events: Seq<Event>) -> Run
    decreases events.len(),
{
    if events.len() == 0 {
        Run { state: s, reports: Seq::empty(), skipped: Seq::empty() }
    } else {
        let (t, step) = advanced(s, events[0]);
        let rest = run(t, events.drop_first());
        Run {
            state: rest.state,
            reports: emitted(step) + rest.reports,
            skipped: left_out(step) + rest.skipped,
        }
    }
}

/// A step leads from a state that a run can be in to another such state.
pub proof fn lemma_advanced_wf(s: NavState, event: Event)
    requires
        s.wf(),
    ensures
        advanced(s, event).0.wf(),
{
    match s.phase {
        Phase::EnumeratingTargets => {
            if let Event::Enumerated(found) = event {
                lemma_name_sorted(found@);
                assert(found@.len() == found.len());
            }
        },
        Phase::ExtractingTarget(i) => {
            assert(i < s.targets.len());
        },
        _ => {},
    }
}

/// The index of the station at hand, and the number of all stations once
/// the last one is done.
pub open spec fn progress(s: NavState) -> nat {
    match s.phase {
        Phase::ExtractingTarget(i) => i as nat,
        _ => s.targets.len(),
    }
}

/// The list of stations is complete before the first of them is read,
/// and the reading only moves forward: once a station is being read, no
/// event changes the list or the budget, ends the run without success, or
/// brings back a station that was dealt with.
pub proof fn lemma_reading_moves_forward(s: NavState, events: Seq<Event>)
    requires
        s.wf(),
        s.phase is ExtractingTarget || s.phase is Done,
    ensures
        run(s, events).state.targets == s.targets,
        run(s, events).state.max_attempts == s.max_attempts,
        run(s, events).state.phase is ExtractingTarget || run(s, events).state.phase is Done,
        progress(s) <= progress(run(s, events).state),
    decreases events.len(),
{
    if events.len() > 0 {
        let (t, step) = advanced(s, events[0]);
        lemma_advanced_wf(s, events[0]);
        if let Phase::ExtractingTarget(i) = s.phase {
            assert(i < s.targets.len());
        }
        lemma_reading_moves_forward(t, events.drop_first());
    }
}

/// The station that a step is done with, as a list of one or none: the
/// one whose report it hands out, or the one it leaves out.
pub open spec fn settled(step: Step) -> Seq<Station> {
    match step.emit {
        Some(report) => seq![report.station],
        None => left_out(step),
    }
}

/// The stations that a run is done with, in the order in which it was.
pub open spec fn settled_by(s: NavState, events: Seq<Event>) -> Seq<Station>
    decreases events.len(),
{
    if events.len() == 0 {
        Seq::empty()
    } else {
        let (t, step) = advanced(s, events[0]);
        settled(step) + settled_by(t, events.drop_first())
    }
}

/// No station is lost without a trace: the stations that a run hands out
/// a report of or leaves out are, taken together and in the order of the
/// run, exactly the stations of the list from the one it began with up to
/// the one it has reached.
pub proof fn lemma_every_station_is_settled(s: NavState, events: Seq<Event>)
    requires
        s.wf(),
        s.phase is ExtractingTarget || s.phase is Done,
    ensures
        progress(s) <= progress(run(s, events).state) <= s.targets.len(),
        settled_by(s, events) == s.targets.subrange(
            progress(s) as int,
            progress(run(s, events).state) as int,
        ),
    decreases events.len(),
{
    lemma_reading_moves_forward(s, events);
    if events.len() == 0 {
        assert(settled_by(s, events) =~= s.targets.subrange(
            progress(s) as int,
            progress(s) as int,
        ));
    } else {
        let (t, step) = advanced(s, events[0]);
        lemma_advanced_wf(s, events[0]);
        if let Phase::ExtractingTarget(i) = s.phase {
            assert(i < s.targets.len());
        }
        lemma_reading_moves_forward(t, events.drop_first());
        lemma_every_station_is_settled(t, events.drop_first());
        let end = progress(run(s, events).state) as int;
        assert(settled(step) =~= s.targets.subrange(progress(s) as int, progress(t) as int));
        assert(settled_by(s, events) =~= s.targets.subrange(progress(s) as int, end));
    }
}

/// A run over two lists of events, one after the other, is the run over
/// the first followed by the run over the second.
pub proof fn lemma_run_in_two(s: NavState, first: Seq<Event>, second: Seq<Event>)
    ensures
        run(s, first + second) == ({
            let a = run(s, first);
            let b = run(a.state, second);
            Run {
                state: b.state,
                reports: a.reports + b.reports,
                skipped: a.skipped + b.skipped,
            }
        }),
    decreases first.len(),
{
    let a = run(s, first);
    let b = run(a.state, second);
    if first.len() == 0 {
        assert(first + second =~= second);
        assert(a.reports + b.reports =~= b.reports);
        assert(a.skipped + b.skipped =~= b.skipped);
    } else {
        let (t, step) = advanced(s, first[0]);
        assert((first + second)[0] == first[0]);
        assert((first + second).drop_first() =~= first.drop_first() + second);
        lemma_run_in_two(t, first.drop_first(), second);
        let rest = run(t, first.drop_first());
        assert(emitted(step) + (rest.reports + b.reports) =~= (emitted(step) + rest.reports)
            + b.reports);
        assert(left_out(step) + (rest.skipped + b.skipped) =~= (left_out(step) + rest.skipped)
            + b.skipped);
    }
}

/// Failures before the first station end the run, and a run that has ended
/// so has handed out nothing: from a state before the listing, whatever
/// the events are, a run that is given up has no report and has left out
/// no station. Once a station is being read, no event makes the run give
/// up.
pub proof fn lemma_given_up_means_nothing_out(s: NavState, events: Seq<Event>)
    requires
        s.wf(),
    ensures
        run(s, events).state.wf(),
        (s.before_extraction() || s.phase is Failed) && run(s, events).state.phase is Failed ==> {
            &&& run(s, events).reports.len() == 0
            &&& run(s, events).skipped.len() == 0
        },
        s.phase is ExtractingTarget || s.phase is Done ==> !(run(s, events).state.phase
            is Failed),
    decreases events.len(),
{
    if events.len() > 0 {
        let (t, step) = advanced(s, events[0]);
        lemma_advanced_wf(s, events[0]);
        lemma_given_up_means_nothing_out(t, events.drop_first());
    }
}

/// A run from the very start that is given up has handed out nothing.
pub proof fn lemma_aborted_run_is_empty(max_attempts: u32, events: Seq<Event>)
    ensures
        run(NavState::start(max_attempts), events).state.phase is Failed ==> {
            &&& run(NavState::start(max_attempts), events).reports.len() == 0
            &&& run(NavState::start(max_attempts), events).skipped.len() == 0
        },
{
    lemma_given_up_means_nothing_out(NavState::start(max_attempts), events);
}

/// None of the events says that a table was read.
pub open spec fn no_success(events: Seq<Event>) -> bool {
    forall|k: int| 0 <= k < events.len() ==> !(#[trigger] events[k] is Extracted)
}

/// How the reading of one station goes.
pub enum Fate {
    /// After these failed attempts the table is read.
    Read { failed: Seq<Event>, records: Vec<Record> },
    /// Every attempt fails.
    GivenUp { failed: Seq<Event> },
}

impl Fate {
    /// Whether the fate fits a budget of `max_attempts` attempts: a
    /// station that is read has failed less often than that, and one that
    /// is given up has failed exactly that often.
    pub open spec fn fits(self, max_attempts: nat) -> bool {
        match self {
            Fate::Read { failed, records } => failed.len() < max_attempts && no_success(failed),
            Fate::GivenUp { failed } => failed.len() == max_attempts && no_success(failed),
        }
    }

    /// The events of this fate, one for each attempt.
    pub open spec fn events(self) -> Seq<Event> {
        match self {
            Fate::Read { failed, records } => failed.push(Event::Extracted(records)),
            Fate::GivenUp { failed } => failed,
        }
    }

    /// The report that comes of it for `station`, as a list of one or
    /// none.
    pub open spec fn reports(self, station: Station) -> Seq<Report> {
        match self {
            Fate::Read { failed, records } => seq![Report { station, records }],
            Fate::GivenUp { failed } => Seq::empty(),
        }
    }

    /// `station` if it is left out, as a list of one or none.
    pub open spec fn skipped(self, station: Station) -> Seq<Station> {
        match self {
            Fate::Read { failed, records } => Seq::empty(),
            Fate::GivenUp { failed } => seq![station],
        }
    }
}

/// The events of the fates, one station after the other.
pub open spec fn script(fates: Seq<Fate>) -> Seq<Event>
    decreases fates.len(),
{
    if fates.len() == 0 {
        Seq::empty()
    } else {
        fates[0].events() + script(fates.drop_first())
    }
}

/// The reports of the stations that are read, in the order of the
/// stations.
pub open spec fn harvest(targets: Seq<Station>, fates: Seq<Fate>) -> Seq<Report>
    decreases fates.len(),
{
    if fates.len() == 0 || targets.len() == 0 {
        Seq::empty()
    } else {
        fates[0].reports(targets[0]) + harvest(targets.drop_first(), fates.drop_first())
    }
}

/// The stations that are given up, in the order of the stations.
pub open spec fn losses(targets: Seq<Station>, fates: Seq<Fate>) -> Seq<Station>
    decreases fates.len(),
{
    if fates.len() == 0 || targets.len() == 0 {
        Seq::empty()
    } else {
        fates[0].skipped(targets[0]) + losses(targets.drop_first(), fates.drop_first())
    }
}

proof fn lemma_failed_attempts(s: NavState, failed: Seq<Event>)
    requires
        s.wf(),
        s.phase is ExtractingTarget,
        no_success(failed),
        s.failures + failed.len() < s.max_attempts,
    ensures
        run(s, failed) == (Run {
            state: NavState { failures: s.failures + failed.len(), ..s },
            reports: Seq::empty(),
            skipped: Seq::empty(),
        }),
    decreases failed.len(),
{
    if failed.len() > 0 {
        let (t, step) = advanced(s, failed[0]);
        assert(!(failed[0] is Extracted));
        let rest = failed.drop_first();
        assert forall|k: int| 0 <= k < rest.len() implies !(#[trigger] rest[k] is Extracted) by {
            assert(rest[k] == failed[k + 1]);
        }
        lemma_failed_attempts(t, rest);
        assert(emitted(step) + Seq::<Report>::empty() =~= Seq::<Report>::empty());
        assert(left_out(step) + Seq::<Station>::empty() =~= Seq::<Station>::empty());
    }
}

proof fn lemma_one_station(s: NavState, i: nat, fate: Fate)
    requires
        s.wf(),
        s.phase == Phase::ExtractingTarget(i as usize),
        i < s.targets.len(),
        s.failures == 0,
        fate.fits(s.max_attempts),
    ensures
        run(s, fate.events()) == (Run {
            state: s.at_target(i + 1),
            reports: fate.reports(s.targets[i as int]),
            skipped: fate.skipped(s.targets[i as int]),
        }),
{
    reveal_with_fuel(run, 3);
    match fate {
        Fate::Read { failed, records } => {
            let last = seq![Event::Extracted(records)];
            assert(fate.events() =~= failed + last);
            lemma_run_in_two(s, failed, last);
            lemma_failed_attempts(s, failed);
            let mid = NavState { failures: s.failures + failed.len(), ..s };
            assert(last.drop_first() =~= Seq::<Event>::empty());
            let (t, step) = advanced(mid, last[0]);
            assert(t == s.at_target(i + 1));
            assert(run(mid, last).reports =~= fate.reports(s.targets[i as int]));
            assert(run(mid, last).skipped =~= fate.skipped(s.targets[i as int]));
            assert(run(s, failed).reports + run(mid, last).reports =~= fate.reports(
                s.targets[i as int],
            ));
            assert(run(s, failed).skipped + run(mid, last).skipped =~= fate.skipped(
                s.targets[i as int],
            ));
        },
        Fate::GivenUp { failed } => {
            let n = failed.len() as int;
            let early = failed.take(n - 1);
            let last = seq![failed[n - 1]];
            assert(failed =~= early + last);
            assert forall|k: int| 0 <= k < early.len() implies !(#[trigger] early[k]
                is Extracted) by {
                assert(early[k] == failed[k]);
            }
            lemma_run_in_two(s, early, last);
            lemma_failed_attempts(s, early);
            let mid = NavState { failures: s.failures + early.len(), ..s };
            assert(last.drop_first() =~= Seq::<Event>::empty());
            assert(!(failed[n - 1] is Extracted));
            let (t, step) = advanced(mid, last[0]);
            assert(t == s.at_target(i + 1));
            assert(run(mid, last).reports =~= fate.reports(s.targets[i as int]));
            assert(run(mid, last).skipped =~= fate.skipped(s.targets[i as int]));
            assert(run(s, early).reports + run(mid, last).reports =~= fate.reports(
                s.targets[i as int],
            ));
            assert(run(s, early).skipped + run(mid, last).skipped =~= fate.skipped(
                s.targets[i as int],
            ));
        },
    }
}

/// No failure on one station keeps the others from being read, and no
/// station is lost without a trace.
///
/// Let the run stand at the station with index `i`, and let each station
/// from there on have its fate: it is read after fewer failures than the
/// budget allows, or it fails as often as the budget allows. Then the run
/// ends in `Done`; it hands out the reports of exactly the stations that
/// are read, in the order of the stations; and it leaves out exactly the
/// others.
pub proof fn lemma_run_reads_every_station(s: NavState, i: nat, fates: Seq<Fate>)
    requires
        s.wf(),
        s.phase is ExtractingTarget || s.phase is Done,
        i + fates.len() == s.targets.len(),
        forall|k: int| 0 <= k < fates.len() ==> (#[trigger] fates[k]).fits(s.max_attempts),
    ensures
        run(s.at_target(i), script(fates)) == (Run {
            state: s.in_phase(Phase::Done).at_target(s.targets.len()),
            reports: harvest(s.targets.skip(i as int), fates),
            skipped: losses(s.targets.skip(i as int), fates),
        }),
    decreases fates.len(),
{
    let here = s.at_target(i);
    let rest_targets = s.targets.skip(i as int);
    if fates.len() == 0 {
        assert(here == s.in_phase(Phase::Done).at_target(s.targets.len()));
    } else {
        let fate = fates[0];
        let later = fates.drop_first();
        assert(fate.fits(s.max_attempts));
        lemma_one_station(here, i, fate);
        assert(here.at_target(i + 1) == s.at_target(i + 1));
        assert forall|k: int| 0 <= k < later.len() implies (#[trigger] later[k]).fits(
            s.max_attempts,
        ) by {
            assert(later[k] == fates[k + 1]);
        }
        lemma_run_reads_every_station(s, i + 1, later);
        lemma_run_in_two(here, fate.events(), script(later));
        assert(rest_targets[0] == s.targets[i as int]);
        assert(rest_targets.drop_first() =~= s.targets.skip(i as int + 1));
    }
}

/// A failure on exactly one station among several does not keep the
/// others from being read: if the station with index `bad` fails as often
/// as the budget allows and every other is read at the first attempt, the
/// run ends in `Done` and has left out that one station and no other.
pub proof fn lemma_one_bad_station(s: NavState, bad: nat, fates: Seq<Fate>)
    requires
        s.wf(),
        s.phase is ExtractingTarget || s.phase is Done,
        fates.len() == s.targets.len(),
        bad < fates.len(),
        forall|k: int| 0 <= k < fates.len() ==> (#[trigger] fates[k]).fits(s.max_attempts),
        forall|k: int| 0 <= k < fates.len() ==> ((#[trigger] fates[k]) is GivenUp <==> k == bad),
    ensures
        run(s.at_target(0), script(fates)).state.phase == Phase::Done,
        run(s.at_target(0), script(fates)).skipped == seq![s.targets[bad as int]],
        run(s.at_target(0), script(fates)).reports.len() == s.targets.len() - 1,
{
    lemma_run_reads_every_station(s, 0, fates);
    assert(s.targets.skip(0) =~= s.targets);
    lemma_losses_of_one(s.targets, fates, bad);
}

proof fn lemma_losses_of_one(targets: Seq<Station>, fates: Seq<Fate>, bad: nat)
    requires
        fates.len() == targets.len(),
        forall|k: int| 0 <= k < fates.len() ==> ((#[trigger] fates[k]) is GivenUp <==> k == bad),
    ensures
        losses(targets, fates) == if bad < fates.len() {
            seq![targets[bad as int]]
        } else {
            Seq::<Station>::empty()
        },
        harvest(targets, fates).len() == if bad < fates.len() {
            fates.len() - 1
        } else {
            fates.len() as int
        },
    decreases fates.len(),
{
    if fates.len() > 0 {
        let later = fates.drop_first();
        let rest = targets.drop_first();
        if bad == 0 {
            assert forall|k: int| 0 <= k < later.len() implies ((#[trigger] later[k])
                is GivenUp <==> k == later.len()) by {
                assert(later[k] == fates[k + 1]);
            }
            lemma_losses_of_one(rest, later, later.len());
            assert(fates[0] is GivenUp);
            assert(losses(targets, fates) =~= seq![targets[0]]);
        } else {
            assert forall|k: int| 0 <= k < later.len() implies ((#[trigger] later[k])
                is GivenUp <==> k == bad - 1) by {
                assert(later[k] == fates[k + 1]);
            }
            lemma_losses_of_one(rest, later, (bad - 1) as nat);
            assert(!(fates[0] is GivenUp));
            if bad < fates.len() {
                assert(rest[bad - 1] == targets[bad as int]);
            }
            assert(losses(targets, fates) =~= losses(rest, later));
        }
    }
}

/// The machine.
#[derive(Debug)]
pub struct Navigator {
    phase: Phase,
    targets: Vec<Station>,
    failures: u32,
    max_attempts: u32,
}

impl View for Navigator {
    type V = NavState;

    closed spec fn view(&self) -> NavState {
        NavState {
            phase: self.phase,
            targets: self.targets@,
            failures: self.failures as nat,
            max_attempts: self.max_attempts as nat,
        }
    }
}

impl Navigator {
    /// A machine at the start of a run, and the first task.
    ///
    /// Every station is tried `max_attempts` times at most; a budget of no
    /// attempts is taken as one.
    pub fn new(max_attempts: u32) -> (r: (Navigator, Task))
        ensures
            r.0@ == NavState::start(max_attempts),
            r.0@.wf(),
            r.1 == Task::Login,
    {
        let max: u32 = if max_attempts == 0 {
            1
        } else {
            max_attempts
        };
        (
            Navigator {
                phase: Phase::Unauthenticated,
                targets: Vec::new(),
                failures: 0,
                max_attempts: max,
            },
            Task::Login,
        )
    }

    /// Where the run stands.
    pub fn phase(&self) -> (r: Phase)
        ensures
            r == self@.phase,
    {
        self.phase
    }

    /// The stations in the order in which they are read.
    pub fn targets(&self) -> (r: &Vec<Station>)
        ensures
            r@ == self@.targets,
    {
        &self.targets
    }

    /// What is to be done in the state the machine is in.
    fn todo(&self) -> (r: Next)
        requires
            self@.wf(),
        ensures
            r == self@.todo(),
    {
        match self.phase {
            Phase::Unauthenticated => Next::Perform(Task::Login),
            Phase::Authenticating => Next::Perform(Task::AwaitDashboard),
            Phase::Authenticated => Next::Perform(Task::OpenFilters),
            Phase::ConfiguringFilters => Next::Perform(Task::ConfigureFilters),
            Phase::EnumeratingTargets => Next::Perform(Task::EnumerateTargets),
            Phase::ExtractingTarget(i) => Next::Perform(Task::Extract(self.targets[i].clone())),
            Phase::Done => Next::Finish,
            Phase::Failed => Next::Refuse,
        }
    }

    /// Turns to the station with index `i`, or ends the run if there is
    /// none.
    fn turn_to(&mut self, i: usize)
        requires
            old(self)@.wf() || old(self)@.phase is EnumeratingTargets,
            old(self)@.max_attempts >= 1,
        ensures
            final(self)@ == old(self)@.at_target(i as nat),
            final(self)@.wf(),
    {
        self.failures = 0;
        if i < self.targets.len() {
            self.phase = Phase::ExtractingTarget(i);
        } else {
            self.phase = Phase::Done;
        }
    }

    /// Takes the event of the task that was asked for last, and says what
    /// it leads to.
    pub fn advance(&mut self, event: Event) -> (step: Step)
        requires
            old(self)@.wf(),
        ensures
            (final(self)@, step) == advanced(old(self)@, event),
            final(self)@.wf(),
    {
        match self.phase {
            Phase::Unauthenticated
            | Phase::Authenticating
            | Phase::Authenticated
            | Phase::ConfiguringFilters => match event {
                Event::Completed => {
                    self.phase = match self.phase {
                        Phase::Unauthenticated => Phase::Authenticating,
                        Phase::Authenticating => Phase::Authenticated,
                        Phase::Authenticated => Phase::ConfiguringFilters,
                        _ => Phase::EnumeratingTargets,
                    };
                    Step { emit: None, skip: None, next: self.todo() }
                },
                Event::Failed(failure) => {
                    self.phase = Phase::Failed;
                    Step { emit: None, skip: None, next: Next::Abort(failure) }
                },
                _ => {
                    self.phase = Phase::Failed;
                    Step { emit: None, skip: None, next: Next::Refuse }
                },
            },
            Phase::EnumeratingTargets => match event {
                Event::Enumerated(found) => {
                    self.targets = sort_by_name(&found);
                    self.turn_to(0);
                    Step { emit: None, skip: None, next: self.todo() }
                },
                Event::Failed(failure) => {
                    self.phase = Phase::Failed;
                    Step { emit: None, skip: None, next: Next::Abort(failure) }
                },
                _ => {
                    self.phase = Phase::Failed;
                    Step { emit: None, skip: None, next: Next::Refuse }
                },
            },
            Phase::ExtractingTarget(i) => {
                assert(i < self.targets.len());
                let station = self.targets[i].clone();
                match event {
                    Event::Extracted(records) => {
                        self.turn_to(i + 1);
                        Step {
                            emit: Some(Report { station, records }),
                            skip: None,
                            next: self.todo(),
                        }
                    },
                    other => {
                        if self.failures + 1 < self.max_attempts {
                            self.failures = self.failures + 1;
                            Step { emit: None, skip: None, next: self.todo() }
                        } else {
                            let failure = match other {
                                Event::Failed(failure) => Some(failure),
                                _ => None,
                            };
                            self.turn_to(i + 1);
                            Step {
                                emit: None,
                                skip: Some(Skip { station, failure }),
                                next: self.todo(),
                            }
                        }
                    },
                }
            },
            Phase::Done => Step { emit: None, skip: None, next: Next::Finish },
            Phase::Failed => Step { emit: None, skip: None, next: Next::Refuse },
        }
    }
}

} // verus!
