use srss::extraction::records_from_cells;
use srss::failure::Cause;
use srss::failure::Failure;
use srss::model::Record;
use srss::model::Report;
use srss::model::Station;
use srss::navigation::Event;
use srss::navigation::Navigator;
use srss::navigation::Next;
use srss::navigation::Phase;
use srss::navigation::Step;
use srss::navigation::Task;

fn station(id: &str, name: &str) -> Station {
    Station { id: id.to_string(), name: name.to_string() }
}

fn rows(n: usize) -> Vec<Record> {
    (0..n).map(|i| Record { date: format!("2024-01-{:02}", i + 1), pv_yield: None }).collect()
}

fn failed(message: &str) -> Event {
    Event::Failed(Failure::outside(message.to_string()))
}

/// A machine that has listed these stations, and the step that the listing led to.
fn listed(max_attempts: u32, stations: Vec<Station>) -> (Navigator, Step) {
    let (mut nav, first) = Navigator::new(max_attempts);
    assert!(matches!(first, Task::Login));
    for _ in 0..4 {
        nav.advance(Event::Completed);
    }
    assert_eq!(nav.phase(), Phase::EnumeratingTargets);
    let step = nav.advance(Event::Enumerated(stations));
    (nav, step)
}

fn extract_id(step: &Step) -> &str {
    match &step.next {
        Next::Perform(Task::Extract(station)) => station.id.as_str(),
        other => panic!("no extraction asked for: {:?}", other),
    }
}

#[test]
fn the_phases_follow_each_other() {
    let (mut nav, first) = Navigator::new(3);
    assert!(matches!(first, Task::Login));
    assert_eq!(nav.phase(), Phase::Unauthenticated);
    let step = nav.advance(Event::Completed);
    assert_eq!(nav.phase(), Phase::Authenticating);
    assert!(matches!(step.next, Next::Perform(Task::AwaitDashboard)));
    let step = nav.advance(Event::Completed);
    assert_eq!(nav.phase(), Phase::Authenticated);
    assert!(matches!(step.next, Next::Perform(Task::OpenFilters)));
    let step = nav.advance(Event::Completed);
    assert_eq!(nav.phase(), Phase::ConfiguringFilters);
    assert!(matches!(step.next, Next::Perform(Task::ConfigureFilters)));
    let step = nav.advance(Event::Completed);
    assert_eq!(nav.phase(), Phase::EnumeratingTargets);
    assert!(matches!(step.next, Next::Perform(Task::EnumerateTargets)));
    let step = nav.advance(Event::Enumerated(vec![station("1", "a")]));
    assert_eq!(nav.phase(), Phase::ExtractingTarget(0));
    assert_eq!(extract_id(&step), "1");
    let step = nav.advance(Event::Extracted(rows(2)));
    assert_eq!(nav.phase(), Phase::Done);
    assert!(matches!(step.next, Next::Finish));
    assert_eq!(step.emit.unwrap().records.len(), 2);
}

#[test]
fn stations_are_read_in_the_order_of_their_names() {
    let (mut nav, step) =
        listed(3, vec![station("1", "Delta"), station("2", "Alpha"), station("3", "Charlie")]);
    let names: Vec<&str> = nav.targets().iter().map(|s| s.name.as_str()).collect();
    assert_eq!(names, vec!["Alpha", "Charlie", "Delta"]);
    assert_eq!(extract_id(&step), "2");
    let step = nav.advance(Event::Extracted(rows(1)));
    assert_eq!(step.emit.as_ref().unwrap().station.id, "2");
    assert_eq!(extract_id(&step), "3");
    let step = nav.advance(Event::Extracted(rows(1)));
    assert_eq!(step.emit.as_ref().unwrap().station.id, "3");
    assert_eq!(extract_id(&step), "1");
    let step = nav.advance(Event::Extracted(rows(1)));
    assert_eq!(step.emit.as_ref().unwrap().station.id, "1");
    assert!(matches!(step.next, Next::Finish));
    assert_eq!(nav.phase(), Phase::Done);
}

#[test]
fn a_missing_login_form_aborts_the_run_with_nothing_out() {
    let (mut nav, first) = Navigator::new(3);
    let event = first.failed(Failure::new(Cause::LoginFormNotFound).context("username input"));
    let step = nav.advance(event);
    assert_eq!(nav.phase(), Phase::Failed);
    assert!(step.emit.is_none());
    assert!(step.skip.is_none());
    match step.next {
        Next::Abort(failure) => {
            assert!(matches!(failure.cause, Cause::LoginFormNotFound));
            assert_eq!(
                failure.to_string(),
                "unable to login: username input: failed to find login form"
            );
        }
        other => panic!("the run went on: {:?}", other),
    }
    // Nothing revives a run that was given up.
    let step = nav.advance(Event::Extracted(rows(1)));
    assert_eq!(nav.phase(), Phase::Failed);
    assert!(step.emit.is_none());
    assert!(matches!(step.next, Next::Refuse));
    assert!(nav.targets().is_empty());
}

#[test]
fn a_failure_in_any_phase_before_the_listing_aborts_the_run() {
    for completed in 0..5 {
        let (mut nav, _) = Navigator::new(3);
        for _ in 0..completed {
            nav.advance(Event::Completed);
        }
        let step = nav.advance(failed("no answer"));
        assert_eq!(nav.phase(), Phase::Failed, "after {} phases", completed);
        assert!(step.emit.is_none());
        assert!(matches!(step.next, Next::Abort(_)));
    }
}

#[test]
fn an_event_out_of_turn_before_the_listing_ends_the_run() {
    let (mut nav, _) = Navigator::new(3);
    let step = nav.advance(Event::Extracted(rows(1)));
    assert_eq!(nav.phase(), Phase::Failed);
    assert!(step.emit.is_none());
    assert!(matches!(step.next, Next::Refuse));

    let (mut nav, _) = Navigator::new(3);
    for _ in 0..4 {
        nav.advance(Event::Completed);
    }
    let step = nav.advance(Event::Completed);
    assert_eq!(nav.phase(), Phase::Failed);
    assert!(matches!(step.next, Next::Refuse));
}

#[test]
fn no_stations_end_the_run_at_once() {
    let (nav, step) = listed(3, vec![]);
    assert_eq!(nav.phase(), Phase::Done);
    assert!(matches!(step.next, Next::Finish));
    assert!(step.emit.is_none());
}

#[test]
fn a_failing_station_is_tried_again_and_then_left_out() {
    let (mut nav, step) = listed(3, vec![station("1", "a"), station("2", "b")]);
    assert_eq!(extract_id(&step), "1");
    let step = nav.advance(failed("first"));
    assert_eq!(nav.phase(), Phase::ExtractingTarget(0));
    assert_eq!(extract_id(&step), "1");
    assert!(step.skip.is_none());
    let step = nav.advance(failed("second"));
    assert_eq!(nav.phase(), Phase::ExtractingTarget(0));
    assert_eq!(extract_id(&step), "1");
    let step = nav.advance(failed("third"));
    assert_eq!(nav.phase(), Phase::ExtractingTarget(1));
    assert_eq!(extract_id(&step), "2");
    assert!(step.emit.is_none());
    let skip = step.skip.unwrap();
    assert_eq!(skip.station.id, "1");
    assert_eq!(skip.failure.unwrap().to_string(), "third");
}

#[test]
fn a_station_that_is_read_after_failures_is_handed_out() {
    let (mut nav, _) = listed(3, vec![station("1", "a"), station("2", "b")]);
    nav.advance(failed("first"));
    nav.advance(failed("second"));
    let step = nav.advance(Event::Extracted(rows(4)));
    let report = step.emit.unwrap();
    assert_eq!(report.station.id, "1");
    assert_eq!(report.records, rows(4));
    assert!(step.skip.is_none());
    // The next station has its whole budget again.
    nav.advance(failed("first"));
    let step = nav.advance(failed("second"));
    assert_eq!(nav.phase(), Phase::ExtractingTarget(1));
    assert!(step.skip.is_none());
    let step = nav.advance(failed("third"));
    assert_eq!(nav.phase(), Phase::Done);
    assert_eq!(step.skip.unwrap().station.id, "2");
    assert!(matches!(step.next, Next::Finish));
}

/// Runs the stations through the machine; `bad` fails at every attempt.
fn run_with_one_bad(stations: Vec<Station>, bad: &str, max_attempts: u32) -> (Phase, Vec<Report>, Vec<String>, u32) {
    let (mut nav, mut step) = listed(max_attempts, stations);
    let mut reports = Vec::new();
    let mut skipped = Vec::new();
    let mut attempts_on_bad = 0;
    loop {
        let event = match &step.next {
            Next::Perform(Task::Extract(station)) if station.id == bad => {
                attempts_on_bad += 1;
                failed("the page did not load")
            }
            Next::Perform(Task::Extract(_)) => Event::Extracted(rows(3)),
            _ => break,
        };
        step = nav.advance(event);
        if let Some(report) = step.emit.take() {
            reports.push(report);
        }
        if let Some(skip) = step.skip.take() {
            skipped.push(skip.station.id);
        }
    }
    (nav.phase(), reports, skipped, attempts_on_bad)
}

#[test]
fn one_failing_station_does_not_keep_the_others_out() {
    let stations = vec![station("1", "a"), station("2", "b"), station("3", "c"), station("4", "d")];
    for bad in ["1", "2", "3", "4"] {
        let (phase, reports, skipped, attempts) = run_with_one_bad(stations.clone(), bad, 4);
        assert_eq!(phase, Phase::Done);
        assert_eq!(skipped, vec![bad.to_string()]);
        assert_eq!(attempts, 4);
        let read: Vec<&str> = reports.iter().map(|r| r.station.id.as_str()).collect();
        let expected: Vec<&str> =
            ["1", "2", "3", "4"].iter().copied().filter(|id| *id != bad).collect();
        assert_eq!(read, expected);
        assert!(reports.iter().all(|r| r.records == rows(3)));
    }
}

#[test]
fn a_budget_of_nothing_is_taken_as_one_attempt() {
    let stations = vec![station("1", "a"), station("2", "b")];
    let (phase, reports, skipped, attempts) = run_with_one_bad(stations, "1", 0);
    assert_eq!(phase, Phase::Done);
    assert_eq!(attempts, 1);
    assert_eq!(skipped, vec!["1".to_string()]);
    assert_eq!(reports.len(), 1);
}

#[test]
fn a_malformed_table_skips_its_station_and_no_other() {
    let (mut nav, step) = listed(1, vec![station("1", "first"), station("2", "second")]);
    let dates = |n: usize| (0..n).map(|i| format!("2024-01-{:02}", i + 1)).collect::<Vec<_>>();
    let yields = |n: usize| (0..n).map(|i| Some(i.to_string())).collect::<Vec<_>>();

    let task = match step.next {
        Next::Perform(task) => task,
        other => panic!("{:?}", other),
    };
    let event = match records_from_cells(dates(3), yields(2), None) {
        Ok(records) => Event::Extracted(records),
        Err(failure) => task.failed(failure),
    };
    let step = nav.advance(event);
    assert!(step.emit.is_none());
    let skip = step.skip.unwrap();
    assert_eq!(skip.station.id, "1");
    let failure = skip.failure.unwrap();
    assert!(matches!(failure.cause, Cause::MalformedTable { dates: 3, yields: 2 }));
    assert_eq!(
        failure.to_string(),
        "failed to extract report for station first: \
         malformed report table: found 3 date cells and 2 yield cells"
    );

    let event = match records_from_cells(dates(3), yields(3), None) {
        Ok(records) => Event::Extracted(records),
        Err(failure) => Event::Failed(failure),
    };
    let step = nav.advance(event);
    let report = step.emit.unwrap();
    assert_eq!(report.station.id, "2");
    assert_eq!(report.records.len(), 3);
    assert_eq!(report.records[2].to_csv(), "2024-01-03; 2");
    assert!(matches!(step.next, Next::Finish));
    assert_eq!(nav.phase(), Phase::Done);
}

#[test]
fn an_event_out_of_turn_while_reading_counts_as_a_failed_attempt() {
    let (mut nav, _) = listed(2, vec![station("1", "a")]);
    let step = nav.advance(Event::Completed);
    assert_eq!(nav.phase(), Phase::ExtractingTarget(0));
    assert!(step.skip.is_none());
    let step = nav.advance(Event::Enumerated(vec![]));
    assert_eq!(nav.phase(), Phase::Done);
    let skip = step.skip.unwrap();
    assert_eq!(skip.station.id, "1");
    assert!(skip.failure.is_none());
}

#[test]
fn a_finished_run_stays_finished() {
    let (mut nav, _) = listed(2, vec![]);
    let step = nav.advance(failed("late"));
    assert_eq!(nav.phase(), Phase::Done);
    assert!(matches!(step.next, Next::Finish));
    assert!(step.emit.is_none());
}

#[test]
fn every_task_has_its_note() {
    assert_eq!(Task::Login.note(), "unable to login");
    assert_eq!(Task::AwaitDashboard.note(), "unable to reach dashboard");
    assert_eq!(Task::OpenFilters.note(), "failed to find control bar");
    assert_eq!(Task::ConfigureFilters.note(), "unable to configure report filters");
    assert_eq!(Task::EnumerateTargets.note(), "unable to list power stations");
    assert_eq!(
        Task::Extract(station("7", "North")).note(),
        "failed to extract report for station North"
    );
}
