use std::collections::HashSet;

use srss::cli::ExportFormat;
use srss::model::Record;
use srss::model::Report;
use srss::model::Station;

fn station(id: &str, name: &str) -> Station {
    Station { id: id.to_string(), name: name.to_string() }
}

fn record(date: &str, pv_yield: Option<f64>) -> Record {
    Record { date: date.to_string(), pv_yield: pv_yield.map(|v| v.to_string()) }
}

#[test]
fn stations_with_one_id_are_equal_whatever_their_names() {
    assert_eq!(station("7", "North"), station("7", "South"));
    assert!(station("7", "North") == station("7", "North"));
}

#[test]
fn stations_with_one_name_and_two_ids_differ() {
    assert_ne!(station("7", "North"), station("8", "North"));
}

#[test]
fn stations_hash_by_id_alone() {
    let mut seen = HashSet::new();
    assert!(seen.insert(station("7", "North")));
    assert!(!seen.insert(station("7", "South")));
    assert!(seen.insert(station("8", "North")));
    assert_eq!(seen.len(), 2);
}

#[test]
fn a_station_is_shown_by_its_name() {
    assert_eq!(station("7", "North").to_string(), "North");
}

#[test]
fn a_station_clone_keeps_id_and_name() {
    let s = station("7", "North");
    let c = s.clone();
    assert_eq!(c.id, "7");
    assert_eq!(c.name, "North");
}

#[test]
fn a_yield_is_written_as_its_numeral() {
    let r = record("2024-01-01", Some(12.5));
    assert_eq!(r.to_value(), "12.5");
    assert_eq!(r.to_csv(), "2024-01-01; 12.5");
    assert_eq!(r.to_string(), "[2024-01-01]: 12.5");
}

#[test]
fn a_missing_yield_is_written_as_zero() {
    let r = record("2024-01-02", None);
    assert_eq!(r.to_value(), "0");
    assert_eq!(r.to_csv(), "2024-01-02; 0");
    assert_eq!(r.to_string(), "[2024-01-02]: 0");
}

#[test]
fn a_missing_yield_is_not_a_yield_of_zero() {
    assert_ne!(record("2024-01-02", None), record("2024-01-02", Some(0.0)));
    assert_eq!(record("2024-01-02", Some(0.0)).to_value(), "0");
}

#[test]
fn a_report_renders_the_missing_yield_as_zero_in_every_form() {
    let report = Report {
        station: station("7", "North"),
        records: vec![record("2024-01-01", Some(12.5)), record("2024-01-02", None)],
    };
    assert_eq!(ExportFormat::Values.render(&report.records), "12.5\n0\n");
    assert_eq!(
        ExportFormat::Log.render(&report.records),
        "[2024-01-01]: 12.5\n[2024-01-02]: 0\n"
    );
    assert_eq!(ExportFormat::Csv.render(&report.records), "2024-01-01; 12.5\n2024-01-02; 0\n");
}

#[test]
fn a_single_line_ends_with_a_line_feed() {
    let r = record("2024-01-01", Some(3.0));
    assert_eq!(ExportFormat::Values.line(&r), "3\n");
    assert_eq!(ExportFormat::Log.line(&r), "[2024-01-01]: 3\n");
    assert_eq!(ExportFormat::Csv.line(&r), "2024-01-01; 3\n");
}

#[test]
fn no_records_render_as_nothing() {
    assert_eq!(ExportFormat::Csv.render(&Vec::new()), "");
}

#[test]
fn each_form_has_its_extension() {
    assert_eq!(ExportFormat::Values.extension(), "txt");
    assert_eq!(ExportFormat::Log.extension(), "log");
    assert_eq!(ExportFormat::Csv.extension(), "csv");
}

#[test]
fn a_report_clone_keeps_the_rows_in_order() {
    let report = Report {
        station: station("7", "North"),
        records: vec![record("b", Some(1.0)), record("a", None), record("c", Some(2.0))],
    };
    let copy = report.clone();
    assert_eq!(copy, report);
    assert_eq!(copy.station.name, "North");
    assert_eq!(copy.records[0].date, "b");
    assert_eq!(copy.records[1].date, "a");
    assert_eq!(copy.records[2].date, "c");
}
