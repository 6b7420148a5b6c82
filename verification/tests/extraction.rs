use srss::extraction::busy_container;
use srss::extraction::records_from_cells;
use srss::extraction::table_is_busy;
use srss::extraction::NavigationConfig;
use srss::failure::Cause;
use srss::model::Record;
use srss::model::Station;
use srss::region::Locator;
use srss::region::Resolution;

fn texts(cells: &[&str]) -> Vec<String> {
    cells.iter().map(|c| c.to_string()).collect()
}

/// What the scraper makes of a yield cell: the number it holds, written anew, or nothing.
fn yields(cells: &[&str]) -> Vec<Option<String>> {
    cells.iter().map(|c| c.parse::<f64>().ok().map(|v| v.to_string())).collect()
}

#[test]
fn rows_become_records_in_their_order() {
    let records = records_from_cells(
        texts(&["2024-01-03", "2024-01-01", "2024-01-02"]),
        yields(&["7.25", "", "1e2"]),
        None,
    )
    .unwrap();
    assert_eq!(
        records,
        vec![
            Record { date: "2024-01-03".to_string(), pv_yield: Some("7.25".to_string()) },
            Record { date: "2024-01-01".to_string(), pv_yield: None },
            Record { date: "2024-01-02".to_string(), pv_yield: Some("100".to_string()) },
        ]
    );
}

#[test]
fn an_empty_table_gives_no_records() {
    assert!(records_from_cells(vec![], vec![], None).unwrap().is_empty());
    assert!(records_from_cells(vec![], vec![], Some("2024-01")).unwrap().is_empty());
}

#[test]
fn three_dates_and_two_yields_are_a_malformed_table() {
    let failure =
        records_from_cells(texts(&["a", "b", "c"]), yields(&["1", "2"]), None).unwrap_err();
    assert!(matches!(failure.cause, Cause::MalformedTable { dates: 3, yields: 2 }));
    assert!(failure.context.is_empty());
    assert_eq!(
        failure.to_string(),
        "malformed report table: found 3 date cells and 2 yield cells"
    );
}

#[test]
fn more_yields_than_dates_are_a_malformed_table_too() {
    let failure = records_from_cells(texts(&[]), yields(&["1"]), Some("x")).unwrap_err();
    assert!(matches!(failure.cause, Cause::MalformedTable { dates: 0, yields: 1 }));
}

#[test]
fn every_date_must_lie_in_the_month_asked_for() {
    let records = records_from_cells(
        texts(&["2021-04-01", "2021-04-30"]),
        yields(&["1", "2"]),
        Some("2021-04"),
    )
    .unwrap();
    assert_eq!(records.len(), 2);
}

#[test]
fn the_first_date_of_another_month_fails_the_table() {
    let failure = records_from_cells(
        texts(&["2021-04-01", "2021-05-01", "2021-06-01"]),
        yields(&["1", "2", "3"]),
        Some("2021-04"),
    )
    .unwrap_err();
    match &failure.cause {
        Cause::WrongMonth { date, month } => {
            assert_eq!(date, "2021-05-01");
            assert_eq!(month, "2021-04");
        }
        other => panic!("{:?}", other),
    }
    assert_eq!(
        failure.to_string(),
        "got data for the wrong month: 2021-05-01 in not in 2021-04"
    );
}

#[test]
fn a_malformed_table_is_reported_before_a_wrong_month() {
    let failure =
        records_from_cells(texts(&["2021-05-01"]), yields(&[]), Some("2021-04")).unwrap_err();
    assert!(matches!(failure.cause, Cause::MalformedTable { dates: 1, yields: 0 }));
}

#[test]
fn the_report_page_is_addressed_by_the_station_id() {
    let config = NavigationConfig {
        login_page: "https://example.test/login".to_string(),
        report_page_before_id: "https://example.test/report?station=".to_string(),
        report_page_after_id: "&view=table".to_string(),
        station_link: "station=(?<id>[0-9]+)".to_string(),
    };
    let station = Station { id: "4711".to_string(), name: "North".to_string() };
    assert_eq!(config.report_url(&station), "https://example.test/report?station=4711&view=table");
}

#[test]
fn the_table_is_busy_while_its_wrapper_is_blurred() {
    assert!(table_is_busy(Some("ant-spin-container ant-spin-blur")));
    assert!(table_is_busy(Some("ant-spin-blur")));
    assert!(!table_is_busy(Some("ant-spin-container")));
    assert!(!table_is_busy(Some("")));
    assert!(!table_is_busy(None));
}

#[test]
fn the_wrapper_is_found_by_its_class() {
    let part = busy_container();
    assert_eq!(part.locator, Locator::ClassName("ant-spin-container"));
    assert_eq!(part.resolution, Resolution::Present);
}
