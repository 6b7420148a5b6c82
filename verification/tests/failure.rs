use srss::failure::Cause;
use srss::failure::Failure;

#[test]
fn a_failure_without_notes_reads_as_its_cause() {
    assert_eq!(Failure::new(Cause::NotFound).to_string(), "element not found");
    assert_eq!(Failure::new(Cause::Timeout).to_string(), "timed out waiting for element");
}

#[test]
fn notes_are_read_from_the_outermost_inwards() {
    let f = Failure::outside("connection refused".to_string())
        .context("failed to go to report page")
        .context("failed to extract report for station North")
        .context("unable to scrape dashboard");
    assert_eq!(
        f.to_string(),
        "unable to scrape dashboard: failed to extract report for station North: \
         failed to go to report page: connection refused"
    );
}

#[test]
fn a_note_leaves_cause_and_earlier_notes_alone() {
    let f = Failure::new(Cause::LoginFormNotFound).context("first").context("second");
    assert!(matches!(f.cause, Cause::LoginFormNotFound));
    assert_eq!(f.context, vec!["first".to_string(), "second".to_string()]);
}

#[test]
fn every_cause_has_its_words() {
    assert_eq!(Cause::Outside("boom".to_string()).text(), "boom");
    assert_eq!(Cause::NotFound.text(), "element not found");
    assert_eq!(Cause::Timeout.text(), "timed out waiting for element");
    assert_eq!(Cause::LoginFormNotFound.text(), "failed to find login form");
    assert_eq!(
        Cause::RetryExhausted { attempts: 12 }.text(),
        "retry budget exhausted after 12 attempts"
    );
    assert_eq!(
        Cause::MalformedTable { dates: 3, yields: 2 }.text(),
        "malformed report table: found 3 date cells and 2 yield cells"
    );
    assert_eq!(
        Cause::WrongMonth { date: "2021-05-01".to_string(), month: "2021-04".to_string() }.text(),
        "got data for the wrong month: 2021-05-01 in not in 2021-04"
    );
    assert_eq!(Cause::MissingStationLink.text(), "missing link in station name");
    assert_eq!(Cause::MissingStationId.text(), "missing station id in link");
    assert_eq!(Cause::InvalidPattern.text(), "invalid pattern for station links");
    assert_eq!(Cause::DriverVersionNotFound.text(), "webdriver version not found");
    assert_eq!(Cause::BrowserVersionNotFound.text(), "browser version not found");
    assert_eq!(
        Cause::IncompatibleVersions { driver: "114".to_string(), browser: "115".to_string() }
            .text(),
        "incompatible web driver and browser versions: 114 != 115"
    );
}

#[test]
fn a_clone_reads_the_same() {
    let f = Failure::new(Cause::MalformedTable { dates: 10, yields: 0 }).context("a").context("b");
    assert_eq!(f.clone().to_string(), f.to_string());
    assert_eq!(
        f.to_string(),
        "b: a: malformed report table: found 10 date cells and 0 yield cells"
    );
}
