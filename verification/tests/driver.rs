use srss::driver::assert_driver_compatible;
use srss::driver::check_versions;
use srss::driver::driver_arguments;
use srss::driver::major_version;
use srss::driver::previous_driver_gone;
use srss::driver::session_url;
use srss::failure::Cause;

#[test]
fn the_major_version_is_the_first_run_of_digits() {
    assert_eq!(
        major_version("ChromeDriver 114.0.5735.90 (386bc09e8f4f)").as_deref(),
        Some("114")
    );
    assert_eq!(major_version("    Version    REG_SZ    115.0.5790.110").as_deref(), Some("115"));
    assert_eq!(major_version("7").as_deref(), Some("7"));
    assert_eq!(major_version("no numbers here"), None);
    assert_eq!(major_version(""), None);
}

#[test]
fn the_same_major_version_fits() {
    assert!(assert_driver_compatible(
        b"ChromeDriver 114.0.1 (abc)\n",
        b"\r\nHKEY_CURRENT_USER\\Software\\Google\\Chrome\\BLBeacon\r\n    Version    REG_SZ    114.0.5735.199\r\n"
    )
    .is_ok());
}

#[test]
fn different_major_versions_do_not_fit() {
    let failure =
        assert_driver_compatible(b"ChromeDriver 114.0.1", b"Version 115.2").unwrap_err();
    match &failure.cause {
        Cause::IncompatibleVersions { driver, browser } => {
            assert_eq!(driver, "114");
            assert_eq!(browser, "115");
        }
        other => panic!("{:?}", other),
    }
    assert_eq!(
        failure.to_string(),
        "incompatible web driver and browser versions: 114 != 115"
    );
}

#[test]
fn a_driver_without_version_is_named_first() {
    let failure = assert_driver_compatible(b"not found", b"also nothing").unwrap_err();
    assert!(matches!(failure.cause, Cause::DriverVersionNotFound));
    assert_eq!(failure.to_string(), "webdriver version not found");
}

#[test]
fn a_browser_without_version_is_named() {
    let failure = assert_driver_compatible(b"ChromeDriver 114", b"").unwrap_err();
    assert!(matches!(failure.cause, Cause::BrowserVersionNotFound));
    assert_eq!(failure.to_string(), "browser version not found");
}

#[test]
fn bytes_that_are_no_text_do_not_hide_the_version() {
    assert!(assert_driver_compatible(b"\xff\xfeChromeDriver 99.1", b"\xc3(99").is_ok());
}

#[test]
fn versions_are_compared_as_texts() {
    assert!(check_versions(Some("114".to_string()), Some("114".to_string())).is_ok());
    assert!(matches!(
        check_versions(Some("114".to_string()), Some("0114".to_string())).unwrap_err().cause,
        Cause::IncompatibleVersions { .. }
    ));
    assert!(matches!(
        check_versions(None, None).unwrap_err().cause,
        Cause::DriverVersionNotFound
    ));
    assert!(matches!(
        check_versions(Some("1".to_string()), None).unwrap_err().cause,
        Cause::BrowserVersionNotFound
    ));
}

#[test]
fn an_earlier_driver_is_gone_after_exit_code_0_or_128() {
    assert!(previous_driver_gone(Some(0)));
    assert!(previous_driver_gone(Some(128)));
    assert!(!previous_driver_gone(Some(1)));
    assert!(!previous_driver_gone(Some(-1)));
    assert!(!previous_driver_gone(None));
}

#[test]
fn the_driver_is_started_with_port_and_base() {
    assert_eq!(driver_arguments(4444), vec!["--port=4444", "--url-base", "srss"]);
    assert_eq!(driver_arguments(0)[0], "--port=0");
    assert_eq!(driver_arguments(65535)[0], "--port=65535");
}

#[test]
fn sessions_are_taken_at_the_port_under_the_base() {
    assert_eq!(session_url(4444), "http://localhost:4444/srss");
    assert_eq!(session_url(80), "http://localhost:80/srss");
}
