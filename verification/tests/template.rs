use srss::extraction::NavigationConfig;
use srss::model::Station;
use srss::template::split_template;

fn parts(template: &str) -> Option<(String, String)> {
    split_template(template)
}

fn pair(before: &str, after: &str) -> Option<(String, String)> {
    Some((before.to_string(), after.to_string()))
}

#[test]
fn a_template_is_split_at_its_mark() {
    assert_eq!(parts("https://x.test/report/{}/table"), pair("https://x.test/report/", "/table"));
}

#[test]
fn the_mark_may_stand_at_either_end() {
    assert_eq!(parts("{}"), pair("", ""));
    assert_eq!(parts("{}/after"), pair("", "/after"));
    assert_eq!(parts("before/{}"), pair("before/", ""));
}

#[test]
fn the_first_mark_counts() {
    assert_eq!(parts("a{}b{}c"), pair("a", "b{}c"));
    assert_eq!(parts("{{}}"), pair("{", "}"));
    assert_eq!(parts("}{}{"), pair("}", "{"));
}

#[test]
fn a_template_without_mark_is_none() {
    assert_eq!(parts(""), None);
    assert_eq!(parts("{"), None);
    assert_eq!(parts("}"), None);
    assert_eq!(parts("}{"), None);
    assert_eq!(parts("{ }"), None);
    assert_eq!(parts("https://x.test/report"), None);
}

#[test]
fn characters_of_several_bytes_stay_whole() {
    assert_eq!(parts("\u{e9}t\u{e9}/{}/\u{4e2d}\u{6587}"), pair("\u{e9}t\u{e9}/", "/\u{4e2d}\u{6587}"));
    assert_eq!(parts("\u{1f31e}{}\u{1f31e}"), pair("\u{1f31e}", "\u{1f31e}"));
    assert_eq!(parts("\u{1f31e}\u{e9}"), None);
}

#[test]
fn the_configuration_fills_the_id_in_where_the_mark_stood() {
    let config = NavigationConfig::from_template(
        "https://x.test/login".to_string(),
        "https://x.test/report?station={}&view=table",
        "station=(?<id>[0-9]+)".to_string(),
    )
    .unwrap();
    assert_eq!(config.login_page, "https://x.test/login");
    assert_eq!(config.station_link, "station=(?<id>[0-9]+)");
    assert_eq!(config.report_page_before_id, "https://x.test/report?station=");
    assert_eq!(config.report_page_after_id, "&view=table");
    let station = Station { id: "4711".to_string(), name: "North".to_string() };
    assert_eq!(config.report_url(&station), "https://x.test/report?station=4711&view=table");
}

#[test]
fn a_report_page_without_mark_makes_no_configuration() {
    assert!(NavigationConfig::from_template(
        "https://x.test/login".to_string(),
        "https://x.test/report",
        "x".to_string()
    )
    .is_none());
}
