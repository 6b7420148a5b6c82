use srss::failure::Cause;
use srss::listing::is_last_page;
use srss::listing::station_from_link;
use srss::listing::station_of;
use srss::listing::Listing;
use srss::listing::Paging;
use srss::listing::StationLink;

const PATTERN: &str = r"/station/(?<id>[A-Z]+-\d+)/";

fn link(name: &str, href: Option<&str>) -> StationLink {
    StationLink { name: name.to_string(), href: href.map(|h| h.to_string()) }
}

#[test]
fn the_id_is_what_the_pattern_finds_in_the_address() {
    let station =
        station_of(PATTERN, link("North", Some("https://x.test/station/NE-4711/view"))).unwrap();
    assert_eq!(station.id, "NE-4711");
    assert_eq!(station.name, "North");
}

#[test]
fn the_leftmost_match_gives_the_id() {
    let station =
        station_of(PATTERN, link("n", Some("/station/A-1/x/station/B-2/"))).unwrap();
    assert_eq!(station.id, "A-1");
}

#[test]
fn a_link_without_address_gives_no_station() {
    let failure = station_of(PATTERN, link("North", None)).unwrap_err();
    assert!(matches!(failure.cause, Cause::MissingStationLink));
    assert_eq!(failure.to_string(), "missing link in station name");
}

#[test]
fn an_address_without_id_gives_no_station() {
    let failure = station_of(PATTERN, link("North", Some("https://x.test/about"))).unwrap_err();
    assert!(matches!(failure.cause, Cause::MissingStationId));
    assert_eq!(failure.to_string(), "missing station id in link");
}

#[test]
fn a_pattern_without_the_group_finds_no_id() {
    let failure = station_of(r"/station/([A-Z]+-\d+)/", link("n", Some("/station/NE-1/")))
        .unwrap_err();
    assert!(matches!(failure.cause, Cause::MissingStationId));
}

#[test]
fn a_pattern_that_is_none_gives_no_station() {
    let failure = station_of(r"(?<id>", link("North", Some("x"))).unwrap_err();
    assert!(matches!(failure.cause, Cause::InvalidPattern));
}

#[test]
fn a_station_is_made_of_what_was_found() {
    let station =
        station_from_link("n".to_string(), Some("h".to_string()), Some(Some("42".to_string())))
            .unwrap();
    assert_eq!((station.id.as_str(), station.name.as_str()), ("42", "n"));
    assert!(matches!(
        station_from_link("n".to_string(), None, Some(Some("42".to_string()))).unwrap_err().cause,
        Cause::MissingStationLink
    ));
    assert!(matches!(
        station_from_link("n".to_string(), Some("h".to_string()), Some(None)).unwrap_err().cause,
        Cause::MissingStationId
    ));
    assert!(matches!(
        station_from_link("n".to_string(), Some("h".to_string()), None).unwrap_err().cause,
        Cause::InvalidPattern
    ));
}

#[test]
fn the_last_page_has_a_disabled_control() {
    assert!(is_last_page(Some("ant-pagination-next ant-pagination-disabled")));
    assert!(!is_last_page(Some("ant-pagination-next")));
    assert!(!is_last_page(None));
}

#[test]
fn pages_add_up_until_the_last() {
    let mut listing = Listing::new();
    let first = vec![link("a", Some("/station/A-1/")), link("b", Some("/station/B-2/"))];
    assert_eq!(
        listing.add_page(PATTERN, &first, Some("ant-pagination-next")).unwrap(),
        Paging::NextPage
    );
    let second = vec![link("c", Some("/station/C-3/"))];
    assert_eq!(
        listing
            .add_page(PATTERN, &second, Some("ant-pagination-next ant-pagination-disabled"))
            .unwrap(),
        Paging::Complete
    );
    let ids: Vec<&str> = listing.stations.iter().map(|s| s.id.as_str()).collect();
    assert_eq!(ids, vec!["A-1", "B-2", "C-3"]);
    let names: Vec<&str> = listing.stations.iter().map(|s| s.name.as_str()).collect();
    assert_eq!(names, vec!["a", "b", "c"]);
}

#[test]
fn a_bad_link_fails_its_page_after_the_links_before_it() {
    let mut listing = Listing::new();
    let page = vec![
        link("a", Some("/station/A-1/")),
        link("b", Some("/nothing/")),
        link("c", None),
        link("d", Some("/station/D-4/")),
    ];
    let failure = listing.add_page(PATTERN, &page, None).unwrap_err();
    assert!(matches!(failure.cause, Cause::MissingStationId));
    assert_eq!(listing.stations.len(), 1);
    assert_eq!(listing.stations[0].id, "A-1");
}

#[test]
fn an_empty_page_adds_nothing() {
    let mut listing = Listing::new();
    assert_eq!(listing.add_page(PATTERN, &vec![], None).unwrap(), Paging::NextPage);
    assert!(listing.stations.is_empty());
}
