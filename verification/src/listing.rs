//! Listing the stations from the dashboard's paged table of stations.
//!
//! Every row shows a station's name as a link, and the link holds the
//! station's id. The table is read page by page until the control that
//! leads to the next page is disabled.

use crate::failure::Cause;
use crate::failure::CauseView;
use crate::failure::Failure;
use crate::failure::FailureView;
use crate::model::Station;
use crate::model::StationView;
use crate::pattern::find_named;
use crate::pattern::named_capture;
use crate::text::contains;
use crate::text::text_contains;
use vstd::prelude::*;

verus! {

/// The links that show the stations' names.
pub const STATION_LINKS: &'static str = "// tr / td[3] // a";

/// The class of the control that leads to the next page.
pub const NEXT_PAGE: &'static str = "ant-pagination-next";

/// The class that the control carries when there is no next page, as a
/// part of its class attribute.
pub const NEXT_PAGE_DISABLED: &'static str = "ant-pagination-disabled";

/// The name of the group that holds the id in the pattern for links.
pub const ID_GROUP: &'static str = "id";

/// What was read of one link: its text and where it leads.
#[derive(Debug)]
pub struct StationLink {
    pub name: String,
    pub href: Option<String>,
}

/// What comes of a link once its address was searched for the id.
///
/// `found` is what the search gave: nothing at all for a pattern that is
/// none, else the id if the address holds one.
pub open spec fn link_station(
    name: Seq<char>,
    href: Option<Seq<char>>,
    found: Option<Option<Seq<char>>>,
) -> Result<StationView, CauseView> {
    match href {
        None => Err(CauseView::MissingStationLink),
        Some(_) => match found {
            None => Err(CauseView::InvalidPattern),
            Some(None) => Err(CauseView::MissingStationId),
            Some(Some(id)) => Ok(StationView { id, name }),
        },
    }
}

/// What the pattern finds as the id in an address.
pub open spec fn id_in(pattern: Seq<char>, href: Option<Seq<char>>) -> Option<Option<Seq<char>>> {
    match href {
        Some(href) => named_capture(pattern, href, ID_GROUP@),
        None => None,
    }
}

/// The view of an address that may be missing.
pub open spec fn href_view(href: Option<String>) -> Option<Seq<char>> {
    match href {
        Some(href) => Some(href@),
        None => None,
    }
}

/// Whether `r` is what `expected` says, with no note on a failure.
pub open spec fn is_station(r: Result<Station, Failure>, expected: Result<StationView, CauseView>) -> bool {
    match expected {
        Ok(station) => r is Ok && r->Ok_0@ == station,
        Err(cause) => r is Err && r->Err_0@ == (FailureView { cause, context: Seq::empty() }),
    }
}

/// Makes a station of a link's text and of the id that was found in its
/// address.
///
/// The text is the station's name. A link without an address gives no
/// station, nor does one in whose address no id was found.
pub fn station_from_link(name: String, href: Option<String>, found: Option<Option<String>>) -> (r:
    Result<Station, Failure>)
    ensures
        is_station(r, link_station(name@, href_view(href), crate::pattern::found_view(found))),
{
    match href {
        None => Err(Failure::new(Cause::MissingStationLink)),
        Some(_) => match found {
            None => Err(Failure::new(Cause::InvalidPattern)),
            Some(None) => Err(Failure::new(Cause::MissingStationId)),
            Some(Some(id)) => Ok(Station { id, name }),
        },
    }
}

/// Makes a station of a link: its name is the link's text and its id is
/// what `pattern` finds in the link's address as the group `id`.
pub fn station_of(pattern: &str, link: StationLink) -> (r: Result<Station, Failure>)
    ensures
        is_station(
            r,
            link_station(link.name@, href_view(link.href), id_in(pattern@, href_view(link.href))),
        ),
{
    let found = match &link.href {
        Some(href) => find_named(pattern, href.as_str(), ID_GROUP),
        None => None,
    };
    station_from_link(link.name, link.href, found)
}

/// Whether the page that was read is the last, by the class attribute of
/// the control that leads to the next page. No class attribute means that
/// there is a next page.
pub fn is_last_page(next_class: Option<&str>) -> (r: bool)
    ensures
        r == match next_class {
            Some(class) => text_contains(class@, NEXT_PAGE_DISABLED@),
            None => false,
        },
{
    match next_class {
        Some(class) => contains(class, NEXT_PAGE_DISABLED),
        None => false,
    }
}

/// What to do after a page.
#[derive(Clone, Copy, Debug, PartialEq, Eq, Structural)]
pub enum Paging {
    /// Go to the next page and read it.
    NextPage,
    /// That was the last page.
    Complete,
}

/// The views of stations, in the same order.
pub open spec fn station_views(stations: Seq<Station>) -> Seq<StationView> {
    stations.map_values(|s: Station| s@)
}

/// What a link comes to under a pattern.
pub open spec fn link_result(pattern: Seq<char>, link: StationLink) -> Result<
    StationView,
    CauseView,
> {
    link_station(link.name@, href_view(link.href), id_in(pattern, href_view(link.href)))
}

/// The index of the first link from `from` on that gives no station, if
/// there is one.
pub open spec fn first_bad_link(pattern: Seq<char>, links: Seq<StationLink>, from: int) -> Option<
    int,
>
    decreases links.len() - from,
{
    if from < 0 || from >= links.len() {
        None
    } else if link_result(pattern, links[from]) is Err {
        Some(from)
    } else {
        first_bad_link(pattern, links, from + 1)
    }
}

/// The stations of the first `n` links, in the order of the links.
pub open spec fn stations_of(pattern: Seq<char>, links: Seq<StationLink>, n: int) -> Seq<
    StationView,
> {
    Seq::new(n as nat, |k: int| link_result(pattern, links[k])->Ok_0)
}

/// The stations found so far.
#[derive(Debug)]
pub struct Listing {
    pub stations: Vec<Station>,
}

impl Listing {
    /// A listing that has read no page.
    pub fn new() -> (r: Self)
        ensures
            r.stations@.len() == 0,
    {
        Listing { stations: Vec::new() }
    }

    /// Takes the links of one page, in the order of its rows.
    ///
    /// If every link gives a station, the stations are added behind those
    /// of the pages before, and the result says whether to go on: to the
    /// next page unless this was the last. If a link gives none, the result
    /// is the failure of the first such link, without a note, and the
    /// stations of the links before it have been added.
    pub fn add_page(&mut self, pattern: &str, links: &Vec<StationLink>, next_class: Option<&str>) -> (r:
        Result<Paging, Failure>)
        ensures
            match first_bad_link(pattern@, links@, 0) {
                None => {
                    &&& r == Ok::<Paging, Failure>(
                        if (match next_class {
                            Some(class) => text_contains(class@, NEXT_PAGE_DISABLED@),
                            None => false,
                        }) {
                            Paging::Complete
                        } else {
                            Paging::NextPage
                        },
                    )
                    &&& station_views(final(self).stations@) == station_views(old(self).stations@)
                        + stations_of(pattern@, links@, links@.len() as int)
                },
                Some(bad) => {
                    &&& r is Err
                    &&& Err::<StationView, CauseView>(r->Err_0@.cause) == link_result(
                        pattern@,
                        links@[bad],
                    )
                    &&& r->Err_0@.context.len() == 0
                    &&& station_views(final(self).stations@) == station_views(old(self).stations@)
                        + stations_of(pattern@, links@, bad)
                },
            },
    {
        let mut i: usize = 0;
        proof {
            assert(station_views(self.stations@) =~= station_views(old(self).stations@)
                + stations_of(pattern@, links@, 0));
        }
        while i < links.len()
            invariant
                i <= links.len(),
                first_bad_link(pattern@, links@, 0) == first_bad_link(pattern@, links@, i as int),
                station_views(self.stations@) == station_views(old(self).stations@) + stations_of(
                    pattern@,
                    links@,
                    i as int,
                ),
            decreases links.len() - i,
        {
            let href = match &links[i].href {
                Some(href) => Some(href.clone()),
                None => None,
            };
            let link = StationLink { name: links[i].name.clone(), href };
            assert(link_result(pattern@, link) == link_result(pattern@, links@[i as int]));
            match station_of(pattern, link) {
                Ok(station) => {
                    let ghost before = self.stations@;
                    self.stations.push(station);
                    proof {
                        assert(station_views(self.stations@) =~= station_views(before).push(
                            station@,
                        ));
                        assert(stations_of(pattern@, links@, i + 1) =~= stations_of(
                            pattern@,
                            links@,
                            i as int,
                        ).push(station@));
                        assert(station_views(self.stations@) =~= station_views(
                            old(self).stations@,
                        ) + stations_of(pattern@, links@, i + 1));
                    }
                },
                Err(failure) => {
                    return Err(failure);
                },
            }
            i += 1;
        }
        if is_last_page(next_class) {
            Ok(Paging::Complete)
        } else {
            Ok(Paging::NextPage)
        }
    }
}

} // verus!
