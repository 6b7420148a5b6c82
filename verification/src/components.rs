//! The regions of the dashboard: what their parts are, which gestures work
//! them, and what the answers of the page mean.
//!
//! Each region is a type without data of its own. Its functions name the
//! parts, make the gestures for an action, and judge what was found.

use crate::cli::Credentials;
use crate::failure::Cause;
use crate::failure::CauseView;
use crate::failure::Failure;
use crate::failure::FailureView;
use crate::listing::href_view;
use crate::listing::id_in;
use crate::listing::link_station;
use crate::listing::station_of;
use crate::listing::StationLink;
use crate::model::Station;
use crate::model::StationView;
use crate::region::attempt_verdict;
use crate::region::gesture_views;
use crate::region::lookup_failure;
use crate::region::Act;
use crate::region::Check;
use crate::region::Expectation;
use crate::region::Gesture;
use crate::region::GestureView;
use crate::region::Key;
use crate::region::Locator;
use crate::region::Lookup;
use crate::region::Part;
use crate::region::Resolution;
use crate::retry::RetryAttemptOutcome;
use crate::tree::TreeNode;
use vstd::prelude::*;
use vstd::string::*;

verus! {

/// The name that a station goes by when its line shows none.
pub const MISSING_NAME: &'static str = "<missing>";

/// The size to which the pages of the table are set.
pub const PAGE_SIZE_TITLE: &'static str = "50 / page";

/// The login form.
#[derive(Clone, Copy, Debug)]
pub struct Login;

impl Login {
    /// The form itself.
    #[verifier::allow_in_spec]
    pub fn form() -> Part
        returns
            (Part {
                description: "login form",
                locator: Locator::Id("loginFormArea"),
                resolution: Resolution::Present,
            }),
    {
        Part {
            description: "login form",
            locator: Locator::Id("loginFormArea"),
            resolution: Resolution::Present,
        }
    }

    /// The field for the name.
    #[verifier::allow_in_spec]
    pub fn username() -> Part
        returns
            (Part {
                description: "username input",
                locator: Locator::Id("username"),
                resolution: Resolution::Present,
            }),
    {
        Part {
            description: "username input",
            locator: Locator::Id("username"),
            resolution: Resolution::Present,
        }
    }

    /// The field for the password.
    #[verifier::allow_in_spec]
    pub fn password() -> Part
        returns
            (Part {
                description: "password input",
                locator: Locator::Id("value"),
                resolution: Resolution::Present,
            }),
    {
        Part {
            description: "password input",
            locator: Locator::Id("value"),
            resolution: Resolution::Present,
        }
    }

    /// The control that sends the form.
    #[verifier::allow_in_spec]
    pub fn submit() -> Part
        returns
            (Part {
                description: "login button",
                locator: Locator::Id("submitDataverify"),
                resolution: Resolution::Present,
            }),
    {
        Part {
            description: "login button",
            locator: Locator::Id("submitDataverify"),
            resolution: Resolution::Present,
        }
    }

    /// What a lookup of one of the form's parts must come to for the login
    /// to go on. A part that is missing means that there is no login form;
    /// a failure of the session is passed on. Both are noted with the
    /// part's description.
    pub fn require<T>(part: Part, lookup: Lookup<T>) -> (r: Result<T, Failure>)
        ensures
            match lookup {
                Lookup::Found(found) => r == Ok::<T, Failure>(found),
                Lookup::Missing => r is Err && r->Err_0@ == (FailureView {
                    cause: CauseView::LoginFormNotFound,
                    context: seq![part.description@],
                }),
                Lookup::Broken(message) => r is Err && r->Err_0@ == (FailureView {
                    cause: CauseView::Outside(message@),
                    context: seq![part.description@],
                }),
            },
    {
        let failure = match lookup {
            Lookup::Found(found) => {
                return Ok(found);
            },
            Lookup::Missing => Failure::new(Cause::LoginFormNotFound),
            Lookup::Broken(message) => Failure::outside(message),
        };
        let failure = failure.context(part.description);
        proof {
            assert(failure@.context =~= seq![part.description@]);
        }
        Err(failure)
    }

    /// What the lookup of the form comes to.
    pub fn query<T>(lookup: Lookup<T>) -> (r: Result<T, Failure>)
        ensures
            match lookup {
                Lookup::Found(found) => r == Ok::<T, Failure>(found),
                Lookup::Missing => r is Err && r->Err_0@ == (FailureView {
                    cause: CauseView::LoginFormNotFound,
                    context: seq![Login::form().description@],
                }),
                Lookup::Broken(message) => r is Err && r->Err_0@ == (FailureView {
                    cause: CauseView::Outside(message@),
                    context: seq![Login::form().description@],
                }),
            },
    {
        Login::require(Login::form(), lookup)
    }

    /// The gestures that log in, to be made as one: the name into its
    /// field, the password into its field, and a click on the control that
    /// sends the form.
    pub fn login(credentials: &Credentials) -> (r: Vec<Gesture>)
        ensures
            gesture_views(r@) == seq![
                GestureView::Click(Login::username()),
                GestureView::Type(credentials.username@),
                GestureView::Click(Login::password()),
                GestureView::Type(credentials.password@),
                GestureView::Click(Login::submit()),
            ],
    {
        let mut r: Vec<Gesture> = Vec::new();
        r.push(Gesture::Click(Login::username()));
        r.push(Gesture::Type(credentials.username.clone()));
        r.push(Gesture::Click(Login::password()));
        r.push(Gesture::Type(credentials.password.clone()));
        r.push(Gesture::Click(Login::submit()));
        proof {
            assert(gesture_views(r@) =~= seq![
                GestureView::Click(Login::username()),
                GestureView::Type(credentials.username@),
                GestureView::Click(Login::password()),
                GestureView::Type(credentials.password@),
                GestureView::Click(Login::submit()),
            ]);
        }
        r
    }

    /// The notice that may lie over the dashboard after the login. It is
    /// closed if it is there, and its absence is no failure.
    #[verifier::allow_in_spec]
    pub fn welcome_close() -> Part
        returns
            (Part {
                description: "welcome notice",
                locator: Locator::Id("login_info_win_close"),
                resolution: Resolution::Lazy,
            }),
    {
        Part {
            description: "welcome notice",
            locator: Locator::Id("login_info_win_close"),
            resolution: Resolution::Lazy,
        }
    }

    /// The gestures that close the welcome notice: a click on it if it
    /// was found, and none at all if it was not, whatever the reason.
    pub fn dismiss_welcome<T>(lookup: &Lookup<T>) -> (r: Vec<Gesture>)
        ensures
            gesture_views(r@) == if lookup is Found {
                seq![GestureView::Click(Login::welcome_close())]
            } else {
                Seq::<GestureView>::empty()
            },
    {
        let mut r: Vec<Gesture> = Vec::new();
        if let Lookup::Found(_) = lookup {
            r.push(Gesture::Click(Login::welcome_close()));
        }
        proof {
            if lookup is Found {
                assert(gesture_views(r@) =~= seq![GestureView::Click(Login::welcome_close())]);
            } else {
                assert(gesture_views(r@) =~= Seq::<GestureView>::empty());
            }
        }
        r
    }
}

/// The controls of the report: which stations, which granularity, which
/// period, and the control that applies them.
#[derive(Clone, Copy, Debug)]
pub struct ControlForm;

impl ControlForm {
    /// The bar of controls itself.
    #[verifier::allow_in_spec]
    pub fn form() -> Part
        returns
            (Part {
                description: "control bar",
                locator: Locator::Css("form.ant-form.ant-form-inline"),
                resolution: Resolution::Present,
            }),
    {
        Part {
            description: "control bar",
            locator: Locator::Css("form.ant-form.ant-form-inline"),
            resolution: Resolution::Present,
        }
    }

    /// The selector of stations.
    #[verifier::allow_in_spec]
    pub fn plants() -> Part
        returns
            (Part {
                description: "plant selector",
                locator: Locator::Id("site-report-nco-tree-select-customized"),
                resolution: Resolution::Present,
            }),
    {
        Part {
            description: "plant selector",
            locator: Locator::Id("site-report-nco-tree-select-customized"),
            resolution: Resolution::Present,
        }
    }

    /// The selector of the granularity.
    #[verifier::allow_in_spec]
    pub fn granularity() -> Part
        returns
            (Part {
                description: "time granularity selector",
                locator: Locator::Id("timeDimension"),
                resolution: Resolution::Lazy,
            }),
    {
        Part {
            description: "time granularity selector",
            locator: Locator::Id("timeDimension"),
            resolution: Resolution::Lazy,
        }
    }

    /// What the bar shows once the granularity is a month.
    #[verifier::allow_in_spec]
    pub fn monthly() -> Part
        returns
            (Part {
                description: "monthly granularity",
                locator: Locator::Css("span[title=Monthly]"),
                resolution: Resolution::Present,
            }),
    {
        Part {
            description: "monthly granularity",
            locator: Locator::Css("span[title=Monthly]"),
            resolution: Resolution::Present,
        }
    }

    /// The field of the period.
    #[verifier::allow_in_spec]
    pub fn time_period() -> Part
        returns
            (Part {
                description: "time period selector",
                locator: Locator::Id("statisticTime"),
                resolution: Resolution::Present,
            }),
    {
        Part {
            description: "time period selector",
            locator: Locator::Id("statisticTime"),
            resolution: Resolution::Present,
        }
    }

    /// The control that applies the choices.
    #[verifier::allow_in_spec]
    pub fn search() -> Part
        returns
            (Part {
                description: "search button",
                locator: Locator::Css("button.ant-btn.ant-btn-primary"),
                resolution: Resolution::Present,
            }),
    {
        Part {
            description: "search button",
            locator: Locator::Css("button.ant-btn.ant-btn-primary"),
            resolution: Resolution::Present,
        }
    }

    /// What a lookup of the bar means to the attempts to find it.
    pub fn query<T>(lookup: Lookup<T>) -> (r: RetryAttemptOutcome<T, Failure>)
        ensures
            attempt_verdict(ControlForm::form(), lookup, r),
    {
        ControlForm::form().attempt(lookup)
    }

    /// The gestures that set the granularity to a month: a click on the
    /// selector, one step down and the enter key.
    pub open spec fn granularity_gestures() -> Seq<GestureView> {
        seq![
            GestureView::Click(ControlForm::granularity()),
            GestureView::Press(Key::Down),
            GestureView::Press(Key::Enter),
        ]
    }

    /// The gestures that set the period: a click on the field, everything
    /// in it selected and deleted, the month typed, and the enter key.
    pub open spec fn period_gestures(month: Seq<char>) -> Seq<GestureView> {
        seq![
            GestureView::Click(ControlForm::time_period()),
            GestureView::Hold(Key::Control),
            GestureView::Type("a"@),
            GestureView::Release(Key::Control),
            GestureView::Press(Key::Backspace),
            GestureView::Type(month),
            GestureView::Press(Key::Enter),
        ]
    }

    /// The actions that set what the table shows: the granularity, which
    /// is confirmed once the bar shows `Monthly`; and, if a month is asked
    /// for, the period, which is confirmed once the field's value is that
    /// month.
    pub fn set_data_period(month: Option<&str>) -> (r: Vec<Act>)
        ensures
            r@.len() == if month is Some {
                2int
            } else {
                1int
            },
            r@[0].description@ == "setting data time granularity"@,
            gesture_views(r@[0].gestures@) == ControlForm::granularity_gestures(),
            r@[0].check.part == ControlForm::monthly(),
            r@[0].check.expectation is Shown,
            month matches Some(m) ==> {
                &&& r@[1].description@ == "setting time period"@
                &&& gesture_views(r@[1].gestures@) == ControlForm::period_gestures(m@)
                &&& r@[1].check.part == ControlForm::time_period()
                &&& r@[1].check.expectation matches Expectation::Value(v) && v@ == m@
            },
    {
        let mut r: Vec<Act> = Vec::new();
        let mut gestures: Vec<Gesture> = Vec::new();
        gestures.push(Gesture::Click(ControlForm::granularity()));
        gestures.push(Gesture::Press(Key::Down));
        gestures.push(Gesture::Press(Key::Enter));
        proof {
            assert(gesture_views(gestures@) =~= ControlForm::granularity_gestures());
        }
        r.push(
            Act {
                description: "setting data time granularity",
                gestures,
                check: Check { part: ControlForm::monthly(), expectation: Expectation::Shown },
            },
        );
        if let Some(m) = month {
            let mut gestures: Vec<Gesture> = Vec::new();
            gestures.push(Gesture::Click(ControlForm::time_period()));
            gestures.push(Gesture::Hold(Key::Control));
            gestures.push(Gesture::Type("a".to_owned()));
            gestures.push(Gesture::Release(Key::Control));
            gestures.push(Gesture::Press(Key::Backspace));
            gestures.push(Gesture::Type(m.to_owned()));
            gestures.push(Gesture::Press(Key::Enter));
            proof {
                assert(gesture_views(gestures@) =~= ControlForm::period_gestures(m@));
            }
            r.push(
                Act {
                    description: "setting time period",
                    gestures,
                    check: Check {
                        part: ControlForm::time_period(),
                        expectation: Expectation::Value(m.to_owned()),
                    },
                },
            );
        }
        r
    }

    /// What the lookup of the tree of stations comes to.
    pub fn stations<T>(lookup: Lookup<T>) -> (r: Result<T, Failure>)
        ensures
            match lookup {
                Lookup::Found(found) => r == Ok::<T, Failure>(found),
                _ => r is Err && Some(r->Err_0@) == lookup_failure(ControlForm::plants(), lookup),
            },
    {
        ControlForm::plants().locate(lookup)
    }

    /// The gesture that opens the selector of stations.
    pub fn click_stations() -> (r: Vec<Gesture>)
        ensures
            gesture_views(r@) == seq![GestureView::Click(ControlForm::plants())],
    {
        let mut r: Vec<Gesture> = Vec::new();
        r.push(Gesture::Click(ControlForm::plants()));
        proof {
            assert(gesture_views(r@) =~= seq![GestureView::Click(ControlForm::plants())]);
        }
        r
    }

    /// The gesture that applies the choices.
    pub fn click_search() -> (r: Vec<Gesture>)
        ensures
            gesture_views(r@) == seq![GestureView::Click(ControlForm::search())],
    {
        let mut r: Vec<Gesture> = Vec::new();
        r.push(Gesture::Click(ControlForm::search()));
        proof {
            assert(gesture_views(r@) =~= seq![GestureView::Click(ControlForm::search())]);
        }
        r
    }
}

/// The controls below the table that set how many rows a page holds.
#[derive(Clone, Copy, Debug)]
pub struct Pagination;

impl Pagination {
    /// The controls themselves.
    #[verifier::allow_in_spec]
    pub fn form() -> Part
        returns
            (Part {
                description: "pagination controls",
                locator: Locator::Css(".ant-pagination-options"),
                resolution: Resolution::Present,
            }),
    {
        Part {
            description: "pagination controls",
            locator: Locator::Css(".ant-pagination-options"),
            resolution: Resolution::Present,
        }
    }

    /// The field that takes the page size.
    #[verifier::allow_in_spec]
    pub fn page_size() -> Part
        returns
            (Part {
                description: "page size",
                locator: Locator::Css(
                    ".ant-select-selection-search > .ant-select-selection-search-input",
                ),
                resolution: Resolution::Present,
            }),
    {
        Part {
            description: "page size",
            locator: Locator::Css(
                ".ant-select-selection-search > .ant-select-selection-search-input",
            ),
            resolution: Resolution::Present,
        }
    }

    /// What shows the page size that is set, in its `title`.
    #[verifier::allow_in_spec]
    pub fn selected() -> Part
        returns
            (Part {
                description: "selected page size",
                locator: Locator::Css(".ant-select-selection-item"),
                resolution: Resolution::Present,
            }),
    {
        Part {
            description: "selected page size",
            locator: Locator::Css(".ant-select-selection-item"),
            resolution: Resolution::Present,
        }
    }

    /// What a lookup of the controls means to the attempts to find them.
    pub fn query<T>(lookup: Lookup<T>) -> (r: RetryAttemptOutcome<T, Failure>)
        ensures
            attempt_verdict(Pagination::form(), lookup, r),
    {
        Pagination::form().attempt(lookup)
    }

    /// The gestures that pick the largest page size: a click on the
    /// field, three steps down and the enter key.
    pub open spec fn page_size_gestures() -> Seq<GestureView> {
        seq![
            GestureView::Click(Pagination::page_size()),
            GestureView::Press(Key::Down),
            GestureView::Press(Key::Down),
            GestureView::Press(Key::Down),
            GestureView::Press(Key::Enter),
        ]
    }

    /// The action that sets the largest page size, which is confirmed once
    /// the controls show it in their `title`.
    pub fn increase_page_size() -> (r: Act)
        ensures
            r.description@ == "increasing page size"@,
            gesture_views(r.gestures@) == Pagination::page_size_gestures(),
            r.check.part == Pagination::selected(),
            r.check.expectation matches Expectation::Attribute(name, value) && name@ == "title"@
                && value@ == PAGE_SIZE_TITLE@,
    {
        let mut gestures: Vec<Gesture> = Vec::new();
        gestures.push(Gesture::Click(Pagination::page_size()));
        gestures.push(Gesture::Press(Key::Down));
        gestures.push(Gesture::Press(Key::Down));
        gestures.push(Gesture::Press(Key::Down));
        gestures.push(Gesture::Press(Key::Enter));
        proof {
            assert(gesture_views(gestures@) =~= Pagination::page_size_gestures());
        }
        Act {
            description: "increasing page size",
            gestures,
            check: Check {
                part: Pagination::selected(),
                expectation: Expectation::Attribute("title", PAGE_SIZE_TITLE.to_owned()),
            },
        }
    }
}

/// The tree from which stations are chosen.
#[derive(Clone, Copy, Debug)]
pub struct StationTree;

impl StationTree {
    /// The lines of the tree that are shown.
    #[verifier::allow_in_spec]
    pub fn lines() -> Part
        returns
            (Part {
                description: "stations",
                locator: Locator::Css("li > .flex-node-line"),
                resolution: Resolution::Present,
            }),
    {
        Part {
            description: "stations",
            locator: Locator::Css("li > .flex-node-line"),
            resolution: Resolution::Present,
        }
    }

    /// The line to click for a station: the first that shows the
    /// station's name and is no directory. `names` and `directories` say
    /// of each line, from top to bottom, what it shows and whether it is a
    /// directory; a line of which only one of the two is known does not
    /// count.
    pub fn pick(names: &Vec<String>, directories: &Vec<bool>, station: &Station) -> (r: Option<
        usize,
    >)
        ensures
            match r {
                Some(at) => {
                    &&& StationTree::picks(names@, directories@, station.name@, at as int)
                    &&& forall|k: int|
                        0 <= k < at ==> !StationTree::picks(
                            names@,
                            directories@,
                            station.name@,
                            k,
                        )
                },
                None => forall|k: int|
                    !StationTree::picks(names@, directories@, station.name@, k),
            },
    {
        let mut at: usize = 0;
        while at < names.len() && at < directories.len()
            invariant
                forall|k: int|
                    0 <= k < at ==> !StationTree::picks(names@, directories@, station.name@, k),
            decreases names.len() - at,
        {
            if !directories[at] && names[at] == station.name {
                return Some(at);
            }
            at += 1;
        }
        None
    }

    /// The line with index `at` shows `name` and is no directory.
    pub open spec fn picks(
        names: Seq<String>,
        directories: Seq<bool>,
        name: Seq<char>,
        at: int,
    ) -> bool {
        &&& 0 <= at < names.len()
        &&& at < directories.len()
        &&& !directories[at]
        &&& names[at]@ == name
    }

    /// What the lookup of the tree's lines comes to.
    pub fn stations<T>(lookup: Lookup<Vec<T>>) -> (r: Result<Vec<T>, Failure>)
        ensures
            match lookup {
                Lookup::Found(found) => r == Ok::<Vec<T>, Failure>(found),
                _ => r is Err && Some(r->Err_0@) == lookup_failure(StationTree::lines(), lookup),
            },
    {
        StationTree::lines().locate(lookup)
    }
}

/// One line of the tree: a directory or a station.
///
/// Which of the two a line is shows in its handle for opening: a directory
/// has one and a station has none. So the handle is looked up, and the
/// lookup has three answers: it is there, it is not, or the session
/// failed.
#[derive(Clone, Copy, Debug)]
pub struct StationLine;

impl StationLine {
    /// The handle that opens a directory.
    #[verifier::allow_in_spec]
    pub fn caret() -> Part
        returns
            (Part {
                description: "station directory",
                locator: Locator::Css(".anticon.tree-icon"),
                resolution: Resolution::Lazy,
            }),
    {
        Part {
            description: "station directory",
            locator: Locator::Css(".anticon.tree-icon"),
            resolution: Resolution::Lazy,
        }
    }

    /// The box that selects a station.
    #[verifier::allow_in_spec]
    pub fn checkbox() -> Part
        returns
            (Part {
                description: "station checkbox",
                locator: Locator::Css("input.node-line-checkbox"),
                resolution: Resolution::Present,
            }),
    {
        Part {
            description: "station checkbox",
            locator: Locator::Css("input.node-line-checkbox"),
            resolution: Resolution::Present,
        }
    }

    /// What holds the line's name, in its `title`.
    #[verifier::allow_in_spec]
    pub fn name() -> Part
        returns
            (Part {
                description: "station name",
                locator: Locator::Css(".flex-node-line-name-part"),
                resolution: Resolution::Present,
            }),
    {
        Part {
            description: "station name",
            locator: Locator::Css(".flex-node-line-name-part"),
            resolution: Resolution::Present,
        }
    }

    /// The name of the line: the title that was read, or `<missing>` where
    /// none could be.
    pub fn station_name(title: Lookup<Option<String>>) -> (r: String)
        ensures
            r@ == match title {
                Lookup::Found(Some(name)) => name@,
                _ => MISSING_NAME@,
            },
    {
        match title {
            Lookup::Found(Some(name)) => name,
            _ => MISSING_NAME.to_owned(),
        }
    }

    /// Whether the line is a directory, by the lookup of its handle.
    pub fn is_dir<T>(caret: &Lookup<T>) -> (r: Result<bool, Failure>)
        ensures
            match caret {
                Lookup::Found(_) => r == Ok::<bool, Failure>(true),
                Lookup::Missing => r == Ok::<bool, Failure>(false),
                Lookup::Broken(message) => r is Err && r->Err_0@ == (FailureView {
                    cause: CauseView::Outside(message@),
                    context: seq![StationLine::caret().description@],
                }),
            },
    {
        match caret {
            Lookup::Found(_) => Ok(true),
            Lookup::Missing => Ok(false),
            Lookup::Broken(message) => {
                let failure = Failure::outside(message.clone()).context(
                    StationLine::caret().description,
                );
                proof {
                    assert(failure@.context =~= seq![StationLine::caret().description@]);
                }
                Err(failure)
            },
        }
    }

    /// The click that works the line: on the handle of a directory, which
    /// opens or closes it, and on the box of a station, which selects it
    /// or lets it go. With it comes the note for a failure of the click.
    pub fn click<T>(name: &str, caret: &Lookup<T>) -> (r: Result<(Gesture, String), Failure>)
        ensures
            match caret {
                Lookup::Found(_) => {
                    &&& r is Ok
                    &&& r->Ok_0.0@ == GestureView::Click(StationLine::caret())
                    &&& r->Ok_0.1@ == "unable to open station directory '"@ + name@ + "'"@
                },
                Lookup::Missing => {
                    &&& r is Ok
                    &&& r->Ok_0.0@ == GestureView::Click(StationLine::checkbox())
                    &&& r->Ok_0.1@ == "unable to click station '"@ + name@ + "'"@
                },
                Lookup::Broken(message) => r is Err && r->Err_0@ == (FailureView {
                    cause: CauseView::Outside(message@),
                    context: seq![StationLine::caret().description@],
                }),
            },
    {
        match StationLine::is_dir(caret) {
            Ok(true) => Ok(
                (
                    Gesture::Click(StationLine::caret()),
                    "unable to open station directory '".to_owned().concat(name).concat("'"),
                ),
            ),
            Ok(false) => Ok(
                (
                    Gesture::Click(StationLine::checkbox()),
                    "unable to click station '".to_owned().concat(name).concat("'"),
                ),
            ),
            Err(failure) => Err(failure),
        }
    }

    /// The station that a line names. Its id is what `pattern` finds as
    /// the group `id` in the address of the line's link; a line without a
    /// link, or with one that holds no id, goes by its name.
    pub fn station(pattern: &str, name: String, href: Option<String>) -> (r: Station)
        ensures
            r@ == match link_station(name@, href_view(href), id_in(pattern@, href_view(href))) {
                Ok(station) => station,
                Err(_) => StationView { id: name@, name: name@ },
            },
    {
        let link = StationLink { name: name.clone(), href };
        match station_of(pattern, link) {
            Ok(station) => station,
            Err(_) => Station { id: name.clone(), name },
        }
    }

    /// The node that a line stands for, once its handle was looked up.
    ///
    /// A line with a handle is a directory. Its children are what opening
    /// it has shown; a directory that could not be opened stands in the
    /// tree without children, so that the lines beside it are still
    /// listed. A line without a handle is the station it names. A failure
    /// of the session while looking for the handle is passed on.
    pub fn node<T>(caret: &Lookup<T>, station: Station, opened: Result<Vec<TreeNode>, Failure>) -> (r:
        Result<TreeNode, Failure>)
        ensures
            match caret {
                Lookup::Found(_) => match opened {
                    Ok(children) => r == Ok::<TreeNode, Failure>(TreeNode::Directory(children)),
                    Err(_) => r matches Ok(TreeNode::Directory(children)) && children@.len()
                        == 0,
                },
                Lookup::Missing => r == Ok::<TreeNode, Failure>(TreeNode::Leaf(station)),
                Lookup::Broken(message) => r is Err && r->Err_0@ == (FailureView {
                    cause: CauseView::Outside(message@),
                    context: seq![StationLine::caret().description@],
                }),
            },
    {
        match StationLine::is_dir(caret) {
            Ok(true) => match opened {
                Ok(children) => Ok(TreeNode::Directory(children)),
                Err(_) => Ok(TreeNode::Directory(Vec::new())),
            },
            Ok(false) => Ok(TreeNode::Leaf(station)),
            Err(failure) => Err(failure),
        }
    }
}

} // verus!
