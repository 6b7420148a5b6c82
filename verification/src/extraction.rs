//! Reading one station's table.
//!
//! The table has a column of dates and a column of yields. Its cells are
//! read column by column, so a row exists only where both columns have a
//! cell: a table whose columns differ in length is not read at all.

use crate::failure::Cause;
use crate::failure::CauseView;
use crate::failure::Failure;
use crate::failure::FailureView;
use crate::model::record_views;
use crate::model::Record;
use crate::model::RecordView;
use crate::model::Station;
use crate::region::lookup_failure;
use crate::region::Locator;
use crate::region::Lookup;
use crate::region::Part;
use crate::region::Resolution;
use crate::retry::RetryAttemptOutcome;
use crate::template::is_split;
use crate::template::split_template;
use crate::text::contains;
use crate::text::text_contains;
use vstd::prelude::*;
use vstd::string::*;

verus! {

/// The cells of the date column.
pub const DATE_CELLS: &'static str =
    "// tbody[@class=\"ant-table-tbody\"] / tr[contains(@class, 'ant-table-row')] / td[1]";

/// The cells of the yield column.
pub const YIELD_CELLS: &'static str =
    "// tbody[@class=\"ant-table-tbody\"] / tr[contains(@class, 'ant-table-row')] / td[2]";

/// The class of the element that wraps the table while it loads.
pub const BUSY_CONTAINER: &'static str = "ant-spin-container";

/// The class that the wrapper carries while the table is loading, as a
/// part of its class attribute.
pub const BUSY_CLASS: &'static str = "ant-spin-blur";

/// The three things that a site has of its own, which whoever runs the
/// scraper supplies.
#[derive(Debug)]
pub struct NavigationConfig {
    /// The address of the login page.
    pub login_page: String,
    /// What stands before the station's id in the address of a station's
    /// report page.
    pub report_page_before_id: String,
    /// What stands behind the id there.
    pub report_page_after_id: String,
    /// The pattern that finds a station's id in its link, in a group named
    /// `id`.
    pub station_link: String,
}

impl NavigationConfig {
    /// Makes the configuration of the login page's address, the template
    /// of the report page's address and the pattern for links.
    ///
    /// The template holds the mark `{}` where the station's id goes; the
    /// first mark counts. A template without a mark gives `None`.
    pub fn from_template(login_page: String, report_page: &str, station_link: String) -> (r: Option<
        NavigationConfig,
    >)
        ensures
            is_split(
                report_page@,
                match r {
                    Some(config) => Some(
                        (config.report_page_before_id@, config.report_page_after_id@),
                    ),
                    None => None,
                },
            ),
            r matches Some(config) ==> config.login_page == login_page && config.station_link
                == station_link,
    {
        match split_template(report_page) {
            None => None,
            Some((before, after)) => Some(
                NavigationConfig {
                    login_page,
                    report_page_before_id: before,
                    report_page_after_id: after,
                    station_link,
                },
            ),
        }
    }

    /// The address of a station's report page.
    pub fn report_url(&self, station: &Station) -> (r: String)
        ensures
            r@ == self.report_page_before_id@ + station.id@ + self.report_page_after_id@,
    {
        self.report_page_before_id.clone().concat(station.id.as_str()).concat(
            self.report_page_after_id.as_str(),
        )
    }
}

/// The part that holds the table, whose class tells whether it is loading.
#[verifier::allow_in_spec]
pub fn busy_container() -> Part
    returns
        (Part {
            description: "table container",
            locator: Locator::ClassName(BUSY_CONTAINER),
            resolution: Resolution::Present,
        }),
{
    Part {
        description: "table container",
        locator: Locator::ClassName(BUSY_CONTAINER),
        resolution: Resolution::Present,
    }
}

/// Whether the table is still loading, by the class attribute of the
/// element that wraps it. No class attribute means no loading.
pub fn table_is_busy(class: Option<&str>) -> (r: bool)
    ensures
        r == match class {
            Some(class) => text_contains(class@, BUSY_CLASS@),
            None => false,
        },
{
    match class {
        Some(class) => contains(class, BUSY_CLASS),
        None => false,
    }
}

/// Whether the table has loaded, for the attempts that wait for it:
/// they go on while the wrapper is missing or still carries the class of
/// loading, and a failure of the session ends them.
pub fn reload_verdict(class: Lookup<Option<String>>) -> (r: RetryAttemptOutcome<(), Failure>)
    ensures
        match class {
            Lookup::Found(Some(class)) => if text_contains(class@, BUSY_CLASS@) {
                r is Continue
            } else {
                r is Break
            },
            Lookup::Found(None) => r is Break,
            Lookup::Missing => r is Continue,
            Lookup::Broken(_) => r matches RetryAttemptOutcome::Fatal(failure) && Some(failure@)
                == lookup_failure(busy_container(), class),
        },
{
    match class {
        Lookup::Found(class) => {
            let busy = match &class {
                Some(class) => table_is_busy(Some(class.as_str())),
                None => table_is_busy(None),
            };
            if busy {
                RetryAttemptOutcome::Continue
            } else {
                RetryAttemptOutcome::Break(())
            }
        },
        Lookup::Missing => RetryAttemptOutcome::Continue,
        Lookup::Broken(message) => {
            let part = busy_container();
            let failure = Failure::outside(message).context(part.description);
            proof {
                assert(failure@.context =~= seq![part.description@]);
            }
            RetryAttemptOutcome::Fatal(failure)
        },
    }
}

/// The views of the dates, in the same order.
pub open spec fn date_views(dates: Seq<String>) -> Seq<Seq<char>> {
    dates.map_values(|d: String| d@)
}

/// The views of the yields, in the same order.
pub open spec fn yield_views(yields: Seq<Option<String>>) -> Seq<Option<Seq<char>>> {
    yields.map_values(
        |y: Option<String>|
            match y {
                Some(v) => Some(v@),
                None => None,
            },
    )
}

/// The index of the first date from `from` on that does not hold `month`,
/// if there is one.
pub open spec fn first_off_month(dates: Seq<Seq<char>>, month: Seq<char>, from: int) -> Option<int>
    decreases dates.len() - from,
{
    if from < 0 || from >= dates.len() {
        None
    } else if !text_contains(dates[from], month) {
        Some(from)
    } else {
        first_off_month(dates, month, from + 1)
    }
}

/// The rows of a table: the date and the yield of each.
pub open spec fn rows(dates: Seq<Seq<char>>, yields: Seq<Option<Seq<char>>>) -> Seq<RecordView> {
    Seq::new(dates.len(), |k: int| RecordView { date: dates[k], pv_yield: yields[k] })
}

/// What a table comes to: its rows, or the reason why it is not read.
///
/// Columns of different lengths make a malformed table. With a month asked
/// for, the first date that does not hold it makes a table of the wrong
/// month.
pub open spec fn table(
    dates: Seq<Seq<char>>,
    yields: Seq<Option<Seq<char>>>,
    month: Option<Seq<char>>,
) -> Result<Seq<RecordView>, CauseView> {
    if dates.len() != yields.len() {
        Err(CauseView::MalformedTable { dates: dates.len(), yields: yields.len() })
    } else {
        match month {
            Some(m) => match first_off_month(dates, m, 0) {
                Some(k) => Err(CauseView::WrongMonth { date: dates[k], month: m }),
                None => Ok(rows(dates, yields)),
            },
            None => Ok(rows(dates, yields)),
        }
    }
}

/// Makes the records of a table from the texts of its date cells and the
/// numerals of its yield cells, both from top to bottom.
///
/// A yield cell that held no number is `None` and stays so in its record.
/// The records come in the order of the rows. A failure has no note yet.
pub fn records_from_cells(
    dates: Vec<String>,
    yields: Vec<Option<String>>,
    month: Option<&str>,
) -> (r: Result<Vec<Record>, Failure>)
    ensures
        match table(
            date_views(dates@),
            yield_views(yields@),
            match month {
                Some(m) => Some(m@),
                None => None,
            },
        ) {
            Ok(records) => r is Ok && record_views(r->Ok_0@) == records,
            Err(cause) => r is Err && r->Err_0@ == (FailureView { cause, context: Seq::empty() }),
        },
{
    let ghost dv = date_views(dates@);
    let ghost yv = yield_views(yields@);
    if dates.len() != yields.len() {
        return Err(Failure::new(Cause::MalformedTable { dates: dates.len(), yields: yields.len() }));
    }
    let mut records: Vec<Record> = Vec::new();
    let mut i: usize = 0;
    while i < dates.len()
        invariant
            i <= dates.len(),
            dates.len() == yields.len(),
            dv == date_views(dates@),
            yv == yield_views(yields@),
            records@.len() == i,
            forall|k: int|
                0 <= k < i ==> (#[trigger] records@[k])@ == (RecordView {
                    date: dv[k],
                    pv_yield: yv[k],
                }),
            month matches Some(m) ==> first_off_month(dv, m@, 0) == first_off_month(
                dv,
                m@,
                i as int,
            ),
        decreases dates.len() - i,
    {
        if let Some(m) = month {
            if !contains(dates[i].as_str(), m) {
                return Err(
                    Failure::new(
                        Cause::WrongMonth { date: dates[i].clone(), month: m.to_owned() },
                    ),
                );
            }
        }
        let pv_yield = match &yields[i] {
            Some(v) => Some(v.clone()),
            None => None,
        };
        records.push(Record { date: dates[i].clone(), pv_yield });
        i += 1;
    }
    proof {
        assert(record_views(records@) =~= rows(dv, yv));
    }
    Ok(records)
}

} // verus!
