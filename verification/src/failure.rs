//! What can go wrong, and what each layer adds on the way up.
//!
//! A failure keeps its cause for good. Every layer it passes through may add
//! a note that says what was being done; no layer replaces what is there.

use crate::text::decimal;
use crate::text::decimal_string;
use vstd::prelude::*;
use vstd::string::*;

verus! {

/// Why something failed.
#[derive(Debug)]
pub enum Cause {
    /// The session, the driver process, the disk or a task said so; the text
    /// is theirs.
    Outside(String),
    /// An element was not there when it was looked for.
    NotFound,
    /// An element did not show up within the time the session allows.
    Timeout,
    /// One of the login form's three elements is missing.
    LoginFormNotFound,
    /// An action was repeated as often as allowed and never took effect.
    RetryExhausted { attempts: u32 },
    /// The table's two columns have different numbers of cells.
    MalformedTable { dates: usize, yields: usize },
    /// A row's date does not lie in the month that was asked for.
    WrongMonth { date: String, month: String },
    /// A station's name is no link.
    MissingStationLink,
    /// A station's link holds no id.
    MissingStationId,
    /// The pattern that finds the id in a link is no pattern.
    InvalidPattern,
    /// The driver's version output holds no number.
    DriverVersionNotFound,
    /// The browser's version output holds no number.
    BrowserVersionNotFound,
    /// Driver and browser are of different major versions.
    IncompatibleVersions { driver: String, browser: String },
}

/// A cause as contracts see it.
pub enum CauseView {
    Outside(Seq<char>),
    NotFound,
    Timeout,
    LoginFormNotFound,
    RetryExhausted { attempts: nat },
    MalformedTable { dates: nat, yields: nat },
    WrongMonth { date: Seq<char>, month: Seq<char> },
    MissingStationLink,
    MissingStationId,
    InvalidPattern,
    DriverVersionNotFound,
    BrowserVersionNotFound,
    IncompatibleVersions { driver: Seq<char>, browser: Seq<char> },
}

impl CauseView {
    /// The cause in words.
    pub open spec fn text(self) -> Seq<char> {
        match self {
            CauseView::Outside(message) => message,
            CauseView::NotFound => "element not found"@,
            CauseView::Timeout => "timed out waiting for element"@,
            CauseView::LoginFormNotFound => "failed to find login form"@,
            CauseView::RetryExhausted { attempts } => "retry budget exhausted after "@ + decimal(
                attempts,
            ) + " attempts"@,
            CauseView::MalformedTable { dates, yields } => "malformed report table: found "@
                + decimal(dates) + " date cells and "@ + decimal(yields) + " yield cells"@,
            CauseView::WrongMonth { date, month } => "got data for the wrong month: "@ + date
                + " in not in "@ + month,
            CauseView::MissingStationLink => "missing link in station name"@,
            CauseView::MissingStationId => "missing station id in link"@,
            CauseView::InvalidPattern => "invalid pattern for station links"@,
            CauseView::DriverVersionNotFound => "webdriver version not found"@,
            CauseView::BrowserVersionNotFound => "browser version not found"@,
            CauseView::IncompatibleVersions { driver, browser } =>
                "incompatible web driver and browser versions: "@ + driver + " != "@ + browser,
        }
    }
}

impl View for Cause {
    type V = CauseView;

    open spec fn view(&self) -> CauseView {
        match self {
            Cause::Outside(message) => CauseView::Outside(message@),
            Cause::NotFound => CauseView::NotFound,
            Cause::Timeout => CauseView::Timeout,
            Cause::LoginFormNotFound => CauseView::LoginFormNotFound,
            Cause::RetryExhausted { attempts } => CauseView::RetryExhausted {
                attempts: *attempts as nat,
            },
            Cause::MalformedTable { dates, yields } => CauseView::MalformedTable {
                dates: *dates as nat,
                yields: *yields as nat,
            },
            Cause::WrongMonth { date, month } => CauseView::WrongMonth {
                date: date@,
                month: month@,
            },
            Cause::MissingStationLink => CauseView::MissingStationLink,
            Cause::MissingStationId => CauseView::MissingStationId,
            Cause::InvalidPattern => CauseView::InvalidPattern,
            Cause::DriverVersionNotFound => CauseView::DriverVersionNotFound,
            Cause::BrowserVersionNotFound => CauseView::BrowserVersionNotFound,
            Cause::IncompatibleVersions { driver, browser } => CauseView::IncompatibleVersions {
                driver: driver@,
                browser: browser@,
            },
        }
    }
}

impl Clone for Cause {
    fn clone(&self) -> (r: Self)
        ensures
            r@ == self@,
    {
        match self {
            Cause::Outside(message) => Cause::Outside(message.clone()),
            Cause::NotFound => Cause::NotFound,
            Cause::Timeout => Cause::Timeout,
            Cause::LoginFormNotFound => Cause::LoginFormNotFound,
            Cause::RetryExhausted { attempts } => Cause::RetryExhausted { attempts: *attempts },
            Cause::MalformedTable { dates, yields } => Cause::MalformedTable {
                dates: *dates,
                yields: *yields,
            },
            Cause::WrongMonth { date, month } => Cause::WrongMonth {
                date: date.clone(),
                month: month.clone(),
            },
            Cause::MissingStationLink => Cause::MissingStationLink,
            Cause::MissingStationId => Cause::MissingStationId,
            Cause::InvalidPattern => Cause::InvalidPattern,
            Cause::DriverVersionNotFound => Cause::DriverVersionNotFound,
            Cause::BrowserVersionNotFound => Cause::BrowserVersionNotFound,
            Cause::IncompatibleVersions { driver, browser } => Cause::IncompatibleVersions {
                driver: driver.clone(),
                browser: browser.clone(),
            },
        }
    }
}

impl Cause {
    /// The cause in words.
    pub fn text(&self) -> (r: String)
        ensures
            r@ == self@.text(),
    {
        match self {
            Cause::Outside(message) => message.clone(),
            Cause::NotFound => "element not found".to_owned(),
            Cause::Timeout => "timed out waiting for element".to_owned(),
            Cause::LoginFormNotFound => "failed to find login form".to_owned(),
            Cause::RetryExhausted { attempts } => {
                let count = decimal_string(*attempts as u64);
                "retry budget exhausted after ".to_owned().concat(count.as_str()).concat(
                    " attempts",
                )
            },
            Cause::MalformedTable { dates, yields } => {
                let d = decimal_string(*dates as u64);
                let y = decimal_string(*yields as u64);
                "malformed report table: found ".to_owned().concat(d.as_str()).concat(
                    " date cells and ",
                ).concat(y.as_str()).concat(" yield cells")
            },
            Cause::WrongMonth { date, month } => {
                "got data for the wrong month: ".to_owned().concat(date.as_str()).concat(
                    " in not in ",
                ).concat(month.as_str())
            },
            Cause::MissingStationLink => "missing link in station name".to_owned(),
            Cause::MissingStationId => "missing station id in link".to_owned(),
            Cause::InvalidPattern => "invalid pattern for station links".to_owned(),
            Cause::DriverVersionNotFound => "webdriver version not found".to_owned(),
            Cause::BrowserVersionNotFound => "browser version not found".to_owned(),
            Cause::IncompatibleVersions { driver, browser } => {
                "incompatible web driver and browser versions: ".to_owned().concat(
                    driver.as_str(),
                ).concat(" != ").concat(browser.as_str())
            },
        }
    }
}

/// The views of a sequence of notes, in the same order.
pub open spec fn note_views(notes: Seq<String>) -> Seq<Seq<char>> {
    notes.map_values(|s: String| s@)
}

/// A cause with the notes of the layers it has passed, the innermost first.
#[derive(Debug)]
pub struct Failure {
    pub cause: Cause,
    pub context: Vec<String>,
}

/// A failure as contracts see it.
pub struct FailureView {
    pub cause: CauseView,
    pub context: Seq<Seq<char>>,
}

/// The notes from the outermost to the innermost, each followed by `": "`,
/// and then the cause.
pub open spec fn chain_text(context: Seq<Seq<char>>, cause: Seq<char>) -> Seq<char>
    decreases context.len(),
{
    if context.len() == 0 {
        cause
    } else {
        context.last() + ": "@ + chain_text(context.drop_last(), cause)
    }
}

impl FailureView {
    /// The failure with one more note around it.
    pub open spec fn noted(self, note: Seq<char>) -> FailureView {
        FailureView { cause: self.cause, context: self.context.push(note) }
    }

    /// The whole failure in words.
    pub open spec fn text(self) -> Seq<char> {
        chain_text(self.context, self.cause.text())
    }
}

impl View for Failure {
    type V = FailureView;

    open spec fn view(&self) -> FailureView {
        FailureView { cause: self.cause@, context: note_views(self.context@) }
    }
}

impl Clone for Failure {
    fn clone(&self) -> (r: Self)
        ensures
            r@ == self@,
    {
        let mut context: Vec<String> = Vec::new();
        let mut i: usize = 0;
        while i < self.context.len()
            invariant
                i <= self.context.len(),
                context@ == self.context@.take(i as int),
            decreases self.context.len() - i,
        {
            context.push(self.context[i].clone());
            proof {
                assert(context@ =~= self.context@.take(i + 1));
            }
            i += 1;
        }
        proof {
            assert(self.context@.take(self.context.len() as int) =~= self.context@);
        }
        Failure { cause: self.cause.clone(), context }
    }
}

impl Failure {
    /// A failure that no layer has annotated yet.
    pub fn new(cause: Cause) -> (r: Self)
        ensures
            r@ == (FailureView { cause: cause@, context: Seq::empty() }),
    {
        let r = Failure { cause, context: Vec::new() };
        proof {
            assert(r@.context =~= Seq::empty());
        }
        r
    }

    /// A failure that something outside reported, by its message.
    pub fn outside(message: String) -> (r: Self)
        ensures
            r@ == (FailureView { cause: CauseView::Outside(message@), context: Seq::empty() }),
    {
        Failure::new(Cause::Outside(message))
    }

    /// Adds a note on what was being done. The cause and the earlier notes
    /// stay as they are.
    pub fn context(self, note: &str) -> (r: Self)
        ensures
            r@ == self@.noted(note@),
    {
        let mut r = self;
        r.context.push(note.to_owned());
        proof {
            assert(r@.context =~= self@.context.push(note@));
        }
        r
    }

    /// The whole failure in words: the notes from the outermost inwards,
    /// then the cause, separated by `": "`.
    pub fn to_string(&self) -> (r: String)
        ensures
            r@ == self@.text(),
    {
        let cause = self.cause.text();
        let mut out = String::new();
        let mut i: usize = self.context.len();
        let ghost notes = note_views(self.context@);
        proof {
            assert(notes.take(i as int) =~= notes);
        }
        while i > 0
            invariant
                i <= self.context.len(),
                notes == note_views(self.context@),
                cause@ == self.cause@.text(),
                out@ + chain_text(notes.take(i as int), cause@) == chain_text(notes, cause@),
            decreases i,
        {
            i -= 1;
            proof {
                let before = notes.take(i + 1);
                assert(before.last() == notes[i as int]);
                assert(before.drop_last() =~= notes.take(i as int));
                assert(notes[i as int] == self.context@[i as int]@);
            }
            let ghost prior = out@;
            out = out.concat(self.context[i].as_str()).concat(": ");
            proof {
                let rest = chain_text(notes.take(i as int), cause@);
                assert(out@ + rest =~= prior + (notes[i as int] + ": "@ + rest));
            }
        }
        out.concat(cause.as_str())
    }
}

} // verus!
