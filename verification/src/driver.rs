//! The driver process: whether it fits the browser, and how it is started.

use crate::failure::Cause;
use crate::failure::CauseView;
use crate::failure::Failure;
use crate::failure::FailureView;
use crate::pattern::find_named;
use crate::pattern::named_capture;
use crate::text::decimal;
use crate::text::decimal_string;
use vstd::prelude::*;
use vstd::string::*;

verus! {

/// The pattern of a major version: a run of digits, as the group
/// `version`.
pub const MAJOR_VERSION: &'static str = "(?<version>\\d+)";

/// The name of the group that holds the version in that pattern.
pub const VERSION_GROUP: &'static str = "version";

/// The width of the browser's window.
pub const WINDOW_WIDTH: u32 = 1920;

/// The height of the browser's window.
pub const WINDOW_HEIGHT: u32 = 1080;

/// What `String::from_utf8_lossy` makes of bytes.
pub uninterp spec fn lossy_text(bytes: Seq<u8>) -> Seq<char>;

/// `String::from_utf8_lossy` of the standard library, which reads bytes as
/// UTF-8 and puts U+FFFD where they are none. The contract only names the
/// result.
#[verifier::external_body]
fn from_utf8_lossy(bytes: &[u8]) -> (r: String)
    ensures
        r@ == lossy_text(bytes@),
{
    String::from_utf8_lossy(bytes).into_owned()
}

/// The major version that a program's version output names: what the
/// first run of digits in it spells.
pub open spec fn version_in(output: Seq<char>) -> Option<Seq<char>> {
    match named_capture(MAJOR_VERSION@, output, VERSION_GROUP@) {
        Some(found) => found,
        None => None,
    }
}

/// The view of a text that may be missing.
pub open spec fn text_view(text: Option<String>) -> Option<Seq<char>> {
    match text {
        Some(text) => Some(text@),
        None => None,
    }
}

/// Finds the major version in a program's version output.
pub fn major_version(output: &str) -> (r: Option<String>)
    ensures
        text_view(r) == version_in(output@),
{
    match find_named(MAJOR_VERSION, output, VERSION_GROUP) {
        Some(found) => found,
        None => None,
    }
}

/// Whether two major versions fit, and the failure if they do not.
pub open spec fn versions_fit(driver: Option<Seq<char>>, browser: Option<Seq<char>>) -> Option<
    CauseView,
> {
    match (driver, browser) {
        (None, _) => Some(CauseView::DriverVersionNotFound),
        (Some(_), None) => Some(CauseView::BrowserVersionNotFound),
        (Some(d), Some(b)) => if d == b {
            None
        } else {
            Some(CauseView::IncompatibleVersions { driver: d, browser: b })
        },
    }
}

/// Holds the driver's major version against the browser's.
///
/// Both must have been found and must be the same text. The failure names
/// the one that is missing, the driver's first, or both where they differ.
pub fn check_versions(driver: Option<String>, browser: Option<String>) -> (r: Result<(), Failure>)
    ensures
        match versions_fit(text_view(driver), text_view(browser)) {
            None => r is Ok,
            Some(cause) => r is Err && r->Err_0@ == (FailureView {
                cause,
                context: Seq::empty(),
            }),
        },
{
    match driver {
        None => Err(Failure::new(Cause::DriverVersionNotFound)),
        Some(d) => match browser {
            None => Err(Failure::new(Cause::BrowserVersionNotFound)),
            Some(b) => if d == b {
                Ok(())
            } else {
                Err(Failure::new(Cause::IncompatibleVersions { driver: d, browser: b }))
            },
        },
    }
}

/// Makes sure that driver and browser are of one major version, from what
/// each printed when asked for its version.
pub fn assert_driver_compatible(driver_output: &[u8], browser_output: &[u8]) -> (r: Result<
    (),
    Failure,
>)
    ensures
        match versions_fit(
            version_in(lossy_text(driver_output@)),
            version_in(lossy_text(browser_output@)),
        ) {
            None => r is Ok,
            Some(cause) => r is Err && r->Err_0@ == (FailureView {
                cause,
                context: Seq::empty(),
            }),
        },
{
    let driver = major_version(from_utf8_lossy(driver_output).as_str());
    let browser = major_version(from_utf8_lossy(browser_output).as_str());
    check_versions(driver, browser)
}

/// Whether the program that ends an earlier driver has done so: it says
/// `0` when it ended one and `128` when there was none.
pub fn previous_driver_gone(exit_code: Option<i32>) -> (r: bool)
    ensures
        r == (exit_code == Some(0i32) || exit_code == Some(128i32)),
{
    match exit_code {
        Some(code) => code == 0 || code == 128,
        None => false,
    }
}

/// The arguments that the driver is started with: the port, and the base
/// of its addresses.
pub fn driver_arguments(port: u16) -> (r: Vec<String>)
    ensures
        r@.len() == 3,
        r@[0]@ == "--port="@ + decimal(port as nat),
        r@[1]@ == "--url-base"@,
        r@[2]@ == "srss"@,
{
    let mut r: Vec<String> = Vec::new();
    r.push("--port=".to_owned().concat(decimal_string(port as u64).as_str()));
    r.push("--url-base".to_owned());
    r.push("srss".to_owned());
    r
}

/// The address at which a driver that was started on `port` takes
/// sessions.
pub fn session_url(port: u16) -> (r: String)
    ensures
        r@ == "http://localhost:"@ + decimal(port as nat) + "/srss"@,
{
    "http://localhost:".to_owned().concat(decimal_string(port as u64).as_str()).concat("/srss")
}

} // verus!
