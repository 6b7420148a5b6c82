//! Regions of the page and what is looked for in them.
//!
//! A region is an area of the page with parts that have names. A part is
//! looked up each time it is needed and never kept: the page redraws itself
//! at its own pace, and an element found a moment ago may be gone.

use crate::failure::Cause;
use crate::failure::CauseView;
use crate::failure::Failure;
use crate::failure::FailureView;
use crate::retry::RetryAttemptOutcome;
use vstd::prelude::*;

verus! {

/// How an element is found.
#[derive(Clone, Copy, Debug, PartialEq, Eq)]
pub enum Locator {
    Id(&'static str),
    Css(&'static str),
    XPath(&'static str),
    ClassName(&'static str),
}

/// How long to look for an element.
#[derive(Clone, Copy, Debug, PartialEq, Eq, Structural)]
pub enum Resolution {
    /// Look once: an element that is not there now is not found.
    Lazy,
    /// Wait until the element is shown and enabled, for as long as the
    /// session allows.
    Present,
}

/// A named part of a region.
#[derive(Clone, Copy, Debug, PartialEq, Eq)]
pub struct Part {
    /// What the part is, in words.
    pub description: &'static str,
    pub locator: Locator,
    pub resolution: Resolution,
}

/// What came of looking something up on the page.
#[derive(Debug)]
pub enum Lookup<T> {
    /// It is there.
    Found(T),
    /// It is not there, or did not show up in time.
    Missing,
    /// The session failed, with this message.
    Broken(String),
}

/// The failure of a part that was not found, or `None` if it was found.
pub open spec fn lookup_failure<T>(part: Part, lookup: Lookup<T>) -> Option<FailureView> {
    match lookup {
        Lookup::Found(_) => None,
        Lookup::Missing => Some(
            FailureView {
                cause: match part.resolution {
                    Resolution::Lazy => CauseView::NotFound,
                    Resolution::Present => CauseView::Timeout,
                },
                context: seq![part.description@],
            },
        ),
        Lookup::Broken(message) => Some(
            FailureView { cause: CauseView::Outside(message@), context: seq![part.description@] },
        ),
    }
}

/// Whether an attempt that looked a part up has what it looked for, has to
/// look again, or has to stop.
pub open spec fn attempt_verdict<T>(part: Part, lookup: Lookup<T>, r: RetryAttemptOutcome<T, Failure>) -> bool {
    match lookup {
        Lookup::Found(found) => r == RetryAttemptOutcome::<T, Failure>::Break(found),
        Lookup::Missing => r is Continue,
        Lookup::Broken(_) => r matches RetryAttemptOutcome::Fatal(failure) && Some(failure@)
            == lookup_failure(part, lookup),
    }
}

impl Part {
    /// What a lookup of this part comes to.
    ///
    /// A part that was found is handed on. One that is missing fails as
    /// not found where it was looked for once, and as timed out where it
    /// was waited for. A failure of the session is passed on. Each failure
    /// is noted with the part's description.
    pub fn locate<T>(&self, lookup: Lookup<T>) -> (r: Result<T, Failure>)
        ensures
            match lookup {
                Lookup::Found(found) => r == Ok::<T, Failure>(found),
                _ => r is Err && Some(r->Err_0@) == lookup_failure(*self, lookup),
            },
    {
        let failure = match lookup {
            Lookup::Found(found) => {
                return Ok(found);
            },
            Lookup::Missing => match self.resolution {
                Resolution::Lazy => Failure::new(Cause::NotFound),
                Resolution::Present => Failure::new(Cause::Timeout),
            },
            Lookup::Broken(message) => Failure::outside(message),
        };
        let failure = failure.context(self.description);
        proof {
            assert(failure@.context =~= seq![self.description@]);
        }
        Err(failure)
    }

    /// What a lookup of this part means to an attempt that is retried: a
    /// part that was found ends the attempts, one that is missing calls for
    /// another, and a failure of the session ends them for good.
    pub fn attempt<T>(&self, lookup: Lookup<T>) -> (r: RetryAttemptOutcome<T, Failure>)
        ensures
            attempt_verdict(*self, lookup, r),
    {
        match lookup {
            Lookup::Found(found) => RetryAttemptOutcome::Break(found),
            Lookup::Missing => RetryAttemptOutcome::Continue,
            Lookup::Broken(message) => {
                let failure = Failure::outside(message).context(self.description);
                proof {
                    assert(failure@.context =~= seq![self.description@]);
                }
                RetryAttemptOutcome::Fatal(failure)
            },
        }
    }
}

/// A key that is no character.
#[derive(Clone, Copy, Debug, PartialEq, Eq, Structural)]
pub enum Key {
    Up,
    Down,
    Enter,
    Backspace,
    Control,
}

/// One move of mouse or keyboard.
#[derive(Debug)]
pub enum Gesture {
    /// Click on a part, which also gives it the focus.
    Click(Part),
    /// Press and release a key.
    Press(Key),
    /// Type a text.
    Type(String),
    /// Press a key and keep it down.
    Hold(Key),
    /// Release a key that was kept down.
    Release(Key),
}

/// A gesture as contracts see it.
pub enum GestureView {
    Click(Part),
    Press(Key),
    Type(Seq<char>),
    Hold(Key),
    Release(Key),
}

impl View for Gesture {
    type V = GestureView;

    open spec fn view(&self) -> GestureView {
        match self {
            Gesture::Click(part) => GestureView::Click(*part),
            Gesture::Press(key) => GestureView::Press(*key),
            Gesture::Type(text) => GestureView::Type(text@),
            Gesture::Hold(key) => GestureView::Hold(*key),
            Gesture::Release(key) => GestureView::Release(*key),
        }
    }
}

/// The views of a sequence of gestures, in the same order.
pub open spec fn gesture_views(gestures: Seq<Gesture>) -> Seq<GestureView> {
    gestures.map_values(|g: Gesture| g@)
}

/// What the page must show for an action to count as done.
#[derive(Debug)]
pub enum Expectation {
    /// The part is shown.
    Shown,
    /// The part's form value is this text.
    Value(String),
    /// The part's attribute of this name is this text.
    Attribute(&'static str, String),
}

/// A look at the page that tells whether an action has taken effect. It
/// reads something other than what the action touched.
#[derive(Debug)]
pub struct Check {
    pub part: Part,
    pub expectation: Expectation,
}

/// The text that a check compares: what was read, or nothing where nothing
/// could be read.
pub open spec fn read_text(seen: Option<String>) -> Seq<char> {
    match seen {
        Some(text) => text@,
        None => Seq::empty(),
    }
}

impl Check {
    /// Whether what was read is what the check expects.
    pub open spec fn met(self, seen: Option<String>) -> bool {
        match self.expectation {
            Expectation::Shown => true,
            Expectation::Value(expected) => read_text(seen) == expected@,
            Expectation::Attribute(_, expected) => read_text(seen) == expected@,
        }
    }

    /// Says what a reading means for the action that is being retried.
    ///
    /// `seen` is what came of looking the check's part up and reading its
    /// value or attribute; a part that is only to be shown has nothing to
    /// read. The action is done if the part was found and reads as expected,
    /// where a value that is not set reads as the empty text. It is to be
    /// tried again if the part is missing or reads otherwise. A failure of
    /// the session ends the attempts.
    pub fn verdict(&self, seen: Lookup<Option<String>>) -> (r: RetryAttemptOutcome<(), Failure>)
        ensures
            match seen {
                Lookup::Found(text) => if self.met(text) {
                    r is Break
                } else {
                    r is Continue
                },
                Lookup::Missing => r is Continue,
                Lookup::Broken(_) => r matches RetryAttemptOutcome::Fatal(failure) && Some(
                    failure@,
                ) == lookup_failure(self.part, seen),
            },
    {
        match seen {
            Lookup::Found(text) => {
                let met = match &self.expectation {
                    Expectation::Shown => true,
                    Expectation::Value(expected) => match &text {
                        Some(text) => *text == *expected,
                        None => expected.as_str().is_empty(),
                    },
                    Expectation::Attribute(_, expected) => match &text {
                        Some(text) => *text == *expected,
                        None => expected.as_str().is_empty(),
                    },
                };
                proof {
                    assert(met == self.met(text)) by {
                        if text is None {
                            match self.expectation {
                                Expectation::Shown => {},
                                Expectation::Value(expected) => {
                                    assert((expected@.len() == 0) == (Seq::<char>::empty()
                                        =~= expected@));
                                },
                                Expectation::Attribute(_, expected) => {
                                    assert((expected@.len() == 0) == (Seq::<char>::empty()
                                        =~= expected@));
                                },
                            }
                        }
                    }
                }
                if met {
                    RetryAttemptOutcome::Break(())
                } else {
                    RetryAttemptOutcome::Continue
                }
            },
            Lookup::Missing => RetryAttemptOutcome::Continue,
            Lookup::Broken(message) => {
                let failure = Failure::outside(message).context(self.part.description);
                proof {
                    assert(failure@.context =~= seq![self.part.description@]);
                }
                RetryAttemptOutcome::Fatal(failure)
            },
        }
    }
}

/// An action with the check that confirms it: the gestures are made, then
/// the check is read, and the two are repeated until the check is met.
#[derive(Debug)]
pub struct Act {
    /// What the action is for, in words.
    pub description: &'static str,
    pub gestures: Vec<Gesture>,
    pub check: Check,
}

impl Act {
    /// What the making of the gestures means to the attempt, before the
    /// check is read. Gestures that were made lead on to the check, which
    /// `None` stands for. Gestures that met no element, or one that did
    /// not take them, call for another attempt. A failure of the session
    /// ends the attempts, and is noted with the action's description.
    pub fn after_gestures(&self, made: Lookup<()>) -> (r: Option<RetryAttemptOutcome<(), Failure>>)
        ensures
            match made {
                Lookup::Found(_) => r is None,
                Lookup::Missing => r matches Some(RetryAttemptOutcome::Continue),
                Lookup::Broken(message) => r matches Some(RetryAttemptOutcome::Fatal(failure))
                    && failure@ == (FailureView {
                    cause: CauseView::Outside(message@),
                    context: seq![self.description@],
                }),
            },
    {
        match made {
            Lookup::Found(_) => None,
            Lookup::Missing => Some(RetryAttemptOutcome::Continue),
            Lookup::Broken(message) => {
                let failure = Failure::outside(message).context(self.description);
                proof {
                    assert(failure@.context =~= seq![self.description@]);
                }
                Some(RetryAttemptOutcome::Fatal(failure))
            },
        }
    }
}

} // verus!
