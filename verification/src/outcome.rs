//! What one predicate invocation, and what a whole test, can end in.

use vstd::prelude::*;
use vstd::string::*;
use std::fmt::{Debug, Display};
use crate::text::debug_text;

verus! {

/// Errors which a test case returns to say that it did not complete
/// successfully.
#[derive(Debug, Clone)]
pub enum TestCaseError {
    /// The input was not valid for the test case. This is neither a failure
    /// nor a success: it asks for another input. The string says where the
    /// input was rejected.
    Reject(String),
    /// The code under test failed the test. The string says where or why.
    Fail(String),
}

/// The type returned by test cases.
pub type TestCaseResult = Result<(), TestCaseError>;

impl TestCaseError {
    /// The text that the error carries: the place of a rejection, or the
    /// reason of a failure.
    pub open spec fn text(&self) -> Seq<char> {
        match *self {
            TestCaseError::Reject(whence) => whence@,
            TestCaseError::Fail(why) => why@,
        }
    }

    /// What `to_string` renders.
    pub open spec fn rendering(&self) -> Seq<char> {
        match *self {
            TestCaseError::Reject(whence) => "Input rejected at "@ + whence@,
            TestCaseError::Fail(why) => "Case failed: "@ + why@,
        }
    }

    /// The failure that stands for an error that the code under test
    /// returned: its reason is the error as `Display` writes it.
    pub fn from_error<E: Display>(cause: &E) -> (e: Self)
        ensures
            e matches TestCaseError::Fail(why) && to_string_from_display_ensures::<E>(cause, why),
    {
        TestCaseError::Fail(cause.to_string())
    }

    /// The failure that stands for a predicate that ended abnormally: it
    /// carries the message of the panic, or a fixed text where the panic had
    /// no message that is a text.
    pub fn from_panic(message: Option<String>) -> (e: Self)
        ensures
            e is Fail,
            e.text() == match message {
                Some(text) => text@,
                None => "<unknown panic value>"@,
            },
    {
        match message {
            Some(text) => TestCaseError::Fail(text),
            None => TestCaseError::Fail("<unknown panic value>".to_owned()),
        }
    }

    /// The error as a line of text for the person who runs the test.
    pub fn to_string(&self) -> (s: String)
        ensures
            s@ == self.rendering(),
    {
        match self {
            TestCaseError::Reject(whence) => String::from_str("Input rejected at ").concat(
                whence.as_str(),
            ),
            TestCaseError::Fail(why) => String::from_str("Case failed: ").concat(why.as_str()),
        }
    }
}

/// A failure state from running test cases for a single test.
#[derive(Debug, Clone, PartialEq, Eq)]
pub enum TestError<T> {
    /// The test was aborted for the given reason, for example because too
    /// many inputs were rejected.
    Abort(String),
    /// A failing test case was found. The string says where or why the test
    /// failed; the `T` is the minimal input found to reproduce the failure.
    Fail(String, T),
}

impl<T> TestError<T> {
    /// The reason text that the error carries.
    pub open spec fn reason(&self) -> Seq<char> {
        match *self {
            TestError::Abort(why) => why@,
            TestError::Fail(why, _) => why@,
        }
    }

    /// What `describe` renders, where `what` renders the failing input.
    pub open spec fn rendering(&self, what: Seq<char>) -> Seq<char> {
        match *self {
            TestError::Abort(why) => "Test aborted: "@ + why@,
            TestError::Fail(why, _) => "Test failed: "@ + why@ + "; minimal failing input: "@
                + what,
        }
    }

    /// The error as a line of text for the person who runs the test, where
    /// `what` is the rendering of the failing input.
    pub fn describe(&self, what: &str) -> (s: String)
        ensures
            s@ == self.rendering(what@),
    {
        match self {
            TestError::Abort(why) => String::from_str("Test aborted: ").concat(why.as_str()),
            TestError::Fail(why, _) => String::from_str("Test failed: ").concat(
                why.as_str(),
            ).concat("; minimal failing input: ").concat(what),
        }
    }

    /// The error as a line of text for the person who runs the test. The
    /// failing input is rendered as its `Debug` impl writes it.
    pub fn to_string(&self) -> (s: String) where T: Debug
        ensures
            exists|what: Seq<char>| s@ == #[trigger] self.rendering(what),
    {
        match self {
            TestError::Abort(_) => {
                let s = self.describe("");
                assert(s@ == self.rendering(""@));
                s
            },
            TestError::Fail(_, input) => {
                let what = debug_text(input);
                let s = self.describe(what.as_str());
                assert(s@ == self.rendering(what@));
                s
            },
        }
    }

    /// A one-word name of the kind of error.
    pub fn description(&self) -> (s: &'static str)
        ensures
            self is Abort ==> s@ == "Abort"@,
            self is Fail ==> s@ == "Fail"@,
    {
        match self {
            TestError::Abort(..) => "Abort",
            TestError::Fail(..) => "Fail",
        }
    }
}

} // verus!
