//! What the execution of one instruction reports back to the runner.

use vstd::prelude::*;
use crate::value::JsonValue;

verus! {

/// The outcome of the instruction that was run last.
#[derive(Debug, Clone, PartialEq, Eq)]
pub enum Feedback {
    /// Nothing has run yet.
    Start,
    /// The instruction succeeded.
    Success,
    /// The instruction succeeded and produced a value.
    Value(JsonValue),
    /// The instruction was an assertion, and its comparison did not hold.
    AssertFailure,
    /// The instruction could not be carried out.
    Error,
    /// The adapter does not offer what the instruction asks for.
    Unsupported,
}

impl Feedback {
    /// Whether a test that got this feedback is still passing.
    pub open spec fn ok(&self) -> bool {
        *self is Start || *self is Success || *self is Value
    }

    /// Whether this feedback fails the test.
    pub open spec fn failing(&self) -> bool {
        *self is AssertFailure || *self is Error || *self is Unsupported
    }

    /// Feedback of regular operation: `Start`, `Success` or `Value`.
    pub fn is_ok(&self) -> (r: bool)
        ensures
            r == self.ok(),
    {
        match self {
            Feedback::Success => true,
            Feedback::Start => true,
            Feedback::Value(_) => true,
            _ => false,
        }
    }

    /// Feedback of a hard error: `Error` alone.
    pub fn is_err(&self) -> (r: bool)
        ensures
            r == (*self is Error),
    {
        match self {
            Feedback::Error => true,
            _ => false,
        }
    }

    /// Feedback of a failing test: `AssertFailure`, `Error` or `Unsupported`.
    pub fn is_fail(&self) -> (r: bool)
        ensures
            r == self.failing(),
    {
        match self {
            Feedback::AssertFailure => true,
            Feedback::Error => true,
            Feedback::Unsupported => true,
            _ => false,
        }
    }

    /// Every feedback is either ok or failing, never both, and a hard error
    /// is failing.
    pub proof fn lemma_ok_or_failing(self)
        ensures
            self.ok() != self.failing(),
            self is Error ==> self.failing(),
    {
    }
}

} // verus!
