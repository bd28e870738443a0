//! What the harness asks of a test runner, and what a runner reports about
//! its test.

use vstd::prelude::*;
use crate::feedback::Feedback;
use crate::instructions::Instruction;

verus! {

/// What a runner wants done before it is asked again.
#[derive(Debug, Clone, PartialEq, Eq)]
pub enum Advance {
    /// Run this instruction and come back with its feedback.
    Run(Instruction),
    /// Load this script and hand it over.
    Load(MacroRequest),
    /// Nothing more: the test has ended.
    Done,
}

impl Advance {
    /// Whether two answers ask for the same: instructions that are the
    /// same, the same script, or the end.
    pub open spec fn same(self, other: Advance) -> bool {
        match (self, other) {
            (Advance::Run(a), Advance::Run(b)) => a.same(b),
            _ => self == other,
        }
    }
}

/// A script that a runner needs in order to go on.
#[derive(Debug, Clone, PartialEq, Eq)]
pub struct MacroRequest {
    /// Name of the macro step
    pub name: String,
    /// Path of the script, as the step gives it
    pub file: String,
    /// Path of the script that holds the step, if it came from a file: the
    /// step's path is relative to its directory
    pub base: Option<String>,
}

/// A script that was loaded for a runner.
#[derive(Debug, Clone, PartialEq, Eq)]
pub struct LoadedMacro {
    /// The script
    pub test: crate::structure::Test,
    /// The path it was loaded from
    pub path: String,
}

/// A test runner as the harness drives it: much like an iterator, but one
/// that is told how the last instruction went.
pub trait TestRunner: Send + Sync {
    /// Takes the feedback of the last instruction and says what to do next.
    fn next(&mut self, feedback: Feedback) -> Advance;

    /// Takes the script that the last `Load` asked for, or `None` where it
    /// could not be had, and says what to do next.
    fn supply(&mut self, loaded: Option<LoadedMacro>) -> Advance;

    /// Information about the test.
    fn meta(&self) -> TestMetadata;
}

/// Information about a test and its run.
#[derive(Default, Clone, Debug, PartialEq, Eq)]
pub struct TestMetadata {
    /// Test name
    pub name: String,
    /// Test ID
    pub id: String,
    /// Test dump file
    pub output: Option<String>,
    /// Test author
    pub author: Option<String>,
    /// Was the test successful, or (if incomplete) is it currently passing?
    pub success: bool,
}

impl TestMetadata {
    /// The line that reports the test in the log.
    pub open spec fn text(&self) -> Seq<char> {
        "TEST "@ + self.id@ + ": "@ + self.name@ + (match self.author {
            Some(author) => " by "@ + author@,
            None => Seq::empty(),
        }) + (if self.success {
            " SUCCESS"@
        } else {
            " FAILURE"@
        }) + (match self.output {
            Some(output) => " ("@ + output@ + ")"@,
            None => Seq::empty(),
        })
    }

    /// Writes the line that reports the test in the log.
    pub fn to_text(&self) -> (r: String)
        ensures
            r@ == self.text(),
    {
        let mut r = String::from_str("TEST ");
        r.append(self.id.as_str());
        r.append(": ");
        r.append(self.name.as_str());
        match &self.author {
            Some(author) => {
                r.append(" by ");
                r.append(author.as_str());
            },
            None => {},
        }
        if self.success {
            r.append(" SUCCESS");
        } else {
            r.append(" FAILURE");
        }
        match &self.output {
            Some(output) => {
                r.append(" (");
                r.append(output.as_str());
                r.append(")");
            },
            None => {},
        }
        r
    }

    /// The outcome of a test that its runner describes as `self` and whose
    /// instructions went as `passing` says: it is a success exactly if the
    /// feedback of every instruction was ok, whatever the runner itself
    /// reports.
    pub open spec fn concluded(self, passing: bool) -> TestMetadata {
        TestMetadata { success: passing, ..self }
    }

    /// A copy of the record.
    pub fn duplicate(&self) -> (r: TestMetadata)
        ensures
            r == *self,
    {
        TestMetadata {
            name: self.name.clone(),
            id: self.id.clone(),
            output: match &self.output {
                Some(output) => Some(output.clone()),
                None => None,
            },
            author: match &self.author {
                Some(author) => Some(author.clone()),
                None => None,
            },
            success: self.success,
        }
    }

    /// Closes the record of a test: it is a success exactly if the feedback
    /// of every instruction was ok.
    pub fn conclude(self, passing: bool) -> (r: TestMetadata)
        ensures
            r == self.concluded(passing),
    {
        let mut r = self;
        r.success = passing;
        r
    }
}

} // verus!
