//! The instruction model: what a script can ask of a target, free of any
//! document format.

use vstd::prelude::*;
use crate::text::{contains, occurs_in, trim, trimmed};
use crate::value::{json_text, render, JsonModel, JsonValue};

verus! {

/// One thing for the harness to do.
#[derive(Debug, Clone, PartialEq, Eq)]
pub enum Instruction {
    /// Check a condition.
    Assertion(TestAssert),
    /// Act on the target.
    Operation(TestOp),
}

/// An assertion and the tab it is about.
#[derive(Debug, Clone, PartialEq, Eq)]
pub struct TestAssert {
    /// Tab context
    pub context: TabSelector,
    /// What to check
    pub assertion: GeneralAssertType,
}

/// What an assertion checks.
#[derive(Debug, Clone, PartialEq, Eq)]
pub enum GeneralAssertType {
    /// A check on an element
    Element(ElementAssert),
    /// A check on the tab
    Tab(TabAssert),
}

/// A check on an element.
#[derive(Debug, Clone, PartialEq, Eq)]
pub struct ElementAssert {
    /// Element to read
    pub element: ElementSelector,
    /// What to read of it, and what to compare it with
    pub assert: ElementAssertionType,
}

/// What is read of an element, with the comparison to make.
#[derive(Debug, Clone, PartialEq, Eq)]
pub enum ElementAssertionType {
    /// The element's text
    Value(Comparison),
    /// One of the element's attributes
    Attribute {
        /// Attribute name
        attribute: String,
        /// Comparison to make
        comparison: Comparison,
    },
}

/// A check on a tab.
#[derive(Debug, Clone, PartialEq, Eq)]
pub enum TabAssert {
    /// Run a script in the tab and compare what it evaluates to.
    Evaluate {
        /// Script text
        script: String,
        /// Comparison to make
        comparison: Comparison,
    },
}

/// How an actual value is compared.
#[derive(Debug, Clone, PartialEq, Eq)]
pub enum Comparison {
    /// There is a value.
    Exists,
    /// There is a value, and it is neither null nor the empty string.
    ExistsNotEmpty,
    /// The value is a string that, trimmed, is the expected text.
    TextEquals(String),
    /// The value is a string that contains the expected text.
    TextContains(String),
    /// The value equals the expected value.
    Equals(JsonValue),
    /// The value differs from the expected value.
    NotEquals(JsonValue),
}

/// An operation and the tab it acts on.
#[derive(Debug, Clone, PartialEq, Eq)]
pub struct TestOp {
    /// Tab context
    pub context: TabSelector,
    /// What to do
    pub op: GeneralOpType,
}

/// How an element is found in a tab.
#[derive(Debug, Clone, PartialEq, Eq)]
pub enum ElementSelector {
    /// By a CSS selector
    CSS(String),
}

/// How a tab is found.
#[derive(Debug, Clone, PartialEq, Eq)]
pub enum TabSelector {
    /// By its exact title
    Title(String),
    /// By a pattern that its title matches
    TitleRegex(String),
    /// By its exact URL
    Url(String),
    /// By a pattern that its URL matches
    UrlRegex(String),
    /// By its identifier
    Id(String),
}

/// What an operation does.
#[derive(Debug, Clone, PartialEq, Eq)]
pub enum GeneralOpType {
    /// Act on an element
    Element(ElementOp),
    /// Act on the tab
    Tab(TabOpType),
}

/// An operation on a tab.
#[derive(Debug, Clone, PartialEq, Eq)]
pub enum TabOpType {
    /// Pause, for a time in milliseconds
    Sleep(u64),
    /// Run a script in the tab
    Evaluate(String),
}

/// An operation on an element.
#[derive(Debug, Clone, PartialEq, Eq)]
pub struct ElementOp {
    /// Element to act on
    pub context: ElementSelector,
    /// What to do with it
    pub op: ElementOpType,
}

/// What is done with an element.
#[derive(Debug, Clone, Copy, PartialEq, Eq)]
pub enum ElementOpType {
    /// Click on it
    Click,
    /// Wait for it to appear
    WaitFor,
    /// Give it the focus
    Focus,
    /// Scroll it into view
    ScrollTo,
}

/// The value that a comparison other than the two of existence works on: the
/// actual value, or null where there is none.
pub open spec fn or_null(actual: Option<JsonModel>) -> JsonModel {
    match actual {
        Some(v) => v,
        None => JsonModel::Null,
    }
}

/// The model of an optional value.
pub open spec fn model_of(value: Option<&JsonValue>) -> Option<JsonModel> {
    match value {
        Some(v) => Some(v@),
        None => None,
    }
}

impl Comparison {
    /// Whether two comparisons are the same: of the same kind, with the
    /// same expected text, or with expected values of the same model.
    pub open spec fn same(self, other: Comparison) -> bool {
        match (self, other) {
            (Comparison::Equals(a), Comparison::Equals(b)) => a@ == b@,
            (Comparison::NotEquals(a), Comparison::NotEquals(b)) => a@ == b@,
            _ => self == other,
        }
    }

    /// Whether the comparison holds of an actual value, which may be absent.
    pub open spec fn evaluates(&self, actual: Option<JsonModel>) -> bool {
        match self {
            Comparison::Exists => actual is Some,
            Comparison::ExistsNotEmpty => match actual {
                Some(JsonModel::String(s)) => s.len() > 0,
                Some(v) => !(v is Null),
                None => false,
            },
            Comparison::TextEquals(expected) => match or_null(actual) {
                JsonModel::String(s) => trimmed(s) == expected@,
                _ => false,
            },
            Comparison::TextContains(expected) => match or_null(actual) {
                JsonModel::String(s) => occurs_in(expected@, s),
                _ => false,
            },
            Comparison::Equals(expected) => or_null(actual) == expected@,
            Comparison::NotEquals(expected) => or_null(actual) != expected@,
        }
    }

    /// Whether this is one of the two comparisons of existence, which alone
    /// tell an absent value from null.
    pub open spec fn asks_existence(&self) -> bool {
        *self is Exists || *self is ExistsNotEmpty
    }

    /// Compares an actual value, which may be absent.
    pub fn compare(&self, value: Option<&JsonValue>) -> (r: bool)
        ensures
            r == self.evaluates(model_of(value)),
    {
        match self {
            Comparison::Exists => value.is_some(),
            Comparison::ExistsNotEmpty => match value {
                Some(v) => match v.as_str() {
                    Some(s) => !s.is_empty(),
                    None => !v.is_null(),
                },
                None => false,
            },
            Comparison::TextEquals(expected) => match value {
                Some(v) => match v.as_str() {
                    Some(actual) => {
                        let kept = String::from_str(trim(actual));
                        kept == *expected
                    },
                    None => false,
                },
                None => false,
            },
            Comparison::TextContains(expected) => match value {
                Some(v) => match v.as_str() {
                    Some(actual) => contains(actual, expected.as_str()),
                    None => false,
                },
                None => false,
            },
            Comparison::Equals(expected) => match value {
                Some(v) => v.equals(expected),
                None => expected.is_null(),
            },
            Comparison::NotEquals(expected) => match value {
                Some(v) => !v.equals(expected),
                None => !expected.is_null(),
            },
        }
    }

    /// The sentence that tells what was compared, given the texts of the
    /// actual value, if it was rendered, and of the expected one.
    pub open spec fn sentence(&self, actual: Option<Seq<char>>, expected: Seq<char>) -> Seq<char> {
        match actual {
            None => "None must exist (contradiction!)"@,
            Some(shown) => match self {
                Comparison::Exists => shown + " must exist"@,
                Comparison::ExistsNotEmpty => shown + " must exist"@,
                Comparison::TextEquals(_) => "\""@ + shown + "\" must equal \""@ + expected + "\""@,
                Comparison::TextContains(_) => "\""@ + shown + "\" must contain \""@ + expected + "\""@,
                Comparison::Equals(_) => shown + " == "@ + expected,
                Comparison::NotEquals(_) => shown + " != "@ + expected,
            },
        }
    }

    /// The text of the actual value in the sentence: its JSON text where
    /// there is a value, that of null where a comparison of content finds
    /// none, and nothing where a comparison of existence finds none.
    pub open spec fn shown_actual(&self, actual: Option<JsonModel>) -> Option<Seq<char>> {
        match actual {
            Some(v) => Some(json_text(v)),
            None => if self.asks_existence() {
                None
            } else {
                Some(json_text(JsonModel::Null))
            },
        }
    }

    /// The text of the expected value in the sentence: the expected text as
    /// it is, the JSON text of an expected value, nothing for a comparison of
    /// existence.
    pub open spec fn shown_expected(&self) -> Seq<char> {
        match self {
            Comparison::Exists => Seq::empty(),
            Comparison::ExistsNotEmpty => Seq::empty(),
            Comparison::TextEquals(expected) => expected@,
            Comparison::TextContains(expected) => expected@,
            Comparison::Equals(expected) => json_text(expected@),
            Comparison::NotEquals(expected) => json_text(expected@),
        }
    }

    /// Writes the sentence from the texts of the actual and the expected
    /// value.
    pub fn phrase(&self, actual: Option<&str>, expected: &str) -> (r: String)
        ensures
            r@ == self.sentence(
                match actual {
                    Some(shown) => Some(shown@),
                    None => None,
                },
                expected@,
            ),
    {
        match actual {
            None => String::from_str("None must exist (contradiction!)"),
            Some(shown) => match self {
                Comparison::Exists | Comparison::ExistsNotEmpty => {
                    let mut r = String::from_str(shown);
                    r.append(" must exist");
                    r
                },
                Comparison::TextEquals(_) => {
                    let mut r = String::from_str("\"");
                    r.append(shown);
                    r.append("\" must equal \"");
                    r.append(expected);
                    r.append("\"");
                    r
                },
                Comparison::TextContains(_) => {
                    let mut r = String::from_str("\"");
                    r.append(shown);
                    r.append("\" must contain \"");
                    r.append(expected);
                    r.append("\"");
                    r
                },
                Comparison::Equals(_) => {
                    let mut r = String::from_str(shown);
                    r.append(" == ");
                    r.append(expected);
                    r
                },
                Comparison::NotEquals(_) => {
                    let mut r = String::from_str(shown);
                    r.append(" != ");
                    r.append(expected);
                    r
                },
            },
        }
    }

    /// A sentence for the log that shows the actual and the expected value.
    pub fn pseudocode_assert(&self, value: Option<&JsonValue>) -> (r: String)
        ensures
            r@ == self.sentence(self.shown_actual(model_of(value)), self.shown_expected()),
    {
        let expected = match self {
            Comparison::Exists | Comparison::ExistsNotEmpty => String::new(),
            Comparison::TextEquals(expected) => expected.clone(),
            Comparison::TextContains(expected) => expected.clone(),
            Comparison::Equals(expected) => render(expected),
            Comparison::NotEquals(expected) => render(expected),
        };
        match value {
            Some(v) => {
                let shown = render(v);
                self.phrase(Some(shown.as_str()), expected.as_str())
            },
            None => match self {
                Comparison::Exists | Comparison::ExistsNotEmpty => self.phrase(None, expected.as_str()),
                _ => {
                    let shown = render(&JsonValue::Null);
                    self.phrase(Some(shown.as_str()), expected.as_str())
                },
            },
        }
    }

    /// Comparisons that are the same hold of the same values, and are
    /// explained in the same words.
    pub proof fn lemma_same_says_the_same(self, other: Comparison, actual: Option<JsonModel>)
        requires
            self.same(other),
        ensures
            self.evaluates(actual) == other.evaluates(actual),
            self.sentence(self.shown_actual(actual), self.shown_expected()) == other.sentence(
                other.shown_actual(actual),
                other.shown_expected(),
            ),
    {
    }

    /// No comparison of existence holds of an absent value.
    pub proof fn lemma_absent_does_not_exist(self)
        requires
            self.asks_existence(),
        ensures
            !self.evaluates(None),
    {
    }

    /// A comparison of content takes an absent value for null.
    pub proof fn lemma_absent_is_null(self)
        requires
            !self.asks_existence(),
        ensures
            self.evaluates(None) == self.evaluates(Some(JsonModel::Null)),
    {
    }

    /// `TextEquals` holds of a string exactly when the string, trimmed, is
    /// the expected text; the expected text itself is never trimmed.
    pub proof fn lemma_text_equals(self, actual: Seq<char>)
        requires
            self is TextEquals,
        ensures
            self.evaluates(Some(JsonModel::String(actual))) == (trimmed(actual) == self->TextEquals_0@),
    {
    }

    /// Whitespace around the actual text does not change what `TextEquals`
    /// says of it.
    pub proof fn lemma_text_equals_ignores_padding(self, left: Seq<char>, actual: Seq<char>, right: Seq<char>)
        requires
            self is TextEquals,
            crate::text::all_whitespace(left),
            crate::text::all_whitespace(right),
        ensures
            self.evaluates(Some(JsonModel::String(left + actual + right))) == self.evaluates(
                Some(JsonModel::String(actual)),
            ),
    {
        crate::text::lemma_trimmed_ignores_padding(left, actual, right);
    }

    /// `TextContains` holds of a string exactly when the expected text occurs
    /// in it, character for character: nothing is trimmed on either side.
    pub proof fn lemma_text_contains(self, actual: Seq<char>)
        requires
            self is TextContains,
        ensures
            self.evaluates(Some(JsonModel::String(actual))) == occurs_in(self->TextContains_0@, actual),
    {
    }

    /// The text comparisons hold of no value that is not a string.
    pub proof fn lemma_text_needs_string(self, actual: Option<JsonModel>)
        requires
            self is TextEquals || self is TextContains,
            !(or_null(actual) is String),
        ensures
            !self.evaluates(actual),
    {
    }

    /// `NotEquals` holds exactly where `Equals` of the same expected value
    /// does not.
    pub proof fn lemma_not_equals_negates(expected: JsonValue, actual: Option<JsonModel>)
        ensures
            Comparison::NotEquals(expected).evaluates(actual) == !Comparison::Equals(expected).evaluates(actual),
    {
    }
}

impl ElementAssertionType {
    /// Whether two checks read the same of an element and make the same
    /// comparison.
    pub open spec fn same(self, other: ElementAssertionType) -> bool {
        match (self, other) {
            (ElementAssertionType::Value(a), ElementAssertionType::Value(b)) => a.same(b),
            (
                ElementAssertionType::Attribute { attribute: name, comparison: a },
                ElementAssertionType::Attribute { attribute: other_name, comparison: b },
            ) => name == other_name && a.same(b),
            _ => false,
        }
    }
}

impl GeneralAssertType {
    /// Whether two checks read the same and make the same comparison.
    pub open spec fn same(self, other: GeneralAssertType) -> bool {
        match (self, other) {
            (GeneralAssertType::Element(a), GeneralAssertType::Element(b)) => a.element == b.element
                && a.assert.same(b.assert),
            (
                GeneralAssertType::Tab(TabAssert::Evaluate { script, comparison: a }),
                GeneralAssertType::Tab(TabAssert::Evaluate { script: other_script, comparison: b }),
            ) => script == other_script && a.same(b),
            _ => false,
        }
    }
}

impl Instruction {
    /// Whether two instructions ask for the same: the same operation, or
    /// the same check of the same tab. Expected values count by their models.
    pub open spec fn same(self, other: Instruction) -> bool {
        match (self, other) {
            (Instruction::Operation(a), Instruction::Operation(b)) => a == b,
            (Instruction::Assertion(a), Instruction::Assertion(b)) => a.context == b.context && a.assertion.same(
                b.assertion,
            ),
            _ => false,
        }
    }
}

impl ElementSelector {
    /// The selector as the log shows it.
    pub open spec fn text(&self) -> Seq<char> {
        match self {
            ElementSelector::CSS(pattern) => "Element[css~`"@ + pattern@ + "`]"@,
        }
    }

    /// Writes the selector as the log shows it.
    pub fn to_text(&self) -> (r: String)
        ensures
            r@ == self.text(),
    {
        match self {
            ElementSelector::CSS(pattern) => {
                let mut r = String::from_str("Element[css~`");
                r.append(pattern.as_str());
                r.append("`]");
                r
            },
        }
    }

    /// The script that clicks on the first element that the selector finds.
    pub open spec fn click_code(&self) -> Seq<char> {
        match self {
            ElementSelector::CSS(pattern) => "document.querySelector(\""@ + pattern@ + "\").click()"@,
        }
    }

    /// Writes the script that clicks on the first element that the selector
    /// finds.
    pub fn click_script(&self) -> (r: String)
        ensures
            r@ == self.click_code(),
    {
        match self {
            ElementSelector::CSS(pattern) => {
                let mut r = String::from_str("document.querySelector(\"");
                r.append(pattern.as_str());
                r.append("\").click()");
                r
            },
        }
    }

    /// A copy of the selector.
    pub fn duplicate(&self) -> (r: ElementSelector)
        ensures
            r == *self,
    {
        match self {
            ElementSelector::CSS(pattern) => ElementSelector::CSS(pattern.clone()),
        }
    }
}

impl TabSelector {
    /// The selector as the log shows it.
    pub open spec fn text(&self) -> Seq<char> {
        match self {
            TabSelector::Title(title) => "Tab[title==`"@ + title@ + "`]"@,
            TabSelector::TitleRegex(title) => "Tab[title~=`"@ + title@ + "`]"@,
            TabSelector::Url(url) => "Tab[url==`"@ + url@ + "`]"@,
            TabSelector::UrlRegex(url) => "Tab[url~=`"@ + url@ + "`]"@,
            TabSelector::Id(id) => "Tab[id==`"@ + id@ + "`]"@,
        }
    }

    /// Writes the selector as the log shows it.
    pub fn to_text(&self) -> (r: String)
        ensures
            r@ == self.text(),
    {
        let (head, body) = match self {
            TabSelector::Title(title) => ("Tab[title==`", title),
            TabSelector::TitleRegex(title) => ("Tab[title~=`", title),
            TabSelector::Url(url) => ("Tab[url==`", url),
            TabSelector::UrlRegex(url) => ("Tab[url~=`", url),
            TabSelector::Id(id) => ("Tab[id==`", id),
        };
        let mut r = String::from_str(head);
        r.append(body.as_str());
        r.append("`]");
        r
    }

    /// A copy of the selector.
    pub fn duplicate(&self) -> (r: TabSelector)
        ensures
            r == *self,
    {
        match self {
            TabSelector::Title(title) => TabSelector::Title(title.clone()),
            TabSelector::TitleRegex(title) => TabSelector::TitleRegex(title.clone()),
            TabSelector::Url(url) => TabSelector::Url(url.clone()),
            TabSelector::UrlRegex(url) => TabSelector::UrlRegex(url.clone()),
            TabSelector::Id(id) => TabSelector::Id(id.clone()),
        }
    }
}

} // verus!
