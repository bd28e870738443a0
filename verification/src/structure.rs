//! The script as a document describes it, and how it is turned into the
//! instruction model.

use vstd::prelude::*;
use vstd::std_specs::convert::FromSpecImpl;
use crate::instructions::{
    Comparison, ElementAssert, ElementAssertionType, ElementOp, ElementOpType, ElementSelector,
    GeneralAssertType, GeneralOpType, Instruction, TabOpType, TabSelector, TestAssert, TestOp,
};
use crate::runner::TestMetadata;
use crate::value::JsonValue;

verus! {

/// A test script.
#[derive(Debug, Clone, PartialEq, Eq)]
pub struct Test {
    /// About the test
    pub info: TestInfo,
    /// Its steps, in order
    pub test: Vec<TestStepType>,
}

/// What a script says about itself.
#[derive(Debug, Clone, PartialEq, Eq)]
pub struct TestInfo {
    /// Test name
    pub name: String,
    /// Test author
    pub blame: String,
    /// Test ID
    pub id: String,
    /// Test dump file
    pub output: String,
    /// What to do after an instruction that failed
    pub fail_mode: FailureMode,
}

/// What a runner does after an instruction whose feedback is not ok.
#[derive(Debug, Clone, Copy, PartialEq, Eq)]
pub enum FailureMode {
    /// Leave the rest of the step out and go on with the next step.
    SkipInstructions,
    /// Finish the step, then end the test.
    SkipSteps,
    /// End the test at once.
    FastFail,
}

/// One step of a script.
#[derive(Debug, Clone, PartialEq, Eq)]
pub enum TestStepType {
    /// Instructions for one tab
    Regular(TestStep),
    /// The steps of another script, which take this step's place
    Macro {
        /// Name of the macro
        name: String,
        /// Path of the script, relative to the directory of the script that
        /// holds this step
        file: String,
    },
}

/// Instructions for one tab.
#[derive(Debug, Clone, PartialEq, Eq)]
pub struct TestStep {
    /// The tab
    pub tab: TabDescriptor,
    /// The instructions, in order
    pub operations: Vec<TestInstruction>,
}

/// How a document names a tab.
#[derive(Debug, Clone, PartialEq, Eq)]
pub enum TabDescriptor {
    /// By a pattern for its title
    Title {
        /// The pattern
        title: String,
    },
    /// By a pattern for its URL
    Url {
        /// The pattern
        url: String,
    },
    /// By its identifier
    Id {
        /// The identifier
        id: String,
    },
}

/// One instruction of a document.
#[derive(Debug, Clone, PartialEq, Eq)]
pub enum TestInstruction {
    /// Act on an element
    Element(TestElementInstruction),
    /// Pause
    Sleep {
        /// For how long, in milliseconds
        milliseconds: u64,
    },
    /// Run a script in the tab
    Eval {
        /// Script text
        code: String,
    },
    /// Check an element
    Assert(TestElementAssertion),
}

/// An operation on an element, in a document.
#[derive(Debug, Clone, PartialEq, Eq)]
pub struct TestElementInstruction {
    /// The element
    pub element: ElementDescriptor,
    /// What to do with it
    pub operation: ElementInteraction,
}

/// A check of an element, in a document.
#[derive(Debug, Clone, PartialEq, Eq)]
pub struct TestElementAssertion {
    /// The element
    pub element: ElementDescriptor,
    /// The attribute to read, or none to read the element's text
    pub attribute: Option<String>,
    /// What to check of what is read
    pub assert: ElementAssertion,
}

/// How a document names an element.
#[derive(Debug, Clone, PartialEq, Eq)]
pub enum ElementDescriptor {
    /// By a CSS selector
    CSS {
        /// The selector
        css: String,
    },
}

/// What a document can do with an element.
#[derive(Debug, Clone, Copy, PartialEq, Eq)]
pub enum ElementInteraction {
    /// Click on it
    Click,
    /// Wait for it to appear
    WaitFor,
    /// Give it the focus
    Focus,
    /// Scroll it into view
    ScrollTo,
}

/// What a document can check of what is read of an element.
#[derive(Debug, Clone, PartialEq, Eq)]
pub enum ElementAssertion {
    /// That there is a value
    Exists,
    /// That there is a value, neither null nor the empty text
    ExistsNotEmpty,
    /// That, trimmed, it is this text
    TextEquals(String),
    /// That it contains this text
    TextContains(String),
    /// That it is this value
    Equals(JsonValue),
    /// That it is not this value
    NotEquals(JsonValue),
}

impl TestInfo {
    /// The record of a test with this description, before it has run.
    pub open spec fn metadata(self) -> TestMetadata {
        TestMetadata {
            name: self.name,
            id: self.id,
            output: Some(self.output),
            author: Some(self.blame),
            success: true,
        }
    }
}

impl TabDescriptor {
    /// The selector that finds the tab: a title or a URL is taken as a
    /// pattern.
    pub open spec fn selector(self) -> TabSelector {
        match self {
            TabDescriptor::Title { title } => TabSelector::TitleRegex(title),
            TabDescriptor::Url { url } => TabSelector::UrlRegex(url),
            TabDescriptor::Id { id } => TabSelector::Id(id),
        }
    }
}

impl ElementDescriptor {
    /// The selector that finds the element.
    pub open spec fn selector(self) -> ElementSelector {
        match self {
            ElementDescriptor::CSS { css } => ElementSelector::CSS(css),
        }
    }
}

impl ElementInteraction {
    /// The operation of the instruction model.
    pub open spec fn op_type(self) -> ElementOpType {
        match self {
            ElementInteraction::Click => ElementOpType::Click,
            ElementInteraction::WaitFor => ElementOpType::WaitFor,
            ElementInteraction::Focus => ElementOpType::Focus,
            ElementInteraction::ScrollTo => ElementOpType::ScrollTo,
        }
    }
}

impl ElementAssertion {
    /// The comparison of the instruction model.
    pub open spec fn comparison(self) -> Comparison {
        match self {
            ElementAssertion::Exists => Comparison::Exists,
            ElementAssertion::ExistsNotEmpty => Comparison::ExistsNotEmpty,
            ElementAssertion::TextEquals(t) => Comparison::TextEquals(t),
            ElementAssertion::TextContains(t) => Comparison::TextContains(t),
            ElementAssertion::Equals(v) => Comparison::Equals(v),
            ElementAssertion::NotEquals(v) => Comparison::NotEquals(v),
        }
    }

    /// The check of the instruction model: the comparison, made of the
    /// element's text.
    pub open spec fn assertion_type(self) -> ElementAssertionType {
        ElementAssertionType::Value(self.comparison())
    }

    /// Whether two checks are the same: of the same kind, with the same
    /// expected text, or with expected values of the same model.
    pub open spec fn same(self, other: ElementAssertion) -> bool {
        match (self, other) {
            (ElementAssertion::Equals(a), ElementAssertion::Equals(b)) => a@ == b@,
            (ElementAssertion::NotEquals(a), ElementAssertion::NotEquals(b)) => a@ == b@,
            _ => self == other,
        }
    }

    /// Takes the comparison out of the check.
    pub fn into_comparison(self) -> (r: Comparison)
        ensures
            r == self.comparison(),
    {
        match self {
            ElementAssertion::Exists => Comparison::Exists,
            ElementAssertion::ExistsNotEmpty => Comparison::ExistsNotEmpty,
            ElementAssertion::TextEquals(t) => Comparison::TextEquals(t),
            ElementAssertion::TextContains(t) => Comparison::TextContains(t),
            ElementAssertion::Equals(v) => Comparison::Equals(v),
            ElementAssertion::NotEquals(v) => Comparison::NotEquals(v),
        }
    }
}

impl TestElementInstruction {
    /// The element operation of the instruction model.
    pub open spec fn element_op(self) -> ElementOp {
        ElementOp { context: self.element.selector(), op: self.operation.op_type() }
    }
}

impl TestElementAssertion {
    /// The element check of the instruction model: the comparison is made
    /// of the attribute, if one is named, else of the element's text.
    pub open spec fn element_assert(self) -> ElementAssert {
        ElementAssert {
            element: self.element.selector(),
            assert: match self.attribute {
                Some(attribute) => ElementAssertionType::Attribute { attribute, comparison: self.assert.comparison() },
                None => ElementAssertionType::Value(self.assert.comparison()),
            },
        }
    }
}

impl From<TestInfo> for TestMetadata {
    fn from(other: TestInfo) -> (r: Self) {
        TestMetadata {
            name: other.name,
            id: other.id,
            output: Some(other.output),
            author: Some(other.blame),
            success: true,
        }
    }
}

impl FromSpecImpl<TestInfo> for TestMetadata {
    open spec fn obeys_from_spec() -> bool {
        true
    }

    open spec fn from_spec(other: TestInfo) -> Self {
        other.metadata()
    }
}

impl From<TabDescriptor> for TabSelector {
    fn from(value: TabDescriptor) -> (r: Self) {
        match value {
            TabDescriptor::Title { title } => TabSelector::TitleRegex(title),
            TabDescriptor::Url { url } => TabSelector::UrlRegex(url),
            TabDescriptor::Id { id } => TabSelector::Id(id),
        }
    }
}

impl FromSpecImpl<TabDescriptor> for TabSelector {
    open spec fn obeys_from_spec() -> bool {
        true
    }

    open spec fn from_spec(value: TabDescriptor) -> Self {
        value.selector()
    }
}

impl From<ElementDescriptor> for ElementSelector {
    fn from(value: ElementDescriptor) -> (r: Self) {
        match value {
            ElementDescriptor::CSS { css } => ElementSelector::CSS(css),
        }
    }
}

impl FromSpecImpl<ElementDescriptor> for ElementSelector {
    open spec fn obeys_from_spec() -> bool {
        true
    }

    open spec fn from_spec(value: ElementDescriptor) -> Self {
        value.selector()
    }
}

impl From<ElementInteraction> for ElementOpType {
    fn from(value: ElementInteraction) -> (r: Self) {
        match value {
            ElementInteraction::Click => ElementOpType::Click,
            ElementInteraction::WaitFor => ElementOpType::WaitFor,
            ElementInteraction::Focus => ElementOpType::Focus,
            ElementInteraction::ScrollTo => ElementOpType::ScrollTo,
        }
    }
}

impl FromSpecImpl<ElementInteraction> for ElementOpType {
    open spec fn obeys_from_spec() -> bool {
        true
    }

    open spec fn from_spec(value: ElementInteraction) -> Self {
        value.op_type()
    }
}

impl From<ElementAssertion> for ElementAssertionType {
    fn from(value: ElementAssertion) -> (r: Self) {
        ElementAssertionType::Value(value.into_comparison())
    }
}

impl FromSpecImpl<ElementAssertion> for ElementAssertionType {
    open spec fn obeys_from_spec() -> bool {
        true
    }

    open spec fn from_spec(value: ElementAssertion) -> Self {
        value.assertion_type()
    }
}

impl From<TestElementInstruction> for ElementOp {
    fn from(value: TestElementInstruction) -> (r: Self) {
        ElementOp { context: ElementSelector::from(value.element), op: ElementOpType::from(value.operation) }
    }
}

impl FromSpecImpl<TestElementInstruction> for ElementOp {
    open spec fn obeys_from_spec() -> bool {
        true
    }

    open spec fn from_spec(value: TestElementInstruction) -> Self {
        value.element_op()
    }
}

impl From<TestElementAssertion> for ElementAssert {
    fn from(value: TestElementAssertion) -> (r: Self) {
        let comparison = value.assert.into_comparison();
        ElementAssert {
            element: ElementSelector::from(value.element),
            assert: match value.attribute {
                Some(attribute) => ElementAssertionType::Attribute { attribute, comparison },
                None => ElementAssertionType::Value(comparison),
            },
        }
    }
}

impl FromSpecImpl<TestElementAssertion> for ElementAssert {
    open spec fn obeys_from_spec() -> bool {
        true
    }

    open spec fn from_spec(value: TestElementAssertion) -> Self {
        value.element_assert()
    }
}

impl TabDescriptor {
    /// A copy of the descriptor.
    pub fn duplicate(&self) -> (r: TabDescriptor)
        ensures
            r == *self,
    {
        match self {
            TabDescriptor::Title { title } => TabDescriptor::Title { title: title.clone() },
            TabDescriptor::Url { url } => TabDescriptor::Url { url: url.clone() },
            TabDescriptor::Id { id } => TabDescriptor::Id { id: id.clone() },
        }
    }
}

impl ElementDescriptor {
    /// A copy of the descriptor.
    pub fn duplicate(&self) -> (r: ElementDescriptor)
        ensures
            r == *self,
    {
        match self {
            ElementDescriptor::CSS { css } => ElementDescriptor::CSS { css: css.clone() },
        }
    }
}

impl ElementAssertion {
    /// A copy of the check.
    pub fn duplicate(&self) -> (r: ElementAssertion)
        ensures
            r.same(*self),
    {
        match self {
            ElementAssertion::Exists => ElementAssertion::Exists,
            ElementAssertion::ExistsNotEmpty => ElementAssertion::ExistsNotEmpty,
            ElementAssertion::TextEquals(t) => ElementAssertion::TextEquals(t.clone()),
            ElementAssertion::TextContains(t) => ElementAssertion::TextContains(t.clone()),
            ElementAssertion::Equals(v) => ElementAssertion::Equals(v.duplicate()),
            ElementAssertion::NotEquals(v) => ElementAssertion::NotEquals(v.duplicate()),
        }
    }
}

impl TestInstruction {
    /// The instruction that this one stands for, in a step for `tab`.
    pub open spec fn instruction(self, tab: TabDescriptor) -> Instruction {
        let selector = tab.selector();
        match self {
            TestInstruction::Element(elem) => Instruction::Operation(
                TestOp { context: selector, op: GeneralOpType::Element(elem.element_op()) },
            ),
            TestInstruction::Sleep { milliseconds } => Instruction::Operation(
                TestOp { context: selector, op: GeneralOpType::Tab(TabOpType::Sleep(milliseconds)) },
            ),
            TestInstruction::Eval { code } => Instruction::Operation(
                TestOp { context: selector, op: GeneralOpType::Tab(TabOpType::Evaluate(code)) },
            ),
            TestInstruction::Assert(assertion) => Instruction::Assertion(
                TestAssert {
                    context: selector,
                    assertion: GeneralAssertType::Element(assertion.element_assert()),
                },
            ),
        }
    }

    /// Whether two instructions are the same: the same operation, or the
    /// same check of the same element. Expected values count by their
    /// models.
    pub open spec fn same(self, other: TestInstruction) -> bool {
        match (self, other) {
            (TestInstruction::Assert(a), TestInstruction::Assert(b)) => a.element == b.element && a.attribute
                == b.attribute && a.assert.same(b.assert),
            _ => self == other,
        }
    }

    /// Instructions that are the same stand for instructions that are the
    /// same.
    pub proof fn lemma_same_instruction(self, other: TestInstruction, tab: TabDescriptor)
        requires
            self.same(other),
        ensures
            self.instruction(tab).same(other.instruction(tab)),
    {
    }

    /// A copy of the instruction.
    pub fn duplicate(&self) -> (r: TestInstruction)
        ensures
            r.same(*self),
    {
        match self {
            TestInstruction::Element(elem) => TestInstruction::Element(
                TestElementInstruction { element: elem.element.duplicate(), operation: elem.operation },
            ),
            TestInstruction::Sleep { milliseconds } => TestInstruction::Sleep { milliseconds: *milliseconds },
            TestInstruction::Eval { code } => TestInstruction::Eval { code: code.clone() },
            TestInstruction::Assert(assertion) => TestInstruction::Assert(
                TestElementAssertion {
                    element: assertion.element.duplicate(),
                    attribute: match &assertion.attribute {
                        Some(attribute) => Some(attribute.clone()),
                        None => None,
                    },
                    assert: assertion.assert.duplicate(),
                },
            ),
        }
    }

    /// Turns the instruction into the one that it stands for, in a step for
    /// `tab`.
    pub fn into_instruction(self, tab: TabDescriptor) -> (r: Instruction)
        ensures
            r == self.instruction(tab),
    {
        let selector = TabSelector::from(tab);
        match self {
            TestInstruction::Element(elem) => Instruction::Operation(
                TestOp { context: selector, op: GeneralOpType::Element(ElementOp::from(elem)) },
            ),
            TestInstruction::Sleep { milliseconds } => Instruction::Operation(
                TestOp { context: selector, op: GeneralOpType::Tab(TabOpType::Sleep(milliseconds)) },
            ),
            TestInstruction::Eval { code } => Instruction::Operation(
                TestOp { context: selector, op: GeneralOpType::Tab(TabOpType::Evaluate(code)) },
            ),
            TestInstruction::Assert(assertion) => Instruction::Assertion(
                TestAssert {
                    context: selector,
                    assertion: GeneralAssertType::Element(ElementAssert::from(assertion)),
                },
            ),
        }
    }
}

impl TestInfo {
    /// A copy of the record.
    pub fn duplicate(&self) -> (r: TestInfo)
        ensures
            r == *self,
    {
        TestInfo {
            name: self.name.clone(),
            blame: self.blame.clone(),
            id: self.id.clone(),
            output: self.output.clone(),
            fail_mode: self.fail_mode,
        }
    }
}

} // verus!
