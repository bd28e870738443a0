//! What the engine needs of the component that talks to the target.

use vstd::prelude::*;
use crate::feedback::Feedback;
use crate::instructions::{
    Comparison, ElementAssertionType, ElementOpType, ElementSelector, GeneralAssertType, GeneralOpType,
    Instruction, TabAssert, TabOpType, TabSelector,
};
use crate::value::JsonValue;

verus! {

/// The capabilities of a target. Each finds the tab that the selector names
/// and reports how the operation went.
pub trait TestAdapter {
    /// Click on element in tab
    fn element_click(&mut self, tab: &TabSelector, element: &ElementSelector) -> Feedback;

    /// Wait for element to appear in tab
    fn element_wait(&mut self, tab: &TabSelector, element: &ElementSelector) -> Feedback;

    /// Focus on element in tab
    fn element_focus(&mut self, tab: &TabSelector, element: &ElementSelector) -> Feedback;

    /// Scroll to element in tab
    fn element_scroll_to(&mut self, tab: &TabSelector, element: &ElementSelector) -> Feedback;

    /// Read the text of element in tab
    fn element_value(&mut self, tab: &TabSelector, element: &ElementSelector) -> Feedback;

    /// Read an attribute of element in tab
    fn element_attribute(&mut self, tab: &TabSelector, element: &ElementSelector, attribute: &str) -> Feedback;

    /// Pause execution in tab for a period
    fn wait(&mut self, tab: &TabSelector, milliseconds: u64) -> Feedback;

    /// Run Javascript in tab
    fn evaluate(&mut self, tab: &TabSelector, script: &str) -> Feedback;
}

/// How far an adapter got with a call.
#[derive(Debug, Clone, PartialEq, Eq)]
pub enum Attempt {
    /// No tab is the one that the selector names.
    TabMissing,
    /// The tab has no element that the selector finds.
    ElementMissing,
    /// The target did not do what it was asked.
    Failed,
    /// The target did it.
    Done,
    /// The target did it, and this is what was read.
    Read(JsonValue),
    /// The element has attributes, which are not read one by one.
    AttributesKnown,
}

impl Attempt {
    /// What the attempt reports: a missing tab or element and a failure are
    /// errors; attributes that are not read are unsupported.
    pub open spec fn report(self) -> Feedback {
        match self {
            Attempt::TabMissing => Feedback::Error,
            Attempt::ElementMissing => Feedback::Error,
            Attempt::Failed => Feedback::Error,
            Attempt::Done => Feedback::Success,
            Attempt::Read(value) => Feedback::Value(value),
            Attempt::AttributesKnown => Feedback::Unsupported,
        }
    }

    /// The feedback of a call that got this far.
    pub fn feedback(self) -> (r: Feedback)
        ensures
            r == self.report(),
    {
        match self {
            Attempt::TabMissing => Feedback::Error,
            Attempt::ElementMissing => Feedback::Error,
            Attempt::Failed => Feedback::Error,
            Attempt::Done => Feedback::Success,
            Attempt::Read(value) => Feedback::Value(value),
            Attempt::AttributesKnown => Feedback::Unsupported,
        }
    }

    /// What the log says of a tab or an element that was not found; nothing
    /// of other attempts.
    pub open spec fn complaint(self, tab: TabSelector, element: ElementSelector) -> Option<Seq<char>> {
        match self {
            Attempt::TabMissing => Some("Failed to find tab "@ + tab.text()),
            Attempt::ElementMissing => Some("Failed to find element "@ + element.text()),
            _ => None,
        }
    }

    /// Writes what the log says of a tab or an element that was not found.
    pub fn complain(&self, tab: &TabSelector, element: &ElementSelector) -> (r: Option<String>)
        ensures
            match r {
                Some(line) => self.complaint(*tab, *element) == Some(line@),
                None => self.complaint(*tab, *element) is None,
            },
    {
        match self {
            Attempt::TabMissing => {
                let mut line = String::from_str("Failed to find tab ");
                let name = tab.to_text();
                line.append(name.as_str());
                Some(line)
            },
            Attempt::ElementMissing => {
                let mut line = String::from_str("Failed to find element ");
                let name = element.to_text();
                line.append(name.as_str());
                Some(line)
            },
            _ => None,
        }
    }
}

/// One call of an adapter, with what is handed to it.
#[derive(Debug, Clone, PartialEq, Eq)]
pub enum AdapterCall {
    /// `element_click`
    ElementClick { tab: TabSelector, element: ElementSelector },
    /// `element_wait`
    ElementWait { tab: TabSelector, element: ElementSelector },
    /// `element_focus`
    ElementFocus { tab: TabSelector, element: ElementSelector },
    /// `element_scroll_to`
    ElementScrollTo { tab: TabSelector, element: ElementSelector },
    /// `element_value`
    ElementValue { tab: TabSelector, element: ElementSelector },
    /// `element_attribute`
    ElementAttribute { tab: TabSelector, element: ElementSelector, attribute: String },
    /// `wait`
    Wait { tab: TabSelector, milliseconds: u64 },
    /// `evaluate`
    Evaluate { tab: TabSelector, script: String },
}

/// An instruction taken apart: the one call that carries it out, and the
/// comparison to make of what the call reads, if the instruction is an
/// assertion.
#[derive(Debug, Clone, PartialEq, Eq)]
pub struct Errand {
    /// The call
    pub call: AdapterCall,
    /// The comparison of an assertion
    pub check: Option<Comparison>,
}

impl Instruction {
    /// The call that carries the instruction out: an operation is the call
    /// of its name; an assertion reads what it compares, which is the
    /// element's text, one of its attributes or what a script evaluates to.
    pub open spec fn call(self) -> AdapterCall {
        match self {
            Instruction::Operation(op) => match op.op {
                GeneralOpType::Element(elem) => match elem.op {
                    ElementOpType::Click => AdapterCall::ElementClick { tab: op.context, element: elem.context },
                    ElementOpType::WaitFor => AdapterCall::ElementWait { tab: op.context, element: elem.context },
                    ElementOpType::Focus => AdapterCall::ElementFocus { tab: op.context, element: elem.context },
                    ElementOpType::ScrollTo => AdapterCall::ElementScrollTo {
                        tab: op.context,
                        element: elem.context,
                    },
                },
                GeneralOpType::Tab(TabOpType::Sleep(milliseconds)) => AdapterCall::Wait {
                    tab: op.context,
                    milliseconds,
                },
                GeneralOpType::Tab(TabOpType::Evaluate(script)) => AdapterCall::Evaluate { tab: op.context, script },
            },
            Instruction::Assertion(assertion) => match assertion.assertion {
                GeneralAssertType::Element(elem) => match elem.assert {
                    ElementAssertionType::Value(_) => AdapterCall::ElementValue {
                        tab: assertion.context,
                        element: elem.element,
                    },
                    ElementAssertionType::Attribute { attribute, comparison: _ } => AdapterCall::ElementAttribute {
                        tab: assertion.context,
                        element: elem.element,
                        attribute,
                    },
                },
                GeneralAssertType::Tab(TabAssert::Evaluate { script, comparison: _ }) => AdapterCall::Evaluate {
                    tab: assertion.context,
                    script,
                },
            },
        }
    }

    /// The comparison that an assertion makes; none for an operation.
    pub open spec fn check(self) -> Option<Comparison> {
        match self {
            Instruction::Operation(_) => None,
            Instruction::Assertion(assertion) => match assertion.assertion {
                GeneralAssertType::Element(elem) => match elem.assert {
                    ElementAssertionType::Value(comparison) => Some(comparison),
                    ElementAssertionType::Attribute { attribute: _, comparison } => Some(comparison),
                },
                GeneralAssertType::Tab(TabAssert::Evaluate { script: _, comparison }) => Some(comparison),
            },
        }
    }

    /// Takes the instruction apart into its call and its comparison.
    pub fn into_errand(self) -> (r: Errand)
        ensures
            r.call == self.call(),
            r.check == self.check(),
    {
        match self {
            Instruction::Operation(op) => {
                let call = match op.op {
                    GeneralOpType::Element(elem) => match elem.op {
                        ElementOpType::Click => AdapterCall::ElementClick { tab: op.context, element: elem.context },
                        ElementOpType::WaitFor => AdapterCall::ElementWait {
                            tab: op.context,
                            element: elem.context,
                        },
                        ElementOpType::Focus => AdapterCall::ElementFocus { tab: op.context, element: elem.context },
                        ElementOpType::ScrollTo => AdapterCall::ElementScrollTo {
                            tab: op.context,
                            element: elem.context,
                        },
                    },
                    GeneralOpType::Tab(TabOpType::Sleep(milliseconds)) => AdapterCall::Wait {
                        tab: op.context,
                        milliseconds,
                    },
                    GeneralOpType::Tab(TabOpType::Evaluate(script)) => AdapterCall::Evaluate {
                        tab: op.context,
                        script,
                    },
                };
                Errand { call, check: None }
            },
            Instruction::Assertion(assertion) => match assertion.assertion {
                GeneralAssertType::Element(elem) => match elem.assert {
                    ElementAssertionType::Value(comparison) => Errand {
                        call: AdapterCall::ElementValue { tab: assertion.context, element: elem.element },
                        check: Some(comparison),
                    },
                    ElementAssertionType::Attribute { attribute, comparison } => Errand {
                        call: AdapterCall::ElementAttribute {
                            tab: assertion.context,
                            element: elem.element,
                            attribute,
                        },
                        check: Some(comparison),
                    },
                },
                GeneralAssertType::Tab(TabAssert::Evaluate { script, comparison }) => Errand {
                    call: AdapterCall::Evaluate { tab: assertion.context, script },
                    check: Some(comparison),
                },
            },
        }
    }
}

impl AdapterCall {
    /// Whether `told` is a possible outcome of the capability that the call
    /// names, asked through `adapter` with what the call holds. What is
    /// possible is what the adapter's own contract allows; of an adapter
    /// without one, anything is.
    #[verifier::inline]
    pub open spec fn asked_of<A: TestAdapter>(&self, adapter: &mut A, told: Feedback) -> bool {
        match self {
            AdapterCall::ElementClick { tab, element } => call_ensures(A::element_click, (adapter, tab, element), told),
            AdapterCall::ElementWait { tab, element } => call_ensures(A::element_wait, (adapter, tab, element), told),
            AdapterCall::ElementFocus { tab, element } => call_ensures(A::element_focus, (adapter, tab, element), told),
            AdapterCall::ElementScrollTo { tab, element } => call_ensures(
                A::element_scroll_to,
                (adapter, tab, element),
                told,
            ),
            AdapterCall::ElementValue { tab, element } => call_ensures(A::element_value, (adapter, tab, element), told),
            AdapterCall::ElementAttribute { tab, element, attribute } => exists|name: &str|
                name@ == attribute@ && #[trigger] call_ensures(
                    A::element_attribute,
                    (adapter, tab, element, name),
                    told,
                ),
            AdapterCall::Wait { tab, milliseconds } => call_ensures(A::wait, (adapter, tab, *milliseconds), told),
            AdapterCall::Evaluate { tab, script } => exists|code: &str|
                code@ == script@ && #[trigger] call_ensures(A::evaluate, (adapter, tab, code), told),
        }
    }

    /// Makes the call on an adapter: the one capability that the call names
    /// is asked once, of the adapter as it was, with the tab, the element and
    /// whatever else the call holds. What comes back, and how the adapter is
    /// left, is the adapter's to say.
    pub fn perform<A: TestAdapter>(&self, adapter: &mut A) -> (told: Feedback)
        ensures
            exists|asked: &mut A|
                {
                    &&& *asked == *old(adapter)
                    &&& *final(asked) == *final(adapter)
                    &&& self.asked_of(asked, told)
                },
    {
        match self {
            AdapterCall::ElementClick { tab, element } => adapter.element_click(tab, element),
            AdapterCall::ElementWait { tab, element } => adapter.element_wait(tab, element),
            AdapterCall::ElementFocus { tab, element } => adapter.element_focus(tab, element),
            AdapterCall::ElementScrollTo { tab, element } => adapter.element_scroll_to(tab, element),
            AdapterCall::ElementValue { tab, element } => adapter.element_value(tab, element),
            AdapterCall::ElementAttribute { tab, element, attribute } => adapter.element_attribute(
                tab,
                element,
                attribute.as_str(),
            ),
            AdapterCall::Wait { tab, milliseconds } => adapter.wait(tab, *milliseconds),
            AdapterCall::Evaluate { tab, script } => adapter.evaluate(tab, script.as_str()),
        }
    }
}

} // verus!
