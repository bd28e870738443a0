//! An adapter that needs no target: it answers from a list, and notes what
//! it was asked.

use vstd::prelude::*;
use crate::adapter::{AdapterCall, TestAdapter};
use crate::feedback::Feedback;
use crate::instructions::{ElementSelector, TabSelector};

verus! {

/// An adapter that answers each call with the next feedback of a list,
/// whatever the call, and keeps the calls. When the list is used up it
/// answers `Unsupported`.
#[derive(Debug)]
pub struct ScriptedAdapter {
    answers: Vec<Feedback>,
    used: usize,
    calls: Vec<AdapterCall>,
}

/// What a scripted adapter holds: the answers that it has still to give, and
/// the calls that were made of it, both in order.
pub struct ScriptedView {
    pub answers: Seq<Feedback>,
    pub calls: Seq<AdapterCall>,
}

impl ScriptedView {
    /// The answer to the next call.
    pub open spec fn next_answer(self) -> Feedback {
        if self.answers.len() > 0 {
            self.answers[0]
        } else {
            Feedback::Unsupported
        }
    }

    /// The answers that are left after the next call.
    pub open spec fn left(self) -> Seq<Feedback> {
        if self.answers.len() > 0 {
            self.answers.drop_first()
        } else {
            self.answers
        }
    }

    /// What the adapter holds after a call.
    pub open spec fn asked(self, call: AdapterCall) -> ScriptedView {
        ScriptedView { answers: self.left(), calls: self.calls.push(call) }
    }
}

impl View for ScriptedAdapter {
    type V = ScriptedView;

    closed spec fn view(&self) -> ScriptedView {
        ScriptedView {
            answers: if self.used <= self.answers@.len() {
                self.answers@.skip(self.used as int)
            } else {
                Seq::empty()
            },
            calls: self.calls@,
        }
    }
}

impl ScriptedAdapter {
    /// An adapter that will give these answers, the first one first.
    pub fn new(answers: Vec<Feedback>) -> (r: Self)
        ensures
            r@ == (ScriptedView { answers: answers@, calls: Seq::empty() }),
    {
        let r = ScriptedAdapter { answers, used: 0, calls: Vec::new() };
        assert(r.answers@.skip(0) =~= r.answers@);
        r
    }

    /// The calls that were made, in order.
    pub fn calls(&self) -> (r: &Vec<AdapterCall>)
        ensures
            r@ == self@.calls,
    {
        &self.calls
    }

    /// How many answers are left.
    pub fn remaining(&self) -> (r: usize)
        ensures
            r == self@.answers.len(),
    {
        if self.used <= self.answers.len() {
            self.answers.len() - self.used
        } else {
            0
        }
    }

    /// Notes the call and gives the next answer.
    pub fn answer(&mut self, call: AdapterCall) -> (r: Feedback)
        ensures
            r == old(self)@.next_answer(),
            final(self)@ == old(self)@.asked(call),
    {
        self.calls.push(call);
        if self.used < self.answers.len() {
            let ghost before = self.answers@;
            let mut given = Feedback::Unsupported;
            core::mem::swap(&mut given, &mut self.answers[self.used]);
            self.used += 1;
            assert(self.answers@.skip(self.used as int) =~= before.skip(self.used - 1).drop_first());
            given
        } else {
            Feedback::Unsupported
        }
    }
}

impl TestAdapter for ScriptedAdapter {
    fn element_click(&mut self, tab: &TabSelector, element: &ElementSelector) -> (r: Feedback)
        ensures
            r == old(self)@.next_answer(),
            final(self)@ == old(self)@.asked(AdapterCall::ElementClick { tab: *tab, element: *element }),
    {
        self.answer(AdapterCall::ElementClick { tab: tab.duplicate(), element: element.duplicate() })
    }

    fn element_wait(&mut self, tab: &TabSelector, element: &ElementSelector) -> (r: Feedback)
        ensures
            r == old(self)@.next_answer(),
            final(self)@ == old(self)@.asked(AdapterCall::ElementWait { tab: *tab, element: *element }),
    {
        self.answer(AdapterCall::ElementWait { tab: tab.duplicate(), element: element.duplicate() })
    }

    fn element_focus(&mut self, tab: &TabSelector, element: &ElementSelector) -> (r: Feedback)
        ensures
            r == old(self)@.next_answer(),
            final(self)@ == old(self)@.asked(AdapterCall::ElementFocus { tab: *tab, element: *element }),
    {
        self.answer(AdapterCall::ElementFocus { tab: tab.duplicate(), element: element.duplicate() })
    }

    fn element_scroll_to(&mut self, tab: &TabSelector, element: &ElementSelector) -> (r: Feedback)
        ensures
            r == old(self)@.next_answer(),
            final(self)@ == old(self)@.asked(AdapterCall::ElementScrollTo { tab: *tab, element: *element }),
    {
        self.answer(AdapterCall::ElementScrollTo { tab: tab.duplicate(), element: element.duplicate() })
    }

    fn element_value(&mut self, tab: &TabSelector, element: &ElementSelector) -> (r: Feedback)
        ensures
            r == old(self)@.next_answer(),
            final(self)@ == old(self)@.asked(AdapterCall::ElementValue { tab: *tab, element: *element }),
    {
        self.answer(AdapterCall::ElementValue { tab: tab.duplicate(), element: element.duplicate() })
    }

    fn element_attribute(&mut self, tab: &TabSelector, element: &ElementSelector, attribute: &str) -> (r: Feedback)
        ensures
            r == old(self)@.next_answer(),
            final(self)@.answers == old(self)@.left(),
            final(self)@.calls.len() == old(self)@.calls.len() + 1,
            final(self)@.calls.drop_last() == old(self)@.calls,
            final(self)@.calls.last() matches AdapterCall::ElementAttribute { tab: t, element: e, attribute: a } && t
                == *tab && e == *element && a@ == attribute@,
    {
        self.answer(
            AdapterCall::ElementAttribute {
                tab: tab.duplicate(),
                element: element.duplicate(),
                attribute: String::from_str(attribute),
            },
        )
    }

    fn wait(&mut self, tab: &TabSelector, milliseconds: u64) -> (r: Feedback)
        ensures
            r == old(self)@.next_answer(),
            final(self)@ == old(self)@.asked(AdapterCall::Wait { tab: *tab, milliseconds }),
    {
        self.answer(AdapterCall::Wait { tab: tab.duplicate(), milliseconds })
    }

    fn evaluate(&mut self, tab: &TabSelector, script: &str) -> (r: Feedback)
        ensures
            r == old(self)@.next_answer(),
            final(self)@.answers == old(self)@.left(),
            final(self)@.calls.len() == old(self)@.calls.len() + 1,
            final(self)@.calls.drop_last() == old(self)@.calls,
            final(self)@.calls.last() matches AdapterCall::Evaluate { tab: t, script: s } && t == *tab && s@
                == script@,
    {
        self.answer(AdapterCall::Evaluate { tab: tab.duplicate(), script: String::from_str(script) })
    }
}

} // verus!
