//! The harness: runs tests one after the other against one adapter and keeps
//! the outcome of each.
//!
//! The harness does not loop by itself. Each [`TestHarness::step`] asks the
//! test that is running what to do next and does it: one call of the
//! adapter, or the end of the test. It keeps a record, for proofs only, of
//! the calls that it has made. Whoever drives the harness calls `step`
//! until it says [`Progress::Finished`], loads the script of a macro when it
//! says [`Progress::Load`], and then asks for the result with
//! [`TestHarness::finish`].

use vstd::prelude::*;
use crate::adapter::AdapterCall;
use crate::runner::{Advance, LoadedMacro, MacroRequest};

pub use crate::adapter::TestAdapter;
pub use crate::feedback::Feedback;
pub use crate::instructions::{
    Comparison, ElementAssert, ElementAssertionType, ElementOp, ElementOpType, ElementSelector, GeneralAssertType,
    GeneralOpType, Instruction, TabAssert, TabOpType, TabSelector, TestAssert, TestOp,
};
pub use crate::json_runner::JsonRunner;
pub use crate::runner::{TestMetadata, TestRunner};

verus! {

/// What a step of the harness came to.
#[derive(Debug, Clone, PartialEq, Eq)]
pub enum Progress {
    /// An instruction was run.
    Ran,
    /// The running test needs this script: hand it to the next step.
    Load(MacroRequest),
    /// The running test ended, and this outcome of it was recorded.
    Concluded(TestMetadata),
    /// Every test has ended.
    Finished,
}

/// One call of the adapter: the test it was made for, by its place among
/// the tests, what the adapter said to it, and the feedback that the
/// instruction made of the answer.
pub struct Exchange {
    pub test: nat,
    pub call: AdapterCall,
    pub answer: Feedback,
    pub feedback: Feedback,
}

/// The books of a harness.
pub struct HarnessState {
    /// How many tests there are
    pub total: nat,
    /// Whether the running test waits for the script of a macro
    pub awaiting: bool,
    /// What the running test is told next
    pub feedback: Feedback,
    /// Whether every instruction of the running test went ok so far
    pub passing: bool,
    /// The outcomes of the tests that have ended, in the order of the tests;
    /// the running test is the next one
    pub outcomes: Seq<TestMetadata>,
    /// The calls that the harness has made of the adapter, in order, each
    /// with its answer
    pub exchanges: Seq<Exchange>,
}

/// What tells a failure among outcomes.
pub open spec fn is_failure() -> spec_fn(TestMetadata) -> bool {
    |m: TestMetadata| !m.success
}

/// The outcomes that are no success, in order.
pub open spec fn failed(outcomes: Seq<TestMetadata>) -> Seq<TestMetadata> {
    outcomes.filter(is_failure())
}

/// What an assertion makes of the adapter's feedback: `AssertFailure` where
/// a value came and the comparison does not hold of it; the feedback itself
/// in every other case, so that an error stays an error and what is
/// unsupported stays unsupported.
pub open spec fn judged(feedback: Feedback, check: Comparison) -> Feedback {
    match feedback {
        Feedback::Value(v) => if check.evaluates(Some(v@)) {
            feedback
        } else {
            Feedback::AssertFailure
        },
        _ => feedback,
    }
}

/// What an instruction makes of the feedback of its call.
pub open spec fn reported(feedback: Feedback, check: Option<Comparison>) -> Feedback {
    match check {
        Some(comparison) => judged(feedback, comparison),
        None => feedback,
    }
}

impl HarnessState {
    /// The books before the first test.
    pub open spec fn initial(total: nat) -> HarnessState {
        HarnessState {
            total,
            awaiting: false,
            feedback: Feedback::Start,
            passing: true,
            outcomes: Seq::empty(),
            exchanges: Seq::empty(),
        }
    }

    /// Whether every test has ended.
    pub open spec fn finished(self) -> bool {
        self.outcomes.len() >= self.total
    }

    /// The outcomes that are no success, in the order of the tests.
    pub open spec fn failures(self) -> Seq<TestMetadata> {
        failed(self.outcomes)
    }

    /// The books after the call of an instruction, the adapter having said
    /// `answer`: one call more was made, the one that carries out the
    /// instruction, for the running test.
    pub open spec fn called(self, instruction: Instruction, answer: Feedback) -> HarnessState {
        HarnessState {
            exchanges: self.exchanges.push(
                Exchange {
                    test: self.outcomes.len(),
                    call: instruction.call(),
                    answer,
                    feedback: reported(answer, instruction.check()),
                },
            ),
            ..self
        }
    }

    /// The books after an instruction of the running test was run, the
    /// adapter having said `answer`: the call was made, the running test is
    /// told next what the instruction makes of the answer, and it is passing
    /// only if it was and the feedback is ok.
    pub open spec fn ran(self, instruction: Instruction, answer: Feedback) -> HarnessState {
        let feedback = reported(answer, instruction.check());
        HarnessState {
            awaiting: false,
            feedback,
            passing: self.passing && feedback.ok(),
            ..self.called(instruction, answer)
        }
    }

    /// The books while the running test waits for a script.
    pub open spec fn waiting(self) -> HarnessState {
        HarnessState { awaiting: true, feedback: Feedback::Start, ..self }
    }

    /// The books after the running test ended, its runner describing it as
    /// `meta`: the test is a success exactly if every instruction went ok;
    /// the next test starts afresh.
    pub open spec fn concluded(self, meta: TestMetadata) -> HarnessState {
        HarnessState {
            awaiting: false,
            feedback: Feedback::Start,
            passing: true,
            outcomes: self.outcomes.push(meta.concluded(self.passing)),
            ..self
        }
    }

    /// Whether `after` can follow these books in one step of a harness:
    /// nothing changes once every test has ended; before that, the running
    /// test waits for a script, or one of its instructions was run, or it
    /// ended.
    pub open spec fn steps_to(self, after: HarnessState) -> bool {
        if self.finished() {
            after == self
        } else {
            ||| after == self.waiting()
            ||| exists|instruction: Instruction, answer: Feedback| after == #[trigger] self.ran(instruction, answer)
            ||| exists|meta: TestMetadata| after == #[trigger] self.concluded(meta)
        }
    }

    /// Whether every feedback of the calls made for a test was ok.
    pub open spec fn went_ok(self, test: nat) -> bool {
        forall|k: int|
            0 <= k < self.exchanges.len() && (#[trigger] self.exchanges[k]).test == test
                ==> self.exchanges[k].feedback.ok()
    }

    /// The feedback of the last call made for the running test; `Start` if
    /// none was made.
    pub open spec fn last_feedback(self) -> Feedback {
        if self.exchanges.len() > 0 && self.exchanges.last().test == self.outcomes.len() {
            self.exchanges.last().feedback
        } else {
            Feedback::Start
        }
    }

    /// Whether the books are those of a run: the tests are run strictly one
    /// after the other, and the outcome of each is a success exactly if the
    /// feedback of every one of its instructions was ok.
    ///
    /// No test has more outcomes than there are tests; every call was made
    /// for a test that has ended or for the running one, and the calls
    /// stand in the order of their tests; the running test is passing
    /// exactly if every feedback of its calls was ok; unless it waits for a
    /// script, it is told next the feedback of its last call, or `Start`
    /// if it has made none.
    pub open spec fn sound(self) -> bool {
        &&& self.outcomes.len() <= self.total
        &&& forall|k: int| 0 <= k < self.exchanges.len() ==> (#[trigger] self.exchanges[k]).test <= self.outcomes.len()
        &&& forall|j: int, k: int|
            0 <= j <= k < self.exchanges.len() ==> (#[trigger] self.exchanges[j]).test <= (
            #[trigger] self.exchanges[k]).test
        &&& forall|i: int|
            0 <= i < self.outcomes.len() ==> (#[trigger] self.outcomes[i]).success == self.went_ok(i as nat)
        &&& self.passing == self.went_ok(self.outcomes.len())
        &&& !self.awaiting ==> self.feedback == self.last_feedback()
    }

    /// The books before the first test are those of a run.
    pub proof fn lemma_initial_sound(total: nat)
        ensures
            Self::initial(total).sound(),
    {
    }

    /// A step keeps the books those of a run.
    pub proof fn lemma_step_keeps_sound(self, after: HarnessState)
        requires
            self.sound(),
            self.steps_to(after),
        ensures
            after.sound(),
            after.total == self.total,
            self.outcomes.len() <= after.outcomes.len() <= self.outcomes.len() + 1,
            after.outcomes.take(self.outcomes.len() as int) == self.outcomes,
            self.exchanges.len() <= after.exchanges.len() <= self.exchanges.len() + 1,
            after.exchanges.take(self.exchanges.len() as int) == self.exchanges,
    {
        if self.finished() || after == self.waiting() {
        } else if exists|meta: TestMetadata| after == #[trigger] self.concluded(meta) {
            assert forall|i: int| 0 <= i < after.outcomes.len() implies (#[trigger] after.outcomes[i]).success
                == after.went_ok(i as nat) by {}
        } else {
            assert forall|k: int| 0 <= k < self.exchanges.len() implies after.exchanges[k] == self.exchanges[k] by {}
            assert forall|i: int| 0 <= i < after.outcomes.len() implies (#[trigger] after.outcomes[i]).success
                == after.went_ok(i as nat) by {}
        }
    }

    /// Whether each of the books can follow the one before it in one step.
    pub open spec fn is_run(states: Seq<HarnessState>) -> bool {
        forall|i: int| 0 <= i < states.len() - 1 ==> (#[trigger] states[i]).steps_to(states[i + 1])
    }

    /// A run of a harness, however long, runs the tests strictly one after
    /// the other and records for each the AND of its feedbacks.
    ///
    /// Let books follow one another step by step, starting with the books
    /// before the first test. Then all of them are those of a run. What was
    /// recorded stays: the outcomes and the calls of earlier books stand at
    /// the head of those of later ones. And where every test has ended,
    /// each test has its outcome.
    pub proof fn lemma_run(states: Seq<HarnessState>, total: nat, i: int, j: int)
        requires
            states.len() > 0,
            states[0] == Self::initial(total),
            Self::is_run(states),
            0 <= i <= j < states.len(),
        ensures
            states[j].sound(),
            states[j].total == total,
            states[i].outcomes.len() <= states[j].outcomes.len(),
            states[j].outcomes.take(states[i].outcomes.len() as int) == states[i].outcomes,
            states[i].exchanges.len() <= states[j].exchanges.len(),
            states[j].exchanges.take(states[i].exchanges.len() as int) == states[i].exchanges,
            states[j].finished() ==> states[j].outcomes.len() == total,
        decreases j,
    {
        if j > 0 {
            Self::lemma_run(states, total, 0, j - 1);
            states[j - 1].lemma_step_keeps_sound(states[j]);
            if i < j {
                Self::lemma_run(states, total, i, j - 1);
                assert(states[j].outcomes.take(states[i].outcomes.len() as int) =~= states[j - 1].outcomes.take(
                    states[i].outcomes.len() as int,
                ));
                assert(states[j].exchanges.take(states[i].exchanges.len() as int) =~= states[j
                    - 1].exchanges.take(states[i].exchanges.len() as int));
            }
        }
    }

    /// Recording an outcome adds it to the failures if it is no success,
    /// and leaves the failures as they are if it is one.
    pub proof fn lemma_concluded_failures(self, meta: TestMetadata)
        ensures
            self.concluded(meta).failures() == if meta.concluded(self.passing).success {
                self.failures()
            } else {
                self.failures().push(meta.concluded(self.passing))
            },
    {
        lemma_failed_push(self.outcomes, meta.concluded(self.passing));
    }

    /// The failures are exactly the outcomes that are no success, in the
    /// order of the tests: as many as failed, and none if and only if
    /// every test that has ended succeeded.
    pub proof fn lemma_failures(self)
        ensures
            self.failures().len() <= self.outcomes.len(),
            forall|i: int| 0 <= i < self.failures().len() ==> !(#[trigger] self.failures()[i]).success,
            forall|i: int|
                0 <= i < self.outcomes.len() && !self.outcomes[i].success ==> self.failures().contains(
                    #[trigger] self.outcomes[i],
                ),
            self.failures().len() == 0 <==> forall|i: int|
                0 <= i < self.outcomes.len() ==> (#[trigger] self.outcomes[i]).success,
    {
        let pred = is_failure();
        self.outcomes.lemma_filter_len(pred);
        assert forall|i: int| 0 <= i < self.failures().len() implies !(#[trigger] self.failures()[i]).success by {
            self.outcomes.lemma_filter_pred(pred, i);
        }
        assert forall|i: int| 0 <= i < self.outcomes.len() && !self.outcomes[i].success implies self.failures().contains(
            #[trigger] self.outcomes[i],
        ) by {
            self.outcomes.lemma_filter_contains(pred, i);
        }
        if self.failures().len() > 0 {
            self.outcomes.lemma_filter_pred(pred, 0);
            self.outcomes.lemma_filter_contains_rev(pred, self.failures()[0]);
        }
    }
}

/// An outcome joins the failures if it is no success.
pub proof fn lemma_failed_push(outcomes: Seq<TestMetadata>, outcome: TestMetadata)
    ensures
        failed(outcomes.push(outcome)) == if outcome.success {
            failed(outcomes)
        } else {
            failed(outcomes).push(outcome)
        },
{
    reveal(Seq::filter);
    assert(outcomes.push(outcome).drop_last() =~= outcomes);
}

/// Whether `advance` is a possible answer of a runner that is asked
/// through `runner`: handed `loaded` where it waits for a script, told
/// `feedback` where it does not. What is possible is what the runner's own
/// contract allows; of a runner without one, anything is.
pub open spec fn pulled<R: TestRunner>(
    runner: &mut R,
    awaiting: bool,
    feedback: Feedback,
    loaded: Option<LoadedMacro>,
    advance: Advance,
) -> bool {
    if awaiting {
        call_ensures(R::supply, (runner, loaded), advance)
    } else {
        call_ensures(R::next, (runner, feedback), advance)
    }
}

/// Harness which runs one or more tests
pub struct TestHarness<R: TestRunner, A: TestAdapter> {
    tests: Vec<R>,
    adapter: A,
    awaiting: bool,
    feedback: Feedback,
    passing: bool,
    outcomes: Vec<TestMetadata>,
    exchanges: Ghost<Seq<Exchange>>,
}

impl<R: TestRunner, A: TestAdapter> View for TestHarness<R, A> {
    type V = HarnessState;

    closed spec fn view(&self) -> HarnessState {
        HarnessState {
            total: self.tests@.len(),
            awaiting: self.awaiting,
            feedback: self.feedback,
            passing: self.passing,
            outcomes: self.outcomes@,
            exchanges: self.exchanges@,
        }
    }
}

impl<R: TestRunner, A: TestAdapter> TestHarness<R, A> {
    /// The adapter that the harness holds.
    pub closed spec fn adapter(&self) -> A {
        self.adapter
    }

    /// The runners of the tests, in the order of the tests.
    pub closed spec fn tests(&self) -> Seq<R> {
        self.tests@
    }

    /// Construct a new test harness
    pub fn new(adapter: A, tests: Vec<R>) -> (r: Self)
        ensures
            r@ == HarnessState::initial(tests@.len()),
            r@.sound(),
            r.adapter() == adapter,
            r.tests() == tests@,
    {
        TestHarness {
            tests,
            adapter,
            awaiting: false,
            feedback: Feedback::Start,
            passing: true,
            outcomes: Vec::new(),
            exchanges: Ghost(Seq::empty()),
        }
    }

    /// Settles an assertion: a value of which the comparison does not hold
    /// gives way to `AssertFailure`; any other feedback of the adapter
    /// stands as it is.
    pub fn maybe_assert(adaptor_feedback: Feedback, cmp: Comparison) -> (r: Feedback)
        ensures
            r == judged(adaptor_feedback, cmp),
    {
        let holds = match &adaptor_feedback {
            Feedback::Value(v) => cmp.compare(Some(v)),
            _ => true,
        };
        if holds {
            adaptor_feedback
        } else {
            Feedback::AssertFailure
        }
    }

    /// Carries out one instruction with one call of the adapter: the call
    /// that the instruction stands for, made of the adapter that the
    /// harness holds. What the adapter says is its own to say; an operation
    /// reports it as it is, an assertion reports what its comparison makes
    /// of it. The runners are left alone.
    pub fn translate_instruction(&mut self, instruction: Instruction) -> (r: Feedback)
        ensures
            final(self)@.exchanges.len() == old(self)@.exchanges.len() + 1,
            final(self)@ == old(self)@.called(instruction, final(self)@.exchanges.last().answer),
            r == reported(final(self)@.exchanges.last().answer, instruction.check()),
            exists|asked: &mut A|
                {
                    &&& *asked == old(self).adapter()
                    &&& *final(asked) == final(self).adapter()
                    &&& instruction.call().asked_of(asked, final(self)@.exchanges.last().answer)
                },
            final(self).tests() == old(self).tests(),
    {
        let errand = instruction.into_errand();
        let told = errand.call.perform(&mut self.adapter);
        proof {
            self.exchanges@ = self.exchanges@.push(
                Exchange {
                    test: self.outcomes@.len(),
                    call: errand.call,
                    answer: told,
                    feedback: reported(told, errand.check),
                },
            );
        }
        match errand.check {
            Some(comparison) => Self::maybe_assert(told, comparison),
            None => told,
        }
    }

    /// Does what the running test said: makes the call of an instruction,
    /// waits for a script, or asks the test about itself and records its
    /// outcome.
    fn follow(&mut self, advance: Advance) -> (progress: Progress)
        requires
            !old(self)@.finished(),
        ensures
            final(self).tests() == old(self).tests(),
            match advance {
                Advance::Run(instruction) => {
                    &&& progress is Ran
                    &&& exists|asked: &mut A, answer: Feedback|
                        {
                            &&& *asked == old(self).adapter()
                            &&& *final(asked) == final(self).adapter()
                            &&& instruction.call().asked_of(asked, answer)
                            &&& final(self)@ == old(self)@.ran(instruction, answer)
                        }
                },
                Advance::Load(request) => {
                    &&& progress == Progress::Load(request)
                    &&& final(self)@ == old(self)@.waiting()
                    &&& final(self).adapter() == old(self).adapter()
                },
                Advance::Done => {
                    &&& final(self).adapter() == old(self).adapter()
                    &&& exists|meta: TestMetadata|
                        {
                            &&& call_ensures(R::meta, (&old(self).tests()[old(self)@.outcomes.len() as int],), meta)
                            &&& progress == Progress::Concluded(meta.concluded(old(self)@.passing))
                            &&& final(self)@ == old(self)@.concluded(meta)
                        }
                },
            },
    {
        match advance {
            Advance::Run(instruction) => {
                let told = self.translate_instruction(instruction);
                self.passing = self.passing && told.is_ok();
                self.feedback = told;
                self.awaiting = false;
                assert(self@ == old(self)@.ran(instruction, self@.exchanges.last().answer));
                Progress::Ran
            },
            Advance::Load(request) => {
                self.awaiting = true;
                self.feedback = Feedback::Start;
                Progress::Load(request)
            },
            Advance::Done => {
                let meta = self.tests[self.outcomes.len()].meta();
                let outcome = meta.conclude(self.passing);
                self.outcomes.push(outcome.duplicate());
                self.awaiting = false;
                self.feedback = Feedback::Start;
                self.passing = true;
                assert(self@ == old(self)@.concluded(meta));
                Progress::Concluded(outcome)
            },
        }
    }

    /// What the running test says about itself; nothing when every test
    /// has ended.
    pub fn running(&self) -> (r: Option<TestMetadata>)
        ensures
            match r {
                Some(meta) => !self@.finished() && call_ensures(
                    R::meta,
                    (&self.tests()[self@.outcomes.len() as int],),
                    meta,
                ),
                None => self@.finished(),
            },
    {
        if self.outcomes.len() < self.tests.len() {
            Some(self.tests[self.outcomes.len()].meta())
        } else {
            None
        }
    }

    /// Takes one step: asks the running test what to do next, and does it.
    ///
    /// The running test is the first that has no outcome yet. It is told
    /// the feedback of its last instruction, or, where it waits for the
    /// script of a macro, handed `loaded`: the script, or `None` if it could
    /// not be had. A script that is handed over while the test waits for
    /// none is dropped. What the test answers is done: the call of an
    /// instruction is made of the adapter, a script is asked for, or the
    /// test is asked about itself and its outcome recorded. No other test
    /// is touched, and the adapter only by the call of an instruction. When
    /// no test is left, nothing happens.
    pub fn step(&mut self, loaded: Option<LoadedMacro>) -> (progress: Progress)
        ensures
            old(self)@.steps_to(final(self)@),
            old(self)@.sound() ==> final(self)@.sound(),
            final(self).tests().len() == old(self).tests().len(),
            forall|i: int|
                0 <= i < old(self).tests().len() && i != old(self)@.outcomes.len()
                    ==> #[trigger] final(self).tests()[i] == old(self).tests()[i],
            old(self)@.finished() ==> {
                &&& progress is Finished
                &&& final(self)@ == old(self)@
                &&& final(self).adapter() == old(self).adapter()
                &&& final(self).tests() == old(self).tests()
            },
            !old(self)@.finished() ==> exists|runner: &mut R, advance: Advance|
                {
                    &&& *runner == old(self).tests()[old(self)@.outcomes.len() as int]
                    &&& *final(runner) == final(self).tests()[old(self)@.outcomes.len() as int]
                    &&& #[trigger] pulled(runner, old(self)@.awaiting, old(self)@.feedback, loaded, advance)
                    &&& match advance {
                        Advance::Run(instruction) => {
                            &&& progress is Ran
                            &&& exists|asked: &mut A, answer: Feedback|
                                {
                                    &&& *asked == old(self).adapter()
                                    &&& *final(asked) == final(self).adapter()
                                    &&& instruction.call().asked_of(asked, answer)
                                    &&& final(self)@ == old(self)@.ran(instruction, answer)
                                }
                        },
                        Advance::Load(request) => {
                            &&& progress == Progress::Load(request)
                            &&& final(self)@ == old(self)@.waiting()
                            &&& final(self).adapter() == old(self).adapter()
                        },
                        Advance::Done => {
                            &&& final(self).adapter() == old(self).adapter()
                            &&& exists|meta: TestMetadata|
                                {
                                    &&& call_ensures(
                                        R::meta,
                                        (&final(self).tests()[old(self)@.outcomes.len() as int],),
                                        meta,
                                    )
                                    &&& progress == Progress::Concluded(meta.concluded(old(self)@.passing))
                                    &&& final(self)@ == old(self)@.concluded(meta)
                                }
                        },
                    }
                },
    {
        let current = self.outcomes.len();
        if current >= self.tests.len() {
            return Progress::Finished;
        }
        let ghost before = self.tests();
        let advance = if self.awaiting {
            let advance = self.tests[current].supply(loaded);
            proof {
                let runner = choose|runner: &mut R|
                    *runner == before[current as int] && *final(runner) == self.tests()[current as int]
                        && call_ensures(R::supply, (runner, loaded), advance);
                assert(pulled(runner, true, old(self)@.feedback, loaded, advance));
            }
            advance
        } else {
            let mut told = Feedback::Start;
            core::mem::swap(&mut told, &mut self.feedback);
            let advance = self.tests[current].next(told);
            proof {
                let runner = choose|runner: &mut R|
                    *runner == before[current as int] && *final(runner) == self.tests()[current as int]
                        && call_ensures(R::next, (runner, told), advance);
                assert(pulled(runner, false, told, loaded, advance));
            }
            advance
        };
        let ghost asked = self@;
        let ghost said = advance;
        let progress = self.follow(advance);
        proof {
            if old(self)@.sound() && old(self)@.steps_to(self@) {
                old(self)@.lemma_step_keeps_sound(self@);
            }
            if said is Run {
                assert(forall|answer: Feedback|
                    #[trigger] asked.ran(said->Run_0, answer) == old(self)@.ran(said->Run_0, answer));
            }
            assert(forall|meta: TestMetadata| #[trigger] asked.concluded(meta) == old(self)@.concluded(meta));
        }
        progress
    }

    /// Gives the result: the adapter again if every test that has ended
    /// succeeded, else the outcomes of those that did not, in the order of
    /// the tests.
    pub fn finish(self) -> (r: Result<A, Vec<TestMetadata>>)
        ensures
            match r {
                Ok(adapter) => adapter == self.adapter() && self@.failures().len() == 0,
                Err(failures) => failures@ == self@.failures() && failures@.len() > 0,
            },
    {
        let mut failures: Vec<TestMetadata> = Vec::new();
        let mut i: usize = 0;
        proof {
            reveal(Seq::filter);
        }
        while i < self.outcomes.len()
            invariant
                i <= self.outcomes@.len(),
                failures@ == failed(self.outcomes@.take(i as int)),
            decreases self.outcomes@.len() - i,
        {
            proof {
                lemma_failed_push(self.outcomes@.take(i as int), self.outcomes@[i as int]);
                assert(self.outcomes@.take(i as int).push(self.outcomes@[i as int]) =~= self.outcomes@.take(i + 1));
            }
            if !self.outcomes[i].success {
                failures.push(self.outcomes[i].duplicate());
            }
            i += 1;
        }
        assert(self.outcomes@.take(i as int) =~= self.outcomes@);
        if failures.len() == 0 {
            Ok(self.adapter)
        } else {
            Err(failures)
        }
    }
}

} // verus!
