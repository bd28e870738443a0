//! What the failure policies and the macro steps guarantee, stated of every
//! script and every state of a runner.

use vstd::prelude::*;
use crate::feedback::Feedback;
use crate::json_runner::{
    aborting_level, after_feedback, after_supply, drive, lemma_aborting_level, Frame, Outcome, RunnerState,
};
use crate::runner::{Advance, LoadedMacro};

verus! {

/// `FastFail`: once a feedback is not ok, a test whose own script has this
/// policy is done, wherever it stands and whatever macros it runs. Nothing
/// more is handed out, and the cursor stays where it is.
pub proof fn lemma_fast_fail_ends_test(state: RunnerState)
    requires
        state.wf(),
        state.frames[0].mode() is FastFail,
    ensures
        after_feedback(state.frames, state.settled, false) == (Outcome {
            frames: state.frames,
            settled: state.settled,
            advance: Advance::Done,
        }),
        state.fed(false).frames == state.frames,
        !state.fed(false).success,
{
}

/// With a feedback that is ok, the policy plays no part: a step that has an
/// instruction left hands it out, and the cursor moves past it.
pub proof fn lemma_ok_hands_out_next(state: RunnerState)
    requires
        state.wf(),
        state.frames.last().step_i < state.frames.last().steps().len(),
        state.frames.last().steps()[state.frames.last().step_i as int] is Regular,
        state.frames.last().op_i < state.frames.last().steps()[state.frames.last().step_i as int]->Regular_0.operations.len(),
    ensures
        ({
            let top = state.frames.last();
            let step = top.steps()[top.step_i as int]->Regular_0;
            after_feedback(state.frames, state.settled, true) == (Outcome {
                frames: state.frames.drop_last().push(top.past_instruction()),
                settled: (state.frames.len() - 1) as nat,
                advance: Advance::Run(step.operations[top.op_i as int].instruction(step.tab)),
            })
        }),
{
}

/// `SkipInstructions`: after a feedback that is not ok, what is left of the
/// step that handed out the instruction is given up, and the next step
/// starts with its first instruction.
pub proof fn lemma_skip_instructions_resumes_at_next_step(state: RunnerState)
    requires
        state.wf(),
        aborting_level(state.frames, 0, false) is None,
        state.frames.last().mode() is SkipInstructions,
        state.frames.last().op_i > 0,
        state.frames.last().step_i + 1 < state.frames.last().steps().len(),
        state.frames.last().steps()[state.frames.last().step_i as int] is Regular,
        state.frames.last().steps()[state.frames.last().step_i + 1] is Regular,
        state.frames.last().steps()[state.frames.last().step_i + 1]->Regular_0.operations.len() > 0,
    ensures
        ({
            let top = state.frames.last();
            let next = top.steps()[top.step_i + 1]->Regular_0;
            after_feedback(state.frames, state.settled, false) == (Outcome {
                frames: state.frames.drop_last().push(top.past_step().past_instruction()),
                settled: (state.frames.len() - 1) as nat,
                advance: Advance::Run(next.operations[0].instruction(next.tab)),
            })
        }),
{
    let top = state.frames.last();
    let rest = state.frames.drop_last();
    let passed = rest.push(top.past_step());
    assert(passed.drop_last() =~= rest);
    reveal_with_fuel(drive, 3);
}

/// `SkipSteps`: a feedback that is not ok does not cut a step short. The
/// step hands out its next instruction as if nothing had happened.
pub proof fn lemma_skip_steps_finishes_step(state: RunnerState)
    requires
        state.wf(),
        aborting_level(state.frames, 0, false) is None,
        state.frames.last().mode() is SkipSteps,
        state.frames.last().step_i < state.frames.last().steps().len(),
        state.frames.last().steps()[state.frames.last().step_i as int] is Regular,
        state.frames.last().op_i < state.frames.last().steps()[state.frames.last().step_i as int]->Regular_0.operations.len(),
    ensures
        after_feedback(state.frames, state.settled, false) == after_feedback(state.frames, state.settled, true),
{
}

/// `SkipSteps`: where the last instruction of a step reports a feedback
/// that is not ok, the test ends with that step: the test's own script
/// hands out nothing more and does not move.
pub proof fn lemma_skip_steps_ends_after_failing_step(state: RunnerState)
    requires
        state.wf(),
        state.frames.len() == 1,
        state.frames[0].mode() is SkipSteps,
        state.frames[0].step_i < state.frames[0].steps().len(),
        state.frames[0].steps()[state.frames[0].step_i as int] is Regular,
        state.frames[0].op_i >= state.frames[0].steps()[state.frames[0].step_i as int]->Regular_0.operations.len(),
    ensures
        after_feedback(state.frames, state.settled, false) == (Outcome {
            frames: state.frames,
            settled: state.settled,
            advance: Advance::Done,
        }),
{
    lemma_aborting_level(state.frames, 0, false);
    reveal_with_fuel(drive, 3);
}

/// `SkipSteps`: where the last instruction of a step reports a feedback
/// that is ok, the next step starts, whatever an earlier instruction of the
/// step reported.
pub proof fn lemma_skip_steps_goes_on_after_passing_step(state: RunnerState)
    requires
        state.wf(),
        state.frames.last().step_i + 1 < state.frames.last().steps().len(),
        state.frames.last().steps()[state.frames.last().step_i as int] is Regular,
        state.frames.last().op_i >= state.frames.last().steps()[state.frames.last().step_i as int]->Regular_0.operations.len(),
        state.frames.last().steps()[state.frames.last().step_i + 1] is Regular,
        state.frames.last().steps()[state.frames.last().step_i + 1]->Regular_0.operations.len() > 0,
    ensures
        ({
            let top = state.frames.last();
            let next = top.steps()[top.step_i + 1]->Regular_0;
            after_feedback(state.frames, state.settled, true) == (Outcome {
                frames: state.frames.drop_last().push(top.past_step().past_instruction()),
                settled: (state.frames.len() - 1) as nat,
                advance: Advance::Run(next.operations[0].instruction(next.tab)),
            })
        }),
{
    let top = state.frames.last();
    let rest = state.frames.drop_last();
    let passed = rest.push(top.past_step());
    assert(passed.drop_last() =~= rest);
    reveal_with_fuel(drive, 3);
}

/// A macro whose script has no step hands out nothing and changes nothing:
/// the runner goes on as it does where the script could not be had, and
/// whether the last feedback was ok stays as it was.
pub proof fn lemma_empty_macro_is_skipped(state: RunnerState, loaded: LoadedMacro)
    requires
        state.wf(),
        loaded.test.test@.len() == 0,
    ensures
        after_supply(state.frames, state.settled, Some(loaded), state.success) == after_supply(
            state.frames,
            state.settled,
            None,
            state.success,
        ),
        state.supplied(Some(loaded)) == state.supplied(None),
        state.supplied(Some(loaded)).success == state.success,
{
    let sub = Frame::fresh(loaded);
    let grown = state.frames.push(sub);
    assert(grown.drop_last() =~= state.frames);
    reveal_with_fuel(drive, 3);
}

/// A macro that is used up gives way in the same move: told that the last
/// instruction of the macro went ok, the runner hands out the next
/// instruction of the script that holds the macro, and the macro is gone.
pub proof fn lemma_used_up_macro_gives_way(state: RunnerState)
    requires
        state.wf(),
        state.frames.len() >= 2,
        state.settled == state.frames.len() - 1,
        state.frames.last().step_i + 1 == state.frames.last().steps().len(),
        state.frames.last().steps()[state.frames.last().step_i as int] is Regular,
        state.frames.last().op_i == state.frames.last().steps()[state.frames.last().step_i as int]->Regular_0.operations.len(),
        state.frames[state.frames.len() - 2].step_i < state.frames[state.frames.len() - 2].steps().len(),
        state.frames[state.frames.len() - 2].steps()[state.frames[state.frames.len() - 2].step_i as int] is Regular,
        state.frames[state.frames.len() - 2].op_i < state.frames[state.frames.len() - 2].steps()[state.frames[state.frames.len() - 2].step_i as int]->Regular_0.operations.len(),
    ensures
        ({
            let holder = state.frames[state.frames.len() - 2];
            let step = holder.steps()[holder.step_i as int]->Regular_0;
            after_feedback(state.frames, state.settled, true) == (Outcome {
                frames: state.frames.drop_last().drop_last().push(holder.past_instruction()),
                settled: (state.frames.len() - 2) as nat,
                advance: Advance::Run(step.operations[holder.op_i as int].instruction(step.tab)),
            })
        }),
{
    let sub = state.frames.last();
    let below = state.frames.drop_last();
    let passed = below.push(sub.past_step());
    assert(passed.drop_last() =~= below);
    reveal_with_fuel(drive, 5);
}

/// What is told or handed to a runner.
pub enum Event {
    /// The feedback of the last instruction
    Told(Feedback),
    /// The script of a macro, or `None` where it could not be had
    Handed(Option<LoadedMacro>),
}

impl Event {
    /// Whether two events are the same to a runner: feedbacks that are both
    /// ok or both not, or the same script.
    pub open spec fn alike(self, other: Event) -> bool {
        match (self, other) {
            (Event::Told(a), Event::Told(b)) => a.ok() == b.ok(),
            (Event::Handed(a), Event::Handed(b)) => a == b,
            _ => false,
        }
    }
}

impl RunnerState {
    /// The state after an event.
    pub open spec fn after(self, event: Event) -> RunnerState {
        match event {
            Event::Told(feedback) => self.fed(feedback.ok()),
            Event::Handed(loaded) => self.supplied(loaded),
        }
    }

    /// What the runner says to an event.
    pub open spec fn answer(self, event: Event) -> Advance {
        match event {
            Event::Told(feedback) => after_feedback(self.frames, self.settled, feedback.ok()).advance,
            Event::Handed(loaded) => after_supply(self.frames, self.settled, loaded, self.success).advance,
        }
    }

    /// What the runner says, one after the other, to a run of events.
    pub open spec fn replay(self, events: Seq<Event>) -> Seq<Advance>
        decreases events.len(),
    {
        if events.len() == 0 {
            Seq::empty()
        } else {
            seq![self.answer(events[0])] + self.after(events[0]).replay(events.drop_first())
        }
    }

    /// A run of events, replayed from the same state, gives the same
    /// instructions again; and of a feedback, only whether it is ok counts.
    pub proof fn lemma_replay_repeats(self, first: Seq<Event>, second: Seq<Event>)
        requires
            first.len() == second.len(),
            forall|i: int| 0 <= i < first.len() ==> (#[trigger] first[i]).alike(second[i]),
        ensures
            self.replay(first) == self.replay(second),
        decreases first.len(),
    {
        if first.len() > 0 {
            assert forall|i: int| 0 <= i < first.drop_first().len() implies (#[trigger] first.drop_first()[i]).alike(
                second.drop_first()[i],
            ) by {}
            self.after(first[0]).lemma_replay_repeats(first.drop_first(), second.drop_first());
        }
    }
}

} // verus!
