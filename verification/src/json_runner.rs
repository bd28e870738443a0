//! The runner of a script: a cursor over its steps and instructions, moved
//! by the feedback of the instruction that ran last.
//!
//! A macro step stands for the steps of another script. The runner does not
//! read files: it asks for the script with [`Advance::Load`] and goes on when
//! it is handed over. While a macro runs, its script lies on top of the one
//! that holds the step, as one more frame.

use vstd::prelude::*;
use crate::feedback::Feedback;
use crate::runner::{Advance, LoadedMacro, MacroRequest, TestMetadata, TestRunner};
use crate::structure::{FailureMode, Test, TestStepType};

verus! {

/// A script that is being run, and how far it has come.
#[derive(Debug, Clone, PartialEq, Eq)]
pub struct Frame {
    /// The script
    pub script: Test,
    /// Index of the step that is being run
    pub step_i: usize,
    /// Index of the step's instruction that comes next
    pub op_i: usize,
    /// Where the script was loaded from, if it came from a file
    pub path: Option<String>,
}

/// What a runner is about to do with its innermost script.
#[derive(Debug, Clone, Copy, PartialEq, Eq)]
pub enum Phase {
    /// Go on from the cursor.
    Scan,
    /// Take note that the macro step just passed gave no instruction, then
    /// go on from the cursor.
    Barren,
    /// End the script.
    Leave,
}

/// What a script offers at its cursor.
#[derive(Debug, Clone, PartialEq, Eq)]
pub enum Glance {
    /// The next instruction of the step at the cursor.
    Hand(crate::instructions::Instruction),
    /// A macro step, whose script is to be loaded.
    Ask(MacroRequest),
    /// A step with nothing more to hand out.
    Pass,
    /// The end of the script.
    End,
}

impl Glance {
    /// Whether two offers are the same: instructions that are the same, the
    /// same request, or the same lack of either.
    pub open spec fn same(self, other: Glance) -> bool {
        match (self, other) {
            (Glance::Hand(a), Glance::Hand(b)) => a.same(b),
            _ => self == other,
        }
    }
}

/// The state of a runner: its scripts, the test's own first and the
/// innermost macro last; how many of the macros have handed out an
/// instruction; and whether the last feedback was ok.
pub struct RunnerState {
    pub frames: Seq<Frame>,
    pub settled: nat,
    pub success: bool,
}

/// What one move of a runner leads to.
pub struct Outcome {
    pub frames: Seq<Frame>,
    pub settled: nat,
    pub advance: Advance,
}

impl Frame {
    /// The script's policy on failure.
    pub open spec fn mode(&self) -> FailureMode {
        self.script.info.fail_mode
    }

    /// The script's steps.
    pub open spec fn steps(&self) -> Seq<TestStepType> {
        self.script.test@
    }

    /// How many steps lie at or behind the cursor.
    pub open spec fn remaining(&self) -> nat {
        if self.step_i <= self.script.test.len() {
            (self.script.test.len() - self.step_i) as nat
        } else {
            0
        }
    }

    /// Whether the step at the cursor is given up: the policy is
    /// `SkipInstructions`, the feedback is not ok, and the step has handed
    /// out the instruction that the feedback is about.
    pub open spec fn abandons(&self, ok: bool) -> bool {
        self.mode() is SkipInstructions && !ok && self.op_i > 0
    }

    /// Whether the script ends where a step ends: the policy is `SkipSteps`
    /// and the feedback is not ok.
    pub open spec fn stops(&self, ok: bool) -> bool {
        self.mode() is SkipSteps && !ok
    }

    /// The frame with its cursor one instruction on.
    pub open spec fn past_instruction(self) -> Frame {
        Frame { op_i: (self.op_i + 1) as usize, ..self }
    }

    /// The frame with its cursor at the start of the next step.
    pub open spec fn past_step(self) -> Frame {
        Frame { step_i: (self.step_i + 1) as usize, op_i: 0, ..self }
    }

    /// What the script offers at its cursor, the last feedback having been
    /// ok or not: the end, where no step is left, or where the step at the
    /// cursor has nothing more and the script stops; the next instruction of
    /// the step, unless the step is given up; a request for the script of a
    /// macro step; or nothing, where the step is over.
    pub open spec fn glance(&self, ok: bool) -> Glance {
        if self.step_i >= self.script.test.len() {
            Glance::End
        } else {
            match self.steps()[self.step_i as int] {
                TestStepType::Regular(step) => if self.op_i < step.operations.len() && !self.abandons(ok) {
                    Glance::Hand(step.operations[self.op_i as int].instruction(step.tab))
                } else if self.stops(ok) {
                    Glance::End
                } else {
                    Glance::Pass
                },
                TestStepType::Macro { name, file } => Glance::Ask(
                    MacroRequest { name, file, base: self.path },
                ),
            }
        }
    }

    /// The frame after it gave what it offers: one instruction on, or at the
    /// start of the next step, or where it was if the script ends.
    pub open spec fn moved(self, ok: bool) -> Frame {
        match self.glance(ok) {
            Glance::Hand(_) => self.past_instruction(),
            Glance::Ask(_) => self.past_step(),
            Glance::Pass => self.past_step(),
            Glance::End => self,
        }
    }

    /// Gives what the script offers at its cursor, and moves the cursor past
    /// it.
    pub fn step(&mut self, ok: bool) -> (offer: Glance)
        ensures
            offer.same(old(self).glance(ok)),
            *final(self) == old(self).moved(ok),
    {
        if self.step_i >= self.script.test.len() {
            return Glance::End;
        }
        let mode = self.script.info.fail_mode;
        match &self.script.test[self.step_i] {
            TestStepType::Regular(step) => {
                let abandons = !ok && self.op_i > 0 && matches!(mode, FailureMode::SkipInstructions);
                if self.op_i < step.operations.len() && !abandons {
                    let copy = step.operations[self.op_i].duplicate();
                    proof {
                        copy.lemma_same_instruction(step.operations[self.op_i as int], step.tab);
                    }
                    let instruction = copy.into_instruction(step.tab.duplicate());
                    self.op_i += 1;
                    Glance::Hand(instruction)
                } else if !ok && matches!(mode, FailureMode::SkipSteps) {
                    Glance::End
                } else {
                    self.step_i += 1;
                    self.op_i = 0;
                    Glance::Pass
                }
            },
            TestStepType::Macro { name, file } => {
                let base = match &self.path {
                    Some(path) => Some(path.clone()),
                    None => None,
                };
                let request = MacroRequest { name: name.clone(), file: file.clone(), base };
                self.step_i += 1;
                self.op_i = 0;
                Glance::Ask(request)
            },
        }
    }

    /// The frame of a script that was just loaded.
    pub open spec fn fresh(loaded: LoadedMacro) -> Frame {
        Frame { script: loaded.test, step_i: 0, op_i: 0, path: Some(loaded.path) }
    }
}

/// How far a move is from its end, among moves on as many frames.
pub open spec fn weight(frames: Seq<Frame>, phase: Phase) -> nat {
    match phase {
        Phase::Leave => 0,
        Phase::Scan => 1 + frames.last().remaining(),
        Phase::Barren => 2 + frames.last().remaining(),
    }
}

/// The smaller of two numbers.
pub open spec fn least(a: nat, b: nat) -> nat {
    if a <= b {
        a
    } else {
        b
    }
}

/// Where a runner gets from `frames` in the given phase, the last feedback
/// having been ok or not.
///
/// Scanning hands out the next instruction of the step at the cursor, unless
/// the step is given up; a step that has nothing more is left behind, and
/// ends the script where the policy says so. A macro step is passed, and its
/// script asked for. A script that ends gives way to the one below it, which
/// goes on from its cursor; if the script that ends has never handed out an
/// instruction, its macro step counts as a step that gave nothing. When the
/// test's own script ends, the test is done. Once an instruction is handed
/// out, every macro that is being run has handed one out.
pub open spec fn drive(frames: Seq<Frame>, settled: nat, phase: Phase, ok: bool) -> Outcome
    decreases frames.len(), weight(frames, phase),
{
    if frames.len() == 0 {
        Outcome { frames, settled, advance: Advance::Done }
    } else {
        let top = frames.last();
        let rest = frames.drop_last();
        match phase {
            Phase::Leave => if frames.len() == 1 {
                Outcome { frames, settled, advance: Advance::Done }
            } else if frames.len() - 1 <= settled {
                drive(rest, least(settled, (rest.len() - 1) as nat), Phase::Scan, ok)
            } else {
                drive(rest, least(settled, (rest.len() - 1) as nat), Phase::Barren, ok)
            },
            Phase::Barren => if top.stops(ok) {
                drive(frames, settled, Phase::Leave, ok)
            } else {
                drive(frames, settled, Phase::Scan, ok)
            },
            Phase::Scan => match top.glance(ok) {
                Glance::Hand(instruction) => Outcome {
                    frames: rest.push(top.moved(ok)),
                    settled: (frames.len() - 1) as nat,
                    advance: Advance::Run(instruction),
                },
                Glance::Ask(request) => Outcome {
                    frames: rest.push(top.moved(ok)),
                    settled,
                    advance: Advance::Load(request),
                },
                Glance::Pass => drive(rest.push(top.moved(ok)), settled, Phase::Scan, ok),
                Glance::End => drive(frames, settled, Phase::Leave, ok),
            },
        }
    }
}

/// The outermost script, at or above level `from`, that aborts on the
/// feedback: one whose policy is `FastFail`, the feedback being not ok.
pub open spec fn aborting_level(frames: Seq<Frame>, from: int, ok: bool) -> Option<int>
    decreases frames.len() - from,
{
    if ok || from < 0 || from >= frames.len() {
        None
    } else if frames[from].mode() is FastFail {
        Some(from)
    } else {
        aborting_level(frames, from + 1, ok)
    }
}

/// Where a runner gets when it is told the feedback of the last instruction.
///
/// If a script aborts on the feedback, the outermost such script ends, and
/// with it the macros that it holds: the test is done if that is the test's
/// own script, else the script below it goes on. If none aborts, the
/// innermost script goes on from its cursor.
pub open spec fn after_feedback(frames: Seq<Frame>, settled: nat, ok: bool) -> Outcome {
    match aborting_level(frames, 0, ok) {
        Some(k) => if k == 0 {
            Outcome { frames, settled, advance: Advance::Done }
        } else {
            drive(frames.take(k + 1), least(settled, k as nat), Phase::Leave, ok)
        },
        None => drive(frames, settled, Phase::Scan, ok),
    }
}

/// Where a runner gets when it is handed the script of the macro step that
/// it passed last, or told that there is none.
///
/// The script becomes the innermost one and starts at its first step,
/// unless it aborts on the feedback at once. Without a script, the macro
/// step counts as a step that gave nothing.
pub open spec fn after_supply(frames: Seq<Frame>, settled: nat, loaded: Option<LoadedMacro>, ok: bool) -> Outcome {
    match loaded {
        Some(script) => {
            let sub = Frame::fresh(script);
            if !ok && sub.mode() is FastFail {
                drive(frames.push(sub), settled, Phase::Leave, ok)
            } else {
                drive(frames.push(sub), settled, Phase::Scan, ok)
            }
        },
        None => drive(frames, settled, Phase::Barren, ok),
    }
}

impl RunnerState {
    /// A runner always holds the test's own script, and no more macros have
    /// handed out an instruction than are being run.
    pub open spec fn wf(&self) -> bool {
        self.frames.len() >= 1 && self.settled <= self.frames.len() - 1
    }

    /// The state of a runner that has not started on `frame`.
    pub open spec fn initial(frame: Frame) -> RunnerState {
        RunnerState { frames: seq![frame], settled: 0, success: true }
    }

    /// The state after the feedback of the last instruction.
    pub open spec fn fed(self, ok: bool) -> RunnerState {
        let out = after_feedback(self.frames, self.settled, ok);
        RunnerState { frames: out.frames, settled: out.settled, success: ok }
    }

    /// The state after the script of a macro step was handed over, or found
    /// missing.
    pub open spec fn supplied(self, loaded: Option<LoadedMacro>) -> RunnerState {
        let out = after_supply(self.frames, self.settled, loaded, self.success);
        RunnerState { frames: out.frames, settled: out.settled, success: self.success }
    }

    /// What the runner reports about its test.
    pub open spec fn metadata(self) -> TestMetadata {
        TestMetadata { success: self.success, ..self.frames[0].script.info.metadata() }
    }
}

/// A move keeps the test's own script, and leaves no more macros settled
/// than are being run.
pub proof fn lemma_drive_wf(frames: Seq<Frame>, settled: nat, phase: Phase, ok: bool)
    requires
        frames.len() >= 1,
        settled <= frames.len() - 1,
    ensures
        drive(frames, settled, phase, ok).frames.len() >= 1,
        drive(frames, settled, phase, ok).settled <= drive(frames, settled, phase, ok).frames.len() - 1,
    decreases frames.len(), weight(frames, phase),
{
    let top = frames.last();
    let rest = frames.drop_last();
    match phase {
        Phase::Leave => {
            if frames.len() > 1 {
                if frames.len() - 1 <= settled {
                    lemma_drive_wf(rest, least(settled, (rest.len() - 1) as nat), Phase::Scan, ok);
                } else {
                    lemma_drive_wf(rest, least(settled, (rest.len() - 1) as nat), Phase::Barren, ok);
                }
            }
        },
        Phase::Barren => {
            if top.stops(ok) {
                lemma_drive_wf(frames, settled, Phase::Leave, ok);
            } else {
                lemma_drive_wf(frames, settled, Phase::Scan, ok);
            }
        },
        Phase::Scan => {
            match top.glance(ok) {
                Glance::Pass => {
                    lemma_drive_wf(rest.push(top.moved(ok)), settled, Phase::Scan, ok);
                },
                Glance::End => {
                    lemma_drive_wf(frames, settled, Phase::Leave, ok);
                },
                _ => {},
            }
        },
    }
}

/// Where no script is left to abort, none aborts; a level at which a script
/// aborts lies above `from`, and its script is the outermost that aborts.
pub proof fn lemma_aborting_level(frames: Seq<Frame>, from: int, ok: bool)
    requires
        0 <= from,
    ensures
        match aborting_level(frames, from, ok) {
            Some(k) => {
                &&& !ok
                &&& from <= k < frames.len()
                &&& frames[k].mode() is FastFail
                &&& forall|j: int| from <= j < k ==> !(#[trigger] frames[j].mode() is FastFail)
            },
            None => ok || forall|j: int| from <= j < frames.len() ==> !(#[trigger] frames[j].mode() is FastFail),
        },
    decreases frames.len() - from,
{
    if !ok && from < frames.len() && !(frames[from].mode() is FastFail) {
        lemma_aborting_level(frames, from + 1, ok);
    }
}

impl RunnerState {
    /// Being told a feedback keeps a runner's state valid.
    pub proof fn lemma_fed_wf(self, ok: bool)
        requires
            self.wf(),
        ensures
            self.fed(ok).wf(),
    {
        lemma_aborting_level(self.frames, 0, ok);
        match aborting_level(self.frames, 0, ok) {
            Some(k) => {
                if k > 0 {
                    lemma_drive_wf(self.frames.take(k + 1), least(self.settled, k as nat), Phase::Leave, ok);
                }
            },
            None => {
                lemma_drive_wf(self.frames, self.settled, Phase::Scan, ok);
            },
        }
    }

    /// Being handed a script keeps a runner's state valid.
    pub proof fn lemma_supplied_wf(self, loaded: Option<LoadedMacro>)
        requires
            self.wf(),
        ensures
            self.supplied(loaded).wf(),
    {
        match loaded {
            Some(script) => {
                let grown = self.frames.push(Frame::fresh(script));
                lemma_drive_wf(grown, self.settled, Phase::Leave, self.success);
                lemma_drive_wf(grown, self.settled, Phase::Scan, self.success);
            },
            None => {
                lemma_drive_wf(self.frames, self.settled, Phase::Barren, self.success);
            },
        }
    }
}

/// Runs a script that was built in memory or read from a file.
#[derive(Debug)]
pub struct JsonRunner {
    root: Frame,
    subs: Vec<Frame>,
    settled: usize,
    success: bool,
}

impl View for JsonRunner {
    type V = RunnerState;

    closed spec fn view(&self) -> RunnerState {
        RunnerState { frames: seq![self.root] + self.subs@, settled: self.settled as nat, success: self.success }
    }
}

impl JsonRunner {
    /// A runner for a script that was built in memory.
    pub fn new(test: Test) -> (r: Self)
        ensures
            r@ == RunnerState::initial(Frame { script: test, step_i: 0, op_i: 0, path: None }),
            r@.wf(),
    {
        let root = Frame { script: test, step_i: 0, op_i: 0, path: None };
        JsonRunner { root, subs: Vec::new(), settled: 0, success: true }
    }

    /// A runner for a script that was read from the file at `path`.
    pub fn from_loaded(test: Test, path: String) -> (r: Self)
        ensures
            r@ == RunnerState::initial(Frame { script: test, step_i: 0, op_i: 0, path: Some(path) }),
            r@.wf(),
    {
        let root = Frame { script: test, step_i: 0, op_i: 0, path: Some(path) };
        JsonRunner { root, subs: Vec::new(), settled: 0, success: true }
    }

    /// The policy of the script at a level, the test's own being level 0.
    fn mode_at(&self, level: usize) -> (mode: FailureMode)
        requires
            level < self@.frames.len(),
        ensures
            mode == self@.frames[level as int].mode(),
    {
        if level == 0 {
            self.root.script.info.fail_mode
        } else {
            self.subs[level - 1].script.info.fail_mode
        }
    }

    /// Moves on in the given phase until there is something to do outside.
    fn run(&mut self, phase: Phase) -> (advance: Advance)
        ensures
            final(self)@.success == old(self)@.success,
            final(self)@.frames.len() >= 1,
            ({
                let out = drive(old(self)@.frames, old(self)@.settled, phase, old(self)@.success);
                &&& final(self)@.frames == out.frames
                &&& final(self)@.settled == out.settled
                &&& advance.same(out.advance)
            }),
    {
        let ok = self.success;
        let mut current = phase;
        loop
            invariant
                self.success == ok,
                ok == old(self)@.success,
                drive(self@.frames, self@.settled, current, ok) == drive(
                    old(self)@.frames,
                    old(self)@.settled,
                    phase,
                    ok,
                ),
            decreases self@.frames.len(), weight(self@.frames, current),
        {
            let depth = self.subs.len();
            let ghost before = self@.frames;
            let ghost settled = self@.settled;
            assert(before.drop_last().push(before.last()) =~= before);
            match current {
                Phase::Leave => {
                    if depth == 0 {
                        assert(drive(before, settled, Phase::Leave, ok) == Outcome {
                            frames: before,
                            settled,
                            advance: Advance::Done,
                        });
                        return Advance::Done;
                    }
                    let was_settled = depth <= self.settled;
                    self.subs.pop();
                    if self.settled > depth - 1 {
                        self.settled = depth - 1;
                    }
                    assert(self@.frames =~= before.drop_last());
                    if was_settled {
                        current = Phase::Scan;
                    } else {
                        current = Phase::Barren;
                    }
                },
                Phase::Barren => {
                    let stops = !ok && matches!(self.mode_at(depth), FailureMode::SkipSteps);
                    if stops {
                        current = Phase::Leave;
                    } else {
                        current = Phase::Scan;
                    }
                },
                Phase::Scan => {
                    let offer = if depth == 0 {
                        self.root.step(ok)
                    } else {
                        self.subs[depth - 1].step(ok)
                    };
                    assert(self@.frames =~= before.drop_last().push(before.last().moved(ok)));
                    match offer {
                        Glance::Hand(instruction) => {
                            self.settled = depth;
                            let ghost handed = before.last().glance(ok)->Hand_0;
                            assert(drive(before, settled, Phase::Scan, ok) == Outcome {
                                frames: before.drop_last().push(before.last().moved(ok)),
                                settled: depth as nat,
                                advance: Advance::Run(handed),
                            });
                            return Advance::Run(instruction);
                        },
                        Glance::Ask(request) => {
                            assert(drive(before, settled, Phase::Scan, ok) == Outcome {
                                frames: before.drop_last().push(before.last().moved(ok)),
                                settled,
                                advance: Advance::Load(request),
                            });
                            return Advance::Load(request);
                        },
                        Glance::Pass => {},
                        Glance::End => {
                            current = Phase::Leave;
                        },
                    }
                },
            }
        }
    }
}

impl TestRunner for JsonRunner {
    /// Takes the feedback of the last instruction and says what to do next.
    fn next(&mut self, feedback: Feedback) -> (advance: Advance)
        ensures
            final(self)@ == old(self)@.fed(feedback.ok()),
            advance.same(after_feedback(old(self)@.frames, old(self)@.settled, feedback.ok()).advance),
            old(self)@.wf() ==> final(self)@.wf(),
    {
        let ok = feedback.is_ok();
        proof {
            if self@.wf() {
                self@.lemma_fed_wf(ok);
            }
        }
        self.success = ok;
        let ghost before = self@.frames;
        if !ok {
            if matches!(self.root.script.info.fail_mode, FailureMode::FastFail) {
                return Advance::Done;
            }
            let mut j: usize = 0;
            while j < self.subs.len() && !matches!(self.subs[j].script.info.fail_mode, FailureMode::FastFail)
                invariant
                    j <= self.subs@.len(),
                    !ok,
                    self@.frames == before,
                    aborting_level(before, 0, ok) == aborting_level(before, j + 1, ok),
                decreases self.subs@.len() - j,
            {
                j += 1;
            }
            if j < self.subs.len() {
                while self.subs.len() > j + 1
                    invariant
                        j + 1 <= self.subs@.len() <= before.len() - 1,
                        self@.frames == before.take(self.subs@.len() as int + 1),
                        self.success == ok,
                        self.settled == old(self).settled,
                    decreases self.subs@.len(),
                {
                    self.subs.pop();
                }
                if self.settled > j + 1 {
                    self.settled = j + 1;
                }
                return self.run(Phase::Leave);
            }
        }
        self.run(Phase::Scan)
    }

    /// Takes the script that the last `Load` asked for, or `None` where it
    /// could not be had, and says what to do next.
    fn supply(&mut self, loaded: Option<LoadedMacro>) -> (advance: Advance)
        ensures
            final(self)@ == old(self)@.supplied(loaded),
            advance.same(after_supply(old(self)@.frames, old(self)@.settled, loaded, old(self)@.success).advance),
            old(self)@.wf() ==> final(self)@.wf(),
    {
        proof {
            if self@.wf() {
                self@.lemma_supplied_wf(loaded);
            }
        }
        match loaded {
            Some(script) => {
                let aborts = !self.success && matches!(script.test.info.fail_mode, FailureMode::FastFail);
                let sub = Frame { script: script.test, step_i: 0, op_i: 0, path: Some(script.path) };
                self.subs.push(sub);
                if aborts {
                    self.run(Phase::Leave)
                } else {
                    self.run(Phase::Scan)
                }
            },
            None => self.run(Phase::Barren),
        }
    }

    /// What the test says about itself, and whether the last feedback was ok.
    fn meta(&self) -> (r: TestMetadata)
        ensures
            r == self@.metadata(),
    {
        let mut metadata = TestMetadata::from(self.root.script.info.duplicate());
        metadata.success = self.success;
        metadata
    }
}

} // verus!
