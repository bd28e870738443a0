//! What a runner hands out, over many moves.
//!
//! While every feedback is ok, a script hands out the instructions of its
//! steps, step by step and in order, and a runner that holds a macro hands
//! out the instructions that it would hand out if the steps of the macro's
//! script stood in the place of the macro step. Where the macro follows the
//! policy of the test's own script, and the policy is not `SkipSteps`, the
//! same holds whatever the feedbacks are.

use vstd::prelude::*;
use crate::instructions::Instruction;
use crate::json_runner::{after_feedback, drive, least, weight, Frame, Glance, Outcome, Phase};
use crate::runner::Advance;

verus! {

/// The instructions that a runner hands out from `frames` while every
/// feedback is ok: at most `limit` of them, and none after it has asked for
/// a script or ended the test.
pub open spec fn smooth_run(frames: Seq<Frame>, settled: nat, limit: nat) -> Seq<Instruction>
    decreases limit,
{
    if limit == 0 {
        Seq::empty()
    } else {
        let out = drive(frames, settled, Phase::Scan, true);
        match out.advance {
            Advance::Run(instruction) => seq![instruction] + smooth_run(out.frames, out.settled, (limit - 1) as nat),
            _ => Seq::empty(),
        }
    }
}

/// The instructions that a script has from its cursor on, in order, up to
/// its end or its next macro step.
pub open spec fn listed(frame: Frame) -> Seq<Instruction>
    decreases frame.remaining(), 1nat,
{
    if frame.step_i >= frame.script.test.len() {
        Seq::empty()
    } else {
        match frame.steps()[frame.step_i as int] {
            crate::structure::TestStepType::Regular(step) => listed_of_step(frame, step.operations.len() as nat)
                + listed(frame.past_step()),
            crate::structure::TestStepType::Macro { .. } => Seq::empty(),
        }
    }
}

/// The instructions that the step at the cursor has from the cursor on, in
/// order, up to the instruction at index `end`.
pub open spec fn listed_of_step(frame: Frame, end: nat) -> Seq<Instruction>
    recommends
        frame.step_i < frame.script.test.len(),
        frame.steps()[frame.step_i as int] is Regular,
    decreases end,
{
    let step = frame.steps()[frame.step_i as int]->Regular_0;
    if end <= frame.op_i || end > step.operations.len() {
        Seq::empty()
    } else {
        listed_of_step(frame, (end - 1) as nat).push(step.operations[end - 1].instruction(step.tab))
    }
}

/// The instructions left in the step at the cursor are the next one
/// followed by those behind it.
proof fn lemma_listed_of_step_unfolds(frame: Frame, end: nat)
    requires
        frame.step_i < frame.script.test.len(),
        frame.steps()[frame.step_i as int] is Regular,
        frame.op_i < end <= frame.steps()[frame.step_i as int]->Regular_0.operations.len(),
    ensures
        ({
            let step = frame.steps()[frame.step_i as int]->Regular_0;
            listed_of_step(frame, end) == seq![step.operations[frame.op_i as int].instruction(step.tab)]
                + listed_of_step(frame.past_instruction(), end)
        }),
    decreases end,
{
    let step = frame.steps()[frame.step_i as int]->Regular_0;
    let first = step.operations[frame.op_i as int].instruction(step.tab);
    let next = frame.past_instruction();
    if end == frame.op_i + 1 {
        assert(listed_of_step(frame, (end - 1) as nat) =~= Seq::empty());
    } else {
        lemma_listed_of_step_unfolds(frame, (end - 1) as nat);
        let last = step.operations[end - 1].instruction(step.tab);
        assert((seq![first] + listed_of_step(next, (end - 1) as nat)).push(last) =~= seq![first] + listed_of_step(
            next,
            (end - 1) as nat,
        ).push(last));
    }
}

/// A script hands out the instructions of its steps, step by step and in
/// order.
///
/// While every feedback is ok, a runner that holds one script hands out the
/// instructions that the script has from its cursor on, up to its end or
/// its next macro step: the first `limit` of them, or all if there are
/// fewer.
pub proof fn lemma_script_runs_in_order(frame: Frame, settled: nat, limit: nat)
    ensures
        smooth_run(seq![frame], settled, limit) == if limit <= listed(frame).len() {
            listed(frame).take(limit as int)
        } else {
            listed(frame)
        },
    decreases limit, frame.remaining(),
{
    let frames = seq![frame];
    assert(frames.drop_last() =~= Seq::<Frame>::empty());
    if limit > 0 {
        match frame.glance(true) {
            Glance::Hand(_) => {
                let step = frame.steps()[frame.step_i as int]->Regular_0;
                lemma_listed_of_step_unfolds(frame, step.operations.len() as nat);
                lemma_script_runs_in_order(frame.past_instruction(), 0, (limit - 1) as nat);
            },
            Glance::Ask(_) => {},
            Glance::Pass => {
                lemma_script_runs_in_order(frame.past_step(), settled, limit);
                reveal_with_fuel(smooth_run, 2);
            },
            Glance::End => {
                reveal_with_fuel(drive, 3);
            },
        }
    }
}

/// Whether two scripts are the same and stand at the same place, or have
/// the same steps left and stand at the same instruction of the first of
/// them.
pub open spec fn same_rest(a: Frame, b: Frame) -> bool {
    ||| a == b
    ||| {
        &&& a.step_i <= a.script.test.len()
        &&& b.step_i <= b.script.test.len()
        &&& a.op_i == b.op_i
        &&& a.steps().skip(a.step_i as int) == b.steps().skip(b.step_i as int)
    }
}

/// Whether two runners hold the same scripts below scripts that have the
/// same steps left.
pub open spec fn akin(a: Seq<Frame>, b: Seq<Frame>) -> bool {
    &&& a.len() == b.len()
    &&& a.len() > 0 ==> a.drop_last() == b.drop_last() && same_rest(a.last(), b.last())
}

/// Whether `merged` is the script that holds the steps of `sub` in the place
/// of the macro step that `holder` has just passed, and stands where `sub`
/// stands.
pub open spec fn inlines(holder: Frame, sub: Frame, merged: Frame) -> bool {
    &&& holder.op_i == 0
    &&& holder.step_i <= holder.script.test.len()
    &&& sub.step_i <= sub.script.test.len()
    &&& sub.step_i == sub.script.test.len() ==> sub.op_i == 0
    &&& merged.step_i == sub.step_i
    &&& merged.op_i == sub.op_i
    &&& merged.steps() == sub.steps() + holder.steps().skip(holder.step_i as int)
}

/// Whether runner `a` holds a macro on top of the script that asked for it,
/// and runner `b` the script with the macro's steps in place, all else being
/// the same.
pub open spec fn nested(a: Seq<Frame>, b: Seq<Frame>) -> bool {
    &&& a.len() >= 2
    &&& b.len() == a.len() - 1
    &&& a.drop_last().drop_last() == b.drop_last()
    &&& inlines(a[a.len() - 2], a.last(), b.last())
}

/// Whether two moves hand out the same instruction and lead to runners that
/// are akin, or both hand out none.
pub open spec fn agree(a: Outcome, b: Outcome) -> bool {
    match (a.advance, b.advance) {
        (Advance::Run(i), Advance::Run(j)) => i == j && akin(a.frames, b.frames),
        (Advance::Run(_), _) => false,
        (_, Advance::Run(_)) => false,
        _ => true,
    }
}

/// Whether two moves hand out the same instruction and lead to runners of
/// which one holds the macro and the other its steps in place, or which are
/// akin; or both hand out none.
pub open spec fn agree_nested(a: Outcome, b: Outcome) -> bool {
    match (a.advance, b.advance) {
        (Advance::Run(i), Advance::Run(j)) => i == j && (nested(a.frames, b.frames) || akin(a.frames, b.frames)),
        (Advance::Run(_), _) => false,
        (_, Advance::Run(_)) => false,
        _ => true,
    }
}

/// Scripts with the same steps left offer the same at their cursors, and
/// have the same steps left afterwards.
proof fn lemma_same_rest_glance(a: Frame, b: Frame)
    requires
        same_rest(a, b),
    ensures
        a.remaining() == b.remaining(),
        match (a.glance(true), b.glance(true)) {
            (Glance::Hand(i), Glance::Hand(j)) => i == j,
            (Glance::Ask(_), Glance::Ask(_)) => true,
            (Glance::Pass, Glance::Pass) => true,
            (Glance::End, Glance::End) => true,
            _ => false,
        },
        same_rest(a.moved(true), b.moved(true)),
{
    let ra = a.steps().skip(a.step_i as int);
    let rb = b.steps().skip(b.step_i as int);
    if a == b {
    } else if a.step_i < a.script.test.len() {
        assert(ra[0] == a.steps()[a.step_i as int]);
        assert(a.steps().skip(a.step_i + 1) =~= ra.skip(1));
        assert(b.steps().skip(b.step_i + 1) =~= rb.skip(1));
    }
}

/// While the feedback is ok, runners that are akin move alike.
proof fn lemma_akin_moves(a: Seq<Frame>, b: Seq<Frame>, sa: nat, sb: nat, pa: Phase, pb: Phase)
    requires
        akin(a, b),
        (pa is Leave) == (pb is Leave),
    ensures
        agree(drive(a, sa, pa, true), drive(b, sb, pb, true)),
    decreases a.len(), weight(a, pa) + weight(b, pb),
{
    if a.len() == 0 {
    } else {
        let ta = a.last();
        let tb = b.last();
        let rest = a.drop_last();
        lemma_same_rest_glance(ta, tb);
        if pa is Barren {
            lemma_akin_moves(a, b, sa, sb, Phase::Scan, pb);
        } else if pb is Barren {
            lemma_akin_moves(a, b, sa, sb, pa, Phase::Scan);
        } else if pa is Leave {
            if a.len() > 1 {
                let na = least(sa, (rest.len() - 1) as nat);
                let nb = least(sb, (rest.len() - 1) as nat);
                let qa = if a.len() - 1 <= sa {
                    Phase::Scan
                } else {
                    Phase::Barren
                };
                let qb = if b.len() - 1 <= sb {
                    Phase::Scan
                } else {
                    Phase::Barren
                };
                lemma_akin_moves(rest, rest, na, nb, qa, qb);
            }
        } else {
            match ta.glance(true) {
                Glance::Hand(_) => {
                    let ma = rest.push(ta.moved(true));
                    let mb = rest.push(tb.moved(true));
                    assert(ma.drop_last() =~= rest);
                    assert(mb.drop_last() =~= rest);
                },
                Glance::Ask(_) => {},
                Glance::Pass => {
                    let ma = rest.push(ta.moved(true));
                    let mb = rest.push(tb.moved(true));
                    assert(ma.drop_last() =~= rest);
                    assert(mb.drop_last() =~= rest);
                    lemma_akin_moves(ma, mb, sa, sb, Phase::Scan, Phase::Scan);
                },
                Glance::End => {
                    lemma_akin_moves(a, b, sa, sb, Phase::Leave, Phase::Leave);
                },
            }
        }
    }
}

/// While every feedback is ok, runners that are akin hand out the same
/// instructions.
proof fn lemma_akin_runs(a: Seq<Frame>, b: Seq<Frame>, sa: nat, sb: nat, limit: nat)
    requires
        akin(a, b),
    ensures
        smooth_run(a, sa, limit) == smooth_run(b, sb, limit),
    decreases limit,
{
    if limit > 0 {
        lemma_akin_moves(a, b, sa, sb, Phase::Scan, Phase::Scan);
        let oa = drive(a, sa, Phase::Scan, true);
        let ob = drive(b, sb, Phase::Scan, true);
        if oa.advance is Run {
            lemma_akin_runs(oa.frames, ob.frames, oa.settled, ob.settled, (limit - 1) as nat);
        }
    }
}

/// While the feedback is ok, a runner that holds a macro moves like the
/// runner that holds the macro's steps in place.
proof fn lemma_nested_moves(a: Seq<Frame>, b: Seq<Frame>, sa: nat, sb: nat)
    requires
        nested(a, b),
    ensures
        agree_nested(drive(a, sa, Phase::Scan, true), drive(b, sb, Phase::Scan, true)),
    decreases a.last().remaining(),
{
    let sub = a.last();
    let holder = a[a.len() - 2];
    let merged = b.last();
    let below_a = a.drop_last();
    let below_b = b.drop_last();
    let tail = holder.steps().skip(holder.step_i as int);
    if sub.step_i < sub.script.test.len() {
        match sub.glance(true) {
            Glance::Hand(_) => {
                let ma = below_a.push(sub.moved(true));
                let mb = below_b.push(merged.moved(true));
                assert(ma.drop_last() =~= below_a);
                assert(mb.drop_last() =~= below_b);
            },
            Glance::Ask(_) => {},
            Glance::Pass => {
                let ma = below_a.push(sub.moved(true));
                let mb = below_b.push(merged.moved(true));
                assert(ma.drop_last() =~= below_a);
                assert(mb.drop_last() =~= below_b);
                lemma_nested_moves(ma, mb, sa, sb);
            },
            Glance::End => {},
        }
    } else {
        assert(merged.steps().skip(merged.step_i as int) =~= tail);
        let na = least(sa, (below_a.len() - 1) as nat);
        let qa = if a.len() - 1 <= sa {
            Phase::Scan
        } else {
            Phase::Barren
        };
        lemma_akin_moves(below_a, b, na, sb, qa, Phase::Scan);
        reveal_with_fuel(drive, 3);
    }
}

/// A macro runs like the steps that it stands for.
///
/// Let a runner hold the script of a macro on top of the script whose macro
/// step asked for it, and let another runner hold, in place of the two, one
/// script that has the macro's steps followed by the steps behind the macro
/// step, and that stands where the macro stands. While every feedback is
/// ok, the two hand out the same instructions, in the same order, up to
/// where one of them asks for another script or the test ends.
pub proof fn lemma_macro_runs_as_inlined(
    below: Seq<Frame>,
    holder: Frame,
    sub: Frame,
    merged: Frame,
    settled: nat,
    limit: nat,
)
    requires
        inlines(holder, sub, merged),
    ensures
        smooth_run(below.push(holder).push(sub), settled, limit) == smooth_run(below.push(merged), settled, limit),
{
    let a = below.push(holder).push(sub);
    let b = below.push(merged);
    assert(a.drop_last().drop_last() =~= below);
    assert(b.drop_last() =~= below);
    lemma_nested_runs(a, b, settled, settled, limit);
}

/// While every feedback is ok, a runner that holds a macro hands out the
/// same instructions as the runner that holds the macro's steps in place.
proof fn lemma_nested_runs(a: Seq<Frame>, b: Seq<Frame>, sa: nat, sb: nat, limit: nat)
    requires
        nested(a, b),
    ensures
        smooth_run(a, sa, limit) == smooth_run(b, sb, limit),
    decreases limit,
{
    if limit > 0 {
        lemma_nested_moves(a, b, sa, sb);
        let oa = drive(a, sa, Phase::Scan, true);
        let ob = drive(b, sb, Phase::Scan, true);
        if oa.advance is Run {
            if nested(oa.frames, ob.frames) {
                lemma_nested_runs(oa.frames, ob.frames, oa.settled, ob.settled, (limit - 1) as nat);
            } else {
                lemma_akin_runs(oa.frames, ob.frames, oa.settled, ob.settled, (limit - 1) as nat);
            }
        }
    }
}

/// The instructions that a runner hands out from `frames` when it is told,
/// one after the other, feedbacks that are ok or not as `told` says: none
/// after it has asked for a script or ended the test.
pub open spec fn run_on(frames: Seq<Frame>, settled: nat, told: Seq<bool>) -> Seq<Instruction>
    decreases told.len(),
{
    if told.len() == 0 {
        Seq::empty()
    } else {
        let out = after_feedback(frames, settled, told[0]);
        match out.advance {
            Advance::Run(instruction) => seq![instruction] + run_on(out.frames, out.settled, told.drop_first()),
            _ => Seq::empty(),
        }
    }
}

/// Whether two scripts have the same steps left, stand at the same
/// instruction of the first of them, and follow the same policy.
pub open spec fn same_course(a: Frame, b: Frame) -> bool {
    same_rest(a, b) && a.mode() == b.mode()
}

/// Whether `merged` holds the steps of `sub` in the place of the macro step
/// that `holder` has just passed, as `inlines` says, and the three follow
/// one policy, which is not `SkipSteps`.
pub open spec fn hosts(holder: Frame, sub: Frame, merged: Frame) -> bool {
    &&& inlines(holder, sub, merged)
    &&& holder.mode() == sub.mode()
    &&& merged.mode() == sub.mode()
    &&& !(sub.mode() is SkipSteps)
}

/// Whether two moves of runners that hold one script each hand out the same
/// instruction and leave scripts on the same course, or both hand out none.
pub open spec fn agree_single(a: Outcome, b: Outcome) -> bool {
    match (a.advance, b.advance) {
        (Advance::Run(i), Advance::Run(j)) => {
            &&& i == j
            &&& a.frames.len() == 1
            &&& b.frames.len() == 1
            &&& same_course(a.frames[0], b.frames[0])
        },
        (Advance::Run(_), _) => false,
        (_, Advance::Run(_)) => false,
        _ => true,
    }
}

/// Whether a move of a runner that holds a macro on the test's own script
/// and a move of a runner that holds the script with the macro's steps in
/// place hand out the same instruction and leave the runners as they were
/// related, or with one script each on the same course; or both hand out
/// none.
pub open spec fn agree_hosted(a: Outcome, b: Outcome) -> bool {
    match (a.advance, b.advance) {
        (Advance::Run(i), Advance::Run(j)) => {
            &&& i == j
            &&& b.frames.len() == 1
            &&& {
                ||| a.frames.len() == 2 && hosts(a.frames[0], a.frames[1], b.frames[0])
                ||| a.frames.len() == 1 && same_course(a.frames[0], b.frames[0]) && !(a.frames[0].mode()
                    is SkipSteps)
            }
        },
        (Advance::Run(_), _) => false,
        (_, Advance::Run(_)) => false,
        _ => true,
    }
}

/// Scripts with the same steps left and the same policy offer the same at
/// their cursors, whatever the feedback, and have the same steps left
/// afterwards.
proof fn lemma_same_rest_glance_any(a: Frame, b: Frame, ok: bool)
    requires
        same_rest(a, b),
        a.mode() == b.mode(),
    ensures
        a.remaining() == b.remaining(),
        match (a.glance(ok), b.glance(ok)) {
            (Glance::Hand(i), Glance::Hand(j)) => i == j,
            (Glance::Ask(_), Glance::Ask(_)) => true,
            (Glance::Pass, Glance::Pass) => true,
            (Glance::End, Glance::End) => true,
            _ => false,
        },
        same_rest(a.moved(ok), b.moved(ok)),
{
    let ra = a.steps().skip(a.step_i as int);
    let rb = b.steps().skip(b.step_i as int);
    if a == b {
    } else {
        assert(ra.len() == a.steps().len() - a.step_i);
        assert(rb.len() == b.steps().len() - b.step_i);
        if a.step_i < a.script.test.len() {
            assert(ra[0] == a.steps()[a.step_i as int]);
            assert(rb[0] == b.steps()[b.step_i as int]);
            assert(a.steps().skip(a.step_i + 1) =~= ra.skip(1));
            assert(b.steps().skip(b.step_i + 1) =~= rb.skip(1));
        }
    }
}

/// Scripts on the same course offer the same at their cursors, whatever the
/// feedback, and are on the same course afterwards.
proof fn lemma_same_course_glance(a: Frame, b: Frame, ok: bool)
    requires
        same_course(a, b),
    ensures
        a.remaining() == b.remaining(),
        match (a.glance(ok), b.glance(ok)) {
            (Glance::Hand(i), Glance::Hand(j)) => i == j,
            (Glance::Ask(_), Glance::Ask(_)) => true,
            (Glance::Pass, Glance::Pass) => true,
            (Glance::End, Glance::End) => true,
            _ => false,
        },
        same_course(a.moved(ok), b.moved(ok)),
{
    lemma_same_rest_glance_any(a, b, ok);
}

/// Runners that hold one script each, on the same course, move alike.
proof fn lemma_single_moves(a: Frame, b: Frame, sa: nat, sb: nat, pa: Phase, pb: Phase, ok: bool)
    requires
        same_course(a, b),
        (pa is Leave) == (pb is Leave),
        pa == pb || !a.stops(ok),
    ensures
        agree_single(drive(seq![a], sa, pa, ok), drive(seq![b], sb, pb, ok)),
        drive(seq![a], sa, pa, ok).advance is Run ==> drive(seq![a], sa, pa, ok).frames[0].mode() == a.mode(),
    decreases weight(seq![a], pa) + weight(seq![b], pb),
{
    let fa = seq![a];
    let fb = seq![b];
    assert(fa.drop_last() =~= Seq::<Frame>::empty());
    assert(fb.drop_last() =~= Seq::<Frame>::empty());
    lemma_same_course_glance(a, b, ok);
    if pa is Leave {
    } else if pa is Barren {
        if a.stops(ok) {
            lemma_single_moves(a, b, sa, sb, Phase::Leave, Phase::Leave, ok);
        } else {
            lemma_single_moves(a, b, sa, sb, Phase::Scan, pb, ok);
        }
    } else if pb is Barren {
        lemma_single_moves(a, b, sa, sb, pa, Phase::Scan, ok);
    } else {
        match a.glance(ok) {
            Glance::Hand(_) => {
                assert(Seq::<Frame>::empty().push(a.moved(ok)) =~= seq![a.moved(ok)]);
                assert(Seq::<Frame>::empty().push(b.moved(ok)) =~= seq![b.moved(ok)]);
            },
            Glance::Ask(_) => {},
            Glance::Pass => {
                assert(Seq::<Frame>::empty().push(a.moved(ok)) =~= seq![a.moved(ok)]);
                assert(Seq::<Frame>::empty().push(b.moved(ok)) =~= seq![b.moved(ok)]);
                lemma_single_moves(a.moved(ok), b.moved(ok), sa, sb, Phase::Scan, Phase::Scan, ok);
            },
            Glance::End => {
                lemma_single_moves(a, b, sa, sb, Phase::Leave, Phase::Leave, ok);
            },
        }
    }
}

/// A runner that holds a macro on the test's own script moves like the
/// runner that holds the script with the macro's steps in place.
proof fn lemma_hosted_moves(holder: Frame, sub: Frame, merged: Frame, sa: nat, sb: nat, ok: bool)
    requires
        hosts(holder, sub, merged),
    ensures
        agree_hosted(drive(seq![holder, sub], sa, Phase::Scan, ok), drive(seq![merged], sb, Phase::Scan, ok)),
    decreases sub.remaining(),
{
    let a = seq![holder, sub];
    let b = seq![merged];
    assert(a.drop_last() =~= seq![holder]);
    assert(b.drop_last() =~= Seq::<Frame>::empty());
    let tail = holder.steps().skip(holder.step_i as int);
    if sub.step_i < sub.script.test.len() {
        assert(merged.steps()[sub.step_i as int] == sub.steps()[sub.step_i as int]);
        assert(seq![holder].push(sub.moved(ok)) =~= seq![holder, sub.moved(ok)]);
        assert(Seq::<Frame>::empty().push(merged.moved(ok)) =~= seq![merged.moved(ok)]);
        match sub.glance(ok) {
            Glance::Pass => {
                lemma_hosted_moves(holder, sub.moved(ok), merged.moved(ok), sa, sb, ok);
            },
            _ => {},
        }
    } else {
        assert(merged.steps().skip(merged.step_i as int) =~= tail);
        let na = least(sa, 0);
        let qa = if a.len() - 1 <= sa {
            Phase::Scan
        } else {
            Phase::Barren
        };
        lemma_single_moves(holder, merged, na, sb, qa, Phase::Scan, ok);
        reveal_with_fuel(drive, 3);
    }
}

/// Runners that hold one script each, on the same course, hand out the same
/// instructions, whatever the feedbacks are.
proof fn lemma_single_runs(a: Frame, b: Frame, sa: nat, sb: nat, told: Seq<bool>)
    requires
        same_course(a, b),
    ensures
        run_on(seq![a], sa, told) == run_on(seq![b], sb, told),
    decreases told.len(),
{
    if told.len() > 0 {
        let ok = told[0];
        reveal_with_fuel(crate::json_runner::aborting_level, 3);
        lemma_single_moves(a, b, sa, sb, Phase::Scan, Phase::Scan, ok);
        let oa = after_feedback(seq![a], sa, ok);
        let ob = after_feedback(seq![b], sb, ok);
        if oa.advance is Run {
            assert(oa.frames =~= seq![oa.frames[0]]);
            assert(ob.frames =~= seq![ob.frames[0]]);
            lemma_single_runs(oa.frames[0], ob.frames[0], oa.settled, ob.settled, told.drop_first());
        }
    }
}

/// A macro that follows the policy of the test's own script runs like the
/// steps that it stands for, whatever the feedbacks are, unless the policy is
/// `SkipSteps`.
///
/// Let a runner hold the script of a macro on top of the test's own script,
/// whose macro step asked for it, and let another runner hold one script that
/// has the macro's steps followed by the steps behind the macro step, and
/// that stands where the macro stands. Let the three scripts follow one
/// policy, `FastFail` or `SkipInstructions`. Told the same feedbacks, the two
/// runners hand out the same instructions, in the same order, up to where
/// one of them asks for another script or the test ends.
pub proof fn lemma_macro_of_same_policy_runs_as_inlined(
    holder: Frame,
    sub: Frame,
    merged: Frame,
    settled: nat,
    told: Seq<bool>,
)
    requires
        hosts(holder, sub, merged),
    ensures
        run_on(seq![holder, sub], settled, told) == run_on(seq![merged], settled, told),
{
    lemma_hosted_runs(holder, sub, merged, settled, settled, told);
}

/// A runner that holds a macro on the test's own script hands out the same
/// instructions as the runner that holds the script with the macro's steps
/// in place, whatever the feedbacks are.
proof fn lemma_hosted_runs(holder: Frame, sub: Frame, merged: Frame, sa: nat, sb: nat, told: Seq<bool>)
    requires
        hosts(holder, sub, merged),
    ensures
        run_on(seq![holder, sub], sa, told) == run_on(seq![merged], sb, told),
    decreases told.len(),
{
    if told.len() > 0 {
        let ok = told[0];
        reveal_with_fuel(crate::json_runner::aborting_level, 4);
        lemma_hosted_moves(holder, sub, merged, sa, sb, ok);
        let oa = after_feedback(seq![holder, sub], sa, ok);
        let ob = after_feedback(seq![merged], sb, ok);
        if oa.advance is Run {
            assert(ob.frames =~= seq![ob.frames[0]]);
            if oa.frames.len() == 2 {
                assert(oa.frames =~= seq![oa.frames[0], oa.frames[1]]);
                lemma_hosted_runs(
                    oa.frames[0],
                    oa.frames[1],
                    ob.frames[0],
                    oa.settled,
                    ob.settled,
                    told.drop_first(),
                );
            } else {
                assert(oa.frames =~= seq![oa.frames[0]]);
                lemma_single_runs(oa.frames[0], ob.frames[0], oa.settled, ob.settled, told.drop_first());
            }
        }
    }
}

} // verus!
