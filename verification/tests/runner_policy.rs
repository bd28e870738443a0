use cef_test_core::feedback::Feedback;
use cef_test_core::instructions::{
    Comparison, ElementAssert, ElementAssertionType, ElementOp, ElementOpType, ElementSelector, GeneralAssertType,
    GeneralOpType, Instruction, TabOpType, TabSelector, TestAssert, TestOp,
};
use cef_test_core::json_runner::JsonRunner;
use cef_test_core::runner::{Advance, LoadedMacro, MacroRequest, TestRunner};
use cef_test_core::structure::{
    ElementAssertion, ElementDescriptor, ElementInteraction, FailureMode, TabDescriptor, Test, TestElementAssertion,
    TestElementInstruction, TestInfo, TestInstruction, TestStep, TestStepType,
};
use cef_test_core::value::{JsonValue, Member};

fn info(name: &str, fail_mode: FailureMode) -> TestInfo {
    TestInfo {
        name: name.to_string(),
        blame: "someone".to_string(),
        id: format!("id-{}", name),
        output: "out.log".to_string(),
        fail_mode,
    }
}

fn tab() -> TabDescriptor {
    TabDescriptor::Title { title: "Main".to_string() }
}

fn eval(code: &str) -> TestInstruction {
    TestInstruction::Eval { code: code.to_string() }
}

fn step(codes: &[&str]) -> TestStepType {
    TestStepType::Regular(TestStep { tab: tab(), operations: codes.iter().map(|c| eval(c)).collect() })
}

fn script(name: &str, fail_mode: FailureMode, steps: Vec<TestStepType>) -> Test {
    Test { info: info(name, fail_mode), test: steps }
}

fn ran(code: &str) -> Advance {
    Advance::Run(Instruction::Operation(TestOp {
        context: TabSelector::TitleRegex("Main".to_string()),
        op: GeneralOpType::Tab(TabOpType::Evaluate(code.to_string())),
    }))
}

#[test]
fn fast_fail_stops_at_first_failure() {
    let mut runner = JsonRunner::new(script("ff", FailureMode::FastFail, vec![step(&["A", "B"])]));
    assert_eq!(runner.next(Feedback::Start), ran("A"));
    assert_eq!(runner.next(Feedback::Error), Advance::Done);
    assert!(!runner.meta().success);
}

#[test]
fn skip_instructions_goes_to_next_step() {
    let mut runner = JsonRunner::new(script(
        "si",
        FailureMode::SkipInstructions,
        vec![step(&["A", "B"]), step(&["C"])],
    ));
    assert_eq!(runner.next(Feedback::Start), ran("A"));
    assert_eq!(runner.next(Feedback::AssertFailure), ran("C"));
    assert_eq!(runner.next(Feedback::Success), Advance::Done);
}

#[test]
fn skip_steps_judges_by_last_instruction() {
    let steps = || vec![step(&["A", "B"]), step(&["C"])];
    let mut failing_last = JsonRunner::new(script("ss", FailureMode::SkipSteps, steps()));
    assert_eq!(failing_last.next(Feedback::Start), ran("A"));
    assert_eq!(failing_last.next(Feedback::Success), ran("B"));
    assert_eq!(failing_last.next(Feedback::Error), Advance::Done);

    let mut failing_first = JsonRunner::new(script("ss", FailureMode::SkipSteps, steps()));
    assert_eq!(failing_first.next(Feedback::Start), ran("A"));
    assert_eq!(failing_first.next(Feedback::Error), ran("B"));
    assert_eq!(failing_first.next(Feedback::Success), ran("C"));
    assert_eq!(failing_first.next(Feedback::Success), Advance::Done);
}

#[test]
fn macro_yields_its_instructions_in_place() {
    let parent = script(
        "parent",
        FailureMode::FastFail,
        vec![
            step(&["A"]),
            TestStepType::Macro { name: "inner".to_string(), file: "inner.json".to_string() },
            step(&["D"]),
        ],
    );
    let mut runner = JsonRunner::from_loaded(parent, "tests/parent.json".to_string());
    assert_eq!(runner.next(Feedback::Start), ran("A"));
    assert_eq!(
        runner.next(Feedback::Success),
        Advance::Load(MacroRequest {
            name: "inner".to_string(),
            file: "inner.json".to_string(),
            base: Some("tests/parent.json".to_string()),
        })
    );
    let inner = script("inner", FailureMode::FastFail, vec![step(&["B", "C"])]);
    let loaded = LoadedMacro { test: inner, path: "tests/inner.json".to_string() };
    assert_eq!(runner.supply(Some(loaded)), ran("B"));
    assert_eq!(runner.next(Feedback::Success), ran("C"));
    assert_eq!(runner.next(Feedback::Success), ran("D"));
    assert_eq!(runner.next(Feedback::Success), Advance::Done);
    assert!(runner.meta().success);
}

#[test]
fn empty_macro_is_skipped() {
    let parent = script(
        "parent",
        FailureMode::SkipSteps,
        vec![TestStepType::Macro { name: "none".to_string(), file: "none.json".to_string() }, step(&["A"])],
    );
    let mut runner = JsonRunner::new(parent);
    assert!(matches!(runner.next(Feedback::Start), Advance::Load(_)));
    let empty = script("none", FailureMode::FastFail, vec![]);
    assert_eq!(runner.supply(Some(LoadedMacro { test: empty, path: "none.json".to_string() })), ran("A"));
    assert!(runner.meta().success);
}

#[test]
fn element_instruction_is_translated() {
    let click = TestInstruction::Element(TestElementInstruction {
        element: ElementDescriptor::CSS { css: "#go".to_string() },
        operation: ElementInteraction::Click,
    });
    assert_eq!(
        click.into_instruction(TabDescriptor::Url { url: "^https://".to_string() }),
        Instruction::Operation(TestOp {
            context: TabSelector::UrlRegex("^https://".to_string()),
            op: GeneralOpType::Element(ElementOp {
                context: ElementSelector::CSS("#go".to_string()),
                op: ElementOpType::Click,
            }),
        })
    );
}

#[test]
fn sleep_and_eval_are_translated() {
    assert_eq!(
        TestInstruction::Sleep { milliseconds: 1500 }.into_instruction(TabDescriptor::Id { id: "9".to_string() }),
        Instruction::Operation(TestOp {
            context: TabSelector::Id("9".to_string()),
            op: GeneralOpType::Tab(TabOpType::Sleep(1500)),
        })
    );
    assert_eq!(
        eval("1").into_instruction(TabDescriptor::Title { title: "T".to_string() }),
        Instruction::Operation(TestOp {
            context: TabSelector::TitleRegex("T".to_string()),
            op: GeneralOpType::Tab(TabOpType::Evaluate("1".to_string())),
        })
    );
}

#[test]
fn assertions_are_translated_with_their_comparison() {
    let element = || ElementDescriptor::CSS { css: "h1".to_string() };
    let on_text = |assert: ElementAssertion| {
        TestInstruction::Assert(TestElementAssertion { element: element(), attribute: None, assert })
            .into_instruction(tab())
    };
    let expect = |assert: ElementAssertionType| {
        Instruction::Assertion(TestAssert {
            context: TabSelector::TitleRegex("Main".to_string()),
            assertion: GeneralAssertType::Element(ElementAssert { element: ElementSelector::CSS("h1".to_string()), assert }),
        })
    };
    assert_eq!(on_text(ElementAssertion::Exists), expect(ElementAssertionType::Value(Comparison::Exists)));
    assert_eq!(
        on_text(ElementAssertion::ExistsNotEmpty),
        expect(ElementAssertionType::Value(Comparison::ExistsNotEmpty))
    );
    assert_eq!(
        on_text(ElementAssertion::TextEquals("a".to_string())),
        expect(ElementAssertionType::Value(Comparison::TextEquals("a".to_string())))
    );
    assert_eq!(
        on_text(ElementAssertion::TextContains("b".to_string())),
        expect(ElementAssertionType::Value(Comparison::TextContains("b".to_string())))
    );
    assert_eq!(
        on_text(ElementAssertion::Equals(JsonValue::Bool(true))),
        expect(ElementAssertionType::Value(Comparison::Equals(JsonValue::Bool(true))))
    );
    assert_eq!(
        on_text(ElementAssertion::NotEquals(JsonValue::Null)),
        expect(ElementAssertionType::Value(Comparison::NotEquals(JsonValue::Null)))
    );
    let on_attribute = TestInstruction::Assert(TestElementAssertion {
        element: element(),
        attribute: Some("class".to_string()),
        assert: ElementAssertion::TextContains("big".to_string()),
    });
    assert_eq!(
        on_attribute.into_instruction(tab()),
        expect(ElementAssertionType::Attribute {
            attribute: "class".to_string(),
            comparison: Comparison::TextContains("big".to_string()),
        })
    );
    assert_eq!(
        ElementAssertionType::from(ElementAssertion::TextEquals("x".to_string())),
        ElementAssertionType::Value(Comparison::TextEquals("x".to_string()))
    );
    assert_eq!(
        ElementAssert::from(TestElementAssertion {
            element: element(),
            attribute: None,
            assert: ElementAssertion::Exists,
        }),
        ElementAssert { element: ElementSelector::CSS("h1".to_string()), assert: ElementAssertionType::Value(Comparison::Exists) }
    );
}

#[test]
fn runner_hands_out_expected_values_as_the_script_has_them() {
    let expected = JsonValue::Object(vec![
        Member { key: "n".to_string(), value: JsonValue::Array(vec![JsonValue::Number("1".to_string())]) },
        Member { key: "s".to_string(), value: JsonValue::String("x".to_string()) },
    ]);
    let operations = vec![TestInstruction::Assert(TestElementAssertion {
        element: ElementDescriptor::CSS { css: "#v".to_string() },
        attribute: Some("data-v".to_string()),
        assert: ElementAssertion::Equals(expected.clone()),
    })];
    let test = Test {
        info: info("values", FailureMode::FastFail),
        test: vec![TestStepType::Regular(TestStep { tab: tab(), operations })],
    };
    let mut runner = JsonRunner::new(test);
    assert_eq!(
        runner.next(Feedback::Start),
        Advance::Run(Instruction::Assertion(TestAssert {
            context: TabSelector::TitleRegex("Main".to_string()),
            assertion: GeneralAssertType::Element(ElementAssert {
                element: ElementSelector::CSS("#v".to_string()),
                assert: ElementAssertionType::Attribute {
                    attribute: "data-v".to_string(),
                    comparison: Comparison::Equals(expected),
                },
            }),
        }))
    );
    assert_eq!(runner.next(Feedback::Success), Advance::Done);
}

#[test]
fn nested_macros_run_in_place() {
    let outer = script(
        "outer",
        FailureMode::SkipSteps,
        vec![
            TestStepType::Macro { name: "mid".to_string(), file: "mid.json".to_string() },
            step(&["Z"]),
        ],
    );
    let mid = script(
        "mid",
        FailureMode::SkipInstructions,
        vec![
            step(&["M1"]),
            TestStepType::Macro { name: "deep".to_string(), file: "deep.json".to_string() },
            step(&["M2"]),
        ],
    );
    let deep = script("deep", FailureMode::FastFail, vec![step(&["D1", "D2"])]);
    let mut runner = JsonRunner::new(outer);
    assert_eq!(
        runner.next(Feedback::Start),
        Advance::Load(MacroRequest { name: "mid".to_string(), file: "mid.json".to_string(), base: None })
    );
    assert_eq!(runner.supply(Some(LoadedMacro { test: mid, path: "mid.json".to_string() })), ran("M1"));
    assert_eq!(
        runner.next(Feedback::Success),
        Advance::Load(MacroRequest {
            name: "deep".to_string(),
            file: "deep.json".to_string(),
            base: Some("mid.json".to_string()),
        })
    );
    assert_eq!(runner.supply(Some(LoadedMacro { test: deep, path: "deep.json".to_string() })), ran("D1"));
    // the innermost script aborts; the one that holds it goes on
    assert_eq!(runner.next(Feedback::Error), ran("M2"));
    assert_eq!(runner.next(Feedback::Success), ran("Z"));
    assert_eq!(runner.next(Feedback::Success), Advance::Done);
}

#[test]
fn a_macro_that_aborts_at_once_counts_as_a_step_that_gave_nothing() {
    let steps = || {
        vec![
            step(&["A"]),
            TestStepType::Macro { name: "m".to_string(), file: "m.json".to_string() },
            step(&["B"]),
        ]
    };
    let aborting = || LoadedMacro { test: script("m", FailureMode::FastFail, vec![step(&["X"])]), path: "m.json".to_string() };

    // the step before the macro ends with a failure: a script that stops after failing steps never asks for the macro
    let mut stopping = JsonRunner::new(script("p", FailureMode::SkipSteps, steps()));
    assert_eq!(stopping.next(Feedback::Start), ran("A"));
    assert_eq!(stopping.next(Feedback::Error), Advance::Done);

    // a script that skips instructions goes on to the macro, which aborts on the failure: the next step runs
    let mut skipping = JsonRunner::new(script("p", FailureMode::SkipInstructions, steps()));
    assert_eq!(skipping.next(Feedback::Start), ran("A"));
    assert!(matches!(skipping.next(Feedback::Error), Advance::Load(_)));
    assert_eq!(skipping.supply(Some(aborting())), ran("B"));
    assert!(!skipping.meta().success);

    // without a failure the macro runs
    let mut passing = JsonRunner::new(script("p", FailureMode::SkipInstructions, steps()));
    assert_eq!(passing.next(Feedback::Start), ran("A"));
    assert!(matches!(passing.next(Feedback::Success), Advance::Load(_)));
    assert_eq!(passing.supply(Some(aborting())), ran("X"));
    assert_eq!(passing.next(Feedback::Success), ran("B"));
}

#[test]
fn skip_steps_after_a_macro_that_gave_nothing() {
    let steps = vec![
        TestStepType::Macro { name: "m".to_string(), file: "m.json".to_string() },
        step(&["B"]),
    ];
    let mut runner = JsonRunner::new(script("p", FailureMode::SkipSteps, steps));
    assert!(matches!(runner.next(Feedback::Unsupported), Advance::Load(_)));
    assert_eq!(runner.supply(None), Advance::Done);
}

#[test]
fn skip_instructions_gives_up_only_the_step_in_progress() {
    let mut runner = JsonRunner::new(script(
        "si",
        FailureMode::SkipInstructions,
        vec![step(&["A", "B", "C"]), step(&[]), step(&["D", "E"]), step(&["F"])],
    ));
    assert_eq!(runner.next(Feedback::Start), ran("A"));
    assert_eq!(runner.next(Feedback::Success), ran("B"));
    assert_eq!(runner.next(Feedback::Error), ran("D"));
    assert_eq!(runner.next(Feedback::AssertFailure), ran("F"));
    assert_eq!(runner.next(Feedback::Unsupported), Advance::Done);
    assert!(!runner.meta().success);
}

#[test]
fn a_script_without_steps_is_done_at_once() {
    let mut runner = JsonRunner::new(script("none", FailureMode::FastFail, vec![]));
    assert_eq!(runner.next(Feedback::Start), Advance::Done);
    assert!(runner.meta().success);
    let mut hollow = JsonRunner::new(script("hollow", FailureMode::SkipSteps, vec![step(&[]), step(&[])]));
    assert_eq!(hollow.next(Feedback::Start), Advance::Done);
}

#[test]
fn replaying_the_same_feedback_gives_the_same_instructions() {
    let build = || {
        JsonRunner::new(script(
            "replay",
            FailureMode::SkipInstructions,
            vec![step(&["A", "B"]), step(&["C", "D"]), step(&["E"])],
        ))
    };
    let told = || vec![Feedback::Start, Feedback::Error, Feedback::Success, Feedback::AssertFailure, Feedback::Success];
    let run = |feedbacks: Vec<Feedback>| {
        let mut runner = build();
        feedbacks.into_iter().map(|f| runner.next(f)).collect::<Vec<Advance>>()
    };
    let first = run(told());
    assert_eq!(first, run(told()));
    assert_eq!(first, vec![ran("A"), ran("C"), ran("D"), ran("E"), Advance::Done]);
    // only whether a feedback is ok counts
    let other = vec![
        Feedback::Success,
        Feedback::Unsupported,
        Feedback::Value(JsonValue::Null),
        Feedback::Error,
        Feedback::Start,
    ];
    assert_eq!(first, run(other));
}

/// Runs a script whose second step is a macro of the steps `inner`, and the
/// script that holds those steps in place, on the same feedbacks, and gives
/// what each handed out.
fn run_both(mode: FailureMode, told: &[Feedback]) -> (Vec<Advance>, Vec<Advance>) {
    let inner = || vec![step(&["M1", "M2"]), step(&["M3"])];
    let with_macro = script(
        "outer",
        mode,
        vec![step(&["A", "B"]), TestStepType::Macro { name: "m".to_string(), file: "m.json".to_string() }, step(&["Y", "Z"])],
    );
    let mut steps = vec![step(&["A", "B"])];
    steps.extend(inner());
    steps.push(step(&["Y", "Z"]));
    let inlined = script("outer", mode, steps);

    let mut nested = JsonRunner::new(with_macro);
    let mut flat = JsonRunner::new(inlined);
    let mut from_nested = Vec::new();
    let mut from_flat = Vec::new();
    for feedback in told {
        let mut advance = nested.next(feedback.clone());
        if let Advance::Load(_) = advance {
            advance = nested.supply(Some(LoadedMacro { test: script("m", mode, inner()), path: "m.json".to_string() }));
        }
        from_nested.push(advance);
        from_flat.push(flat.next(feedback.clone()));
    }
    (from_nested, from_flat)
}

#[test]
fn a_macro_of_the_same_policy_runs_as_if_inlined() {
    let ok = Feedback::Success;
    let bad = Feedback::Error;
    let all_ok = vec![Feedback::Start, ok.clone(), ok.clone(), ok.clone(), ok.clone(), ok.clone(), ok.clone(), ok.clone()];
    for mode in [FailureMode::FastFail, FailureMode::SkipInstructions, FailureMode::SkipSteps] {
        let (nested, flat) = run_both(mode, &all_ok);
        assert_eq!(nested, flat);
        assert_eq!(
            nested,
            vec![ran("A"), ran("B"), ran("M1"), ran("M2"), ran("M3"), ran("Y"), ran("Z"), Advance::Done]
        );
    }
    let failing = [
        vec![Feedback::Start, bad.clone(), ok.clone(), ok.clone(), ok.clone(), ok.clone()],
        vec![Feedback::Start, ok.clone(), bad.clone(), ok.clone(), bad.clone(), ok.clone(), ok.clone()],
        vec![Feedback::Start, ok.clone(), ok.clone(), bad.clone(), ok.clone(), bad.clone(), ok.clone()],
        vec![Feedback::Start, ok.clone(), ok.clone(), ok.clone(), ok.clone(), bad.clone(), bad.clone(), ok.clone()],
    ];
    for told in failing.iter() {
        for mode in [FailureMode::FastFail, FailureMode::SkipInstructions] {
            let (nested, flat) = run_both(mode, told);
            assert_eq!(nested, flat);
        }
    }
    let (nested, flat) = run_both(FailureMode::SkipInstructions, &failing[2]);
    assert_eq!(nested, vec![ran("A"), ran("B"), ran("M1"), ran("M3"), ran("Y"), Advance::Done, Advance::Done]);
    assert_eq!(flat, nested);
}

#[test]
fn a_macro_that_stops_after_a_failing_step_ends_alone() {
    let ok = Feedback::Success;
    let bad = Feedback::Error;
    // the last instruction of the macro fails: the macro ends, the script that holds it goes on
    let told = vec![Feedback::Start, ok.clone(), ok.clone(), ok.clone(), ok.clone(), bad.clone(), ok.clone(), ok.clone()];
    let (nested, flat) = run_both(FailureMode::SkipSteps, &told);
    assert_eq!(
        nested,
        vec![ran("A"), ran("B"), ran("M1"), ran("M2"), ran("M3"), ran("Y"), ran("Z"), Advance::Done]
    );
    assert_eq!(flat[..6], [ran("A"), ran("B"), ran("M1"), ran("M2"), ran("M3"), Advance::Done]);
}

#[test]
fn a_macro_that_is_used_up_gives_way_in_the_same_call() {
    for mode in [FailureMode::SkipInstructions, FailureMode::SkipSteps] {
        let parent = script(
            "parent",
            mode,
            vec![TestStepType::Macro { name: "m".to_string(), file: "m.json".to_string() }, step(&["c"])],
        );
        let mut runner = JsonRunner::new(parent);
        assert!(matches!(runner.next(Feedback::Start), Advance::Load(_)));
        let inner = script("m", mode, vec![step(&["m1", "m2"])]);
        assert_eq!(runner.supply(Some(LoadedMacro { test: inner, path: "m.json".to_string() })), ran("m1"));
        assert_eq!(runner.next(Feedback::Success), ran("m2"));
        assert_eq!(runner.next(Feedback::Success), ran("c"));
        assert_eq!(runner.next(Feedback::Success), Advance::Done);
        assert!(runner.meta().success);
    }
}
