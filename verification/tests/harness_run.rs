use cef_test_core::adapter::{AdapterCall, Errand, TestAdapter};
use cef_test_core::feedback::Feedback;
use cef_test_core::harness::{Progress, TestHarness};
use cef_test_core::instructions::{
    Comparison, ElementAssert, ElementAssertionType, ElementOp, ElementOpType, ElementSelector, GeneralAssertType,
    GeneralOpType, Instruction, TabAssert, TabOpType, TabSelector, TestAssert, TestOp,
};
use cef_test_core::json_runner::JsonRunner;
use cef_test_core::runner::{Advance, LoadedMacro, MacroRequest, TestMetadata, TestRunner};
use cef_test_core::scripted::ScriptedAdapter;
use cef_test_core::structure::{
    ElementAssertion, ElementDescriptor, ElementInteraction, FailureMode, TabDescriptor, Test, TestElementAssertion,
    TestElementInstruction, TestInfo, TestInstruction, TestStep, TestStepType,
};
use cef_test_core::value::JsonValue;

/// An adapter that answers from a list and notes what it was asked.
struct Scripted {
    answers: Vec<Feedback>,
    calls: Vec<String>,
}

impl Scripted {
    fn new(mut answers: Vec<Feedback>) -> Self {
        answers.reverse();
        Scripted { answers, calls: Vec::new() }
    }

    fn answer(&mut self, call: String) -> Feedback {
        self.calls.push(call);
        self.answers.pop().unwrap_or(Feedback::Success)
    }
}

impl TestAdapter for Scripted {
    fn element_click(&mut self, tab: &TabSelector, element: &ElementSelector) -> Feedback {
        self.answer(format!("click {} {}", tab.to_text(), element.to_text()))
    }

    fn element_wait(&mut self, tab: &TabSelector, element: &ElementSelector) -> Feedback {
        self.answer(format!("wait_for {} {}", tab.to_text(), element.to_text()))
    }

    fn element_focus(&mut self, tab: &TabSelector, element: &ElementSelector) -> Feedback {
        self.answer(format!("focus {} {}", tab.to_text(), element.to_text()))
    }

    fn element_scroll_to(&mut self, tab: &TabSelector, element: &ElementSelector) -> Feedback {
        self.answer(format!("scroll {} {}", tab.to_text(), element.to_text()))
    }

    fn element_value(&mut self, tab: &TabSelector, element: &ElementSelector) -> Feedback {
        self.answer(format!("value {} {}", tab.to_text(), element.to_text()))
    }

    fn element_attribute(&mut self, tab: &TabSelector, element: &ElementSelector, attribute: &str) -> Feedback {
        self.answer(format!("attribute {} {} {}", tab.to_text(), element.to_text(), attribute))
    }

    fn wait(&mut self, tab: &TabSelector, milliseconds: u64) -> Feedback {
        self.answer(format!("sleep {} {}", tab.to_text(), milliseconds))
    }

    fn evaluate(&mut self, tab: &TabSelector, script: &str) -> Feedback {
        self.answer(format!("eval {} {}", tab.to_text(), script))
    }
}

fn info(name: &str, fail_mode: FailureMode) -> TestInfo {
    TestInfo {
        name: name.to_string(),
        blame: "qa".to_string(),
        id: format!("T-{}", name),
        output: format!("{}.log", name),
        fail_mode,
    }
}

fn css(selector: &str) -> ElementDescriptor {
    ElementDescriptor::CSS { css: selector.to_string() }
}

fn click(selector: &str) -> TestInstruction {
    TestInstruction::Element(TestElementInstruction { element: css(selector), operation: ElementInteraction::Click })
}

fn check(selector: &str, assert: ElementAssertion) -> TestInstruction {
    TestInstruction::Assert(TestElementAssertion { element: css(selector), attribute: None, assert })
}

fn one_step(name: &str, fail_mode: FailureMode, operations: Vec<TestInstruction>) -> Test {
    Test {
        info: info(name, fail_mode),
        test: vec![TestStepType::Regular(TestStep { tab: TabDescriptor::Id { id: "7".to_string() }, operations })],
    }
}

/// Steps to the end, and tells what each step came to: `ran`, `load`,
/// `finished`, or the name of the test that ended and how it ended.
fn run_all(harness: &mut TestHarness<JsonRunner, Scripted>) -> Vec<String> {
    let mut seen = Vec::new();
    loop {
        match harness.step(None) {
            Progress::Ran => seen.push("ran".to_string()),
            Progress::Load(_) => seen.push("load".to_string()),
            Progress::Concluded(outcome) => {
                seen.push(format!("{} {}", outcome.name, if outcome.success { "passed" } else { "failed" }))
            },
            Progress::Finished => {
                seen.push("finished".to_string());
                return seen;
            },
        }
    }
}

fn text(s: &str) -> Feedback {
    Feedback::Value(JsonValue::String(s.to_string()))
}

#[test]
fn feedback_classes() {
    let ok = [Feedback::Start, Feedback::Success, Feedback::Value(JsonValue::Null)];
    let failing = [Feedback::AssertFailure, Feedback::Error, Feedback::Unsupported];
    for f in ok.iter() {
        assert!(f.is_ok());
        assert!(!f.is_fail());
        assert!(!f.is_err());
    }
    for f in failing.iter() {
        assert!(!f.is_ok());
        assert!(f.is_fail());
    }
    assert!(Feedback::Error.is_err());
    assert!(!Feedback::AssertFailure.is_err());
    assert!(!Feedback::Unsupported.is_err());
}

#[test]
fn assertion_overrides_value_when_comparison_fails() {
    type H = TestHarness<JsonRunner, Scripted>;
    assert_eq!(H::maybe_assert(text(" ok "), Comparison::TextEquals("ok".to_string())), text(" ok "));
    assert_eq!(H::maybe_assert(text("no"), Comparison::TextEquals("ok".to_string())), Feedback::AssertFailure);
    assert_eq!(H::maybe_assert(Feedback::Value(JsonValue::Null), Comparison::Exists), Feedback::Value(JsonValue::Null));
    assert_eq!(H::maybe_assert(Feedback::Value(JsonValue::Null), Comparison::ExistsNotEmpty), Feedback::AssertFailure);
    assert_eq!(
        H::maybe_assert(Feedback::Value(JsonValue::Bool(true)), Comparison::NotEquals(JsonValue::Bool(true))),
        Feedback::AssertFailure
    );
}

#[test]
fn assertion_passes_other_feedback_through() {
    type H = TestHarness<JsonRunner, Scripted>;
    assert_eq!(H::maybe_assert(Feedback::Error, Comparison::Exists), Feedback::Error);
    assert_eq!(H::maybe_assert(Feedback::Error, Comparison::ExistsNotEmpty), Feedback::Error);
    assert_eq!(H::maybe_assert(Feedback::Error, Comparison::TextEquals("a".to_string())), Feedback::Error);
    assert_eq!(H::maybe_assert(Feedback::Error, Comparison::Equals(JsonValue::Null)), Feedback::Error);
    assert_eq!(H::maybe_assert(Feedback::Unsupported, Comparison::Exists), Feedback::Unsupported);
    assert_eq!(H::maybe_assert(Feedback::Unsupported, Comparison::TextContains("a".to_string())), Feedback::Unsupported);
    assert_eq!(H::maybe_assert(Feedback::AssertFailure, Comparison::Exists), Feedback::AssertFailure);
    assert_eq!(H::maybe_assert(Feedback::Success, Comparison::NotEquals(JsonValue::Bool(true))), Feedback::Success);
    assert_eq!(H::maybe_assert(Feedback::Success, Comparison::TextEquals("a".to_string())), Feedback::Success);
    assert_eq!(H::maybe_assert(Feedback::Start, Comparison::Exists), Feedback::Start);
}

#[test]
fn an_error_of_the_adapter_stays_an_error_in_an_assertion() {
    let tests = vec![JsonRunner::new(one_step(
        "broken",
        FailureMode::SkipInstructions,
        vec![check("#a", ElementAssertion::Exists), check("#b", ElementAssertion::TextEquals("b".to_string()))],
    ))];
    let mut harness = TestHarness::new(ScriptedAdapter::new(vec![Feedback::Error, Feedback::Unsupported]), tests);
    assert_eq!(harness.step(None), Progress::Ran);
    // the step is given up after the error: the second check is never made
    assert!(matches!(harness.step(None), Progress::Concluded(outcome) if !outcome.success));
    match harness.finish() {
        Ok(_) => panic!("the test failed"),
        Err(failures) => assert_eq!(failures.len(), 1),
    }
}

#[test]
fn instructions_map_to_one_call_each() {
    let tab = || TabSelector::Title("T".to_string());
    let element = || ElementSelector::CSS("#e".to_string());
    let op = |op: ElementOpType| {
        Instruction::Operation(TestOp { context: tab(), op: GeneralOpType::Element(ElementOp { context: element(), op }) })
    };
    assert_eq!(
        op(ElementOpType::Click).into_errand(),
        Errand { call: AdapterCall::ElementClick { tab: tab(), element: element() }, check: None }
    );
    assert_eq!(
        op(ElementOpType::WaitFor).into_errand(),
        Errand { call: AdapterCall::ElementWait { tab: tab(), element: element() }, check: None }
    );
    assert_eq!(
        op(ElementOpType::Focus).into_errand(),
        Errand { call: AdapterCall::ElementFocus { tab: tab(), element: element() }, check: None }
    );
    assert_eq!(
        op(ElementOpType::ScrollTo).into_errand(),
        Errand { call: AdapterCall::ElementScrollTo { tab: tab(), element: element() }, check: None }
    );
    let sleep = Instruction::Operation(TestOp { context: tab(), op: GeneralOpType::Tab(TabOpType::Sleep(250)) });
    assert_eq!(sleep.into_errand(), Errand { call: AdapterCall::Wait { tab: tab(), milliseconds: 250 }, check: None });
    let eval = Instruction::Operation(TestOp {
        context: tab(),
        op: GeneralOpType::Tab(TabOpType::Evaluate("1+1".to_string())),
    });
    assert_eq!(
        eval.into_errand(),
        Errand { call: AdapterCall::Evaluate { tab: tab(), script: "1+1".to_string() }, check: None }
    );
    let value = Instruction::Assertion(TestAssert {
        context: tab(),
        assertion: GeneralAssertType::Element(ElementAssert {
            element: element(),
            assert: ElementAssertionType::Value(Comparison::Exists),
        }),
    });
    assert_eq!(
        value.into_errand(),
        Errand { call: AdapterCall::ElementValue { tab: tab(), element: element() }, check: Some(Comparison::Exists) }
    );
    let attribute = Instruction::Assertion(TestAssert {
        context: tab(),
        assertion: GeneralAssertType::Element(ElementAssert {
            element: element(),
            assert: ElementAssertionType::Attribute {
                attribute: "href".to_string(),
                comparison: Comparison::TextContains("/".to_string()),
            },
        }),
    });
    assert_eq!(
        attribute.into_errand(),
        Errand {
            call: AdapterCall::ElementAttribute { tab: tab(), element: element(), attribute: "href".to_string() },
            check: Some(Comparison::TextContains("/".to_string())),
        }
    );
    let script = Instruction::Assertion(TestAssert {
        context: tab(),
        assertion: GeneralAssertType::Tab(TabAssert::Evaluate {
            script: "document.title".to_string(),
            comparison: Comparison::Equals(JsonValue::String("x".to_string())),
        }),
    });
    assert_eq!(
        script.into_errand(),
        Errand {
            call: AdapterCall::Evaluate { tab: tab(), script: "document.title".to_string() },
            check: Some(Comparison::Equals(JsonValue::String("x".to_string()))),
        }
    );
}

#[test]
fn calls_reach_the_adapter_with_their_arguments() {
    let mut adapter = Scripted::new(vec![Feedback::Unsupported]);
    let call = AdapterCall::ElementAttribute {
        tab: TabSelector::UrlRegex("^x".to_string()),
        element: ElementSelector::CSS("a".to_string()),
        attribute: "href".to_string(),
    };
    assert_eq!(call.perform(&mut adapter), Feedback::Unsupported);
    assert_eq!(AdapterCall::Wait { tab: TabSelector::Id("1".to_string()), milliseconds: 5 }.perform(&mut adapter), Feedback::Success);
    assert_eq!(adapter.calls, vec!["attribute Tab[url~=`^x`] Element[css~`a`] href", "sleep Tab[id==`1`] 5"]);
}

#[test]
fn all_tests_run_and_failures_keep_their_order() {
    let tests = vec![
        JsonRunner::new(one_step("first", FailureMode::FastFail, vec![click("#a"), click("#b")])),
        JsonRunner::new(one_step("second", FailureMode::SkipSteps, vec![click("#c")])),
        JsonRunner::new(one_step("third", FailureMode::SkipInstructions, vec![check("#d", ElementAssertion::TextEquals("yes".to_string())), click("#e")])),
        JsonRunner::new(one_step("fourth", FailureMode::FastFail, vec![])),
    ];
    let adapter = Scripted::new(vec![Feedback::Error, Feedback::Success, text("no")]);
    let mut harness = TestHarness::new(adapter, tests);
    let seen = run_all(&mut harness);
    assert_eq!(
        seen,
        vec!["ran", "first failed", "ran", "second passed", "ran", "third failed", "fourth passed", "finished"]
    );
    assert_eq!(harness.step(None), Progress::Finished);
    match harness.finish() {
        Ok(_) => panic!("two tests failed"),
        Err(failures) => {
            let names: Vec<&str> = failures.iter().map(|m| m.name.as_str()).collect();
            assert_eq!(names, vec!["first", "third"]);
            assert!(failures.iter().all(|m| !m.success));
            assert_eq!(
                failures[0],
                TestMetadata {
                    name: "first".to_string(),
                    id: "T-first".to_string(),
                    output: Some("first.log".to_string()),
                    author: Some("qa".to_string()),
                    success: false,
                }
            );
        },
    }
}

#[test]
fn adapter_comes_back_when_nothing_failed() {
    let tests = vec![
        JsonRunner::new(one_step("a", FailureMode::FastFail, vec![click("#a"), check("#a", ElementAssertion::Exists)])),
        JsonRunner::new(one_step("b", FailureMode::FastFail, vec![check("#b", ElementAssertion::TextContains("b".to_string()))])),
    ];
    let adapter = Scripted::new(vec![Feedback::Success, text("anything"), text("abc")]);
    let mut harness = TestHarness::new(adapter, tests);
    run_all(&mut harness);
    match harness.finish() {
        Ok(adapter) => assert_eq!(
            adapter.calls,
            vec![
                "click Tab[id==`7`] Element[css~`#a`]",
                "value Tab[id==`7`] Element[css~`#a`]",
                "value Tab[id==`7`] Element[css~`#b`]",
            ]
        ),
        Err(failures) => panic!("{} tests failed", failures.len()),
    }
}

#[test]
fn no_tests_means_success() {
    let mut harness: TestHarness<JsonRunner, Scripted> = TestHarness::new(Scripted::new(vec![]), vec![]);
    assert_eq!(harness.step(None), Progress::Finished);
    assert!(harness.finish().is_ok());
}

#[test]
fn an_early_failure_fails_the_test_even_if_the_last_feedback_is_ok() {
    let tests = vec![JsonRunner::new(one_step("mixed", FailureMode::SkipSteps, vec![click("#a"), click("#b")]))];
    let mut harness = TestHarness::new(Scripted::new(vec![Feedback::Error, Feedback::Success]), tests);
    assert_eq!(run_all(&mut harness), vec!["ran", "ran", "mixed failed", "finished"]);
    let failures = harness.finish().err().expect("the first instruction failed");
    assert_eq!(failures.len(), 1);
    assert_eq!(failures[0].to_text(), "TEST T-mixed: mixed by qa FAILURE (mixed.log)");
}

#[test]
fn harness_hands_macros_to_the_running_test() {
    let parent = Test {
        info: info("parent", FailureMode::FastFail),
        test: vec![TestStepType::Macro { name: "login".to_string(), file: "login.json".to_string() }],
    };
    let tests = vec![JsonRunner::from_loaded(parent, "suite/main.json".to_string())];
    let mut harness = TestHarness::new(Scripted::new(vec![Feedback::Success]), tests);
    assert_eq!(
        harness.step(None),
        Progress::Load(MacroRequest {
            name: "login".to_string(),
            file: "login.json".to_string(),
            base: Some("suite/main.json".to_string()),
        })
    );
    let login = one_step("login", FailureMode::FastFail, vec![click("#login")]);
    assert_eq!(
        harness.step(Some(LoadedMacro { test: login, path: "suite/login.json".to_string() })),
        Progress::Ran
    );
    assert_eq!(harness.running().map(|m| m.name), Some("parent".to_string()));
    assert!(matches!(harness.step(None), Progress::Concluded(outcome) if outcome.success && outcome.id == "T-parent"));
    assert_eq!(harness.running(), None);
    assert_eq!(harness.step(None), Progress::Finished);
    let adapter = harness.finish().ok().expect("nothing failed");
    assert_eq!(adapter.calls, vec!["click Tab[id==`7`] Element[css~`#login`]"]);
}

#[test]
fn a_macro_that_cannot_be_had_is_skipped() {
    let parent = Test {
        info: info("parent", FailureMode::FastFail),
        test: vec![
            TestStepType::Macro { name: "gone".to_string(), file: "gone.json".to_string() },
            TestStepType::Regular(TestStep { tab: TabDescriptor::Id { id: "7".to_string() }, operations: vec![click("#x")] }),
        ],
    };
    let mut harness = TestHarness::new(Scripted::new(vec![]), vec![JsonRunner::new(parent)]);
    assert!(matches!(harness.step(None), Progress::Load(_)));
    assert_eq!(harness.step(None), Progress::Ran);
    assert!(matches!(harness.step(None), Progress::Concluded(_)));
    assert!(harness.finish().is_ok());
}

#[test]
fn metadata_line() {
    let mut meta = TestMetadata {
        name: "Login".to_string(),
        id: "L1".to_string(),
        output: None,
        author: None,
        success: true,
    };
    assert_eq!(meta.to_text(), "TEST L1: Login SUCCESS");
    meta.author = Some("me".to_string());
    assert_eq!(meta.to_text(), "TEST L1: Login by me SUCCESS");
    meta.output = Some("/tmp/l1".to_string());
    meta.success = false;
    assert_eq!(meta.to_text(), "TEST L1: Login by me FAILURE (/tmp/l1)");
    // the outcome goes by the feedbacks alone
    let revived = meta.clone().conclude(true);
    assert!(revived.success);
    assert_eq!(revived.name, "Login");
    assert_eq!(revived.output, Some("/tmp/l1".to_string()));
    let mut passing = meta.clone();
    passing.success = true;
    assert!(passing.clone().conclude(true).success);
    assert!(!passing.conclude(false).success);
}

#[test]
fn runner_reports_its_test() {
    let mut runner = JsonRunner::new(one_step("meta", FailureMode::SkipSteps, vec![click("#a")]));
    let before = runner.meta();
    assert_eq!(
        before,
        TestMetadata {
            name: "meta".to_string(),
            id: "T-meta".to_string(),
            output: Some("meta.log".to_string()),
            author: Some("qa".to_string()),
            success: true,
        }
    );
    assert_eq!(TestMetadata::from(info("meta", FailureMode::SkipSteps)), before);
    assert!(matches!(runner.next(Feedback::Start), Advance::Run(_)));
    assert_eq!(runner.next(Feedback::Unsupported), Advance::Done);
    assert!(!runner.meta().success);
}

#[test]
fn scripted_adapter_answers_in_order_and_keeps_the_calls() {
    let mut adapter = ScriptedAdapter::new(vec![Feedback::Success, text("v"), Feedback::Error]);
    assert_eq!(adapter.remaining(), 3);
    let tab = TabSelector::Id("1".to_string());
    let element = ElementSelector::CSS("p".to_string());
    assert_eq!(adapter.element_click(&tab, &element), Feedback::Success);
    assert_eq!(adapter.element_attribute(&tab, &element, "id"), text("v"));
    assert_eq!(adapter.evaluate(&tab, "2+2"), Feedback::Error);
    assert_eq!(adapter.remaining(), 0);
    assert_eq!(adapter.wait(&tab, 10), Feedback::Unsupported);
    assert_eq!(adapter.element_value(&tab, &element), Feedback::Unsupported);
    assert_eq!(adapter.remaining(), 0);
    assert_eq!(
        adapter.calls(),
        &vec![
            AdapterCall::ElementClick { tab: tab.clone(), element: element.clone() },
            AdapterCall::ElementAttribute { tab: tab.clone(), element: element.clone(), attribute: "id".to_string() },
            AdapterCall::Evaluate { tab: tab.clone(), script: "2+2".to_string() },
            AdapterCall::Wait { tab: tab.clone(), milliseconds: 10 },
            AdapterCall::ElementValue { tab: tab.clone(), element: element.clone() },
        ]
    );
    assert_eq!(adapter.element_wait(&tab, &element), Feedback::Unsupported);
    assert_eq!(adapter.element_focus(&tab, &element), Feedback::Unsupported);
    assert_eq!(adapter.element_scroll_to(&tab, &element), Feedback::Unsupported);
    assert_eq!(adapter.calls().len(), 8);
}

#[test]
fn harness_with_a_scripted_adapter() {
    let tests = vec![
        JsonRunner::new(one_step("one", FailureMode::FastFail, vec![click("#a"), check("#a", ElementAssertion::TextEquals("A".to_string()))])),
        JsonRunner::new(one_step("two", FailureMode::FastFail, vec![click("#b")])),
    ];
    let mut harness = TestHarness::new(ScriptedAdapter::new(vec![Feedback::Success, text(" A "), Feedback::Success]), tests);
    let mut steps = 0;
    while harness.step(None) != Progress::Finished {
        steps += 1;
    }
    assert_eq!(steps, 5);
    let adapter = harness.finish().ok().expect("both tests pass");
    assert_eq!(adapter.remaining(), 0);
    assert_eq!(adapter.calls().len(), 3);
    assert_eq!(
        adapter.calls()[1],
        AdapterCall::ElementValue { tab: TabSelector::Id("7".to_string()), element: ElementSelector::CSS("#a".to_string()) }
    );
}

#[test]
fn the_outcome_goes_by_the_feedbacks_alone() {
    // the last feedback of the first test is not ok, every feedback of the second is
    let tests = vec![
        JsonRunner::new(one_step("first", FailureMode::SkipSteps, vec![click("#a"), click("#b")])),
        JsonRunner::new(one_step("second", FailureMode::SkipSteps, vec![click("#c"), click("#d")])),
    ];
    let answers = vec![Feedback::Success, Feedback::Unsupported, Feedback::Success, Feedback::Success];
    let mut harness = TestHarness::new(ScriptedAdapter::new(answers), tests);
    let mut outcomes = Vec::new();
    loop {
        match harness.step(None) {
            Progress::Concluded(outcome) => outcomes.push((outcome.name, outcome.success)),
            Progress::Finished => break,
            _ => {},
        }
    }
    assert_eq!(outcomes, vec![("first".to_string(), false), ("second".to_string(), true)]);
    let failures = harness.finish().err().expect("the first test failed");
    assert_eq!(failures.len(), 1);
    assert_eq!(failures[0].id, "T-first");
    assert!(!failures[0].success);
}

#[test]
fn with_no_tests_the_adapter_comes_back_untouched() {
    let mut harness: TestHarness<JsonRunner, ScriptedAdapter> =
        TestHarness::new(ScriptedAdapter::new(vec![Feedback::Error]), vec![]);
    assert_eq!(harness.running(), None);
    assert_eq!(harness.step(None), Progress::Finished);
    assert_eq!(harness.step(None), Progress::Finished);
    let adapter = harness.finish().ok().expect("nothing failed");
    assert_eq!(adapter.remaining(), 1);
    assert_eq!(adapter.calls().len(), 0);
}
