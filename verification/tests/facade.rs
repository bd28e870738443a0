use cef_test_core::cef::WebContent;
use cef_test_core::harness::{
    Comparison, ElementOpType, Feedback, Instruction, JsonRunner, TabSelector, TestAdapter, TestHarness, TestMetadata,
    TestRunner,
};
use cef_test_core::runner::Advance;
use cef_test_core::scripted::ScriptedAdapter;
use cef_test_core::structure::{FailureMode, Test, TestInfo};

fn ask<A: TestAdapter>(adapter: &mut A) -> Feedback {
    adapter.wait(&TabSelector::Title("t".to_string()), 1)
}

fn pull<R: TestRunner>(runner: &mut R) -> (Advance, TestMetadata) {
    (runner.next(Feedback::Start), runner.meta())
}

#[test]
fn names_are_reached_through_the_harness_module() {
    let mut adapter = ScriptedAdapter::new(vec![Feedback::Success]);
    assert_eq!(ask(&mut adapter), Feedback::Success);
    let info = TestInfo {
        name: "n".to_string(),
        blame: "b".to_string(),
        id: "i".to_string(),
        output: "o".to_string(),
        fail_mode: FailureMode::FastFail,
    };
    let mut runner = JsonRunner::new(Test { info, test: vec![] });
    let (advance, meta) = pull(&mut runner);
    assert_eq!(advance, Advance::Done);
    assert_eq!(meta.author.as_deref(), Some("b"));
    assert_eq!(meta.output.as_deref(), Some("o"));
    let harness = TestHarness::new(adapter, vec![runner]);
    assert!(harness.finish().is_ok());
    assert!(Comparison::Exists.compare(Some(&cef_test_core::value::JsonValue::Null)));
    assert_ne!(ElementOpType::Click, ElementOpType::Focus);
    let record = WebContent::new(String::new(), String::new(), "1".to_string(), String::new(), String::new(), String::new());
    assert_eq!(record.id(), "1");
    let _: Option<Instruction> = None;
}
