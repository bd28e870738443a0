use cef_test_core::adapter::Attempt;
use cef_test_core::feedback::Feedback;
use cef_test_core::instructions::{ElementSelector, TabSelector};
use cef_test_core::launch::{endpoint, log_file_path, start_line, LOCAL_PORT, REMOTE_PORT};
use cef_test_core::runner::TestMetadata;
use cef_test_core::value::JsonValue;

#[test]
fn endpoint_defaults() {
    assert_eq!(LOCAL_PORT, 8080);
    assert_eq!(REMOTE_PORT, 8081);
    assert_eq!(endpoint(None, None), ("localhost".to_string(), 8080));
    assert_eq!(endpoint(None, Some(9000)), ("localhost".to_string(), 9000));
    assert_eq!(endpoint(Some("192.168.1.4".to_string()), None), ("192.168.1.4".to_string(), 8081));
    assert_eq!(endpoint(Some("192.168.1.4".to_string()), Some(1)), ("192.168.1.4".to_string(), 1));
    assert_eq!(endpoint(Some("localhost".to_string()), None), ("localhost".to_string(), 8080));
    assert_eq!(endpoint(Some("my.localhost.test".to_string()), None), ("my.localhost.test".to_string(), 8080));
    assert_eq!(endpoint(Some("127.0.0.1".to_string()), None), ("127.0.0.1".to_string(), 8080));
    assert_eq!(endpoint(Some("127.0.1.1".to_string()), None), ("127.0.1.1".to_string(), 8081));
    assert_eq!(endpoint(Some("127.0.0.1".to_string()), Some(8081)), ("127.0.0.1".to_string(), 8081));
}

#[test]
fn log_file_is_named_after_the_start() {
    assert_eq!(
        log_file_path("2023-01-02T03:04:05.678+00:00", "cef-test", "0.1.0"),
        "./2023-01-02T03:04:05.678+00:00-cef-test-v0.1.0.log"
    );
}

#[test]
fn start_of_a_test_is_announced() {
    let meta = TestMetadata {
        name: "Login".to_string(),
        id: "L1".to_string(),
        output: None,
        author: None,
        success: true,
    };
    assert_eq!(start_line(&meta), "Starting test L1: Login");
}

#[test]
fn attempts_report_as_feedback() {
    assert_eq!(Attempt::TabMissing.feedback(), Feedback::Error);
    assert_eq!(Attempt::ElementMissing.feedback(), Feedback::Error);
    assert_eq!(Attempt::Failed.feedback(), Feedback::Error);
    assert_eq!(Attempt::Done.feedback(), Feedback::Success);
    assert_eq!(Attempt::AttributesKnown.feedback(), Feedback::Unsupported);
    assert_eq!(
        Attempt::Read(JsonValue::String("x".to_string())).feedback(),
        Feedback::Value(JsonValue::String("x".to_string()))
    );
}

#[test]
fn missing_tabs_and_elements_are_named() {
    let tab = TabSelector::Title("Home".to_string());
    let element = ElementSelector::CSS("#a".to_string());
    assert_eq!(Attempt::TabMissing.complain(&tab, &element), Some("Failed to find tab Tab[title==`Home`]".to_string()));
    assert_eq!(
        Attempt::ElementMissing.complain(&tab, &element),
        Some("Failed to find element Element[css~`#a`]".to_string())
    );
    assert_eq!(Attempt::Failed.complain(&tab, &element), None);
    assert_eq!(Attempt::Done.complain(&tab, &element), None);
}
