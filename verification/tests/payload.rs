use mcpg_plugin_integration_webhook::json::{render_object, Scalar};
use mcpg_plugin_integration_webhook::WebhookEvent;

#[test]
fn webhook_event_serializes() {
    let event = WebhookEvent::ToolCallCompleted {
        tool_name: "test".to_owned(),
        request_id: "req-1".to_owned(),
        duration_ms: 123,
        identity_kind: "verified".to_owned(),
        subject_id: Some("user@ex.com".to_owned()),
    };
    let json = event.payload();
    assert!(json.contains("tool_call_completed"));
    assert_eq!(
        json,
        "{\"event\":\"tool_call_completed\",\"tool_name\":\"test\",\"request_id\":\"req-1\",\"duration_ms\":123,\"identity_kind\":\"verified\",\"subject_id\":\"user@ex.com\"}"
    );
}

#[test]
fn error_event_serializes() {
    let event = WebhookEvent::ToolCallError {
        tool_name: "test".to_owned(),
        request_id: "req-1".to_owned(),
        error_message: "boom".to_owned(),
        identity_kind: "anonymous".to_owned(),
    };
    let json = event.payload();
    assert!(json.contains("tool_call_error"));
    assert_eq!(
        json,
        "{\"event\":\"tool_call_error\",\"tool_name\":\"test\",\"request_id\":\"req-1\",\"error_message\":\"boom\",\"identity_kind\":\"anonymous\"}"
    );
}

#[test]
fn slow_event_serializes() {
    let event = WebhookEvent::SlowResponse {
        tool_name: "test".to_owned(),
        request_id: "req-1".to_owned(),
        duration_ms: 6000,
        threshold_ms: 5000,
    };
    let json = event.payload();
    assert!(json.contains("slow_response"));
    assert_eq!(
        json,
        "{\"event\":\"slow_response\",\"tool_name\":\"test\",\"request_id\":\"req-1\",\"duration_ms\":6000,\"threshold_ms\":5000}"
    );
}

#[test]
fn absent_subject_is_null() {
    let event = WebhookEvent::ToolCallCompleted {
        tool_name: "test".to_owned(),
        request_id: "req-1".to_owned(),
        duration_ms: u64::MAX,
        identity_kind: "anonymous".to_owned(),
        subject_id: None,
    };
    assert_eq!(
        event.clone().payload(),
        "{\"event\":\"tool_call_completed\",\"tool_name\":\"test\",\"request_id\":\"req-1\",\"duration_ms\":18446744073709551615,\"identity_kind\":\"anonymous\",\"subject_id\":null}"
    );
}

#[test]
fn text_is_escaped() {
    let s = "a\"b\\c\u{8}\t\n\u{c}\r\u{0}\u{1f}\u{7f}é😀/".to_owned();
    assert_eq!(
        Scalar::Text(s).render(),
        "\"a\\\"b\\\\c\\b\\t\\n\\f\\r\\u0000\\u001f\u{7f}é😀/\""
    );
    assert_eq!(Scalar::Number(0).render(), "0");
    assert_eq!(Scalar::Null.render(), "null");
}

#[test]
fn payload_reads_back() {
    let event = WebhookEvent::ToolCallError {
        tool_name: "quote\"d".to_owned(),
        request_id: "line\nbreak".to_owned(),
        error_message: "back\\slash \u{1} ünï".to_owned(),
        identity_kind: String::new(),
    };
    let value: serde_json::Value = serde_json::from_str(&event.payload()).unwrap();
    assert_eq!(value["event"], "tool_call_error");
    assert_eq!(value["tool_name"], "quote\"d");
    assert_eq!(value["request_id"], "line\nbreak");
    assert_eq!(value["error_message"], "back\\slash \u{1} ünï");
    assert_eq!(value["identity_kind"], "");
    assert_eq!(value.as_object().unwrap().len(), 5);
}

#[test]
fn empty_object() {
    assert_eq!(render_object(&vec![]), "{}");
    assert_eq!(
        render_object(&vec![("a", Scalar::Number(1)), ("b", Scalar::Null)]),
        "{\"a\":1,\"b\":null}"
    );
}
