use mercurius_p::json::{JsonNumber, JsonValue};
use mercurius_p::mcp::JsonRpcResponse;

fn number(n: u64) -> JsonValue {
    JsonValue::Number(JsonNumber::PosInt(n))
}

fn text(s: &str) -> JsonValue {
    JsonValue::String(s.to_string())
}

fn object(entries: Vec<(&str, JsonValue)>) -> JsonValue {
    JsonValue::Object(entries.into_iter().map(|(k, v)| (k.to_string(), v)).collect())
}

#[test]
fn serializes_success_response() {
    let response = JsonRpcResponse::success(
        Some(number(1)),
        object(vec![(
            "serverInfo",
            object(vec![("name", text("mercurius-p")), ("version", text("0.1.0"))]),
        )]),
    );

    assert_eq!(response.jsonrpc, "2.0");
    assert_eq!(response.id, Some(number(1)));
    assert!(response.result.is_some());
    assert!(response.error.is_none());
    let result = response.result.unwrap();
    let info = result.get("serverInfo").unwrap();
    assert_eq!(info.get("name"), Some(&text("mercurius-p")));
}

#[test]
fn serializes_error_response() {
    let response = JsonRpcResponse::error(Some(number(1)), -32601, "Method not found".to_string());

    assert_eq!(response.jsonrpc, "2.0");
    assert_eq!(response.id, Some(number(1)));
    assert!(response.result.is_none());
    assert!(response.error.is_some());
    let error = response.error.unwrap();
    assert_eq!(error.code, -32601);
    assert_eq!(error.message, "Method not found");
}

#[test]
fn success_response_can_omit_id_for_notification_like_cases() {
    let response = JsonRpcResponse::success(None, object(vec![("ok", JsonValue::Bool(true))]));

    assert!(response.id.is_none());
    assert_eq!(response.result.unwrap().get("ok"), Some(&JsonValue::Bool(true)));
}

#[test]
fn member_lookup_takes_first_matching_key_and_ignores_non_objects() {
    let value = object(vec![("a", number(1)), ("b", number(2)), ("a", number(3))]);
    assert_eq!(value.get("a"), Some(&number(1)));
    assert_eq!(value.get("b"), Some(&number(2)));
    assert_eq!(value.get("c"), None);
    assert_eq!(text("a").get("a"), None);
    assert_eq!(JsonValue::Array(vec![number(1)]).get("0"), None);
}

#[test]
fn numbers_are_written_as_to_string_writes_them() {
    assert_eq!(JsonNumber::PosInt(0).to_text(), "0");
    assert_eq!(JsonNumber::PosInt(42).to_text(), "42");
    assert_eq!(JsonNumber::PosInt(u64::MAX).to_text(), u64::MAX.to_string());
    assert_eq!(JsonNumber::NegInt(-7).to_text(), "-7");
    assert_eq!(JsonNumber::NegInt(i64::MIN).to_text(), i64::MIN.to_string());
    assert_eq!(JsonNumber::Float("1.5".to_string()).to_text(), "1.5");
}
