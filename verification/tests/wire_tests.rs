use schedules_runner::wire::escape_json;
use schedules_runner::wire::idempotency_key;
use schedules_runner::fetch::parse_update_result;
use schedules_runner::wire::status_body;

#[test]
fn idempotency_key_is_id_and_value() {
    assert_eq!(idempotency_key("E1", "Started"), "E1:Started");
}

#[test]
fn status_body_exact() {
    let body = status_body("Started", "E1:Started");
    assert_eq!(body, "{\"status\":{\"value\":\"Started\",\"idempotentKey\":\"E1:Started\"}}");
}

#[test]
fn escape_json_plain_text_unchanged() {
    assert_eq!(escape_json("echo hi"), "echo hi");
}

#[test]
fn escape_json_quotes_and_backslashes() {
    assert_eq!(escape_json("a\"b\\c"), "a\\\"b\\\\c");
}

#[test]
fn escape_json_whitespace_controls() {
    assert_eq!(escape_json("x\ny\rz\tw"), "x\\ny\\rz\\tw");
}

#[test]
fn escape_json_rare_control_chars() {
    assert_eq!(escape_json("\u{1}\u{1f}"), "\\u0001\\u001f");
}

#[test]
fn status_body_is_real_json() {
    let value = "Started";
    let key = "we\"ird\\id\n:Started";
    let body = status_body(value, key);
    let v: serde_json::Value = serde_json::from_str(&body).unwrap();
    assert_eq!(v["status"]["value"].as_str(), Some(value));
    assert_eq!(v["status"]["idempotentKey"].as_str(), Some(key));
}

#[test]
fn update_result_true() {
    assert_eq!(parse_update_result("{\"result\":true}"), Some(true));
}

#[test]
fn update_result_false_with_whitespace() {
    assert_eq!(parse_update_result("  {\n\t\"result\" :  false }\r\n"), Some(false));
}

#[test]
fn update_result_ignores_unknown_members() {
    assert_eq!(parse_update_result("{\"result\":true,\"x\":1}"), Some(true));
    assert_eq!(parse_update_result("{\"seen\":[{},\"}\"],\"result\":false}"), Some(false));
}

#[test]
fn update_result_malformed() {
    assert_eq!(parse_update_result(""), None);
    assert_eq!(parse_update_result("{}"), None);
    assert_eq!(parse_update_result("{\"result\":1}"), None);
    assert_eq!(parse_update_result("{\"result\":true,\"result\":true}"), None);
    assert_eq!(parse_update_result("{\"result\":true} extra"), None);
    assert_eq!(parse_update_result("[true]"), None);
}
