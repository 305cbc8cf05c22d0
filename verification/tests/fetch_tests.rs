use schedules_runner::fetch::parse_executions;

#[test]
fn parse_single_execution() {
    let body = "[{\"id\":\"E1\",\"task\":{\"id\":\"T1\",\"name\":\"demo\",\"payload\":\"echo hi\"},\"startTime\":1600000000}]";
    let v = parse_executions(body).unwrap();
    assert_eq!(v.len(), 1);
    assert_eq!(v[0].id, "E1");
    assert_eq!(v[0].task.id, "T1");
    assert_eq!(v[0].task.name, "demo");
    assert_eq!(v[0].task.payload, "echo hi");
    assert_eq!(v[0].start_time, 1600000000);
}

#[test]
fn parse_two_executions_in_order() {
    let body = "[{\"id\":\"E1\",\"task\":{\"id\":\"T1\",\"name\":\"a\",\"payload\":\"p1\"},\"startTime\":1},{\"id\":\"E2\",\"task\":{\"id\":\"T2\",\"name\":\"b\",\"payload\":\"p2\"},\"startTime\":2}]";
    let v = parse_executions(body).unwrap();
    assert_eq!(v.len(), 2);
    assert_eq!(v[0].id, "E1");
    assert_eq!(v[1].id, "E2");
    assert_eq!(v[1].task.payload, "p2");
}

#[test]
fn parse_empty_array() {
    assert!(parse_executions("[]").unwrap().is_empty());
    assert!(parse_executions(" [ ] ").unwrap().is_empty());
}

#[test]
fn parse_with_whitespace_and_escapes() {
    let body = " [ {\n  \"id\" : \"E1\" ,\n  \"task\" : { \"id\" : \"T1\" , \"name\" : \"de mo\" , \"payload\" : \"say \\\"hi\\\"\\n\" } ,\n  \"startTime\" : -5\n} ]\n";
    let v = parse_executions(body).unwrap();
    assert_eq!(v.len(), 1);
    assert_eq!(v[0].task.payload, "say \"hi\"\n");
    assert_eq!(v[0].start_time, -5);
}

#[test]
fn parse_accepts_any_member_order() {
    let body = "[{\"startTime\":7,\"task\":{\"payload\":\"p\",\"id\":\"T1\",\"name\":\"n\"},\"id\":\"E1\"}]";
    let v = parse_executions(body).unwrap();
    assert_eq!(v[0].id, "E1");
    assert_eq!(v[0].task.id, "T1");
    assert_eq!(v[0].task.payload, "p");
    assert_eq!(v[0].start_time, 7);
}

#[test]
fn parse_ignores_unknown_members() {
    let body = "[{\"id\":\"E1\",\"retries\":3,\"task\":{\"id\":\"T1\",\"name\":\"n\",\"labels\":[{\"a\":\"x,]}\"},null],\"payload\":\"p\"},\"startTime\":1,\"note\":\"n,]\"}]";
    let v = parse_executions(body).unwrap();
    assert_eq!(v[0].id, "E1");
    assert_eq!(v[0].task.payload, "p");
}

#[test]
fn parse_unicode_escapes() {
    // "\u0045" is 'E'; "\ud83d\ude00" is a surrogate pair.
    let body = "[{\"id\":\"\\u00451\",\"task\":{\"id\":\"T1\",\"name\":\"\\ud83d\\ude00\",\"payload\":\"a\\bb\\fc\"},\"startTime\":1}]";
    let v = parse_executions(body).unwrap();
    assert_eq!(v[0].id, "E1");
    assert_eq!(v[0].task.name, "\u{1f600}");
    assert_eq!(v[0].task.payload, "a\u{8}b\u{c}c");
}

#[test]
fn parse_rejects_malformed_bodies() {
    assert!(parse_executions("").is_none());
    assert!(parse_executions("{}").is_none());
    assert!(parse_executions("[{}]").is_none());
    assert!(parse_executions("[{\"id\":\"E1\"}]").is_none());
    // a duplicated known member
    assert!(parse_executions(
        "[{\"id\":\"E1\",\"id\":\"E2\",\"task\":{\"id\":\"T1\",\"name\":\"n\",\"payload\":\"p\"},\"startTime\":1}]"
    )
    .is_none());
    // a lone surrogate escape
    assert!(parse_executions(
        "[{\"id\":\"\\ud83d\",\"task\":{\"id\":\"T1\",\"name\":\"n\",\"payload\":\"p\"},\"startTime\":1}]"
    )
    .is_none());
    // trailing content
    assert!(parse_executions(
        "[{\"id\":\"E1\",\"task\":{\"id\":\"T1\",\"name\":\"n\",\"payload\":\"p\"},\"startTime\":1}] x"
    )
    .is_none());
    // mangled quoting
    assert!(parse_executions(
        "[{\"id\":\"E1,\"task\":{\"id\":\"T1\",\"name\":\"n\",\"payload\":\"p\"},\"startTime\":1}]"
    )
    .is_none());
}

#[test]
fn parse_timestamp_bounds() {
    let ok = "[{\"id\":\"E1\",\"task\":{\"id\":\"T1\",\"name\":\"n\",\"payload\":\"p\"},\"startTime\":9223372036854775807}]";
    assert_eq!(parse_executions(ok).unwrap()[0].start_time, i64::MAX);
    let min = "[{\"id\":\"E1\",\"task\":{\"id\":\"T1\",\"name\":\"n\",\"payload\":\"p\"},\"startTime\":-9223372036854775808}]";
    assert_eq!(parse_executions(min).unwrap()[0].start_time, i64::MIN);
    let too_big = "[{\"id\":\"E1\",\"task\":{\"id\":\"T1\",\"name\":\"n\",\"payload\":\"p\"},\"startTime\":9223372036854775808}]";
    assert!(parse_executions(too_big).is_none());
    let too_small = "[{\"id\":\"E1\",\"task\":{\"id\":\"T1\",\"name\":\"n\",\"payload\":\"p\"},\"startTime\":-9223372036854775809}]";
    assert!(parse_executions(too_small).is_none());
}

#[test]
fn parse_agrees_with_a_standard_decoder() {
    // A body serde_json accepts for these records is accepted here with
    // the same content.
    let body = "[{\"id\":\"\\u00e9\",\"extra\":{\"deep\":[1.5,true,\"s\"]},\"task\":{\"name\":\"n\",\"id\":\"T1\",\"payload\":\"say \\\"hi\\\"\"},\"startTime\":-1}]";
    let sv: serde_json::Value = serde_json::from_str(body).unwrap();
    let v = parse_executions(body).unwrap();
    assert_eq!(sv[0]["id"].as_str().unwrap(), v[0].id);
    assert_eq!(sv[0]["task"]["payload"].as_str().unwrap(), v[0].task.payload);
    assert_eq!(sv[0]["startTime"].as_i64().unwrap(), v[0].start_time);
}
