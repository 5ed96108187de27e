use turn_state_gateway::json::{
    parse_bytes, parse_json, parse_leading_object, parse_object, render, render_object, same_json,
    string_value, try_parse_object, Json, JsonNumber, JsonObject,
};

#[test]
fn values_are_read_and_written() {
    let text = r#"{"a":[1,-2,3.5,null,true],"b":{"c":"text"}}"#;
    let object = parse_object(text).unwrap();
    assert_eq!(render_object(&object), text);
    assert_eq!(render(&parse_json(text).unwrap()), text);
    assert_eq!(
        render(&parse_bytes(&text.as_bytes().to_vec()).unwrap()),
        text
    );
    assert!(parse_object("[]").is_none());
    assert!(parse_json("{").is_none());
    assert!(parse_bytes(&vec![0xff]).is_none());
    assert!(try_parse_object("x").err().unwrap().contains("expected value"));
    assert_eq!(
        render_object(&parse_leading_object("{\"a\":1} tail").unwrap()),
        "{\"a\":1}"
    );
    assert!(parse_leading_object("tail {\"a\":1}").is_none());
}

#[test]
fn numbers_are_equal_by_what_they_are() {
    let value = |text: &str| parse_json(text).unwrap();
    assert!(same_json(&value("[1,2]"), &value("[1, 2]")));
    assert!(!same_json(&value("1"), &value("1.0")));
    assert!(same_json(&value("0.0"), &value("-0.0")));
    assert!(same_json(
        &value("{\"a\":1,\"b\":2}"),
        &value("{\"b\":2,\"a\":1}")
    ));
    assert!(!same_json(&value("{\"a\":1}"), &value("{\"a\":1,\"b\":2}")));
}

#[test]
fn members_are_found_by_key() {
    let object = JsonObject::new()
        .insert("text", Json::Text(" padded ".to_owned()))
        .insert("number", Json::Number(JsonNumber::Unsigned(7)))
        .insert("flag", Json::Bool(true))
        .insert("number", Json::Number(JsonNumber::Signed(-7)));
    assert_eq!(object.text_at("text"), "padded");
    assert_eq!(object.exact_text_at("text").as_deref(), Some(" padded "));
    assert_eq!(object.integer_at("number"), Some(-7));
    assert_eq!(object.bool_at("flag"), Some(true));
    assert_eq!(object.text_at("flag"), "");
    assert_eq!(string_value(&Json::Null), "");
    let object = object.remove("flag");
    assert!(!object.contains_key("flag"));
    let mut keys = object.keys();
    keys.sort();
    assert_eq!(keys, ["number", "text"]);
}

#[test]
fn plain_objects_come_back_at_the_depth_limit() {
    let nested = |depth: usize| format!("{}{}", "{\"a\":".repeat(depth - 1) + "{}", "}".repeat(depth - 1));
    let deep = nested(127);
    assert_eq!(render_object(&parse_object(&deep).unwrap()), deep);
    assert!(parse_object(&nested(128)).is_none());
}
