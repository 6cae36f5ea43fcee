use l1_proxy::json::{json_from_value, parse, print, Json, Member};
use serde_json::Value;

fn reprinted(text: &str) -> Option<String> {
    parse(text.as_bytes()).map(print)
}

#[test]
fn documents_are_printed_compactly_with_their_keys_in_order() {
    assert_eq!(
        reprinted(" { \"b\" : [1, -2, 2.5, true, null] , \"a\" : \"x\\n\" } ").unwrap(),
        "{\"a\":\"x\\n\",\"b\":[1,-2,2.5,true,null]}"
    );
}

#[test]
fn what_is_no_document_is_refused() {
    assert!(parse(b"").is_none());
    assert!(parse(b"{").is_none());
    assert!(parse(b"1 2").is_none());
    assert!(parse(&[0xff, 0xfe]).is_none());
}

#[test]
fn members_are_found_by_their_key() {
    let json = parse(b"{\"a\":\"x\",\"b\":null}").unwrap();
    assert_eq!(json.get_text("a"), Some("x"));
    assert!(json.get("b").is_some());
    assert_eq!(json.get_text("b"), None);
    assert!(json.get("c").is_none());
    assert!(parse(b"[\"a\"]").unwrap().get("a").is_none());
    assert_eq!(parse(b"\"a\"").unwrap().as_text(), Some("a"));
    assert_eq!(parse(b"1").unwrap().as_text(), None);
}

#[test]
fn of_two_members_with_one_key_the_later_counts() {
    let json = parse(b"{\"a\":\"x\",\"a\":\"y\"}").unwrap();
    assert_eq!(json.get_text("a"), Some("y"));
    let built = Json::Object(vec![
        Member { key: "a".to_string(), value: Json::text("x") },
        Member { key: "a".to_string(), value: Json::text("y") },
    ]);
    assert_eq!(built.get_text("a"), Some("y"));
    assert_eq!(print(built), "{\"a\":\"y\"}");
}

#[test]
fn documents_are_built_member_by_member() {
    let json = Json::object()
        .with("n", Json::number(12345))
        .with("list", Json::array().and(Json::Null).and(Json::Bool(false)).and(Json::text("t")))
        .with("n", Json::number(0));
    assert_eq!(print(json), "{\"list\":[null,false,\"t\"],\"n\":0}");
    assert_eq!(print(Json::text("s").with("a", Json::Null)), "\"s\"");
    assert_eq!(print(Json::object().and(Json::Null)), "{}");
}

#[test]
fn values_of_serde_json_are_documents() {
    let mut map = serde_json::Map::new();
    map.insert("b".to_string(), Value::Array(vec![Value::Null, Value::from(-3)]));
    map.insert("a".to_string(), Value::String("x".to_string()));
    let json = json_from_value(Value::Object(map));
    assert_eq!(json.get_text("a"), Some("x"));
    assert_eq!(print(json), "{\"a\":\"x\",\"b\":[null,-3]}");
    assert_eq!(print(json_from_value(Value::Bool(true))), "true");
}

#[test]
fn copies_say_the_same() {
    let text = "{\"a\":[{\"b\":1.25},[]],\"c\":\"d\"}";
    let json = parse(text.as_bytes()).unwrap();
    assert_eq!(print(json.clone()), text);
    assert_eq!(print(json), text);
}
