use herdr_smart_nav::json::{parse_reply, Json};

fn obj(members: Vec<(&str, Json)>) -> Json {
    Json::Object(members.into_iter().map(|(k, v)| (k.to_string(), v)).collect())
}

#[test]
fn get_takes_the_first_member_of_that_name() {
    let d = obj(vec![("a", Json::Number(Some(1))), ("a", Json::Number(Some(2)))]);
    assert_eq!(d.get("a").and_then(Json::as_u64), Some(1));
    assert!(d.get("b").is_none());
    assert!(Json::Null.get("a").is_none());
}

#[test]
fn lookup_follows_member_names() {
    let d = obj(vec![("result", obj(vec![("focus", obj(vec![("changed", Json::Bool(false))]))]))]);
    assert_eq!(d.lookup(&["result", "focus", "changed"]).and_then(Json::as_bool), Some(false));
    assert!(d.lookup(&["result", "pane"]).is_none());
    assert!(d.lookup(&[]).is_some());
}

#[test]
fn accessors_by_kind() {
    let arr = Json::Array(vec![Json::Str("x".into()), Json::Number(None)]);
    assert_eq!(arr.index(0).and_then(Json::as_str), Some("x"));
    assert_eq!(arr.index(1).and_then(Json::as_u64), None);
    assert!(arr.index(2).is_none());
    assert_eq!(arr.as_array().map(|v| v.len()), Some(2));
    assert!(Json::Bool(true).as_str().is_none());
    assert!(Json::Str("1".into()).as_u64().is_none());
}

#[test]
fn parse_reply_reads_json_documents() {
    let d = parse_reply(br#"{"n": 7, "neg": -1, "f": 1.5, "s": "x", "a": [true, null]}"#).unwrap();
    assert_eq!(d.get("n").and_then(Json::as_u64), Some(7));
    assert!(matches!(d.get("neg"), Some(Json::Number(None))));
    assert!(matches!(d.get("f"), Some(Json::Number(None))));
    assert_eq!(d.get("s").and_then(Json::as_str), Some("x"));
    assert_eq!(d.get("a").and_then(|a| a.index(0)).and_then(Json::as_bool), Some(true));
    assert!(matches!(d.get("a").and_then(|a| a.index(1)), Some(Json::Null)));
    assert!(parse_reply(b"not json").is_none());
    assert!(parse_reply(b"").is_none());
}
