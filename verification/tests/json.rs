use chat_feed::json::{decode, Json};

fn member(name: &str, value: Json) -> (String, Json) {
    (name.to_string(), value)
}

#[test]
fn text_that_is_no_json_decodes_to_nothing() {
    assert_eq!(decode(""), None);
    assert_eq!(decode("   "), None);
    assert_eq!(decode("{"), None);
    assert_eq!(decode("{\"a\":}"), None);
    assert_eq!(decode("hello"), None);
    assert_eq!(decode("{} {}"), None);
    assert_eq!(decode("{\"a\": 1,}"), None);
}

#[test]
fn scalars_decode_to_themselves() {
    assert_eq!(decode("null"), Some(Json::Null));
    assert_eq!(decode("true"), Some(Json::Bool(true)));
    assert_eq!(decode("false"), Some(Json::Bool(false)));
    assert_eq!(decode("\"a\\nb\""), Some(Json::String("a\nb".to_string())));
    assert_eq!(decode(" 12 "), Some(Json::Number(Some(12))));
}

#[test]
fn numbers_keep_integers_in_range() {
    assert_eq!(decode("0"), Some(Json::Number(Some(0))));
    assert_eq!(decode("-7"), Some(Json::Number(Some(-7))));
    assert_eq!(decode("9223372036854775807"), Some(Json::Number(Some(i64::MAX))));
    assert_eq!(decode("-9223372036854775808"), Some(Json::Number(Some(i64::MIN))));
    assert_eq!(decode("9223372036854775808"), Some(Json::Number(None)));
    assert_eq!(decode("1.5"), Some(Json::Number(None)));
    assert_eq!(decode("1e3"), Some(Json::Number(None)));
}

#[test]
fn arrays_keep_their_order() {
    assert_eq!(
        decode("[3, \"x\", [], null]"),
        Some(Json::Array(vec![
            Json::Number(Some(3)),
            Json::String("x".to_string()),
            Json::Array(vec![]),
            Json::Null,
        ]))
    );
}

#[test]
fn objects_are_read_member_by_member() {
    let doc = decode("{\"b\": 1, \"a\": {\"c\": [true]}}").unwrap();
    assert_eq!(doc.get("b"), Some(&Json::Number(Some(1))));
    assert_eq!(
        doc.get("a"),
        Some(&Json::Object(vec![member("c", Json::Array(vec![Json::Bool(true)]))]))
    );
    assert_eq!(doc.get("c"), None);
    assert_eq!(doc.get(""), None);
    assert_eq!(doc.get("B"), None);
}

#[test]
fn repeated_member_is_read_once() {
    let doc = decode("{\"a\": 1, \"a\": 2}").unwrap();
    assert_eq!(doc, Json::Object(vec![member("a", Json::Number(Some(2)))]));
}

#[test]
fn get_finds_the_first_member_of_that_name() {
    let doc = Json::Object(vec![
        member("a", Json::Number(Some(1))),
        member("b", Json::Number(Some(2))),
        member("a", Json::Number(Some(3))),
    ]);
    assert_eq!(doc.get("a"), Some(&Json::Number(Some(1))));
    assert_eq!(doc.get("b"), Some(&Json::Number(Some(2))));
    assert_eq!(doc.get("ab"), None);
}

#[test]
fn get_of_what_is_no_object_finds_nothing() {
    assert_eq!(Json::Null.get("a"), None);
    assert_eq!(Json::Array(vec![Json::Object(vec![member("a", Json::Null)])]).get("a"), None);
    assert_eq!(Json::String("a".to_string()).get("a"), None);
}

#[test]
fn accessors_answer_for_their_own_kind_only() {
    let array = Json::Array(vec![Json::Null]);
    let string = Json::String("s".to_string());
    let number = Json::Number(Some(4));
    assert_eq!(array.as_array(), Some(&vec![Json::Null]));
    assert_eq!(array.as_str(), None);
    assert_eq!(array.as_i64(), None);
    assert_eq!(string.as_array(), None);
    assert_eq!(string.as_str(), Some("s"));
    assert_eq!(string.as_i64(), None);
    assert_eq!(number.as_array(), None);
    assert_eq!(number.as_str(), None);
    assert_eq!(number.as_i64(), Some(4));
    assert_eq!(Json::Number(None).as_i64(), None);
    assert_eq!(Json::Null.as_i64(), None);
}

#[test]
fn deep_nesting_is_refused() {
    let deep = "[".repeat(200) + &"]".repeat(200);
    assert_eq!(decode(&deep), None);
    let fine = "[".repeat(100) + &"]".repeat(100);
    assert!(decode(&fine).is_some());
}
