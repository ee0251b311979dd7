use quest_catalog::fields::{
    bool_field, i32_field, i32_list_field, json_as_i32, members_field, opt_i32_field,
    opt_i32_list_field, opt_members_field, opt_string_field, string_field,
};
use quest_catalog::json::{find_member, new_members, push_member, put_member, Json, JsonNumber};

fn text(s: &str) -> Json {
    Json::String(s.to_string())
}

fn object(members: Vec<(&str, Json)>) -> Json {
    Json::Object(members.into_iter().map(|(k, v)| (k.to_string(), v)).collect())
}

#[test]
fn get_finds_the_member_under_a_key() {
    let doc = object(vec![("a", Json::from_i32(1)), ("b", text("x"))]);
    assert_eq!(doc.get("a"), Some(&Json::from_i32(1)));
    assert_eq!(doc.get("b"), Some(&text("x")));
    assert_eq!(doc.get("c"), None);
}

#[test]
fn get_takes_the_last_member_where_a_key_repeats() {
    let doc = object(vec![("a", Json::from_i32(1)), ("a", Json::from_i32(2))]);
    assert_eq!(doc.get("a"), Some(&Json::from_i32(2)));
}

#[test]
fn get_on_a_value_that_is_no_object_finds_nothing() {
    assert_eq!(Json::Null.get("a"), None);
    assert_eq!(Json::Array(vec![text("a")]).get("a"), None);
    assert_eq!(text("a").get("a"), None);
}

#[test]
fn find_member_on_empty_members_finds_nothing() {
    let members = new_members();
    assert_eq!(find_member(&members, "a"), None);
}

#[test]
fn numbers_from_i32_are_canonical() {
    assert_eq!(Json::from_i32(7), Json::Number(JsonNumber::PosInt(7)));
    assert_eq!(Json::from_i32(0), Json::Number(JsonNumber::PosInt(0)));
    assert_eq!(Json::from_i32(-7), Json::Number(JsonNumber::NegInt(-7)));
    assert_eq!(JsonNumber::from_i64(i64::MIN), JsonNumber::NegInt(i64::MIN));
}

#[test]
fn as_i64_reads_integers_that_fit() {
    assert_eq!(Json::Number(JsonNumber::PosInt(5)).as_i64(), Some(5));
    assert_eq!(Json::Number(JsonNumber::NegInt(-5)).as_i64(), Some(-5));
    assert_eq!(Json::Number(JsonNumber::PosInt(i64::MAX as u64)).as_i64(), Some(i64::MAX));
    assert_eq!(Json::Number(JsonNumber::PosInt(i64::MAX as u64 + 1)).as_i64(), None);
    assert_eq!(Json::Number(JsonNumber::Float(1.5f64.to_bits())).as_i64(), None);
    assert_eq!(text("5").as_i64(), None);
    assert_eq!(Json::Null.as_i64(), None);
}

#[test]
fn as_i32_rejects_what_does_not_fit() {
    assert_eq!(json_as_i32(&Json::Number(JsonNumber::PosInt(2_147_483_647))), Some(i32::MAX));
    assert_eq!(json_as_i32(&Json::Number(JsonNumber::PosInt(2_147_483_648))), None);
    assert_eq!(json_as_i32(&Json::Number(JsonNumber::NegInt(-2_147_483_648))), Some(i32::MIN));
    assert_eq!(json_as_i32(&Json::Number(JsonNumber::NegInt(-2_147_483_649))), None);
    assert_eq!(json_as_i32(&Json::Number(JsonNumber::Float(2.0f64.to_bits()))), None);
}

#[test]
fn clone_is_a_deep_copy() {
    let doc = object(vec![
        ("list", Json::Array(vec![Json::from_i32(1), Json::Null, Json::Bool(true)])),
        ("inner", object(vec![("k", text("v"))])),
    ]);
    let copy = doc.clone();
    assert_eq!(copy, doc);
}

#[test]
fn push_member_adds_at_the_end() {
    let mut members = new_members();
    push_member(&mut members, "a", Json::from_i32(1));
    push_member(&mut members, "b", Json::from_i32(2));
    push_member(&mut members, "a", Json::from_i32(3));
    assert_eq!(
        Json::Object(members),
        object(vec![("a", Json::from_i32(1)), ("b", Json::from_i32(2)), ("a", Json::from_i32(3))])
    );
}

#[test]
fn put_member_replaces_in_place_or_adds_at_the_end() {
    let mut members = new_members();
    put_member(&mut members, "a".to_string(), Json::from_i32(1));
    put_member(&mut members, "b".to_string(), Json::from_i32(2));
    put_member(&mut members, "a".to_string(), Json::from_i32(3));
    assert_eq!(
        Json::Object(members),
        object(vec![("a", Json::from_i32(3)), ("b", Json::from_i32(2))])
    );
}

#[test]
fn optional_values_become_null_where_absent() {
    assert_eq!(Json::from_opt_string(&None), Json::Null);
    assert_eq!(Json::from_opt_string(&Some("x".to_string())), text("x"));
    assert_eq!(Json::from_opt_i32(None), Json::Null);
    assert_eq!(Json::from_opt_i32(Some(4)), Json::from_i32(4));
    assert_eq!(Json::from_opt(&None), Json::Null);
    assert_eq!(Json::from_opt(&Some(Json::Bool(false))), Json::Bool(false));
    assert_eq!(Json::from_str("abc"), text("abc"));
}

#[test]
fn required_members_must_be_there_and_of_the_right_type() {
    let doc = object(vec![
        ("s", text("x")),
        ("n", Json::from_i32(3)),
        ("b", Json::Bool(true)),
        ("null", Json::Null),
        ("list", Json::Array(vec![Json::from_i32(1), Json::from_i32(2)])),
        ("obj", object(vec![("k", Json::Null)])),
    ]);
    assert_eq!(string_field(&doc, "s"), Some("x".to_string()));
    assert_eq!(string_field(&doc, "n"), None);
    assert_eq!(string_field(&doc, "null"), None);
    assert_eq!(string_field(&doc, "missing"), None);
    assert_eq!(i32_field(&doc, "n"), Some(3));
    assert_eq!(i32_field(&doc, "s"), None);
    assert_eq!(i32_field(&doc, "missing"), None);
    assert_eq!(bool_field(&doc, "b"), Some(true));
    assert_eq!(bool_field(&doc, "n"), None);
    assert_eq!(i32_list_field(&doc, "list"), Some(vec![1, 2]));
    assert_eq!(i32_list_field(&doc, "s"), None);
    assert_eq!(
        members_field(&doc, "obj"),
        Some(vec![("k".to_string(), Json::Null)])
    );
    assert_eq!(members_field(&doc, "list"), None);
}

#[test]
fn optional_members_may_be_missing_or_null_but_not_of_another_type() {
    let doc = object(vec![
        ("s", text("x")),
        ("n", Json::from_i32(3)),
        ("null", Json::Null),
        ("list", Json::Array(vec![Json::from_i32(1)])),
        ("mixed", Json::Array(vec![Json::from_i32(1), text("two")])),
        ("obj", object(vec![])),
    ]);
    assert_eq!(opt_string_field(&doc, "s"), Some(Some("x".to_string())));
    assert_eq!(opt_string_field(&doc, "null"), Some(None));
    assert_eq!(opt_string_field(&doc, "missing"), Some(None));
    assert_eq!(opt_string_field(&doc, "n"), None);
    assert_eq!(opt_i32_field(&doc, "n"), Some(Some(3)));
    assert_eq!(opt_i32_field(&doc, "null"), Some(None));
    assert_eq!(opt_i32_field(&doc, "missing"), Some(None));
    assert_eq!(opt_i32_field(&doc, "s"), None);
    assert_eq!(opt_i32_list_field(&doc, "list"), Some(Some(vec![1])));
    assert_eq!(opt_i32_list_field(&doc, "missing"), Some(None));
    assert_eq!(opt_i32_list_field(&doc, "mixed"), None);
    assert_eq!(opt_members_field(&doc, "obj"), Some(Some(vec![])));
    assert_eq!(opt_members_field(&doc, "null"), Some(None));
    assert_eq!(opt_members_field(&doc, "s"), None);
}
