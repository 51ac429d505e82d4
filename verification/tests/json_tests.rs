use auth_routes::json::render_json;
use auth_routes::json::JsonVal;

#[test]
fn renders_scalars() {
    assert_eq!(render_json(&JsonVal::Null), "null");
    assert_eq!(render_json(&JsonVal::Bool(true)), "true");
    assert_eq!(render_json(&JsonVal::Bool(false)), "false");
    assert_eq!(render_json(&JsonVal::Int(0)), "0");
    assert_eq!(render_json(&JsonVal::Int(-12)), "-12");
    assert_eq!(render_json(&JsonVal::Str(String::from("hi"))), "\"hi\"");
}

#[test]
fn renders_composites() {
    let v = JsonVal::Obj(vec![
        (String::from("id"), JsonVal::Int(1)),
        (
            String::from("tags"),
            JsonVal::Arr(vec![JsonVal::Str(String::from("a")), JsonVal::Null]),
        ),
        (
            String::from("inner"),
            JsonVal::Obj(vec![(String::from("ok"), JsonVal::Bool(true))]),
        ),
    ]);
    assert_eq!(
        render_json(&v),
        "{\"id\":1,\"tags\":[\"a\",null],\"inner\":{\"ok\":true}}"
    );
    assert_eq!(render_json(&JsonVal::Arr(vec![])), "[]");
    assert_eq!(render_json(&JsonVal::Obj(vec![])), "{}");
}

#[test]
fn escapes_strings_like_serde_json_does() {
    let tricky = "a\"b\\c\nd\te\u{1}f\r\u{8}\u{c}\u{1f}";
    let ours = render_json(&JsonVal::Str(String::from(tricky)));
    let theirs =
        serde_json::to_string(&serde_json::Value::String(String::from(tricky))).unwrap();
    assert_eq!(ours, theirs);
}

#[test]
fn object_rendering_matches_serde_json() {
    let mut m = serde_json::Map::new();
    m.insert(String::from("id"), serde_json::Value::from(3i64));
    m.insert(
        String::from("name"),
        serde_json::Value::String(String::from("x")),
    );
    let theirs = serde_json::to_string(&serde_json::Value::Object(m)).unwrap();
    let ours = render_json(&JsonVal::Obj(vec![
        (String::from("id"), JsonVal::Int(3)),
        (String::from("name"), JsonVal::Str(String::from("x"))),
    ]));
    assert_eq!(ours, theirs);
}
