use auth_routes::handlers::rest_create;
use auth_routes::handlers::BodyError;
use auth_routes::json::JsonVal;
use auth_routes::routes::handle;
use auth_routes::routes::Method;
use auth_routes::routes::Request;

fn segs(parts: &[&str]) -> Vec<String> {
    parts.iter().map(|p| String::from(*p)).collect()
}

fn get(path: &[&str], header: Option<&str>) -> Request {
    Request {
        method: Method::Get,
        path: segs(path),
        auth_header: header.map(String::from),
        body: None,
        query: Vec::new(),
    }
}

fn db() -> auth_routes::handlers::DbPool {
    auth_routes::handlers::DbPool {}
}

#[test]
fn hello_replies_hi() {
    let r = handle(&get(&["hello"], None), &db());
    assert_eq!(r.status, 200);
    assert_eq!(r.body, "hi");
}

#[test]
fn unprotected_routes_ignore_the_auth_header() {
    // no auth stage is declared for the greeting: a bad token changes nothing
    let r = handle(&get(&["hello"], Some("garbage")), &db());
    assert_eq!(r.status, 200);
    assert_eq!(r.body, "hi");
}

#[test]
fn rest_get_echoes_ids() {
    let r = handle(&get(&["rest", "5"], Some("ok:9")), &db());
    assert_eq!(r.status, 200);
    assert_eq!(r.body, "{\"id\":5,\"name\":\"name: 5\",\"user_id\":9}");
}

#[test]
fn rest_get_with_negative_user() {
    let r = handle(&get(&["rest", "-3"], Some("ok:-7")), &db());
    assert_eq!(r.status, 200);
    assert_eq!(r.body, "{\"id\":-3,\"name\":\"name: -3\",\"user_id\":-7}");
}

#[test]
fn rest_list_is_the_fixed_listing() {
    let r = handle(&get(&["rest"], Some("ok:1")), &db());
    assert_eq!(r.status, 200);
    assert_eq!(
        r.body,
        "[{\"id\":1,\"status\":\"ok\"},{\"id\":2,\"status\":\"err\"},{\"id\":3,\"status\":\"aa\"},{\"id\":4,\"status\":\"bb\"},{\"id\":5,\"status\":\"cc\"}]"
    );
}

#[test]
fn rest_create_increments_id() {
    let req = Request {
        method: Method::Post,
        path: segs(&["rest"]),
        auth_header: Some(String::from("ok:2")),
        body: Some(JsonVal::Obj(vec![(String::from("id"), JsonVal::Int(10))])),
        query: Vec::new(),
    };
    let r = handle(&req, &db());
    assert_eq!(r.status, 200);
    assert_eq!(r.body, "{\"id\":11}");
}

#[test]
fn rest_create_preserves_other_fields() {
    let req = Request {
        method: Method::Post,
        path: segs(&["rest"]),
        auth_header: Some(String::from("ok:2")),
        body: Some(JsonVal::Obj(vec![
            (String::from("id"), JsonVal::Int(10)),
            (String::from("note"), JsonVal::Str(String::from("keep me"))),
            (String::from("flags"), JsonVal::Arr(vec![JsonVal::Bool(true)])),
        ])),
        query: Vec::new(),
    };
    let r = handle(&req, &db());
    assert_eq!(r.status, 200);
    assert_eq!(
        r.body,
        "{\"id\":11,\"note\":\"keep me\",\"flags\":[true]}"
    );
}

#[test]
fn rest_create_rejects_bad_bodies() {
    let user = auth_routes::auth::ContextUser { id: 1 };
    let no_id = JsonVal::Obj(vec![(String::from("x"), JsonVal::Int(1))]);
    assert_eq!(
        rest_create(&no_id, &user, &db()),
        Err(BodyError::NoIntegerId)
    );
    let not_int = JsonVal::Obj(vec![(String::from("id"), JsonVal::Str(String::from("9")))]);
    assert_eq!(
        rest_create(&not_int, &user, &db()),
        Err(BodyError::NoIntegerId)
    );
    let not_obj = JsonVal::Int(4);
    assert_eq!(
        rest_create(&not_obj, &user, &db()),
        Err(BodyError::NoIntegerId)
    );
    let max = JsonVal::Obj(vec![(String::from("id"), JsonVal::Int(i64::MAX))]);
    assert_eq!(rest_create(&max, &user, &db()), Err(BodyError::IdOverflow));
}

#[test]
fn add_sums_path_integers() {
    let r = handle(&get(&["add", "3", "4"], None), &db());
    assert_eq!(r.status, 200);
    assert_eq!(r.body, "res: 7");
}

#[test]
fn add_survives_extreme_sums() {
    let r = handle(
        &get(&["add", "9223372036854775807", "9223372036854775807"], None),
        &db(),
    );
    assert_eq!(r.status, 200);
    assert_eq!(r.body, "res: 18446744073709551614");
}

#[test]
fn basic_formats_the_greeting() {
    let r = handle(&get(&["basic", "alice", "30"], None), &db());
    assert_eq!(r.status, 200);
    assert_eq!(r.body, "name: alice, age: 30");
}

#[test]
fn items_echoes_name_and_query() {
    let req = Request {
        method: Method::Get,
        path: segs(&["items", "pens"]),
        auth_header: None,
        body: None,
        query: vec![
            (String::from("color"), String::from("blue")),
            (String::from("n"), String::from("2")),
        ],
    };
    let r = handle(&req, &db());
    assert_eq!(r.status, 200);
    assert_eq!(r.body, "get pens: {\"color\": \"blue\", \"n\": \"2\"}");
}

#[test]
fn unmatched_requests_are_404() {
    assert_eq!(handle(&get(&["nope"], None), &db()).status, 404);
    assert_eq!(handle(&get(&[], None), &db()).status, 404);
    assert_eq!(handle(&get(&["rest", "5", "extra"], None), &db()).status, 404);
    // an integer parameter that does not parse is no structural match
    assert_eq!(handle(&get(&["rest", "x"], Some("ok:1")), &db()).status, 404);
    assert_eq!(handle(&get(&["add", "3", "x"], None), &db()).status, 404);
    // a method the table has no fragment for
    let req = Request {
        method: Method::Other,
        path: segs(&["rest"]),
        auth_header: Some(String::from("ok:1")),
        body: None,
        query: Vec::new(),
    };
    assert_eq!(handle(&req, &db()).status, 404);
}

#[test]
fn auth_failures_do_not_fall_through() {
    // method+path match, bad auth: the auth rejection answers, not 404
    let r = handle(&get(&["rest", "5"], Some("nope")), &db());
    assert_eq!(r.status, 401);
    assert_eq!(r.body, "missing or malformed token");
    let r = handle(&get(&["rest", "5"], None), &db());
    assert_eq!(r.status, 401);
    let r = handle(&get(&["rest"], Some("ok:x")), &db());
    assert_eq!(r.status, 400);
    assert_eq!(r.body, "numeric suffix required");
}

#[test]
fn create_without_body_is_rejected_before_auth() {
    let req = Request {
        method: Method::Post,
        path: segs(&["rest"]),
        auth_header: None,
        body: None,
        query: Vec::new(),
    };
    let r = handle(&req, &db());
    assert_eq!(r.status, 400);
    assert_eq!(r.body, "json body required");
}

#[test]
fn create_with_bad_body_is_a_request_error() {
    let req = Request {
        method: Method::Post,
        path: segs(&["rest"]),
        auth_header: Some(String::from("ok:2")),
        body: Some(JsonVal::Obj(Vec::new())),
        query: Vec::new(),
    };
    let r = handle(&req, &db());
    assert_eq!(r.status, 400);
    assert_eq!(r.body, "body must be a json object with an integer id");
}
