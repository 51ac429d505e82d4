//! The endpoint handlers: pure functions from path parameters, parsed
//! body and identity context to the exact response body text.

use vstd::prelude::*;
use crate::auth::ContextUser;
use crate::json::JsonVal;
use crate::json::json_text;
use crate::json::obj_text;
use crate::json::push_json;
use crate::json::push_quoted;
use crate::json::push_str_chars;
use crate::json::quoted;
use crate::numtext::chars_to_string;
use crate::numtext::dec_int;
use crate::numtext::i64_to_dec;
use crate::numtext::push_dec_i128;

verus! {

/// The inert shared-resource handle threaded through the REST
/// handlers: a placeholder with no state, passed explicitly rather
/// than held globally.
pub struct DbPool {}

/// Why the create endpoint rejected its body.
#[derive(Clone, Copy, Debug, PartialEq, Eq, Structural)]
pub enum BodyError {
    /// The body was not a JSON object carrying an integer `id` field.
    NoIntegerId,
    /// The `id` field held the largest `i64`; incrementing it would
    /// overflow.
    IdOverflow,
}

/// The body of the `GET /hello` reply.
pub open spec fn hello_text() -> Seq<char> {
    "hi"@
}

/// `GET /hello`: the fixed greeting.
pub fn hello() -> (r: String)
    ensures
        r@ == hello_text(),
{
    String::from_str("hi")
}

/// The reply body of `GET /rest/{id}`: a JSON object with the id, a
/// name built from it, and the authenticated user's id.
pub open spec fn rest_get_text(id: int, user_id: int) -> Seq<char> {
    "{\"id\":"@ + dec_int(id) + ",\"name\":\"name: "@ + dec_int(id) + "\",\"user_id\":"@
        + dec_int(user_id) + "}"@
}

/// `GET /rest/{id}`: echoes the path id alongside the identity the
/// token parser attached to the request.
pub fn rest_get(id: i64, context_user: &ContextUser, _db: &DbPool) -> (r: String)
    ensures
        r@ == rest_get_text(id as int, context_user.id as int),
{
    let id_text = i64_to_dec(id);
    let user_text = i64_to_dec(context_user.id);
    let mut s = String::from_str("{\"id\":");
    s.append(id_text.as_str());
    s.append(",\"name\":\"name: ");
    s.append(id_text.as_str());
    s.append("\",\"user_id\":");
    s.append(user_text.as_str());
    s.append("}");
    proof {
        assert(s@ =~= rest_get_text(id as int, context_user.id as int));
    }
    s
}

/// The fixed five-record listing of `GET /rest`.
pub open spec fn rest_list_text() -> Seq<char> {
    "[{\"id\":1,\"status\":\"ok\"},{\"id\":2,\"status\":\"err\"},{\"id\":3,\"status\":\"aa\"},{\"id\":4,\"status\":\"bb\"},{\"id\":5,\"status\":\"cc\"}]"@
}

/// `GET /rest`: the fixed listing; the identity is required but unused.
pub fn rest_list(_context_user: &ContextUser, _db: &DbPool) -> (r: String)
    ensures
        r@ == rest_list_text(),
{
    String::from_str(
        "[{\"id\":1,\"status\":\"ok\"},{\"id\":2,\"status\":\"err\"},{\"id\":3,\"status\":\"aa\"},{\"id\":4,\"status\":\"bb\"},{\"id\":5,\"status\":\"cc\"}]",
    )
}

/// The position of the first `"id"` field of an object's field list,
/// searching from position `i`.
pub open spec fn first_id_index(fields: Seq<(String, JsonVal)>, i: int) -> Option<int>
    decreases fields.len() - i,
{
    if i < 0 || i >= fields.len() {
        Option::None
    } else if fields[i].0@ == "id"@ {
        Option::Some(i)
    } else {
        first_id_index(fields, i + 1)
    }
}

/// What `POST /rest` replies for a parsed body: the same object, with
/// the value of its first `id` field incremented by one and every
/// other field unchanged, serialized; or the error classifying the
/// body.
pub open spec fn rest_create_spec(body: JsonVal) -> Result<Seq<char>, BodyError> {
    match body {
        JsonVal::Obj(fields) => match first_id_index(fields@, 0) {
            Option::Some(i) => match fields@[i].1 {
                JsonVal::Int(n) => if n == i64::MAX {
                    Result::Err(BodyError::IdOverflow)
                } else {
                    let upd = fields@.update(i, (fields@[i].0, JsonVal::Int((n + 1) as i64)));
                    Result::Ok(seq!['{'] + obj_text(upd, 0) + seq!['}'])
                },
                _ => Result::Err(BodyError::NoIntegerId),
            },
            Option::None => Result::Err(BodyError::NoIntegerId),
        },
        _ => Result::Err(BodyError::NoIntegerId),
    }
}

/// Appends the text of the object whose field at `idx` is replaced by
/// the integer `new_id`, every other field unchanged.
fn render_obj_with_new_id(
    buf: &mut Vec<char>,
    fields: &Vec<(String, JsonVal)>,
    idx: usize,
    new_id: i64,
)
    requires
        idx < fields@.len(),
    ensures
        final(buf)@ == old(buf)@ + seq!['{'] + obj_text(
            fields@.update(idx as int, (fields@[idx as int].0, JsonVal::Int(new_id))),
            0,
        ) + seq!['}'],
{
    let ghost upd = fields@.update(idx as int, (fields@[idx as int].0, JsonVal::Int(new_id)));
    buf.push('{');
    let m = fields.len();
    let mut i: usize = 0;
    while i < m
        invariant
            i <= m,
            m == fields@.len(),
            idx < m,
            upd == fields@.update(idx as int, (fields@[idx as int].0, JsonVal::Int(new_id))),
            buf@ + obj_text(upd, i as int) =~= old(buf)@ + seq!['{'] + obj_text(upd, 0),
        decreases m - i,
    {
        push_quoted(buf, fields[i].0.as_str());
        buf.push(':');
        if i == idx {
            push_dec_i128(buf, new_id as i128);
            assert(json_text(upd[i as int].1) == dec_int(new_id as int));
        } else {
            push_json(buf, &fields[i].1);
            assert(upd[i as int] == fields@[i as int]);
        }
        if i + 1 < m {
            buf.push(',');
        }
        proof {
            assert(upd[i as int].0 == fields@[i as int].0);
            assert(buf@ + obj_text(upd, i + 1 as int) =~= old(buf)@ + seq!['{'] + obj_text(
                upd,
                0,
            ));
        }
        i = i + 1;
    }
    buf.push('}');
    proof {
        assert(final(buf)@ =~= old(buf)@ + seq!['{'] + obj_text(upd, 0) + seq!['}']);
    }
}

/// `POST /rest`: echoes the body with its `id` incremented. A body
/// that is not an object with an integer `id`, or whose `id` cannot be
/// incremented, is reported as an error that ends only this request.
pub fn rest_create(data: &JsonVal, _context_user: &ContextUser, _db: &DbPool) -> (r: Result<
    String,
    BodyError,
>)
    ensures
        match (r, rest_create_spec(*data)) {
            (Result::Ok(s), Result::Ok(t)) => s@ == t,
            (Result::Err(e), Result::Err(f)) => e == f,
            _ => false,
        },
{
    match data {
        JsonVal::Obj(fields) => {
            let m = fields.len();
            let needle = String::from_str("id");
            let mut i: usize = 0;
            let mut idx: Option<usize> = Option::None;
            while i < m
                invariant
                    i <= m,
                    m == fields@.len(),
                    needle@ == "id"@,
                    match idx {
                        Option::Some(j) => j < m && first_id_index(fields@, 0) == Option::Some(
                            j as int,
                        ) && i == m,
                        Option::None => first_id_index(fields@, i as int) == first_id_index(
                            fields@,
                            0,
                        ),
                    },
                decreases m - i,
            {
                if fields[i].0 == needle {
                    idx = Option::Some(i);
                    i = m;
                } else {
                    i = i + 1;
                }
            }
            match idx {
                Option::None => {
                    assert(first_id_index(fields@, m as int) is None);
                    Result::Err(BodyError::NoIntegerId)
                },
                Option::Some(j) => {
                    match &fields[j].1 {
                        JsonVal::Int(n) => {
                            if *n == i64::MAX {
                                Result::Err(BodyError::IdOverflow)
                            } else {
                                let new_id: i64 = *n + 1;
                                let mut buf: Vec<char> = Vec::new();
                                render_obj_with_new_id(&mut buf, fields, j, new_id);
                                let out = chars_to_string(buf);
                                proof {
                                    assert(out@ =~= seq!['{'] + obj_text(
                                        fields@.update(
                                            j as int,
                                            (fields@[j as int].0, JsonVal::Int(new_id)),
                                        ),
                                        0,
                                    ) + seq!['}']);
                                }
                                Result::Ok(out)
                            }
                        },
                        _ => Result::Err(BodyError::NoIntegerId),
                    }
                },
            }
        },
        _ => Result::Err(BodyError::NoIntegerId),
    }
}

/// The body sent when the create endpoint rejects its payload.
pub open spec fn body_error_text_spec(e: BodyError) -> Seq<char> {
    match e {
        BodyError::NoIntegerId => "body must be a json object with an integer id"@,
        BodyError::IdOverflow => "id out of range"@,
    }
}

/// The report text of a create-body error.
pub fn body_error_text(e: &BodyError) -> (r: String)
    ensures
        r@ == body_error_text_spec(*e),
{
    match e {
        BodyError::NoIntegerId => String::from_str(
            "body must be a json object with an integer id",
        ),
        BodyError::IdOverflow => String::from_str("id out of range"),
    }
}

/// The reply body of `GET /basic/{name}/{age}`.
pub open spec fn basic_text(name: Seq<char>, age: int) -> Seq<char> {
    "name: "@ + name + ", age: "@ + dec_int(age)
}

/// `GET /basic/{name}/{age}`: the formatted greeting.
pub fn basic(name: &String, age: i64) -> (r: String)
    ensures
        r@ == basic_text(name@, age as int),
{
    let age_text = i64_to_dec(age);
    let mut s = String::from_str("name: ");
    s.append(name.as_str());
    s.append(", age: ");
    s.append(age_text.as_str());
    proof {
        assert(s@ =~= basic_text(name@, age as int));
    }
    s
}

/// The reply body of `GET /add/{a}/{b}`: the sum as text.
pub open spec fn add_text(sum: int) -> Seq<char> {
    "res: "@ + dec_int(sum)
}

/// `GET /add/{a}/{b}`: adds the two path integers; the sum is computed
/// exactly, beyond the `i64` range if need be.
pub fn add_nums(a: i64, b: i64) -> (r: String)
    ensures
        r@ == add_text(a + b),
{
    let sum: i128 = (a as i128) + (b as i128);
    let digits = {
        let mut buf: Vec<char> = Vec::new();
        push_dec_i128(&mut buf, sum);
        chars_to_string(buf)
    };
    let mut s = String::from_str("res: ");
    s.append(digits.as_str());
    proof {
        assert(s@ =~= add_text(a + b));
    }
    s
}

/// The `"k": "v"` entries of the query map from position `i` on,
/// comma-and-space separated, in stored order, each side quoted and
/// escaped like a JSON string.
pub open spec fn query_entries_text(q: Seq<(String, String)>, i: int) -> Seq<char>
    decreases q.len() - i,
{
    if i < 0 || i >= q.len() {
        Seq::empty()
    } else if i + 1 < q.len() {
        quoted(q[i].0@) + ": "@ + quoted(q[i].1@) + ", "@ + query_entries_text(q, i + 1)
    } else {
        quoted(q[i].0@) + ": "@ + quoted(q[i].1@)
    }
}

/// The reply body of `GET /items/{name}`: the path parameter, then the
/// query parameters rendered as a braced map in the order given.
pub open spec fn items_text(name: Seq<char>, q: Seq<(String, String)>) -> Seq<char> {
    "get "@ + name + ": {"@ + query_entries_text(q, 0) + "}"@
}

/// `GET /items/{name}`: echoes the name and the query map.
pub fn items(name: &String, query: &Vec<(String, String)>) -> (r: String)
    ensures
        r@ == items_text(name@, query@),
{
    let mut buf: Vec<char> = Vec::new();
    push_str_chars(&mut buf, "get ");
    push_str_chars(&mut buf, name.as_str());
    push_str_chars(&mut buf, ": {");
    let m = query.len();
    let mut i: usize = 0;
    while i < m
        invariant
            i <= m,
            m == query@.len(),
            buf@ + query_entries_text(query@, i as int) =~= "get "@ + name@ + ": {"@
                + query_entries_text(query@, 0),
        decreases m - i,
    {
        push_quoted(&mut buf, query[i].0.as_str());
        push_str_chars(&mut buf, ": ");
        push_quoted(&mut buf, query[i].1.as_str());
        if i + 1 < m {
            push_str_chars(&mut buf, ", ");
        }
        proof {
            assert(buf@ + query_entries_text(query@, i + 1 as int) =~= "get "@ + name@ + ": {"@
                + query_entries_text(query@, 0));
        }
        i = i + 1;
    }
    push_str_chars(&mut buf, "}");
    let out = chars_to_string(buf);
    proof {
        assert(out@ =~= items_text(name@, query@));
    }
    out
}

} // verus!
