//! The route table and its composition: fragments declared one per
//! endpoint, combined by ordered alternation. The first fragment whose
//! method and path pattern match wins; a failure at a later stage of
//! that fragment (auth, body) is surfaced as the request's answer and
//! never falls through to another fragment.

use vstd::prelude::*;
use vstd::pervasive::unreached;
use crate::auth::auth;
use crate::auth::auth_spec;
use crate::auth::AuthFailure;
use crate::auth::ContextUser;
use crate::handlers::add_nums;
use crate::handlers::add_text;
use crate::handlers::basic;
use crate::handlers::basic_text;
use crate::handlers::body_error_text_spec;
use crate::handlers::hello;
use crate::handlers::hello_text;
use crate::handlers::items;
use crate::handlers::items_text;
use crate::handlers::rest_create;
use crate::handlers::rest_create_spec;
use crate::handlers::rest_get;
use crate::handlers::rest_get_text;
use crate::handlers::rest_list;
use crate::handlers::rest_list_text;
use crate::handlers::BodyError;
use crate::handlers::DbPool;
use crate::json::JsonVal;
use crate::numtext::parse_i64;
use crate::numtext::parse_i64_spec;

verus! {

/// An HTTP method, as far as the route table tells them apart.
#[derive(Clone, Copy, Debug, PartialEq, Eq, Structural)]
pub enum Method {
    Get,
    Post,
    /// Any method the table has no fragment for.
    Other,
}

/// One segment of a route pattern.
pub enum Seg {
    /// Matches exactly this literal segment.
    Lit(String),
    /// Matches a segment that parses as a signed `i64`.
    IntParam,
    /// Matches any single segment.
    StrParam,
}

/// Which handler a fragment dispatches to.
#[derive(Clone, Copy, Debug, PartialEq, Eq, Structural)]
pub enum HandlerId {
    Hello,
    RestGet,
    RestList,
    RestCreate,
    Basic,
    AddNums,
    Items,
}

/// One route fragment: a match predicate (method and path pattern) and
/// the handler behind it, with the auth and body stages as declarative
/// flags rather than positional combinators.
pub struct Fragment {
    pub method: Method,
    pub pattern: Vec<Seg>,
    pub needs_auth: bool,
    pub needs_body: bool,
    pub handler: HandlerId,
}

/// An inbound request, reduced to the plain values the routing logic
/// reads: method, path segments, the raw auth header value, the parsed
/// JSON body if one was sent, and the query parameters in order.
pub struct Request {
    pub method: Method,
    pub path: Vec<String>,
    pub auth_header: Option<String>,
    pub body: Option<JsonVal>,
    pub query: Vec<(String, String)>,
}

/// The answer to a request: an HTTP status and the exact body text.
pub struct Response {
    pub status: u16,
    pub body: String,
}

/// Whether one pattern segment accepts one path segment.
pub open spec fn seg_matches(seg: Seg, s: String) -> bool {
    match seg {
        Seg::Lit(l) => l@ == s@,
        Seg::IntParam => parse_i64_spec(s@) is Some,
        Seg::StrParam => true,
    }
}

/// Whether a pattern accepts a whole path: same length, and every
/// segment accepted in place.
pub open spec fn pattern_matches(pattern: Seq<Seg>, path: Seq<String>) -> bool {
    pattern.len() == path.len() && (forall|k: int|
        0 <= k < pattern.len() ==> seg_matches(pattern[k], path[k]))
}

/// Whether a fragment structurally matches a request: method and path
/// pattern. Auth and body are later stages, not part of the match.
pub open spec fn frag_matches(f: Fragment, m: Method, path: Seq<String>) -> bool {
    f.method == m && pattern_matches(f.pattern@, path)
}

/// Whether a pattern segment is the given literal.
pub open spec fn seg_is_lit(seg: Seg, text: Seq<char>) -> bool {
    match seg {
        Seg::Lit(l) => l@ == text,
        _ => false,
    }
}

/// The method, flags and handler of one fragment.
pub open spec fn frag_shape(
    f: Fragment,
    m: Method,
    needs_auth: bool,
    needs_body: bool,
    h: HandlerId,
) -> bool {
    f.method == m && f.needs_auth == needs_auth && f.needs_body == needs_body && f.handler == h
}

/// The table this library serves, fragment by fragment, in declaration
/// order.
pub open spec fn table_well_formed(t: Seq<Fragment>) -> bool {
    t.len() == 7 && frag_shape(t[0], Method::Get, false, false, HandlerId::Hello)
        && t[0].pattern@.len() == 1 && seg_is_lit(t[0].pattern@[0], "hello"@) && frag_shape(
        t[1],
        Method::Get,
        true,
        false,
        HandlerId::RestGet,
    ) && t[1].pattern@.len() == 2 && seg_is_lit(t[1].pattern@[0], "rest"@) && t[1].pattern@[1]
        is IntParam && frag_shape(t[2], Method::Get, true, false, HandlerId::RestList)
        && t[2].pattern@.len() == 1 && seg_is_lit(t[2].pattern@[0], "rest"@) && frag_shape(
        t[3],
        Method::Post,
        true,
        true,
        HandlerId::RestCreate,
    ) && t[3].pattern@.len() == 1 && seg_is_lit(t[3].pattern@[0], "rest"@) && frag_shape(
        t[4],
        Method::Get,
        false,
        false,
        HandlerId::Basic,
    ) && t[4].pattern@.len() == 3 && seg_is_lit(t[4].pattern@[0], "basic"@) && t[4].pattern@[1]
        is StrParam && t[4].pattern@[2] is IntParam && frag_shape(
        t[5],
        Method::Get,
        false,
        false,
        HandlerId::AddNums,
    ) && t[5].pattern@.len() == 3 && seg_is_lit(t[5].pattern@[0], "add"@) && t[5].pattern@[1]
        is IntParam && t[5].pattern@[2] is IntParam && frag_shape(
        t[6],
        Method::Get,
        false,
        false,
        HandlerId::Items,
    ) && t[6].pattern@.len() == 2 && seg_is_lit(t[6].pattern@[0], "items"@) && t[6].pattern@[1]
        is StrParam
}

/// Structural match of the `GET /hello` fragment.
pub open spec fn is_hello(req: Request) -> bool {
    req.method == Method::Get && req.path@.len() == 1 && req.path@[0]@ == "hello"@
}

/// Structural match of the `GET /rest/{id}` fragment.
pub open spec fn is_rest_get(req: Request) -> bool {
    req.method == Method::Get && req.path@.len() == 2 && req.path@[0]@ == "rest"@
        && parse_i64_spec(req.path@[1]@) is Some
}

/// Structural match of the `GET /rest` fragment.
pub open spec fn is_rest_list(req: Request) -> bool {
    req.method == Method::Get && req.path@.len() == 1 && req.path@[0]@ == "rest"@
}

/// Structural match of the `POST /rest` fragment.
pub open spec fn is_rest_create(req: Request) -> bool {
    req.method == Method::Post && req.path@.len() == 1 && req.path@[0]@ == "rest"@
}

/// Structural match of the `GET /basic/{name}/{age}` fragment.
pub open spec fn is_basic(req: Request) -> bool {
    req.method == Method::Get && req.path@.len() == 3 && req.path@[0]@ == "basic"@
        && parse_i64_spec(req.path@[2]@) is Some
}

/// Structural match of the `GET /add/{a}/{b}` fragment.
pub open spec fn is_add_nums(req: Request) -> bool {
    req.method == Method::Get && req.path@.len() == 3 && req.path@[0]@ == "add"@
        && parse_i64_spec(req.path@[1]@) is Some && parse_i64_spec(req.path@[2]@) is Some
}

/// Structural match of the `GET /items/{name}` fragment.
pub open spec fn is_items(req: Request) -> bool {
    req.method == Method::Get && req.path@.len() == 2 && req.path@[0]@ == "items"@
}

/// In a well-formed table, each fragment's structural match is exactly
/// the corresponding shape of the request.
pub proof fn lemma_frag_cases(t: Seq<Fragment>, req: Request)
    requires
        table_well_formed(t),
    ensures
        frag_matches(t[0], req.method, req.path@) == is_hello(req),
        frag_matches(t[1], req.method, req.path@) == is_rest_get(req),
        frag_matches(t[2], req.method, req.path@) == is_rest_list(req),
        frag_matches(t[3], req.method, req.path@) == is_rest_create(req),
        frag_matches(t[4], req.method, req.path@) == is_basic(req),
        frag_matches(t[5], req.method, req.path@) == is_add_nums(req),
        frag_matches(t[6], req.method, req.path@) == is_items(req),
{
    let path = req.path@;
    if frag_matches(t[0], req.method, path) {
        assert(seg_matches(t[0].pattern@[0], path[0]));
    }
    if is_hello(req) {
        assert forall|k: int| 0 <= k < t[0].pattern@.len() implies seg_matches(
            t[0].pattern@[k],
            path[k],
        ) by {
            assert(k == 0);
        }
    }
    if frag_matches(t[1], req.method, path) {
        assert(seg_matches(t[1].pattern@[0], path[0]));
        assert(seg_matches(t[1].pattern@[1], path[1]));
    }
    if is_rest_get(req) {
        assert forall|k: int| 0 <= k < t[1].pattern@.len() implies seg_matches(
            t[1].pattern@[k],
            path[k],
        ) by {
            assert(k == 0 || k == 1);
        }
    }
    if frag_matches(t[2], req.method, path) {
        assert(seg_matches(t[2].pattern@[0], path[0]));
    }
    if is_rest_list(req) {
        assert forall|k: int| 0 <= k < t[2].pattern@.len() implies seg_matches(
            t[2].pattern@[k],
            path[k],
        ) by {
            assert(k == 0);
        }
    }
    if frag_matches(t[3], req.method, path) {
        assert(seg_matches(t[3].pattern@[0], path[0]));
    }
    if is_rest_create(req) {
        assert forall|k: int| 0 <= k < t[3].pattern@.len() implies seg_matches(
            t[3].pattern@[k],
            path[k],
        ) by {
            assert(k == 0);
        }
    }
    if frag_matches(t[4], req.method, path) {
        assert(seg_matches(t[4].pattern@[0], path[0]));
        assert(seg_matches(t[4].pattern@[2], path[2]));
    }
    if is_basic(req) {
        assert forall|k: int| 0 <= k < t[4].pattern@.len() implies seg_matches(
            t[4].pattern@[k],
            path[k],
        ) by {
            assert(k == 0 || k == 1 || k == 2);
        }
    }
    if frag_matches(t[5], req.method, path) {
        assert(seg_matches(t[5].pattern@[0], path[0]));
        assert(seg_matches(t[5].pattern@[1], path[1]));
        assert(seg_matches(t[5].pattern@[2], path[2]));
    }
    if is_add_nums(req) {
        assert forall|k: int| 0 <= k < t[5].pattern@.len() implies seg_matches(
            t[5].pattern@[k],
            path[k],
        ) by {
            assert(k == 0 || k == 1 || k == 2);
        }
    }
    if frag_matches(t[6], req.method, path) {
        assert(seg_matches(t[6].pattern@[0], path[0]));
    }
    if is_items(req) {
        assert forall|k: int| 0 <= k < t[6].pattern@.len() implies seg_matches(
            t[6].pattern@[k],
            path[k],
        ) by {
            assert(k == 0 || k == 1);
        }
    }
}

/// The body sent with a 404.
pub open spec fn not_found_text() -> Seq<char> {
    "not found"@
}

/// The body sent when a fragment requires a JSON body and none parsed.
pub open spec fn json_body_required_text() -> Seq<char> {
    "json body required"@
}

/// The status of an auth failure: the two kinds are told apart.
pub open spec fn reject_status(f: AuthFailure) -> int {
    match f {
        AuthFailure::MissingOrMalformedToken => 401,
        AuthFailure::MissingNumericSuffix => 400,
    }
}

/// The body sent with an auth failure.
pub open spec fn reject_text(f: AuthFailure) -> Seq<char> {
    match f {
        AuthFailure::MissingOrMalformedToken => "missing or malformed token"@,
        AuthFailure::MissingNumericSuffix => "numeric suffix required"@,
    }
}

/// What the whole route table answers: the first structurally matching
/// fragment decides, its later stages (body, auth, handler) run in
/// declaration order, and no match at all is a 404.
pub open spec fn response_spec(req: Request) -> (int, Seq<char>) {
    if is_hello(req) {
        (200int, hello_text())
    } else if is_rest_get(req) {
        match auth_spec(req.auth_header.deep_view()) {
            Result::Err(f) => (reject_status(f), reject_text(f)),
            Result::Ok(u) => match parse_i64_spec(req.path@[1]@) {
                Option::Some(id) => (200int, rest_get_text(id as int, u.id as int)),
                Option::None => (404int, not_found_text()),
            },
        }
    } else if is_rest_list(req) {
        match auth_spec(req.auth_header.deep_view()) {
            Result::Err(f) => (reject_status(f), reject_text(f)),
            Result::Ok(u) => (200int, rest_list_text()),
        }
    } else if is_rest_create(req) {
        match req.body {
            Option::None => (400int, json_body_required_text()),
            Option::Some(b) => match auth_spec(req.auth_header.deep_view()) {
                Result::Err(f) => (reject_status(f), reject_text(f)),
                Result::Ok(u) => match rest_create_spec(b) {
                    Result::Ok(t) => (200int, t),
                    Result::Err(e) => (400int, body_error_text_spec(e)),
                },
            },
        }
    } else if is_basic(req) {
        match parse_i64_spec(req.path@[2]@) {
            Option::Some(age) => (200int, basic_text(req.path@[1]@, age as int)),
            Option::None => (404int, not_found_text()),
        }
    } else if is_add_nums(req) {
        match (parse_i64_spec(req.path@[1]@), parse_i64_spec(req.path@[2]@)) {
            (Option::Some(a), Option::Some(b)) => (200int, add_text(a + b)),
            _ => (404int, not_found_text()),
        }
    } else if is_items(req) {
        (200int, items_text(req.path@[1]@, req.query@))
    } else {
        (404int, not_found_text())
    }
}

/// Builds the route table, in declaration order: the greeting, the
/// three REST fragments, then the peripheral endpoints.
pub fn route_table() -> (t: Vec<Fragment>)
    ensures
        table_well_formed(t@),
{
    let mut t: Vec<Fragment> = Vec::new();
    let mut p: Vec<Seg> = Vec::new();
    p.push(Seg::Lit(String::from_str("hello")));
    t.push(
        Fragment {
            method: Method::Get,
            pattern: p,
            needs_auth: false,
            needs_body: false,
            handler: HandlerId::Hello,
        },
    );
    let mut p: Vec<Seg> = Vec::new();
    p.push(Seg::Lit(String::from_str("rest")));
    p.push(Seg::IntParam);
    t.push(
        Fragment {
            method: Method::Get,
            pattern: p,
            needs_auth: true,
            needs_body: false,
            handler: HandlerId::RestGet,
        },
    );
    let mut p: Vec<Seg> = Vec::new();
    p.push(Seg::Lit(String::from_str("rest")));
    t.push(
        Fragment {
            method: Method::Get,
            pattern: p,
            needs_auth: true,
            needs_body: false,
            handler: HandlerId::RestList,
        },
    );
    let mut p: Vec<Seg> = Vec::new();
    p.push(Seg::Lit(String::from_str("rest")));
    t.push(
        Fragment {
            method: Method::Post,
            pattern: p,
            needs_auth: true,
            needs_body: true,
            handler: HandlerId::RestCreate,
        },
    );
    let mut p: Vec<Seg> = Vec::new();
    p.push(Seg::Lit(String::from_str("basic")));
    p.push(Seg::StrParam);
    p.push(Seg::IntParam);
    t.push(
        Fragment {
            method: Method::Get,
            pattern: p,
            needs_auth: false,
            needs_body: false,
            handler: HandlerId::Basic,
        },
    );
    let mut p: Vec<Seg> = Vec::new();
    p.push(Seg::Lit(String::from_str("add")));
    p.push(Seg::IntParam);
    p.push(Seg::IntParam);
    t.push(
        Fragment {
            method: Method::Get,
            pattern: p,
            needs_auth: false,
            needs_body: false,
            handler: HandlerId::AddNums,
        },
    );
    let mut p: Vec<Seg> = Vec::new();
    p.push(Seg::Lit(String::from_str("items")));
    p.push(Seg::StrParam);
    t.push(
        Fragment {
            method: Method::Get,
            pattern: p,
            needs_auth: false,
            needs_body: false,
            handler: HandlerId::Items,
        },
    );
    t
}

/// Whether the fragment structurally matches the request's method and
/// path: the match predicate of one alternation step.
pub fn frag_matches_exec(f: &Fragment, m: Method, path: &Vec<String>) -> (b: bool)
    ensures
        b == frag_matches(*f, m, path@),
{
    if !(f.method == m) {
        return false;
    }
    if f.pattern.len() != path.len() {
        return false;
    }
    let n = f.pattern.len();
    let mut k: usize = 0;
    while k < n
        invariant
            k <= n,
            n == f.pattern@.len(),
            n == path@.len(),
            f.method == m,
            forall|j: int| 0 <= j < k ==> seg_matches(f.pattern@[j], path@[j]),
        decreases n - k,
    {
        let ok: bool = match &f.pattern[k] {
            Seg::Lit(l) => *l == path[k],
            Seg::IntParam => parse_i64(path[k].as_str()).is_some(),
            Seg::StrParam => true,
        };
        assert(ok == seg_matches(f.pattern@[k as int], path@[k as int]));
        if !ok {
            assert(!pattern_matches(f.pattern@, path@)) by {
                assert(!seg_matches(f.pattern@[k as int], path@[k as int]));
            }
            return false;
        }
        k = k + 1;
    }
    true
}

/// Ordered alternation: yields the index of the first fragment whose
/// method and path pattern match the request, and nothing if none
/// does. No earlier fragment matches the request.
pub fn select_fragment(table: &Vec<Fragment>, req: &Request) -> (r: Option<usize>)
    ensures
        match r {
            Option::Some(i) => i < table@.len() && frag_matches(
                table@[i as int],
                req.method,
                req.path@,
            ) && forall|j: int| 0 <= j < i ==> !frag_matches(table@[j], req.method, req.path@),
            Option::None => forall|j: int|
                0 <= j < table@.len() ==> !frag_matches(table@[j], req.method, req.path@),
        },
{
    let n = table.len();
    let mut i: usize = 0;
    while i < n
        invariant
            i <= n,
            n == table@.len(),
            forall|j: int| 0 <= j < i ==> !frag_matches(table@[j], req.method, req.path@),
        decreases n - i,
    {
        if frag_matches_exec(&table[i], req.method, &req.path) {
            return Option::Some(i);
        }
        i = i + 1;
    }
    Option::None
}

/// The response that reports an auth failure, each kind with its own
/// status.
pub fn reject_response(f: AuthFailure) -> (r: Response)
    ensures
        r.status as int == reject_status(f),
        r.body@ == reject_text(f),
{
    match f {
        AuthFailure::MissingOrMalformedToken => Response {
            status: 401,
            body: String::from_str("missing or malformed token"),
        },
        AuthFailure::MissingNumericSuffix => Response {
            status: 400,
            body: String::from_str("numeric suffix required"),
        },
    }
}

/// Answers one request: selects the first structurally matching
/// fragment, runs its body and auth stages in declaration order, and
/// dispatches to its handler. The answer is exactly `response_spec`.
pub fn handle(req: &Request, db: &DbPool) -> (r: Response)
    ensures
        r.status as int == response_spec(*req).0,
        r.body@ == response_spec(*req).1,
{
    let table = route_table();
    proof {
        lemma_frag_cases(table@, *req);
    }
    let sel = select_fragment(&table, req);
    match sel {
        Option::None => {
            assert(!frag_matches(table@[0], req.method, req.path@));
            assert(!frag_matches(table@[1], req.method, req.path@));
            assert(!frag_matches(table@[2], req.method, req.path@));
            assert(!frag_matches(table@[3], req.method, req.path@));
            assert(!frag_matches(table@[4], req.method, req.path@));
            assert(!frag_matches(table@[5], req.method, req.path@));
            assert(!frag_matches(table@[6], req.method, req.path@));
            Response { status: 404, body: String::from_str("not found") }
        },
        Option::Some(i) => {
            let frag = &table[i];
            // the body stage, where the fragment declares one
            if frag.needs_body {
                assert(i == 3);
                if req.body.is_none() {
                    return Response { status: 400, body: String::from_str("json body required") };
                }
            }
            // the auth stage, where the fragment declares one
            let mut user = ContextUser { id: 0 };
            if frag.needs_auth {
                assert(i == 1 || i == 2 || i == 3);
                match auth(&req.auth_header) {
                    Result::Err(f) => {
                        return reject_response(f);
                    },
                    Result::Ok(u) => {
                        user = u;
                    },
                }
            }
            match frag.handler {
                HandlerId::Hello => {
                    assert(i == 0);
                    Response { status: 200, body: hello() }
                },
                HandlerId::RestGet => {
                    assert(i == 1);
                    match parse_i64(req.path[1].as_str()) {
                        Option::Some(id) => Response {
                            status: 200,
                            body: rest_get(id, &user, db),
                        },
                        Option::None => unreached(),
                    }
                },
                HandlerId::RestList => {
                    assert(i == 2);
                    Response { status: 200, body: rest_list(&user, db) }
                },
                HandlerId::RestCreate => {
                    assert(i == 3);
                    match &req.body {
                        Option::Some(b) => match rest_create(b, &user, db) {
                            Result::Ok(s) => Response { status: 200, body: s },
                            Result::Err(e) => Response {
                                status: 400,
                                body: crate::handlers::body_error_text(&e),
                            },
                        },
                        Option::None => unreached(),
                    }
                },
                HandlerId::Basic => {
                    assert(i == 4);
                    match parse_i64(req.path[2].as_str()) {
                        Option::Some(age) => Response {
                            status: 200,
                            body: basic(&req.path[1], age),
                        },
                        Option::None => unreached(),
                    }
                },
                HandlerId::AddNums => {
                    assert(i == 5);
                    match (parse_i64(req.path[1].as_str()), parse_i64(req.path[2].as_str())) {
                        (Option::Some(a), Option::Some(b)) => Response {
                            status: 200,
                            body: add_nums(a, b),
                        },
                        _ => unreached(),
                    }
                },
                HandlerId::Items => {
                    assert(i == 6);
                    Response { status: 200, body: items(&req.path[1], &req.query) }
                },
            }
        },
    }
}

/// Law (route alternation, no match): a request that structurally
/// matches no fragment is answered 404.
pub proof fn lemma_unmatched_is_not_found(req: Request)
    requires
        !is_hello(req),
        !is_rest_get(req),
        !is_rest_list(req),
        !is_rest_create(req),
        !is_basic(req),
        !is_add_nums(req),
        !is_items(req),
    ensures
        response_spec(req) == (404int, not_found_text()),
{
}

/// Law (route alternation, no fallthrough): a request that structurally
/// matches a protected fragment but fails token parsing is answered
/// with that failure's own status and text; it does not fall through to
/// any other fragment's handler.
pub proof fn lemma_auth_failure_no_fallthrough(req: Request, f: AuthFailure)
    requires
        is_rest_get(req) || is_rest_list(req) || (is_rest_create(req) && req.body is Some),
        auth_spec(req.auth_header.deep_view()) == Result::<ContextUser, AuthFailure>::Err(f),
    ensures
        response_spec(req) == (reject_status(f), reject_text(f)),
{
    // the three protected shapes exclude the greeting: its one
    // literal differs from theirs already in length
    reveal_strlit("hello");
    reveal_strlit("rest");
    assert("hello"@.len() == 5);
    assert("rest"@.len() == 4);
}

} // verus!
