//! The token parser: turns the raw value of the `X-Auth-Token` header
//! into an authenticated identity, or a classified failure.

use vstd::prelude::*;
use crate::numtext::parse_i64;
use crate::numtext::parse_i64_spec;

verus! {

/// The name of the designated authentication header.
pub const XAUTH: &'static str = "X-Auth-Token";

/// The authenticated-identity record attached to a request once its
/// token has been accepted. Immutable: it is created by the token
/// parser and only read afterwards.
#[derive(Clone, Copy, Debug, PartialEq, Eq, Structural)]
pub struct ContextUser {
    pub id: i64,
}

/// How token parsing failed.
#[derive(Clone, Copy, Debug, PartialEq, Eq, Structural)]
pub enum AuthFailure {
    /// The header was absent, or its value did not start with `"ok:"`.
    MissingOrMalformedToken,
    /// The value started with `"ok:"`, but what followed was not a
    /// base-10 integer that fits in `i64`.
    MissingNumericSuffix,
}

/// Whether the header text starts with the literal prefix `"ok:"`.
pub open spec fn has_ok_prefix(h: Seq<char>) -> bool {
    h.len() >= 3 && h[0] == 'o' && h[1] == 'k' && h[2] == ':'
}

/// What the token parser yields for a given header value: the identity
/// whose id is the signed integer after `"ok:"`, or the failure that
/// classifies the value.
pub open spec fn auth_spec(header: Option<Seq<char>>) -> Result<ContextUser, AuthFailure> {
    match header {
        Option::None => Result::Err(AuthFailure::MissingOrMalformedToken),
        Option::Some(h) => if !has_ok_prefix(h) {
            Result::Err(AuthFailure::MissingOrMalformedToken)
        } else {
            match parse_i64_spec(h.skip(3)) {
                Option::Some(v) => Result::Ok(ContextUser { id: v }),
                Option::None => Result::Err(AuthFailure::MissingNumericSuffix),
            }
        },
    }
}

/// Parses the designated auth header value (`None` when the header was
/// absent) into an identity, following the token grammar
/// `ok:<signed base-10 integer>`.
pub fn auth(header: &Option<String>) -> (r: Result<ContextUser, AuthFailure>)
    ensures
        r == auth_spec(header.deep_view()),
{
    match header {
        Option::None => Result::Err(AuthFailure::MissingOrMalformedToken),
        Option::Some(h) => {
            let hs = h.as_str();
            let n = hs.unicode_len();
            if n < 3 || hs.get_char(0) != 'o' || hs.get_char(1) != 'k' || hs.get_char(2) != ':' {
                Result::Err(AuthFailure::MissingOrMalformedToken)
            } else {
                let rest = hs.substring_char(3, n);
                proof {
                    assert(rest@ =~= h@.skip(3));
                }
                match parse_i64(rest) {
                    Option::Some(v) => Result::Ok(ContextUser { id: v }),
                    Option::None => Result::Err(AuthFailure::MissingNumericSuffix),
                }
            }
        },
    }
}

/// Law: a header that is absent, or whose value does not start with
/// `"ok:"`, is rejected as a missing or malformed token.
pub proof fn lemma_reject_without_ok_prefix(header: Option<Seq<char>>)
    requires
        match header {
            Option::None => true,
            Option::Some(h) => !has_ok_prefix(h),
        },
    ensures
        auth_spec(header) == Result::<ContextUser, AuthFailure>::Err(
            AuthFailure::MissingOrMalformedToken,
        ),
{
}

/// Law: a header value that starts with `"ok:"` whose remainder is not
/// a well-formed `i64` (non-numeric, empty, or out of range) yields the
/// missing-numeric-suffix failure.
pub proof fn lemma_reject_bad_suffix(h: Seq<char>)
    requires
        has_ok_prefix(h),
        parse_i64_spec(h.skip(3)) is None,
    ensures
        auth_spec(Option::Some(h)) == Result::<ContextUser, AuthFailure>::Err(
            AuthFailure::MissingNumericSuffix,
        ),
{
}

/// Law: a header value `ok:<number>` yields the identity whose id is
/// exactly that number.
pub proof fn lemma_accept_numeric_suffix(h: Seq<char>, v: i64)
    requires
        has_ok_prefix(h),
        parse_i64_spec(h.skip(3)) == Option::Some(v),
    ensures
        auth_spec(Option::Some(h)) == Result::<ContextUser, AuthFailure>::Ok(
            ContextUser { id: v },
        ),
{
}

} // verus!
