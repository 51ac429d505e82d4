use auth_routes::auth::auth;
use auth_routes::auth::AuthFailure;

fn parse(h: &str) -> Result<i64, AuthFailure> {
    auth(&Some(String::from(h))).map(|u| u.id)
}

#[test]
fn absent_header_is_malformed() {
    assert_eq!(auth(&None), Err(AuthFailure::MissingOrMalformedToken));
}

#[test]
fn wrong_prefix_is_malformed() {
    assert_eq!(parse("bad"), Err(AuthFailure::MissingOrMalformedToken));
    assert_eq!(parse(""), Err(AuthFailure::MissingOrMalformedToken));
    assert_eq!(parse("ok"), Err(AuthFailure::MissingOrMalformedToken));
    assert_eq!(parse("OK:5"), Err(AuthFailure::MissingOrMalformedToken));
    assert_eq!(parse(" ok:5"), Err(AuthFailure::MissingOrMalformedToken));
}

#[test]
fn empty_suffix_needs_number() {
    assert_eq!(parse("ok:"), Err(AuthFailure::MissingNumericSuffix));
}

#[test]
fn non_numeric_suffix_needs_number() {
    assert_eq!(parse("ok:abc"), Err(AuthFailure::MissingNumericSuffix));
    assert_eq!(parse("ok:12x"), Err(AuthFailure::MissingNumericSuffix));
    assert_eq!(parse("ok: 12"), Err(AuthFailure::MissingNumericSuffix));
    assert_eq!(parse("ok:--3"), Err(AuthFailure::MissingNumericSuffix));
}

#[test]
fn out_of_range_suffix_needs_number() {
    assert_eq!(
        parse("ok:99999999999999999999999"),
        Err(AuthFailure::MissingNumericSuffix)
    );
    assert_eq!(
        parse("ok:9223372036854775808"),
        Err(AuthFailure::MissingNumericSuffix)
    );
}

#[test]
fn whole_remainder_must_be_numeric() {
    // everything after the first colon is the number; a second colon
    // makes the suffix malformed
    assert_eq!(parse("ok:4:2"), Err(AuthFailure::MissingNumericSuffix));
}

#[test]
fn numeric_suffix_yields_identity() {
    assert_eq!(parse("ok:42"), Ok(42));
    assert_eq!(parse("ok:-7"), Ok(-7));
    assert_eq!(parse("ok:+8"), Ok(8));
    assert_eq!(parse("ok:0"), Ok(0));
    assert_eq!(parse("ok:9223372036854775807"), Ok(i64::MAX));
    assert_eq!(parse("ok:-9223372036854775808"), Ok(i64::MIN));
}
