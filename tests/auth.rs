use magpie_twitter_bot::auth::{authorize_callback, callback_url, login_scopes, Error, Scope};
use magpie_twitter_bot::config::RedactedString;
use magpie_twitter_bot::oauth2_callback::{parse_callback_query, CallbackOutcome};
use magpie_twitter_bot::text::decimal_string;

#[test]
fn callback_url_names_the_port() {
    assert_eq!(callback_url(49277), "http://localhost:49277/oauth2/callback");
    assert_eq!(callback_url(0), "http://localhost:0/oauth2/callback");
    assert_eq!(callback_url(65535), "http://localhost:65535/oauth2/callback");
}

#[test]
fn decimal_string_renders_numbers() {
    assert_eq!(decimal_string(0), "0");
    assert_eq!(decimal_string(7), "7");
    assert_eq!(decimal_string(10), "10");
    assert_eq!(decimal_string(1234567890), "1234567890");
    assert_eq!(decimal_string(u64::MAX), u64::MAX.to_string());
}

#[test]
fn matching_state_is_authorized() {
    let outcome = parse_callback_query(Some("code=c0de&state=tok"));
    match authorize_callback("tok", outcome) {
        Ok(g) => assert_eq!(g.code, "c0de"),
        Err(_) => panic!("expected the grant"),
    }
}

#[test]
fn mismatched_state_is_refused() {
    let outcome = parse_callback_query(Some("code=c0de&state=other"));
    assert!(matches!(authorize_callback("tok", outcome), Err(Error::StateMismatch)));
}

#[test]
fn provider_error_and_malformed_are_refused() {
    let outcome = parse_callback_query(Some("error=access_denied"));
    match authorize_callback("tok", outcome) {
        Err(Error::Rejected(e)) => assert_eq!(e.error, "access_denied"),
        _ => panic!("expected a rejection"),
    }
    assert!(matches!(
        authorize_callback("tok", CallbackOutcome::Malformed),
        Err(Error::MalformedCallback)
    ));
}

#[test]
fn scopes_are_read_only() {
    assert_eq!(login_scopes(), vec![Scope::TweetRead, Scope::UsersRead, Scope::LikeRead]);
}

#[test]
fn redacted_string_shows_four_characters() {
    assert_eq!(RedactedString::new("abcdefgh").redacted(), "RedactedString(\"abcd***\")");
    assert_eq!(RedactedString::new("ab").redacted(), "RedactedString(\"ab***\")");
    assert_eq!(RedactedString::new(String::new()).redacted(), "RedactedString(\"***\")");
    assert_eq!(RedactedString::new("héllo wörld").redacted(), "RedactedString(\"héll***\")");
    assert_eq!(RedactedString::new("abc").0, "abc");
}
