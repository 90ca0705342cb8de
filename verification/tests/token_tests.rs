use coselpro::token::Token;
use coselpro::token::TokenError;

#[test]
fn token_json_is_exact() {
    let t = Token::new(
        String::from("abc123"),
        1234567890,
        String::from("Jean Meyer"),
    );
    assert_eq!(
        t.to_json(),
        "{\"token\":\"abc123\",\"expire\":1234567890,\"user_name\":\"Jean Meyer\"}"
    );
}

#[test]
fn token_json_round_trip() {
    let t = Token::new(
        String::from("abc123"),
        1234567890,
        String::from("Jean Meyer"),
    );
    let back = Token::from_json(&t.to_json()).unwrap();
    assert_eq!(back, t);
}

#[test]
fn token_json_round_trip_awkward_values() {
    let t = Token::new(
        String::from("a\"b\\c\u{00e9}"),
        -62135596800,
        String::from("Z\u{00fc}rich \\ \"ops\""),
    );
    let back = Token::from_json(&t.to_json()).unwrap();
    assert_eq!(back, t);
}

#[test]
fn token_json_round_trip_extremes() {
    for expire in [i64::MIN, -1, 0, 1, i64::MAX] {
        let t = Token::new(String::new(), expire, String::new());
        let back = Token::from_json(&t.to_json()).unwrap();
        assert_eq!(back, t);
    }
}

#[test]
fn token_json_rejects_malformed_text() {
    let bad = [
        "",
        "{}",
        "{\"token\":\"a\",\"expire\":1,\"user_name\":\"u\"",
        "{\"token\":\"a\",\"expire\":1,\"user_name\":\"u\"} ",
        "{\"token\":\"a\",\"expire\":,\"user_name\":\"u\"}",
        "{\"token\":\"a\",\"expire\":1.5,\"user_name\":\"u\"}",
        "{\"token\":\"a\\x\",\"expire\":1,\"user_name\":\"u\"}",
        "{\"expire\":1,\"token\":\"a\",\"user_name\":\"u\"}",
        "{\"token\":\"a\",\"expire\":99999999999999999999,\"user_name\":\"u\"}",
        "{\"token\":\"a\",\"expire\":-99999999999999999999,\"user_name\":\"u\"}",
    ];
    for text in bad {
        let r = Token::from_json(text);
        assert!(matches!(r, Err(TokenError::TokenLoadingError(_))), "{}", text);
    }
}

#[test]
fn token_json_accepts_extra_zeros_in_expire() {
    let r = Token::from_json("{\"token\":\"a\",\"expire\":007,\"user_name\":\"u\"}").unwrap();
    assert_eq!(r.expire(), 7);
    let r = Token::from_json("{\"token\":\"a\",\"expire\":-007,\"user_name\":\"u\"}").unwrap();
    assert_eq!(r.expire(), -7);
}

#[test]
fn expiry_boundary_margins() {
    let now: i64 = 1_000_000;
    let t = Token::new(String::from("tok"), now + 240, String::from("u"));
    assert!(!t.active_at(now, Some(5)));
    assert!(t.active_at(now, Some(3)));
}

#[test]
fn expiry_boundary_is_strict() {
    let now: i64 = 1_000_000;
    let exactly_at_margin = Token::new(String::from("tok"), now + 300, String::from("u"));
    assert!(!exactly_at_margin.active_at(now, None));
    let just_past_margin = Token::new(String::from("tok"), now + 301, String::from("u"));
    assert!(just_past_margin.active_at(now, None));
}

#[test]
fn expiry_against_the_clock() {
    let now = chrono::Utc::now().timestamp();
    let fresh = Token::new(String::from("tok"), now + 240, String::from("u"));
    assert!(!fresh.active(Some(5)));
    assert!(fresh.active(Some(3)));
    let long_lived = Token::new(String::from("tok"), i64::MAX, String::from("u"));
    assert!(long_lived.active(None));
    let ancient = Token::new(String::from("tok"), i64::MIN, String::from("u"));
    assert!(!ancient.active(Some(0)));
}

#[test]
fn login_response_rejected_status() {
    let r = Token::from_login_response(false, "HTTP 401", "");
    assert!(matches!(r, Err(TokenError::TokenParsingError(_))));
}

#[test]
fn login_response_good_body() {
    let body = "{\"token\":\"bearer-1\",\"expire\":2000000000,\"user_name\":\"consult\"}";
    let t = Token::from_login_response(true, "", body).unwrap();
    assert_eq!(t.token(), "bearer-1");
    assert_eq!(t.expire(), 2000000000);
    assert_eq!(t.user_name(), "consult");
}

#[test]
fn login_response_undecodable_body() {
    let r = Token::from_login_response(true, "", "{\"unexpected\":true}");
    assert!(matches!(r, Err(TokenError::TokenParsingError(_))));
}

#[test]
fn renewal_must_extend_the_token() {
    let old = Token::new(String::from("tok"), 100, String::from("u"));

    let later = "{\"token\":\"tok2\",\"expire\":200,\"user_name\":\"u\"}";
    let renewed = old.renewed_from_response(true, "", later).unwrap();
    assert_eq!(renewed.user_name(), "u");
    assert_eq!(renewed.expire(), 200);

    let earlier = "{\"token\":\"tok2\",\"expire\":50,\"user_name\":\"u\"}";
    assert!(matches!(
        old.renewed_from_response(true, "", earlier),
        Err(TokenError::TokenParsingError(_))
    ));

    let same_instant = "{\"token\":\"tok2\",\"expire\":100,\"user_name\":\"u\"}";
    assert!(matches!(
        old.renewed_from_response(true, "", same_instant),
        Err(TokenError::TokenParsingError(_))
    ));

    let other_user = "{\"token\":\"tok2\",\"expire\":200,\"user_name\":\"someone else\"}";
    assert!(matches!(
        old.renewed_from_response(true, "", other_user),
        Err(TokenError::TokenParsingError(_))
    ));

    let failed = old.renewed_from_response(false, "HTTP 503", later);
    assert!(matches!(failed, Err(TokenError::TokenParsingError(_))));
}
