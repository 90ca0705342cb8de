use coselpro::coselpro::CoSelPro;
use coselpro::coselpro::CoSelProDbError;
use coselpro::crosses::XCompanyRequest;
use coselpro::token::Token;
use postgrest::Postgrest;

const UNIT_TEST_POSTGREST_SERVER: &str = "http://proliant:3000";

fn client() -> Postgrest {
    Postgrest::new(UNIT_TEST_POSTGREST_SERVER)
}

#[test]
fn expired_token_session_fails_without_network() {
    let past = chrono::Utc::now().timestamp() - 3600;
    let token = Token::new(String::from("tok"), past, String::from("u"));
    let r = CoSelPro::from_token(client(), token, None);
    assert!(matches!(r, Err(CoSelProDbError::ExpiredToken)));
}

#[test]
fn construction_gate_at_a_known_instant() {
    let now: i64 = 1_000_000;
    let live = Token::new(String::from("tok"), now + 1, String::from("u"));
    assert!(CoSelPro::from_token_at(client(), live, None, now).is_ok());

    let dead = Token::new(String::from("tok"), now, String::from("u"));
    let r = CoSelPro::from_token_at(client(), dead, None, now);
    assert!(matches!(r, Err(CoSelProDbError::ExpiredToken)));
}

#[test]
fn session_carries_token_and_default_schema() {
    let future = chrono::Utc::now().timestamp() + 3600;
    let token = Token::new(String::from("tok"), future, String::from("consult"));
    let s = CoSelPro::from_token(client(), token, None).unwrap();
    assert_eq!(s.user_name(), "consult");
    assert_eq!(s.schema(), "rest");
    assert_eq!(s.token().token(), "tok");
}

#[test]
fn session_takes_an_explicit_schema() {
    let future = chrono::Utc::now().timestamp() + 3600;
    let token = Token::new(String::from("tok"), future, String::from("consult"));
    let s = CoSelPro::from_token(client(), token, Some(String::from("audit"))).unwrap();
    assert_eq!(s.schema(), "audit");
}

#[test]
fn renewal_chain_increases_expiry_and_keeps_the_name() {
    let now = chrono::Utc::now().timestamp();
    let token = Token::new(String::from("tok0"), now + 3600, String::from("jmeyer"));
    let s0 = CoSelPro::from_token(client(), token, None).unwrap();

    let body1 = format!(
        "{{\"token\":\"tok1\",\"expire\":{},\"user_name\":\"jmeyer\"}}",
        now + 7200
    );
    let s1 = s0.renew_with_response(true, "", &body1).unwrap();

    let body2 = format!(
        "{{\"token\":\"tok2\",\"expire\":{},\"user_name\":\"jmeyer\"}}",
        now + 10800
    );
    let s2 = s1.renew_with_response(true, "", &body2).unwrap();

    assert!(s1.token().expire() > s0.token().expire());
    assert!(s2.token().expire() > s1.token().expire());
    assert_eq!(s0.user_name(), "jmeyer");
    assert_eq!(s1.user_name(), "jmeyer");
    assert_eq!(s2.user_name(), "jmeyer");

    // the starting session is untouched and still usable on its own
    assert_eq!(s0.token().token(), "tok0");
    assert_eq!(s0.token().expire(), now + 3600);
}

#[test]
fn renewal_rejection_is_wrapped() {
    let now = chrono::Utc::now().timestamp();
    let token = Token::new(String::from("tok0"), now + 3600, String::from("jmeyer"));
    let s0 = CoSelPro::from_token(client(), token, None).unwrap();
    let r = s0.renew_with_response(false, "HTTP 503", "");
    assert!(matches!(r, Err(CoSelProDbError::RenewToken(_))));
}

#[test]
fn table_request_rechecks_expiry() {
    let now: i64 = 1_000_000;
    let stale = Token::new(String::from("tok"), now + 1, String::from("u"));
    let s = CoSelPro::from_token_at(client(), stale, None, now).unwrap();
    let r = s.from("users");
    assert!(matches!(r, Err(CoSelProDbError::ExpiredToken)));
}

#[test]
fn table_request_from_a_live_session() {
    let future = chrono::Utc::now().timestamp() + 3600;
    let token = Token::new(String::from("tok"), future, String::from("consult"));
    let s = CoSelPro::from_token(client(), token, None).unwrap();
    assert!(s.from("users").is_ok());
}

#[test]
fn xcompany_request_without_filters() {
    let req = XCompanyRequest {
        company: String::from("ti"),
        division_ids: None,
        xcompany_type_ids: None,
    };
    assert_eq!(
        req.to_string(),
        "{\"company\":\"ti\",\"division_ids\":null,\"xcompany_type_ids\":null}"
    );
}

#[test]
fn xcompany_request_with_filters() {
    let req = XCompanyRequest {
        company: String::from("a\"d"),
        division_ids: Some(vec![1, 2, 30]),
        xcompany_type_ids: Some(vec![-4]),
    };
    assert_eq!(
        req.to_string(),
        "{\"company\":\"a\\\"d\",\"division_ids\":[1,2,30],\"xcompany_type_ids\":[-4]}"
    );
}
