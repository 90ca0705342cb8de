use coselpro::credentials::Credentials;
use coselpro::credentials::CredentialsError;

const UNIT_TEST_POSTGREST_SERVER: &str = "http://proliant:3000";

#[test]
fn api_get_password() {
    let cred = Credentials::new(UNIT_TEST_POSTGREST_SERVER, "consult", "consult").unwrap();
    assert_eq!(
        cred.get_password_md5(),
        "md55e73b42456347af1be4be2d0c8eda64a"
    );
}

#[test]
fn credentials_get_password() {
    let cred = Credentials::new(UNIT_TEST_POSTGREST_SERVER, "consult", "consult").unwrap();
    assert_eq!(
        cred.get_password_md5(),
        "md55e73b42456347af1be4be2d0c8eda64a"
    );
}

#[test]
fn login_is_lowercased() {
    let cred = Credentials::new(UNIT_TEST_POSTGREST_SERVER, "CONSULT", "consult").unwrap();
    assert_eq!(cred.get_login(), "consult");
    assert_eq!(
        cred.get_password_md5(),
        "md55e73b42456347af1be4be2d0c8eda64a"
    );
}

#[test]
fn malformed_uri_is_rejected() {
    let r = Credentials::new("not a uri at all", "consult", "consult");
    assert!(matches!(r, Err(CredentialsError::UriEntryError(_))));
}

#[test]
fn valid_uri_is_accepted() {
    let r = Credentials::new("https://example.com:8443/base", "user", "pw");
    assert!(r.is_ok());
    assert_eq!(r.unwrap().get_host(), "https://example.com:8443/base");
}

#[test]
fn login_payload_is_exact() {
    let cred = Credentials::new(UNIT_TEST_POSTGREST_SERVER, "consult", "consult").unwrap();
    assert_eq!(
        cred.login_payload(),
        "{\"username\":\"consult\",\"pass\":\"md55e73b42456347af1be4be2d0c8eda64a\"}"
    );
}

#[test]
fn login_payload_escapes_the_login() {
    let cred = Credentials::new(UNIT_TEST_POSTGREST_SERVER, "a\"b\\c", "pw").unwrap();
    let payload = cred.login_payload();
    assert!(payload.starts_with("{\"username\":\"a\\\"b\\\\c\",\"pass\":\"md5"));
}
