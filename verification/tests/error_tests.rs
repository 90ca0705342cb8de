use coselpro::coselpro::CoSelProDbError;
use coselpro::credentials::CredentialsError;
use coselpro::token::TokenError;

#[test]
fn credentials_error_messages() {
    assert_eq!(
        CredentialsError::UriEntryError(String::from("bad scheme")).message(),
        "CoSelPro Credentials Error: Failed to get user uri! bad scheme"
    );
    assert_eq!(
        CredentialsError::LoginEntryError(String::from("eof")).message(),
        "CoSelPro Credentials Error: Failed to get user logging! eof"
    );
    assert_eq!(
        CredentialsError::PasswordEntryError(String::from("tty")).message(),
        "CoSelPro Credentials Error: Failed to get user password! tty"
    );
}

#[test]
fn token_error_messages() {
    assert_eq!(
        TokenError::TokenSavingError(String::from("disk full")).message(),
        "CoSelPro Token Error: Failed to save token! disk full"
    );
    assert_eq!(
        TokenError::TokenLoadingError(String::from("no file")).message(),
        "CoSelPro Token Error: Failed to load token! no file"
    );
    assert_eq!(
        TokenError::TokenParsingError(String::from("boom")).message(),
        "CoSelPro Token Error: Failed to parse token! boom"
    );
}

#[test]
fn session_error_messages() {
    assert_eq!(
        CoSelProDbError::ExpiredToken.message(),
        "CoSelPro Database Error: Token expired! inactive"
    );
    assert_eq!(
        CoSelProDbError::NewToken(TokenError::TokenParsingError(String::from("x"))).message(),
        "CoSelPro Database Error: Failed to get new token! \
         CoSelPro Token Error: Failed to parse token! x"
    );
    assert_eq!(
        CoSelProDbError::RenewToken(TokenError::TokenParsingError(String::from("y"))).message(),
        "CoSelPro Database Error: Failed to renew token! \
         CoSelPro Token Error: Failed to parse token! y"
    );
}
