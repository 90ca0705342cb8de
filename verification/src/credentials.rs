//! Credentials: the target endpoint, a case-normalized login, and the raw
//! password, held only in memory. The password travels as a fixed digest
//! dictated by the remote server's expected hashed-password format.
use crate::jsontext::push_escaped;
use crate::jsontext::push_lit;
use crate::jsontext::spec_escape;
use crate::jsontext::string_from_chars;
use vstd::prelude::*;
use vstd::string::StringExecFns;

verus! {

/// A malformed endpoint, or a failed interactive entry of one of the three
/// fields, each carrying the underlying error's text.
#[derive(Debug, Clone)]
pub enum CredentialsError {
    UriEntryError(String),
    LoginEntryError(String),
    PasswordEntryError(String),
}

/// The diagnostic line for a credentials failure: which field's entry went
/// wrong, and the underlying error's text.
pub open spec fn spec_credentials_error_message(e: CredentialsError) -> Seq<char> {
    match e {
        CredentialsError::UriEntryError(s) => "CoSelPro Credentials Error: Failed to get user "@
            + "uri"@ + "! "@ + s@,
        CredentialsError::LoginEntryError(s) => "CoSelPro Credentials Error: Failed to get user "@
            + "logging"@ + "! "@ + s@,
        CredentialsError::PasswordEntryError(s) => "CoSelPro Credentials Error: Failed to get user "@
            + "password"@ + "! "@ + s@,
    }
}

impl CredentialsError {
    /// The diagnostic line the surrounding application prints.
    pub fn message(&self) -> (r: String)
        ensures
            r@ == spec_credentials_error_message(*self),
    {
        let mut out = String::from_str("CoSelPro Credentials Error: Failed to get user ");
        match self {
            CredentialsError::UriEntryError(s) => {
                out.append("uri");
                out.append("! ");
                out.append(s.as_str());
            },
            CredentialsError::LoginEntryError(s) => {
                out.append("logging");
                out.append("! ");
                out.append(s.as_str());
            },
            CredentialsError::PasswordEntryError(s) => {
                out.append("password");
                out.append("! ");
                out.append(s.as_str());
            },
        }
        out
    }
}

/// Whether a text parses as a well-formed URI.
pub uninterp spec fn is_valid_uri(s: Seq<char>) -> bool;

/// The lower-case folding of a text.
pub uninterp spec fn lower_of(s: Seq<char>) -> Seq<char>;

/// The MD5 digest of a text's bytes, as lowercase hexadecimal characters.
pub uninterp spec fn md5_hex_of(s: Seq<char>) -> Seq<char>;

/// Relies on http's `Uri::from_str`: `None` exactly when the text parses as
/// a URI, otherwise the parse error's text.
#[verifier::external_body]
fn uri_error_of(s: &str) -> (r: Option<String>)
    ensures
        r is None <==> is_valid_uri(s@),
{
    match <http::Uri as core::str::FromStr>::from_str(s) {
        Ok(_) => None,
        Err(e) => Some(format!("{}", e)),
    }
}

/// Relies on str's `to_lowercase`: the folding depends on the characters
/// alone, and an empty text stays empty.
#[verifier::external_body]
fn lowercase_of(s: &str) -> (r: String)
    ensures
        r@ == lower_of(s@),
        s@.len() == 0 ==> r@.len() == 0,
{
    s.to_lowercase()
}

/// Relies on md5's `compute` and its `LowerHex` rendering: the sixteen digest
/// bytes of the input's bytes as thirty-two lowercase hexadecimal characters,
/// a function of the input alone.
#[verifier::external_body]
fn md5_hex(s: &str) -> (r: String)
    ensures
        r@ == md5_hex_of(s@),
        r@.len() == 32,
{
    format!("{:x}", md5::compute(s.as_bytes()))
}

/// The mathematical model of a credential set.
pub ghost struct CredentialsView {
    pub host: Seq<char>,
    pub login: Seq<char>,
    pub password: Seq<char>,
}

/// A target endpoint, a login already folded to lower case, and a password.
/// Never persisted.
#[derive(Debug, Clone)]
pub struct Credentials {
    host: String,
    login: String,
    password: String,
}

impl View for Credentials {
    type V = CredentialsView;

    closed spec fn view(&self) -> CredentialsView {
        CredentialsView { host: self.host@, login: self.login@, password: self.password@ }
    }
}

/// The digest under which the password travels: the literal tag `md5`
/// followed by the hexadecimal MD5 of password-then-login. A fixed wire
/// contract of the remote server, not a security boundary.
pub open spec fn spec_password_digest(c: CredentialsView) -> Seq<char> {
    "md5"@ + md5_hex_of(c.password + c.login)
}

/// The body of the `login` remote procedure call.
pub open spec fn spec_login_payload(c: CredentialsView) -> Seq<char> {
    "{\"username\":\""@ + spec_escape(c.login) + "\""@ + ",\"pass\":\""@ + spec_escape(
        spec_password_digest(c),
    ) + "\""@ + "}"@
}

impl Credentials {
    /// Accepts the endpoint only when it is a well-formed URI, and folds the
    /// login to lower case; the password is kept as given.
    pub fn new(address: &str, login: &str, password: &str) -> (r: Result<
        Credentials,
        CredentialsError,
    >)
        ensures
            is_valid_uri(address@) ==> r is Ok && (r->Ok_0)@ == (CredentialsView {
                host: address@,
                login: lower_of(login@),
                password: password@,
            }),
            !is_valid_uri(address@) ==> r is Err && r->Err_0 is UriEntryError,
    {
        match uri_error_of(address) {
            Some(e) => Err(CredentialsError::UriEntryError(e)),
            None => Ok(
                Credentials {
                    host: address.to_owned(),
                    login: lowercase_of(login),
                    password: password.to_owned(),
                },
            ),
        }
    }

    /// The login, as held: already lower case.
    pub fn get_login(&self) -> (r: &String)
        ensures
            r@ == self@.login,
    {
        &self.login
    }

    /// The endpoint address, as validated at construction.
    pub fn get_host(&self) -> (r: &String)
        ensures
            r@ == self@.host,
    {
        &self.host
    }

    /// The password digest for transmission: deterministic in the
    /// credentials, bit-exact to the server's expectation.
    pub fn get_password_md5(&self) -> (r: String)
        ensures
            r@ == spec_password_digest(self@),
    {
        let mut wrd: String = self.password.clone();
        wrd.append(self.login.as_str());
        let hex = md5_hex(wrd.as_str());
        let mut out = String::from_str("md5");
        out.append(hex.as_str());
        out
    }

    /// The exact body of the `login` remote procedure call for these
    /// credentials.
    pub fn login_payload(&self) -> (r: String)
        ensures
            r@ == spec_login_payload(self@),
    {
        let digest = self.get_password_md5();
        let mut out: Vec<char> = Vec::new();
        push_lit(&mut out, "{\"username\":\"");
        push_escaped(&mut out, self.login.as_str());
        push_lit(&mut out, "\"");
        push_lit(&mut out, ",\"pass\":\"");
        push_escaped(&mut out, digest.as_str());
        push_lit(&mut out, "\"");
        push_lit(&mut out, "}");
        proof {
            assert(out@ =~= spec_login_payload(self@));
        }
        string_from_chars(&out)
    }

    /// A client handle for the endpoint these credentials target.
    pub fn client(&self) -> postgrest::Postgrest {
        crate::remote::pg_new(self.host.as_str())
    }
}

} // verus!
