//! The authenticated session: a client handle, a schema name, and exactly
//! one token. Construction and every handed-out request are gated on the
//! token still being usable; renewal produces a new session and never
//! touches the old one.
use crate::credentials::Credentials;
use crate::remote::builder_auth;
use crate::remote::pg_clone;
use crate::remote::pg_from;
use crate::remote::pg_rpc;
use crate::remote::pg_schema;
use crate::remote::spec_header_safe;
use crate::token::now_epoch_seconds;
use crate::token::spec_active_at;
use crate::token::spec_parse_token_json;
use crate::token::Token;
use crate::token::TokenError;
use crate::token::TokenView;
use vstd::prelude::*;
use vstd::string::StringExecFns;

verus! {

/// What can go wrong around a session: obtaining the first token, renewing
/// it, or finding the held token expired — the only failure that needs no
/// network at all.
#[derive(Debug, Clone)]
pub enum CoSelProDbError {
    NewToken(TokenError),
    RenewToken(TokenError),
    ExpiredToken,
}

/// The diagnostic line for a session failure: which operation was being
/// attempted, and the token failure under it where there is one.
pub open spec fn spec_session_error_message(e: CoSelProDbError) -> Seq<char> {
    match e {
        CoSelProDbError::NewToken(tk) => "CoSelPro Database Error: "@ + "Failed to get new token! "@
            + crate::token::spec_token_error_message(tk),
        CoSelProDbError::RenewToken(tk) => "CoSelPro Database Error: "@ + "Failed to renew token! "@
            + crate::token::spec_token_error_message(tk),
        CoSelProDbError::ExpiredToken => "CoSelPro Database Error: "@ + "Token expired! "@
            + "inactive"@,
    }
}

impl CoSelProDbError {
    /// The diagnostic line the surrounding application prints.
    pub fn message(&self) -> (r: String)
        ensures
            r@ == spec_session_error_message(*self),
    {
        let mut out = String::from_str("CoSelPro Database Error: ");
        match self {
            CoSelProDbError::NewToken(tk) => {
                out.append("Failed to get new token! ");
                let detail = tk.message();
                out.append(detail.as_str());
            },
            CoSelProDbError::RenewToken(tk) => {
                out.append("Failed to renew token! ");
                let detail = tk.message();
                out.append(detail.as_str());
            },
            CoSelProDbError::ExpiredToken => {
                out.append("Token expired! ");
                out.append("inactive");
            },
        }
        out
    }
}

/// The mathematical model of a session: its token and its schema. The
/// client handle holds nothing a contract could read.
pub ghost struct CoSelProView {
    pub token: TokenView,
    pub schema: Seq<char>,
}

/// An authenticated session against the remote service.
pub struct CoSelPro {
    client: postgrest::Postgrest,
    token: Token,
    schema: String,
}

impl View for CoSelPro {
    type V = CoSelProView;

    closed spec fn view(&self) -> CoSelProView {
        CoSelProView { token: self.token@, schema: self.schema@ }
    }
}

/// Two accepted renewals in a row: each step keeps the display name and
/// strictly extends the expiry, so the chain's end still carries the first
/// token's name and a strictly later expiry than where the chain began —
/// while the earlier tokens stand unchanged.
pub proof fn lemma_renewal_chain(t0: TokenView, t1: TokenView, t2: TokenView)
    requires
        t1.user_name == t0.user_name,
        t1.expire > t0.expire,
        t2.user_name == t1.user_name,
        t2.expire > t1.expire,
    ensures
        t2.user_name == t0.user_name,
        t2.expire > t0.expire,
{
}

/// The `login` call for these credentials under the given schema: the
/// request that the surrounding application executes to obtain a first
/// token. The payload is built and proved in `login_payload`.
pub fn login_request(credentials: &Credentials, schema: &str) -> postgrest::Builder {
    let client = pg_schema(credentials.client(), schema);
    let payload = credentials.login_payload();
    pg_rpc(&client, "login", payload.as_str())
}

impl CoSelPro {
    /// The display name of the user this session authenticates.
    pub fn user_name(&self) -> (r: &String)
        ensures
            r@ == self@.token.user_name,
    {
        self.token.user_name()
    }

    /// The held token.
    pub fn token(&self) -> (r: &Token)
        ensures
            r@ == self@.token,
    {
        &self.token
    }

    /// The schema this session's requests target.
    pub fn schema(&self) -> (r: &String)
        ensures
            r@ == self@.schema,
    {
        &self.schema
    }

    /// The construction gate at a known instant: a session comes to be
    /// exactly when the token is usable with no safety margin; an inactive
    /// token is refused as expired, with no network involved.
    pub fn from_token_at(
        client: postgrest::Postgrest,
        token: Token,
        schema: Option<String>,
        now: i64,
    ) -> (r: Result<CoSelPro, CoSelProDbError>)
        ensures
            spec_active_at(token@.expire, now as int, 0) ==> r is Ok && (r->Ok_0)@.token == token@
                && (r->Ok_0)@.schema == (match schema {
                Some(s) => s@,
                None => "rest"@,
            }),
            !spec_active_at(token@.expire, now as int, 0) ==> r is Err
                && r->Err_0 is ExpiredToken,
    {
        if token.active_at(now, Some(0)) {
            let schema_name = match schema {
                Some(s) => s,
                None => String::from_str("rest"),
            };
            Ok(CoSelPro { client, token, schema: schema_name })
        } else {
            Err(CoSelProDbError::ExpiredToken)
        }
    }

    /// The construction gate against the clock: `from_token_at` carries the
    /// exact statement for a known instant; here only the shape of the
    /// outcome can be promised, since the clock's reading cannot.
    pub fn from_token(client: postgrest::Postgrest, token: Token, schema: Option<String>) -> (r:
        Result<CoSelPro, CoSelProDbError>)
        ensures
            r is Ok ==> (r->Ok_0)@.token == token@ && (r->Ok_0)@.schema == (match schema {
                Some(s) => s@,
                None => "rest"@,
            }),
            r is Err ==> r->Err_0 is ExpiredToken,
    {
        let now = now_epoch_seconds();
        CoSelPro::from_token_at(client, token, schema, now)
    }

    /// The `extend_token` call, authenticated by the held token: the request
    /// that the surrounding application executes to renew the session.
    pub fn renew_request(&self) -> postgrest::Builder
        requires
            spec_header_safe(self@.token.token),
    {
        let client = pg_schema(pg_clone(&self.client), self.schema.as_str());
        let builder = pg_rpc(&client, "extend_token", "");
        builder_auth(builder, self.token.to_string().as_str())
    }

    /// Accepts a renewal answer: a new session with the same client handle
    /// and schema, holding the renewed token — which provably keeps the
    /// display name and strictly extends the expiry. The session it renews
    /// is untouched.
    pub fn renew_with_response(&self, status_ok: bool, status_err: &str, body: &str) -> (r: Result<
        CoSelPro,
        CoSelProDbError,
    >)
        ensures
            r is Ok ==> (r->Ok_0)@.token.user_name == self@.token.user_name
                && (r->Ok_0)@.token.expire > self@.token.expire && (r->Ok_0)@.schema
                == self@.schema,
            r is Err ==> r->Err_0 is RenewToken,
            status_ok ==> match spec_parse_token_json(body@) {
                Some(tv) => if tv.user_name == self@.token.user_name && tv.expire
                    > self@.token.expire {
                    r is Ok && (r->Ok_0)@.token == tv
                } else {
                    r is Err
                },
                None => r is Err,
            },
            !status_ok ==> r is Err,
    {
        match self.token.renewed_from_response(status_ok, status_err, body) {
            Ok(t) => Ok(
                CoSelPro {
                    client: pg_clone(&self.client),
                    token: t,
                    schema: self.schema.clone(),
                },
            ),
            Err(e) => Err(CoSelProDbError::RenewToken(e)),
        }
    }

    /// The use gate at a known instant: the held token is handed back for a
    /// request exactly while it is usable with no safety margin.
    fn get_token_at(&self, now: i64) -> (r: Result<&Token, CoSelProDbError>)
        ensures
            spec_active_at(self@.token.expire, now as int, 0) ==> r is Ok && (r->Ok_0)@
                == self@.token,
            !spec_active_at(self@.token.expire, now as int, 0) ==> r is Err
                && r->Err_0 is ExpiredToken,
    {
        if self.token.active_at(now, Some(0)) {
            Ok(&self.token)
        } else {
            Err(CoSelProDbError::ExpiredToken)
        }
    }

    /// A request builder for the table, schema-scoped and carrying the
    /// bearer authorization — handed out only after re-checking, against the
    /// clock, that the token has not expired while the session was held.
    pub fn from(&self, table: &str) -> (r: Result<postgrest::Builder, CoSelProDbError>)
        requires
            spec_header_safe(self@.token.token),
        ensures
            r is Err ==> r->Err_0 is ExpiredToken,
    {
        let now = now_epoch_seconds();
        let token = match self.get_token_at(now) {
            Ok(t) => t,
            Err(e) => {
                return Err(e);
            },
        };
        let client = pg_schema(pg_clone(&self.client), self.schema.as_str());
        let builder = pg_from(&client, table);
        Ok(builder_auth(builder, token.to_string().as_str()))
    }

    /// A request builder for the named remote procedure with the given JSON
    /// payload, schema-scoped and carrying the bearer authorization.
    pub fn rpc_request(&self, function: &str, params: &str) -> postgrest::Builder
        requires
            spec_header_safe(self@.token.token),
    {
        let client = pg_schema(pg_clone(&self.client), self.schema.as_str());
        let builder = pg_rpc(&client, function, params);
        builder_auth(builder, self.token.to_string().as_str())
    }
}

} // verus!
