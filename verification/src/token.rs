//! The connection token: an opaque bearer string, an expiry instant in epoch
//! seconds, and the user's display name. Tokens render to and parse from the
//! JSON object that both the remote service and the on-disk cache use.
use crate::jsontext::lemma_expect_concat;
use crate::jsontext::lemma_scan_escape;
use crate::jsontext::lemma_scan_int_dec;
use crate::jsontext::chars_of;
use crate::jsontext::expect_lit;
use crate::jsontext::is_digit;
use crate::jsontext::push_dec_i64;
use crate::jsontext::push_escaped;
use crate::jsontext::push_lit;
use crate::jsontext::scan_int;
use crate::jsontext::scan_string;
use crate::jsontext::spec_dec_int;
use crate::jsontext::spec_escape;
use crate::jsontext::spec_expect;
use crate::jsontext::spec_scan_int;
use crate::jsontext::spec_scan_string;
use crate::jsontext::string_from_chars;
use vstd::prelude::*;
use vstd::string::StringExecFns;

verus! {

/// Failures while producing or keeping a usable token: writing the cache,
/// reading the cache back, and everything that keeps a server response from
/// decoding into a token.
#[derive(Debug, Clone)]
pub enum TokenError {
    TokenSavingError(String),
    TokenLoadingError(String),
    TokenParsingError(String),
}

/// The mathematical model of a token.
pub ghost struct TokenView {
    pub token: Seq<char>,
    pub expire: int,
    pub user_name: Seq<char>,
}

impl TokenView {
    /// The expiry instant fits the machine representation.
    pub open spec fn wf(self) -> bool {
        i64::MIN <= self.expire <= i64::MAX
    }
}

/// A bearer token issued by the remote service, with its expiry instant
/// (UTC, epoch seconds) and the user's display name.
#[derive(Debug, Clone, PartialEq)]
pub struct Token {
    token: String,
    expire: i64,
    user_name: String,
}

impl View for Token {
    type V = TokenView;

    closed spec fn view(&self) -> TokenView {
        TokenView {
            token: self.token@,
            expire: self.expire as int,
            user_name: self.user_name@,
        }
    }
}

/// The diagnostic line for a token failure: what could not be done with the
/// token, and the underlying error's text.
pub open spec fn spec_token_error_message(e: TokenError) -> Seq<char> {
    match e {
        TokenError::TokenSavingError(s) => "CoSelPro Token Error: Failed to "@ + "save"@
            + " token! "@ + s@,
        TokenError::TokenLoadingError(s) => "CoSelPro Token Error: Failed to "@ + "load"@
            + " token! "@ + s@,
        TokenError::TokenParsingError(s) => "CoSelPro Token Error: Failed to "@ + "parse"@
            + " token! "@ + s@,
    }
}

impl TokenError {
    /// The diagnostic line the surrounding application prints.
    pub fn message(&self) -> (r: String)
        ensures
            r@ == spec_token_error_message(*self),
    {
        let mut out = String::from_str("CoSelPro Token Error: Failed to ");
        match self {
            TokenError::TokenSavingError(s) => {
                out.append("save");
                out.append(" token! ");
                out.append(s.as_str());
            },
            TokenError::TokenLoadingError(s) => {
                out.append("load");
                out.append(" token! ");
                out.append(s.as_str());
            },
            TokenError::TokenParsingError(s) => {
                out.append("parse");
                out.append(" token! ");
                out.append(s.as_str());
            },
        }
        out
    }
}

/// A token is usable at instant `now` (epoch seconds) with a safety margin of
/// `margin_minutes` iff its expiry lies strictly beyond `now` plus the margin.
pub open spec fn spec_active_at(expire: int, now: int, margin_minutes: int) -> bool {
    expire > now + margin_minutes * 60
}

/// The safety margin in minutes that a caller asked for; five when left unset.
pub open spec fn spec_margin_minutes(d: Option<u8>) -> int {
    match d {
        Some(m) => m as int,
        None => 5,
    }
}

/// Expiry comparison on plain instants, exact over the mathematical model.
pub fn is_active_at(expire: i64, now: i64, margin_minutes: u8) -> (r: bool)
    ensures
        r == spec_active_at(expire as int, now as int, margin_minutes as int),
{
    (expire as i128) > (now as i128) + (margin_minutes as i128) * 60
}

/// Relies on chrono's `Utc::now` and `DateTime::timestamp`: the current UTC
/// instant in whole seconds since the epoch. Nothing is assumed of the value,
/// since a clock reading differs from call to call.
#[verifier::external_body]
pub(crate) fn now_epoch_seconds() -> i64 {
    chrono::Utc::now().timestamp()
}

/// The JSON object under which a token travels and is cached.
pub open spec fn spec_token_json(t: TokenView) -> Seq<char> {
    "{\"token\":\""@ + spec_escape(t.token) + "\""@ + ",\"expire\":"@ + spec_dec_int(t.expire)
        + ",\"user_name\":\""@ + spec_escape(t.user_name) + "\""@ + "}"@
}

/// The exact inverse reading of that object: each field in order, nothing
/// before, between or after beyond the punctuation, value out of range of the
/// machine representation rejected.
pub open spec fn spec_parse_token_json(s: Seq<char>) -> Option<TokenView> {
    match spec_expect(s, "{\"token\":\""@) {
        None => None,
        Some(s1) => match spec_scan_string(s1) {
            None => None,
            Some(p1) => match spec_expect(p1.1, ",\"expire\":"@) {
                None => None,
                Some(s2) => match spec_scan_int(s2) {
                    None => None,
                    Some(p2) => match spec_expect(p2.1, ",\"user_name\":\""@) {
                        None => None,
                        Some(p3pre) => match spec_scan_string(p3pre) {
                            None => None,
                            Some(p3) => if p3.1 == "}"@ && i64::MIN <= p2.0 <= i64::MAX {
                                Some(TokenView { token: p1.0, expire: p2.0, user_name: p3.0 })
                            } else {
                                None
                            },
                        },
                    },
                },
            },
        },
    }
}

/// A token's rendering reads back as exactly that token: saving then loading
/// returns the same value, every field preserved.
pub proof fn lemma_token_json_round_trip(t: TokenView)
    requires
        t.wf(),
    ensures
        spec_parse_token_json(spec_token_json(t)) == Some(t),
{
    let lit1 = "{\"token\":\""@;
    let q = "\""@;
    let lit2 = ",\"expire\":"@;
    let lit3 = ",\"user_name\":\""@;
    let rb = "}"@;
    reveal_strlit("{\"token\":\"");
    reveal_strlit("\"");
    reveal_strlit(",\"expire\":");
    reveal_strlit(",\"user_name\":\"");
    reveal_strlit("}");
    let s = spec_token_json(t);
    assert(q =~= seq!['"']);

    let rest4 = spec_escape(t.user_name) + seq!['"'] + rb;
    let rest3 = lit3 + rest4;
    let rest2 = spec_dec_int(t.expire) + rest3;
    let rest1 = lit2 + rest2;
    let tail1 = spec_escape(t.token) + seq!['"'] + rest1;

    assert(s =~= lit1 + tail1);
    lemma_expect_concat(lit1, tail1);
    assert(spec_expect(s, lit1) == Some(tail1));

    lemma_scan_escape(t.token, rest1);
    assert(spec_scan_string(tail1) == Some((t.token, rest1)));

    lemma_expect_concat(lit2, rest2);
    assert(spec_expect(rest1, lit2) == Some(rest2));

    assert(rest3[0] == ',');
    assert(!is_digit(','));
    lemma_scan_int_dec(t.expire, rest3);
    assert(spec_scan_int(rest2) == Some((t.expire, rest3)));

    lemma_expect_concat(lit3, rest4);
    assert(spec_expect(rest3, lit3) == Some(rest4));

    lemma_scan_escape(t.user_name, rb);
    assert(spec_scan_string(rest4) == Some((t.user_name, rb)));
}

impl Token {
    /// A token value from its parts.
    pub fn new(token: String, expire: i64, user_name: String) -> (r: Token)
        ensures
            r@ == (TokenView { token: token@, expire: expire as int, user_name: user_name@ }),
    {
        Token { token, expire, user_name }
    }

    /// The opaque bearer string.
    pub fn token(&self) -> (r: &String)
        ensures
            r@ == self@.token,
    {
        &self.token
    }

    /// The bearer string again, under the name the query layer uses.
    pub fn to_string(&self) -> (r: &String)
        ensures
            r@ == self@.token,
    {
        &self.token
    }

    /// The expiry instant, UTC epoch seconds.
    pub fn expire(&self) -> (r: i64)
        ensures
            r as int == self@.expire,
    {
        self.expire
    }

    /// The display name the server associated with the token.
    pub fn user_name(&self) -> (r: &String)
        ensures
            r@ == self@.user_name,
    {
        &self.user_name
    }

    /// Whether the token is still usable at instant `now` (epoch seconds),
    /// keeping the asked-for safety margin before the expiry; the margin is
    /// five minutes when left unset.
    pub fn active_at(&self, now: i64, safety_duration: Option<u8>) -> (r: bool)
        ensures
            r == spec_active_at(self@.expire, now as int, spec_margin_minutes(safety_duration)),
    {
        let margin: u8 = match safety_duration {
            Some(m) => m,
            None => 5,
        };
        is_active_at(self.expire, now, margin)
    }

    /// Whether the token is still usable now, with the asked-for safety
    /// margin. The clock's reading cannot stand in a contract; `active_at`
    /// carries the exact statement for a known instant.
    pub fn active(&self, safety_duration: Option<u8>) -> bool {
        self.active_at(now_epoch_seconds(), safety_duration)
    }

    /// Decodes the remote service's answer to the `login` call: a rejected
    /// status or an undecodable body is a parsing failure; otherwise the
    /// token carried by the body is returned exactly.
    pub fn from_login_response(status_ok: bool, status_err: &str, body: &str) -> (r: Result<
        Token,
        TokenError,
    >)
        ensures
            status_ok ==> match spec_parse_token_json(body@) {
                Some(tv) => r is Ok && (r->Ok_0)@ == tv,
                None => r is Err && r->Err_0 is TokenParsingError,
            },
            !status_ok ==> r is Err && r->Err_0 is TokenParsingError,
    {
        if !status_ok {
            return Err(TokenError::TokenParsingError(status_err.to_owned()));
        }
        let v = chars_of(body);
        match Self::parse_chars(&v) {
            Some(t) => Ok(t),
            None => Err(
                TokenError::TokenParsingError(
                    String::from_str("the response body does not decode into a token"),
                ),
            ),
        }
    }

    /// Decodes the remote service's answer to the `extend_token` call, and
    /// accepts it only where it keeps the service's renewal promise towards
    /// this token: the same display name and a strictly later expiry. Every
    /// accepted renewal therefore extends the token it renews.
    pub fn renewed_from_response(&self, status_ok: bool, status_err: &str, body: &str) -> (r:
        Result<Token, TokenError>)
        ensures
            r is Ok ==> (r->Ok_0)@.user_name == self@.user_name && (r->Ok_0)@.expire
                > self@.expire,
            status_ok ==> match spec_parse_token_json(body@) {
                Some(tv) => if tv.user_name == self@.user_name && tv.expire > self@.expire {
                    r is Ok && (r->Ok_0)@ == tv
                } else {
                    r is Err && r->Err_0 is TokenParsingError
                },
                None => r is Err && r->Err_0 is TokenParsingError,
            },
            !status_ok ==> r is Err && r->Err_0 is TokenParsingError,
    {
        match Self::from_login_response(status_ok, status_err, body) {
            Err(e) => Err(e),
            Ok(t) => {
                if t.user_name == self.user_name && t.expire > self.expire {
                    Ok(t)
                } else {
                    Err(
                        TokenError::TokenParsingError(
                            String::from_str(
                                "the renewal answer does not extend the token it renews",
                            ),
                        ),
                    )
                }
            },
        }
    }

    /// The JSON rendering of this token, fit for the cache file.
    pub fn to_json(&self) -> (r: String)
        ensures
            r@ == spec_token_json(self@),
    {
        let mut out: Vec<char> = Vec::new();
        push_lit(&mut out, "{\"token\":\"");
        push_escaped(&mut out, self.token.as_str());
        push_lit(&mut out, "\"");
        push_lit(&mut out, ",\"expire\":");
        push_dec_i64(&mut out, self.expire);
        push_lit(&mut out, ",\"user_name\":\"");
        push_escaped(&mut out, self.user_name.as_str());
        push_lit(&mut out, "\"");
        push_lit(&mut out, "}");
        proof {
            assert(out@ =~= spec_token_json(self@));
        }
        string_from_chars(&out)
    }

    /// Reads a token back from the cache file's contents: succeeds on exactly
    /// the renderings of tokens, and returns the very token rendered.
    pub fn from_json(s: &str) -> (r: Result<Token, TokenError>)
        ensures
            match spec_parse_token_json(s@) {
                Some(tv) => r is Ok && (r->Ok_0)@ == tv,
                None => r is Err && r->Err_0 is TokenLoadingError,
            },
    {
        let v = chars_of(s);
        match Self::parse_chars(&v) {
            Some(t) => Ok(t),
            None => Err(
                TokenError::TokenLoadingError(
                    String::from_str("the cached text does not hold a token object"),
                ),
            ),
        }
    }

    /// The shared parser under loading and response decoding.
    fn parse_chars(v: &Vec<char>) -> (r: Option<Token>)
        ensures
            match spec_parse_token_json(v@) {
                Some(tv) => r is Some && (r->0)@ == tv,
                None => r is None,
            },
    {
        proof {
            assert(v@.skip(0) =~= v@);
        }
        let i1 = match expect_lit(v, 0, "{\"token\":\"") {
            Some(i) => i,
            None => {
                return None;
            },
        };
        let (tok_chars, i2) = match scan_string(v, i1) {
            Some(p) => p,
            None => {
                return None;
            },
        };
        let i3 = match expect_lit(v, i2, ",\"expire\":") {
            Some(i) => i,
            None => {
                return None;
            },
        };
        let (expire, i4) = match scan_int(v, i3) {
            Some(p) => p,
            None => {
                return None;
            },
        };
        let i5 = match expect_lit(v, i4, ",\"user_name\":\"") {
            Some(i) => i,
            None => {
                return None;
            },
        };
        let (user_chars, i6) = match scan_string(v, i5) {
            Some(p) => p,
            None => {
                return None;
            },
        };
        let i7 = match expect_lit(v, i6, "}") {
            Some(i) => i,
            None => {
                proof {
                    reveal_strlit("}");
                    if v@.skip(i6 as int) == "}"@ {
                        lemma_expect_concat("}"@, Seq::<char>::empty());
                        assert("}"@ + Seq::<char>::empty() =~= "}"@);
                    }
                }
                return None;
            },
        };
        if i7 != v.len() {
            proof {
                reveal_strlit("}");
                assert(v@.skip(i6 as int).len() > "}"@.len());
            }
            return None;
        }
        proof {
            reveal_strlit("}");
            assert(v@.skip(i6 as int) =~= "}"@);
        }
        Some(
            Token {
                token: string_from_chars(&tok_chars),
                expire,
                user_name: string_from_chars(&user_chars),
            },
        )
    }
}

} // verus!

