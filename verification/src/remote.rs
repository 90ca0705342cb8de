//! Declarations of, and thin wrappers over, the postgrest client crate: the
//! opaque client and request-builder handles that sessions carry and hand
//! out. The handles hold nothing a contract could read, so the wrappers
//! promise nothing; what matters is proved where the plain values around
//! them are built and checked.
use vstd::prelude::*;

verus! {

#[verifier::external_type_specification]
#[verifier::external_body]
pub struct ExPostgrest(postgrest::Postgrest);

#[verifier::external_type_specification]
#[verifier::external_body]
pub struct ExBuilder(postgrest::Builder);

/// Text that can stand in an HTTP header value without making the header
/// constructor panic: visible ASCII, space and horizontal tab.
pub open spec fn spec_header_safe(s: Seq<char>) -> bool {
    forall|i: int| 0 <= i < s.len() ==> (' ' <= #[trigger] s[i] <= '~') || s[i] == '\t'
}

/// Exec check of `spec_header_safe`, exact.
pub fn header_safe(s: &str) -> (r: bool)
    ensures
        r == spec_header_safe(s@),
{
    let v = crate::jsontext::chars_of(s);
    let mut i: usize = 0;
    while i < v.len()
        invariant
            i <= v@.len(),
            v@ == s@,
            forall|k: int| 0 <= k < i ==> (' ' <= #[trigger] s@[k] <= '~') || s@[k] == '\t',
        decreases v@.len() - i,
    {
        let c = v[i];
        if !((' ' <= c && c <= '~') || c == '\t') {
            return false;
        }
        i = i + 1;
    }
    true
}

/// Relies on postgrest's `Postgrest::new`: a fresh client handle for the
/// endpoint. (Creating the underlying HTTP client aborts only if no TLS
/// backend can start at all, an unrecoverable environment failure.)
#[verifier::external_body]
pub(crate) fn pg_new(url: &str) -> postgrest::Postgrest {
    postgrest::Postgrest::new(url)
}

/// Relies on postgrest's `Postgrest::schema`: the same client, switched to
/// the given schema.
#[verifier::external_body]
pub(crate) fn pg_schema(client: postgrest::Postgrest, schema: &str) -> postgrest::Postgrest {
    client.schema(schema)
}

/// Relies on `Postgrest` being `Clone`: an equivalent handle to the same
/// endpoint and schema.
#[verifier::external_body]
pub(crate) fn pg_clone(client: &postgrest::Postgrest) -> postgrest::Postgrest {
    client.clone()
}

/// Relies on postgrest's `Postgrest::from`: a request builder for the table.
#[verifier::external_body]
pub(crate) fn pg_from(client: &postgrest::Postgrest, table: &str) -> postgrest::Builder {
    client.from(table)
}

/// Relies on postgrest's `Postgrest::rpc`: a request builder for the named
/// remote procedure, carrying the given JSON payload.
#[verifier::external_body]
pub(crate) fn pg_rpc(
    client: &postgrest::Postgrest,
    function: &str,
    params: &str,
) -> postgrest::Builder {
    client.rpc(function, params)
}

/// Relies on postgrest's `Builder::auth`: the same request with its bearer
/// authorization set. The header constructor inside rejects control
/// characters, on which `auth` would panic; the tokens admitted here are
/// kept well inside what a header value accepts.
#[verifier::external_body]
pub(crate) fn builder_auth(builder: postgrest::Builder, token: &str) -> postgrest::Builder
    requires
        spec_header_safe(token@),
{
    builder.auth(token)
}

} // verus!
