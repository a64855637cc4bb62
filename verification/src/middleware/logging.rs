//! What is logged of a request's credentials.

use crate::relay::target::{bearer_key_follows_the_word, bearer_of, strip_bearer};
use crate::text::join2;
use vstd::prelude::*;

verus! {

/// The secret under which keys are hashed for the log.
pub open spec fn logging_secret(log_secret: Option<Seq<char>>) -> Seq<char> {
    match log_secret {
        Some(secret) => secret,
        None => "default-secret"@,
    }
}

/// The secret under which keys are hashed for the log.
pub fn log_hash_secret(log_secret: &Option<String>) -> (r: String)
    ensures
        r@ == logging_secret(log_secret.deep_view()),
{
    match log_secret {
        Some(secret) => secret.clone(),
        None => "default-secret".to_owned(),
    }
}

/// What is logged of an authorization header: the digest of a bearer token, and
/// nothing of any other scheme.
pub open spec fn logged_authorization(
    authorization: Option<Seq<char>>,
    digest: Seq<char>,
) -> Option<Seq<char>> {
    match authorization {
        None => None,
        Some(value) => if bearer_of(value) is Some {
            Some("Bearer "@ + digest)
        } else {
            Some("[REDACTED]"@)
        },
    }
}

/// What is logged of an authorization header. `digest` is the hash of its bearer
/// token, where it has one, under [`log_hash_secret`].
pub fn redacted_authorization(authorization: Option<&str>, digest: &str) -> (r: Option<String>)
    ensures
        r.deep_view() == logged_authorization(authorization.deep_view(), digest@),
{
    match authorization {
        None => None,
        Some(value) => match strip_bearer(value) {
            Some(_) => Some(join2("Bearer ", digest)),
            None => Some("[REDACTED]".to_owned()),
        },
    }
}

/// What is logged of a header does not depend on what it holds beyond its scheme
/// and the digest: two tokens with one digest are logged alike, and so are any
/// two values that are no bearer tokens.
pub proof fn log_holds_no_credentials(a: Seq<char>, b: Seq<char>, digest: Seq<char>)
    requires
        bearer_of(a) is Some <==> bearer_of(b) is Some,
    ensures
        logged_authorization(Some(a), digest) == logged_authorization(Some(b), digest),
{
}

/// A bearer header is logged with the digest of its token, and with nothing of any
/// other header; without a header nothing is logged.
pub proof fn authorization_is_logged_by_its_digest(key: Seq<char>, value: Seq<char>, digest: Seq<char>)
    ensures
        logged_authorization(None, digest) is None,
        logged_authorization(Some("Bearer "@ + key), digest) == Some("Bearer "@ + digest),
        bearer_of(value) is None ==> logged_authorization(Some(value), digest) == Some(
            "[REDACTED]"@,
        ),
        logging_secret(Some(key)) == key,
{
    bearer_key_follows_the_word("Bearer "@ + key, key);
}

} // verus!
