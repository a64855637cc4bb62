//! Authentication of the admin API, and its guard against forged requests.

use crate::error::{error_of, Error, ErrorKind, ErrorView};
use crate::relay::target::{bearer_key_follows_the_word, bearer_of, strip_bearer};
use crate::text::{
    as_deref, find_char, lemma_index_of_first, same, split, split_on, starts_with, trim, trimmed,
    without_prefix,
};
use vstd::prelude::*;
use vstd::string::StrSliceExecFns;
use vstd::utf8::encode_utf8_decode_utf8;

verus! {

/// The cookie of an admin session.
pub const ADMIN_COOKIE_NAME: &'static str = "admin_session";

/// The cookie that holds the token against forged requests.
pub const ADMIN_CSRF_COOKIE_NAME: &'static str = "admin_csrf";

/// The header that repeats the token against forged requests.
pub const ADMIN_CSRF_HEADER_NAME: &'static str = "x-csrf-token";

/// Whether two byte strings are equal, in a time that depends on their lengths
/// alone.
pub fn constant_time_equal(left: &[u8], right: &[u8]) -> (r: bool)
    ensures
        r == (left@ == right@),
{
    if left.len() != right.len() {
        return false;
    }
    let mut diff: u8 = 0;
    let mut i: usize = 0;
    while i < left.len()
        invariant
            i <= left.len(),
            left.len() == right.len(),
            diff == 0 <==> (forall|j: int| 0 <= j < i ==> left@[j] == right@[j]),
        decreases left.len() - i,
    {
        let a: u8 = left[i];
        let b: u8 = right[i];
        assert((diff | (a ^ b)) == 0 <==> (diff == 0 && a == b)) by (bit_vector);
        diff = diff | (a ^ b);
        i = i + 1;
    }
    assert(diff == 0 ==> left@ =~= right@);
    diff == 0
}

fn same_in_constant_time(left: &str, right: &str) -> (r: bool)
    ensures
        r == (left@ == right@),
{
    proof {
        encode_utf8_decode_utf8(left@);
        encode_utf8_decode_utf8(right@);
    }
    constant_time_equal(left.as_bytes(), right.as_bytes())
}

/// Whether `argon2` takes a password for the one that a hash was made of.
pub uninterp spec fn argon2_accepts(hash: Seq<char>, candidate: Seq<char>) -> bool;

/// `PasswordHash::new` and `Argon2::verify_password` of the `argon2` crate:
/// whether the hash can be read and was made of this password. The answer is
/// named, not described.
#[verifier::external_body]
fn verify_argon2_password(hash: &str, candidate: &str) -> (r: bool)
    ensures
        r == argon2_accepts(hash@, candidate@),
{
    match argon2::password_hash::PasswordHash::new(hash) {
        Ok(parsed) => argon2::password_hash::PasswordVerifier::verify_password(
            &argon2::Argon2::default(),
            candidate.as_bytes(),
            &parsed,
        ).is_ok(),
        Err(_) => false,
    }
}

/// Whether a configured password is stored as a hash.
pub open spec fn is_argon2_hash(expected: Seq<char>) -> bool {
    without_prefix(expected, "$argon2"@) is Some
}

/// Whether a password is the configured one, given what `argon2` says of it.
pub open spec fn password_matches(
    expected: Seq<char>,
    provided: Seq<char>,
    accepted: bool,
) -> bool {
    if is_argon2_hash(expected) {
        accepted
    } else {
        provided == expected
    }
}

/// Whether a request carries the configured password as its bearer token.
pub open spec fn carries_password(
    authorization: Option<Seq<char>>,
    expected: Option<Seq<char>>,
) -> bool {
    expected matches Some(expected) && authorization matches Some(value) && bearer_of(
        value,
    ) matches Some(provided) && password_matches(
        expected,
        provided,
        argon2_accepts(expected, provided),
    )
}

/// Whether a password is the configured one. `accepted` is what `argon2` says
/// of it, and counts only for a password that is stored as a hash.
pub fn check_password(expected: &str, provided: &str, accepted: bool) -> (r: bool)
    ensures
        r == password_matches(expected@, provided@, accepted),
{
    if starts_with(expected, "$argon2") {
        accepted
    } else {
        same_in_constant_time(expected, provided)
    }
}

/// Whether a request carries the configured password.
pub fn matches_admin_password(authorization: Option<&str>, expected_password: &str) -> (r: bool)
    ensures
        r == carries_password(authorization.deep_view(), Some(expected_password@)),
{
    let provided = match authorization {
        Some(value) => match strip_bearer(value) {
            Some(provided) => provided,
            None => {
                return false;
            },
        },
        None => {
            return false;
        },
    };
    let accepted = if starts_with(expected_password, "$argon2") {
        verify_argon2_password(expected_password, provided)
    } else {
        false
    };
    check_password(expected_password, provided, accepted)
}

/// Whether a request carries the configured password; it cannot where none is
/// configured.
pub fn is_local_password_auth_valid(
    authorization: Option<&str>,
    admin_password: Option<&str>,
) -> (r: bool)
    ensures
        r == carries_password(authorization.deep_view(), admin_password.deep_view()),
{
    match admin_password {
        Some(expected) => matches_admin_password(authorization, expected),
        None => false,
    }
}

/// Whether a method can change anything.
pub open spec fn changes_state(method: Seq<char>) -> bool {
    method == "POST"@ || method == "PUT"@ || method == "PATCH"@ || method == "DELETE"@
}

/// Whether a method can change anything.
pub fn is_state_changing_method(method: &str) -> (r: bool)
    ensures
        r == changes_state(method@),
{
    same(method, "POST") || same(method, "PUT") || same(method, "PATCH") || same(method, "DELETE")
}

/// The value that a part of a cookie header gives to a name, where it is of that
/// name.
pub open spec fn cookie_in_part(part: Seq<char>, name: Seq<char>) -> Option<Seq<char>> {
    let text = trimmed(part);
    match text.index_of_first('=') {
        Some(i) => if trimmed(text.take(i)) == name {
            Some(trimmed(text.skip(i + 1)))
        } else {
            None
        },
        None => None,
    }
}

/// The first value that the parts of a cookie header give to a name.
pub open spec fn cookie_in_parts(parts: Seq<Seq<char>>, name: Seq<char>) -> Option<Seq<char>>
    decreases parts.len(),
{
    if parts.len() == 0 {
        None
    } else {
        match cookie_in_part(parts[0], name) {
            Some(value) => Some(value),
            None => cookie_in_parts(parts.drop_first(), name),
        }
    }
}

/// The first value that cookie headers give to a name.
pub open spec fn cookie_among(headers: Seq<Seq<char>>, name: Seq<char>) -> Option<Seq<char>>
    decreases headers.len(),
{
    if headers.len() == 0 {
        None
    } else {
        match cookie_in_parts(split_on(headers[0], ';'), name) {
            Some(value) => Some(value),
            None => cookie_among(headers.drop_first(), name),
        }
    }
}

fn read_cookie_part(part: &str, name: &str) -> (r: Option<String>)
    ensures
        r.deep_view() == cookie_in_part(part@, name@),
{
    let text = trim(part);
    match find_char(text, '=') {
        Some(i) => {
            let length: usize = text.unicode_len();
            let key = text.substring_char(0, i);
            let value = text.substring_char(i + 1, length);
            assert(key@ =~= text@.take(i as int));
            assert(value@ =~= text@.skip(i + 1));
            if same(trim(key), name) {
                Some(trim(value).to_owned())
            } else {
                None
            }
        },
        None => None,
    }
}

fn read_cookie_header(header: &str, name: &str) -> (r: Option<String>)
    ensures
        r.deep_view() == cookie_in_parts(split_on(header@, ';'), name@),
{
    let parts = split(header, ';');
    let ghost views = parts.deep_view();
    let mut i: usize = 0;
    assert(views.skip(0) =~= views);
    while i < parts.len()
        invariant
            i <= parts.len(),
            views == parts.deep_view(),
            views == split_on(header@, ';'),
            cookie_in_parts(views, name@) == cookie_in_parts(views.skip(i as int), name@),
        decreases parts.len() - i,
    {
        assert(views.skip(i as int)[0] == parts@[i as int]@);
        assert(views.skip(i as int).drop_first() =~= views.skip(i + 1));
        if let Some(value) = read_cookie_part(parts[i].as_str(), name) {
            return Some(value);
        }
        i = i + 1;
    }
    None
}

/// The first value that the cookie headers of a request give to a name.
pub fn extract_cookie(headers: &Vec<String>, name: &str) -> (r: Option<String>)
    ensures
        r.deep_view() == cookie_among(headers.deep_view(), name@),
{
    let ghost views = headers.deep_view();
    let mut i: usize = 0;
    assert(views.skip(0) =~= views);
    while i < headers.len()
        invariant
            i <= headers.len(),
            views == headers.deep_view(),
            cookie_among(views, name@) == cookie_among(views.skip(i as int), name@),
        decreases headers.len() - i,
    {
        assert(views.skip(i as int)[0] == headers@[i as int]@);
        assert(views.skip(i as int).drop_first() =~= views.skip(i + 1));
        if let Some(value) = read_cookie_header(headers[i].as_str(), name) {
            return Some(value);
        }
        i = i + 1;
    }
    None
}

/// Whether a request is not forged: one with a session cookie has to repeat the
/// token of its other cookie in a header. One without a session comes from no
/// browser.
pub open spec fn is_unforged(cookies: Seq<Seq<char>>, csrf_header: Option<Seq<char>>) -> bool {
    cookie_among(cookies, "admin_session"@) is Some ==> csrf_header is Some && csrf_header
        == cookie_among(cookies, "admin_csrf"@)
}

/// Whether a request is not forged.
pub fn is_csrf_valid(cookies: &Vec<String>, csrf_header: Option<&str>) -> (r: bool)
    ensures
        r == is_unforged(cookies.deep_view(), csrf_header.deep_view()),
{
    if extract_cookie(cookies, ADMIN_COOKIE_NAME).is_none() {
        return true;
    }
    let csrf_header = match csrf_header {
        Some(token) => token,
        None => {
            return false;
        },
    };
    match extract_cookie(cookies, ADMIN_CSRF_COOKIE_NAME) {
        Some(token) => same_in_constant_time(csrf_header, token.as_str()),
        None => false,
    }
}

/// What an admin request is checked by. `cookies` are its cookie headers.
#[derive(Debug)]
pub struct AdminRequest {
    pub method: String,
    pub authorization: Option<String>,
    pub cookies: Vec<String>,
    pub csrf_header: Option<String>,
}

/// What is to be done with an admin request.
#[derive(Debug)]
pub enum AdminVerdict {
    Pass,
    /// Answer with this error.
    Refuse { error: Error },
    /// Answer with this error under status 403.
    Forbid { error: Error },
}

/// The mathematical value of an [`AdminVerdict`].
#[verifier::ext_equal]
pub enum AdminVerdictView {
    Pass,
    Refuse { error: ErrorView },
    Forbid { error: ErrorView },
}

impl DeepView for AdminVerdict {
    type V = AdminVerdictView;

    open spec fn deep_view(&self) -> AdminVerdictView {
        match self {
            AdminVerdict::Pass => AdminVerdictView::Pass,
            AdminVerdict::Refuse { error } => AdminVerdictView::Refuse {
                error: error.deep_view(),
            },
            AdminVerdict::Forbid { error } => AdminVerdictView::Forbid {
                error: error.deep_view(),
            },
        }
    }
}

/// What is to be done with an admin request.
pub open spec fn admin_verdict(
    auth_mode: Seq<char>,
    admin_password: Option<Seq<char>>,
    request: AdminRequest,
) -> AdminVerdictView {
    if auth_mode == "none"@ {
        AdminVerdictView::Pass
    } else if auth_mode != "local_password"@ {
        AdminVerdictView::Refuse {
            error: error_of(
                ErrorKind::InternalError,
                "Unsupported admin auth mode: "@ + auth_mode,
            ),
        }
    } else if !carries_password(request.authorization.deep_view(), admin_password) {
        AdminVerdictView::Refuse {
            error: error_of(ErrorKind::AuthFailed, "Admin authentication required"@),
        }
    } else if changes_state(request.method@) && !is_unforged(
        request.cookies.deep_view(),
        request.csrf_header.deep_view(),
    ) {
        AdminVerdictView::Forbid {
            error: error_of(ErrorKind::RequestInvalid, "Missing or invalid CSRF token"@),
        }
    } else {
        AdminVerdictView::Pass
    }
}

/// Enforces the authentication of the admin API, and its guard against forged
/// requests.
pub fn admin_auth(
    auth_mode: &str,
    admin_password: Option<&str>,
    request: &AdminRequest,
) -> (r: AdminVerdict)
    ensures
        r.deep_view() == admin_verdict(auth_mode@, admin_password.deep_view(), *request),
{
    if same(auth_mode, "none") {
        return AdminVerdict::Pass;
    }
    if !same(auth_mode, "local_password") {
        return AdminVerdict::Refuse {
            error: Error::about(
                ErrorKind::InternalError,
                "Unsupported admin auth mode: ",
                auth_mode,
            ),
        };
    }
    let authorization: Option<&str> = as_deref(&request.authorization);
    if !is_local_password_auth_valid(authorization, admin_password) {
        return AdminVerdict::Refuse {
            error: Error::new(ErrorKind::AuthFailed, "Admin authentication required"),
        };
    }
    let csrf_header: Option<&str> = as_deref(&request.csrf_header);
    if is_state_changing_method(request.method.as_str()) && !is_csrf_valid(
        &request.cookies,
        csrf_header,
    ) {
        return AdminVerdict::Forbid {
            error: Error::new(ErrorKind::RequestInvalid, "Missing or invalid CSRF token"),
        };
    }
    AdminVerdict::Pass
}

/// Under a local password no request passes without it, and none passes where
/// no password is configured. A request of a browser session that changes
/// anything passes only with its token repeated.
pub proof fn admin_needs_the_password(
    admin_password: Option<Seq<char>>,
    request: AdminRequest,
)
    requires
        admin_verdict("local_password"@, admin_password, request) is Pass,
    ensures
        admin_password is Some,
        carries_password(request.authorization.deep_view(), admin_password),
        changes_state(request.method@) && cookie_among(
            request.cookies.deep_view(),
            "admin_session"@,
        ) is Some ==> request.csrf_header is Some && request.csrf_header.deep_view()
            == cookie_among(request.cookies.deep_view(), "admin_csrf"@),
{
    reveal_strlit("none");
    reveal_strlit("local_password");
    assert("none"@.len() == 4);
    assert("local_password"@.len() == 14);
}

/// A password is the configured one where it is the same text, or where it is stored
/// as a hash, where the hash accepts it.
pub proof fn password_is_the_configured_one(
    expected: Seq<char>,
    provided: Seq<char>,
    accepted: bool,
    rest: Seq<char>,
)
    ensures
        is_argon2_hash("$argon2"@ + rest),
        is_argon2_hash(expected) ==> password_matches(expected, provided, accepted) == accepted,
        !is_argon2_hash(expected) ==> (password_matches(expected, provided, accepted) <==> provided
            == expected),
        is_argon2_hash(expected) ==> exists|rest: Seq<char>| expected == "$argon2"@ + rest,
{
    let word = "$argon2"@;
    let whole = word + rest;
    assert(whole.subrange(0, word.len() as int) =~= word);
    if is_argon2_hash(expected) {
        let behind = expected.skip(word.len() as int);
        assert(expected =~= expected.subrange(0, word.len() as int) + behind);
        assert(expected == word + behind);
    }
}

/// A request carries the password as a bearer token, and in no other way.
pub proof fn password_comes_as_a_bearer(expected: Seq<char>, provided: Seq<char>)
    ensures
        carries_password(Some("Bearer "@ + provided), Some(expected)) <==> password_matches(
            expected,
            provided,
            argon2_accepts(expected, provided),
        ),
        !carries_password(None, Some(expected)),
        !carries_password(Some("Bearer "@ + provided), None),
{
    bearer_key_follows_the_word("Bearer "@ + provided, provided);
}

/// The value of a cookie is what follows the first equals sign of the first part of its
/// name, without the white space around it.
pub proof fn cookie_is_found_by_its_name(
    name: Seq<char>,
    value: Seq<char>,
    parts: Seq<Seq<char>>,
    other: Seq<char>,
)
    requires
        !name.contains('='),
        trimmed(name + seq!['='] + value) == name + seq!['='] + value,
    ensures
        trimmed(name) == name ==> cookie_in_part(name + seq!['='] + value, name) == Some(
            trimmed(value),
        ),
        cookie_in_part(other, name) matches Some(found) ==> cookie_in_parts(
            seq![other] + parts,
            name,
        ) == Some(found),
        cookie_in_part(other, name) is None ==> cookie_in_parts(seq![other] + parts, name)
            == cookie_in_parts(parts, name),
        cookie_in_parts(Seq::empty(), name) is None,
{
    let part = name + seq!['='] + value;
    lemma_index_of_first(part, '=', Some(name.len() as int));
    assert(part[name.len() as int] == '=');
    assert(part.contains('='));
    if let Some(i) = part.index_of_first('=') {
        if i < name.len() {
            assert(name[i] == '=');
            assert(name.contains('='));
        }
        assert(i == name.len());
        assert(part.take(i) =~= name);
        assert(part.skip(i + 1) =~= value);
    }
    assert((seq![other] + parts).drop_first() =~= parts);
    assert((seq![other] + parts)[0] == other);
}

/// A request without a session cookie is not forged; one with it is not just where a
/// header repeats the token of the other cookie.
pub proof fn token_is_repeated_in_the_header(cookies: Seq<Seq<char>>, token: Seq<char>)
    ensures
        cookie_among(cookies, "admin_session"@) is None ==> is_unforged(cookies, None)
            && is_unforged(cookies, Some(token)),
        cookie_among(cookies, "admin_session"@) is Some ==> !is_unforged(cookies, None) && (
        is_unforged(cookies, Some(token)) <==> cookie_among(cookies, "admin_csrf"@) == Some(token)),
{
}

/// The cookies of a request are looked for header by header, and in a header part by
/// part.
pub proof fn cookies_are_looked_for_in_order(
    header: Seq<char>,
    headers: Seq<Seq<char>>,
    name: Seq<char>,
)
    ensures
        cookie_among(Seq::empty(), name) is None,
        cookie_in_parts(split_on(header, ';'), name) matches Some(value) ==> cookie_among(
            seq![header] + headers,
            name,
        ) == Some(value),
        cookie_in_parts(split_on(header, ';'), name) is None ==> cookie_among(
            seq![header] + headers,
            name,
        ) == cookie_among(headers, name),
{
    assert((seq![header] + headers).drop_first() =~= headers);
    assert((seq![header] + headers)[0] == header);
}

/// Without authentication every admin request passes; with a password one passes just
/// where it carries it and, where it can change anything, is not forged; in any other
/// mode none does.
pub proof fn admin_request_passes_with_its_proofs(
    auth_mode: Seq<char>,
    admin_password: Option<Seq<char>>,
    request: AdminRequest,
)
    ensures
        ({
            let verdict = admin_verdict(auth_mode, admin_password, request);
            let known = carries_password(request.authorization.deep_view(), admin_password);
            let changes = request.method@ == "POST"@ || request.method@ == "PUT"@ || request.method@
                == "PATCH"@ || request.method@ == "DELETE"@;
            let unforged = is_unforged(
                request.cookies.deep_view(),
                request.csrf_header.deep_view(),
            );
            &&& auth_mode == "none"@ ==> verdict is Pass
            &&& auth_mode == "local_password"@ ==> {
                &&& verdict is Pass <==> known && (!changes || unforged)
                &&& verdict is Forbid <==> known && changes && !unforged
                &&& verdict matches AdminVerdictView::Refuse { error } ==> error.kind
                    == ErrorKind::AuthFailed
            }
            &&& auth_mode != "none"@ && auth_mode != "local_password"@ ==> (
            verdict matches AdminVerdictView::Refuse { error } && error.kind
                == ErrorKind::InternalError)
        }),
{
    reveal_strlit("none");
    reveal_strlit("local_password");
    assert("none"@.len() == 4);
    assert("local_password"@.len() == 14);
}

} // verus!
