//! The same-origin rule of the admin API.

use crate::error::{error_of, outcome, Error, ErrorKind, ErrorView};
use crate::text::{
    all_digits, ascii_lower, ascii_lowercased, before, before_first, find, is_all_digits,
    is_whitespace, join3,
    lemma_index_of_first, lemma_trimmed, lemma_trimmed_chars, occurs_at, rfind_char, same,
    to_ascii_lowercase, trim, trimmed,
};
use vstd::prelude::*;
use vstd::string::StrSliceExecFns;

verus! {

/// The first place at which `needle` stands in `text`, from `from` on.
pub open spec fn first_place(text: Seq<char>, needle: Seq<char>, from: int) -> Option<int>
    decreases text.len() - from + 1,
{
    if from < 0 || from > text.len() {
        None
    } else if occurs_at(text, needle, from) {
        Some(from)
    } else {
        first_place(text, needle, from + 1)
    }
}

proof fn lemma_first_place(text: Seq<char>, needle: Seq<char>, from: int, at: Option<int>)
    requires
        0 <= from,
        match at {
            Some(i) => {
                &&& from <= i <= text.len()
                &&& occurs_at(text, needle, i)
                &&& forall|j: int| from <= j < i ==> !#[trigger] occurs_at(text, needle, j)
            },
            None => forall|j: int|
                from <= j <= text.len() ==> !#[trigger] occurs_at(text, needle, j),
        },
    ensures
        first_place(text, needle, from) == at,
    decreases text.len() - from + 1,
{
    if from <= text.len() && !occurs_at(text, needle, from) {
        lemma_first_place(text, needle, from + 1, at);
    }
}

/// The host and port of an address: what stands between its scheme and its path.
pub open spec fn authority_of(rest: Seq<char>) -> Seq<char> {
    trimmed(before_first(rest, '/'))
}

/// The scheme of an address and its host and port, in lower case.
pub open spec fn origin_parts(input: Seq<char>) -> Option<(Seq<char>, Seq<char>)> {
    let text = trimmed(input);
    match first_place(text, "://"@, 0) {
        None => None,
        Some(i) => {
            let authority = authority_of(text.skip(i + 3));
            if authority.len() == 0 {
                None
            } else {
                Some((ascii_lowercased(text.take(i)), ascii_lowercased(authority)))
            }
        },
    }
}

/// The origin of an address, in lower case: its scheme with its host and port.
pub open spec fn origin_of(input: Seq<char>) -> Option<Seq<char>> {
    match origin_parts(input) {
        Some((scheme, authority)) => Some(scheme + "://"@ + authority),
        None => None,
    }
}

fn split_origin(input: &str) -> (r: Option<(String, String)>)
    ensures
        match r {
            Some((scheme, authority)) => origin_parts(input@) == Some((scheme@, authority@)),
            None => origin_parts(input@) is None,
        },
{
    let text = trim(input);
    let at: usize = match find(text, "://") {
        Some(at) => at,
        None => {
            proof {
                lemma_first_place(text@, "://"@, 0, None);
            }
            return None;
        },
    };
    proof {
        reveal_strlit("://");
        lemma_first_place(text@, "://"@, 0, Some(at as int));
        assert("://"@.len() == 3);
    }
    let length: usize = text.unicode_len();
    let scheme = text.substring_char(0, at);
    let rest = text.substring_char(at + 3, length);
    assert(scheme@ =~= text@.take(at as int));
    assert(rest@ =~= text@.skip(at + 3));
    let authority = trim(before(rest, '/'));
    if authority.is_empty() {
        return None;
    }
    Some((to_ascii_lowercase(scheme), to_ascii_lowercase(authority)))
}

/// The origin of an address.
pub fn normalize_origin(input: &str) -> (r: Option<String>)
    ensures
        r.deep_view() == origin_of(input@),
{
    match split_origin(input) {
        Some((scheme, authority)) => Some(join3(scheme.as_str(), "://", authority.as_str())),
        None => None,
    }
}

/// Whether two addresses have one origin.
pub open spec fn one_origin(left: Seq<char>, right: Seq<char>) -> bool {
    origin_of(left) is Some && origin_of(left) == origin_of(right)
}

/// Whether two addresses have one origin.
pub fn same_origin(left: &str, right: &str) -> (r: bool)
    ensures
        r == one_origin(left@, right@),
{
    match (normalize_origin(left), normalize_origin(right)) {
        (Some(left), Some(right)) => same(left.as_str(), right.as_str()),
        _ => false,
    }
}

/// A host and port without the port: what stands before the last colon, where
/// nothing but digits stand behind it.
pub open spec fn without_port(authority: Seq<char>) -> Seq<char> {
    match authority.index_of_last(':') {
        Some(i) => if all_digits(authority.skip(i + 1)) {
            authority.take(i)
        } else {
            authority
        },
        None => authority,
    }
}

fn host_part<'a>(authority: &'a str) -> (r: &'a str)
    ensures
        r@ == without_port(authority@),
{
    let at: usize = match rfind_char(authority, ':') {
        Some(at) => at,
        None => {
            return authority;
        },
    };
    let length: usize = authority.unicode_len();
    let port = authority.substring_char(at + 1, length);
    assert(port@ =~= authority@.skip(at + 1));
    if !is_all_digits(port) {
        return authority;
    }
    let host = authority.substring_char(0, at);
    assert(host@ =~= authority@.take(at as int));
    host
}

/// Whether a host is this machine.
pub open spec fn is_loopback(host: Seq<char>) -> bool {
    host == "localhost"@ || host == "127.0.0.1"@ || host == "[::1]"@
}

/// Whether an origin is of this machine, on any port.
pub open spec fn is_local(origin: Seq<char>) -> bool {
    origin_parts(origin) matches Some((_, authority)) && is_loopback(without_port(authority))
}

/// Whether an origin is of this machine.
pub fn is_localhost_origin(origin: &str) -> (r: bool)
    ensures
        r == is_local(origin@),
{
    match split_origin(origin) {
        Some((_, authority)) => {
            let host = host_part(authority.as_str());
            same(host, "localhost") || same(host, "127.0.0.1") || same(host, "[::1]")
        },
        None => false,
    }
}

/// The origin at which the server is reached, where that is configured.
pub open spec fn expected_origin(public_base_url: Option<Seq<char>>) -> Option<Seq<char>> {
    match public_base_url {
        Some(url) => origin_of(url),
        None => None,
    }
}

/// The origin at which the server is reached, where that is configured.
pub fn configured_origin(public_base_url: Option<&str>) -> (r: Option<String>)
    ensures
        r.deep_view() == expected_origin(public_base_url.deep_view()),
{
    match public_base_url {
        Some(url) => normalize_origin(url),
        None => None,
    }
}

/// Whether an admin request with this origin is let through. One without an
/// origin comes from no browser and is.
pub open spec fn origin_checked(
    origin: Option<Seq<char>>,
    public_base_url: Option<Seq<char>>,
) -> Result<(), ErrorView> {
    match origin {
        None => Ok(()),
        Some(origin) => match expected_origin(public_base_url) {
            Some(expected) => if one_origin(origin, expected) {
                Ok(())
            } else {
                Err(error_of(ErrorKind::AuthFailed, "Untrusted admin origin: "@ + origin))
            },
            None => if is_local(origin) {
                Ok(())
            } else {
                Err(
                    error_of(
                        ErrorKind::AuthFailed,
                        "Admin origin rejected: configure server.public_base_url for non-local admin access"@,
                    ),
                )
            },
        },
    }
}

/// Enforces the same-origin rule for an admin request.
///
/// A browser's request that carries an origin must match that of the configured
/// public address; without one only origins of this machine are let through.
pub fn admin_origin(origin: Option<&str>, public_base_url: Option<&str>) -> (r: Result<(), Error>)
    ensures
        outcome(r) == origin_checked(origin.deep_view(), public_base_url.deep_view()),
{
    let origin = match origin {
        Some(origin) => origin,
        None => {
            return Ok(());
        },
    };
    if let Some(expected) = configured_origin(public_base_url) {
        if same_origin(origin, expected.as_str()) {
            return Ok(());
        }
        return Err(Error::about(ErrorKind::AuthFailed, "Untrusted admin origin: ", origin));
    }
    if is_localhost_origin(origin) {
        return Ok(());
    }
    Err(
        Error::new(
            ErrorKind::AuthFailed,
            "Admin origin rejected: configure server.public_base_url for non-local admin access",
        ),
    )
}

/// To have one origin is symmetric and transitive, and every address that has an
/// origin has one with itself.
pub proof fn one_origin_is_an_equivalence(a: Seq<char>, b: Seq<char>, c: Seq<char>)
    ensures
        one_origin(a, b) == one_origin(b, a),
        one_origin(a, b) && one_origin(b, c) ==> one_origin(a, c),
        origin_of(a) is Some ==> one_origin(a, a),
{
}

/// The origin of an origin is that origin itself.
pub proof fn origin_is_its_own_origin(input: Seq<char>)
    ensures
        origin_of(input) matches Some(origin) ==> origin_of(origin) == Some(origin),
{
    if let Some(origin) = origin_of(input) {
        reveal_strlit("://");
        let mark = "://"@;
        assert(mark.len() == 3 && mark[0] == ':' && mark[1] == '/' && mark[2] == '/');
        let text = trimmed(input);
        let i = first_place(text, mark, 0)->0;
        lemma_place_found(text, mark, 0);
        assert(text.subrange(i, i + 3) == mark);
        assert(text[i] == mark[0] && text[i + 1] == mark[1] && text[i + 2] == mark[2]) by {
            assert(text.subrange(i, i + 3)[0] == text[i]);
            assert(text.subrange(i, i + 3)[1] == text[i + 1]);
            assert(text.subrange(i, i + 3)[2] == text[i + 2]);
        }
        let piece = before_first(text.skip(i + 3), '/');
        let authority = trimmed(piece);
        let low = ascii_lowercased(authority);
        assert(low.len() == authority.len());
        assert(origin.len() == i + 3 + low.len());

        lemma_trimmed(input);
        lemma_trimmed(piece);
        assert(origin.last() == ascii_lower(authority.last()));
        assert(origin[0] == (if i == 0 {
            ':'
        } else {
            ascii_lower(text[0])
        }));
        lemma_trimmed(origin);
        assert(trimmed(origin) == origin);

        assert(occurs_at(origin, mark, i)) by {
            assert(origin.subrange(i, i + 3) =~= mark);
        }
        assert forall|j: int| 0 <= j < i implies !#[trigger] occurs_at(origin, mark, j) by {
            if occurs_at(origin, mark, j) {
                let found = origin.subrange(j, j + 3);
                assert(found[0] == origin[j] && found[1] == origin[j + 1] && found[2] == origin[j
                    + 2]);
                assert(text.subrange(j, j + 3) =~= mark);
                assert(occurs_at(text, mark, j));
            }
        }
        lemma_first_place(origin, mark, 0, Some(i));

        assert(origin.skip(i + 3) =~= low);
        assert forall|j: int| 0 <= j < low.len() implies #[trigger] low[j] != '/' by {
            if low[j] == '/' {
                assert(authority[j] == '/');
                lemma_trimmed_chars(piece, '/');
                text.skip(i + 3).index_of_first_ensures('/');
                let k = choose|k: int| 0 <= k < piece.len() && piece[k] == '/';
                assert(text.skip(i + 3)[k] == '/');
            }
        }
        lemma_index_of_first(low, '/', None);
        lemma_trimmed(low);
        assert(low[0] == ascii_lower(authority[0]) && low.last() == ascii_lower(authority.last()));
        assert(origin.take(i) =~= ascii_lowercased(text.take(i)));
        assert(ascii_lowercased(origin.take(i)) =~= origin.take(i));
        assert(ascii_lowercased(low) =~= low);
        assert(origin =~= ascii_lowercased(origin.take(i)) + mark + ascii_lowercased(low));
    }
}

proof fn lemma_place_found(text: Seq<char>, needle: Seq<char>, from: int)
    requires
        first_place(text, needle, from) is Some,
        0 <= from,
    ensures
        ({
            let i = first_place(text, needle, from)->0;
            &&& from <= i
            &&& occurs_at(text, needle, i)
            &&& forall|j: int| from <= j < i ==> !#[trigger] occurs_at(text, needle, j)
        }),
    decreases text.len() - from + 1,
{
    if !occurs_at(text, needle, from) {
        lemma_place_found(text, needle, from + 1);
    }
}

/// With a public address configured, a browser's request is let through exactly
/// where its origin is that of the address.
pub proof fn admin_origin_is_the_public_one(origin: Seq<char>, public_base_url: Seq<char>)
    requires
        origin_of(public_base_url) is Some,
    ensures
        origin_checked(Some(origin), Some(public_base_url)) is Ok <==> origin_of(origin)
            == origin_of(public_base_url),
{
    origin_is_its_own_origin(public_base_url);
}

/// The origin of an address is its scheme with its host and port, in small letters; the
/// path does not matter, nor do capitals. What has no scheme or no host has no origin.
pub proof fn origin_leaves_the_path_out(scheme: Seq<char>, host: Seq<char>, path: Seq<char>)
    requires
        scheme.len() > 0 && host.len() > 0,
        forall|i: int|
            0 <= i < scheme.len() ==> #[trigger] scheme[i] != ':' && !is_whitespace(scheme[i]),
        forall|i: int|
            0 <= i < host.len() ==> #[trigger] host[i] != '/' && !is_whitespace(host[i]),
        forall|i: int| 0 <= i < path.len() ==> !is_whitespace(#[trigger] path[i]),
    ensures
        origin_parts(scheme + "://"@ + host + "/"@ + path) == Some(
            (ascii_lowercased(scheme), ascii_lowercased(host)),
        ),
        origin_of(scheme + "://"@ + host + "/"@ + path) == Some(
            ascii_lowercased(scheme) + "://"@ + ascii_lowercased(host),
        ),
{
    reveal_strlit("://");
    reveal_strlit("/");
    let mark = "://"@;
    let text = scheme + mark + host + "/"@ + path;
    let n = scheme.len() as int;
    assert(mark.len() == 3 && mark[0] == ':' && mark[1] == '/' && mark[2] == '/');
    assert("/"@.len() == 1 && "/"@[0] == '/');
    assert(!is_whitespace('/') && !is_whitespace(':'));
    assert forall|i: int| 0 <= i < text.len() implies !is_whitespace(#[trigger] text[i]) by {
        if i < n {
            assert(text[i] == scheme[i]);
        } else if i < n + 3 {
            assert(text[i] == mark[i - n]);
        } else if i < n + 3 + host.len() {
            assert(text[i] == host[i - n - 3]);
        } else if i == n + 3 + host.len() {
            assert(text[i] == '/');
        } else {
            assert(text[i] == path[i - n - 4 - host.len()]);
        }
    }
    lemma_untrimmed(text);
    lemma_untrimmed(host);
    assert(text.subrange(n, n + 3) =~= mark);
    assert forall|j: int| 0 <= j < n implies !occurs_at(text, mark, j) by {
        if occurs_at(text, mark, j) {
            assert(text.subrange(j, j + 3)[0] == text[j]);
            assert(text[j] == scheme[j]);
        }
    }
    lemma_place_is_first(text, mark, 0, n);
    let rest = text.skip(n + 3);
    assert(rest =~= host + "/"@ + path);
    assert(rest[host.len() as int] == '/');
    assert forall|j: int| 0 <= j < host.len() implies #[trigger] rest[j] != '/' by {
        assert(rest[j] == host[j]);
    }
    lemma_index_of_first(rest, '/', Some(host.len() as int));
    assert(rest.take(host.len() as int) =~= host);
    assert(text.take(n) =~= scheme);
}

proof fn lemma_untrimmed(text: Seq<char>)
    requires
        forall|i: int| 0 <= i < text.len() ==> !is_whitespace(#[trigger] text[i]),
    ensures
        trimmed(text) == text,
{
    if text.len() > 0 {
        assert(!is_whitespace(text[0]) && !is_whitespace(text[text.len() - 1]));
    }
}

proof fn lemma_place_is_first(text: Seq<char>, needle: Seq<char>, from: int, place: int)
    requires
        0 <= from <= place <= text.len(),
        occurs_at(text, needle, place),
        forall|j: int| from <= j < place ==> !#[trigger] occurs_at(text, needle, j),
    ensures
        first_place(text, needle, from) == Some(place),
    decreases place - from,
{
    if from < place {
        assert(!occurs_at(text, needle, from));
        lemma_place_is_first(text, needle, from + 1, place);
    }
}

/// A port is what stands behind the last colon and is made of digits alone; it is left
/// out, and nothing else is.
pub proof fn port_is_left_out(host: Seq<char>, port: Seq<char>, authority: Seq<char>)
    requires
        forall|i: int| 0 <= i < port.len() ==> '0' <= #[trigger] port[i] <= '9',
    ensures
        without_port(host + seq![':'] + port) == host,
        (forall|i: int| 0 <= i < authority.len() ==> #[trigger] authority[i] != ':')
            ==> without_port(authority) == authority,
{
    let whole = host + seq![':'] + port;
    whole.index_of_last_ensures(':');
    assert(whole[host.len() as int] == ':');
    assert(whole.contains(':'));
    if let Some(i) = whole.index_of_last(':') {
        if i > host.len() {
            assert(whole[i] == port[i - host.len() - 1]);
        }
        assert(i == host.len());
        assert(whole.skip(i + 1) =~= port);
        assert(whole.take(i) =~= host);
    }
    if forall|i: int| 0 <= i < authority.len() ==> #[trigger] authority[i] != ':' {
        authority.index_of_last_ensures(':');
        assert(!authority.contains(':'));
    }
}

/// Three hosts are this machine, under any scheme; an origin of any other host is not
/// local.
pub proof fn local_origins_are_of_this_machine(origin: Seq<char>)
    ensures
        is_local(origin) <==> origin_parts(origin) is Some && ({
            let (_, authority) = origin_parts(origin)->0;
            let host = without_port(authority);
            host == "localhost"@ || host == "127.0.0.1"@ || host == "[::1]"@
        }),
{
}

/// A request without an origin is let through. Where the server's own address is
/// configured, one with an origin is let through just where that is the server's; and
/// where none is, just where it is local. Any other is refused.
pub proof fn foreign_origins_are_refused(
    origin: Seq<char>,
    public_base_url: Option<Seq<char>>,
)
    ensures
        origin_checked(None, public_base_url) is Ok,
        public_base_url is None || origin_of(public_base_url->0) is None ==> (origin_checked(
            Some(origin),
            public_base_url,
        ) is Ok <==> is_local(origin)),
        origin_checked(Some(origin), public_base_url) matches Err(error) ==> error.kind
            == ErrorKind::AuthFailed,
        one_origin(origin, origin) <==> origin_of(origin) is Some,
{
}

} // verus!
