//! What the server decides when it starts, where it sends browsers, and what it
//! answers when no route matches.

use crate::config::{RelayKeyConfig, SecurityConfig};
use crate::error::{ErrorDetail, ErrorResponse};
use crate::text::{find_char, join2, rfind_char, same, trim, trimmed};
use vstd::prelude::*;
use vstd::string::StrSliceExecFns;

verus! {

/// Whether a host is one that stands for all addresses of the machine.
pub open spec fn is_any_host(host: Seq<char>) -> bool {
    host == "0.0.0.0"@ || host == "::"@
}

/// Whether a bind address, without surrounding white space, is open to all. A
/// host in brackets ends at the first closing one; any other ends at the last
/// colon, where there is one.
pub open spec fn is_open_address(addr: Seq<char>) -> bool {
    if addr.len() == 0 {
        false
    } else if addr[0] == '[' && addr.index_of_first(']') is Some {
        addr.subrange(1, addr.index_of_first(']')->0) == "::"@
    } else if addr.index_of_last(':') is Some {
        is_any_host(addr.take(addr.index_of_last(':')->0))
    } else {
        is_any_host(addr)
    }
}

/// Whether a bind address is open to all.
pub fn is_public_bind_address(bind: &str) -> (r: bool)
    ensures
        r == is_open_address(trimmed(bind@)),
{
    let addr = trim(bind);
    if addr.is_empty() {
        return false;
    }
    assert(addr@.len() > 0);
    if addr.get_char(0) == '[' {
        if let Some(close) = find_char(addr, ']') {
            proof {
                addr@.index_of_first_ensures(']');
            }
            return same(addr.substring_char(1, close), "::");
        }
    }
    if let Some(colon) = rfind_char(addr, ':') {
        let host = addr.substring_char(0, colon);
        assert(host@ =~= addr@.take(colon as int));
        return same(host, "0.0.0.0") || same(host, "::");
    }
    same(addr, "0.0.0.0") || same(addr, "::")
}

/// Whether one of the relay keys is enabled.
pub open spec fn some_key_enabled(keys: Seq<RelayKeyConfig>) -> bool {
    exists|i: int| 0 <= i < keys.len() && (#[trigger] keys[i]).enabled
}

fn any_key_enabled(keys: &Vec<RelayKeyConfig>) -> (r: bool)
    ensures
        r == some_key_enabled(keys@),
{
    let mut i: usize = 0;
    while i < keys.len()
        invariant
            i <= keys.len(),
            forall|j: int| 0 <= j < i ==> !(#[trigger] keys@[j]).enabled,
        decreases keys.len() - i,
    {
        if keys[i].enabled {
            assert(keys@[i as int].enabled);
            return true;
        }
        i = i + 1;
    }
    false
}

/// Why the server must not start, where it must not: one that is open to the
/// public needs clients to prove who they are.
pub open spec fn startup_refusal(bind: Seq<char>, security: SecurityConfig) -> Option<Seq<char>> {
    let mode = trimmed(security.downstream_auth@);
    if !security.public_deployment && !is_open_address(trimmed(bind)) {
        None
    } else if mode.len() == 0 || mode == "none"@ {
        Some(
            "Public bind/deployment requires downstream auth; auth mode 'none' is not allowed."@,
        )
    } else if mode == "relay_key"@ && !some_key_enabled(security.relay_keys@) {
        Some(
            "Public bind/deployment with relay_key auth requires at least one enabled security.relay_keys entry."@,
        )
    } else if mode == "managed"@ {
        Some(
            "Public bind/deployment with downstream_auth='managed' is not supported until managed downstream auth validation is implemented."@,
        )
    } else if (mode == "passthrough"@ || mode == "trusted_passthrough"@)
        && !security.allow_passthrough_keys {
        Some(
            "Public bind/deployment rejects passthrough auth unless allow_passthrough_keys=true."@,
        )
    } else {
        None
    }
}

/// Checks that the server may start with these settings.
pub fn validate_startup_security(bind: &str, security: &SecurityConfig) -> (r: Result<(), String>)
    ensures
        match startup_refusal(bind@, *security) {
            None => r is Ok,
            Some(reason) => r matches Err(message) && message@ == reason,
        },
{
    let bind_is_public = is_public_bind_address(bind);
    let auth_mode = trim(security.downstream_auth.as_str());
    if security.public_deployment || bind_is_public {
        if auth_mode.is_empty() || same(auth_mode, "none") {
            return Err(
                "Public bind/deployment requires downstream auth; auth mode 'none' is not allowed.".to_owned(),
            );
        }
        if same(auth_mode, "relay_key") && !any_key_enabled(&security.relay_keys) {
            return Err(
                "Public bind/deployment with relay_key auth requires at least one enabled security.relay_keys entry.".to_owned(),
            );
        }
        if same(auth_mode, "managed") {
            return Err(
                "Public bind/deployment with downstream_auth='managed' is not supported until managed downstream auth validation is implemented.".to_owned(),
            );
        }
        if (same(auth_mode, "passthrough") || same(auth_mode, "trusted_passthrough"))
            && !security.allow_passthrough_keys {
            return Err(
                "Public bind/deployment rejects passthrough auth unless allow_passthrough_keys=true.".to_owned(),
            );
        }
    }
    Ok(())
}

/// A server that is open to the public never starts without authentication: its
/// mode is not empty, not `none` and not `managed`; with relay keys one of them
/// is enabled, and keys are passed through only where that was allowed.
pub proof fn public_server_authenticates(bind: Seq<char>, security: SecurityConfig)
    requires
        startup_refusal(bind, security) is None,
        security.public_deployment || is_open_address(trimmed(bind)),
    ensures
        ({
            let mode = trimmed(security.downstream_auth@);
            &&& mode.len() > 0
            &&& mode != "none"@
            &&& mode != "managed"@
            &&& mode == "relay_key"@ ==> some_key_enabled(security.relay_keys@)
            &&& (mode == "passthrough"@ || mode == "trusted_passthrough"@)
                ==> security.allow_passthrough_keys
        }),
{
}

/// The media type of a file, by the extension of its name.
pub open spec fn media_type(extension: Option<Seq<char>>) -> Seq<char> {
    if extension == Some("html"@) {
        "text/html; charset=utf-8"@
    } else if extension == Some("css"@) {
        "text/css"@
    } else if extension == Some("js"@) {
        "application/javascript"@
    } else if extension == Some("json"@) {
        "application/json"@
    } else if extension == Some("png"@) {
        "image/png"@
    } else if extension == Some("jpg"@) || extension == Some("jpeg"@) {
        "image/jpeg"@
    } else if extension == Some("svg"@) {
        "image/svg+xml"@
    } else if extension == Some("ico"@) {
        "image/x-icon"@
    } else {
        "application/octet-stream"@
    }
}

/// The media type of a file, by the extension of its name.
pub fn mime_guess(extension: Option<&str>) -> (r: &'static str)
    ensures
        r@ == media_type(extension.deep_view()),
{
    let extension = match extension {
        Some(extension) => extension,
        None => {
            return "application/octet-stream";
        },
    };
    if same(extension, "html") {
        "text/html; charset=utf-8"
    } else if same(extension, "css") {
        "text/css"
    } else if same(extension, "js") {
        "application/javascript"
    } else if same(extension, "json") {
        "application/json"
    } else if same(extension, "png") {
        "image/png"
    } else if same(extension, "jpg") || same(extension, "jpeg") {
        "image/jpeg"
    } else if same(extension, "svg") {
        "image/svg+xml"
    } else if same(extension, "ico") {
        "image/x-icon"
    } else {
        "application/octet-stream"
    }
}

/// Whether a path is that of a page of the web interface, without its prefix.
pub open spec fn is_page(path: Seq<char>) -> bool {
    path == "/login"@ || path == "/dashboard"@ || path == "/providers"@ || path == "/routes"@
        || path == "/probes"@ || path == "/logs"@ || path == "/settings"@
}

/// Where a browser that asks for a path is sent, and under which status: from the
/// root for good to the login page, and from a page to where it is served.
pub open spec fn redirect_of(path: Seq<char>) -> Option<(u16, Seq<char>)> {
    if path == "/"@ || path == "/admin"@ {
        Some((308, "/admin/login"@))
    } else if is_page(path) {
        Some((303, "/admin"@ + path))
    } else {
        None
    }
}

/// Where a browser that asks for a path is sent, and under which status.
pub fn webui_redirect(path: &str) -> (r: Option<(u16, String)>)
    ensures
        match r {
            Some((status, location)) => redirect_of(path@) == Some((status, location@)),
            None => redirect_of(path@) is None,
        },
{
    if same(path, "/") || same(path, "/admin") {
        return Some((308, "/admin/login".to_owned()));
    }
    if same(path, "/login") || same(path, "/dashboard") || same(path, "/providers") || same(
        path,
        "/routes",
    ) || same(path, "/probes") || same(path, "/logs") || same(path, "/settings") {
        return Some((303, join2("/admin", path)));
    }
    None
}

/// Whether a response reports one thing, with the same word for the type and
/// the code.
pub open spec fn reports(response: ErrorResponse, message: Seq<char>, word: Seq<char>) -> bool {
    &&& response.error.message@ == message
    &&& response.error.error_type.deep_view() == Some(word)
    &&& response.error.param is None
    &&& response.error.code.deep_view() == Some(word)
}

fn plain_report(message: &str, word: &str) -> (r: ErrorResponse)
    ensures
        reports(r, message@, word@),
{
    ErrorResponse {
        error: ErrorDetail {
            message: message.to_owned(),
            error_type: Some(word.to_owned()),
            param: None,
            code: Some(word.to_owned()),
        },
    }
}

/// The body of the answer where no route matches, under status 404.
pub fn not_found() -> (r: ErrorResponse)
    ensures
        reports(r, "Route not found"@, "not_found"@),
{
    plain_report("Route not found", "not_found")
}

/// The body of the answer where a route does not take the method, under status
/// 405.
pub fn method_not_allowed() -> (r: ErrorResponse)
    ensures
        reports(r, "Method not allowed for this route"@, "method_not_allowed"@),
{
    plain_report("Method not allowed for this route", "method_not_allowed")
}

/// A bind address is open to all just where its host stands for all addresses,
/// whatever its port; a host in brackets is read without them.
pub proof fn any_host_is_open(port: Seq<char>, host: Seq<char>)
    requires
        !port.contains(':') && !host.contains(':'),
        host.len() > 0 && host[0] != '[',
    ensures
        is_open_address("0.0.0.0"@ + seq![':'] + port),
        is_open_address(seq!['['] + "::"@ + seq![']'] + seq![':'] + port),
        is_open_address(host + seq![':'] + port) <==> host == "0.0.0.0"@,
        is_open_address(host) <==> host == "0.0.0.0"@,
        is_open_address("::"@ + seq![':'] + port),
        !is_open_address(Seq::empty()),
{
    reveal_strlit("0.0.0.0");
    reveal_strlit("::");
    let any = "0.0.0.0"@;
    let six = "::"@;
    assert(any.len() == 7 && any[0] == '0' && six.len() == 2 && six[0] == ':' && six[1] == ':');
    lemma_host_ends_at_last_colon(any, port);
    lemma_host_ends_at_last_colon(host, port);
    lemma_host_ends_at_last_colon(six, port);
    assert(six.contains(six[0]));
    host.index_of_last_ensures(':');
    let bracketed = seq!['['] + six + seq![']'] + seq![':'] + port;
    assert(bracketed[0] == '[' && bracketed[1] == ':' && bracketed[2] == ':' && bracketed[3] == ']');
    bracketed.index_of_first_ensures(']');
    assert(bracketed.contains(']'));
    let i = bracketed.index_of_first(']')->0;
    assert(i == 3) by {
        assert(bracketed[i] == ']');
        assert(forall|j: int| 0 <= j < i ==> bracketed[j] != ']');
        if i > 3 {
            assert(bracketed[3] != ']');
        }
    }
    assert(bracketed.subrange(1, 3) =~= six);
    assert((host + seq![':'] + port)[0] == host[0]);
    assert((any + seq![':'] + port)[0] == any[0]);
    assert((six + seq![':'] + port)[0] == six[0]);
}

proof fn lemma_host_ends_at_last_colon(host: Seq<char>, port: Seq<char>)
    requires
        !port.contains(':'),
    ensures
        (host + seq![':'] + port).index_of_last(':') == Some(host.len() as int),
        (host + seq![':'] + port).take(host.len() as int) == host,
{
    let whole = host + seq![':'] + port;
    whole.index_of_last_ensures(':');
    assert(whole[host.len() as int] == ':');
    assert(whole.contains(':'));
    let i = whole.index_of_last(':')->0;
    if i > host.len() {
        assert(whole[i] == port[i - host.len() - 1]);
        assert(port.contains(':'));
    }
    if i < host.len() {
        assert(whole[host.len() as int] != ':');
    }
    assert(whole.take(host.len() as int) =~= host);
}

/// A server that is neither public nor open to all may start in any mode; one that is
/// may just where its clients prove who they are.
pub proof fn closed_server_may_start(bind: Seq<char>, security: SecurityConfig)
    ensures
        ({
            let mode = trimmed(security.downstream_auth@);
            let keyed = exists|i: int|
                0 <= i < security.relay_keys@.len() && (#[trigger] security.relay_keys@[i]).enabled;
            startup_refusal(bind, security) is None <==> {
                ||| !security.public_deployment && !is_open_address(trimmed(bind))
                ||| mode == "relay_key"@ && keyed
                ||| (mode == "passthrough"@ || mode == "trusted_passthrough"@)
                    && security.allow_passthrough_keys
                ||| mode.len() > 0 && mode != "none"@ && mode != "relay_key"@ && mode != "managed"@
                    && mode != "passthrough"@ && mode != "trusted_passthrough"@
            }
        }),
{
    reveal_strlit("none");
    reveal_strlit("relay_key");
    reveal_strlit("managed");
    reveal_strlit("passthrough");
    reveal_strlit("trusted_passthrough");
    assert("none"@.len() == 4);
    assert("relay_key"@.len() == 9);
    assert("managed"@.len() == 7);
    assert("passthrough"@.len() == 11);
    assert("trusted_passthrough"@.len() == 19);
}

/// Each extension that the web interface uses has its own media type, and what has none
/// of them is sent as plain bytes.
pub proof fn media_types_follow_the_extension(extension: Option<Seq<char>>)
    ensures
        media_type(Some("html"@)) == "text/html; charset=utf-8"@,
        media_type(Some("css"@)) == "text/css"@,
        media_type(Some("js"@)) == "application/javascript"@,
        media_type(Some("json"@)) == "application/json"@,
        media_type(Some("png"@)) == "image/png"@,
        media_type(Some("jpg"@)) == media_type(Some("jpeg"@)),
        media_type(Some("jpg"@)) == "image/jpeg"@,
        media_type(Some("svg"@)) == "image/svg+xml"@,
        media_type(Some("ico"@)) == "image/x-icon"@,
        media_type(None) == "application/octet-stream"@,
        (extension matches Some(name) && name != "html"@ && name != "css"@ && name != "js"@ && name
            != "json"@ && name != "png"@ && name != "jpg"@ && name != "jpeg"@ && name != "svg"@
            && name != "ico"@) ==> media_type(extension) == "application/octet-stream"@,
{
    reveal_strlit("html");
    reveal_strlit("css");
    reveal_strlit("js");
    reveal_strlit("json");
    reveal_strlit("png");
    reveal_strlit("jpg");
    reveal_strlit("jpeg");
    reveal_strlit("svg");
    reveal_strlit("ico");
    assert("html"@.len() == 4 && "css"@.len() == 3 && "js"@.len() == 2 && "json"@.len() == 4);
    assert("png"@.len() == 3 && "jpg"@.len() == 3 && "jpeg"@.len() == 4 && "svg"@.len() == 3);
    assert("ico"@.len() == 3);
    assert("html"@[0] == 'h' && "json"@[1] == 's' && "jpeg"@[1] == 'p' && "json"@[0] == 'j');
    assert("css"@[0] == 'c' && "png"@[0] == 'p' && "jpg"@[0] == 'j' && "svg"@[0] == 's');
    assert("ico"@[0] == 'i');
}

/// The root is sent to the login page for good, and each page to where it is served; no
/// other path is sent anywhere, so that no redirect leads to another.
pub proof fn redirects_lead_to_pages(path: Seq<char>)
    ensures
        redirect_of("/"@) == Some((308u16, "/admin/login"@)),
        redirect_of("/admin"@) == Some((308u16, "/admin/login"@)),
        redirect_of(path) is Some ==> path == "/"@ || path == "/admin"@ || redirect_of(path) == Some(
            (303u16, "/admin"@ + path),
        ),
        redirect_of(path) is Some && path != "/"@ && path != "/admin"@ ==> path == "/login"@ || path
            == "/dashboard"@ || path == "/providers"@ || path == "/routes"@ || path == "/probes"@
            || path == "/logs"@ || path == "/settings"@,
        path == "/login"@ || path == "/dashboard"@ || path == "/providers"@ || path == "/routes"@
            || path == "/probes"@ || path == "/logs"@ || path == "/settings"@ ==> redirect_of(path)
            is Some,
{
}

} // verus!
