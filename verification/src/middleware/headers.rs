//! What may stand in the name and the value of an HTTP header.

use vstd::prelude::*;

verus! {

/// Whether a character may stand in the name of a header.
pub open spec fn is_name_char(c: char) -> bool {
    ||| 'a' <= c <= 'z' || 'A' <= c <= 'Z' || '0' <= c <= '9'
    ||| c == '!' || c == '#' || c == '$' || c == '%' || c == '&' || c == '\'' || c == '*'
    ||| c == '+' || c == '-' || c == '.' || c == '^' || c == '_' || c == '`' || c == '|'
    ||| c == '~'
}

/// Whether a text is the name of a header: not empty, of at most 65535
/// characters, and all of them allowed.
pub open spec fn is_header_name(name: Seq<char>) -> bool {
    &&& 0 < name.len() <= 65535
    &&& forall|i: int| 0 <= i < name.len() ==> is_name_char(#[trigger] name[i])
}

/// Whether a text can be the value of a header: no control characters but the
/// tab.
pub open spec fn is_header_value(value: Seq<char>) -> bool {
    forall|i: int|
        0 <= i < value.len() ==> (#[trigger] value[i] >= ' ' && value[i] != '\x7f') || value[i]
            == '\t'
}

/// `HeaderName::from_str` of the `http` crate: whether it takes the text as the
/// name of a header.
#[verifier::external_body]
pub(crate) fn takes_header_name(name: &str) -> (r: bool)
    ensures
        r == is_header_name(name@),
{
    name.parse::<axum::http::HeaderName>().is_ok()
}

/// `HeaderValue::from_str` of the `http` crate: whether it takes the text as the
/// value of a header.
#[verifier::external_body]
pub(crate) fn takes_header_value(value: &str) -> (r: bool)
    ensures
        r == is_header_value(value@),
{
    axum::http::HeaderValue::from_str(value).is_ok()
}

/// The name of a header has no white space, no control characters, no separators and
/// nothing beyond ASCII; letters, digits and dashes may stand in it. Its value may hold
/// anything but control characters, of which the tab alone is allowed.
pub proof fn headers_hold_what_they_may(name: Seq<char>, value: Seq<char>, i: int)
    requires
        0 <= i < name.len() && i < value.len(),
    ensures
        is_header_name(name) ==> {
            let c = name[i];
            &&& ' ' < c < '\x7f'
            &&& c != '(' && c != ')' && c != '<' && c != '>' && c != '@' && c != ',' && c != ';'
            &&& c != ':' && c != '\\' && c != '"' && c != '/' && c != '[' && c != ']' && c != '?'
            &&& c != '=' && c != '{' && c != '}'
        },
        (forall|k: int|
            0 <= k < name.len() ==> 'a' <= #[trigger] name[k] <= 'z' || 'A' <= name[k] <= 'Z'
                || '0' <= name[k] <= '9' || name[k] == '-' || name[k] == '_') && name.len() <= 65535
            ==> is_header_name(name),
        !is_header_name(Seq::empty()),
        name.len() > 65535 ==> !is_header_name(name),
        is_header_value(value) ==> value[i] == '\t' || (value[i] >= ' ' && value[i] != '\x7f'),
        value[i] < ' ' && value[i] != '\t' ==> !is_header_value(value),
        (forall|k: int| 0 <= k < value.len() ==> ' ' <= #[trigger] value[k] <= '~')
            ==> is_header_value(value),
{
}

} // verus!
