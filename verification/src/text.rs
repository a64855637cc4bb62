//! Text primitives: comparison, trimming, searching, case folding and decimal
//! rendering, each stated over the characters of the string.

use vstd::prelude::*;
use vstd::string::{StrSliceExecFns, StringExecFns};
use vstd::utf8::{
    decode_utf8, encode_utf8, encode_utf8_decode_utf8, encode_utf8_valid_utf8, valid_utf8,
};

verus! {

/// `String::push` appends one character to the end of the string.
pub assume_specification[ String::push ](text: &mut String, c: char)
    ensures
        final(text)@ == old(text)@.push(c),
;

/// The characters with the Unicode `White_Space` property.
pub open spec fn is_whitespace(c: char) -> bool {
    let code = c as u32;
    ||| 0x09 <= code <= 0x0d
    ||| code == 0x20
    ||| code == 0x85
    ||| code == 0xa0
    ||| code == 0x1680
    ||| 0x2000 <= code <= 0x200a
    ||| code == 0x2028
    ||| code == 0x2029
    ||| code == 0x202f
    ||| code == 0x205f
    ||| code == 0x3000
}

/// Whether `c` is white space.
pub fn char_is_whitespace(c: char) -> (r: bool)
    ensures
        r == is_whitespace(c),
{
    let code: u32 = c as u32;
    (0x09 <= code && code <= 0x0d) || code == 0x20 || code == 0x85 || code == 0xa0 || code == 0x1680
        || (0x2000 <= code && code <= 0x200a) || code == 0x2028 || code == 0x2029 || code == 0x202f
        || code == 0x205f || code == 0x3000
}

/// `text` without its longest leading run of characters that satisfy `p`.
pub open spec fn drop_leading(text: Seq<char>, p: spec_fn(char) -> bool) -> Seq<char>
    decreases text.len(),
{
    if text.len() > 0 && p(text[0]) {
        drop_leading(text.drop_first(), p)
    } else {
        text
    }
}

/// `text` without its longest trailing run of characters that satisfy `p`.
pub open spec fn drop_trailing(text: Seq<char>, p: spec_fn(char) -> bool) -> Seq<char>
    decreases text.len(),
{
    if text.len() > 0 && p(text.last()) {
        drop_trailing(text.drop_last(), p)
    } else {
        text
    }
}

/// `text` without surrounding white space.
pub open spec fn trimmed(text: Seq<char>) -> Seq<char> {
    drop_trailing(drop_leading(text, |c: char| is_whitespace(c)), |c: char| is_whitespace(c))
}

/// Whether nothing but white space is left of `text`.
pub open spec fn is_blank(text: Seq<char>) -> bool {
    trimmed(text).len() == 0
}

/// Dropping a leading run that ends at `n` leaves the rest.
pub proof fn lemma_drop_leading(text: Seq<char>, p: spec_fn(char) -> bool, n: int)
    requires
        0 <= n <= text.len(),
        forall|i: int| 0 <= i < n ==> p(#[trigger] text[i]),
        n < text.len() ==> !p(text[n]),
    ensures
        drop_leading(text, p) == text.subrange(n, text.len() as int),
    decreases text.len(),
{
    if n == 0 {
        assert(text.subrange(0, text.len() as int) =~= text);
    } else {
        assert(p(text[0]));
        let rest = text.drop_first();
        assert forall|i: int| 0 <= i < n - 1 implies p(#[trigger] rest[i]) by {
            assert(rest[i] == text[i + 1]);
        }
        lemma_drop_leading(rest, p, n - 1);
        assert(rest.subrange(n - 1, rest.len() as int) =~= text.subrange(n, text.len() as int));
    }
}

/// Dropping a trailing run that starts at `n` leaves the front.
pub proof fn lemma_drop_trailing(text: Seq<char>, p: spec_fn(char) -> bool, n: int)
    requires
        0 <= n <= text.len(),
        forall|i: int| n <= i < text.len() ==> p(#[trigger] text[i]),
        n > 0 ==> !p(text[n - 1]),
    ensures
        drop_trailing(text, p) == text.subrange(0, n),
    decreases text.len(),
{
    if n == text.len() {
        assert(text.subrange(0, n) =~= text);
    } else {
        assert(p(text[text.len() - 1]));
        let front = text.drop_last();
        assert forall|i: int| n <= i < front.len() implies p(#[trigger] front[i]) by {
            assert(front[i] == text[i]);
        }
        lemma_drop_trailing(front, p, n);
        assert(front.subrange(0, n) =~= text.subrange(0, n));
    }
}

/// What is left after trimming starts and ends with no white space, and a text
/// that does so is left as it is.
pub proof fn lemma_trimmed(text: Seq<char>)
    ensures
        trimmed(text).len() > 0 ==> !is_whitespace(trimmed(text)[0]) && !is_whitespace(
            trimmed(text).last(),
        ),
        text.len() > 0 && !is_whitespace(text[0]) && !is_whitespace(text.last()) ==> trimmed(text)
            == text,
{
    let p = |c: char| is_whitespace(c);
    let front = drop_leading(text, p);
    lemma_leading_dropped(text, p);
    lemma_trailing_dropped(front, p);
}

proof fn lemma_leading_dropped(text: Seq<char>, p: spec_fn(char) -> bool)
    ensures
        drop_leading(text, p).len() > 0 ==> !p(drop_leading(text, p)[0]),
    decreases text.len(),
{
    if text.len() > 0 && p(text[0]) {
        lemma_leading_dropped(text.drop_first(), p);
    }
}

proof fn lemma_trailing_dropped(text: Seq<char>, p: spec_fn(char) -> bool)
    ensures
        drop_trailing(text, p).len() > 0 ==> !p(drop_trailing(text, p).last()),
        drop_trailing(text, p).is_prefix_of(text),
    decreases text.len(),
{
    if text.len() > 0 && p(text.last()) {
        lemma_trailing_dropped(text.drop_last(), p);
    }
}

/// Every character of a trimmed text is one of the text.
pub proof fn lemma_trimmed_chars(text: Seq<char>, c: char)
    requires
        trimmed(text).contains(c),
    ensures
        text.contains(c),
{
    let p = |c: char| is_whitespace(c);
    let front = drop_leading(text, p);
    lemma_trailing_dropped(front, p);
    let i = choose|i: int| 0 <= i < trimmed(text).len() && trimmed(text)[i] == c;
    assert(front[i] == c);
    lemma_leading_chars(text, p, c);
}

proof fn lemma_leading_chars(text: Seq<char>, p: spec_fn(char) -> bool, c: char)
    requires
        drop_leading(text, p).contains(c),
    ensures
        text.contains(c),
    decreases text.len(),
{
    if text.len() > 0 && p(text[0]) {
        lemma_leading_chars(text.drop_first(), p, c);
        let i = choose|i: int| 0 <= i < text.drop_first().len() && text.drop_first()[i] == c;
        assert(text[i + 1] == c);
    }
}

/// The characters of `text`.
pub fn chars_of(text: &str) -> (chars: Vec<char>)
    ensures
        chars@ == text@,
{
    let mut chars: Vec<char> = Vec::new();
    for c in iter: text.chars()
        invariant
            chars@ == text@.take(iter.index()),
            iter.seq() == text@,
    {
        chars.push(c);
    }
    assert(text@.take(text@.len() as int) =~= text@);
    chars
}

/// Whether the two texts are equal.
pub fn same(a: &str, b: &str) -> (r: bool)
    ensures
        r == (a@ == b@),
{
    let left = a.to_owned();
    let right = b.to_owned();
    left == right
}

/// `text` without surrounding white space.
pub fn trim<'a>(text: &'a str) -> (r: &'a str)
    ensures
        r@ == trimmed(text@),
{
    let chars = chars_of(text);
    let mut start: usize = 0;
    while start < chars.len() && char_is_whitespace(chars[start])
        invariant
            chars@ == text@,
            start <= chars.len(),
            forall|i: int| 0 <= i < start ==> is_whitespace(#[trigger] chars@[i]),
        decreases chars.len() - start,
    {
        start = start + 1;
    }
    let mut end: usize = chars.len();
    while start < end && char_is_whitespace(chars[end - 1])
        invariant
            chars@ == text@,
            start <= end <= chars.len(),
            start < chars.len() ==> !is_whitespace(chars@[start as int]),
            forall|i: int| end <= i < chars.len() ==> is_whitespace(#[trigger] chars@[i]),
        decreases end,
    {
        end = end - 1;
    }
    proof {
        let p = |c: char| is_whitespace(c);
        lemma_drop_leading(text@, p, start as int);
        let rest = text@.subrange(start as int, text@.len() as int);
        assert forall|i: int| end - start <= i < rest.len() implies p(#[trigger] rest[i]) by {
            assert(rest[i] == chars@[i + start]);
        }
        if end > start {
            assert(rest[end - start - 1] == chars@[end - 1]);
        }
        lemma_drop_trailing(rest, p, end - start);
        assert(rest.subrange(0, end - start) =~= text@.subrange(start as int, end as int));
    }
    text.substring_char(start, end)
}

/// Whether `needle` stands in `text` at index `i`.
pub open spec fn occurs_at(text: Seq<char>, needle: Seq<char>, i: int) -> bool {
    &&& 0 <= i
    &&& i + needle.len() <= text.len()
    &&& text.subrange(i, i + needle.len()) == needle
}

/// Whether `needle` stands anywhere in `text`.
pub open spec fn contains_text(text: Seq<char>, needle: Seq<char>) -> bool {
    exists|i: int| #[trigger] occurs_at(text, needle, i)
}

/// What follows `prefix` where `text` begins with it.
pub open spec fn without_prefix(text: Seq<char>, prefix: Seq<char>) -> Option<Seq<char>> {
    if occurs_at(text, prefix, 0) {
        Some(text.skip(prefix.len() as int))
    } else {
        None
    }
}

fn stands_at(text: &Vec<char>, needle: &Vec<char>, at: usize) -> (r: bool)
    requires
        at + needle.len() <= text.len(),
    ensures
        r == occurs_at(text@, needle@, at as int),
{
    let mut i: usize = 0;
    while i < needle.len()
        invariant
            at + needle.len() <= text.len(),
            i <= needle.len(),
            forall|k: int| 0 <= k < i ==> text@[at + k] == #[trigger] needle@[k],
        decreases needle.len() - i,
    {
        if text[at + i] != needle[i] {
            assert(text@.subrange(at as int, at + needle@.len())[i as int] != needle@[i as int]);
            return false;
        }
        i = i + 1;
    }
    assert(text@.subrange(at as int, at + needle@.len()) =~= needle@);
    true
}

/// The first index at which `needle` stands in `text`.
pub fn find(text: &str, needle: &str) -> (r: Option<usize>)
    ensures
        match r {
            Some(i) => {
                &&& occurs_at(text@, needle@, i as int)
                &&& forall|j: int| 0 <= j < i ==> !#[trigger] occurs_at(text@, needle@, j)
            },
            None => !contains_text(text@, needle@),
        },
{
    let chars = chars_of(text);
    let pattern = chars_of(needle);
    if pattern.len() > chars.len() {
        return None;
    }
    let last: usize = chars.len() - pattern.len();
    let mut i: usize = 0;
    while i <= last
        invariant
            chars@ == text@,
            pattern@ == needle@,
            last + pattern.len() == chars.len(),
            i <= last + 1,
            forall|j: int| 0 <= j < i ==> !#[trigger] occurs_at(text@, needle@, j),
        decreases last + 1 - i,
    {
        if stands_at(&chars, &pattern, i) {
            return Some(i);
        }
        if i == last {
            assert forall|j: int| !#[trigger] occurs_at(text@, needle@, j) by {}
            return None;
        }
        i = i + 1;
    }
    None
}

/// Whether `needle` stands anywhere in `text`.
pub fn contains(text: &str, needle: &str) -> (r: bool)
    ensures
        r == contains_text(text@, needle@),
{
    match find(text, needle) {
        Some(_) => true,
        None => false,
    }
}

/// Whether `text` begins with `prefix`.
pub fn starts_with(text: &str, prefix: &str) -> (r: bool)
    ensures
        r == occurs_at(text@, prefix@, 0),
{
    let chars = chars_of(text);
    let pattern = chars_of(prefix);
    pattern.len() <= chars.len() && stands_at(&chars, &pattern, 0)
}

/// What follows `prefix` where `text` begins with it.
pub fn strip_prefix<'a>(text: &'a str, prefix: &str) -> (r: Option<&'a str>)
    ensures
        match r {
            Some(rest) => without_prefix(text@, prefix@) == Some(rest@),
            None => without_prefix(text@, prefix@) is None,
        },
{
    if starts_with(text, prefix) {
        let from: usize = prefix.unicode_len();
        let to: usize = text.unicode_len();
        let rest = text.substring_char(from, to);
        assert(rest@ =~= text@.skip(prefix@.len() as int));
        Some(rest)
    } else {
        None
    }
}

/// `text` up to the first `c`, or the whole of it.
pub open spec fn before_first(text: Seq<char>, c: char) -> Seq<char> {
    match text.index_of_first(c) {
        Some(i) => text.take(i),
        None => text,
    }
}

/// The pieces of `text` between the occurrences of `c`.
pub open spec fn split_on(text: Seq<char>, c: char) -> Seq<Seq<char>>
    decreases text.len(),
    via split_on_decreases
{
    match text.index_of_first(c) {
        Some(i) => seq![text.take(i)] + split_on(text.skip(i + 1), c),
        None => seq![text],
    }
}

#[via_fn]
proof fn split_on_decreases(text: Seq<char>, c: char) {
    text.index_of_first_ensures(c);
}

/// The first index of `c` at or behind `from`.
fn next_index(chars: &Vec<char>, c: char, from: usize) -> (r: Option<usize>)
    requires
        from <= chars.len(),
    ensures
        match r {
            Some(i) => {
                &&& from <= i < chars.len()
                &&& chars@[i as int] == c
                &&& forall|j: int| from <= j < i ==> #[trigger] chars@[j] != c
            },
            None => forall|j: int| from <= j < chars.len() ==> #[trigger] chars@[j] != c,
        },
{
    let mut i: usize = from;
    while i < chars.len()
        invariant
            from <= i <= chars.len(),
            forall|j: int| from <= j < i ==> #[trigger] chars@[j] != c,
        decreases chars.len() - i,
    {
        if chars[i] == c {
            return Some(i);
        }
        i = i + 1;
    }
    None
}

/// The index that `index_of_first` gives.
pub proof fn lemma_index_of_first(text: Seq<char>, c: char, r: Option<int>)
    requires
        match r {
            Some(i) => 0 <= i < text.len() && text[i] == c && forall|j: int|
                0 <= j < i ==> #[trigger] text[j] != c,
            None => forall|j: int| 0 <= j < text.len() ==> #[trigger] text[j] != c,
        },
    ensures
        text.index_of_first(c) == r,
{
    text.index_of_first_ensures(c);
    match r {
        Some(i) => {
            assert(text.contains(c));
        },
        None => {
            assert(!text.contains(c));
        },
    }
}

/// The first index of `c` in `text`.
pub fn find_char(text: &str, c: char) -> (r: Option<usize>)
    ensures
        match r {
            Some(i) => text@.index_of_first(c) == Some(i as int) && i < text@.len(),
            None => text@.index_of_first(c) is None,
        },
{
    let chars = chars_of(text);
    match next_index(&chars, c, 0) {
        Some(i) => {
            proof {
                lemma_index_of_first(text@, c, Some(i as int));
            }
            Some(i)
        },
        None => {
            proof {
                lemma_index_of_first(text@, c, None);
            }
            None
        },
    }
}

/// The last index of `c` in `text`.
pub fn rfind_char(text: &str, c: char) -> (r: Option<usize>)
    ensures
        match r {
            Some(i) => text@.index_of_last(c) == Some(i as int) && i < text@.len(),
            None => text@.index_of_last(c) is None,
        },
{
    let chars = chars_of(text);
    let mut i: usize = chars.len();
    while i > 0
        invariant
            chars@ == text@,
            i <= chars.len(),
            forall|j: int| i <= j < chars.len() ==> #[trigger] chars@[j] != c,
        decreases i,
    {
        if chars[i - 1] == c {
            proof {
                text@.index_of_last_ensures(c);
                assert(text@.contains(text@[i - 1]));
            }
            return Some(i - 1);
        }
        i = i - 1;
    }
    proof {
        text@.index_of_last_ensures(c);
        assert(!text@.contains(c));
    }
    None
}

/// The piece of `text` up to the first `c`, or the whole of it.
pub fn before<'a>(text: &'a str, c: char) -> (r: &'a str)
    ensures
        r@ == before_first(text@, c),
{
    match find_char(text, c) {
        Some(i) => {
            let r = text.substring_char(0, i);
            assert(r@ =~= text@.take(i as int));
            r
        },
        None => text,
    }
}

/// The pieces of `text` between the occurrences of `c`.
pub fn split(text: &str, c: char) -> (parts: Vec<String>)
    ensures
        parts.deep_view() == split_on(text@, c),
{
    let chars = chars_of(text);
    let mut parts: Vec<String> = Vec::new();
    let mut from: usize = 0;
    proof {
        assert(text@.skip(0) =~= text@);
        assert(parts.deep_view() + split_on(text@, c) =~= split_on(text@, c));
    }
    loop
        invariant
            chars@ == text@,
            from <= chars.len(),
            parts.deep_view() + split_on(text@.skip(from as int), c) == split_on(text@, c),
        decreases chars.len() - from,
    {
        let ghost rest = text@.skip(from as int);
        match next_index(&chars, c, from) {
            Some(i) => {
                let piece = text.substring_char(from, i).to_owned();
                proof {
                    assert forall|j: int| 0 <= j < i - from implies #[trigger] rest[j] != c by {
                        assert(rest[j] == chars@[j + from]);
                    }
                    lemma_index_of_first(rest, c, Some(i - from));
                    assert(piece@ =~= rest.take(i - from));
                    assert(rest.skip(i - from + 1) =~= text@.skip(i + 1));
                }
                let ghost done = parts.deep_view();
                parts.push(piece);
                proof {
                    assert(parts.deep_view() =~= done.push(piece@));
                    assert(done.push(piece@) + split_on(text@.skip(i + 1), c) =~= done + (
                    seq![piece@] + split_on(text@.skip(i + 1), c)));
                }
                from = i + 1;
            },
            None => {
                let piece = text.substring_char(from, chars.len()).to_owned();
                proof {
                    assert forall|j: int| 0 <= j < rest.len() implies #[trigger] rest[j] != c by {
                        assert(rest[j] == chars@[j + from]);
                    }
                    lemma_index_of_first(rest, c, None);
                    assert(piece@ =~= rest);
                }
                let ghost done = parts.deep_view();
                parts.push(piece);
                proof {
                    assert(parts.deep_view() =~= done + seq![piece@]);
                }
                return parts;
            },
        }
    }
}

/// `c` with an ASCII capital made small.
pub open spec fn ascii_lower(c: char) -> char {
    if 'A' <= c <= 'Z' {
        ((c as u8) + 32) as char
    } else {
        c
    }
}

/// `text` with its ASCII capitals made small.
pub open spec fn ascii_lowercased(text: Seq<char>) -> Seq<char> {
    text.map_values(|c: char| ascii_lower(c))
}

/// `c` with an ASCII capital made small.
pub fn char_to_ascii_lowercase(c: char) -> (r: char)
    ensures
        r == ascii_lower(c),
{
    if 'A' <= c && c <= 'Z' {
        let code: u8 = c as u8;
        (code + 32) as char
    } else {
        c
    }
}

/// `text` with its ASCII capitals made small.
pub fn to_ascii_lowercase(text: &str) -> (r: String)
    ensures
        r@ == ascii_lowercased(text@),
{
    let mut out = String::new();
    for c in iter: text.chars()
        invariant
            iter.seq() == text@,
            out@ == ascii_lowercased(text@.take(iter.index())),
    {
        let ghost done = text@.take(iter.index());
        out.push(char_to_ascii_lowercase(c));
        assert(ascii_lowercased(text@.take(iter.index() + 1)) =~= ascii_lowercased(done).push(
            ascii_lower(c),
        ));
    }
    assert(text@.take(text@.len() as int) =~= text@);
    out
}

/// At most the first `n` characters of `text`.
pub open spec fn first_chars(text: Seq<char>, n: nat) -> Seq<char> {
    if text.len() <= n {
        text
    } else {
        text.take(n as int)
    }
}

/// At most the first `n` characters of `text`.
pub fn take_chars(text: &str, n: usize) -> (r: String)
    ensures
        r@ == first_chars(text@, n as nat),
{
    let len: usize = text.unicode_len();
    if len <= n {
        text.to_owned()
    } else {
        let r = text.substring_char(0, n).to_owned();
        assert(r@ =~= text@.take(n as int));
        r
    }
}

/// `a` followed by `b`.
pub fn join2(a: &str, b: &str) -> (r: String)
    ensures
        r@ == a@ + b@,
{
    let mut out = a.to_owned();
    out.append(b);
    out
}

/// `a`, `b` and `c` in a row.
pub fn join3(a: &str, b: &str, c: &str) -> (r: String)
    ensures
        r@ == a@ + b@ + c@,
{
    let mut out = a.to_owned();
    out.append(b);
    out.append(c);
    out
}

/// Four texts in a row.
pub fn join4(a: &str, b: &str, c: &str, d: &str) -> (r: String)
    ensures
        r@ == a@ + b@ + c@ + d@,
{
    let mut out = a.to_owned();
    out.append(b);
    out.append(c);
    out.append(d);
    out
}

/// Five texts in a row.
pub fn join5(a: &str, b: &str, c: &str, d: &str, e: &str) -> (r: String)
    ensures
        r@ == a@ + b@ + c@ + d@ + e@,
{
    let mut out = a.to_owned();
    out.append(b);
    out.append(c);
    out.append(d);
    out.append(e);
    out
}

/// The decimal digits of `n`.
pub open spec fn decimal(n: nat) -> Seq<char>
    decreases n,
{
    let digit = ('0' as u8 + (n % 10)) as char;
    if n < 10 {
        seq![digit]
    } else {
        decimal(n / 10).push(digit)
    }
}

/// The decimal digits of `n`, with a minus sign in front of a negative one.
pub open spec fn signed_decimal(n: int) -> Seq<char> {
    if n < 0 {
        seq!['-'] + decimal((-n) as nat)
    } else {
        decimal(n as nat)
    }
}

/// The decimal digits of `n`.
pub fn decimal_of(n: u64) -> (r: String)
    ensures
        r@ == decimal(n as nat),
    decreases n,
{
    let digit: u8 = (n % 10) as u8;
    let c: char = (48u8 + digit) as char;
    if n < 10 {
        let mut out = String::new();
        out.push(c);
        assert(out@ =~= seq![c]);
        out
    } else {
        let mut out = decimal_of(n / 10);
        out.push(c);
        out
    }
}

/// The decimal digits of `n`, with a minus sign in front of a negative one.
pub fn signed_decimal_of(n: i64) -> (r: String)
    ensures
        r@ == signed_decimal(n as int),
{
    if n < 0 {
        let magnitude: u64 = (-(n as i128)) as u64;
        let digits = decimal_of(magnitude);
        let mut out = String::new();
        out.push('-');
        assert(out@ =~= seq!['-']);
        out.append(digits.as_str());
        out
    } else {
        decimal_of(n as u64)
    }
}

/// A text equal to the one given, where one is.
pub fn copy_opt(text: &Option<String>) -> (r: Option<String>)
    ensures
        r.deep_view() == text.deep_view(),
{
    match text {
        Some(text) => Some(text.clone()),
        None => None,
    }
}

/// The text as a borrowed slice, where there is one.
pub fn as_deref(text: &Option<String>) -> (r: Option<&str>)
    ensures
        r.deep_view() == text.deep_view(),
{
    match text {
        Some(text) => Some(text.as_str()),
        None => None,
    }
}

/// The slice as an owned text, where there is one.
pub fn to_owned_opt(text: Option<&str>) -> (r: Option<String>)
    ensures
        r.deep_view() == text.deep_view(),
{
    match text {
        Some(text) => Some(text.to_owned()),
        None => None,
    }
}

/// The same texts in the same order.
pub fn copy_texts(texts: &Vec<String>) -> (r: Vec<String>)
    ensures
        r.deep_view() == texts.deep_view(),
{
    let mut out: Vec<String> = Vec::new();
    let mut i: usize = 0;
    while i < texts.len()
        invariant
            i <= texts.len(),
            out.deep_view() == texts.deep_view().take(i as int),
        decreases texts.len() - i,
    {
        let ghost before = out.deep_view();
        out.push(texts[i].clone());
        assert(out.deep_view() =~= before.push(texts@[i as int]@));
        assert(texts.deep_view().take(i + 1) =~= before.push(texts@[i as int]@));
        i = i + 1;
    }
    assert(texts.deep_view().take(texts@.len() as int) =~= texts.deep_view());
    out
}

/// Whether `text` is among `texts`.
pub fn is_among(texts: &Vec<String>, text: &str) -> (r: bool)
    ensures
        r == texts.deep_view().contains(text@),
{
    let mut i: usize = 0;
    while i < texts.len()
        invariant
            i <= texts.len(),
            forall|j: int| 0 <= j < i ==> #[trigger] texts.deep_view()[j] != text@,
        decreases texts.len() - i,
    {
        if same(texts[i].as_str(), text) {
            assert(texts.deep_view()[i as int] == text@);
            return true;
        }
        i = i + 1;
    }
    false
}

/// Whether two optional texts are equal.
pub fn same_opt(a: &Option<String>, b: &Option<String>) -> (r: bool)
    ensures
        r == (a.deep_view() == b.deep_view()),
{
    match (a, b) {
        (Some(a), Some(b)) => same(a.as_str(), b.as_str()),
        (None, None) => true,
        _ => false,
    }
}

/// The text that bytes denote when what is no UTF-8 in them is replaced.
pub uninterp spec fn lossy_utf8(bytes: Seq<u8>) -> Seq<char>;

/// `String::from_utf8_lossy`: the text that the bytes denote. What stands for
/// bytes that are no UTF-8 is named, not described; valid UTF-8 is kept as it is.
#[verifier::external_body]
fn from_utf8_lossy(bytes: &Vec<u8>) -> (r: String)
    ensures
        r@ == lossy_utf8(bytes@),
        valid_utf8(bytes@) ==> encode_utf8(r@) == bytes@,
{
    String::from_utf8_lossy(bytes).into_owned()
}

/// The text that bytes denote: what is UTF-8 as it is, and else with what is none
/// replaced.
pub open spec fn text_of_bytes(bytes: Seq<u8>) -> Seq<char> {
    if valid_utf8(bytes) {
        decode_utf8(bytes)
    } else {
        lossy_utf8(bytes)
    }
}

/// The text that bytes denote.
pub fn bytes_to_text(bytes: &Vec<u8>) -> (r: String)
    ensures
        r@ == text_of_bytes(bytes@),
{
    let r = from_utf8_lossy(bytes);
    proof {
        encode_utf8_decode_utf8(r@);
    }
    r
}

/// Whether a text is made of ASCII characters alone.
pub open spec fn is_ascii_text(text: Seq<char>) -> bool {
    forall|i: int| 0 <= i < text.len() ==> (#[trigger] text[i] as u32) < 128
}

/// The lowercase equivalent of a text.
pub uninterp spec fn lowercased(text: Seq<char>) -> Seq<char>;

/// `str::to_lowercase`: the lowercase equivalent of the text, by the Unicode
/// rules. It is named, not described; of ASCII text the capitals are made small.
#[verifier::external_body]
fn unicode_lowercase(text: &str) -> (r: String)
    ensures
        r@ == lowercased(text@),
        is_ascii_text(text@) ==> r@ == ascii_lowercased(text@),
{
    text.to_lowercase()
}

/// A text in lower case: with its capitals made small where it is ASCII, and else
/// by the Unicode rules.
pub open spec fn lower_case(text: Seq<char>) -> Seq<char> {
    if is_ascii_text(text) {
        ascii_lowercased(text)
    } else {
        lowercased(text)
    }
}

/// A text in lower case.
pub fn to_lowercase(text: &str) -> (r: String)
    ensures
        r@ == lower_case(text@),
{
    unicode_lowercase(text)
}

/// `text` without the `c` that it ends in.
pub fn trim_end_char<'a>(text: &'a str, c: char) -> (r: &'a str)
    ensures
        r@ == drop_trailing(text@, |x: char| x == c),
{
    let chars = chars_of(text);
    let mut end: usize = chars.len();
    while end > 0 && chars[end - 1] == c
        invariant
            chars@ == text@,
            end <= chars.len(),
            forall|i: int| end <= i < chars.len() ==> #[trigger] chars@[i] == c,
        decreases end,
    {
        end = end - 1;
    }
    proof {
        lemma_drop_trailing(text@, |x: char| x == c, end as int);
    }
    text.substring_char(0, end)
}

/// `text` without the `c` that it begins with.
pub fn trim_start_char<'a>(text: &'a str, c: char) -> (r: &'a str)
    ensures
        r@ == drop_leading(text@, |x: char| x == c),
{
    let chars = chars_of(text);
    let mut start: usize = 0;
    while start < chars.len() && chars[start] == c
        invariant
            chars@ == text@,
            start <= chars.len(),
            forall|i: int| 0 <= i < start ==> #[trigger] chars@[i] == c,
        decreases chars.len() - start,
    {
        start = start + 1;
    }
    proof {
        lemma_drop_leading(text@, |x: char| x == c, start as int);
    }
    text.substring_char(start, chars.len())
}

/// Whether a text is made of decimal digits alone.
pub open spec fn all_digits(text: Seq<char>) -> bool {
    forall|i: int| 0 <= i < text.len() ==> '0' <= #[trigger] text[i] <= '9'
}

/// Whether a text is made of decimal digits alone.
pub fn is_all_digits(text: &str) -> (r: bool)
    ensures
        r == all_digits(text@),
{
    let chars = chars_of(text);
    let mut i: usize = 0;
    while i < chars.len()
        invariant
            chars@ == text@,
            i <= chars.len(),
            forall|j: int| 0 <= j < i ==> '0' <= #[trigger] text@[j] <= '9',
        decreases chars.len() - i,
    {
        let c = chars[i];
        if c < '0' || c > '9' {
            assert(text@[i as int] == c);
            return false;
        }
        i = i + 1;
    }
    true
}

/// The number that decimal digits denote.
pub open spec fn digits_value(digits: Seq<char>) -> int
    decreases digits.len(),
{
    if digits.len() == 0 {
        0
    } else {
        digits_value(digits.drop_last()) * 10 + (digits.last() as int - '0' as int)
    }
}

/// The number that a text denotes: digits with an optional sign in front, where
/// it is within the range of the type.
pub open spec fn i32_of_text(text: Seq<char>) -> Option<i32> {
    let signed = text.len() > 0 && (text[0] == '-' || text[0] == '+');
    let digits = if signed {
        text.skip(1)
    } else {
        text
    };
    let value = if signed && text[0] == '-' {
        -digits_value(digits)
    } else {
        digits_value(digits)
    };
    if digits.len() > 0 && all_digits(digits) && i32::MIN <= value <= i32::MAX {
        Some(value as i32)
    } else {
        None
    }
}

proof fn lemma_digits_value_grows(digits: Seq<char>, n: int)
    requires
        0 <= n <= digits.len(),
        all_digits(digits),
    ensures
        0 <= digits_value(digits.take(n)) <= digits_value(digits),
    decreases digits.len(),
{
    if n == digits.len() {
        assert(digits.take(n) =~= digits);
        if n > 0 {
            assert(digits.last() == digits[n - 1]);
            lemma_digits_value_grows(digits.drop_last(), n - 1);
        }
    } else {
        assert(digits.last() == digits[digits.len() - 1]);
        assert(digits.drop_last().take(n) =~= digits.take(n));
        lemma_digits_value_grows(digits.drop_last(), n);
    }
}

/// The number that a text denotes, as [`i32_of_text`] says.
pub fn parse_i32(text: &str) -> (r: Option<i32>)
    ensures
        r == i32_of_text(text@),
{
    let chars = chars_of(text);
    let negative = chars.len() > 0 && chars[0] == '-';
    let signed = negative || (chars.len() > 0 && chars[0] == '+');
    let start: usize = if signed {
        1
    } else {
        0
    };
    let ghost digits = if signed {
        text@.skip(1)
    } else {
        text@
    };
    if chars.len() == start {
        return None;
    }
    let mut value: i64 = 0;
    let mut i: usize = start;
    assert(digits.take(0) =~= Seq::empty());
    while i < chars.len()
        invariant
            start <= i <= chars.len(),
            chars@ == text@,
            start == 0 || start == 1,
            negative == (text@.len() > 0 && text@[0] == '-'),
            signed == (text@.len() > 0 && (text@[0] == '-' || text@[0] == '+')),
            signed == (start == 1),
            digits == (if signed {
                text@.skip(1)
            } else {
                text@
            }),
            digits.len() == chars.len() - start,
            all_digits(digits.take(i - start)),
            value == digits_value(digits.take(i - start)),
            0 <= value <= 2_147_483_648,
        decreases chars.len() - i,
    {
        let c = chars[i];
        let ghost k = i - start;
        assert(digits[k] == c);
        if c < '0' || c > '9' {
            assert(!all_digits(digits));
            return None;
        }
        let ghost longer = digits.take(k + 1);
        assert(longer.drop_last() =~= digits.take(k));
        assert(longer.last() == c);
        assert(all_digits(longer)) by {
            assert forall|j: int| 0 <= j < longer.len() implies '0' <= #[trigger] longer[j]
                <= '9' by {
                if j < k {
                    assert(digits.take(k)[j] == longer[j]);
                }
            }
        }
        value = value * 10 + (c as u32 - '0' as u32) as i64;
        if value > 2_147_483_648 {
            proof {
                if all_digits(digits) {
                    lemma_digits_value_grows(digits, k + 1);
                }
            }
            return None;
        }
        i = i + 1;
    }
    assert(digits.take(digits.len() as int) =~= digits);
    if negative {
        Some((-value) as i32)
    } else if value > 2_147_483_647 {
        None
    } else {
        Some(value as i32)
    }
}

/// The digits of a number read back as that number. They are digits alone, and the
/// first of them is no zero unless it is the only one.
pub proof fn decimal_reads_back(n: nat)
    ensures
        digits_value(decimal(n)) == n,
        all_digits(decimal(n)),
        decimal(n).len() > 0,
        decimal(n)[0] == '0' ==> n == 0,
    decreases n,
{
    let digit = ('0' as u8 + (n % 10)) as char;
    assert('0' as int == 48 && digit as int == 48 + n % 10);
    if n < 10 {
        assert(decimal(n).drop_last() =~= Seq::empty());
        assert(digits_value(decimal(n).drop_last()) == 0);
        assert(decimal(n).last() == digit);
    } else {
        let front = decimal(n / 10);
        decimal_reads_back(n / 10);
        assert(decimal(n).drop_last() =~= front);
        assert(decimal(n).last() == digit);
        assert forall|i: int| 0 <= i < decimal(n).len() implies '0' <= #[trigger] decimal(n)[i]
            <= '9' by {
            if i < front.len() {
                assert(decimal(n)[i] == front[i]);
            }
        }
        assert(decimal(n)[0] == front[0]);
    }
}

/// A number of 32 bits is read from its own digits, with the sign in front of a
/// negative one.
pub proof fn signed_decimal_reads_back(n: i32)
    ensures
        i32_of_text(signed_decimal(n as int)) == Some(n),
        n < 0 ==> signed_decimal(n as int)[0] == '-',
        n >= 0 ==> signed_decimal(n as int) == decimal(n as nat),
{
    if n < 0 {
        let digits = decimal((-(n as int)) as nat);
        decimal_reads_back((-(n as int)) as nat);
        let text = signed_decimal(n as int);
        assert(text.skip(1) =~= digits);
        assert(text[0] == '-');
    } else {
        decimal_reads_back(n as nat);
        let text = signed_decimal(n as int);
        assert('0' <= text[0] <= '9');
    }
}

/// A text is a number of 32 bits just where it is made of digits, with at most one sign
/// in front, and their value is within the range; it is then that value.
pub proof fn numbers_are_read_in_full(digits: Seq<char>)
    requires
        digits.len() > 0,
        all_digits(digits),
    ensures
        digits_value(digits) <= i32::MAX ==> (i32_of_text(digits) matches Some(n) && n
            == digits_value(digits)),
        digits_value(digits) <= i32::MAX ==> i32_of_text(seq!['+'] + digits) == i32_of_text(digits),
        digits_value(digits) <= i32::MAX + 1 ==> (i32_of_text(seq!['-'] + digits) matches Some(n)
            && n == -digits_value(digits)),
        digits_value(digits) > i32::MAX ==> i32_of_text(digits) is None,
        i32_of_text(Seq::empty()) is None,
        i32_of_text(seq!['-']) is None,
{
    lemma_digits_value_is_positive(digits);
    assert('0' <= digits[0] <= '9');
    assert((seq!['+'] + digits).skip(1) =~= digits);
    assert((seq!['-'] + digits).skip(1) =~= digits);
    assert((seq!['+'] + digits)[0] == '+' && (seq!['-'] + digits)[0] == '-');
    assert(seq!['-'].skip(1).len() == 0);
}

proof fn lemma_digits_value_is_positive(digits: Seq<char>)
    requires
        all_digits(digits),
    ensures
        digits_value(digits) >= 0,
    decreases digits.len(),
{
    if digits.len() > 0 {
        let front = digits.drop_last();
        assert forall|i: int| 0 <= i < front.len() implies '0' <= #[trigger] front[i] <= '9' by {
            assert(front[i] == digits[i]);
        }
        lemma_digits_value_is_positive(front);
        assert('0' <= digits[digits.len() - 1] <= '9');
    }
}

/// A text is split at each occurrence of a character, and nowhere else; the pieces are
/// what stands between, in order.
pub proof fn pieces_stand_between(piece: Seq<char>, rest: Seq<char>, c: char)
    requires
        !piece.contains(c),
    ensures
        split_on(piece, c) == seq![piece],
        split_on(piece + seq![c] + rest, c) == seq![piece] + split_on(rest, c),
        before_first(piece, c) == piece,
        before_first(piece + seq![c] + rest, c) == piece,
{
    let text = piece + seq![c] + rest;
    assert forall|i: int| 0 <= i < piece.len() implies #[trigger] piece[i] != c by {
        assert(piece.contains(piece[i]));
    }
    assert forall|i: int| 0 <= i < piece.len() implies #[trigger] text[i] != c by {
        assert(text[i] == piece[i]);
    }
    assert(text[piece.len() as int] == c);
    lemma_index_of_first(piece, c, None);
    lemma_index_of_first(text, c, Some(piece.len() as int));
    assert(text.take(piece.len() as int) =~= piece);
    assert(text.skip(piece.len() as int + 1) =~= rest);
}

/// What follows a prefix is found where the prefix stands in front, and there alone.
pub proof fn prefix_is_taken_off(text: Seq<char>, prefix: Seq<char>, rest: Seq<char>)
    ensures
        without_prefix(prefix + rest, prefix) == Some(rest),
        without_prefix(text, prefix) == Some(rest) <==> text == prefix + rest,
        contains_text(rest + prefix + text, prefix),
{
    let whole = prefix + rest;
    assert(whole.subrange(0, prefix.len() as int) =~= prefix);
    assert(whole.skip(prefix.len() as int) =~= rest);
    if without_prefix(text, prefix) == Some(rest) {
        assert(text =~= text.subrange(0, prefix.len() as int) + text.skip(prefix.len() as int));
    }
    let long = rest + prefix + text;
    assert(long.subrange(rest.len() as int, (rest.len() + prefix.len()) as int) =~= prefix);
    assert(occurs_at(long, prefix, rest.len() as int));
}

/// White space around a text is taken off, however much there is, and a text of
/// nothing else is blank.
pub proof fn surrounding_space_is_taken_off(front: Seq<char>, text: Seq<char>, back: Seq<char>)
    requires
        forall|i: int| 0 <= i < front.len() ==> is_whitespace(#[trigger] front[i]),
        forall|i: int| 0 <= i < back.len() ==> is_whitespace(#[trigger] back[i]),
        text.len() > 0 && !is_whitespace(text[0]) && !is_whitespace(text.last()),
    ensures
        trimmed(front + text + back) == text,
        is_blank(front),
        !is_blank(text),
{
    let p = |c: char| is_whitespace(c);
    let whole = front + text + back;
    assert forall|i: int| 0 <= i < front.len() implies p(#[trigger] whole[i]) by {
        assert(whole[i] == front[i]);
    }
    assert(whole[front.len() as int] == text[0]);
    lemma_drop_leading(whole, p, front.len() as int);
    let rest = whole.subrange(front.len() as int, whole.len() as int);
    assert(rest =~= text + back);
    assert forall|i: int| text.len() <= i < rest.len() implies p(#[trigger] rest[i]) by {
        assert(rest[i] == back[i - text.len()]);
    }
    assert(rest[text.len() - 1] == text.last());
    lemma_drop_trailing(rest, p, text.len() as int);
    assert(rest.subrange(0, text.len() as int) =~= text);
    lemma_drop_leading(front, p, front.len() as int);
    lemma_trimmed(text);
}

/// Capitals of ASCII are made small, and nothing else is changed, so that making small
/// twice is the same as once.
pub proof fn small_letters_stay(text: Seq<char>, i: int)
    requires
        0 <= i < text.len(),
    ensures
        ascii_lowercased(text).len() == text.len(),
        !('A' <= text[i] <= 'Z') ==> ascii_lowercased(text)[i] == text[i],
        'A' <= text[i] <= 'Z' ==> ascii_lowercased(text)[i] as u32 == text[i] as u32 + 32,
        ascii_lowercased(ascii_lowercased(text)) == ascii_lowercased(text),
        is_ascii_text(text) ==> lower_case(text) == ascii_lowercased(text),
        !is_ascii_text(text) ==> lower_case(text) == lowercased(text),
{
    assert forall|k: int| 0 <= k < text.len() implies ascii_lower(
        #[trigger] ascii_lowercased(text)[k],
    ) == ascii_lowercased(text)[k] by {
        let c = text[k];
        if 'A' <= c <= 'Z' {
            assert(ascii_lower(c) as int == c as int + 32);
        }
    }
    assert(ascii_lowercased(ascii_lowercased(text)) =~= ascii_lowercased(text));
}

/// The front of a text is as much of it as is asked for, and all of a shorter one.
pub proof fn front_is_cut_at_its_length(text: Seq<char>, n: nat)
    ensures
        first_chars(text, n).is_prefix_of(text),
        first_chars(text, n).len() == if text.len() < n {
            text.len()
        } else {
            n
        },
{
}

/// Bytes that are UTF-8 are read as the text that they encode.
pub proof fn encoded_text_is_read_back(text: Seq<char>)
    ensures
        text_of_bytes(encode_utf8(text)) == text,
{
    encode_utf8_valid_utf8(text);
    encode_utf8_decode_utf8(text);
}

/// A part of a text is contained in it, whatever stands around the part.
pub proof fn part_is_contained(front: Seq<char>, part: Seq<char>, back: Seq<char>)
    ensures
        contains_text(front + part + back, part),
{
    prefix_is_taken_off(back, part, front);
}

} // verus!
