//! Reading request headers.

use axum::http::{HeaderMap, HeaderValue};
use vstd::prelude::*;

use crate::text;

verus! {

/// The header collection of the HTTP library.
#[verifier::external_type_specification]
#[verifier::external_body]
#[verifier::reject_recursive_types(T)]
pub struct ExHeaderMap<T>(axum::http::HeaderMap<T>);

/// A header value of the HTTP library.
#[verifier::external_type_specification]
#[verifier::external_body]
pub struct ExHeaderValue(axum::http::HeaderValue);

/// The first value of each header, as bytes, under the header's name in lower case.
pub uninterp spec fn header_entries(headers: HeaderMap<HeaderValue>) -> Map<Seq<char>, Seq<u8>>;

/// The bytes of the first header with a name.
///
/// Calls `HeaderMap::get` and copies the value with `HeaderValue::as_bytes`.
/// Trusted: a name is looked up without regard to the case of its ASCII
/// letters, and the first value under it is given.
#[verifier::external_body]
fn header_bytes(headers: &HeaderMap<HeaderValue>, name: &str) -> (r: Option<Vec<u8>>)
    ensures
        match r {
            Some(value) => {
                &&& header_entries(*headers).contains_key(text::lower(name@))
                &&& value@ == header_entries(*headers)[text::lower(name@)]
            },
            None => !header_entries(*headers).contains_key(text::lower(name@)),
        },
{
    headers.get(name).map(|value| value.as_bytes().to_vec())
}

/// A byte that a header text may hold: visible ASCII, a space or a tab.
pub open spec fn is_text_byte(b: u8) -> bool {
    32 <= b < 127 || b == 9
}

/// The text that bytes spell, if each of them may stand in a header text.
pub open spec fn text_of_bytes(bytes: Seq<u8>) -> Option<Seq<char>> {
    if forall|i: int| 0 <= i < bytes.len() ==> is_text_byte(#[trigger] bytes[i]) {
        Some(bytes.map_values(|b: u8| b as char))
    } else {
        None
    }
}

/// The text that bytes spell, if each of them may stand in a header text.
pub fn bytes_text(bytes: &Vec<u8>) -> (r: Option<String>)
    ensures
        match r {
            Some(s) => text_of_bytes(bytes@) == Some(s@),
            None => text_of_bytes(bytes@) is None,
        },
{
    let ghost all = bytes@.map_values(|b: u8| b as char);
    let mut s = String::new();
    let mut i: usize = 0;
    while i < bytes.len()
        invariant
            i <= bytes.len(),
            all == bytes@.map_values(|b: u8| b as char),
            s@ == all.take(i as int),
            forall|j: int| 0 <= j < i ==> is_text_byte(#[trigger] bytes@[j]),
        decreases bytes.len() - i,
    {
        let b = bytes[i];
        if !((32 <= b && b < 127) || b == 9) {
            assert(!is_text_byte(bytes@[i as int]));
            return None;
        }
        s.push(b as char);
        i = i + 1;
        proof {
            assert(all.take(i as int) =~= all.take(i - 1).push(all[i - 1]));
        }
    }
    proof {
        assert(all.take(i as int) =~= all);
    }
    Some(s)
}

/// The text of a header, if it is there and holds nothing but text.
pub open spec fn header_of(headers: HeaderMap<HeaderValue>, name: Seq<char>) -> Option<Seq<char>> {
    if header_entries(headers).contains_key(text::lower(name)) {
        text_of_bytes(header_entries(headers)[text::lower(name)])
    } else {
        None
    }
}

/// The text of a header, if it is there and holds nothing but text.
pub fn header_text(headers: &HeaderMap<HeaderValue>, name: &str) -> (r: Option<String>)
    ensures
        match r {
            Some(s) => header_of(*headers, name@) == Some(s@),
            None => header_of(*headers, name@) is None,
        },
{
    match header_bytes(headers, name) {
        Some(bytes) => bytes_text(&bytes),
        None => None,
    }
}

/// A header tells a text exactly where each of its bytes is visible ASCII, a
/// space or a tab, and then the text is those characters.
pub proof fn header_texts_are_ascii(bytes: Seq<u8>, i: int)
    ensures
        text_of_bytes(bytes) matches Some(s) ==> s.len() == bytes.len(),
        text_of_bytes(bytes) matches Some(s) ==> (0 <= i < bytes.len() ==> s[i] as int
            == bytes[i] && (0x20 <= bytes[i] <= 0x7e || bytes[i] == 9)),
        text_of_bytes(bytes) is None ==> exists|k: int|
            0 <= k < bytes.len() && (#[trigger] bytes[k] < 32 && bytes[k] != 9 || bytes[k] >= 127),
{
    if text_of_bytes(bytes) is None {
        let k = choose|k: int| 0 <= k < bytes.len() && !is_text_byte(#[trigger] bytes[k]);
        assert(bytes[k] < 32 && bytes[k] != 9 || bytes[k] >= 127);
    }
    if text_of_bytes(bytes) is Some && 0 <= i < bytes.len() {
        assert(is_text_byte(bytes[i]));
    }
}

/// The case of ASCII letters does not matter to a header's name.
pub proof fn header_names_ignore_case(
    headers: HeaderMap<HeaderValue>,
    a: Seq<char>,
    b: Seq<char>,
)
    requires
        a.len() == b.len(),
        forall|i: int|
            0 <= i < a.len() ==> #[trigger] a[i] == b[i] || (0x41 <= a[i] as int <= 0x5a
                && b[i] as int == a[i] as int + 32),
    ensures
        header_of(headers, a) == header_of(headers, b),
{
    assert forall|i: int| 0 <= i < a.len() implies text::lower(a)[i] == text::lower(b)[i] by {
        assert(a[i] == b[i] || (0x41 <= a[i] as int <= 0x5a && b[i] as int == a[i] as int + 32));
    }
    assert(text::lower(a) =~= text::lower(b));
}

/// A header that is not there has no text; one that is there has the text of
/// its first value.
pub proof fn headers_are_looked_up(
    headers: HeaderMap<HeaderValue>,
    name: Seq<char>,
    bytes: Seq<u8>,
)
    ensures
        !header_entries(headers).contains_key(text::lower(name)) ==> header_of(
            headers,
            name,
        ) is None,
        header_entries(headers).contains_pair(text::lower(name), bytes) ==> header_of(headers, name)
            == text_of_bytes(bytes),
{
}

} // verus!
