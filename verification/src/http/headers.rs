//! The headers of a request.

use vstd::prelude::*;

verus! {

/// The values of request headers, from the `http` crate.
#[verifier::external_type_specification]
#[verifier::external_body]
pub struct ExHeaderValue(axum::http::HeaderValue);

/// The headers of a request, from the `http` crate.
#[verifier::external_type_specification]
#[verifier::external_body]
#[verifier::reject_recursive_types(T)]
pub struct ExHeaderMap<T>(axum::http::HeaderMap<T>);

/// The values of each header, by its name in small letters, in the order in which they came.
pub uninterp spec fn header_values(
    headers: axum::http::HeaderMap<axum::http::HeaderValue>,
) -> Map<Seq<char>, Seq<Seq<u8>>>;

/// Whether `name` is a header name in small letters.
pub open spec fn header_name(name: Seq<char>) -> bool {
    &&& 0 < name.len() <= 64
    &&& forall|i: int| 0 <= i < name.len() ==> 'a' <= #[trigger] name[i] <= 'z' || name[i] == '-'
}

/// The first value of the header `name`.
pub open spec fn first_header(
    headers: axum::http::HeaderMap<axum::http::HeaderValue>,
    name: Seq<char>,
) -> Option<Seq<u8>> {
    if header_values(headers).contains_key(name) {
        Some(header_values(headers)[name].first())
    } else {
        None
    }
}

/// Calls `axum::http::HeaderMap::get` and copies the bytes of the value. Claims that the result is
/// the first value that the map holds under the name, or nothing where it holds none.
#[verifier::external_body]
fn get_header(
    headers: &axum::http::HeaderMap<axum::http::HeaderValue>,
    name: &str,
) -> (r: Option<Vec<u8>>)
    requires
        header_name(name@),
    ensures
        match r {
            Some(value) => header_values(*headers).contains_key(name@) && header_values(
                *headers,
            )[name@].first() == value@,
            None => !header_values(*headers).contains_key(name@),
        },
{
    headers.get(name).map(|value| value.as_bytes().to_vec())
}

/// Whether a byte is visible ASCII, a blank or a tab.
pub open spec fn visible(b: u8) -> bool {
    32 <= b < 127 || b == 9
}

/// The text of a header value; nothing where it holds something else than visible ASCII.
pub open spec fn header_text(value: Seq<u8>) -> Option<Seq<char>> {
    if forall|i: int| 0 <= i < value.len() ==> visible(#[trigger] value[i]) {
        Some(value.map_values(|b: u8| b as char))
    } else {
        None
    }
}

/// Calls `axum::http::HeaderValue::to_str` on the value with these bytes. Claims that it gives the
/// bytes as text where each is visible ASCII, a blank or a tab, and fails otherwise.
#[verifier::external_body]
fn header_to_str(value: &[u8]) -> (r: Option<String>)
    ensures
        match r {
            Some(text) => header_text(value@) == Some(text@),
            None => header_text(value@) is None,
        },
{
    let value = axum::http::HeaderValue::from_bytes(value).ok()?;
    value.to_str().ok().map(|text| text.to_owned())
}

/// A header as text.
pub enum HeaderText {
    Missing,
    /// The header is there and is no text.
    NotText,
    Text(String),
}

/// A header as text.
pub enum HeaderTextView {
    Missing,
    NotText,
    Text(Seq<char>),
}

impl View for HeaderText {
    type V = HeaderTextView;

    open spec fn view(&self) -> HeaderTextView {
        match self {
            HeaderText::Missing => HeaderTextView::Missing,
            HeaderText::NotText => HeaderTextView::NotText,
            HeaderText::Text(text) => HeaderTextView::Text(text@),
        }
    }
}

/// The header `name` as text.
pub open spec fn text_of_header(
    headers: axum::http::HeaderMap<axum::http::HeaderValue>,
    name: Seq<char>,
) -> HeaderTextView {
    match first_header(headers, name) {
        None => HeaderTextView::Missing,
        Some(value) => match header_text(value) {
            None => HeaderTextView::NotText,
            Some(text) => HeaderTextView::Text(text),
        },
    }
}

/// Reads the header `name` as text.
pub fn read_header(
    headers: &axum::http::HeaderMap<axum::http::HeaderValue>,
    name: &str,
) -> (r: HeaderText)
    requires
        header_name(name@),
    ensures
        r@ == text_of_header(*headers, name@),
{
    match get_header(headers, name) {
        None => HeaderText::Missing,
        Some(value) => match header_to_str(value.as_slice()) {
            None => HeaderText::NotText,
            Some(text) => HeaderText::Text(text),
        },
    }
}

} // verus!
