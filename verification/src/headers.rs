//! The header map that a response carries.
//!
//! The map and its values belong to the `http` crate. What a map holds is given
//! a name here, and the contracts of the functions below are taken on trust
//! from that crate's source.

use vstd::prelude::*;
use vstd::utf8::encode_utf8;

verus! {

/// `http::HeaderMap`, the headers of a message.
#[verifier::external_type_specification]
#[verifier::external_body]
#[verifier::reject_recursive_types(T)]
pub struct ExHeaderMap<T>(http::HeaderMap<T>);

/// `http::HeaderValue`, the value of one header.
#[verifier::external_type_specification]
#[verifier::external_body]
pub struct ExHeaderValue(http::HeaderValue);

/// The bytes of a header value.
pub uninterp spec fn header_value_bytes(value: http::HeaderValue) -> Seq<u8>;

/// What a header map holds: for each header name in it, written in lower case,
/// the bytes of the first value stored under that name.
pub uninterp spec fn header_values(headers: http::HeaderMap<http::HeaderValue>) -> Map<
    Seq<char>,
    Seq<u8>,
>;

/// The name under which a response states the media type of its body.
pub open spec fn content_type_name() -> Seq<char> {
    "content-type"@
}

/// A header map without entries.
pub open spec fn no_headers() -> Map<Seq<char>, Seq<u8>> {
    Map::empty()
}

/// A byte that may stand in a header value built from a static string: a
/// printable ASCII character, a space or a tab.
pub open spec fn is_visible_ascii(byte: u8) -> bool {
    (32 <= byte && byte < 127) || byte == 9
}

/// `HeaderMap::new`: a map without entries.
#[verifier::external_body]
pub(crate) fn empty_headers() -> (headers: http::HeaderMap<http::HeaderValue>)
    ensures
        header_values(headers) == no_headers(),
{
    http::HeaderMap::new()
}

/// `HeaderValue::from_static`: a value of the string's bytes. The call panics
/// on a byte that is not visible ASCII, which the precondition leaves out.
#[verifier::external_body]
pub(crate) fn static_header_value(src: &'static str) -> (value: http::HeaderValue)
    requires
        forall|i: int|
            0 <= i < encode_utf8(src@).len() ==> is_visible_ascii(
                #[trigger] encode_utf8(src@)[i],
            ),
    ensures
        header_value_bytes(value) == encode_utf8(src@),
{
    http::HeaderValue::from_static(src)
}

/// `HeaderMap::insert` under `http::header::CONTENT_TYPE`, on a map without
/// entries (the call panics only on a map that is full): afterwards the map
/// holds the value under that name.
#[verifier::external_body]
pub(crate) fn insert_content_type(
    headers: &mut http::HeaderMap<http::HeaderValue>,
    value: http::HeaderValue,
)
    requires
        header_values(*old(headers)) == no_headers(),
    ensures
        header_values(*final(headers)) == header_values(*old(headers)).insert(
            content_type_name(),
            header_value_bytes(value),
        ),
{
    headers.insert(http::header::CONTENT_TYPE, value);
}

} // verus!
