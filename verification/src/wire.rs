//! What HTTP accepts as a header name and a header value, and the header
//! map that requests carry; both come from the `http` types that `reqwest`
//! re-exports.

use vstd::prelude::*;
use reqwest::header::{HeaderMap, HeaderName, HeaderValue};
use vstd::string::StringSliceAdditionalSpecFns;

verus! {

#[verifier::external_type_specification]
#[verifier::external_body]
#[verifier::reject_recursive_types(T)]
pub struct ExHeaderMap<T>(HeaderMap<T>);

#[verifier::external_type_specification]
#[verifier::external_body]
pub struct ExHeaderValue(HeaderValue);

/// A byte that may stand in a header name: an RFC 9110 `tchar`
/// (letters, digits and ``!#$%&'*+-.^_`|~``).
pub open spec fn is_token_byte(b: u8) -> bool {
    ||| b == 33
    ||| 35 <= b <= 39
    ||| b == 42
    ||| b == 43
    ||| b == 45
    ||| b == 46
    ||| 48 <= b <= 57
    ||| 65 <= b <= 90
    ||| 94 <= b <= 122
    ||| b == 124
    ||| b == 126
}

/// The longest header name that `HeaderName` takes.
pub const MAX_HEADER_NAME_LEN: usize = 65535;

/// The number of distinct names that a `HeaderMap` takes without running
/// into its capacity limit, however the names hash.
pub const MAX_HEADER_MAP_NAMES: usize = 6553;

/// Bytes that `HeaderName::from_bytes` accepts.
pub open spec fn valid_header_name(b: Seq<u8>) -> bool {
    &&& 1 <= b.len() <= MAX_HEADER_NAME_LEN
    &&& forall|i: int| 0 <= i < b.len() ==> is_token_byte(#[trigger] b[i])
}

/// A header name byte in lower case.
pub open spec fn lower_byte(b: u8) -> u8 {
    if 65 <= b <= 90 {
        (b + 32) as u8
    } else {
        b
    }
}

/// The text of the `HeaderName` made from the bytes `b`: each byte in lower case.
pub open spec fn canonical_header_name(b: Seq<u8>) -> Seq<char> {
    Seq::new(b.len(), |i: int| lower_byte(b[i]) as char)
}

/// A byte that may stand in a header value: visible ASCII, space, tab,
/// and any byte above 127.
pub open spec fn is_value_byte(b: u8) -> bool {
    (b >= 32 && b != 127) || b == 9
}

/// Bytes that `HeaderValue::from_str` accepts.
pub open spec fn valid_header_value(b: Seq<u8>) -> bool {
    forall|i: int| 0 <= i < b.len() ==> is_value_byte(#[trigger] b[i])
}

/// The entries of a header map with no headers.
pub open spec fn no_header_entries() -> Map<Seq<char>, Seq<u8>> {
    Map::empty()
}

/// What each name of the header map `m` stands for: the name's text in
/// lower case, mapped to the bytes of its value.
pub uninterp spec fn header_map_entries(m: HeaderMap<HeaderValue>) -> Map<Seq<char>, Seq<u8>>;

/// `HeaderName::from_bytes`, for its verdict alone: it accepts exactly the
/// names of one to 65535 token bytes, and its error prints as
/// "invalid HTTP header name".
#[verifier::external_body]
pub(crate) fn check_header_name(name: &[u8]) -> (r: Result<(), String>)
    ensures
        r is Ok <==> valid_header_name(name@),
        r matches Err(e) ==> e@ == "invalid HTTP header name"@,
{
    match HeaderName::from_bytes(name) {
        Ok(_) => Ok(()),
        Err(e) => Err(e.to_string()),
    }
}

/// `HeaderValue::from_str`, for its verdict alone: it accepts exactly the
/// values whose every byte is visible ASCII, space, tab or above 127, and
/// its error prints as "failed to parse header value".
#[verifier::external_body]
pub(crate) fn check_header_value(value: &str) -> (r: Result<(), String>)
    ensures
        r is Ok <==> valid_header_value(value.spec_bytes()),
        r matches Err(e) ==> e@ == "failed to parse header value"@,
{
    match HeaderValue::from_str(value) {
        Ok(_) => Ok(()),
        Err(e) => Err(e.to_string()),
    }
}

/// `HeaderMap::new`: a map with no headers.
#[verifier::external_body]
pub(crate) fn header_map_new() -> (map: HeaderMap)
    ensures
        header_map_entries(map) == no_header_entries(),
{
    HeaderMap::new()
}

/// `HeaderMap::insert` of `HeaderName::from_bytes(name)` and
/// `HeaderValue::from_str(value)`: the name in lower case now maps to the
/// value alone, and every other name keeps its value. With fewer than
/// 6554 names in the map the insertion never hits the map's capacity limit.
#[verifier::external_body]
pub(crate) fn header_map_insert(m: &mut HeaderMap<HeaderValue>, name: &str, value: &str)
    requires
        valid_header_name(name.spec_bytes()),
        valid_header_value(value.spec_bytes()),
        header_map_entries(*old(m)).dom().len() <= MAX_HEADER_MAP_NAMES,
    ensures
        header_map_entries(*final(m)) == header_map_entries(*old(m)).insert(
            canonical_header_name(name.spec_bytes()),
            value.spec_bytes(),
        ),
{
    m.insert(HeaderName::from_bytes(name.as_bytes()).unwrap(), HeaderValue::from_str(value).unwrap());
}

} // verus!
