//! The header map of the `http` crate, seen through what it holds.
//!
//! A header map is viewed as a map from a lower-case header name (its bytes)
//! to the sequence of its values (each a byte sequence), in insertion order.

use vstd::prelude::*;
use vstd::string::StringSliceAdditionalSpecFns;

verus! {

#[verifier::external_type_specification]
#[verifier::external_body]
#[verifier::reject_recursive_types(T)]
pub struct ExHeaderMap<T>(http::HeaderMap<T>);

#[verifier::external_type_specification]
#[verifier::external_body]
pub struct ExHeaderValue(http::HeaderValue);

/// What a header map holds: for each lower-case name, its values in order.
pub uninterp spec fn header_entries(m: http::HeaderMap) -> Map<Seq<u8>, Seq<Seq<u8>>>;

/// A character allowed in a lower-case header name (an RFC 7230 token
/// character that is not an upper-case letter).
pub open spec fn is_lower_token_char(c: char) -> bool {
    ||| 'a' <= c <= 'z'
    ||| '0' <= c <= '9'
    ||| c == '!' || c == '#' || c == '$' || c == '%' || c == '&' || c == '\''
    ||| c == '*' || c == '+' || c == '-' || c == '.' || c == '^' || c == '_'
    ||| c == '`' || c == '|' || c == '~'
}

/// A header name written in lower case, as the map stores it: between one
/// and 65535 token characters (the longest name the `http` crate accepts).
pub open spec fn is_lower_token(s: Seq<char>) -> bool {
    &&& 0 < s.len() <= 65535
    &&& forall|i: int| 0 <= i < s.len() ==> is_lower_token_char(#[trigger] s[i])
}

/// The bytes of an ASCII text.
pub open spec fn ascii_bytes(s: Seq<char>) -> Seq<u8> {
    s.map_values(|c: char| c as u8)
}

/// A byte allowed in a header value: visible ASCII, obs-text or a tab.
pub open spec fn is_value_byte(b: u8) -> bool {
    (b >= 32 && b != 127) || b == 9
}

/// A header value made of allowed bytes only.
pub open spec fn is_header_value(v: Seq<u8>) -> bool {
    forall|i: int| 0 <= i < v.len() ==> is_value_byte(#[trigger] v[i])
}

/// The first value stored under a lower-case name, if the name is present.
pub open spec fn first_header(m: http::HeaderMap, name: Seq<char>) -> Option<Seq<u8>> {
    if header_entries(m).contains_key(ascii_bytes(name)) {
        Some(header_entries(m)[ascii_bytes(name)][0])
    } else {
        None
    }
}

/// The contents of a map without headers.
pub open spec fn no_headers() -> Map<Seq<u8>, Seq<Seq<u8>>> {
    Map::empty()
}

/// The number of distinct names below which adding a name can never make the
/// map exceed its maximal size.
///
/// A `HeaderMap` keeps one entry per distinct name in an index table of at most
/// 32768 slots. Before each insertion it reserves room: when the table is in
/// its "yellow" state (set by long probe sequences, which depend on the names'
/// hashes) and the entries fill at least a fifth of the table, the table
/// doubles, and doubling a full-size table fails and `insert` panics. With at
/// most 6553 entries a fifth of 32768 slots is never reached, and every other
/// growth stays within 32768 slots, so the insertion cannot fail.
pub open spec fn header_room() -> nat {
    6554
}

/// Text made of visible ASCII characters is a valid header value.
pub proof fn lemma_visible_ascii_value(s: &str)
    requires
        forall|i: int| 0 <= i < s@.len() ==> ' ' <= #[trigger] s@[i] <= '~',
    ensures
        is_header_value(s.spec_bytes()),
{
    assert(vstd::utf8::is_ascii_chars(s@));
    vstd::utf8::is_ascii_chars_encode_utf8(s@);
    assert forall|i: int| 0 <= i < s.spec_bytes().len() implies is_value_byte(
        #[trigger] s.spec_bytes()[i],
    ) by {
        assert(s@[i] as u8 == s.spec_bytes()[i]);
    }
}

/// `http::HeaderMap::new`: an empty map.
#[verifier::external_body]
pub(crate) fn header_map_new() -> (map: http::HeaderMap)
    ensures
        header_entries(map) == no_headers(),
{
    http::HeaderMap::new()
}

/// `http::HeaderMap::get`, by a lower-case name: the first value stored under
/// the name, copied out as bytes, or `None` when the name is absent.
#[verifier::external_body]
pub(crate) fn header_get(m: &http::HeaderMap, name: &str) -> (r: Option<Vec<u8>>)
    requires
        is_lower_token(name@),
    ensures
        r is Some == first_header(*m, name@) is Some,
        r matches Some(v) ==> first_header(*m, name@) == Some(v@),
{
    m.get(name).map(|v| v.as_bytes().to_vec())
}

/// `http::HeaderMap::insert` of `HeaderValue::from_str(value)` under a
/// lower-case name: every earlier value of that name is replaced by the one
/// value, other names keep theirs. The name must be valid and the value made
/// of allowed bytes (`from_str` refuses anything else), and the map must have
/// fewer than `header_room()` names, so that the map's growth cannot fail (see
/// there). What happens to a map with more names depends on the hashes of the
/// names it holds, which the contents do not show, so no call is admitted there.
#[verifier::external_body]
pub(crate) fn header_insert(m: &mut http::HeaderMap, name: &'static str, value: &str)
    requires
        is_lower_token(name@),
        is_header_value(value.spec_bytes()),
        header_entries(*old(m)).dom().finite(),
        header_entries(*old(m)).dom().len() < header_room(),
    ensures
        header_entries(*final(m)) == header_entries(*old(m)).insert(
            ascii_bytes(name@),
            seq![value.spec_bytes()],
        ),
{
    m.insert(name, http::HeaderValue::from_str(value).unwrap());
}

} // verus!
