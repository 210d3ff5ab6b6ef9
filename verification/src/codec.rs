//! Character encodings (`encoding_rs`) and url-encoded form parsing
//! (`serde_urlencoded`), seen through named results.

use vstd::prelude::*;

verus! {

/// The name of the encoding that `encoding_rs` picks for a charset label, or
/// `None` when it knows no encoding by that label or the label names the
/// replacement encoding.
pub uninterp spec fn charset_encoding(label: Seq<u8>) -> Option<Seq<char>>;

/// `encoding_rs::Encoding::for_label_no_replacement`, given as the picked
/// encoding's name (`Encoding::name`). What label maps to what encoding is
/// the WHATWG table, and is not stated here.
#[verifier::external_body]
pub(crate) fn encoding_for_charset(label: &[u8]) -> (r: Option<String>)
    ensures
        r is Some == charset_encoding(label@) is Some,
        r matches Some(n) ==> charset_encoding(label@) == Some(n@),
{
    encoding_rs::Encoding::for_label_no_replacement(label).map(|e| e.name().to_string())
}

/// The text `encoding_rs` decodes from the bytes with the encoding that the
/// label picks, without BOM handling and without replacement: `None` when the
/// bytes are malformed in that encoding.
pub uninterp spec fn strict_decode(label: Seq<u8>, bytes: Seq<u8>) -> Option<Seq<char>>;

/// `Encoding::decode_without_bom_handling_and_without_replacement` on the
/// encoding the label picks. The label must pick one, and the input must be
/// small enough that the size of the output buffer cannot overflow.
#[verifier::external_body]
pub(crate) fn decode_strict(label: &[u8], bytes: &[u8]) -> (r: Option<String>)
    requires
        charset_encoding(label@) is Some,
        bytes@.len() <= usize::MAX / 4,
    ensures
        r is Some == strict_decode(label@, bytes@) is Some,
        r matches Some(t) ==> strict_decode(label@, bytes@) == Some(t@),
{
    encoding_rs::Encoding::for_label_no_replacement(label)
        .unwrap()
        .decode_without_bom_handling_and_without_replacement(bytes)
        .map(|t| t.into_owned())
}

/// The name/value pairs that `serde_urlencoded` reads from an
/// `application/x-www-form-urlencoded` text, in order, or `None` when it
/// reports an error.
pub uninterp spec fn urlencoded_pairs(input: Seq<u8>) -> Option<Seq<(Seq<char>, Seq<char>)>>;

/// The views of a list of pairs of strings.
pub open spec fn pair_views(v: Seq<(String, String)>) -> Seq<(Seq<char>, Seq<char>)> {
    v.map_values(|p: (String, String)| (p.0@, p.1@))
}

/// `serde_urlencoded::from_bytes::<Vec<(String, String)>>`.
#[verifier::external_body]
pub(crate) fn parse_urlencoded(input: &[u8]) -> (r: Option<Vec<(String, String)>>)
    ensures
        r is Some == urlencoded_pairs(input@) is Some,
        r matches Some(v) ==> urlencoded_pairs(input@) == Some(pair_views(v@)),
{
    serde_urlencoded::from_bytes::<Vec<(String, String)>>(input).ok()
}

} // verus!
