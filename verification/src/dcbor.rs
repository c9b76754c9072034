//! The calls this library makes into dcbor, dcbor-pattern, bc-components
//! and regex, each behind a small trusted wrapper.
//!
//! Values cross these wrappers as plain data: CBOR as its dCBOR encoding,
//! dcbor-pattern expressions and regular expressions as their source text.
use vstd::prelude::*;

use crate::expression::registry_free;

verus! {

/// The paths that the dcbor-pattern expression `expr` matches in the dCBOR
/// value encoded by `cbor`, each path a sequence of dCBOR encodings. Empty
/// when `expr` does not parse or `cbor` does not decode. Only expressions
/// whose known-value literals are all numbers are matched through this name
/// (see `registry_free`): for them dcbor-pattern reads no known-values
/// registry, and values decoded from bytes carry no tag names, so tag-name
/// selectors find nothing whatever tags are registered.
pub uninterp spec fn dcbor_paths(expr: Seq<char>, cbor: Seq<u8>) -> Seq<Seq<Seq<u8>>>;

/// The paths captured under `name` when the dcbor-pattern expression `expr`
/// is matched against the dCBOR value encoded by `cbor`. Empty when there is
/// no such capture, when `expr` does not parse or `cbor` does not decode.
/// As for `dcbor_paths`, only expressions whose known-value literals are all
/// numbers are matched through this name.
pub uninterp spec fn dcbor_capture(expr: Seq<char>, cbor: Seq<u8>, name: Seq<char>) -> Seq<
    Seq<Seq<u8>>,
>;

/// The digest (SHA-256 of the dCBOR encoding) of a leaf envelope holding the
/// dCBOR value encoded by `cbor`.
pub uninterp spec fn leaf_digest(cbor: Seq<u8>) -> Seq<u8>;

/// Whether the binary regular expression `regex` matches somewhere in
/// `data`. False when `regex` does not compile.
pub uninterp spec fn bytes_regex_matches(regex: Seq<char>, data: Seq<u8>) -> bool;

/// Whether the regular expression `regex` compiles.
pub uninterp spec fn text_regex_valid(regex: Seq<char>) -> bool;

/// Whether the regular expression `regex`, when it compiles, matches
/// somewhere in `text`.
pub uninterp spec fn text_regex_matches(regex: Seq<char>, text: Seq<char>) -> bool;

/// The flat diagnostic notation of the dCBOR value encoded by `cbor`; empty
/// when `cbor` does not decode.
pub uninterp spec fn cbor_diagnostic(cbor: Seq<u8>) -> Seq<char>;

/// Parses `expr` with `dcbor_pattern::Pattern::parse`, decodes `cbor` with
/// `dcbor::CBOR::try_from_data`, and returns the paths of
/// `dcbor_pattern::Matcher::paths`, each element re-encoded with
/// `to_cbor_data`. The contract names the result `dcbor_paths`; a parse or
/// decode error gives no paths. Callers hand it only expressions whose
/// known-value literals are all numbers.
#[verifier::external_body]
pub fn match_dcbor_paths(expr: &str, cbor: &[u8]) -> (r: Vec<Vec<Vec<u8>>>)
    requires
        registry_free(expr@),
    ensures
        r.deep_view() == dcbor_paths(expr@, cbor@),
{
    let (Ok(pattern), Ok(value)) = (
        dcbor_pattern::Pattern::parse(expr),
        dcbor::CBOR::try_from_data(cbor),
    ) else {
        return Vec::new();
    };
    dcbor_pattern::Matcher::paths(&pattern, &value)
        .into_iter()
        .map(|path| path.into_iter().map(|c| c.to_cbor_data()).collect())
        .collect()
}

/// Parses `expr` and decodes `cbor` as `match_dcbor_paths` does, calls
/// `dcbor_pattern::Matcher::paths_with_captures`, and returns the paths
/// captured under `name` (none when the capture is absent), each element
/// re-encoded with `to_cbor_data`. The contract names the result
/// `dcbor_capture`.
#[verifier::external_body]
pub fn match_dcbor_capture(expr: &str, cbor: &[u8], name: &str) -> (r: Vec<Vec<Vec<u8>>>)
    requires
        registry_free(expr@),
    ensures
        r.deep_view() == dcbor_capture(expr@, cbor@, name@),
{
    let (Ok(pattern), Ok(value)) = (
        dcbor_pattern::Pattern::parse(expr),
        dcbor::CBOR::try_from_data(cbor),
    ) else {
        return Vec::new();
    };
    let (_, captures) = dcbor_pattern::Matcher::paths_with_captures(&pattern, &value);
    captures
        .get(name)
        .map(|paths| paths.iter().map(|p| p.iter().map(|c| c.to_cbor_data()).collect()).collect())
        .unwrap_or_default()
}

/// `bc_components::Digest::from_image(cbor)`, the digest that
/// `bc_envelope` gives a leaf holding that encoding, as its 32 bytes. The
/// contract names the result `leaf_digest`.
#[verifier::external_body]
pub fn digest_of_leaf(cbor: &[u8]) -> (r: Vec<u8>)
    ensures
        r@ == leaf_digest(cbor@),
{
    bc_components::Digest::from_image(cbor).data().to_vec()
}

/// `regex::bytes::Regex::new(regex)` followed by `is_match(data)`; false
/// when the expression does not compile. The contract names the result
/// `bytes_regex_matches`.
#[verifier::external_body]
pub fn bytes_regex_is_match(regex: &str, data: &[u8]) -> (r: bool)
    ensures
        r == bytes_regex_matches(regex@, data@),
{
    match regex::bytes::Regex::new(regex) {
        Ok(re) => re.is_match(data),
        Err(_) => false,
    }
}

/// `regex::Regex::new(regex)` followed by `is_match(text)`; None when the
/// expression does not compile. The contract names whether it compiles
/// `text_regex_valid`, and whether it matches `text_regex_matches`.
#[verifier::external_body]
pub fn text_regex_is_match(regex: &str, text: &str) -> (r: Option<bool>)
    ensures
        r is Some == text_regex_valid(regex@),
        r matches Some(b) ==> b == text_regex_matches(regex@, text@),
{
    match regex::Regex::new(regex) {
        Ok(re) => Some(re.is_match(text)),
        Err(_) => None,
    }
}

/// `dcbor::CBOR::try_from_data(cbor)` rendered with `diagnostic_flat`; empty
/// when the bytes do not decode. The contract names the result
/// `cbor_diagnostic`.
#[verifier::external_body]
pub fn cbor_diagnostic_flat(cbor: &[u8]) -> (r: String)
    ensures
        r@ == cbor_diagnostic(cbor@),
{
    match dcbor::CBOR::try_from_data(cbor) {
        Ok(value) => value.diagnostic_flat(),
        Err(_) => String::new(),
    }
}

} // verus!
