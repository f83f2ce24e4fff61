//! The narrow waist to the outside crates this library leans on: each
//! function here makes exactly one kind of outside call, and its contract
//! states what that crate's source shows of the result.

use sha2::Digest;
use vstd::prelude::*;

verus! {

/// Whether `pattern` is a well-formed regular expression.
pub uninterp spec fn spec_regex_ok(pattern: Seq<char>) -> bool;

/// Relies on regex::Regex::new: whether the pattern compiles depends on
/// the pattern text alone.
#[verifier::external_body]
pub fn regex_pattern_ok(pattern: &str) -> (r: bool)
    ensures
        r == spec_regex_ok(pattern@),
{
    regex::Regex::new(pattern).is_ok()
}

/// Whether `text` is a well-formed RFC 3339 timestamp.
pub uninterp spec fn spec_timestamp_ok(text: Seq<char>) -> bool;

/// Relies on chrono::DateTime::parse_from_rfc3339: whether the text
/// parses depends on the text alone.
#[verifier::external_body]
pub fn timestamp_text_ok(text: &str) -> (r: bool)
    ensures
        r == spec_timestamp_ok(text@),
{
    chrono::DateTime::parse_from_rfc3339(text).is_ok()
}

/// Whether `pattern` is a well-formed Unix shell style glob pattern.
pub uninterp spec fn spec_glob_pattern_ok(pattern: Seq<char>) -> bool;

/// Relies on glob::Pattern::new: whether the pattern compiles depends on
/// the pattern text alone.
#[verifier::external_body]
pub fn glob_pattern_ok(pattern: &str) -> (r: bool)
    ensures
        r == spec_glob_pattern_ok(pattern@),
{
    glob::Pattern::new(pattern).is_ok()
}

/// Whether the glob pattern matches the candidate string.
pub uninterp spec fn spec_glob_match(pattern: Seq<char>, candidate: Seq<char>) -> bool;

/// Relies on glob::Pattern::new and glob::Pattern::matches: matching with
/// the default options is a function of the two strings alone for any one
/// build of this library (the path-separator convention the crate matches
/// against is fixed when it is compiled).
#[verifier::external_body]
pub fn glob_pattern_matches(pattern: &str, candidate: &str) -> (r: bool)
    requires
        spec_glob_pattern_ok(pattern@),
    ensures
        r == spec_glob_match(pattern@, candidate@),
{
    match glob::Pattern::new(pattern) {
        Ok(p) => p.matches(candidate),
        Err(_) => false,
    }
}

/// The SHA-256 digest of a byte sequence.
pub uninterp spec fn spec_sha256(data: Seq<u8>) -> Seq<u8>;

/// Relies on sha2::Sha256: the digest depends on the input bytes alone,
/// and is always 32 bytes long.
#[verifier::external_body]
pub fn sha256_digest(data: &[u8]) -> (r: Vec<u8>)
    ensures
        r@ == spec_sha256(data@),
        r@.len() == 32,
{
    sha2::Sha256::digest(data).to_vec()
}

/// The sixteen lower-case hexadecimal digits, in value order.
pub open spec fn hex_digits() -> Seq<char> {
    seq!['0', '1', '2', '3', '4', '5', '6', '7', '8', '9', 'a', 'b', 'c', 'd', 'e', 'f']
}

/// Lower-case hexadecimal encoding: two digits for each byte, high
/// nibble first.
pub open spec fn spec_hex_lower(data: Seq<u8>) -> Seq<char>
    decreases data.len(),
{
    if data.len() == 0 {
        Seq::empty()
    } else {
        seq![
            hex_digits()[(data.first() / 16) as int],
            hex_digits()[(data.first() % 16) as int],
        ] + spec_hex_lower(data.drop_first())
    }
}

/// Relies on hex::encode: it writes each byte as two lower-case
/// hexadecimal digits, high nibble first.
#[verifier::external_body]
pub fn hex_encode(data: &[u8]) -> (r: String)
    ensures
        r@ == spec_hex_lower(data@),
{
    hex::encode(data)
}

/// Whether `text` parses as an HTTP URI.
pub uninterp spec fn spec_uri_ok(text: Seq<char>) -> bool;

/// Relies on the FromStr impl of http::Uri: whether the text parses
/// depends on the text alone.
#[verifier::external_body]
pub fn uri_text_ok(text: &str) -> (r: bool)
    ensures
        r == spec_uri_ok(text@),
{
    text.parse::<http::Uri>().is_ok()
}

} // verus!
