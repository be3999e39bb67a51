//! The strict validation used at the builder boundary. The two checks are
//! made, as elsewhere in this crate's interface, with anchored regular
//! expressions; the surrounding code only sees their exactly-stated results.

use crate::tables::{is_kind_symbol, is_triad_pattern};
use vstd::prelude::*;

verus! {

/// Relies on regex::Regex::is_match with the fixed pattern `^[r-][w-][x-]$`.
/// With the default syntax (multi-line off), `^` and `$` match only at the
/// start and the end of the haystack, so the pattern accepts exactly the
/// three-character strings whose first character is `r` or `-`, second `w`
/// or `-`, and third `x` or `-`. Regex::new cannot fail on this fixed,
/// well-formed pattern.
#[verifier::external_body]
fn triad_pattern_is_match(perm: &str) -> (r: bool)
    ensures
        r == is_triad_pattern(perm@),
{
    regex::Regex::new("^[r-][w-][x-]$").unwrap().is_match(perm)
}

/// Relies on regex::Regex::is_match with the fixed pattern `^[-dlcbps]$`,
/// which (with `^` and `$` anchoring the whole haystack) accepts exactly
/// the one-character strings holding one of the seven file-kind symbols.
/// The character to test is handed over as a one-character string.
/// Regex::new cannot fail on this fixed, well-formed pattern.
#[verifier::external_body]
fn kind_pattern_is_match(symbol: char) -> (r: bool)
    ensures
        r == is_kind_symbol(symbol),
{
    regex::Regex::new("^[-dlcbps]$").unwrap().is_match(&symbol.to_string())
}

/// True exactly of the strings of the triad shape `[r-][w-][x-]` — the
/// strings the builder's permission setters accept.
pub fn is_valid_triad(perm: &str) -> (r: bool)
    ensures
        r == is_triad_pattern(perm@),
{
    triad_pattern_is_match(perm)
}

/// True exactly of the seven file-kind symbols `-dlcbps` — the characters
/// the builder's file-kind setter accepts.
pub fn is_valid_file_type(symbol: char) -> (r: bool)
    ensures
        r == is_kind_symbol(symbol),
{
    kind_pattern_is_match(symbol)
}

} // verus!
