//! The compiled-matcher boundary: the only place where the engine calls the
//! `regex` crate.  A compiled matcher is opaque here; what it holds is its
//! pattern source, and what a replace-all pass returns is named as a pure
//! function of that source, the text, and the replacement.

use vstd::prelude::*;

verus! {

#[verifier::external_type_specification]
#[verifier::external_body]
pub struct ExRegex(regex::Regex);

/// The pattern source that a compiled matcher was built from.
pub uninterp spec fn source_of(re: regex::Regex) -> Seq<char>;

/// What `Regex::replace_all` returns: the text with every non-overlapping
/// match of the pattern replaced by the replacement.  The `regex` crate
/// computes this from the pattern source, the haystack, and the replacement
/// alone, the same way on every call and every machine.
pub uninterp spec fn replace_all_of(
    pattern: Seq<char>,
    text: Seq<char>,
    replacement: Seq<char>,
) -> Seq<char>;

/// Whether `Regex::new` accepts a pattern source: a fixed property of the
/// source alone, the same on every call and every machine.
pub uninterp spec fn compiles_of(pattern: Seq<char>) -> bool;

/// Relies on `regex::Regex::new`: compiles the pattern source, returning
/// `Err` exactly on the sources its grammar rejects.  A compiled matcher is
/// determined by the pattern source it was built from.
#[verifier::external_body]
pub fn compile_pattern(pattern: &String) -> (r: Option<regex::Regex>)
    ensures
        r is Some == compiles_of(pattern@),
        r matches Some(re) ==> source_of(re) == pattern@,
{
    regex::Regex::new(pattern.as_str()).ok()
}

/// Relies on `regex::Regex::replace_all`: replaces every non-overlapping,
/// leftmost-first match of the compiled pattern in `text` with the
/// replacement text, as the `regex` crate interprets it (a `$` in it would
/// refer to a capture group; the built-in replacements hold none).
#[verifier::external_body]
pub fn replace_all(re: &regex::Regex, text: &String, replacement: &String) -> (r: String)
    ensures
        r@ == replace_all_of(source_of(*re), text@, replacement@),
{
    re.replace_all(text.as_str(), replacement.as_str()).into_owned()
}

} // verus!
