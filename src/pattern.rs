use vstd::prelude::*;
use vstd::string::*;
use vstd::utf8::*;

use crate::error::GrepError;

verus! {

#[verifier::external_type_specification]
#[verifier::external_body]
pub struct ExRegex(regex::Regex);

#[verifier::external_type_specification]
#[verifier::external_body]
pub struct ExRegexError(regex::Error);

/// Whether the regex compiler accepts `pattern` with its default settings.
pub uninterp spec fn regex_compiles(pattern: Seq<char>) -> bool;

/// The byte offsets `(start, end)` of the leftmost-first match of `pattern`
/// in the UTF-8 text `haystack`, or `None` when there is no match.
pub uninterp spec fn leftmost_match(pattern: Seq<char>, haystack: Seq<u8>) -> Option<(usize, usize)>;

/// Relies on `regex::Regex::new`: it succeeds exactly on the patterns that
/// the compiler accepts with the default settings.
#[verifier::external_body]
fn regex_new(pattern: &str) -> (r: Result<regex::Regex, regex::Error>)
    ensures
        r is Ok <==> regex_compiles(pattern@),
{
    regex::Regex::new(pattern)
}

/// A compiled regular expression together with the text it was compiled from.
///
/// Both fields are set only by `compile`, so `regex` is always the result of
/// compiling `source`.
pub struct Pattern {
    source: String,
    regex: regex::Regex,
}

impl View for Pattern {
    type V = Seq<char>;

    closed spec fn view(&self) -> Seq<char> {
        self.source@
    }
}

/// Compiles `pattern` once, for reuse on every line of every file.
pub fn compile(pattern: &str) -> (r: Result<Pattern, GrepError>)
    ensures
        r is Ok <==> regex_compiles(pattern@),
        match r {
            Ok(p) => p@ == pattern@,
            Err(e) => e matches GrepError::InvalidPattern { pattern: q, .. } && q@ == pattern@,
        },
{
    match regex_new(pattern) {
        Ok(regex) => Ok(Pattern { source: pattern.to_owned(), regex }),
        Err(e) => Err(GrepError::InvalidPattern { pattern: pattern.to_owned(), reason: e.to_string() }),
    }
}

impl Pattern {
    /// Relies on `regex::Regex::find` and `regex::Match::{start, end}`: the
    /// leftmost-first match in `haystack` as byte offsets, with
    /// `start <= end <= haystack.len()`, both on UTF-8 char boundaries.
    #[verifier::external_body]
    pub(crate) fn find_span(&self, haystack: &str) -> (r: Option<(usize, usize)>)
        ensures
            r == leftmost_match(self@, haystack.spec_bytes()),
            match r {
                Some((s, e)) => s <= e <= haystack.spec_bytes().len()
                    && is_char_boundary(haystack.spec_bytes(), s as int)
                    && is_char_boundary(haystack.spec_bytes(), e as int),
                None => true,
            },
    {
        self.regex.find(haystack).map(|m| (m.start(), m.end()))
    }

    /// The text the pattern was compiled from.
    pub fn as_str(&self) -> (r: &str)
        ensures
            r@ == self@,
    {
        self.source.as_str()
    }
}

} // verus!
