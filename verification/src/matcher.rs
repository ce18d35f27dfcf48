//! The trusted boundary around the regex engine. Everything the library
//! assumes about it is stated here and nowhere else.

use vstd::prelude::*;
use crate::position::opt_int;

verus! {

#[verifier::external_type_specification]
#[verifier::external_body]
pub struct ExRegex(regex::bytes::Regex);

/// Whether the regex engine accepts a pattern source. Compilation under the
/// engine's default configuration is deterministic, so this is a function of
/// the pattern alone; nothing more is assumed about it.
pub uninterp spec fn pattern_compiles(pattern: Seq<char>) -> bool;

/// The start offset of the first match of the compiled pattern on the
/// haystack, or nothing when the pattern matches nowhere. Compilation and
/// searching are deterministic, so this is a function of the pattern and the
/// haystack alone; nothing is assumed about which offset it is.
pub uninterp spec fn first_match(pattern: Seq<char>, hay: Seq<u8>) -> Option<int>;

/// A compiled matcher: the engine's regex together with the pattern source
/// it was compiled from. The fields are private: every matcher comes from
/// `Matcher::new`, so the regex always corresponds to the recorded pattern,
/// which is what lets `find_start`'s contract speak of `first_match` of
/// that pattern.
pub struct Matcher {
    regex: regex::bytes::Regex,
    pattern: String,
}

impl Matcher {
    /// The pattern source this matcher was compiled from.
    pub closed spec fn spec_pattern(self) -> Seq<char> {
        self.pattern@
    }

    /// Relies on `regex::bytes::Regex::new`: it compiles the pattern under
    /// the default configuration, returning `Err` with the engine's message
    /// exactly on the sources the engine rejects, which depends on the
    /// pattern source alone.
    #[verifier::external_body]
    pub(crate) fn new(pattern: &str) -> (r: Result<Matcher, String>)
        ensures
            r is Ok <==> pattern_compiles(pattern@),
            r matches Result::Ok(m) ==> m.spec_pattern() == pattern@,
    {
        match regex::bytes::Regex::new(pattern) {
            Ok(re) => Ok(Matcher { regex: re, pattern: pattern.to_owned() }),
            Err(e) => Err(e.to_string()),
        }
    }

    /// Relies on `regex::bytes::Regex::find` and `regex::bytes::Match::start`:
    /// the first match of this matcher's pattern starts at `first_match` of
    /// that pattern and the haystack — a byte offset into the haystack, never
    /// past its end.
    #[verifier::external_body]
    pub(crate) fn find_start(&self, line: &Vec<u8>) -> (r: Option<usize>)
        ensures
            opt_int(r) == first_match(self.spec_pattern(), line@),
            r matches Option::Some(i) ==> i <= line@.len(),
    {
        self.regex.find(line.as_slice()).map(|m| m.start())
    }
}

} // verus!
