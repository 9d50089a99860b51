//! Regular-expression matching through the `regex` crate. A matcher is
//! compiled once at module construction and then shared immutably
//! across scans. What a pattern matches is named by an uninterpreted
//! function: stating the regex language here would only restate the
//! crate, so contracts downstream speak of `regex_match` exactly.
use vstd::prelude::*;

verus! {

#[verifier::external_type_specification]
#[verifier::external_body]
pub struct ExRegex(regex::Regex);

/// Whether the regular expression written as `pattern` matches
/// somewhere in `text`: the result of `regex::Regex::is_match` for a
/// matcher compiled from `pattern`, a function of the two texts alone.
pub uninterp spec fn regex_match(pattern: Seq<char>, text: Seq<char>) -> bool;

/// Whether the regular expression written as `pattern` compiles: the
/// success of `regex::Regex::new`, a function of the pattern text
/// alone.
pub uninterp spec fn regex_compiles(pattern: Seq<char>) -> bool;

/// A compiled matcher paired with the pattern text it was compiled
/// from. Only `compile` constructs values of this type, so the pairing
/// stated by `spec_pattern` always holds.
pub struct CompiledRegex {
    pattern: String,
    matcher: regex::Regex,
}

impl CompiledRegex {
    /// The pattern this matcher was compiled from.
    pub closed spec fn spec_pattern(&self) -> Seq<char> {
        self.pattern@
    }

    /// Relies on regex::Regex::new: returns a matcher exactly when
    /// the pattern compiles, and nothing otherwise.
    #[verifier::external_body]
    pub(crate) fn compile(pattern: &str) -> (r: Option<CompiledRegex>)
        ensures
            r is Some <==> regex_compiles(pattern@),
            (r matches Some(c) ==> c.spec_pattern() == pattern@),
    {
        match regex::Regex::new(pattern) {
            Ok(matcher) => Some(CompiledRegex { pattern: pattern.to_string(), matcher }),
            Err(_) => None,
        }
    }

    /// Relies on regex::Regex::is_match: deterministic in the compiled
    /// pattern and the haystack text.
    #[verifier::external_body]
    pub(crate) fn is_match(&self, text: &str) -> (r: bool)
        ensures
            r == regex_match(self.spec_pattern(), text@),
    {
        self.matcher.is_match(text)
    }
}

} // verus!
