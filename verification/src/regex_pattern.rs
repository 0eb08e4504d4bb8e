//! Regular-expression patterns, compiled once by the `regex` crate.

use regex::Regex;
use vstd::prelude::*;

verus! {

/// `regex::Regex`, a compiled regular expression: nothing inside it is seen
/// here.
#[verifier::external_type_specification]
#[verifier::external_body]
pub struct ExRegex(Regex);

/// `regex::Error`, why an expression does not compile: nothing inside it is
/// seen here.
#[verifier::external_type_specification]
#[verifier::external_body]
pub struct ExRegexError(regex::Error);

/// The texts in which the compiled expression `re` finds a match, anywhere in
/// the text: what [`Regex::is_match`] answers for `re`.
pub uninterp spec fn regex_language(re: Regex) -> Set<Seq<char>>;

/// The texts in which the expression written as `pattern` finds a match once
/// [`Regex::new`] has compiled it, or `None` where `Regex::new` refuses
/// `pattern`.
pub uninterp spec fn pattern_language(pattern: Seq<char>) -> Option<Set<Seq<char>>>;

/// `Regex::new` compiles an expression with the crate's default options and
/// limits. Claimed of it, and not proved: whether it succeeds depends on the
/// expression alone, and so do the texts in which the compiled value finds a
/// match.
pub assume_specification[ Regex::new ](re: &str) -> (r: Result<Regex, regex::Error>)
    ensures
        match r {
            Ok(compiled) => pattern_language(re@) == Some(regex_language(compiled)),
            Err(_) => pattern_language(re@) is None,
        },
;

/// `Regex::is_match` tells whether the expression matches anywhere in the
/// haystack. Claimed of it, and not proved: its answer depends on the compiled
/// expression and the haystack alone.
pub assume_specification[ Regex::is_match ](re: &Regex, haystack: &str) -> (found: bool)
    ensures
        found == regex_language(*re).contains(haystack@),
;

/// Whether `pattern` compiles as a regular expression.
pub open spec fn regex_compiles(pattern: Seq<char>) -> bool {
    pattern_language(pattern) is Some
}

/// Whether the expression `pattern` finds a match somewhere in `text`.
pub open spec fn regex_finds(pattern: Seq<char>, text: Seq<char>) -> bool {
    pattern_language(pattern) matches Some(language) && language.contains(text)
}

/// A regular expression together with its compiled form.
#[derive(Debug)]
pub struct RegexPattern {
    source: String,
    engine: Regex,
}

impl View for RegexPattern {
    type V = Seq<char>;

    /// The expression as it was written.
    closed spec fn view(&self) -> Seq<char> {
        self.source@
    }
}

impl RegexPattern {
    #[verifier::type_invariant]
    spec fn compiled_from_source(self) -> bool {
        pattern_language(self.source@) == Some(regex_language(self.engine))
    }

    /// Compiles `pattern`; `None` where it is no valid expression.
    pub fn compile(pattern: &str) -> (r: Option<RegexPattern>)
        ensures
            r is Some <==> regex_compiles(pattern@),
            r matches Some(p) ==> p@ == pattern@,
    {
        match Regex::new(pattern) {
            Ok(engine) => Some(RegexPattern { source: pattern.to_owned(), engine }),
            Err(_) => None,
        }
    }

    /// The expression as it was written.
    pub fn as_str(&self) -> (s: &str)
        ensures
            s@ == self@,
    {
        self.source.as_str()
    }

    /// Whether the expression matches anywhere in `text`.
    pub fn is_match(&self, text: &str) -> (found: bool)
        ensures
            found == regex_finds(self@, text@),
    {
        proof {
            use_type_invariant(self);
        }
        self.engine.is_match(text)
    }
}

} // verus!
