use vstd::prelude::*;

verus! {

#[verifier::external_type_specification]
#[verifier::external_body]
pub struct ExRegexSet(regex::RegexSet);

#[verifier::external_type_specification]
#[verifier::external_body]
pub struct ExRegex(regex::Regex);

#[verifier::external_type_specification]
#[verifier::external_body]
pub struct ExRegexError(regex::Error);

/// What the regex crate's `Regex::is_match` answers for a regex compiled from
/// `pattern`, searched in `text`.
pub uninterp spec fn regex_matches(pattern: Seq<char>, text: Seq<char>) -> bool;

/// Whether the regex crate's `RegexSet::new` accepts the patterns, in this order:
/// each parses, and the compiled set stays within the default size limits.
pub uninterp spec fn regex_set_compiles(patterns: Seq<Seq<char>>) -> bool;

/// Whether the regex crate's `Regex::new` accepts `pattern`: it parses, and the
/// compiled program stays within the default size limits.
pub uninterp spec fn regex_compiles(pattern: Seq<char>) -> bool;

/// A compiled set of regular expressions, with the patterns it was compiled from.
pub struct PatternSet {
    set: regex::RegexSet,
    patterns: Ghost<Seq<Seq<char>>>,
}

impl PatternSet {
    /// The patterns, in the order given.
    pub closed spec fn patterns(self) -> Seq<Seq<char>> {
        self.patterns@
    }

    /// Whether one of the patterns matches somewhere in `text`.
    pub open spec fn spec_matches(self, text: Seq<char>) -> bool {
        exists|i: int| 0 <= i < self.patterns().len() && regex_matches(#[trigger] self.patterns()[i], text)
    }

    /// Calls regex's `RegexSet::new`, which succeeds exactly on the pattern lists
    /// it accepts; on success the set holds the given patterns. Which error comes
    /// back on failure is not stated.
    #[verifier::external_body]
    pub(crate) fn compile(patterns: &Vec<String>) -> (res: Result<PatternSet, regex::Error>)
        ensures
            res is Ok <==> regex_set_compiles(patterns@.map_values(|p: String| p@)),
            res matches Ok(s) ==> s.patterns() == patterns@.map_values(|p: String| p@),
    {
        match regex::RegexSet::new(patterns) {
            Ok(set) => Ok(PatternSet { set, patterns: Ghost(patterns@.map_values(|p: String| p@)) }),
            Err(e) => Err(e),
        }
    }

    /// Calls regex's `RegexSet::is_match`, which answers whether one of the regexes
    /// of the set matches the text.
    #[verifier::external_body]
    pub(crate) fn is_match(&self, text: &str) -> (res: bool)
        ensures
            res == self.spec_matches(text@),
    {
        self.set.is_match(text)
    }

    /// Whether one of the patterns matches somewhere in `text`.
    pub fn matches(&self, text: &str) -> (res: bool)
        ensures
            res == self.spec_matches(text@),
    {
        self.is_match(text)
    }
}

/// A set with no patterns matches nothing.
pub proof fn lemma_empty_set_matches_nothing(s: PatternSet, text: Seq<char>)
    requires
        s.patterns().len() == 0,
    ensures
        !s.spec_matches(text),
{
}

/// A compiled regular expression, with the pattern it was compiled from.
pub struct Pattern {
    re: regex::Regex,
    pattern: Ghost<Seq<char>>,
}

impl Pattern {
    pub closed spec fn pattern(self) -> Seq<char> {
        self.pattern@
    }

    /// Calls regex's `Regex::new`, which succeeds exactly on the patterns it
    /// accepts; on success the regex holds the given pattern. Which error comes
    /// back on failure is not stated.
    #[verifier::external_body]
    pub(crate) fn compile(pattern: &str) -> (res: Result<Pattern, regex::Error>)
        ensures
            res is Ok <==> regex_compiles(pattern@),
            res matches Ok(p) ==> p.pattern() == pattern@,
    {
        match regex::Regex::new(pattern) {
            Ok(re) => Ok(Pattern { re, pattern: Ghost(pattern@) }),
            Err(e) => Err(e),
        }
    }

    /// Calls regex's `Regex::is_match`.
    #[verifier::external_body]
    pub(crate) fn is_match(&self, text: &str) -> (res: bool)
        ensures
            res == regex_matches(self.pattern(), text@),
    {
        self.re.is_match(text)
    }
}

} // verus!
