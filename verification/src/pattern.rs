//! Regular expressions, as the tools take them from the command line.

use crate::text::concat3;
use regex::RegexBuilder;
use vstd::prelude::*;

verus! {

/// A compiled regular expression of the `regex` crate.
#[verifier::external_type_specification]
#[verifier::external_body]
pub struct ExRegex(regex::Regex);

/// Whether `source` is a regular expression that `regex` compiles, with or
/// without regard to case.
pub uninterp spec fn regex_compiles(source: Seq<char>, insensitive: bool) -> bool;

/// Whether the regular expression `source` matches anywhere in `text`.
pub uninterp spec fn regex_matches(source: Seq<char>, insensitive: bool, text: Seq<char>) -> bool;

/// A regular expression together with the text it was compiled from.
///
/// A `Pattern` is only ever made by compiling its source, so the compiled
/// expression is always the one that the source spells out.
#[derive(Debug)]
pub struct Pattern {
    source: String,
    insensitive: bool,
    compiled: regex::Regex,
}

impl Pattern {
    /// The text of the expression.
    pub closed spec fn source(&self) -> Seq<char> {
        self.source@
    }

    /// Whether the expression matches without regard to case.
    pub closed spec fn insensitive(&self) -> bool {
        self.insensitive
    }

    /// Whether the expression matches anywhere in `text`.
    pub open spec fn matches(&self, text: Seq<char>) -> bool {
        regex_matches(self.source(), self.insensitive(), text)
    }

    /// `RegexBuilder::build`, after `RegexBuilder::case_insensitive`:
    /// compiles `source`, and gives nothing where `regex` refuses it.
    #[verifier::external_body]
    fn compile(source: &str, insensitive: bool) -> (r: Option<Pattern>)
        ensures
            r is Some == regex_compiles(source@, insensitive),
            r matches Some(p) ==> p.source() == source@ && p.insensitive() == insensitive,
    {
        match RegexBuilder::new(source).case_insensitive(insensitive).build() {
            Ok(compiled) => Some(Pattern { source: source.to_owned(), insensitive, compiled }),
            Err(_) => None,
        }
    }

    /// `Regex::is_match`: whether there is a match anywhere in `text`.
    #[verifier::external_body]
    fn search(&self, text: &str) -> (found: bool)
        ensures
            found == regex_matches(self.source(), self.insensitive(), text@),
    {
        self.compiled.is_match(text)
    }

    /// Compiles `source`. The error names what the expression was given
    /// for, such as `--pattern`, and quotes it.
    pub fn parse(source: &str, insensitive: bool, what: &str) -> (r: Result<Pattern, String>)
        ensures
            r is Ok == regex_compiles(source@, insensitive),
            r matches Ok(p) ==> p.source() == source@ && p.insensitive() == insensitive,
            r matches Err(e) ==> e@ == invalid_pattern(what@, source@),
    {
        match Pattern::compile(source, insensitive) {
            Some(p) => Ok(p),
            None => {
                let mut e = concat3("Invalid ", what, " \"");
                e.push_str(source);
                e.push_str("\"");
                Err(e)
            },
        }
    }

    /// Whether the expression matches anywhere in `text`.
    pub fn is_match(&self, text: &str) -> (found: bool)
        ensures
            found == self.matches(text@),
    {
        self.search(text)
    }
}

/// The message for an expression that does not compile.
pub open spec fn invalid_pattern(what: Seq<char>, source: Seq<char>) -> Seq<char> {
    "Invalid "@ + what + " \""@ + source + "\""@
}

/// Whether one of `patterns` matches `text`.
pub open spec fn any_matches(patterns: Seq<Pattern>, text: Seq<char>) -> bool {
    exists|i: int| 0 <= i < patterns.len() && (#[trigger] patterns[i]).matches(text)
}

/// Whether one of `patterns` matches `text`.
pub fn matches_any(patterns: &Vec<Pattern>, text: &str) -> (found: bool)
    ensures
        found == any_matches(patterns@, text@),
{
    let mut i: usize = 0;
    while i < patterns.len()
        invariant
            i <= patterns.len(),
            forall|j: int| 0 <= j < i ==> !(#[trigger] patterns@[j]).matches(text@),
        decreases patterns.len() - i,
    {
        if patterns[i].is_match(text) {
            return true;
        }
        i += 1;
    }
    false
}

} // verus!
