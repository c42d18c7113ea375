//! Compiled search patterns.
//!
//! Pattern syntax, compilation and matching are the work of the `regex` crate.
//! This module is the only place that touches a compiled expression: a
//! [`Matcher`] keeps the expression together with the pattern text and the flag
//! it was compiled from, and nothing outside this module can build or alter one.
//! The contracts below are stated over that text and flag; they are believed,
//! not proved.

use rayon::iter::{IntoParallelRefIterator, ParallelIterator};
use vstd::prelude::*;
use vstd::string::StringSliceAdditionalSpecFns;
use vstd::utf8::is_char_boundary;

verus! {

#[verifier::external_type_specification]
#[verifier::external_body]
pub struct ExRegex(regex::Regex);

/// What compiling `pattern` gives: `None` when an expression is built, the
/// text of the error otherwise.
pub uninterp spec fn compile_failure(pattern: Seq<char>, case_insensitive: bool) -> Option<
    Seq<char>,
>;

/// Whether the expression compiled from `pattern` matches anywhere in `text`.
pub uninterp spec fn pattern_matches(
    pattern: Seq<char>,
    case_insensitive: bool,
    text: Seq<char>,
) -> bool;

/// The successive non-overlapping matches of the expression compiled from
/// `pattern` in `text`, leftmost first, as byte ranges of `text`.
pub uninterp spec fn match_spans(pattern: Seq<char>, case_insensitive: bool, text: Seq<char>) -> Seq<
    (usize, usize),
>;

/// Characters that carry a meaning in pattern syntax.
pub open spec fn is_meta_character(c: char) -> bool {
    c == '\\' || c == '.' || c == '+' || c == '*' || c == '?' || c == '(' || c == ')' || c == '|'
        || c == '[' || c == ']' || c == '{' || c == '}' || c == '^' || c == '$' || c == '#' || c
        == '&' || c == '-' || c == '~'
}

/// `text` with a backslash put before each meta character.
pub open spec fn escaped(text: Seq<char>) -> Seq<char>
    decreases text.len(),
{
    if text.len() == 0 {
        Seq::empty()
    } else if is_meta_character(text.last()) {
        escaped(text.drop_last()).push('\\').push(text.last())
    } else {
        escaped(text.drop_last()).push(text.last())
    }
}

/// Spans lie inside `bytes` on character boundaries, each is a range, and
/// they follow one another without overlap.
pub open spec fn spans_well_formed(spans: Seq<(usize, usize)>, bytes: Seq<u8>) -> bool {
    &&& forall|i: int|
        0 <= i < spans.len() ==> {
            &&& (#[trigger] spans[i]).0 <= spans[i].1 <= bytes.len()
            &&& is_char_boundary(bytes, spans[i].0 as int)
            &&& is_char_boundary(bytes, spans[i].1 as int)
        }
    &&& forall|i: int, j: int|
        0 <= i < j < spans.len() ==> (#[trigger] spans[i]).1 <= (#[trigger] spans[j]).0
}

/// A compiled pattern, with the text and flag it was compiled from.
#[derive(Debug)]
pub struct Matcher {
    pattern: String,
    case_insensitive: bool,
    regex: regex::Regex,
}

impl Matcher {
    /// The pattern text this matcher was compiled from.
    pub closed spec fn pattern(&self) -> Seq<char> {
        self.pattern@
    }

    /// Whether this matcher ignores case.
    pub closed spec fn case_insensitive(&self) -> bool {
        self.case_insensitive
    }

    /// Whether this matcher matches anywhere in `text`.
    pub open spec fn accepts(&self, text: Seq<char>) -> bool {
        pattern_matches(self.pattern(), self.case_insensitive(), text)
    }

    /// The matches of this matcher in `text`.
    pub open spec fn spans(&self, text: Seq<char>) -> Seq<(usize, usize)> {
        match_spans(self.pattern(), self.case_insensitive(), text)
    }

    /// Calls `regex::RegexBuilder::new`, `case_insensitive` and `build`.
    /// Claims that success or failure, and the debug text of the error, depend
    /// on the pattern and the flag alone, and that the matcher built remembers
    /// both.
    #[verifier::external_body]
    pub(crate) fn compile(pattern: &str, case_insensitive: bool) -> (r: Result<Matcher, String>)
        ensures
            match r {
                Ok(m) => compile_failure(pattern@, case_insensitive) is None && m.pattern()
                    == pattern@ && m.case_insensitive() == case_insensitive,
                Err(e) => compile_failure(pattern@, case_insensitive) == Some(e@),
            },
    {
        match regex::RegexBuilder::new(pattern).case_insensitive(case_insensitive).build() {
            Ok(regex) => Ok(Matcher { pattern: pattern.to_owned(), case_insensitive, regex }),
            Err(e) => Err(format!("{e:?}")),
        }
    }

    /// Calls `regex::Regex::is_match`. Claims that the answer depends on the
    /// pattern, the flag and the text alone.
    #[verifier::external_body]
    fn is_match(&self, text: &str) -> (b: bool)
        ensures
            b == pattern_matches(self.pattern(), self.case_insensitive(), text@),
    {
        self.regex.is_match(text)
    }

    /// Whether this matcher matches anywhere in `line`.
    pub fn matches(&self, line: &str) -> (b: bool)
        ensures
            b == self.accepts(line@),
    {
        self.is_match(line)
    }

    /// Calls `regex::Regex::find_iter` and hands out each match as its byte
    /// range. Claims that the ranges depend on the pattern, the flag and the
    /// text alone, that they lie on character boundaries of the text, and that
    /// they come in order without overlap.
    #[verifier::external_body]
    pub(crate) fn find_spans(&self, text: &str) -> (spans: Vec<(usize, usize)>)
        ensures
            spans@ == match_spans(self.pattern(), self.case_insensitive(), text@),
            spans_well_formed(spans@, text.spec_bytes()),
    {
        self.regex.find_iter(text).map(|m| (m.start(), m.end())).collect()
    }

    /// Runs [`Matcher::matches`] over `lines` on rayon's thread pool
    /// (`par_iter`, `map`, `collect`). Claims that the answers come back in the
    /// order of the lines, one for each.
    #[verifier::external_body]
    pub(crate) fn match_each(&self, lines: &Vec<String>) -> (flags: Vec<bool>)
        ensures
            flags@.len() == lines@.len(),
            forall|i: int| 0 <= i < lines@.len() ==> flags@[i] == self.accepts(#[trigger] lines@[i]@),
    {
        lines.par_iter().map(|line| self.matches(line)).collect()
    }
}

impl Clone for Matcher {
    /// Calls `regex::Regex::clone`. Claims that the copy was compiled from the
    /// same pattern and flag as this one.
    #[verifier::external_body]
    fn clone(&self) -> (copy: Matcher)
        ensures
            copy.pattern() == self.pattern(),
            copy.case_insensitive() == self.case_insensitive(),
    {
        Matcher {
            pattern: self.pattern.clone(),
            case_insensitive: self.case_insensitive,
            regex: self.regex.clone(),
        }
    }
}

/// Calls `regex::escape`. Claims that it puts a backslash before each meta
/// character and leaves every other character as it is.
#[verifier::external_body]
pub(crate) fn escape(text: &str) -> (r: String)
    ensures
        r@ == escaped(text@),
{
    regex::escape(text)
}

} // verus!
