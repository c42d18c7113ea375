//! Search specifications and the line filter built on them.

use crate::matcher::{compile_failure, escape, escaped, pattern_matches, Matcher};
use vstd::prelude::*;
use vstd::string::StringExecFns;

verus! {

/// The texts of a sequence of strings.
pub open spec fn texts(lines: Seq<String>) -> Seq<Seq<char>> {
    lines.map_values(|line: String| line@)
}

/// The lines among `lines` that the expression compiled from `pattern`
/// matches, in the order in which they stand in `lines`.
pub open spec fn matching(lines: Seq<Seq<char>>, pattern: Seq<char>, case_insensitive: bool) -> Seq<
    Seq<char>,
> {
    lines.filter(|text: Seq<char>| pattern_matches(pattern, case_insensitive, text))
}

/// The pattern that is compiled for a search text: the text itself in regex
/// mode, the text with its meta characters escaped in literal mode.
pub open spec fn effective_pattern(string: Seq<char>, is_regex: bool) -> Seq<char> {
    if is_regex {
        string
    } else {
        escaped(string)
    }
}

/// What introduces the message of a failed compilation.
pub open spec fn compile_error_prefix() -> Seq<char> {
    "Invalid regex supplied: "@
}

/// Filtering a concatenation is concatenating the filtered parts: lines that
/// arrive later never change what was kept of the earlier ones.
pub proof fn lemma_matching_concat(
    a: Seq<Seq<char>>,
    b: Seq<Seq<char>>,
    pattern: Seq<char>,
    case_insensitive: bool,
)
    ensures
        matching(a + b, pattern, case_insensitive) == matching(a, pattern, case_insensitive)
            + matching(b, pattern, case_insensitive),
{
    Seq::filter_distributes_over_add(
        a,
        b,
        |text: Seq<char>| pattern_matches(pattern, case_insensitive, text),
    );
}

/// The rows of `rows` whose flag in `flags` is set, in their order.
pub open spec fn flagged<A>(rows: Seq<A>, flags: Seq<bool>) -> Seq<A>
    decreases rows.len(),
{
    if rows.len() == 0 || flags.len() != rows.len() {
        Seq::empty()
    } else if flags.last() {
        flagged(rows.drop_last(), flags.drop_last()).push(rows.last())
    } else {
        flagged(rows.drop_last(), flags.drop_last())
    }
}

/// Where each flag says whether the pattern matches the line it belongs to,
/// the flagged lines are the matching lines.
pub proof fn lemma_flagged_is_matching(
    lines: Seq<Seq<char>>,
    flags: Seq<bool>,
    pattern: Seq<char>,
    case_insensitive: bool,
)
    requires
        flags.len() == lines.len(),
        forall|i: int|
            0 <= i < lines.len() ==> flags[i] == pattern_matches(
                pattern,
                case_insensitive,
                #[trigger] lines[i],
            ),
    ensures
        flagged(lines, flags) == matching(lines, pattern, case_insensitive),
    decreases lines.len(),
{
    reveal(Seq::filter);
    if lines.len() > 0 {
        lemma_flagged_is_matching(lines.drop_last(), flags.drop_last(), pattern, case_insensitive);
    }
}

/// The lines of `lines` whose flag in `flags` is set, in their order.
pub fn select(lines: &Vec<String>, flags: &Vec<bool>) -> (kept: Vec<String>)
    requires
        flags@.len() == lines@.len(),
    ensures
        texts(kept@) == flagged(texts(lines@), flags@),
{
    let mut kept: Vec<String> = Vec::new();
    let mut i: usize = 0;
    while i < lines.len()
        invariant
            i <= lines@.len(),
            flags@.len() == lines@.len(),
            texts(kept@) == flagged(texts(lines@).take(i as int), flags@.take(i as int)),
        decreases lines@.len() - i,
    {
        proof {
            assert(texts(lines@).take(i + 1).drop_last() =~= texts(lines@).take(i as int));
            assert(flags@.take(i + 1).drop_last() =~= flags@.take(i as int));
        }
        if flags[i] {
            let line = lines[i].clone();
            assert(texts(kept@.push(line)) =~= texts(kept@).push(line@));
            kept.push(line);
        }
        i += 1;
    }
    proof {
        assert(texts(lines@).take(i as int) =~= texts(lines@));
        assert(flags@.take(i as int) =~= flags@);
    }
    kept
}

/// A pattern with its matching flags and the matcher compiled from them.
///
/// The matcher is absent until the first [`Search::update`] that compiles, and
/// after a compilation that failed; callers take an absent matcher to mean that
/// this search is inactive.
#[derive(Clone, Debug)]
pub struct Search {
    pub string: String,
    pub is_regex: bool,
    pub case_insensitive: bool,
    pub regex: Option<Matcher>,
    /// Whether the last [`Search::update`] recompiled the matcher.
    pub changed: bool,
}

impl Search {
    /// The matcher, if there is one, was compiled from the pattern and flags
    /// that the search holds now.
    pub open spec fn in_sync(&self) -> bool {
        match self.regex {
            Some(m) => m.pattern() == effective_pattern(self.string@, self.is_regex)
                && m.case_insensitive() == self.case_insensitive,
            None => true,
        }
    }

    /// The search holds no text, no flag and no matcher.
    pub open spec fn is_blank(&self) -> bool {
        &&& self.string@.len() == 0
        &&& !self.is_regex
        &&& !self.case_insensitive
        &&& self.regex is None
        &&& !self.changed
    }

    /// A search for `string`, not compiled yet.
    pub fn new(string: String, is_regex: bool, case_insensitive: bool) -> (s: Search)
        ensures
            s.string == string,
            s.is_regex == is_regex,
            s.case_insensitive == case_insensitive,
            s.regex is None,
            !s.changed,
    {
        Search { string, is_regex, case_insensitive, regex: None, changed: false }
    }

    pub fn is_empty(&self) -> (b: bool)
        ensures
            b == (self.string@.len() == 0),
    {
        self.string.as_str().is_empty()
    }

    /// Compiles the pattern for the text and flags held now.
    fn create_regex(&self) -> (r: Result<Matcher, String>)
        ensures
            match r {
                Ok(m) => {
                    &&& compile_failure(
                        effective_pattern(self.string@, self.is_regex),
                        self.case_insensitive,
                    ) is None
                    &&& m.pattern() == effective_pattern(self.string@, self.is_regex)
                    &&& m.case_insensitive() == self.case_insensitive
                },
                Err(e) => compile_failure(
                    effective_pattern(self.string@, self.is_regex),
                    self.case_insensitive,
                ) == Some(e@),
            },
    {
        if self.is_regex {
            Matcher::compile(self.string.as_str(), self.case_insensitive)
        } else {
            let literal = escape(self.string.as_str());
            Matcher::compile(literal.as_str(), self.case_insensitive)
        }
    }

    /// Whether `self` is what `before` becomes when its matcher is brought
    /// up to date, with `error` as the message that comes back.
    ///
    /// `data_changed` says whether the text or a flag was edited. The
    /// matcher is compiled anew when it was, and also when the text is not
    /// empty and there is no matcher. Compiling leaves text and flags as they
    /// are. Where it fails, the matcher is removed and the message is the
    /// reason, behind a few words of introduction.
    pub open spec fn updated(&self, before: &Search, data_changed: bool, error: Option<String>) -> bool {
        &&& self.string == before.string
        &&& self.is_regex == before.is_regex
        &&& self.case_insensitive == before.case_insensitive
        &&& self.changed == (data_changed || (before.string@.len() != 0 && before.regex is None))
        &&& !self.changed ==> self.regex == before.regex && error is None
        &&& self.changed ==> match compile_failure(
            effective_pattern(before.string@, before.is_regex),
            before.case_insensitive,
        ) {
            None => error is None && self.regex is Some && self.in_sync(),
            Some(reason) => self.regex is None && error is Some && error.unwrap()@
                == compile_error_prefix() + reason,
        }
    }

    /// Takes in the outcome of a compilation: the matcher, or the reason why
    /// there is none. A reason comes back as the message to show, behind a few
    /// words of introduction, and leaves the search without a matcher.
    pub fn install(&mut self, compiled: Result<Matcher, String>) -> (error: Option<String>)
        ensures
            final(self).string == old(self).string,
            final(self).is_regex == old(self).is_regex,
            final(self).case_insensitive == old(self).case_insensitive,
            final(self).changed == old(self).changed,
            match compiled {
                Ok(m) => final(self).regex == Some(m) && error is None,
                Err(reason) => final(self).regex is None && error is Some && error.unwrap()@
                    == compile_error_prefix() + reason@,
            },
    {
        match compiled {
            Ok(m) => {
                self.regex = Some(m);
                None
            },
            Err(reason) => {
                self.regex = None;
                Some(String::from_str("Invalid regex supplied: ").concat(reason.as_str()))
            },
        }
    }

    /// Brings the matcher up to date after an edit: see [`Search::updated`].
    pub fn update(&mut self, data_changed: bool) -> (error: Option<String>)
        ensures
            final(self).updated(old(self), data_changed, error),
    {
        self.changed = (!self.is_empty() && self.regex.is_none()) || data_changed;
        if self.changed {
            let compiled = self.create_regex();
            self.install(compiled)
        } else {
            None
        }
    }

    pub fn changed(&self) -> (b: bool)
        ensures
            b == self.changed,
    {
        self.changed
    }
}

impl Default for Search {
    fn default() -> (s: Search)
        ensures
            s.is_blank(),
    {
        Search {
            string: String::new(),
            is_regex: false,
            case_insensitive: false,
            regex: None,
            changed: false,
        }
    }
}

/// A search together with the switch that turns it into a filter.
#[derive(Clone, Debug)]
pub struct Filter {
    pub search: Search,
    pub filter: bool,
    /// Whether the last [`Filter::update`] saw the switch or the search change.
    pub changed: bool,
}

impl Filter {
    /// Whether the filter narrows the view: the switch is on, the search text
    /// is not empty.
    pub open spec fn is_applied(&self) -> bool {
        self.filter && self.search.string@.len() != 0
    }

    /// The filter is switched off and its search is blank.
    pub open spec fn is_blank(&self) -> bool {
        &&& self.search.is_blank()
        &&& !self.filter
        &&& !self.changed
    }

    /// A filter over `search`, switched on or off.
    pub fn new(search: Search, filter: bool) -> (f: Filter)
        ensures
            f.search == search,
            f.filter == filter,
            !f.changed,
    {
        Filter { search, filter, changed: false }
    }

    /// Whether `self` is what `before` becomes when its search is brought up
    /// to date: the switch stays as it is, the search is updated, and the
    /// filter counts as changed if the switch (`switch_changed`) or the
    /// search did.
    pub open spec fn updated(
        &self,
        before: &Filter,
        data_changed: bool,
        switch_changed: bool,
        error: Option<String>,
    ) -> bool {
        &&& self.filter == before.filter
        &&& self.search.updated(&before.search, data_changed, error)
        &&& self.changed == (switch_changed || self.search.changed)
    }

    /// Brings the search up to date after an edit: see [`Filter::updated`].
    pub fn update(&mut self, data_changed: bool, switch_changed: bool) -> (error: Option<String>)
        ensures
            final(self).updated(old(self), data_changed, switch_changed, error),
    {
        let error = self.search.update(data_changed);
        self.changed = switch_changed || self.search.changed();
        error
    }

    /// The lines of `it` that the matcher matches, in their order; `None` if
    /// there is no matcher to filter with.
    pub fn filter(&self, it: &Vec<String>) -> (r: Option<Vec<String>>)
        ensures
            match self.search.regex {
                None => r is None,
                Some(m) => r is Some && texts(r.unwrap()@) == matching(
                    texts(it@),
                    m.pattern(),
                    m.case_insensitive(),
                ),
            },
    {
        match &self.search.regex {
            None => None,
            Some(m) => {
                let flags = m.match_each(it);
                proof {
                    lemma_flagged_is_matching(
                        texts(it@),
                        flags@,
                        m.pattern(),
                        m.case_insensitive(),
                    );
                }
                Some(select(it, &flags))
            },
        }
    }

    pub fn changed(&self) -> (b: bool)
        ensures
            b == self.changed,
    {
        self.changed
    }
}

impl Default for Filter {
    fn default() -> (f: Filter)
        ensures
            f.is_blank(),
    {
        Filter { search: Search::default(), filter: false, changed: false }
    }
}

} // verus!
