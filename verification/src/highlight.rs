//! Per-line styling: whole-line highlight rules and search-hit segmentation.
//!
//! Nothing here draws anything. A [`Line`] says how a line is to be shown: a
//! default format for the whole line, and, when a search is active, the line
//! cut into chunks with the hits marked.

use crate::matcher::{match_spans, pattern_matches, spans_well_formed};
use crate::search::{Filter, Search};
use vstd::prelude::*;
use vstd::string::StringSliceAdditionalSpecFns;
use vstd::utf8::{
    encode_utf8, encode_utf8_valid_utf8, is_char_boundary,
    is_char_boundary_iff_not_is_continuation_byte, is_char_boundary_start_end_of_seq,
    valid_utf8, valid_utf8_split,
};

verus! {

/// A colour, as red, green, blue and opacity.
#[derive(Clone, Copy, Debug, PartialEq, Eq, Structural)]
pub struct Color {
    pub r: u8,
    pub g: u8,
    pub b: u8,
    pub a: u8,
}

impl Color {
    pub open spec fn spec_rgb(r: u8, g: u8, b: u8) -> Color {
        Color { r, g, b, a: 255 }
    }

    /// An opaque colour.
    #[verifier::when_used_as_spec(spec_rgb)]
    pub fn rgb(r: u8, g: u8, b: u8) -> (c: Color)
        ensures
            c == Color::spec_rgb(r, g, b),
    {
        Color { r, g, b, a: 255 }
    }

    pub open spec fn spec_transparent() -> Color {
        Color { r: 0, g: 0, b: 0, a: 0 }
    }

    /// No colour at all.
    #[verifier::when_used_as_spec(spec_transparent)]
    pub fn transparent() -> (c: Color)
        ensures
            c == Color::spec_transparent(),
    {
        Color { r: 0, g: 0, b: 0, a: 0 }
    }
}

/// How a piece of text is coloured.
#[derive(Clone, Copy, Debug, PartialEq, Eq, Structural)]
pub struct TextFormat {
    pub color: Color,
    pub background: Color,
}

impl TextFormat {
    /// Grey text on no background: the format of a line that no rule claims.
    pub open spec fn plain() -> TextFormat {
        TextFormat { color: Color::spec_rgb(160, 160, 160), background: Color::spec_transparent() }
    }

    /// Red text on no background: the format of a search hit.
    pub open spec fn hit() -> TextFormat {
        TextFormat { color: Color::spec_rgb(255, 0, 0), background: Color::spec_transparent() }
    }

    /// The format of a search hit.
    pub fn search_hit() -> (f: TextFormat)
        ensures
            f == TextFormat::hit(),
    {
        TextFormat { color: Color::rgb(255, 0, 0), background: Color::transparent() }
    }
}

impl Default for TextFormat {
    fn default() -> (f: TextFormat)
        ensures
            f == TextFormat::plain(),
    {
        TextFormat { color: Color::rgb(160, 160, 160), background: Color::transparent() }
    }
}

/// A stretch of a line, with its own format if it has one.
#[derive(Clone, Debug)]
pub struct TextChunk {
    pub text: String,
    pub format: Option<TextFormat>,
}

/// A line as it is to be shown.
#[derive(Clone, Debug)]
pub struct Line {
    pub full: String,
    pub chunks: Option<Vec<TextChunk>>,
    pub default_format: TextFormat,
}

impl Line {
    pub fn new(txt: String, format: TextFormat) -> (l: Line)
        ensures
            l.full == txt,
            l.chunks is None,
            l.default_format == format,
    {
        Line { full: txt, chunks: None, default_format: format }
    }

    /// A line in the plain format.
    pub fn from_text(value: &str) -> (l: Line)
        ensures
            l.full@ == value@,
            l.chunks is None,
            l.default_format == TextFormat::plain(),
    {
        Line::new(value.to_owned(), TextFormat::default())
    }
}

impl From<String> for Line {
    fn from(value: String) -> (l: Line) {
        Line { full: value, chunks: None, default_format: TextFormat::default() }
    }
}

impl vstd::std_specs::convert::FromSpecImpl<String> for Line {
    open spec fn obeys_from_spec() -> bool {
        true
    }

    open spec fn from_spec(value: String) -> Line {
        Line { full: value, chunks: None, default_format: TextFormat::plain() }
    }
}

/// A rule that colours every line its search matches.
#[derive(Clone, Debug)]
pub struct RowHighlight {
    pub search: Search,
    pub bg_color: Color,
    pub fg_color: Color,
    /// Set when the rule is to be taken off the list.
    pub should_delete: bool,
}

impl RowHighlight {
    /// The format this rule gives to the lines it claims.
    pub open spec fn format(&self) -> TextFormat {
        TextFormat { color: self.fg_color, background: self.bg_color }
    }

    /// Whether this rule claims `text`: its search text is not empty, it has
    /// a matcher, and the matcher matches.
    pub open spec fn applies(&self, text: Seq<char>) -> bool {
        &&& self.search.string@.len() != 0
        &&& self.search.regex is Some
        &&& pattern_matches(
            self.search.regex.unwrap().pattern(),
            self.search.regex.unwrap().case_insensitive(),
            text,
        )
    }

    /// The rule is as a new rule is: dark green behind light green, a blank
    /// search, not marked for removal.
    pub open spec fn is_blank(&self) -> bool {
        &&& self.bg_color == Color::spec_rgb(0, 100, 0)
        &&& self.fg_color == Color::spec_rgb(144, 238, 144)
        &&& self.search.is_blank()
        &&& !self.should_delete
    }

    /// A rule over `search` with the given colours.
    pub fn new(search: Search, bg_color: Color, fg_color: Color) -> (rule: RowHighlight)
        ensures
            rule.search == search,
            rule.bg_color == bg_color,
            rule.fg_color == fg_color,
            !rule.should_delete,
    {
        RowHighlight { search, bg_color, fg_color, should_delete: false }
    }
}

impl Default for RowHighlight {
    fn default() -> (rule: RowHighlight)
        ensures
            rule.is_blank(),
    {
        RowHighlight {
            bg_color: Color::rgb(0, 100, 0),
            fg_color: Color::rgb(144, 238, 144),
            search: Search::default(),
            should_delete: false,
        }
    }
}

/// The index of the first rule in `rules` that claims `text`.
pub open spec fn winning_rule(rules: Seq<RowHighlight>, text: Seq<char>) -> Option<int>
    decreases rules.len(),
{
    if rules.len() == 0 {
        None
    } else {
        match winning_rule(rules.drop_last(), text) {
            Some(i) => Some(i),
            None => if rules.last().applies(text) {
                Some(rules.len() - 1)
            } else {
                None
            },
        }
    }
}

/// The whole-line format of `text` under `rules`: that of the first rule that
/// claims it, the plain format if none does.
pub open spec fn line_format(rules: Seq<RowHighlight>, text: Seq<char>) -> TextFormat {
    match winning_rule(rules, text) {
        Some(i) => rules[i].format(),
        None => TextFormat::plain(),
    }
}

/// The winning rule claims the text, and no rule before it does; without a
/// winning rule, no rule claims the text.
pub proof fn lemma_winning_rule(rules: Seq<RowHighlight>, text: Seq<char>)
    ensures
        match winning_rule(rules, text) {
            Some(i) => {
                &&& 0 <= i < rules.len()
                &&& rules[i].applies(text)
                &&& forall|j: int| 0 <= j < i ==> !(#[trigger] rules[j]).applies(text)
            },
            None => forall|j: int| 0 <= j < rules.len() ==> !(#[trigger] rules[j]).applies(text),
        },
    decreases rules.len(),
{
    if rules.len() > 0 {
        lemma_winning_rule(rules.drop_last(), text);
        assert(forall|j: int|
            0 <= j < rules.len() - 1 ==> rules.drop_last()[j] == #[trigger] rules[j]);
    }
}

/// Rule order decides: of two rules that both claim a line, the one that
/// stands earlier in the list gives the line its format, whatever follows it.
pub proof fn lemma_first_rule_wins(rules: Seq<RowHighlight>, text: Seq<char>, first: int)
    requires
        0 <= first < rules.len(),
        rules[first].applies(text),
        forall|j: int| 0 <= j < first ==> !(#[trigger] rules[j]).applies(text),
    ensures
        winning_rule(rules, text) == Some(first),
        line_format(rules, text) == rules[first].format(),
{
    lemma_winning_rule(rules, text);
}

/// A winner found among the first `k` rules is the winner among all of them.
proof fn lemma_winner_in_prefix(rules: Seq<RowHighlight>, k: int, text: Seq<char>)
    requires
        0 <= k <= rules.len(),
        winning_rule(rules.take(k), text) is Some,
    ensures
        winning_rule(rules, text) == winning_rule(rules.take(k), text),
    decreases rules.len(),
{
    if k == rules.len() {
        assert(rules.take(k) =~= rules);
    } else {
        assert(rules.drop_last().take(k) =~= rules.take(k));
        lemma_winner_in_prefix(rules.drop_last(), k, text);
    }
}

/// A cut of a line: the byte range it covers, and whether it is a search hit.
pub struct Segment {
    pub start: int,
    pub end: int,
    pub matched: bool,
}

/// The cuts that the hits `spans` make in a line of `len` bytes, of which the
/// bytes before `last_end` are already cut. Each hit is a cut of its own; the
/// text before a hit is a cut unless the hit starts the line; what follows the
/// last hit is the last cut.
pub open spec fn segments_from(spans: Seq<(usize, usize)>, last_end: int, len: int) -> Seq<Segment>
    decreases spans.len(),
{
    if spans.len() == 0 {
        seq![Segment { start: last_end, end: len, matched: false }]
    } else {
        let hit = Segment { start: spans[0].0 as int, end: spans[0].1 as int, matched: true };
        let rest = segments_from(spans.drop_first(), spans[0].1 as int, len);
        if spans[0].0 > 0 {
            seq![Segment { start: last_end, end: spans[0].0 as int, matched: false }, hit] + rest
        } else {
            seq![hit] + rest
        }
    }
}

/// The cuts that the hits `spans` make in a line of `len` bytes.
pub open spec fn segments(spans: Seq<(usize, usize)>, len: int) -> Seq<Segment> {
    segments_from(spans, 0, len)
}

/// Whether `chunk` shows the cut `segment` of the line with the bytes `bytes`:
/// it holds the text of that byte range, in the hit format if it is a hit.
pub open spec fn chunk_shows(chunk: TextChunk, segment: Segment, bytes: Seq<u8>) -> bool {
    &&& encode_utf8(chunk.text@) == bytes.subrange(segment.start, segment.end)
    &&& chunk.format == if segment.matched {
        Some(TextFormat::hit())
    } else {
        None
    }
}

/// Whether `chunks` show, one for one and in order, the cuts `cuts` of the
/// line with the bytes `bytes`.
pub open spec fn chunks_show(chunks: Seq<TextChunk>, cuts: Seq<Segment>, bytes: Seq<u8>) -> bool {
    &&& chunks.len() == cuts.len()
    &&& forall|k: int| 0 <= k < chunks.len() ==> chunk_shows(#[trigger] chunks[k], cuts[k], bytes)
}

/// The cuts of a line follow one another without a gap from its first byte to
/// its last: put together, the chunks give the line again.
pub proof fn lemma_segments_tile(spans: Seq<(usize, usize)>, last_end: int, len: int)
    requires
        forall|i: int| 0 <= i < spans.len() ==> last_end <= (#[trigger] spans[i]).0,
        forall|i: int| 0 <= i < spans.len() ==> (#[trigger] spans[i]).0 <= spans[i].1 <= len,
        forall|i: int, j: int|
            0 <= i < j < spans.len() ==> (#[trigger] spans[i]).1 <= (#[trigger] spans[j]).0,
        0 <= last_end <= len,
    ensures
        ({
            let cuts = segments_from(spans, last_end, len);
            &&& cuts.len() >= 1
            &&& cuts[0].start == last_end
            &&& cuts.last().end == len
            &&& forall|k: int| 0 <= k < cuts.len() ==> (#[trigger] cuts[k]).start <= cuts[k].end
            &&& forall|k: int| 0 <= k < cuts.len() - 1 ==> (#[trigger] cuts[k]).end == cuts[k + 1].start
        }),
    decreases spans.len(),
{
    if spans.len() > 0 {
        let rest_spans = spans.drop_first();
        assert forall|i: int| 0 <= i < rest_spans.len() implies spans[0].1 <= (
        #[trigger] rest_spans[i]).0 by {
        }
        lemma_segments_tile(rest_spans, spans[0].1 as int, len);
        let rest = segments_from(rest_spans, spans[0].1 as int, len);
        let cuts = segments_from(spans, last_end, len);
        let hit = Segment { start: spans[0].0 as int, end: spans[0].1 as int, matched: true };
        if spans[0].0 > 0 {
            let gap = Segment { start: last_end, end: spans[0].0 as int, matched: false };
            assert forall|k: int| 0 <= k < cuts.len() - 1 implies (#[trigger] cuts[k]).end
                == cuts[k + 1].start by {
                if k >= 2 {
                }
            }
            assert forall|k: int| 0 <= k < cuts.len() implies (#[trigger] cuts[k]).start
                <= cuts[k].end by {
                if k >= 2 {
                }
            }
        } else {
            assert forall|k: int| 0 <= k < cuts.len() - 1 implies (#[trigger] cuts[k]).end
                == cuts[k + 1].start by {
                if k >= 1 {
                }
            }
            assert forall|k: int| 0 <= k < cuts.len() implies (#[trigger] cuts[k]).start
                <= cuts[k].end by {
                if k >= 1 {
                }
            }
        }
    }
}

/// The cuts that well-formed hits make in a line cover the line: the first
/// starts at its first byte, each starts where the one before it ends, and
/// the last ends at its last byte.
pub proof fn lemma_cuts_cover_line(spans: Seq<(usize, usize)>, bytes: Seq<u8>)
    requires
        spans_well_formed(spans, bytes),
    ensures
        ({
            let cuts = segments(spans, bytes.len() as int);
            &&& cuts.len() >= 1
            &&& cuts[0].start == 0
            &&& cuts.last().end == bytes.len()
            &&& forall|k: int| 0 <= k < cuts.len() ==> 0 <= (#[trigger] cuts[k]).start <= cuts[k].end
                <= bytes.len()
            &&& forall|k: int| 0 <= k < cuts.len() - 1 ==> (#[trigger] cuts[k]).end == cuts[k + 1].start
        }),
{
    lemma_segments_tile(spans, 0, bytes.len() as int);
    let cuts = segments(spans, bytes.len() as int);
    assert forall|k: int| 0 <= k < cuts.len() implies 0 <= (#[trigger] cuts[k]).start <= cuts[k].end
        <= bytes.len() by {
        lemma_chain_is_monotone(cuts, 0, k);
        lemma_chain_is_monotone(cuts, k, cuts.len() - 1);
    }
}

/// In a chain of cuts, each of which starts where the one before it ends, a
/// later cut starts no earlier than an earlier one, and ends no earlier.
proof fn lemma_chain_is_monotone(cuts: Seq<Segment>, i: int, j: int)
    requires
        0 <= i <= j < cuts.len(),
        forall|k: int| 0 <= k < cuts.len() ==> (#[trigger] cuts[k]).start <= cuts[k].end,
        forall|k: int| 0 <= k < cuts.len() - 1 ==> (#[trigger] cuts[k]).end == cuts[k + 1].start,
    ensures
        cuts[i].start <= cuts[j].start,
        cuts[i].end <= cuts[j].end,
    decreases j - i,
{
    if i < j {
        lemma_chain_is_monotone(cuts, i, j - 1);
        assert(cuts[j - 1].end == cuts[j - 1 + 1].start);
    }
}

/// The text of `text` between two character boundaries, given as byte
/// offsets.
fn slice_text(text: &str, start: usize, end: usize) -> (piece: String)
    requires
        start <= end <= text.spec_bytes().len(),
        is_char_boundary(text.spec_bytes(), start as int),
        is_char_boundary(text.spec_bytes(), end as int),
    ensures
        encode_utf8(piece@) == text.spec_bytes().subrange(start as int, end as int),
{
    let ghost bytes = text.spec_bytes();
    proof {
        encode_utf8_valid_utf8(text@);
        valid_utf8_split(bytes, start as int);
    }
    let (_, tail) = text.split_at(start);
    proof {
        let tail_bytes = bytes.subrange(start as int, bytes.len() as int);
        if end < bytes.len() {
            is_char_boundary_iff_not_is_continuation_byte(bytes, end as int);
            is_char_boundary_iff_not_is_continuation_byte(tail_bytes, end - start);
        } else {
            is_char_boundary_start_end_of_seq(tail_bytes);
        }
    }
    let (piece, _) = tail.split_at(end - start);
    piece.to_owned()
}

/// The rules of `rules` that are not marked for removal, in their order.
pub open spec fn unmarked(rules: Seq<RowHighlight>) -> Seq<RowHighlight>
    decreases rules.len(),
{
    if rules.len() == 0 {
        Seq::empty()
    } else if rules.last().should_delete {
        unmarked(rules.drop_last())
    } else {
        unmarked(rules.drop_last()).push(rules.last())
    }
}

/// The filter and the highlight rules that shape how lines are shown.
#[derive(Clone, Debug)]
pub struct RowModifier {
    pub filter: Filter,
    pub row_highlights: Vec<RowHighlight>,
}

impl RowModifier {
    /// There are no rules and the filter is blank.
    pub open spec fn is_blank(&self) -> bool {
        &&& self.row_highlights@.len() == 0
        &&& self.filter.is_blank()
    }

    /// The whole-line format of `text`: that of the first rule that claims it.
    fn row_format(&self, text: &str) -> (format: TextFormat)
        ensures
            format == line_format(self.row_highlights@, text@),
    {
        let mut i: usize = 0;
        while i < self.row_highlights.len()
            invariant
                i <= self.row_highlights@.len(),
                winning_rule(self.row_highlights@.take(i as int), text@) is None,
            decreases self.row_highlights@.len() - i,
        {
            let rule = &self.row_highlights[i];
            assert(self.row_highlights@.take(i + 1).drop_last() =~= self.row_highlights@.take(
                i as int,
            ));
            if !rule.search.is_empty() {
                if let Some(re) = &rule.search.regex {
                    if re.matches(text) {
                        proof {
                            lemma_winner_in_prefix(self.row_highlights@, i + 1, text@);
                        }
                        return TextFormat { color: rule.fg_color, background: rule.bg_color };
                    }
                }
            }
            i += 1;
        }
        assert(self.row_highlights@.take(i as int) =~= self.row_highlights@);
        TextFormat::default()
    }

    /// The chunks that show the cuts that the hits `spans` make in `text`.
    pub fn cut_line(text: &str, spans: &Vec<(usize, usize)>) -> (chunks: Vec<TextChunk>)
        requires
            spans_well_formed(spans@, text.spec_bytes()),
        ensures
            chunks_show(chunks@, segments(spans@, text.spec_bytes().len() as int), text.spec_bytes()),
    {
        let ghost bytes = text.spec_bytes();
        let ghost len = bytes.len() as int;
        let mut chunks: Vec<TextChunk> = Vec::new();
        let mut last_end: usize = 0;
        let mut i: usize = 0;
        let ghost mut done: Seq<Segment> = Seq::empty();
        proof {
            encode_utf8_valid_utf8(text@);
            is_char_boundary_start_end_of_seq(bytes);
            assert(spans@.skip(0) =~= spans@);
        }
        while i < spans.len()
            invariant
                i <= spans@.len(),
                bytes == text.spec_bytes(),
                len == bytes.len(),
                valid_utf8(bytes),
                spans_well_formed(spans@, bytes),
                last_end <= len,
                is_char_boundary(bytes, last_end as int),
                forall|k: int| i <= k < spans@.len() ==> last_end <= (#[trigger] spans@[k]).0,
                chunks_show(chunks@, done, bytes),
                done + segments_from(spans@.skip(i as int), last_end as int, len) == segments(
                    spans@,
                    len,
                ),
            decreases spans@.len() - i,
        {
            let (start, end) = spans[i];
            let ghost hit = Segment { start: start as int, end: end as int, matched: true };
            let ghost gap = Segment { start: last_end as int, end: start as int, matched: false };
            assert(spans@.skip(i as int).drop_first() =~= spans@.skip(i + 1));
            if start > 0 {
                let piece = slice_text(text, last_end, start);
                chunks.push(TextChunk { text: piece, format: None });
            }
            let piece = slice_text(text, start, end);
            chunks.push(TextChunk { text: piece, format: Some(TextFormat::search_hit()) });
            proof {
                done = if start > 0 {
                    done.push(gap).push(hit)
                } else {
                    done.push(hit)
                };
            }
            last_end = end;
            i += 1;
        }
        let piece = slice_text(text, last_end, text.as_bytes().len());
        chunks.push(TextChunk { text: piece, format: None });
        chunks
    }

    /// Whether `line` is how `text` is to be shown.
    ///
    /// The default format is that of the first highlight rule that claims the
    /// text. Apart from that, when the filter's search has a matcher, whether
    /// or not the filter is switched on, the text is cut at the matcher's hits
    /// and each hit is marked. The hits lie in the text, on character
    /// boundaries, one after the other, so that the chunks cover the text
    /// without gap or overlap: see [`lemma_cuts_cover_line`].
    pub open spec fn styles(&self, text: Seq<char>, line: Line) -> bool {
        &&& line.full@ == text
        &&& line.default_format == line_format(self.row_highlights@, text)
        &&& match self.filter.search.regex {
            None => line.chunks is None,
            Some(m) => {
                &&& line.chunks is Some
                &&& spans_well_formed(
                    match_spans(m.pattern(), m.case_insensitive(), text),
                    encode_utf8(text),
                )
                &&& chunks_show(
                    line.chunks.unwrap()@,
                    segments(
                        match_spans(m.pattern(), m.case_insensitive(), text),
                        encode_utf8(text).len() as int,
                    ),
                    encode_utf8(text),
                )
            },
        }
    }

    /// How `text` is to be shown: see [`RowModifier::styles`].
    pub fn generate_line(&self, text: &str) -> (l: Line)
        ensures
            self.styles(text@, l),
    {
        let mut l = Line::from_text(text);
        l.default_format = self.row_format(text);
        if let Some(re) = &self.filter.search.regex {
            let spans = re.find_spans(text);
            l.chunks = Some(RowModifier::cut_line(text, &spans));
        }
        l
    }

    /// Puts a new rule, with the default colours and an empty search, at the
    /// end of the list.
    pub fn add_highlight(&mut self)
        ensures
            final(self).filter == old(self).filter,
            final(self).row_highlights@.len() == old(self).row_highlights@.len() + 1,
            final(self).row_highlights@.drop_last() == old(self).row_highlights@,
            final(self).row_highlights@.last().is_blank(),
    {
        self.row_highlights.push(RowHighlight::default());
    }

    /// Takes the rules that are marked for removal off the list. The others
    /// keep their order.
    pub fn remove_marked(&mut self)
        ensures
            final(self).filter == old(self).filter,
            final(self).row_highlights@ == unmarked(old(self).row_highlights@),
    {
        let mut i: usize = 0;
        let ghost all = self.row_highlights@;
        while i < self.row_highlights.len()
            invariant
                i <= self.row_highlights@.len(),
                self.filter == old(self).filter,
                self.row_highlights@.len() - i <= all.len(),
                self.row_highlights@ == unmarked(
                    all.take(all.len() - (self.row_highlights@.len() - i)),
                ) + all.skip(all.len() - (self.row_highlights@.len() - i)),
                self.row_highlights@.take(i as int) == unmarked(
                    all.take(all.len() - (self.row_highlights@.len() - i)),
                ),
            decreases self.row_highlights@.len() - i,
        {
            let ghost seen = all.len() - (self.row_highlights@.len() - i);
            assert(all.take(seen + 1).drop_last() =~= all.take(seen));
            if self.row_highlights[i].should_delete {
                let _ = self.row_highlights.remove(i);
            } else {
                i += 1;
            }
        }
        assert(all.take(all.len() as int) =~= all);
    }
}

impl Default for RowModifier {
    fn default() -> (m: RowModifier)
        ensures
            m.is_blank(),
    {
        RowModifier { filter: Filter::default(), row_highlights: Vec::new() }
    }
}

} // verus!
