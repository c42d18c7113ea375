//! A log file as its view holds it: the lines received so far, the filter
//! cache over them, and what is known of encoding and size restriction.
//!
//! The background task that reads the file reports through messages; the view
//! owns the lines and the cache and changes them only while it takes those
//! messages in.

use crate::charset::Charset;
use crate::error::Error;
use crate::highlight::RowModifier;
use crate::matcher::Matcher;
use crate::reader::{window, MAX_ROWS};
use crate::search::{lemma_matching_concat, matching, texts};
use crate::store::{after_appends, lemma_overflow_then_window, overflow, LineStore};
use crate::tail::MAX_FILE_SIZE;
use vstd::prelude::*;
use vstd::string::StringExecFns;

pub use crate::error::send_err_to_error;
pub use crate::highlight::{Line, RowHighlight, TextChunk};
pub use crate::search::{Filter, Search};

verus! {

/// The text that stands for `bytes` as a size, in binary units.
pub uninterp spec fn binary_size_text(bytes: u64) -> Seq<char>;

/// Calls `humansize::format_size` with the `BINARY` options. Claims that the
/// text depends on the number alone.
#[verifier::external_body]
pub fn humanreadable_bytes(bytes: u64) -> (text: String)
    ensures
        text@ == binary_size_text(bytes),
{
    humansize::format_size(bytes, humansize::BINARY)
}

/// The question put to the user before a file of the size `size` is opened,
/// where `max` is the text for the threshold.
pub open spec fn restrict_question(size: Seq<char>, max: Seq<char>) -> Seq<char> {
    "The file you're attempting to open is quite big ("@ + size + ").\nFiles larger than "@ + max
        + " require lots of RAM to open due to memory overhead.\nDo you want to open this file in restricted mode?\n\nRestricted mode only reads the last "@
        + max + " and 120000000 rows of the file."@
}

/// The question put to the user before a file is opened whose size reads
/// `size`, where `max` is how the threshold reads.
pub fn restrict_question_text(size: &str, max: &str) -> (text: String)
    ensures
        text@ == restrict_question(size@, max@),
{
    let mut text = String::from_str("The file you're attempting to open is quite big (");
    text.append(size);
    text.append(").\nFiles larger than ");
    text.append(max);
    text.append(
        " require lots of RAM to open due to memory overhead.\nDo you want to open this file in restricted mode?\n\nRestricted mode only reads the last ",
    );
    text.append(max);
    text.append(" and 120000000 rows of the file.");
    text
}

/// The question put to the user before a file of `size` bytes is opened.
pub fn restrict_prompt(size: u64) -> (text: String)
    ensures
        text@ == restrict_question(binary_size_text(size), binary_size_text(MAX_FILE_SIZE)),
{
    let size = humanreadable_bytes(size);
    let max = humanreadable_bytes(MAX_FILE_SIZE);
    restrict_question_text(size.as_str(), max.as_str())
}

/// What the background task reports to the view.
#[derive(Clone, Debug)]
pub enum LogFileMessage {
    /// Lines read in one pass, in file order.
    FileData(Vec<String>),
    /// A failure while opening, reading or watching.
    Error(Error),
    /// The file is larger than the threshold: the task waits to be told
    /// whether to read it restricted. Carries the size of the file.
    ShowRestrictFileSizeDialog(u64),
    /// The file is read restricted (`true`) or unrestricted.
    RestrictFileSize(bool),
    /// The encoding in which the file is read.
    SetEncoding(Option<Charset>),
}

/// What is known of how a file is read with regard to its size.
#[derive(Clone, Copy, Debug, PartialEq, Eq, Structural)]
pub enum RestrictFileSize {
    /// Nothing yet.
    Initializing,
    /// The task waits for the user's decision on a file of this size.
    ShowRestrictFileSizeDialog(u64),
    /// Only the tail of the file is read, and only the latest rows are kept.
    RestrictedFileSize,
    /// All of the file is read and kept.
    UnrestrictedFileSize,
}

impl Default for RestrictFileSize {
    fn default() -> (r: RestrictFileSize)
        ensures
            r == RestrictFileSize::Initializing,
    {
        RestrictFileSize::Initializing
    }
}

/// What a view has to show for a file.
#[derive(Clone, Copy, Debug, PartialEq, Eq, Structural)]
pub enum Display {
    /// No lines yet, and nothing went wrong: the file is being read.
    Loading,
    /// No lines, and failures to show.
    Errors,
    /// Lines.
    Lines,
}

/// A log file in a view.
#[derive(Clone, Debug)]
pub struct LogFile {
    pub filename: String,
    pub path: String,
    pub encoding: Option<Charset>,
    pub errors: Vec<Error>,
    pub restrict_filesize: RestrictFileSize,
    pub row_modifier: RowModifier,
    pub lines: LineStore,
    /// How many rows are kept when the file is read restricted.
    pub max_rows: usize,
    /// Whether a background task feeds this file.
    pub attached: bool,
    pub recalculate_filter_cache: bool,
    pub filter_cache: Option<Vec<String>>,
}

/// `cache` without its first `count` rows; nothing, if it has no more rows
/// than that.
pub open spec fn without_leading(cache: Seq<Seq<char>>, count: nat) -> Seq<Seq<char>> {
    if count >= cache.len() {
        Seq::empty()
    } else {
        cache.skip(count as int)
    }
}

/// The cache after the rows `gone` left the store: as many rows leave the
/// front of the cache as there are matches among the rows that left.
pub open spec fn cache_dropping(
    cache: Seq<Seq<char>>,
    gone: Seq<Seq<char>>,
    pattern: Seq<char>,
    case_insensitive: bool,
) -> Seq<Seq<char>> {
    without_leading(cache, matching(gone, pattern, case_insensitive).len())
}

/// The cache after a store that held `rows` under `limit` took in `batch`:
/// the matches of the batch are put at the end of the cache, and the matches
/// of the rows that left the store leave the cache. Only the batch and the
/// rows that left are looked at.
pub open spec fn cache_step(
    cache: Seq<Seq<char>>,
    rows: Seq<Seq<char>>,
    batch: Seq<Seq<char>>,
    limit: Option<usize>,
    pattern: Seq<char>,
    case_insensitive: bool,
) -> Seq<Seq<char>> {
    cache_dropping(
        cache + matching(batch, pattern, case_insensitive),
        overflow(rows + batch, limit),
        pattern,
        case_insensitive,
    )
}

/// The cache as it stands after a store that held `rows` under `limit` took
/// in the batches `batches`, one after the other.
pub open spec fn cache_after(
    cache: Seq<Seq<char>>,
    rows: Seq<Seq<char>>,
    batches: Seq<Seq<Seq<char>>>,
    limit: Option<usize>,
    pattern: Seq<char>,
    case_insensitive: bool,
) -> Seq<Seq<char>>
    decreases batches.len(),
{
    if batches.len() == 0 {
        cache
    } else {
        cache_step(
            cache_after(cache, rows, batches.drop_last(), limit, pattern, case_insensitive),
            after_appends(rows, batches.drop_last(), limit),
            batches.last(),
            limit,
            pattern,
            case_insensitive,
        )
    }
}

/// Nothing matches among no lines.
pub proof fn lemma_matching_nothing(pattern: Seq<char>, case_insensitive: bool)
    ensures
        matching(Seq::empty(), pattern, case_insensitive) == Seq::<Seq<char>>::empty(),
{
    reveal(Seq::filter);
}

/// A cache that holds the matches of the store still does so after rows left
/// the store.
pub proof fn lemma_dropping_keeps_sync(
    rows: Seq<Seq<char>>,
    limit: Option<usize>,
    pattern: Seq<char>,
    case_insensitive: bool,
)
    ensures
        cache_dropping(
            matching(rows, pattern, case_insensitive),
            overflow(rows, limit),
            pattern,
            case_insensitive,
        ) == matching(window(rows, limit), pattern, case_insensitive),
{
    let gone = matching(overflow(rows, limit), pattern, case_insensitive);
    let kept = matching(window(rows, limit), pattern, case_insensitive);
    lemma_overflow_then_window(rows, limit);
    lemma_matching_concat(overflow(rows, limit), window(rows, limit), pattern, case_insensitive);
    assert((gone + kept).skip(gone.len() as int) =~= kept);
    assert(gone.len() >= (gone + kept).len() ==> kept =~= Seq::<Seq<char>>::empty());
}

/// A cache that holds the matches of the store still does so after the store
/// took in a batch, whether or not rows had to leave.
pub proof fn lemma_step_keeps_sync(
    rows: Seq<Seq<char>>,
    batch: Seq<Seq<char>>,
    limit: Option<usize>,
    pattern: Seq<char>,
    case_insensitive: bool,
)
    ensures
        cache_step(
            matching(rows, pattern, case_insensitive),
            rows,
            batch,
            limit,
            pattern,
            case_insensitive,
        ) == matching(window(rows + batch, limit), pattern, case_insensitive),
{
    lemma_matching_concat(rows, batch, pattern, case_insensitive);
    lemma_dropping_keeps_sync(rows + batch, limit, pattern, case_insensitive);
}

/// A cache kept up batch by batch holds what filtering the store as it then
/// stands would give, whatever the batches and whatever the limit.
pub proof fn lemma_incremental_cache_is_full_filter(
    rows: Seq<Seq<char>>,
    batches: Seq<Seq<Seq<char>>>,
    limit: Option<usize>,
    pattern: Seq<char>,
    case_insensitive: bool,
)
    ensures
        cache_after(
            matching(rows, pattern, case_insensitive),
            rows,
            batches,
            limit,
            pattern,
            case_insensitive,
        ) == matching(after_appends(rows, batches, limit), pattern, case_insensitive),
    decreases batches.len(),
{
    if batches.len() > 0 {
        let before = batches.drop_last();
        lemma_incremental_cache_is_full_filter(rows, before, limit, pattern, case_insensitive);
        lemma_step_keeps_sync(
            after_appends(rows, before, limit),
            batches.last(),
            limit,
            pattern,
            case_insensitive,
        );
    }
}

impl LogFile {
    /// The texts of the cached lines, if there is a cache.
    pub open spec fn cache_rows(&self) -> Option<Seq<Seq<char>>> {
        match self.filter_cache {
            Some(cache) => Some(texts(cache@)),
            None => None,
        }
    }

    /// The matcher that filters the view: there is one when the search text
    /// is not empty, the filter is switched on and the pattern compiled.
    pub open spec fn active_matcher(&self) -> Option<Matcher> {
        if self.row_modifier.filter.is_applied() {
            self.row_modifier.filter.search.regex
        } else {
            None
        }
    }

    /// The file is as a file just made is: it holds `items` and nothing
    /// else is known of it.
    pub open spec fn is_new(&self, path: Seq<char>, items: Vec<String>, max_rows: usize) -> bool {
        &&& self.filename@ == path
        &&& self.path@ == path
        &&& self.lines.lines == items
        &&& self.lines.max_rows is None
        &&& self.max_rows == max_rows
        &&& self.encoding is None
        &&& self.errors@.len() == 0
        &&& self.restrict_filesize == RestrictFileSize::Initializing
        &&& self.row_modifier.is_blank()
        &&& !self.attached
        &&& !self.recalculate_filter_cache
        &&& self.filter_cache is None
    }

    /// The cache as the rows `gone`, which left the store, leave it: with a
    /// cache and an active matcher, the matches among those rows leave the
    /// front of the cache; otherwise it stays as it is.
    pub open spec fn cache_without(&self, gone: Seq<Seq<char>>) -> Option<Seq<Seq<char>>> {
        match (self.cache_rows(), self.active_matcher()) {
            (Some(cache), Some(m)) => Some(
                cache_dropping(cache, gone, m.pattern(), m.case_insensitive()),
            ),
            (cache, _) => cache,
        }
    }

    /// The cache as a batch of new lines leaves it: with a cache and an
    /// active matcher, the matching lines of the batch are put at its end and
    /// the matches of the rows that leave the store are taken from its front;
    /// otherwise it stays as it is.
    pub open spec fn cache_with(&self, batch: Seq<Seq<char>>) -> Option<Seq<Seq<char>>> {
        match (self.cache_rows(), self.active_matcher()) {
            (Some(cache), Some(m)) => Some(
                cache_step(
                    cache,
                    self.lines.rows(),
                    batch,
                    self.lines.max_rows,
                    m.pattern(),
                    m.case_insensitive(),
                ),
            ),
            (cache, _) => cache,
        }
    }

    /// The cache as a recalculation leaves it: none where the filter does
    /// not apply, the matching lines of the store where there is a matcher,
    /// and the cache as it was where the pattern did not compile.
    pub open spec fn recalculated_cache(&self) -> Option<Seq<Seq<char>>> {
        if !self.row_modifier.filter.is_applied() {
            None
        } else {
            match self.row_modifier.filter.search.regex {
                Some(m) => Some(matching(self.lines.rows(), m.pattern(), m.case_insensitive())),
                None => self.cache_rows(),
            }
        }
    }

    /// The file is in order: the store is within its limit; a file read
    /// restricted has the limit that goes with it, a file read unrestricted
    /// has none; and unless the cache is marked for recalculation, it holds
    /// what filtering the store would give.
    pub open spec fn wf(&self) -> bool {
        &&& self.lines.wf()
        &&& self.restrict_filesize is RestrictedFileSize ==> self.lines.max_rows == Some(
            self.max_rows,
        )
        &&& self.restrict_filesize is UnrestrictedFileSize ==> self.lines.max_rows is None
        &&& !self.recalculate_filter_cache ==> self.cache_in_sync()
    }

    /// The cache, if there is one and a matcher is active, holds what
    /// filtering the store as it stands would give.
    pub open spec fn cache_in_sync(&self) -> bool {
        match (self.filter_cache, self.active_matcher()) {
            (Some(cache), Some(m)) => texts(cache@) == matching(
                self.lines.rows(),
                m.pattern(),
                m.case_insensitive(),
            ),
            _ => true,
        }
    }

    /// Everything but lines, cache and the recalculation mark is the same in
    /// `self` and `other`.
    pub open spec fn same_settings(&self, other: &LogFile) -> bool {
        &&& self.filename == other.filename
        &&& self.path == other.path
        &&& self.encoding == other.encoding
        &&& self.errors == other.errors
        &&& self.restrict_filesize == other.restrict_filesize
        &&& self.row_modifier == other.row_modifier
        &&& self.max_rows == other.max_rows
        &&& self.attached == other.attached
        &&& self.lines.max_rows == other.lines.max_rows
    }

    /// Whether `self` is what `before` becomes when it takes in the lines
    /// `batch`.
    ///
    /// The lines go to the end of the store, which lets its oldest rows go
    /// if it is over its limit. Where there is a cache and an active
    /// matcher, the lines of the batch that match go to the end of the cache
    /// and the matches of the rows that left the store leave its front: the
    /// other lines are not looked at again, and a cache that held the matches
    /// of the store holds them still. Where there is a cache and no active
    /// matcher, the cache stays as it is. Where there is no cache, it is
    /// marked for recalculation.
    pub open spec fn took_lines(&self, before: &LogFile, batch: Seq<Seq<char>>) -> bool {
        &&& self.same_settings(before)
        &&& self.lines.wf()
        &&& self.lines.rows() == window(before.lines.rows() + batch, before.lines.max_rows)
        &&& self.cache_rows() == before.cache_with(batch)
        &&& self.recalculate_filter_cache == (before.recalculate_filter_cache
            || before.filter_cache is None)
        &&& before.cache_in_sync() ==> self.cache_in_sync()
        &&& before.wf() ==> self.wf()
    }

    /// Whether `self` is what `before` becomes when it is told how the file
    /// is read.
    ///
    /// Restricted, the store is given its limit and lets go of the rows over
    /// it; unrestricted, the limit is taken away. Where rows leave and there
    /// is a cache and an active matcher, their matches leave the cache.
    /// Nothing else changes.
    pub open spec fn restriction_set(&self, before: &LogFile, restricted: bool) -> bool {
        &&& self.restrict_filesize == if restricted {
            RestrictFileSize::RestrictedFileSize
        } else {
            RestrictFileSize::UnrestrictedFileSize
        }
        &&& self.lines.max_rows == if restricted {
            Some(before.max_rows)
        } else {
            None
        }
        &&& self.lines.rows() == window(before.lines.rows(), self.lines.max_rows)
        &&& self.lines.wf()
        &&& self.filename == before.filename
        &&& self.path == before.path
        &&& self.encoding == before.encoding
        &&& self.errors == before.errors
        &&& self.row_modifier == before.row_modifier
        &&& self.max_rows == before.max_rows
        &&& self.attached == before.attached
        &&& self.cache_rows() == before.cache_without(
            overflow(before.lines.rows(), self.lines.max_rows),
        )
        &&& self.recalculate_filter_cache == before.recalculate_filter_cache
        &&& before.cache_in_sync() ==> self.cache_in_sync()
        &&& before.wf() ==> self.wf()
    }

    /// A file at `path` that keeps at most `max_rows` rows when it is read
    /// restricted, with `items` as the lines known so far.
    pub fn with_max_rows(path: String, items: Vec<String>, max_rows: usize) -> (file: LogFile)
        ensures
            file.is_new(path@, items, max_rows),
            file.wf(),
    {
        LogFile {
            filename: path.clone(),
            path,
            row_modifier: RowModifier::default(),
            lines: LineStore::new(items),
            max_rows,
            restrict_filesize: RestrictFileSize::default(),
            attached: false,
            recalculate_filter_cache: false,
            filter_cache: None,
            encoding: None,
            errors: Vec::new(),
        }
    }

    /// A file at `path`, with `items` as the lines known so far.
    pub fn new(path: String, items: Vec<String>) -> (file: LogFile)
        ensures
            file.is_new(path@, items, MAX_ROWS),
            file.wf(),
    {
        LogFile::with_max_rows(path, items, MAX_ROWS)
    }

    /// Notes that a background task is started to feed this file, and marks
    /// the cache for recalculation. A file has one task at a time: where it
    /// has one already, nothing changes and the result is `false`, and no
    /// task is to be started.
    pub fn attach_reader(&mut self) -> (started: bool)
        ensures
            started == !old(self).attached,
            started ==> *final(self) == (LogFile {
                attached: true,
                recalculate_filter_cache: true,
                ..*old(self)
            }),
            !started ==> *final(self) == *old(self),
            old(self).wf() ==> final(self).wf(),
    {
        if self.attached {
            false
        } else {
            self.attached = true;
            self.recalculate_filter_cache = true;
            true
        }
    }

    /// Notes that the background task is gone. The lines are dropped, from
    /// the store and from the cache; a new task will read the file again.
    pub fn disconnected(&mut self)
        ensures
            !final(self).attached,
            final(self).lines.lines@.len() == 0,
            final(self).cache_rows() == match old(self).cache_rows() {
                Some(_) => Some(Seq::<Seq<char>>::empty()),
                None => None,
            },
            final(self).same_settings(
                &LogFile { attached: final(self).attached, ..*old(self) },
            ),
            final(self).recalculate_filter_cache == old(self).recalculate_filter_cache,
            final(self).cache_in_sync(),
            old(self).wf() ==> final(self).wf(),
    {
        self.attached = false;
        self.lines.clear();
        match &mut self.filter_cache {
            Some(cache) => cache.clear(),
            None => {},
        }
        proof {
            assert(self.lines.rows() =~= Seq::<Seq<char>>::empty());
            if self.filter_cache is Some {
                assert(texts(self.filter_cache.unwrap()@) =~= Seq::<Seq<char>>::empty());
            }
            if self.active_matcher() is Some {
                lemma_matching_nothing(
                    self.active_matcher().unwrap().pattern(),
                    self.active_matcher().unwrap().case_insensitive(),
                );
            }
        }
    }

    /// Switches to `encoding`. The task that reads the file, if there is
    /// one, has to be cancelled before a new one is started: the result says
    /// whether there is one to cancel.
    pub fn reload_with_encoding(&mut self, encoding: Charset) -> (cancel: bool)
        ensures
            cancel == old(self).attached,
            *final(self) == (LogFile { encoding: Some(encoding), attached: false, ..*old(self) }),
            old(self).wf() ==> final(self).wf(),
    {
        let cancel = self.attached;
        self.encoding = Some(encoding);
        self.attached = false;
        cancel
    }

    /// Takes from the front of the cache the matches of the rows `gone`,
    /// which left the store: see [`LogFile::cache_without`].
    fn drop_from_cache(&mut self, gone: &Vec<String>)
        ensures
            final(self).cache_rows() == old(self).cache_without(texts(gone@)),
            final(self).lines == old(self).lines,
            final(self).recalculate_filter_cache == old(self).recalculate_filter_cache,
            final(self).same_settings(old(self)),
    {
        if gone.len() == 0 {
            proof {
                assert(texts(gone@) =~= Seq::<Seq<char>>::empty());
                if self.active_matcher() is Some && self.filter_cache is Some {
                    lemma_matching_nothing(
                        self.active_matcher().unwrap().pattern(),
                        self.active_matcher().unwrap().case_insensitive(),
                    );
                    assert(texts(self.filter_cache.unwrap()@).skip(0) =~= texts(
                        self.filter_cache.unwrap()@,
                    ));
                }
            }
            return ;
        }
        let applied = !self.row_modifier.filter.search.is_empty() && self.row_modifier.filter.filter;
        if applied {
            match self.row_modifier.filter.filter(gone) {
                Some(matches) => {
                    let count = matches.len();
                    match &mut self.filter_cache {
                        Some(cache) => {
                            let ghost before = cache@;
                            if count >= cache.len() {
                                cache.clear();
                                assert(texts(cache@) =~= without_leading(
                                    texts(before),
                                    count as nat,
                                ));
                            } else {
                                let rest = cache.split_off(count);
                                assert(texts(rest@) =~= without_leading(
                                    texts(before),
                                    count as nat,
                                ));
                                self.filter_cache = Some(rest);
                            }
                        },
                        None => {},
                    }
                },
                None => {},
            }
        }
    }

    /// Takes in a batch of lines: see [`LogFile::took_lines`].
    pub fn take_lines(&mut self, batch: Vec<String>)
        ensures
            final(self).took_lines(old(self), texts(batch@)),
    {
        let applied = !self.row_modifier.filter.search.is_empty() && self.row_modifier.filter.filter;
        match &mut self.filter_cache {
            Some(cache) => {
                if applied {
                    match self.row_modifier.filter.filter(&batch) {
                        Some(filtered) => {
                            let mut filtered = filtered;
                            let ghost matches = filtered@;
                            let ghost before = cache@;
                            cache.append(&mut filtered);
                            assert(texts(cache@) =~= texts(before) + texts(matches));
                        },
                        None => {},
                    }
                }
            },
            None => {
                self.recalculate_filter_cache = true;
            },
        }
        let gone = self.lines.append(batch);
        self.drop_from_cache(&gone);
        proof {
            if old(self).active_matcher() is Some && old(self).cache_rows() is Some {
                let m = old(self).active_matcher().unwrap();
                lemma_step_keeps_sync(
                    old(self).lines.rows(),
                    texts(batch@),
                    old(self).lines.max_rows,
                    m.pattern(),
                    m.case_insensitive(),
                );
            }
        }
    }

    /// Notes that the task waits for a decision on a file of `size` bytes.
    pub fn ask_restriction(&mut self, size: u64)
        ensures
            *final(self) == (LogFile {
                restrict_filesize: RestrictFileSize::ShowRestrictFileSizeDialog(size),
                ..*old(self)
            }),
            old(self).wf() ==> final(self).wf(),
    {
        self.restrict_filesize = RestrictFileSize::ShowRestrictFileSizeDialog(size);
    }

    /// Notes how the file is read: see [`LogFile::restriction_set`].
    pub fn set_restriction(&mut self, restricted: bool)
        ensures
            final(self).restriction_set(old(self), restricted),
    {
        let limit = if restricted {
            self.restrict_filesize = RestrictFileSize::RestrictedFileSize;
            Some(self.max_rows)
        } else {
            self.restrict_filesize = RestrictFileSize::UnrestrictedFileSize;
            None
        };
        let gone = self.lines.set_limit(limit);
        self.drop_from_cache(&gone);
        proof {
            if old(self).active_matcher() is Some && old(self).cache_rows() is Some {
                let m = old(self).active_matcher().unwrap();
                lemma_dropping_keeps_sync(
                    old(self).lines.rows(),
                    limit,
                    m.pattern(),
                    m.case_insensitive(),
                );
            }
        }
    }

    /// Answers the question whether to read the file restricted. Where the
    /// task waits for the answer, the answer is the result, to be handed to
    /// the task; where no question is open, nothing happens.
    pub fn respond_to_size_gate(&mut self, restricted: bool) -> (answer: Option<bool>)
        ensures
            old(self).restrict_filesize is ShowRestrictFileSizeDialog ==> answer == Some(restricted)
                && final(self).restriction_set(old(self), restricted),
            !(old(self).restrict_filesize is ShowRestrictFileSizeDialog) ==> answer is None
                && *final(self) == *old(self),
            old(self).wf() ==> final(self).wf(),
    {
        match self.restrict_filesize {
            RestrictFileSize::ShowRestrictFileSizeDialog(_) => {
                self.set_restriction(restricted);
                Some(restricted)
            },
            _ => None,
        }
    }

    /// Keeps a failure to show.
    pub fn record_error(&mut self, error: Error)
        ensures
            final(self).errors@ == old(self).errors@.push(error),
            *final(self) == (LogFile { errors: final(self).errors, ..*old(self) }),
            old(self).wf() ==> final(self).wf(),
    {
        self.errors.push(error);
    }

    /// Takes in one message of the background task.
    pub fn handle_message(&mut self, message: LogFileMessage)
        ensures
            match message {
                LogFileMessage::FileData(batch) => final(self).took_lines(old(self), texts(batch@)),
                LogFileMessage::Error(error) => {
                    &&& final(self).errors@ == old(self).errors@.push(error)
                    &&& *final(self) == (LogFile { errors: final(self).errors, ..*old(self) })
                },
                LogFileMessage::ShowRestrictFileSizeDialog(size) => *final(self) == (LogFile {
                    restrict_filesize: RestrictFileSize::ShowRestrictFileSizeDialog(size),
                    ..*old(self)
                }),
                LogFileMessage::RestrictFileSize(restricted) => final(self).restriction_set(
                    old(self),
                    restricted,
                ),
                LogFileMessage::SetEncoding(encoding) => *final(self) == (LogFile {
                    encoding,
                    ..*old(self)
                }),
            },
            old(self).wf() ==> final(self).wf(),
    {
        match message {
            LogFileMessage::FileData(batch) => self.take_lines(batch),
            LogFileMessage::Error(error) => self.record_error(error),
            LogFileMessage::ShowRestrictFileSizeDialog(size) => self.ask_restriction(size),
            LogFileMessage::RestrictFileSize(restricted) => self.set_restriction(restricted),
            LogFileMessage::SetEncoding(encoding) => {
                self.encoding = encoding;
            },
        }
    }

    /// Sets what the view is filtered by, and whether it is filtered at all.
    ///
    /// The search is brought up to date as [`Filter::updated`] says, with the
    /// text and the flags counting as edited where they differ from what was
    /// there. The cache is marked for recalculation if anything changed. The
    /// message of a pattern that does not compile comes back.
    pub fn set_filter(
        &mut self,
        string: String,
        is_regex: bool,
        case_insensitive: bool,
        apply: bool,
    ) -> (error: Option<String>)
        ensures
            final(self).row_modifier.filter.updated(
                &Filter {
                    search: Search {
                        string,
                        is_regex,
                        case_insensitive,
                        ..old(self).row_modifier.filter.search
                    },
                    filter: apply,
                    ..old(self).row_modifier.filter
                },
                string@ != old(self).row_modifier.filter.search.string@ || is_regex != old(self).row_modifier.filter.search.is_regex || case_insensitive != old(self).row_modifier.filter.search.case_insensitive,
                apply != old(self).row_modifier.filter.filter,
                error,
            ),
            final(self).row_modifier.row_highlights == old(self).row_modifier.row_highlights,
            final(self).recalculate_filter_cache == (old(self).recalculate_filter_cache || final(self).row_modifier.filter.changed),
            *final(self) == (LogFile {
                row_modifier: final(self).row_modifier,
                recalculate_filter_cache: final(self).recalculate_filter_cache,
                ..*old(self)
            }),
            old(self).wf() ==> final(self).wf(),
    {
        let search = &self.row_modifier.filter.search;
        let data_changed = search.string != string || search.is_regex != is_regex
            || search.case_insensitive != case_insensitive;
        let switch_changed = self.row_modifier.filter.filter != apply;
        self.row_modifier.filter.search.string = string;
        self.row_modifier.filter.search.is_regex = is_regex;
        self.row_modifier.filter.search.case_insensitive = case_insensitive;
        self.row_modifier.filter.filter = apply;
        let error = self.row_modifier.filter.update(data_changed, switch_changed);
        self.note_filter_change();
        error
    }

    /// Sets the highlight rules, in the order in which they take precedence.
    pub fn set_highlight_rules(&mut self, rules: Vec<RowHighlight>)
        ensures
            final(self).row_modifier.row_highlights == rules,
            final(self).row_modifier.filter == old(self).row_modifier.filter,
            *final(self) == (LogFile { row_modifier: final(self).row_modifier, ..*old(self) }),
            old(self).wf() ==> final(self).wf(),
    {
        self.row_modifier.row_highlights = rules;
    }

    /// Marks the cache for recalculation if the filter changed.
    pub fn note_filter_change(&mut self)
        ensures
            final(self).recalculate_filter_cache == (old(self).recalculate_filter_cache || old(self).row_modifier.filter.changed),
            *final(self) == (LogFile {
                recalculate_filter_cache: final(self).recalculate_filter_cache,
                ..*old(self)
            }),
            old(self).wf() ==> final(self).wf(),
    {
        if self.row_modifier.filter.changed() {
            self.recalculate_filter_cache = true;
        }
    }

    /// Brings the cache up to date, if it is marked for recalculation.
    ///
    /// With an empty search text or the filter switched off there is no
    /// cache. With an active matcher the cache is what filtering the whole
    /// store gives. With a pattern that failed to compile the cache stays as
    /// it is, until a pattern that compiles takes its place.
    pub fn recalculate(&mut self)
        ensures
            !final(self).recalculate_filter_cache,
            final(self).same_settings(old(self)),
            final(self).lines == old(self).lines,
            !old(self).recalculate_filter_cache ==> final(self).filter_cache == old(self).filter_cache,
            old(self).recalculate_filter_cache ==> final(self).cache_rows() == old(self).recalculated_cache(),
            old(self).recalculate_filter_cache ==> final(self).cache_in_sync(),
            old(self).wf() ==> final(self).wf() && final(self).cache_in_sync(),
    {
        if self.recalculate_filter_cache {
            if self.row_modifier.filter.search.is_empty() || !self.row_modifier.filter.filter {
                self.filter_cache = None;
            } else {
                match self.row_modifier.filter.filter(&self.lines.lines) {
                    Some(filtered) => {
                        self.filter_cache = Some(filtered);
                    },
                    None => {},
                }
            }
            self.recalculate_filter_cache = false;
        }
    }

    /// What there is to show.
    pub fn display(&self) -> (d: Display)
        ensures
            d == if self.lines.lines@.len() > 0 {
                Display::Lines
            } else if self.errors@.len() > 0 {
                Display::Errors
            } else {
                Display::Loading
            },
    {
        if !self.lines.is_empty() {
            Display::Lines
        } else if self.errors.len() > 0 {
            Display::Errors
        } else {
            Display::Loading
        }
    }

    /// The lines to show, as texts.
    pub open spec fn shown(&self) -> Seq<Seq<char>> {
        match self.filter_cache {
            Some(cache) => texts(cache@),
            None => self.lines.rows(),
        }
    }

    /// The rows `first` to `end`, `end` not included, of the lines to show,
    /// each as it is to be shown; rows that are not there are left out.
    pub fn visible_lines(&self, first: usize, end: usize) -> (rows: Vec<Line>)
        ensures
            rows@.len() == if first >= end || first >= self.shown().len() {
                0
            } else if end <= self.shown().len() {
                end - first
            } else {
                self.shown().len() - first
            },
            forall|k: int|
                0 <= k < rows@.len() ==> self.row_modifier.styles(
                    self.shown()[first + k],
                    #[trigger] rows@[k],
                ),
    {
        let lines = self.filtered();
        let mut rows: Vec<Line> = Vec::new();
        let stop = if end < lines.len() {
            end
        } else {
            lines.len()
        };
        if first >= stop {
            return rows;
        }
        let mut row = first;
        while row < stop
            invariant
                first <= row <= stop <= lines@.len(),
                rows@.len() == row - first,
                texts(lines@) == self.shown(),
                forall|k: int|
                    0 <= k < rows@.len() ==> self.row_modifier.styles(
                        self.shown()[first + k],
                        #[trigger] rows@[k],
                    ),
            decreases stop - row,
        {
            rows.push(self.row_modifier.generate_line(lines[row].as_str()));
            row += 1;
        }
        rows
    }

    /// The lines to show: the cache where there is one, the store otherwise.
    pub fn filtered(&self) -> (lines: &Vec<String>)
        ensures
            *lines == match self.filter_cache {
                Some(cache) => cache,
                None => self.lines.lines,
            },
    {
        match &self.filter_cache {
            Some(cache) => cache,
            None => &self.lines.lines,
        }
    }
}

/// A pattern that does not compile leaves the cache as it was: neither a
/// recalculation nor new lines touch it while there is no matcher.
pub proof fn lemma_failed_pattern_keeps_cache(file: LogFile, batch: Seq<Seq<char>>)
    requires
        file.row_modifier.filter.search.regex is None,
    ensures
        file.cache_with(batch) == file.cache_rows(),
        file.row_modifier.filter.is_applied() ==> file.recalculated_cache() == file.cache_rows(),
{
}

/// A cache that holds the matches of the store holds them still after a
/// batch, also where rows had to leave the store.
pub proof fn lemma_cache_stays_in_sync(file: LogFile, batch: Seq<Seq<char>>)
    requires
        file.active_matcher() is Some,
        file.cache_rows() == Some(
            matching(
                file.lines.rows(),
                file.active_matcher().unwrap().pattern(),
                file.active_matcher().unwrap().case_insensitive(),
            ),
        ),
    ensures
        file.cache_with(batch) == Some(
            matching(
                window(file.lines.rows() + batch, file.lines.max_rows),
                file.active_matcher().unwrap().pattern(),
                file.active_matcher().unwrap().case_insensitive(),
            ),
        ),
{
    let m = file.active_matcher().unwrap();
    lemma_step_keeps_sync(
        file.lines.rows(),
        batch,
        file.lines.max_rows,
        m.pattern(),
        m.case_insensitive(),
    );
}

/// A file in order that is read restricted holds no more rows than its
/// maximum, and a file in order whose cache is not marked for recalculation
/// shows, under an active matcher, the matches of its store and nothing else.
pub proof fn lemma_file_in_order(file: LogFile)
    requires
        file.wf(),
    ensures
        file.restrict_filesize is RestrictedFileSize ==> file.lines.lines@.len() <= file.max_rows,
        !file.recalculate_filter_cache && file.filter_cache is Some && file.active_matcher() is Some
            ==> file.shown() == matching(
            file.lines.rows(),
            file.active_matcher().unwrap().pattern(),
            file.active_matcher().unwrap().case_insensitive(),
        ),
{
}

} // verus!
