//! A reading session: what the background task of one file decides from the
//! moment the file's size is known.
//!
//! The task does the waiting and the reading. It asks this module what to
//! tell the view, where to start, and what to make of the bytes it read. The
//! encoding and the restriction decision are settled once, when the session
//! opens, and hold for every pass after that, also when the file is created
//! anew and opened again.

use crate::charset::{decode_limit, Charset};
use crate::encoding::{resolve_encoding, resolved_encoding};
use crate::error::Error;
use crate::logfile::LogFileMessage;
use crate::reader::{decoded_records, read_pass, window, MAX_ROWS};
use crate::search::texts;
use crate::tail::{
    first_pass_bytes, plan_tail, read_first_pass, size_gate, tail_plan, TailPlan, MAX_FILE_SIZE,
};
use crate::watcher::{next_state, step, work_of, WatchAction, WatchInput, WatchState};
use vstd::prelude::*;

verus! {

/// The first thing the view is told of a file of `size` bytes: above the
/// threshold, that a decision is needed; otherwise, that the file is read
/// restricted, which for such a file only caps the rows.
pub fn opening_message(size: u64) -> (message: LogFileMessage)
    ensures
        message == if size > MAX_FILE_SIZE {
            LogFileMessage::ShowRestrictFileSizeDialog(size)
        } else {
            LogFileMessage::RestrictFileSize(true)
        },
{
    match size_gate(size, MAX_FILE_SIZE) {
        Some(size) => LogFileMessage::ShowRestrictFileSizeDialog(size),
        None => LogFileMessage::RestrictFileSize(true),
    }
}

/// The limit on rows that goes with a restriction decision.
pub open spec fn row_limit_for(restricted: bool) -> Option<usize> {
    if restricted {
        Some(MAX_ROWS)
    } else {
        None
    }
}

/// What a pass tells the view: the lines, if there are any.
pub open spec fn pass_report(message: Option<LogFileMessage>, lines: Seq<Seq<char>>) -> bool {
    match message {
        None => lines.len() == 0,
        Some(LogFileMessage::FileData(batch)) => lines.len() > 0 && texts(batch@) == lines,
        Some(_) => false,
    }
}

/// What is said of bytes that are too many to be decoded in one pass.
pub open spec fn too_long_text() -> Seq<char> {
    "too many bytes for one pass"@
}

/// What a pass over `data` tells the view, where `lines` are the lines of
/// the pass: the lines, if there are any; a failure, where `data` is too long
/// to be decoded in one go.
pub open spec fn pass_outcome(
    message: Option<LogFileMessage>,
    data: Seq<u8>,
    lines: Seq<Seq<char>>,
) -> bool {
    if data.len() <= decode_limit() {
        pass_report(message, lines)
    } else {
        match message {
            Some(LogFileMessage::Error(Error::Other(text))) => text@ == too_long_text(),
            _ => false,
        }
    }
}

/// Whether `data` can be decoded in one pass.
fn fits(data: &[u8]) -> (b: bool)
    ensures
        b == (data@.len() <= decode_limit()),
{
    data.len() <= usize::MAX / 8
}

/// The failure to report for bytes that are too many.
fn too_long() -> (message: LogFileMessage)
    ensures
        message matches LogFileMessage::Error(Error::Other(text)) && text@ == too_long_text(),
{
    LogFileMessage::Error(Error::Other("too many bytes for one pass".to_string()))
}

/// What is settled for all passes over one file.
#[derive(Clone, Debug)]
pub struct ReaderSession {
    /// The encoding in which the file is read.
    pub encoding: Charset,
    /// Whether the file is read restricted.
    pub restricted: bool,
    /// The name of the file, as filesystem events give it.
    pub watched: String,
    /// Where the task stands.
    pub state: WatchState,
}

impl ReaderSession {
    /// Opens a session for a file that starts with `probe`. `given` is the
    /// encoding the caller asks for, if any; `restricted` the decision on the
    /// file's size.
    pub fn open(probe: &[u8], given: Option<Charset>, restricted: bool, watched: String) -> (session:
        ReaderSession)
        ensures
            session.encoding.label() == resolved_encoding(
                probe@,
                match given {
                    Some(g) => Some(g.label()),
                    None => None,
                },
            ),
            session.restricted == restricted,
            session.watched == watched,
            session.state == WatchState::Idle,
    {
        ReaderSession {
            encoding: resolve_encoding(probe, given),
            restricted,
            watched,
            state: WatchState::Idle,
        }
    }

    /// Tells the view the encoding of the session.
    pub fn encoding_message(&self) -> (message: LogFileMessage)
        ensures
            message == LogFileMessage::SetEncoding(Some(self.encoding)),
    {
        LogFileMessage::SetEncoding(Some(self.encoding))
    }

    /// Where reading of the file starts, now that it has `size` bytes.
    pub fn plan(&self, size: u64) -> (plan: TailPlan)
        ensures
            plan == tail_plan(size, MAX_FILE_SIZE, self.restricted),
    {
        plan_tail(size, MAX_FILE_SIZE, self.restricted)
    }

    /// How many rows a pass keeps, at most.
    pub fn row_limit(&self) -> (limit: Option<usize>)
        ensures
            limit == row_limit_for(self.restricted),
    {
        if self.restricted {
            Some(MAX_ROWS)
        } else {
            None
        }
    }

    /// What the view is told after the first pass over a file opened, or
    /// opened again, under `plan`; `data` holds the file's bytes from the
    /// planned offset on.
    pub fn first_pass(&self, data: &[u8], plan: TailPlan) -> (message: Option<LogFileMessage>)
        ensures
            pass_outcome(
                message,
                data@,
                window(
                    decoded_records(first_pass_bytes(data@, plan), self.encoding.label()),
                    row_limit_for(self.restricted),
                ),
            ),
    {
        if !fits(data) {
            return Some(too_long());
        }
        let lines = read_first_pass(data, plan, &self.encoding, self.row_limit());
        if lines.len() == 0 {
            None
        } else {
            Some(LogFileMessage::FileData(lines))
        }
    }

    /// What the view is told after a pass over `data`, the bytes between
    /// the cursor and the end of the file.
    pub fn pass(&self, data: &[u8]) -> (message: Option<LogFileMessage>)
        ensures
            pass_outcome(
                message,
                data@,
                window(
                    decoded_records(data@, self.encoding.label()),
                    row_limit_for(self.restricted),
                ),
            ),
    {
        if !fits(data) {
            return Some(too_long());
        }
        let lines = read_pass(data, &self.encoding, self.row_limit());
        if lines.len() == 0 {
            None
        } else {
            Some(LogFileMessage::FileData(lines))
        }
    }

    /// Takes in what the task reports and says what it is to do next.
    /// Encoding and restriction decision stay as they are.
    pub fn advance(&mut self, input: &WatchInput) -> (action: WatchAction)
        ensures
            final(self).state == next_state(old(self).state, *input, old(self).watched@),
            action == work_of(final(self).state),
            final(self).encoding == old(self).encoding,
            final(self).restricted == old(self).restricted,
            final(self).watched == old(self).watched,
    {
        let (state, action) = step(self.state, input, &self.watched);
        self.state = state;
        action
    }
}

} // verus!
