//! The change reconciler: what the background task does when the watched
//! directory reports a change.
//!
//! The task watches the directory that holds the file, so it also hears of
//! other files, and of the file being deleted and created again. This module
//! decides; the task performs what was decided and reports back.

use crate::search::texts;
use vstd::prelude::*;

verus! {

/// What a filesystem notification says has happened.
#[derive(Clone, Copy, Debug, PartialEq, Eq, Structural)]
pub enum ChangeKind {
    /// A file was created.
    Created,
    /// The content of a file changed.
    DataModified,
    /// Metadata of a file changed, with nothing said of which. This is often
    /// the trace of a file deleted in place; nothing is done about it.
    MetadataModified,
    /// Anything else.
    Other,
}

/// A filesystem notification: what happened, and the names of the files it
/// happened to.
#[derive(Clone, Debug)]
pub struct FsEvent {
    pub kind: ChangeKind,
    pub file_names: Vec<String>,
}

impl FsEvent {
    /// Whether the event names the file `watched`.
    pub open spec fn names(&self, watched: Seq<char>) -> bool {
        texts(self.file_names@).contains(watched)
    }

    /// Whether the event names the file `watched`.
    pub fn concerns(&self, watched: &String) -> (b: bool)
        ensures
            b == self.names(watched@),
    {
        let mut i: usize = 0;
        while i < self.file_names.len()
            invariant
                i <= self.file_names@.len(),
                forall|k: int| 0 <= k < i ==> self.file_names@[k]@ != watched@,
            decreases self.file_names@.len() - i,
        {
            if self.file_names[i] == *watched {
                assert(texts(self.file_names@)[i as int] == watched@);
                return true;
            }
            i += 1;
        }
        false
    }
}

/// Where the background task stands after the first read.
#[derive(Clone, Copy, Debug, PartialEq, Eq, Structural)]
pub enum WatchState {
    /// Waiting for a filesystem event.
    Idle,
    /// Opening the file anew after it was created again.
    Reopening,
    /// Reading what was appended.
    Appending,
    /// The watch failed or a channel closed: the task is over.
    Terminated,
}

/// What the background task reports to the reconciler.
#[derive(Clone, Debug)]
pub enum WatchInput {
    /// The directory reported a change.
    Changed(FsEvent),
    /// The work asked for was done.
    Done,
    /// Reading failed. The failure is reported and the task goes on.
    ReadFailed,
    /// The file could not be opened again.
    ReopenFailed,
    /// The watch could not be set up or kept up, or a channel closed.
    WatchFailed,
}

/// What the reconciler asks of the background task.
#[derive(Clone, Copy, Debug, PartialEq, Eq, Structural)]
pub enum WatchAction {
    /// Wait for the next filesystem event.
    Wait,
    /// Open the file anew, with the encoding and the restriction decision
    /// already made, and start reading where the tail planner says.
    Reopen,
    /// Read from the current cursor whatever the file holds now.
    ReadAppended,
    /// End the task.
    Stop,
}

/// The work that belongs to a state.
pub open spec fn work_of(state: WatchState) -> WatchAction {
    match state {
        WatchState::Idle => WatchAction::Wait,
        WatchState::Reopening => WatchAction::Reopen,
        WatchState::Appending => WatchAction::ReadAppended,
        WatchState::Terminated => WatchAction::Stop,
    }
}

/// The state that an event about the watched file leads to from `Idle`.
pub open spec fn state_after_change(kind: ChangeKind) -> WatchState {
    match kind {
        ChangeKind::Created => WatchState::Reopening,
        ChangeKind::DataModified => WatchState::Appending,
        ChangeKind::MetadataModified => WatchState::Idle,
        ChangeKind::Other => WatchState::Idle,
    }
}

/// The state that follows `state` on `input`, for a task that watches the
/// file named `watched`.
pub open spec fn next_state(state: WatchState, input: WatchInput, watched: Seq<char>) -> WatchState {
    match (state, input) {
        (WatchState::Terminated, _) => WatchState::Terminated,
        (_, WatchInput::WatchFailed) => WatchState::Terminated,
        (_, WatchInput::ReopenFailed) => WatchState::Terminated,
        (_, WatchInput::Done) => WatchState::Idle,
        (_, WatchInput::ReadFailed) => WatchState::Idle,
        (WatchState::Idle, WatchInput::Changed(event)) => if event.names(watched) {
            state_after_change(event.kind)
        } else {
            WatchState::Idle
        },
        (busy, WatchInput::Changed(_)) => busy,
    }
}

/// One step of the reconciler: the state that follows, and what the task is
/// to do next.
pub fn step(state: WatchState, input: &WatchInput, watched: &String) -> (r: (WatchState, WatchAction))
    ensures
        r.0 == next_state(state, *input, watched@),
        r.1 == work_of(r.0),
{
    let next = match state {
        WatchState::Terminated => WatchState::Terminated,
        _ => match input {
            WatchInput::WatchFailed => WatchState::Terminated,
            WatchInput::ReopenFailed => WatchState::Terminated,
            WatchInput::Done => WatchState::Idle,
            WatchInput::ReadFailed => WatchState::Idle,
            WatchInput::Changed(event) => match state {
                WatchState::Idle => {
                    if event.concerns(watched) {
                        match event.kind {
                            ChangeKind::Created => WatchState::Reopening,
                            ChangeKind::DataModified => WatchState::Appending,
                            ChangeKind::MetadataModified => WatchState::Idle,
                            ChangeKind::Other => WatchState::Idle,
                        }
                    } else {
                        WatchState::Idle
                    }
                },
                busy => busy,
            },
        },
    };
    let action = match next {
        WatchState::Idle => WatchAction::Wait,
        WatchState::Reopening => WatchAction::Reopen,
        WatchState::Appending => WatchAction::ReadAppended,
        WatchState::Terminated => WatchAction::Stop,
    };
    (next, action)
}

/// An event that does not name the watched file changes nothing.
pub proof fn lemma_unrelated_event_ignored(state: WatchState, event: FsEvent, watched: Seq<char>)
    requires
        !event.names(watched),
    ensures
        next_state(state, WatchInput::Changed(event), watched) == state,
{
}

/// A task that is over stays over, and a failed watch ends the task from
/// whatever state it was in.
pub proof fn lemma_termination_is_final(state: WatchState, input: WatchInput, watched: Seq<char>)
    ensures
        next_state(WatchState::Terminated, input, watched) == WatchState::Terminated,
        next_state(state, WatchInput::WatchFailed, watched) == WatchState::Terminated,
        next_state(state, WatchInput::ReopenFailed, watched) == WatchState::Terminated,
        state != WatchState::Terminated ==> next_state(state, WatchInput::ReadFailed, watched)
            == WatchState::Idle,
{
}

} // verus!
