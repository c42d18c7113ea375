//! Log ingestion and filtering engine of a live log-file viewer.
//!
//! The engine resolves a file's text encoding, plans where reading starts,
//! splits the byte stream into decoded lines, reconciles filesystem events,
//! keeps a bounded store of lines, and derives filtered and highlighted views
//! of that store. This root module holds what sits on top of the engine: the
//! open files as an ordered set of panes, and the list of recently opened
//! files.
//!
//! # What is proved and what is believed
//!
//! Every function of this crate carries a contract, and Verus proves the
//! contracts from the code, with these exceptions. Pattern syntax and matching
//! come from `regex`, the parallel scan from `rayon`, encodings from
//! `encoding_rs`, detection of an encoding from `chardetng`, and the wording of
//! sizes from `humansize`. The functions that call them, in [`matcher`],
//! [`charset`] and [`logfile::humanreadable_bytes`], have contracts that are
//! taken on trust; each says in its documentation what it claims. What such a
//! call returns is, for the proofs, a name without a definition:
//! [`matcher::pattern_matches`] is whatever `regex` matches, and nothing is
//! claimed of it but that it depends on its arguments alone.
//!
//! Nothing here touches a file, a channel or a clock. The task that reads and
//! watches a file asks the engine what to do and hands it what it read.

pub mod charset;
pub mod encoding;
pub mod error;
pub mod highlight;
pub mod logfile;
pub mod matcher;
pub mod reader;
pub mod search;
pub mod session;
pub mod store;
pub mod tail;
pub mod watcher;

pub use crate::error::Error;

use crate::logfile::LogFile;
use crate::reader::MAX_ROWS;
use crate::search::texts;
use vstd::prelude::*;

verus! {

/// Name under which the application presents itself.
pub const APPLICATION_NAME: &'static str = "LogGlance";

/// How many recently opened files are remembered.
pub const MAX_RECENT_FILES: usize = 20;

/// What reaches the tool from outside.
#[derive(Clone, Debug)]
pub enum Message {
    /// The user picked these files to open.
    FilesPicked(Vec<String>),
}

/// What a pane shows.
#[derive(Clone, Debug)]
pub enum TabPane {
    LogFile(LogFile),
}

impl TabPane {
    /// The path of the file that the pane shows.
    pub open spec fn path(&self) -> Seq<char> {
        match self {
            TabPane::LogFile(file) => file.path@,
        }
    }

    /// The title of the pane.
    pub open spec fn title(&self) -> Seq<char> {
        match self {
            TabPane::LogFile(file) => file.filename@,
        }
    }

    /// Whether the pane is as a pane just opened for the file at `path` is.
    pub open spec fn is_new(&self, path: Seq<char>) -> bool {
        match self {
            TabPane::LogFile(file) => file.lines.lines@.len() == 0 && file.is_new(
                path,
                file.lines.lines,
                MAX_ROWS,
            ),
        }
    }

    /// Whether a background task feeds the pane.
    pub open spec fn attached(&self) -> bool {
        match self {
            TabPane::LogFile(file) => file.attached,
        }
    }
}

/// How panes behave as tabs.
#[derive(Clone, Copy, Debug)]
pub struct TabBehaviour {}

impl TabBehaviour {
    pub fn tab_title_for_pane(&self, pane: &TabPane) -> (title: String)
        ensures
            title@ == pane.title(),
    {
        match pane {
            TabPane::LogFile(file) => file.filename.clone(),
        }
    }

    /// Every tab can be closed.
    pub fn is_tab_closable(&self) -> (closable: bool)
        ensures
            closable,
    {
        true
    }

    /// Prepares a pane for closing: its background task, if it has one, is
    /// to be cancelled, and the pane no longer counts as fed by it. Returns
    /// whether the pane may close, which it always may.
    pub fn on_tab_close(&self, pane: &mut TabPane) -> (close: bool)
        ensures
            close,
            *final(pane) == match *old(pane) {
                TabPane::LogFile(file) => TabPane::LogFile(LogFile { attached: false, ..file }),
            },
    {
        match pane {
            TabPane::LogFile(file) => {
                file.attached = false;
            },
        }
        true
    }
}

impl Default for TabBehaviour {
    fn default() -> (b: TabBehaviour) {
        TabBehaviour {  }
    }
}

/// The index of the first of `paths` that equals `path`.
pub open spec fn first_index(paths: Seq<Seq<char>>, path: Seq<char>) -> Option<int>
    decreases paths.len(),
{
    if paths.len() == 0 {
        None
    } else {
        match first_index(paths.drop_last(), path) {
            Some(i) => Some(i),
            None => if paths.last() == path {
                Some(paths.len() - 1)
            } else {
                None
            },
        }
    }
}

/// `recent` without the entries equal to `path`.
pub open spec fn without(recent: Seq<Seq<char>>, path: Seq<char>) -> Seq<Seq<char>>
    decreases recent.len(),
{
    if recent.len() == 0 {
        Seq::empty()
    } else if recent.last() == path {
        without(recent.drop_last(), path)
    } else {
        without(recent.drop_last(), path).push(recent.last())
    }
}

/// The list of recent files after `path` was opened: `path` comes first, the
/// others follow in their order, and where the list grew over its length the
/// last entry is dropped.
pub open spec fn remembered(recent: Seq<Seq<char>>, path: Seq<char>) -> Seq<Seq<char>> {
    let all = seq![path] + without(recent, path);
    if all.len() > MAX_RECENT_FILES {
        all.drop_last()
    } else {
        all
    }
}

/// What the tool holds, in plain terms: the paths of its panes in order, the
/// pane in front, and the recent files.
pub struct ToolView {
    pub panes: Seq<Seq<char>>,
    pub active: Option<int>,
    pub recent: Seq<Seq<char>>,
}

/// The tool after the file at `path` was picked: a pane that shows the file
/// comes to the front, a new pane at the end where there was none; the path
/// is remembered.
pub open spec fn picked(tool: ToolView, path: Seq<char>) -> ToolView {
    match first_index(tool.panes, path) {
        Some(i) => ToolView {
            panes: tool.panes,
            active: Some(i),
            recent: remembered(tool.recent, path),
        },
        None => ToolView {
            panes: tool.panes.push(path),
            active: Some(tool.panes.len() as int),
            recent: remembered(tool.recent, path),
        },
    }
}

/// The tool after the files at `paths` were picked, one after the other.
pub open spec fn picked_all(tool: ToolView, paths: Seq<Seq<char>>) -> ToolView
    decreases paths.len(),
{
    if paths.len() == 0 {
        tool
    } else {
        picked(picked_all(tool, paths.drop_last()), paths.last())
    }
}

/// Once `path` is found among the first `k` paths, that is where it is
/// first found among all of them.
proof fn lemma_first_index_in_prefix(paths: Seq<Seq<char>>, k: int, path: Seq<char>)
    requires
        0 <= k <= paths.len(),
        first_index(paths.take(k), path) is Some,
    ensures
        first_index(paths, path) == first_index(paths.take(k), path),
    decreases paths.len(),
{
    if k == paths.len() {
        assert(paths.take(k) =~= paths);
    } else {
        assert(paths.drop_last().take(k) =~= paths.take(k));
        lemma_first_index_in_prefix(paths.drop_last(), k, path);
    }
}

/// Whatever is remembered, the list starts with the path just opened, holds
/// it once, and stays within its length if it was within it.
pub proof fn lemma_remembered(recent: Seq<Seq<char>>, path: Seq<char>)
    ensures
        without(recent, path).len() <= recent.len(),
        !without(recent, path).contains(path),
        remembered(recent, path).len() >= 1 ==> remembered(recent, path)[0] == path,
        recent.len() <= MAX_RECENT_FILES ==> 1 <= remembered(recent, path).len()
            <= MAX_RECENT_FILES,
    decreases recent.len(),
{
    if recent.len() > 0 {
        lemma_remembered(recent.drop_last(), path);
    }
}

/// The open files and the recent files.
#[derive(Clone, Debug)]
pub struct LogTool {
    pub tabs: Vec<TabPane>,
    pub active: Option<usize>,
    pub recent_files: Vec<String>,
    pub behaviour: TabBehaviour,
}

impl LogTool {
    /// The paths of the panes, in order.
    pub open spec fn pane_paths(&self) -> Seq<Seq<char>> {
        self.tabs@.map_values(|pane: TabPane| pane.path())
    }

    /// What the tool holds, in plain terms.
    pub open spec fn view(&self) -> ToolView {
        ToolView {
            panes: self.pane_paths(),
            active: match self.active {
                Some(i) => Some(i as int),
                None => None,
            },
            recent: texts(self.recent_files@),
        }
    }

    /// The pane in front, if there is one, is one of the panes, and the
    /// list of recent files is within its length.
    pub open spec fn wf(&self) -> bool {
        &&& self.active is Some ==> self.active.unwrap() < self.tabs@.len()
        &&& self.recent_files@.len() <= MAX_RECENT_FILES
    }

    /// A tool without panes and without recent files.
    pub fn new() -> (tool: LogTool)
        ensures
            tool.tabs@.len() == 0,
            tool.active is None,
            tool.recent_files@.len() == 0,
            tool.wf(),
    {
        LogTool {
            tabs: Vec::new(),
            active: None,
            recent_files: Vec::new(),
            behaviour: TabBehaviour {  },
        }
    }

    /// Puts `tab` behind the panes there are and brings it to the front.
    pub fn add_tile(&mut self, tab: TabPane)
        ensures
            final(self).tabs@ == old(self).tabs@.push(tab),
            final(self).active is Some,
            final(self).active.unwrap() == old(self).tabs@.len(),
            final(self).recent_files == old(self).recent_files,
            old(self).wf() ==> final(self).wf(),
    {
        self.tabs.push(tab);
        self.active = Some(self.tabs.len() - 1);
    }

    /// The first pane that shows the file at `path`.
    pub fn find_tile(&self, path: &String) -> (found: Option<usize>)
        ensures
            match found {
                Some(i) => first_index(self.pane_paths(), path@) == Some(i as int)
                    && i < self.tabs@.len(),
                None => first_index(self.pane_paths(), path@) is None,
            },
    {
        let ghost paths = self.pane_paths();
        let mut i: usize = 0;
        while i < self.tabs.len()
            invariant
                i <= self.tabs@.len(),
                paths == self.pane_paths(),
                first_index(paths.take(i as int), path@) is None,
            decreases self.tabs@.len() - i,
        {
            assert(paths.take(i + 1).drop_last() =~= paths.take(i as int));
            let shows = match &self.tabs[i] {
                TabPane::LogFile(file) => file.path == *path,
            };
            if shows {
                proof {
                    lemma_first_index_in_prefix(paths, i + 1, path@);
                }
                return Some(i);
            }
            i += 1;
        }
        assert(paths.take(i as int) =~= paths);
        None
    }

    /// Puts `path` at the front of the recent files.
    pub fn remember(&mut self, path: String)
        ensures
            texts(final(self).recent_files@) == remembered(texts(old(self).recent_files@), path@),
            final(self).tabs == old(self).tabs,
            final(self).active == old(self).active,
            old(self).wf() ==> final(self).wf(),
    {
        let ghost recent = texts(self.recent_files@);
        proof {
            lemma_remembered(recent, path@);
        }
        let mut list: Vec<String> = Vec::new();
        let mut i: usize = 0;
        list.push(path.clone());
        while i < self.recent_files.len()
            invariant
                i <= self.recent_files@.len(),
                recent == texts(self.recent_files@),
                texts(list@) == seq![path@] + without(recent.take(i as int), path@),
            decreases self.recent_files@.len() - i,
        {
            assert(recent.take(i + 1).drop_last() =~= recent.take(i as int));
            if self.recent_files[i] != path {
                let entry = self.recent_files[i].clone();
                assert(texts(list@.push(entry)) =~= (seq![path@] + without(
                    recent.take(i as int),
                    path@,
                )).push(entry@));
                list.push(entry);
            }
            i += 1;
        }
        assert(recent.take(i as int) =~= recent);
        if list.len() > MAX_RECENT_FILES {
            let _ = list.pop();
        }
        self.recent_files = list;
    }

    /// Opens the file at `path`: brings the pane that shows it to the front,
    /// or adds a pane for it, and remembers the path.
    pub fn file_picked(&mut self, path: String)
        ensures
            final(self).view() == picked(old(self).view(), path@),
            final(self).tabs@.len() >= old(self).tabs@.len(),
            final(self).tabs@.take(old(self).tabs@.len() as int) == old(self).tabs@,
            forall|k: int|
                old(self).tabs@.len() <= k < final(self).tabs@.len() ==> (
                #[trigger] final(self).tabs@[k]).is_new(final(self).pane_paths()[k]),
            old(self).wf() ==> final(self).wf(),
    {
        match self.find_tile(&path) {
            Some(i) => {
                self.active = Some(i);
            },
            None => {
                let ghost before = self.pane_paths();
                self.add_tile(TabPane::LogFile(LogFile::new(path.clone(), Vec::new())));
                assert(self.pane_paths() =~= before.push(path@));
            },
        }
        self.remember(path);
    }

    /// Opens the files at `paths`, one after the other.
    pub fn files_picked(&mut self, paths: Vec<String>)
        ensures
            final(self).view() == picked_all(old(self).view(), texts(paths@)),
            final(self).tabs@.len() >= old(self).tabs@.len(),
            final(self).tabs@.take(old(self).tabs@.len() as int) == old(self).tabs@,
            forall|k: int|
                old(self).tabs@.len() <= k < final(self).tabs@.len() ==> (
                #[trigger] final(self).tabs@[k]).is_new(final(self).pane_paths()[k]),
            old(self).wf() ==> final(self).wf(),
    {
        let ghost all = texts(paths@);
        let mut i: usize = 0;
        while i < paths.len()
            invariant
                i <= paths@.len(),
                all == texts(paths@),
                self.view() == picked_all(old(self).view(), all.take(i as int)),
                self.tabs@.len() >= old(self).tabs@.len(),
                self.tabs@.take(old(self).tabs@.len() as int) == old(self).tabs@,
                forall|k: int|
                    old(self).tabs@.len() <= k < self.tabs@.len() ==> (#[trigger] self.tabs@[k]).is_new(
                        self.pane_paths()[k],
                    ),
                old(self).wf() ==> self.wf(),
            decreases paths@.len() - i,
        {
            assert(all.take(i + 1).drop_last() =~= all.take(i as int));
            self.file_picked(paths[i].clone());
            i += 1;
        }
        assert(all.take(i as int) =~= all);
    }

    /// Takes in a message.
    pub fn handle_message(&mut self, message: Message)
        ensures
            match message {
                Message::FilesPicked(paths) => {
                    &&& final(self).view() == picked_all(old(self).view(), texts(paths@))
                    &&& final(self).tabs@.len() >= old(self).tabs@.len()
                    &&& final(self).tabs@.take(old(self).tabs@.len() as int) == old(self).tabs@
                    &&& forall|k: int|
                        old(self).tabs@.len() <= k < final(self).tabs@.len() ==> (
                        #[trigger] final(self).tabs@[k]).is_new(final(self).pane_paths()[k])
                    &&& old(self).wf() ==> final(self).wf()
                },
            },
    {
        match message {
            Message::FilesPicked(paths) => self.files_picked(paths),
        }
    }
}

impl Default for LogTool {
    fn default() -> (tool: LogTool)
        ensures
            tool.tabs@.len() == 0,
            tool.active is None,
            tool.recent_files@.len() == 0,
            tool.wf(),
    {
        LogTool::new()
    }
}

} // verus!
