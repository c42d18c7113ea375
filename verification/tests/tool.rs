use logtool::error::{send_err_to_error, Error};
use logtool::logfile::{
    humanreadable_bytes, restrict_prompt, restrict_question_text, LogFile, LogFileMessage,
    RestrictFileSize,
};
use logtool::encoding::encoding_for_label;
use logtool::session::{opening_message, ReaderSession};
use logtool::watcher::{step, ChangeKind, FsEvent, WatchAction, WatchInput, WatchState};
use logtool::{LogTool, Message, TabBehaviour, TabPane, APPLICATION_NAME, MAX_RECENT_FILES};

fn strings(items: &[&str]) -> Vec<String> {
    items.iter().map(|s| s.to_string()).collect()
}

fn event(kind: ChangeKind, names: &[&str]) -> WatchInput {
    WatchInput::Changed(FsEvent { kind, file_names: strings(names) })
}

fn pane_paths(tool: &LogTool) -> Vec<String> {
    tool.tabs
        .iter()
        .map(|pane| match pane {
            TabPane::LogFile(file) => file.path.clone(),
        })
        .collect()
}

#[test]
fn application_has_its_name() {
    assert_eq!(APPLICATION_NAME, "LogGlance");
    assert_eq!(MAX_RECENT_FILES, 20);
}

#[test]
fn sizes_are_shown_in_binary_units() {
    assert_eq!(humanreadable_bytes(0), "0 B");
    assert_eq!(humanreadable_bytes(1024), "1 KiB");
    assert_eq!(humanreadable_bytes(4 * 1024 * 1024 * 1024), "4 GiB");
    assert_eq!(humanreadable_bytes(1536), "1.50 KiB");
}

#[test]
fn restrict_prompt_names_both_sizes() {
    let text = restrict_prompt(6 * 1024 * 1024 * 1024);
    assert_eq!(
        text,
        "The file you're attempting to open is quite big (6 GiB).\nFiles larger than 4 GiB require lots of RAM to open due to memory overhead.\nDo you want to open this file in restricted mode?\n\nRestricted mode only reads the last 4 GiB and 120000000 rows of the file."
    );
}

#[test]
fn errors_describe_themselves() {
    let io = Error::Io("No such file or directory".to_string());
    assert_eq!(io.description(), "IO Error");
    assert_eq!(io.message(), "No such file or directory");
    let receive = Error::Receive("receiving on a closed channel".to_string());
    assert_eq!(receive.description(), "Channel Receive error");
    assert_eq!(receive.message(), "receiving on a closed channel");
    let notify = Error::Notify("watch limit reached".to_string());
    assert_eq!(notify.description(), "FS Notify error");
    assert_eq!(notify.message(), "watch limit reached");
    let other = Error::from("something else".to_string());
    assert_eq!(other.description(), "Unknown error");
    assert_eq!(other.message(), "something else");
    assert!(matches!(other, Error::Other(_)));
}

#[test]
fn send_failure_becomes_an_error() {
    let e = send_err_to_error("sending on a closed channel".to_string());
    assert!(matches!(e, Error::Other(_)));
    assert_eq!(e.message(), "sending on a closed channel");
}

#[test]
fn unrelated_events_are_ignored() {
    let watched = "app.log".to_string();
    for kind in
        [ChangeKind::Created, ChangeKind::DataModified, ChangeKind::MetadataModified, ChangeKind::Other]
    {
        let input = event(kind, &["other.log", "app.log.1"]);
        assert_eq!(step(WatchState::Idle, &input, &watched), (WatchState::Idle, WatchAction::Wait));
        let input = event(kind, &[]);
        assert_eq!(step(WatchState::Idle, &input, &watched), (WatchState::Idle, WatchAction::Wait));
    }
}

#[test]
fn creation_leads_to_reopening() {
    let watched = "app.log".to_string();
    let input = event(ChangeKind::Created, &["x", "app.log"]);
    assert_eq!(
        step(WatchState::Idle, &input, &watched),
        (WatchState::Reopening, WatchAction::Reopen)
    );
    assert_eq!(
        step(WatchState::Reopening, &WatchInput::Done, &watched),
        (WatchState::Idle, WatchAction::Wait)
    );
    assert_eq!(
        step(WatchState::Reopening, &WatchInput::ReopenFailed, &watched),
        (WatchState::Terminated, WatchAction::Stop)
    );
}

#[test]
fn modification_leads_to_appending() {
    let watched = "app.log".to_string();
    let input = event(ChangeKind::DataModified, &["app.log"]);
    assert_eq!(
        step(WatchState::Idle, &input, &watched),
        (WatchState::Appending, WatchAction::ReadAppended)
    );
    assert_eq!(
        step(WatchState::Appending, &WatchInput::Done, &watched),
        (WatchState::Idle, WatchAction::Wait)
    );
    // A failed read is reported and the task goes on.
    assert_eq!(
        step(WatchState::Appending, &WatchInput::ReadFailed, &watched),
        (WatchState::Idle, WatchAction::Wait)
    );
}

#[test]
fn metadata_and_other_changes_trigger_nothing() {
    let watched = "app.log".to_string();
    for kind in [ChangeKind::MetadataModified, ChangeKind::Other] {
        let input = event(kind, &["app.log"]);
        assert_eq!(step(WatchState::Idle, &input, &watched), (WatchState::Idle, WatchAction::Wait));
    }
}

#[test]
fn watch_failure_is_fatal_and_final() {
    let watched = "app.log".to_string();
    for state in [WatchState::Idle, WatchState::Reopening, WatchState::Appending] {
        assert_eq!(
            step(state, &WatchInput::WatchFailed, &watched),
            (WatchState::Terminated, WatchAction::Stop)
        );
    }
    for input in [
        event(ChangeKind::Created, &["app.log"]),
        event(ChangeKind::DataModified, &["app.log"]),
        WatchInput::Done,
        WatchInput::ReadFailed,
        WatchInput::ReopenFailed,
        WatchInput::WatchFailed,
    ] {
        assert_eq!(
            step(WatchState::Terminated, &input, &watched),
            (WatchState::Terminated, WatchAction::Stop)
        );
    }
}

#[test]
fn events_during_work_repeat_the_work() {
    let watched = "app.log".to_string();
    let input = event(ChangeKind::DataModified, &["app.log"]);
    assert_eq!(
        step(WatchState::Reopening, &input, &watched),
        (WatchState::Reopening, WatchAction::Reopen)
    );
    assert_eq!(
        step(WatchState::Appending, &input, &watched),
        (WatchState::Appending, WatchAction::ReadAppended)
    );
}

#[test]
fn event_names_are_compared_whole() {
    let e = FsEvent { kind: ChangeKind::Created, file_names: strings(&["app.log.1", "app"]) };
    assert!(!e.concerns(&"app.log".to_string()));
    assert!(e.concerns(&"app".to_string()));
    assert!(e.concerns(&"app.log.1".to_string()));
}

#[test]
fn new_file_knows_nothing_yet() {
    let file = LogFile::new("/var/log/app.log".to_string(), strings(&["x"]));
    assert_eq!(file.filename, "/var/log/app.log");
    assert_eq!(file.path, "/var/log/app.log");
    assert_eq!(file.lines.lines, strings(&["x"]));
    assert_eq!(file.restrict_filesize, RestrictFileSize::Initializing);
    assert_eq!(RestrictFileSize::default(), RestrictFileSize::Initializing);
    assert!(file.encoding.is_none());
    assert!(file.errors.is_empty());
    assert!(!file.attached);
    assert!(file.filter_cache.is_none());
    assert_eq!(file.max_rows, 120_000_000);
}

#[test]
fn messages_update_the_file() {
    let mut file = LogFile::new("app.log".to_string(), Vec::new());
    file.handle_message(LogFileMessage::ShowRestrictFileSizeDialog(6 << 30));
    assert_eq!(file.restrict_filesize, RestrictFileSize::ShowRestrictFileSizeDialog(6 << 30));
    file.handle_message(LogFileMessage::Error(Error::Io("denied".to_string())));
    file.handle_message(LogFileMessage::Error(Error::Other("again".to_string())));
    assert_eq!(file.errors.len(), 2);
    assert_eq!(file.errors[0].message(), "denied");
    assert_eq!(file.errors[1].message(), "again");
    let utf8 = encoding_for_label("utf-8");
    file.handle_message(LogFileMessage::SetEncoding(utf8));
    assert_eq!(file.encoding.unwrap().name(), "UTF-8");
    file.handle_message(LogFileMessage::SetEncoding(None));
    assert!(file.encoding.is_none());
    assert_eq!(file.restrict_filesize, RestrictFileSize::ShowRestrictFileSizeDialog(6 << 30));
}

#[test]
fn size_gate_is_answered_once() {
    let mut file = LogFile::with_max_rows("app.log".to_string(), strings(&["a", "b", "c"]), 2);
    assert_eq!(file.respond_to_size_gate(true), None);
    assert_eq!(file.restrict_filesize, RestrictFileSize::Initializing);
    file.ask_restriction(5 << 30);
    assert_eq!(file.respond_to_size_gate(true), Some(true));
    assert_eq!(file.restrict_filesize, RestrictFileSize::RestrictedFileSize);
    assert_eq!(file.lines.lines, strings(&["b", "c"]));
    assert_eq!(file.respond_to_size_gate(false), None);
    assert_eq!(file.restrict_filesize, RestrictFileSize::RestrictedFileSize);
    file.ask_restriction(5 << 30);
    assert_eq!(file.respond_to_size_gate(false), Some(false));
    assert_eq!(file.restrict_filesize, RestrictFileSize::UnrestrictedFileSize);
    assert_eq!(file.lines.max_rows, None);
}

#[test]
fn reader_attaches_and_detaches() {
    let mut file = LogFile::new("app.log".to_string(), strings(&["old"]));
    assert!(file.attach_reader());
    assert!(file.attached);
    assert!(file.recalculate_filter_cache);
    // One task at a time.
    file.recalculate();
    assert!(!file.attach_reader());
    assert!(file.attached);
    assert!(!file.recalculate_filter_cache);
    file.disconnected();
    assert!(!file.attached);
    assert!(file.lines.is_empty());
}

#[test]
fn encoding_change_cancels_the_reader() {
    let latin = encoding_for_label("windows-1252").unwrap();
    let mut file = LogFile::new("app.log".to_string(), strings(&["kept"]));
    assert!(!file.reload_with_encoding(latin));
    assert_eq!(file.encoding.unwrap().name(), "windows-1252");
    file.attach_reader();
    let utf8 = encoding_for_label("utf-8").unwrap();
    assert!(file.reload_with_encoding(utf8));
    assert!(!file.attached);
    assert_eq!(file.encoding.unwrap().name(), "UTF-8");
    assert_eq!(file.lines.lines, strings(&["kept"]));
}

#[test]
fn new_tool_is_empty() {
    let tool = LogTool::new();
    assert!(tool.tabs.is_empty());
    assert!(tool.active.is_none());
    assert!(tool.recent_files.is_empty());
    let tool = LogTool::default();
    assert!(tool.tabs.is_empty());
}

#[test]
fn picked_files_open_panes_in_order() {
    let mut tool = LogTool::new();
    tool.handle_message(Message::FilesPicked(strings(&["a.log", "b.log"])));
    assert_eq!(pane_paths(&tool), strings(&["a.log", "b.log"]));
    assert_eq!(tool.active, Some(1));
    assert_eq!(tool.recent_files, strings(&["b.log", "a.log"]));
}

#[test]
fn picking_an_open_file_brings_it_to_the_front() {
    let mut tool = LogTool::new();
    tool.files_picked(strings(&["a.log", "b.log", "c.log"]));
    tool.files_picked(strings(&["a.log"]));
    assert_eq!(pane_paths(&tool), strings(&["a.log", "b.log", "c.log"]));
    assert_eq!(tool.active, Some(0));
    assert_eq!(tool.recent_files, strings(&["a.log", "c.log", "b.log"]));
    assert_eq!(tool.find_tile(&"b.log".to_string()), Some(1));
    assert_eq!(tool.find_tile(&"z.log".to_string()), None);
}

#[test]
fn recent_files_are_capped() {
    let mut tool = LogTool::new();
    for i in 0..25 {
        tool.file_picked(format!("{i}.log"));
        assert!(tool.recent_files.len() <= MAX_RECENT_FILES);
    }
    assert_eq!(tool.recent_files.len(), 20);
    assert_eq!(tool.recent_files[0], "24.log");
    assert_eq!(tool.recent_files[19], "5.log");
    tool.remember("5.log".to_string());
    assert_eq!(tool.recent_files.len(), 20);
    assert_eq!(tool.recent_files[0], "5.log");
    assert_eq!(tool.recent_files[19], "6.log");
}

#[test]
fn add_tile_makes_the_pane_active() {
    let mut tool = LogTool::new();
    tool.add_tile(TabPane::LogFile(LogFile::new("x.log".to_string(), Vec::new())));
    tool.add_tile(TabPane::LogFile(LogFile::new("y.log".to_string(), Vec::new())));
    assert_eq!(tool.active, Some(1));
    assert_eq!(pane_paths(&tool), strings(&["x.log", "y.log"]));
    assert!(tool.recent_files.is_empty());
}

#[test]
fn closing_a_tab_cancels_its_reader() {
    let behaviour = TabBehaviour::default();
    let mut file = LogFile::new("x.log".to_string(), Vec::new());
    file.attach_reader();
    let mut pane = TabPane::LogFile(file);
    assert_eq!(behaviour.tab_title_for_pane(&pane), "x.log");
    assert!(behaviour.is_tab_closable());
    assert!(behaviour.on_tab_close(&mut pane));
    match pane {
        TabPane::LogFile(file) => assert!(!file.attached),
    }
}

#[test]
fn small_file_opens_restricted_without_asking() {
    match opening_message(10) {
        LogFileMessage::RestrictFileSize(restricted) => assert!(restricted),
        other => panic!("unexpected message {other:?}"),
    }
    match opening_message(4 * 1024 * 1024 * 1024) {
        LogFileMessage::RestrictFileSize(restricted) => assert!(restricted),
        other => panic!("unexpected message {other:?}"),
    }
}

#[test]
fn large_file_opens_with_a_question() {
    match opening_message(6 * 1024 * 1024 * 1024) {
        LogFileMessage::ShowRestrictFileSizeDialog(size) => assert_eq!(size, 6 * 1024 * 1024 * 1024),
        other => panic!("unexpected message {other:?}"),
    }
}

#[test]
fn session_reads_a_file_and_what_is_appended() {
    let content = b"a\nb\nc\n";
    let session = ReaderSession::open(content, None, true, "app.log".to_string());
    assert!(session.restricted);
    assert_eq!(session.state, WatchState::Idle);
    assert_eq!(session.row_limit(), Some(120_000_000));
    let plan = session.plan(content.len() as u64);
    assert_eq!(plan.offset, 0);
    assert!(!plan.discard_partial_line);
    let mut file = LogFile::new("app.log".to_string(), Vec::new());
    file.handle_message(session.encoding_message());
    assert_eq!(file.encoding.unwrap().name(), session.encoding.name());
    let first = session.first_pass(content, plan).expect("three lines were read");
    file.handle_message(first);
    assert_eq!(file.lines.lines, strings(&["a", "b", "c"]));
    assert_eq!(file.lines.len(), 3);
    let appended = session.pass(b"d\n").expect("one line was appended");
    match &appended {
        LogFileMessage::FileData(lines) => assert_eq!(lines, &strings(&["d"])),
        other => panic!("unexpected message {other:?}"),
    }
    file.handle_message(appended);
    assert_eq!(file.lines.lines, strings(&["a", "b", "c", "d"]));
}

#[test]
fn session_reports_nothing_for_an_empty_pass() {
    let session = ReaderSession::open(b"", None, false, "app.log".to_string());
    assert_eq!(session.row_limit(), None);
    assert!(session.pass(b"").is_none());
    let plan = session.plan(0);
    assert!(session.first_pass(b"", plan).is_none());
}

#[test]
fn session_keeps_encoding_and_decision_over_a_reopen() {
    let latin = encoding_for_label("windows-1252").unwrap();
    let mut session = ReaderSession::open(b"caf\xE9\n", Some(latin), true, "app.log".to_string());
    let created = event(ChangeKind::Created, &["app.log"]);
    assert_eq!(session.advance(&created), WatchAction::Reopen);
    assert_eq!(session.state, WatchState::Reopening);
    let plan = session.plan(9 * 1024 * 1024 * 1024);
    assert_eq!(plan.offset, 5 * 1024 * 1024 * 1024 - 512);
    assert!(plan.discard_partial_line);
    assert_eq!(session.advance(&WatchInput::Done), WatchAction::Wait);
    assert_eq!(session.state, WatchState::Idle);
    assert_eq!(session.encoding.name(), "windows-1252");
    assert!(session.restricted);
    let modified = event(ChangeKind::DataModified, &["app.log"]);
    assert_eq!(session.advance(&modified), WatchAction::ReadAppended);
    match session.pass(b"na\xEFve\n") {
        Some(LogFileMessage::FileData(lines)) => assert_eq!(lines, strings(&["naïve"])),
        other => panic!("unexpected message {other:?}"),
    }
    assert_eq!(session.advance(&WatchInput::WatchFailed), WatchAction::Stop);
    assert_eq!(session.advance(&modified), WatchAction::Stop);
    assert_eq!(session.state, WatchState::Terminated);
}

#[test]
fn reopening_does_not_clear_the_history() {
    let session = ReaderSession::open(b"", None, true, "app.log".to_string());
    let mut file = LogFile::new("app.log".to_string(), Vec::new());
    file.handle_message(session.first_pass(b"old 1\nold 2\n", session.plan(12)).unwrap());
    // The file is created anew and read from its start again.
    file.handle_message(session.first_pass(b"new 1\n", session.plan(6)).unwrap());
    assert_eq!(file.lines.lines, strings(&["old 1", "old 2", "new 1"]));
}

#[test]
fn restrict_question_puts_the_sizes_in_place() {
    assert_eq!(
        restrict_question_text("SIZE", "MAX"),
        "The file you're attempting to open is quite big (SIZE).\nFiles larger than MAX require lots of RAM to open due to memory overhead.\nDo you want to open this file in restricted mode?\n\nRestricted mode only reads the last MAX and 120000000 rows of the file."
    );
}
