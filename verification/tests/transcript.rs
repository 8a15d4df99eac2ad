use std::collections::HashMap;

use cctiles::transcript::{
    is_replaced, FileCheck, TranscriptWatcher, WatchAction, WatchEvent, POLL_INTERVAL_MS, RETRY_MS,
};

/// A disk in memory: names lead to inodes, and an open file stays with its inode.
struct Disk {
    names: HashMap<String, u64>,
    inodes: Vec<Vec<u8>>,
    reported: Option<String>,
    open: Option<(u64, usize)>,
}

impl Disk {
    fn new() -> Self {
        Disk { names: HashMap::new(), inodes: Vec::new(), reported: None, open: None }
    }

    fn create(&mut self, name: &str, contents: &str) {
        self.names.insert(name.to_string(), self.inodes.len() as u64);
        self.inodes.push(contents.as_bytes().to_vec());
    }

    fn append(&mut self, name: &str, contents: &str) {
        let inode = self.names[name] as usize;
        self.inodes[inode].extend_from_slice(contents.as_bytes());
    }

    fn truncate(&mut self, name: &str) {
        let inode = self.names[name] as usize;
        self.inodes[inode].clear();
    }

    fn perform(&mut self, action: WatchAction, path: &str) -> WatchEvent {
        match action {
            WatchAction::ReadPath { .. } => WatchEvent::PathReported(self.reported.clone()),
            WatchAction::OpenFile => match self.names.get(path) {
                Some(inode) => {
                    self.open = Some((*inode, 0));
                    WatchEvent::Opened
                }
                None => WatchEvent::OpenFailed,
            },
            WatchAction::CheckFile => {
                let (inode, cursor) = self.open.unwrap();
                WatchEvent::Checked(self.names.get(path).map(|on_disk| FileCheck {
                    disk_inode: *on_disk,
                    disk_len: self.inodes[*on_disk as usize].len() as u64,
                    open_inode: inode,
                    cursor: cursor as u64,
                }))
            }
            WatchAction::ReopenFile => match self.names.get(path) {
                Some(inode) => {
                    self.open = Some((*inode, 0));
                    WatchEvent::Reopened
                }
                None => WatchEvent::ReopenFailed,
            },
            WatchAction::ReadFile => {
                let (inode, cursor) = self.open.unwrap();
                let contents = &self.inodes[inode as usize];
                let bytes = contents.get(cursor..).unwrap_or(&[]).to_vec();
                self.open = Some((inode, cursor + bytes.len()));
                WatchEvent::Read(bytes)
            }
            WatchAction::Subscribe => WatchEvent::Subscribed,
            WatchAction::AwaitChange { .. } => WatchEvent::TimedOut,
            WatchAction::Stop => WatchEvent::Disconnected,
        }
    }
}

struct Run {
    watcher: TranscriptWatcher,
    next: WatchAction,
}

impl Run {
    fn start() -> Self {
        let (watcher, next) = TranscriptWatcher::start();
        Run { watcher, next }
    }

    fn go_on(&mut self, disk: &mut Disk) -> Vec<String> {
        for _ in 0..30 {
            let event = disk.perform(self.next, self.watcher.followed());
            self.next = self.watcher.step(&event);
        }
        self.watcher.activity_lines()
    }
}

fn assistant_text(text: &str) -> String {
    format!(
        "{{\"type\":\"assistant\",\"message\":{{\"role\":\"assistant\",\"content\":[{{\"type\":\"text\",\"text\":\"{text}\"}}]}}}}\n"
    )
}

#[test]
fn stays_idle_until_a_transcript_path_is_reported() {
    let mut disk = Disk::new();
    let mut run = Run::start();
    assert_eq!(run.go_on(&mut disk), vec!["Idle".to_string()]);
    assert_eq!(run.next, WatchAction::ReadPath { after_ms: RETRY_MS });
}

#[test]
fn streams_lines_once_the_transcript_path_is_reported() {
    let mut disk = Disk::new();
    let mut run = Run::start();
    assert_eq!(run.go_on(&mut disk), vec!["Idle".to_string()]);

    disk.create("session-abc.jsonl", &assistant_text("initial message"));
    disk.reported = Some("session-abc.jsonl".to_string());
    assert_eq!(run.go_on(&mut disk), vec!["initial message".to_string()]);

    disk.append("session-abc.jsonl", &assistant_text("appended message"));
    assert_eq!(
        run.go_on(&mut disk),
        vec!["initial message".to_string(), "appended message".to_string()]
    );
}

#[test]
fn ignores_a_pre_existing_jsonl_file_it_was_never_told_about() {
    let mut disk = Disk::new();
    disk.create("old-session.jsonl", &assistant_text("stale unrelated content"));
    let mut run = Run::start();
    assert_eq!(run.go_on(&mut disk), vec!["Idle".to_string()]);

    disk.create("new-session.jsonl", &assistant_text("real session content"));
    disk.reported = Some("new-session.jsonl".to_string());
    assert_eq!(run.go_on(&mut disk), vec!["real session content".to_string()]);
    assert_eq!(run.watcher.followed(), "new-session.jsonl");
}

#[test]
fn follows_a_resume_switch_to_a_different_pre_existing_file() {
    let mut disk = Disk::new();
    disk.create("session-first.jsonl", &assistant_text("from the fresh session"));
    disk.create(
        "session-resumed.jsonl",
        &assistant_text("earlier turn from the resumed conversation"),
    );
    disk.reported = Some("session-first.jsonl".to_string());
    let mut run = Run::start();
    assert_eq!(run.go_on(&mut disk), vec!["from the fresh session".to_string()]);

    disk.reported = Some("session-resumed.jsonl".to_string());
    assert_eq!(
        run.go_on(&mut disk),
        vec!["earlier turn from the resumed conversation".to_string()]
    );

    disk.append("session-resumed.jsonl", &assistant_text("new turn after resuming"));
    assert_eq!(
        run.go_on(&mut disk),
        vec![
            "earlier turn from the resumed conversation".to_string(),
            "new turn after resuming".to_string(),
        ]
    );
}

#[test]
fn recovers_after_the_transcript_file_is_replaced_with_a_new_inode() {
    let mut disk = Disk::new();
    disk.create("session-abc.jsonl", &assistant_text("before replace"));
    disk.reported = Some("session-abc.jsonl".to_string());
    let mut run = Run::start();
    assert_eq!(run.go_on(&mut disk).last(), Some(&"before replace".to_string()));

    disk.create("session-abc.jsonl", &assistant_text("after replace"));
    let lines = run.go_on(&mut disk);
    assert_eq!(lines.last(), Some(&"after replace".to_string()));
    assert_eq!(lines.len(), 2);
}

#[test]
fn recovers_after_the_transcript_file_is_truncated_in_place() {
    let mut disk = Disk::new();
    disk.create("session-abc.jsonl", &assistant_text("a fairly long message before truncation"));
    disk.reported = Some("session-abc.jsonl".to_string());
    let mut run = Run::start();
    assert_eq!(
        run.go_on(&mut disk).last(),
        Some(&"a fairly long message before truncation".to_string())
    );

    disk.truncate("session-abc.jsonl");
    disk.append("session-abc.jsonl", &assistant_text("after truncate"));
    assert_eq!(run.go_on(&mut disk).last(), Some(&"after truncate".to_string()));
}

#[test]
fn a_line_is_shown_once_it_is_complete() {
    let line = assistant_text("whole");
    let (head, tail) = line.split_at(20);
    let mut disk = Disk::new();
    disk.create("t.jsonl", head);
    disk.reported = Some("t.jsonl".to_string());
    let mut run = Run::start();
    assert_eq!(run.go_on(&mut disk), vec!["Idle".to_string()]);
    disk.append("t.jsonl", tail);
    assert_eq!(run.go_on(&mut disk), vec!["whole".to_string()]);
}

#[test]
fn reads_may_cut_lines_and_characters_anywhere() {
    let bytes = (assistant_text("grüße") + "\n" + &assistant_text("später")).into_bytes();
    let mut whole = TranscriptWatcher::start().0;
    whole.drain_new_lines(&bytes);
    let mut bytewise = TranscriptWatcher::start().0;
    for byte in &bytes {
        bytewise.drain_new_lines(&[*byte]);
    }
    assert_eq!(whole.activity_lines(), vec!["grüße".to_string(), "später".to_string()]);
    assert_eq!(bytewise.activity_lines(), whole.activity_lines());
}

#[test]
fn bytes_that_are_not_utf8_are_replaced() {
    let mut bytes = assistant_text("a?b").into_bytes();
    let at = bytes.iter().position(|b| *b == b'?').unwrap();
    bytes[at] = 0xff;
    let mut watcher = TranscriptWatcher::start().0;
    watcher.drain_new_lines(&bytes);
    assert_eq!(watcher.activity_lines(), vec!["a\u{fffd}b".to_string()]);
}

#[test]
fn a_file_is_replaced_by_another_inode_or_a_shorter_one() {
    let check = FileCheck { disk_inode: 1, disk_len: 10, open_inode: 1, cursor: 10 };
    assert!(!is_replaced(&check));
    assert!(is_replaced(&FileCheck { disk_inode: 2, ..check }));
    assert!(is_replaced(&FileCheck { disk_len: 9, ..check }));
    assert!(!is_replaced(&FileCheck { disk_len: 11, ..check }));
}

#[test]
fn a_missing_file_is_asked_for_again() {
    let mut disk = Disk::new();
    disk.reported = Some("late.jsonl".to_string());
    let mut run = Run::start();
    assert_eq!(run.go_on(&mut disk), vec!["Idle".to_string()]);
    disk.create("late.jsonl", &assistant_text("there at last"));
    assert_eq!(run.go_on(&mut disk), vec!["there at last".to_string()]);
}

#[test]
fn a_failed_reopening_keeps_the_open_file() {
    let mut disk = Disk::new();
    disk.create("t.jsonl", &assistant_text("kept"));
    disk.reported = Some("t.jsonl".to_string());
    let mut run = Run::start();
    run.go_on(&mut disk);
    disk.names.clear();
    assert_eq!(run.go_on(&mut disk), vec!["kept".to_string()]);
}

#[test]
fn each_event_leads_to_the_next_action() {
    let (mut watcher, first) = TranscriptWatcher::start();
    let report = WatchEvent::PathReported(Some("t.jsonl".to_string()));
    let again = WatchAction::ReadPath { after_ms: 0 };
    assert_eq!(first, again);
    assert_eq!(watcher.step(&report), again);
    assert_eq!(watcher.step(&report), WatchAction::OpenFile);
    assert_eq!(watcher.step(&WatchEvent::OpenFailed), WatchAction::ReadPath { after_ms: 200 });
    assert_eq!(watcher.step(&report), WatchAction::OpenFile);
    assert_eq!(watcher.step(&WatchEvent::Opened), WatchAction::CheckFile);
    assert_eq!(watcher.step(&WatchEvent::Checked(None)), WatchAction::ReadFile);
    assert_eq!(watcher.step(&WatchEvent::ReadFailed), WatchAction::Subscribe);
    assert_eq!(watcher.step(&WatchEvent::Subscribed), again);
    assert_eq!(watcher.step(&report), WatchAction::AwaitChange { timeout_ms: 300 });
    assert_eq!(watcher.step(&WatchEvent::Changed { modified: false }), again);
    assert_eq!(watcher.step(&WatchEvent::Changed { modified: true }), WatchAction::CheckFile);
    assert_eq!(watcher.step(&WatchEvent::Checked(None)), WatchAction::ReadFile);
    assert_eq!(watcher.step(&WatchEvent::ReadFailed), again);
    assert_eq!(watcher.step(&WatchEvent::Disconnected), again);
    assert_eq!(watcher.step(&report), WatchAction::AwaitChange { timeout_ms: 300 });
    assert_eq!(watcher.step(&WatchEvent::TimedOut), WatchAction::CheckFile);
    assert_eq!(watcher.step(&WatchEvent::PathUnreadable), again);
    assert_eq!(watcher.step(&WatchEvent::PathUnreadable), WatchAction::Stop);
    assert_eq!(watcher.step(&report), WatchAction::Stop);
    assert_eq!((RETRY_MS, POLL_INTERVAL_MS), (200, 300));
}

fn following(subscription: &WatchEvent) -> TranscriptWatcher {
    let (mut watcher, _) = TranscriptWatcher::start();
    let report = WatchEvent::PathReported(Some("t.jsonl".to_string()));
    watcher.step(&report);
    watcher.step(&report);
    watcher.step(&WatchEvent::Opened);
    watcher.step(&WatchEvent::Checked(None));
    let read = WatchEvent::Read(assistant_text("seen").into_bytes());
    assert_eq!(watcher.step(&read), WatchAction::Subscribe);
    assert_eq!(watcher.step(subscription), WatchAction::ReadPath { after_ms: 0 });
    watcher
}

#[test]
fn a_file_is_followed_without_notifications_too() {
    let report = WatchEvent::PathReported(Some("t.jsonl".to_string()));
    let await_change = WatchAction::AwaitChange { timeout_ms: POLL_INTERVAL_MS };
    for broken_off in [false, true] {
        let mut watcher = if broken_off {
            let mut watcher = following(&WatchEvent::Subscribed);
            assert_eq!(watcher.step(&report), await_change);
            watcher.step(&WatchEvent::Disconnected);
            watcher
        } else {
            following(&WatchEvent::SubscribeFailed)
        };
        assert_eq!(watcher.activity_lines(), vec!["seen".to_string()]);
        assert_eq!(watcher.step(&report), await_change);
        assert_eq!(watcher.step(&WatchEvent::TimedOut), WatchAction::CheckFile);
        assert_eq!(watcher.step(&WatchEvent::Checked(None)), WatchAction::ReadFile);
        watcher.step(&WatchEvent::Read(assistant_text("more").into_bytes()));
        assert_eq!(watcher.activity_lines(), vec!["seen".to_string(), "more".to_string()]);
        assert_eq!(watcher.followed(), "t.jsonl");
    }
}

#[test]
fn a_path_written_in_another_way_is_the_same_file() {
    let mut disk = Disk::new();
    disk.create("/t/a.jsonl", &assistant_text("kept"));
    disk.reported = Some("/t/a.jsonl".to_string());
    let mut run = Run::start();
    run.go_on(&mut disk);
    for same in ["/t//a.jsonl", "/t/./a.jsonl", "//t/a.jsonl/"] {
        disk.reported = Some(same.to_string());
        assert_eq!(run.go_on(&mut disk), vec!["kept".to_string()]);
        assert_eq!(run.watcher.followed(), "/t/a.jsonl");
    }
    disk.reported = Some("t/a.jsonl".to_string());
    assert_eq!(run.go_on(&mut disk), vec!["Idle".to_string()]);
}

#[test]
fn only_another_report_ends_the_following() {
    let again = WatchAction::ReadPath { after_ms: 0 };
    let mut watcher = following(&WatchEvent::Subscribed);
    for event in [
        WatchEvent::Disconnected,
        WatchEvent::ReadFailed,
        WatchEvent::ReopenFailed,
        WatchEvent::OpenFailed,
        WatchEvent::SubscribeFailed,
        WatchEvent::Changed { modified: false },
    ] {
        watcher.step(&event);
        assert_eq!(watcher.activity_lines(), vec!["seen".to_string()]);
        assert_eq!(watcher.followed(), "t.jsonl");
    }
    let other = WatchEvent::PathReported(Some("u.jsonl".to_string()));
    assert_eq!(watcher.step(&other), again);
    assert_eq!(watcher.activity_lines(), vec!["seen".to_string()]);
    assert_eq!(watcher.step(&other), again);
    assert_eq!(watcher.activity_lines(), vec!["Idle".to_string()]);
    assert_eq!(watcher.followed(), "u.jsonl");
}
