//! Following a session's transcript file.
//!
//! Everything that touches the disk or waits stays with the caller. It performs one
//! [`WatchAction`] at a time and hands back what came of it as a [`WatchEvent`].

use vstd::prelude::*;

use crate::activity::ActivityState;
use crate::path::is_same_path;
use crate::text::decode_lossy;

verus! {

/// How long to wait before asking again for a path, or for a file that is not there yet.
pub const RETRY_MS: u64 = 200;

/// How long to wait for a change before looking at the file anyway. Change notifications have
/// been seen to come late or not at all; this also bounds how long a switch to another file goes
/// unnoticed.
pub const POLL_INTERVAL_MS: u64 = 300;

/// The byte that ends a line.
pub const NEWLINE: u8 = 10;

// ---------------------------------------------------------------------------------------------
// Lines out of bytes
// ---------------------------------------------------------------------------------------------

/// The lines of a run of bytes that have been ended by a line break, without it.
pub open spec fn complete_lines(bytes: Seq<u8>) -> Seq<Seq<u8>>
    decreases bytes.len(),
{
    if bytes.len() == 0 {
        Seq::empty()
    } else if bytes.last() == NEWLINE {
        complete_lines(bytes.drop_last()).push(open_line(bytes.drop_last()))
    } else {
        complete_lines(bytes.drop_last())
    }
}

/// What stands behind the last line break: the beginning of a line that is not complete yet.
pub open spec fn open_line(bytes: Seq<u8>) -> Seq<u8>
    decreases bytes.len(),
{
    if bytes.len() == 0 || bytes.last() == NEWLINE {
        Seq::empty()
    } else {
        open_line(bytes.drop_last()).push(bytes.last())
    }
}

/// The texts of some lines, without the empty ones.
pub open spec fn decoded_lines(lines: Seq<Seq<u8>>) -> Seq<Seq<char>>
    decreases lines.len(),
{
    if lines.len() == 0 {
        Seq::empty()
    } else {
        let text = crate::text::decoded(lines.last());
        if text.len() == 0 {
            decoded_lines(lines.drop_last())
        } else {
            decoded_lines(lines.drop_last()).push(text)
        }
    }
}

// ---------------------------------------------------------------------------------------------
// Events and actions
// ---------------------------------------------------------------------------------------------

/// Where a watcher stands.
#[derive(Debug, Clone, Copy, PartialEq, Eq, Structural)]
pub enum WatchPhase {
    /// No transcript has been reported yet, or the last one has been left.
    Waiting,
    /// A transcript is known by its path and has yet to be opened.
    Opening,
    /// The file is open and is being read for the first time.
    Priming,
    /// The file has been read and has yet to be watched for changes.
    Subscribing,
    /// The file is open and is looked at again and again.
    Following,
    /// The path can no longer be learnt.
    Stopped,
}

/// What is known of an open file and of the file that now stands at its path.
#[derive(Debug, Clone, Copy)]
pub struct FileCheck {
    pub disk_inode: u64,
    pub disk_len: u64,
    pub open_inode: u64,
    pub cursor: u64,
}

/// What the caller is asked to do next. Files are those at the path that is being followed.
#[derive(Debug, Clone, Copy, PartialEq, Eq, Structural)]
pub enum WatchAction {
    /// Sleep, then read which transcript the session reports.
    ReadPath { after_ms: u64 },
    OpenFile,
    /// Compare the open file with what stands at the path.
    CheckFile,
    /// Open the path anew in place of the open file.
    ReopenFile,
    /// Read from the open file up to its end.
    ReadFile,
    /// Ask to be notified of changes to the file.
    Subscribe,
    /// Wait for a change to be notified. Where there are no notifications, just wait.
    AwaitChange { timeout_ms: u64 },
    /// End the watch.
    Stop,
}

/// What came of an action.
#[derive(Debug)]
pub enum WatchEvent {
    PathReported(Option<String>),
    PathUnreadable,
    Opened,
    OpenFailed,
    /// `None` where something about either file could not be learnt.
    Checked(Option<FileCheck>),
    Reopened,
    ReopenFailed,
    Read(Vec<u8>),
    ReadFailed,
    Subscribed,
    SubscribeFailed,
    Changed { modified: bool },
    TimedOut,
    Disconnected,
}

/// A watcher's state.
pub struct WatcherView {
    pub phase: WatchPhase,
    /// The path that is being followed, once there has been one.
    pub followed: Seq<char>,
    /// The bytes read so far of a line that is not complete yet.
    pub carry: Seq<u8>,
    pub feed: Seq<Seq<char>>,
}

/// Whether the file at the path is no longer the one that is open: another inode stands there, or
/// the file has become shorter than what was already read of it.
pub open spec fn replaced(check: FileCheck) -> bool {
    check.disk_inode != check.open_inode || check.disk_len < check.cursor
}

/// A watcher after it has read some more bytes.
pub open spec fn absorbed(w: WatcherView, bytes: Seq<u8>) -> WatcherView {
    WatcherView {
        carry: open_line(w.carry + bytes),
        feed: crate::activity::extended(
            w.feed,
            crate::activity::feed_of(decoded_lines(complete_lines(w.carry + bytes))),
        ),
        ..w
    }
}

/// The watcher in another phase.
pub open spec fn in_phase(w: WatcherView, phase: WatchPhase) -> WatcherView {
    WatcherView { phase, ..w }
}

/// The watcher lets go of the file and waits for a path again. What it shows stays until then.
pub open spec fn left(w: WatcherView) -> (WatcherView, WatchAction) {
    (in_phase(w, WatchPhase::Waiting), WatchAction::ReadPath { after_ms: 0 })
}

/// The watcher starts on a transcript, with nothing of an earlier one left.
pub open spec fn started_on(path: Seq<char>) -> (WatcherView, WatchAction) {
    (
        WatcherView {
            phase: WatchPhase::Opening,
            followed: path,
            carry: Seq::empty(),
            feed: Seq::empty(),
        },
        WatchAction::ReadPath { after_ms: 0 },
    )
}

/// Whether the session still reports the transcript that is being followed, though it may write
/// the path in another way.
pub open spec fn still_reported(w: WatcherView, reported: Option<String>) -> bool {
    match reported {
        Some(path) => crate::path::same_path(path@, w.followed),
        None => false,
    }
}

/// What follows once the file has been read up to its end.
pub open spec fn after_read(w: WatcherView) -> (WatcherView, WatchAction) {
    if w.phase == WatchPhase::Priming {
        (in_phase(w, WatchPhase::Subscribing), WatchAction::Subscribe)
    } else {
        (w, WatchAction::ReadPath { after_ms: 0 })
    }
}

/// One step of reading what is new in the file. `None` where the event is not part of that.
pub open spec fn read_step(w: WatcherView, event: WatchEvent) -> Option<
    (WatcherView, WatchAction),
> {
    match event {
        WatchEvent::Checked(Some(check)) => if replaced(check) {
            Some((w, WatchAction::ReopenFile))
        } else {
            Some((w, WatchAction::ReadFile))
        },
        WatchEvent::Checked(None) => Some((w, WatchAction::ReadFile)),
        WatchEvent::Reopened => Some(
            (WatcherView { carry: Seq::empty(), ..w }, WatchAction::ReadFile),
        ),
        WatchEvent::ReopenFailed => Some((w, WatchAction::ReadFile)),
        WatchEvent::Read(bytes) => Some(after_read(absorbed(w, bytes@))),
        WatchEvent::ReadFailed => Some(after_read(w)),
        _ => None,
    }
}

/// A watcher's next state and what it asks for. A file is followed until another one is reported,
/// or none, or the report cannot be read: without notifications, its changes are still found
/// whenever a wait runs out. An event that the phase has no use for changes nothing.
pub open spec fn watch_step(w: WatcherView, event: WatchEvent) -> (WatcherView, WatchAction) {
    match w.phase {
        WatchPhase::Waiting => match event {
            WatchEvent::PathReported(Some(path)) => started_on(path@),
            WatchEvent::PathReported(None) => (w, WatchAction::ReadPath { after_ms: RETRY_MS }),
            WatchEvent::PathUnreadable => (in_phase(w, WatchPhase::Stopped), WatchAction::Stop),
            _ => (w, WatchAction::ReadPath { after_ms: 0 }),
        },
        WatchPhase::Opening => match event {
            WatchEvent::PathReported(reported) => if still_reported(w, reported) {
                (w, WatchAction::OpenFile)
            } else {
                left(w)
            },
            WatchEvent::PathUnreadable => left(w),
            WatchEvent::Opened => (in_phase(w, WatchPhase::Priming), WatchAction::CheckFile),
            WatchEvent::OpenFailed => (w, WatchAction::ReadPath { after_ms: RETRY_MS }),
            _ => (w, WatchAction::ReadPath { after_ms: 0 }),
        },
        WatchPhase::Priming => match read_step(w, event) {
            Some(next) => next,
            None => (w, WatchAction::CheckFile),
        },
        WatchPhase::Subscribing => match event {
            WatchEvent::Subscribed | WatchEvent::SubscribeFailed => (
                in_phase(w, WatchPhase::Following),
                WatchAction::ReadPath { after_ms: 0 },
            ),
            _ => (w, WatchAction::Subscribe),
        },
        WatchPhase::Following => match event {
            WatchEvent::PathReported(reported) => if still_reported(w, reported) {
                (w, WatchAction::AwaitChange { timeout_ms: POLL_INTERVAL_MS })
            } else {
                left(w)
            },
            WatchEvent::PathUnreadable => left(w),
            WatchEvent::Changed { modified } => if modified {
                (w, WatchAction::CheckFile)
            } else {
                (w, WatchAction::ReadPath { after_ms: 0 })
            },
            WatchEvent::TimedOut => (w, WatchAction::CheckFile),
            _ => match read_step(w, event) {
                Some(next) => next,
                None => (w, WatchAction::ReadPath { after_ms: 0 }),
            },
        },
        WatchPhase::Stopped => (w, WatchAction::Stop),
    }
}

// ---------------------------------------------------------------------------------------------
// The watcher
// ---------------------------------------------------------------------------------------------

/// Watches a session's transcript and keeps a feed of its activity. Which file to watch is not
/// known in advance: it is whichever the session's own hook events report, and changes with them.
#[derive(Debug)]
pub struct TranscriptWatcher {
    activity: ActivityState,
    carry: Vec<u8>,
    followed: String,
    phase: WatchPhase,
}

impl View for TranscriptWatcher {
    type V = WatcherView;

    closed spec fn view(&self) -> WatcherView {
        WatcherView {
            phase: self.phase,
            followed: self.followed@,
            carry: self.carry@,
            feed: self.activity@,
        }
    }
}

/// Whether the open file has been replaced or truncated.
pub fn is_replaced(check: &FileCheck) -> (r: bool)
    ensures
        r == replaced(*check),
{
    check.disk_inode != check.open_inode || check.disk_len < check.cursor
}

impl TranscriptWatcher {
    /// The feed is well formed, and what is carried over holds no complete line.
    pub open spec fn wf(&self) -> bool {
        &&& crate::activity::well_formed(self@.feed)
        &&& !self@.carry.contains(NEWLINE)
    }

    /// A watcher that has not heard of any transcript, and the first thing that it asks for.
    pub fn start() -> (r: (Self, WatchAction))
        ensures
            r.0.wf(),
            r.0@.phase == WatchPhase::Waiting,
            r.0@.followed == Seq::<char>::empty(),
            r.0@.carry == Seq::<u8>::empty(),
            r.0@.feed == Seq::<Seq<char>>::empty(),
            r.1 == (WatchAction::ReadPath { after_ms: 0 }),
    {
        let watcher = TranscriptWatcher {
            activity: ActivityState::default(),
            carry: Vec::new(),
            followed: String::new(),
            phase: WatchPhase::Waiting,
        };
        (watcher, WatchAction::ReadPath { after_ms: 0 })
    }

    /// Recent activity, oldest first.
    pub fn activity_lines(&self) -> (r: Vec<String>)
        ensures
            crate::text::texts(r@) == crate::activity::shown(self@.feed),
    {
        self.activity.recent_lines()
    }

    /// The path of the file that actions speak of.
    pub fn followed(&self) -> (r: &str)
        ensures
            r@ == self@.followed,
    {
        self.followed.as_str()
    }

    /// Takes in what came of the last action and says what to do next.
    pub fn step(&mut self, event: &WatchEvent) -> (r: WatchAction)
        requires
            old(self).wf(),
        ensures
            final(self).wf(),
            (final(self)@, r) == watch_step(old(self)@, *event),
    {
        match self.phase {
            WatchPhase::Waiting => match event {
                WatchEvent::PathReported(Some(path)) => self.start_on(path.as_str()),
                WatchEvent::PathReported(None) => WatchAction::ReadPath { after_ms: RETRY_MS },
                WatchEvent::PathUnreadable => {
                    self.phase = WatchPhase::Stopped;
                    WatchAction::Stop
                },
                _ => WatchAction::ReadPath { after_ms: 0 },
            },
            WatchPhase::Opening => match event {
                WatchEvent::PathReported(reported) => {
                    if self.is_followed(reported) {
                        WatchAction::OpenFile
                    } else {
                        self.leave()
                    }
                },
                WatchEvent::PathUnreadable => self.leave(),
                WatchEvent::Opened => {
                    self.phase = WatchPhase::Priming;
                    WatchAction::CheckFile
                },
                WatchEvent::OpenFailed => WatchAction::ReadPath { after_ms: RETRY_MS },
                _ => WatchAction::ReadPath { after_ms: 0 },
            },
            WatchPhase::Priming => match self.read(event) {
                Some(action) => action,
                None => WatchAction::CheckFile,
            },
            WatchPhase::Subscribing => match event {
                WatchEvent::Subscribed | WatchEvent::SubscribeFailed => {
                    self.phase = WatchPhase::Following;
                    WatchAction::ReadPath { after_ms: 0 }
                },
                _ => WatchAction::Subscribe,
            },
            WatchPhase::Following => match event {
                WatchEvent::PathReported(reported) => {
                    if self.is_followed(reported) {
                        WatchAction::AwaitChange { timeout_ms: POLL_INTERVAL_MS }
                    } else {
                        self.leave()
                    }
                },
                WatchEvent::PathUnreadable => self.leave(),
                WatchEvent::Changed { modified } => {
                    if *modified {
                        WatchAction::CheckFile
                    } else {
                        WatchAction::ReadPath { after_ms: 0 }
                    }
                },
                WatchEvent::TimedOut => WatchAction::CheckFile,
                _ => match self.read(event) {
                    Some(action) => action,
                    None => WatchAction::ReadPath { after_ms: 0 },
                },
            },
            WatchPhase::Stopped => WatchAction::Stop,
        }
    }

    /// Whether the session still reports the transcript that is being followed.
    fn is_followed(&self, reported: &Option<String>) -> (r: bool)
        ensures
            r == still_reported(self@, *reported),
    {
        match reported {
            Some(path) => is_same_path(path.as_str(), self.followed.as_str()),
            None => false,
        }
    }

    /// Starts on a transcript, with nothing of an earlier one left.
    fn start_on(&mut self, path: &str) -> (r: WatchAction)
        ensures
            final(self).wf(),
            (final(self)@, r) == started_on(path@),
    {
        self.activity = ActivityState::default();
        self.carry = Vec::new();
        self.followed = path.to_owned();
        self.phase = WatchPhase::Opening;
        WatchAction::ReadPath { after_ms: 0 }
    }

    /// Goes back to waiting for a path.
    fn leave(&mut self) -> (r: WatchAction)
        requires
            old(self).wf(),
        ensures
            final(self).wf(),
            (final(self)@, r) == left(old(self)@),
    {
        self.phase = WatchPhase::Waiting;
        WatchAction::ReadPath { after_ms: 0 }
    }

    /// One step of reading what is new in the file. `None` where the event is not part of that.
    fn read(&mut self, event: &WatchEvent) -> (r: Option<WatchAction>)
        requires
            old(self).wf(),
        ensures
            final(self).wf(),
            match read_step(old(self)@, *event) {
                Some(next) => final(self)@ == next.0 && r == Some(next.1),
                None => final(self)@ == old(self)@ && r is None,
            },
    {
        let action = match event {
            WatchEvent::Checked(Some(check)) => {
                if is_replaced(check) {
                    WatchAction::ReopenFile
                } else {
                    WatchAction::ReadFile
                }
            },
            WatchEvent::Checked(None) => WatchAction::ReadFile,
            WatchEvent::Reopened => {
                self.carry = Vec::new();
                WatchAction::ReadFile
            },
            WatchEvent::ReopenFailed => WatchAction::ReadFile,
            WatchEvent::Read(bytes) => {
                self.drain_new_lines(bytes);
                self.finish_read()
            },
            WatchEvent::ReadFailed => self.finish_read(),
            _ => return None,
        };
        Some(action)
    }

    /// What follows once the file has been read up to its end.
    fn finish_read(&mut self) -> (r: WatchAction)
        requires
            old(self).wf(),
        ensures
            final(self).wf(),
            (final(self)@, r) == after_read(old(self)@),
    {
        if self.phase == WatchPhase::Priming {
            self.phase = WatchPhase::Subscribing;
            WatchAction::Subscribe
        } else {
            WatchAction::ReadPath { after_ms: 0 }
        }
    }

    /// Feeds each line that the bytes complete to the feed and carries over the rest.
    pub fn drain_new_lines(&mut self, bytes: &[u8])
        requires
            old(self).wf(),
        ensures
            final(self).wf(),
            final(self)@ == absorbed(old(self)@, bytes@),
    {
        let ghost start = self.carry@;
        let mut new_lines: Vec<String> = Vec::new();
        proof {
            lemma_open_only(start);
        }
        assert(start + bytes@.take(0) =~= start);
        assert(crate::text::texts(new_lines@) =~= Seq::<Seq<char>>::empty());
        for i in 0..bytes.len()
            invariant
                self.activity == old(self).activity,
                self.followed == old(self).followed,
                self.phase == old(self).phase,
                self.carry@ == open_line(start + bytes@.take(i as int)),
                crate::text::texts(new_lines@) == decoded_lines(
                    complete_lines(start + bytes@.take(i as int)),
                ),
        {
            let byte = bytes[i];
            let ghost seen = start + bytes@.take(i as int);
            let ghost more = start + bytes@.take(i + 1);
            assert(more.drop_last() =~= seen);
            assert(more.last() == byte);
            if byte == NEWLINE {
                let line = decode_lossy(&self.carry);
                assert(complete_lines(more).drop_last() =~= complete_lines(seen));
                if !line.as_str().is_empty() {
                    let ghost before = new_lines@;
                    new_lines.push(line);
                    assert(crate::text::texts(new_lines@) =~= crate::text::texts(before).push(
                        line@,
                    ));
                }
                self.carry = Vec::new();
            } else {
                self.carry.push(byte);
            }
        }
        assert(bytes@.take(bytes@.len() as int) =~= bytes@);
        proof {
            lemma_open_line_has_no_break(start + bytes@);
        }
        self.activity.update(&new_lines);
    }
}

// ---------------------------------------------------------------------------------------------
// Laws
// ---------------------------------------------------------------------------------------------

/// How the bytes of a transcript are cut into reads makes no difference: two reads leave a
/// watcher as one read of both together does, even where a line or a character is cut in two.
pub proof fn law_chunks(w: WatcherView, a: Seq<u8>, b: Seq<u8>)
    ensures
        absorbed(absorbed(w, a), b) == absorbed(w, a + b),
{
    let first = w.carry + a;
    lemma_lines_joined(first, b);
    assert(w.carry + (a + b) =~= first + b);
    lemma_decoded_joined(complete_lines(first), complete_lines(open_line(first) + b));
    crate::activity::law_batches(
        w.feed,
        decoded_lines(complete_lines(first)),
        decoded_lines(complete_lines(open_line(first) + b)),
    );
}

/// A transcript file that holds some lines of text, each ended by a line break.
pub open spec fn file_bytes(lines: Seq<Seq<char>>) -> Seq<u8>
    decreases lines.len(),
{
    if lines.len() == 0 {
        Seq::empty()
    } else {
        file_bytes(lines.drop_last()) + vstd::utf8::encode_utf8(lines.last()).push(NEWLINE)
    }
}

/// Lines written to a transcript arrive in the feed as they were written: whatever the texts, as
/// long as none is empty or holds a line break of its own.
pub proof fn law_lines_arrive_as_written(w: WatcherView, lines: Seq<Seq<char>>)
    requires
        w.carry.len() == 0,
        forall|i: int|
            0 <= i < lines.len() ==> (#[trigger] lines[i]).len() > 0 && !lines[i].contains('\n'),
    ensures
        absorbed(w, file_bytes(lines)).carry.len() == 0,
        absorbed(w, file_bytes(lines)).feed == crate::activity::extended(
            w.feed,
            crate::activity::feed_of(lines),
        ),
{
    lemma_file_lines(lines);
    assert(w.carry + file_bytes(lines) =~= file_bytes(lines));
}

/// A line of which only the beginning has been written is not shown yet.
pub proof fn law_partial_line_is_held_back(w: WatcherView, bytes: Seq<u8>)
    requires
        crate::activity::well_formed(w.feed),
        !w.carry.contains(NEWLINE),
        !bytes.contains(NEWLINE),
    ensures
        absorbed(w, bytes).feed == w.feed,
        absorbed(w, bytes).carry == w.carry + bytes,
{
    let all = w.carry + bytes;
    if all.contains(NEWLINE) {
        let i = all.index_of(NEWLINE);
        if i < w.carry.len() {
            assert(w.carry[i] == NEWLINE);
        } else {
            assert(bytes[i - w.carry.len()] == NEWLINE);
        }
    }
    lemma_open_only(all);
    assert(w.feed + Seq::<Seq<char>>::empty() =~= w.feed);
}

/// Once a path has been reported and the file at it opened, the watcher shows what the file holds,
/// and nothing that it showed before.
pub proof fn law_shows_the_reported_file(
    w: WatcherView,
    path: String,
    check: Option<FileCheck>,
    bytes: Vec<u8>,
    lines: Seq<Seq<char>>,
)
    requires
        w.phase == WatchPhase::Waiting,
        check is Some ==> check->0.disk_inode == check->0.open_inode && check->0.disk_len
            >= check->0.cursor,
        bytes@ == file_bytes(lines),
        forall|i: int|
            0 <= i < lines.len() ==> (#[trigger] lines[i]).len() > 0 && !lines[i].contains('\n'),
    ensures
        ({
            let report = WatchEvent::PathReported(Some(path));
            let w1 = watch_step(w, report);
            let w2 = watch_step(w1.0, report);
            let w3 = watch_step(w2.0, WatchEvent::Opened);
            let w4 = watch_step(w3.0, WatchEvent::Checked(check));
            let w5 = watch_step(w4.0, WatchEvent::Read(bytes));
            let w6 = watch_step(w5.0, WatchEvent::Subscribed);
            &&& w1.1 == (WatchAction::ReadPath { after_ms: 0 })
            &&& w2.1 == WatchAction::OpenFile
            &&& w3.1 == WatchAction::CheckFile
            &&& w4.1 == WatchAction::ReadFile
            &&& w5.1 == WatchAction::Subscribe
            &&& w6.1 == (WatchAction::ReadPath { after_ms: 0 })
            &&& w6.0.phase == WatchPhase::Following
            &&& w6.0.followed == path@
            &&& w6.0.carry.len() == 0
            &&& w6.0.feed == crate::activity::extended(
                Seq::empty(),
                crate::activity::feed_of(lines),
            )
        }),
{
    let opened = WatcherView {
        phase: WatchPhase::Priming,
        followed: path@,
        carry: Seq::empty(),
        feed: Seq::empty(),
    };
    law_lines_arrive_as_written(opened, lines);
}

/// Lines that are appended to the file are added to what is shown, whether their arrival is
/// notified or only found when the wait runs out.
pub proof fn law_follows_what_is_appended(
    w: WatcherView,
    woken: WatchEvent,
    check: Option<FileCheck>,
    bytes: Vec<u8>,
    lines: Seq<Seq<char>>,
)
    requires
        w.phase == WatchPhase::Following,
        w.carry.len() == 0,
        woken == WatchEvent::TimedOut || woken == (WatchEvent::Changed { modified: true }),
        check is Some ==> check->0.disk_inode == check->0.open_inode && check->0.disk_len
            >= check->0.cursor,
        bytes@ == file_bytes(lines),
        forall|i: int|
            0 <= i < lines.len() ==> (#[trigger] lines[i]).len() > 0 && !lines[i].contains('\n'),
    ensures
        ({
            let w1 = watch_step(w, woken);
            let w2 = watch_step(w1.0, WatchEvent::Checked(check));
            let w3 = watch_step(w2.0, WatchEvent::Read(bytes));
            &&& w1.1 == WatchAction::CheckFile
            &&& w2.1 == WatchAction::ReadFile
            &&& w3.1 == (WatchAction::ReadPath { after_ms: 0 })
            &&& w3.0.phase == WatchPhase::Following
            &&& w3.0.followed == w.followed
            &&& w3.0.carry.len() == 0
            &&& w3.0.feed == crate::activity::extended(w.feed, crate::activity::feed_of(lines))
        }),
{
    law_lines_arrive_as_written(w, lines);
}

/// Only a file that the session reports is ever opened: the report that leads to opening names
/// the file that is being followed.
pub proof fn law_opens_only_what_is_reported(w: WatcherView, event: WatchEvent)
    ensures
        watch_step(w, event).1 == WatchAction::OpenFile ==> match event {
            WatchEvent::PathReported(Some(path)) => crate::path::same_path(
                path@,
                watch_step(w, event).0.followed,
            ),
            _ => false,
        },
{
}

/// A file that is being followed is let go of only when the session reports another one or none,
/// or when its report cannot be read: neither a failing notification, read or reopening, nor
/// anything else makes the watcher leave it or forget what it shows of it.
pub proof fn law_follows_until_another_is_reported(w: WatcherView, event: WatchEvent)
    requires
        w.phase != WatchPhase::Waiting,
        w.phase != WatchPhase::Stopped,
        match event {
            WatchEvent::PathReported(Some(path)) => crate::path::same_path(path@, w.followed),
            WatchEvent::PathReported(None) => false,
            WatchEvent::PathUnreadable => false,
            _ => true,
        },
    ensures
        watch_step(w, event).0.phase != WatchPhase::Waiting,
        watch_step(w, event).0.phase != WatchPhase::Stopped,
        watch_step(w, event).0.followed == w.followed,
        w.phase == WatchPhase::Following ==> watch_step(w, event).0.phase
            == WatchPhase::Following,
        match event {
            WatchEvent::Read(_) => true,
            _ => watch_step(w, event).0.feed == w.feed,
        },
{
}

/// Without notifications, because they could not be set up or have broken off, the watcher follows
/// the file all the same and waits as it does with them.
pub proof fn law_follows_without_notifications(w: WatcherView, path: String)
    requires
        crate::path::same_path(path@, w.followed),
    ensures
        w.phase == WatchPhase::Subscribing ==> watch_step(w, WatchEvent::SubscribeFailed)
            == watch_step(w, WatchEvent::Subscribed),
        w.phase == WatchPhase::Following ==> {
            let (next, asked) = watch_step(w, WatchEvent::Disconnected);
            let (then, then_asked) = watch_step(next, WatchEvent::PathReported(Some(path)));
            &&& next == w
            &&& asked == (WatchAction::ReadPath { after_ms: 0 })
            &&& then == w
            &&& then_asked == (WatchAction::AwaitChange { timeout_ms: POLL_INTERVAL_MS })
        },
{
}

/// What is shown changes in two ways only: by bytes read from the file, or by starting afresh on
/// a newly reported one.
pub proof fn law_feed_changes(w: WatcherView, event: WatchEvent)
    ensures
        match event {
            WatchEvent::Read(_) => true,
            WatchEvent::PathReported(Some(path)) => watch_step(w, event).0.feed == w.feed || (
            w.phase == WatchPhase::Waiting && watch_step(w, event) == started_on(path@)),
            _ => watch_step(w, event).0.feed == w.feed,
        },
{
}

/// When the session reports another transcript than the one followed, the watcher lets go of the
/// old one, and with the report read again it follows the new one and shows nothing of the old.
pub proof fn law_switch(w: WatcherView, path: String)
    requires
        w.phase == WatchPhase::Opening || w.phase == WatchPhase::Following,
        !crate::path::same_path(path@, w.followed),
    ensures
        ({
            let report = WatchEvent::PathReported(Some(path));
            let (gone, asked) = watch_step(w, report);
            let (next, then_asked) = watch_step(gone, report);
            &&& asked == (WatchAction::ReadPath { after_ms: 0 })
            &&& next.phase == WatchPhase::Opening
            &&& next.followed == path@
            &&& next.feed.len() == 0
            &&& next.carry.len() == 0
            &&& then_asked == (WatchAction::ReadPath { after_ms: 0 })
        }),
{
}

/// A watcher that has heard of no transcript shows nothing and touches no file, whatever it is
/// told otherwise.
pub proof fn law_idle_until_reported(w: WatcherView, event: WatchEvent)
    requires
        w.phase == WatchPhase::Waiting,
        !(event matches WatchEvent::PathReported(Some(_))),
    ensures
        watch_step(w, event).0.feed == w.feed,
        watch_step(w, event).0.phase == WatchPhase::Waiting || watch_step(w, event).0.phase
            == WatchPhase::Stopped,
        watch_step(w, event).1 is ReadPath || watch_step(w, event).1 is Stop,
{
}

/// A file that was replaced or truncated is opened anew before it is read. What had been read of
/// an incomplete line is dropped, the entries shown so far stay, and the lines of the new file are
/// added to them.
pub proof fn law_recovers_from_replacement(
    w: WatcherView,
    check: FileCheck,
    bytes: Vec<u8>,
    lines: Seq<Seq<char>>,
)
    requires
        w.phase == WatchPhase::Following,
        check.disk_inode != check.open_inode || check.disk_len < check.cursor,
        bytes@ == file_bytes(lines),
        forall|i: int|
            0 <= i < lines.len() ==> (#[trigger] lines[i]).len() > 0 && !lines[i].contains('\n'),
    ensures
        ({
            let w1 = watch_step(w, WatchEvent::Checked(Some(check)));
            let w2 = watch_step(w1.0, WatchEvent::Reopened);
            let w3 = watch_step(w2.0, WatchEvent::Read(bytes));
            &&& w1 == (w, WatchAction::ReopenFile)
            &&& w2 == ((WatcherView { carry: Seq::empty(), ..w }), WatchAction::ReadFile)
            &&& w3.0.phase == WatchPhase::Following
            &&& w3.0.followed == w.followed
            &&& w3.0.carry.len() == 0
            &&& w3.0.feed == crate::activity::extended(w.feed, crate::activity::feed_of(lines))
        }),
{
    law_lines_arrive_as_written(WatcherView { carry: Seq::empty(), ..w }, lines);
}

/// New content is looked for when a wait runs out just as when a change is notified, so a missed
/// notification only delays it.
pub proof fn law_missed_notification(w: WatcherView)
    requires
        w.phase == WatchPhase::Following,
    ensures
        watch_step(w, WatchEvent::TimedOut) == watch_step(
            w,
            WatchEvent::Changed { modified: true },
        ),
        watch_step(w, WatchEvent::TimedOut) == (w, WatchAction::CheckFile),
{
}

/// Bytes put together from lines, each with the line break that ends it.
pub open spec fn ended_lines(lines: Seq<Seq<u8>>) -> Seq<u8>
    decreases lines.len(),
{
    if lines.len() == 0 {
        Seq::empty()
    } else {
        ended_lines(lines.drop_last()) + lines.last().push(10)
    }
}

/// Taking bytes apart into lines loses nothing and invents nothing: put together again with their
/// line breaks, the complete lines and then the open one are the bytes, and no line holds a line
/// break.
pub proof fn law_lines_are_the_bytes(bytes: Seq<u8>)
    ensures
        ended_lines(complete_lines(bytes)) + open_line(bytes) == bytes,
        forall|i: int|
            0 <= i < complete_lines(bytes).len() ==> !(#[trigger] complete_lines(bytes)[i]).contains(
                10,
            ),
        !open_line(bytes).contains(10),
    decreases bytes.len(),
{
    lemma_open_line_has_no_break(bytes);
    if bytes.len() == 0 {
        assert(ended_lines(complete_lines(bytes)) + open_line(bytes) =~= bytes);
    } else {
        let before = bytes.drop_last();
        law_lines_are_the_bytes(before);
        let lines = complete_lines(before);
        assert(bytes =~= before.push(bytes.last()));
        if bytes.last() == NEWLINE {
            assert(complete_lines(bytes).drop_last() =~= lines);
            assert(ended_lines(complete_lines(bytes)) =~= ended_lines(lines) + open_line(
                before,
            ).push(10));
        }
        assert(ended_lines(complete_lines(bytes)) + open_line(bytes) =~= bytes);
        assert forall|i: int| 0 <= i < complete_lines(bytes).len() implies !(
        #[trigger] complete_lines(bytes)[i]).contains(10) by {
            if i < lines.len() {
                assert(complete_lines(bytes)[i] == lines[i]);
            }
        }
    }
}

/// A line that becomes complete is added to what is shown, together with what had been carried over
/// of it, unless it is empty. Nothing is then carried over.
pub proof fn law_completed_line(w: WatcherView, rest: Seq<u8>)
    requires
        crate::activity::well_formed(w.feed),
        !w.carry.contains(10),
        !rest.contains(10),
    ensures
        absorbed(w, rest.push(10)).carry.len() == 0,
        crate::text::decoded(w.carry + rest).len() > 0 ==> absorbed(w, rest.push(10)).feed
            == crate::activity::extended(
            w.feed,
            crate::activity::feed_of(seq![crate::text::decoded(w.carry + rest)]),
        ),
        crate::text::decoded(w.carry + rest).len() == 0 ==> absorbed(w, rest.push(10)).feed
            == w.feed,
{
    let line = w.carry + rest;
    law_partial_line_is_held_back(w, rest);
    let all = w.carry + rest.push(10);
    assert(all.drop_last() =~= line);
    assert(all.last() == 10);
    if line.contains(10) {
        let i = line.index_of(10);
        if i < w.carry.len() {
            assert(w.carry[i] == 10);
        } else {
            assert(rest[i - w.carry.len()] == 10);
        }
    }
    lemma_open_only(line);
    assert(complete_lines(all) =~= seq![line]);
    assert(seq![line].drop_last() =~= Seq::<Seq<u8>>::empty());
    assert(decoded_lines(Seq::<Seq<u8>>::empty()) =~= Seq::<Seq<char>>::empty());
    let text = crate::text::decoded(line);
    if text.len() == 0 {
        assert(decoded_lines(complete_lines(all)) =~= Seq::<Seq<char>>::empty());
        assert(w.feed + Seq::<Seq<char>>::empty() =~= w.feed);
    } else {
        assert(decoded_lines(complete_lines(all)) =~= seq![text]);
    }
}

/// A watcher after a run of events.
pub open spec fn watched(w: WatcherView, events: Seq<WatchEvent>) -> WatcherView
    decreases events.len(),
{
    if events.len() == 0 {
        w
    } else {
        watch_step(watched(w, events.drop_last()), events.last()).0
    }
}

/// The bytes that some events have brought.
pub open spec fn bytes_read(events: Seq<WatchEvent>) -> Seq<u8>
    decreases events.len(),
{
    if events.len() == 0 {
        Seq::empty()
    } else {
        match events.last() {
            WatchEvent::Read(bytes) => bytes_read(events.drop_last()) + bytes@,
            _ => bytes_read(events.drop_last()),
        }
    }
}

/// Whether an event leaves a watcher with the file that it has open: the file is not opened anew,
/// the report names the file that is followed, and it can be read.
pub open spec fn keeps_the_file(event: WatchEvent, followed: Seq<char>) -> bool {
    match event {
        WatchEvent::Reopened => false,
        WatchEvent::PathUnreadable => false,
        WatchEvent::PathReported(Some(path)) => crate::path::same_path(path@, followed),
        WatchEvent::PathReported(None) => false,
        _ => true,
    }
}

/// While a watcher stays with one file, it does not matter how the file was cut into reads nor what
/// happened between them: after any run of events it has shown the lines that are complete in all
/// the bytes read so far, and carries over the beginning of the one that is not.
pub proof fn law_reads_in_any_pieces(
    w: WatcherView,
    events: Seq<WatchEvent>,
    lines: Seq<Seq<char>>,
    open: Seq<u8>,
)
    requires
        w.phase == WatchPhase::Following,
        crate::activity::well_formed(w.feed),
        !w.carry.contains(10),
        forall|i: int| 0 <= i < events.len() ==> keeps_the_file(#[trigger] events[i], w.followed),
        w.carry + bytes_read(events) == file_bytes(lines) + open,
        !open.contains(10),
        forall|i: int|
            0 <= i < lines.len() ==> (#[trigger] lines[i]).len() > 0 && !lines[i].contains('\n'),
    ensures
        watched(w, events).feed == crate::activity::extended(
            w.feed,
            crate::activity::feed_of(lines),
        ),
        watched(w, events).carry == open,
        watched(w, events).phase == WatchPhase::Following,
        watched(w, events).followed == w.followed,
{
    lemma_watched(w, events);
    lemma_file_lines(lines);
    lemma_lines_joined(file_bytes(lines), open);
    assert(open_line(file_bytes(lines)) + open =~= open);
    lemma_open_only(open);
    assert(complete_lines(file_bytes(lines)) + Seq::<Seq<u8>>::empty() =~= complete_lines(
        file_bytes(lines),
    ));
}

/// Two reads of a file, with whatever happens between them that does not take it away, leave a
/// watcher with the same feed and the same carried-over bytes as one read of both together, also
/// where the first ends in the middle of a line.
pub proof fn law_two_reads_are_one(
    w: WatcherView,
    a: Vec<u8>,
    between: Seq<WatchEvent>,
    b: Vec<u8>,
    both: Vec<u8>,
)
    requires
        w.phase == WatchPhase::Priming || w.phase == WatchPhase::Following,
        crate::activity::well_formed(w.feed),
        !w.carry.contains(10),
        forall|i: int|
            0 <= i < between.len() ==> keeps_the_file(#[trigger] between[i], w.followed)
                && !(between[i] is Read),
        watched(watch_step(w, WatchEvent::Read(a)).0, between).phase == WatchPhase::Following,
        both@ == a@ + b@,
    ensures
        ({
            let first = watch_step(w, WatchEvent::Read(a)).0;
            let second = watch_step(watched(first, between), WatchEvent::Read(b)).0;
            let at_once = watch_step(w, WatchEvent::Read(both)).0;
            &&& second.feed == at_once.feed
            &&& second.carry == at_once.carry
            &&& second.followed == at_once.followed
        }),
{
    let first = watch_step(w, WatchEvent::Read(a)).0;
    lemma_nothing_read(first, between);
    law_chunks(w, a@, b@);
    let later = watched(first, between);
    assert(absorbed(later, b@).feed == absorbed(absorbed(w, a@), b@).feed);
    assert(absorbed(later, b@).carry == absorbed(absorbed(w, a@), b@).carry);
}

/// The same for a file of whole lines that is read in two pieces, cut anywhere: both together show
/// all of its lines.
pub proof fn law_file_cut_anywhere(
    w: WatcherView,
    a: Vec<u8>,
    between: Seq<WatchEvent>,
    b: Vec<u8>,
    lines: Seq<Seq<char>>,
)
    requires
        w.phase == WatchPhase::Priming || w.phase == WatchPhase::Following,
        crate::activity::well_formed(w.feed),
        w.carry.len() == 0,
        forall|i: int|
            0 <= i < between.len() ==> keeps_the_file(#[trigger] between[i], w.followed)
                && !(between[i] is Read),
        watched(watch_step(w, WatchEvent::Read(a)).0, between).phase == WatchPhase::Following,
        a@ + b@ == file_bytes(lines),
        forall|i: int|
            0 <= i < lines.len() ==> (#[trigger] lines[i]).len() > 0 && !lines[i].contains('\n'),
    ensures
        ({
            let first = watch_step(w, WatchEvent::Read(a)).0;
            let second = watch_step(watched(first, between), WatchEvent::Read(b)).0;
            &&& second.feed == crate::activity::extended(w.feed, crate::activity::feed_of(lines))
            &&& second.carry.len() == 0
        }),
{
    let first = watch_step(w, WatchEvent::Read(a)).0;
    lemma_nothing_read(first, between);
    law_chunks(w, a@, b@);
    law_lines_arrive_as_written(w, lines);
    let later = watched(first, between);
    assert(absorbed(later, b@).feed == absorbed(absorbed(w, a@), b@).feed);
    assert(absorbed(later, b@).carry == absorbed(absorbed(w, a@), b@).carry);
}

/// An open file is read on while the same file stands at its path and is no shorter than what was
/// read of it, and opened anew otherwise. Where that cannot be learnt, it is read on.
pub proof fn law_check(w: WatcherView, check: FileCheck)
    requires
        w.phase == WatchPhase::Priming || w.phase == WatchPhase::Following,
    ensures
        check.disk_inode == check.open_inode && check.disk_len >= check.cursor ==> watch_step(
            w,
            WatchEvent::Checked(Some(check)),
        ) == (w, WatchAction::ReadFile),
        check.disk_inode != check.open_inode || check.disk_len < check.cursor ==> watch_step(
            w,
            WatchEvent::Checked(Some(check)),
        ) == (w, WatchAction::ReopenFile),
        watch_step(w, WatchEvent::Checked(None)) == (w, WatchAction::ReadFile),
        watch_step(w, WatchEvent::ReopenFailed) == (w, WatchAction::ReadFile),
        watch_step(w, WatchEvent::ReadFailed).0.feed == w.feed,
        watch_step(w, WatchEvent::ReadFailed).0.carry == w.carry,
{
}

/// A file that was opened anew is read from its beginning, with nothing carried over and everything
/// shown so far kept. Once a file has been read, the first time notifications are asked for, and
/// later the report is looked at again, whatever the bytes were.
pub proof fn law_after_reopening_and_reading(w: WatcherView, bytes: Vec<u8>)
    requires
        w.phase == WatchPhase::Priming || w.phase == WatchPhase::Following,
    ensures
        watch_step(w, WatchEvent::Reopened).1 == WatchAction::ReadFile,
        watch_step(w, WatchEvent::Reopened).0.carry.len() == 0,
        watch_step(w, WatchEvent::Reopened).0.feed == w.feed,
        watch_step(w, WatchEvent::Reopened).0.phase == w.phase,
        watch_step(w, WatchEvent::Reopened).0.followed == w.followed,
        w.phase == WatchPhase::Priming ==> {
            &&& watch_step(w, WatchEvent::Read(bytes)).1 == WatchAction::Subscribe
            &&& watch_step(w, WatchEvent::Read(bytes)).0.phase == WatchPhase::Subscribing
        },
        w.phase == WatchPhase::Following ==> {
            &&& watch_step(w, WatchEvent::Read(bytes)).1 == (WatchAction::ReadPath { after_ms: 0 })
            &&& watch_step(w, WatchEvent::Read(bytes)).0.phase == WatchPhase::Following
        },
        watch_step(w, WatchEvent::Read(bytes)).0.followed == w.followed,
{
}

/// A path that is not reported yet, or a file that is not there yet, is asked for again after a
/// fifth of a second, and a file that is followed is looked at again at least every three tenths.
pub proof fn law_waits(w: WatcherView, path: String)
    requires
        crate::path::same_path(path@, w.followed),
    ensures
        w.phase == WatchPhase::Waiting ==> watch_step(w, WatchEvent::PathReported(None)) == (
            w,
            WatchAction::ReadPath { after_ms: 200 },
        ),
        w.phase == WatchPhase::Opening ==> watch_step(w, WatchEvent::OpenFailed) == (
            w,
            WatchAction::ReadPath { after_ms: 200 },
        ),
        w.phase == WatchPhase::Opening ==> watch_step(w, WatchEvent::PathReported(Some(path))) == (
            w,
            WatchAction::OpenFile,
        ),
        w.phase == WatchPhase::Following ==> watch_step(w, WatchEvent::PathReported(Some(path)))
            == (w, WatchAction::AwaitChange { timeout_ms: 300 }),
        w.phase == WatchPhase::Following ==> watch_step(
            w,
            WatchEvent::Changed { modified: false },
        ) == (w, WatchAction::ReadPath { after_ms: 0 }),
{
}

/// A file that has been opened is checked and read before anything else, and once notifications
/// have been asked for, whether or not they will come, it is followed. Neither changes what is
/// shown.
pub proof fn law_opened_and_subscribed(w: WatcherView)
    ensures
        w.phase == WatchPhase::Opening ==> {
            let (next, asked) = watch_step(w, WatchEvent::Opened);
            &&& asked == WatchAction::CheckFile
            &&& next.phase == WatchPhase::Priming
            &&& next.followed == w.followed
            &&& next.carry == w.carry
            &&& next.feed == w.feed
        },
        w.phase == WatchPhase::Subscribing ==> {
            let (next, asked) = watch_step(w, WatchEvent::Subscribed);
            &&& asked == (WatchAction::ReadPath { after_ms: 0 })
            &&& next.phase == WatchPhase::Following
            &&& next.followed == w.followed
            &&& next.carry == w.carry
            &&& next.feed == w.feed
        },
{
}

/// When the session reports no transcript any more, or the report cannot be read, the watcher lets
/// go of the file and asks again. What it shows stays until there is another to show. Where it
/// still cannot be read then, the watch ends, and nothing starts it again.
pub proof fn law_letting_go(w: WatcherView, event: WatchEvent)
    requires
        w.phase == WatchPhase::Opening || w.phase == WatchPhase::Following,
    ensures
        ({
            let (gone, asked) = watch_step(w, WatchEvent::PathReported(None));
            let (unread, then_asked) = watch_step(w, WatchEvent::PathUnreadable);
            let (stopped, stop) = watch_step(unread, WatchEvent::PathUnreadable);
            &&& gone.phase == WatchPhase::Waiting
            &&& gone.feed == w.feed
            &&& asked == (WatchAction::ReadPath { after_ms: 0 })
            &&& unread == gone
            &&& then_asked == asked
            &&& stopped.phase == WatchPhase::Stopped
            &&& stopped.feed == w.feed
            &&& stop == WatchAction::Stop
            &&& watch_step(stopped, event) == (stopped, WatchAction::Stop)
        }),
{
}

/// What a watcher that stays with its file has read is what the events brought.
proof fn lemma_watched(w: WatcherView, events: Seq<WatchEvent>)
    requires
        w.phase == WatchPhase::Following,
        crate::activity::well_formed(w.feed),
        !w.carry.contains(NEWLINE),
        forall|i: int| 0 <= i < events.len() ==> keeps_the_file(#[trigger] events[i], w.followed),
    ensures
        watched(w, events) == absorbed(w, bytes_read(events)),
    decreases events.len(),
{
    if events.len() == 0 {
        law_partial_line_is_held_back(w, Seq::empty());
        assert(w.carry + Seq::<u8>::empty() =~= w.carry);
        assert(absorbed(w, Seq::empty()) == w);
    } else {
        let before = events.drop_last();
        assert forall|i: int| 0 <= i < before.len() implies keeps_the_file(
            #[trigger] before[i],
            w.followed,
        ) by {
            assert(before[i] == events[i]);
        }
        lemma_watched(w, before);
        assert(events.last() == events[events.len() - 1]);
        if let WatchEvent::Read(bytes) = events.last() {
            law_chunks(w, bytes_read(before), bytes@);
        }
    }
}

/// Events that bring no bytes leave what is shown and carried over.
proof fn lemma_nothing_read(w: WatcherView, events: Seq<WatchEvent>)
    requires
        w.phase == WatchPhase::Subscribing || w.phase == WatchPhase::Following,
        forall|i: int|
            0 <= i < events.len() ==> keeps_the_file(#[trigger] events[i], w.followed)
                && !(events[i] is Read),
    ensures
        watched(w, events).feed == w.feed,
        watched(w, events).carry == w.carry,
        watched(w, events).followed == w.followed,
        watched(w, events).phase == WatchPhase::Subscribing || watched(w, events).phase
            == WatchPhase::Following,
    decreases events.len(),
{
    if events.len() > 0 {
        let before = events.drop_last();
        assert forall|i: int| 0 <= i < before.len() implies keeps_the_file(
            #[trigger] before[i],
            w.followed,
        ) && !(before[i] is Read) by {
            assert(before[i] == events[i]);
        }
        lemma_nothing_read(w, before);
        assert(events.last() == events[events.len() - 1]);
    }
}

/// Without a line break, everything is an open line.
proof fn lemma_open_only(bytes: Seq<u8>)
    requires
        !bytes.contains(NEWLINE),
    ensures
        complete_lines(bytes) == Seq::<Seq<u8>>::empty(),
        open_line(bytes) == bytes,
    decreases bytes.len(),
{
    if bytes.len() > 0 {
        assert(bytes[bytes.len() - 1] == bytes.last());
        assert forall|b: u8| #[trigger] bytes.drop_last().contains(b) implies bytes.contains(
            b,
        ) by {
            let i = bytes.drop_last().index_of(b);
            assert(bytes[i] == b);
        }
        lemma_open_only(bytes.drop_last());
        assert(bytes.drop_last().push(bytes.last()) =~= bytes);
    } else {
        assert(bytes =~= Seq::<u8>::empty());
    }
}

proof fn lemma_open_line_has_no_break(bytes: Seq<u8>)
    ensures
        !open_line(bytes).contains(NEWLINE),
    decreases bytes.len(),
{
    if bytes.len() > 0 && bytes.last() != NEWLINE {
        lemma_open_line_has_no_break(bytes.drop_last());
        let before = open_line(bytes.drop_last());
        if open_line(bytes).contains(NEWLINE) {
            let i = open_line(bytes).index_of(NEWLINE);
            assert(i < before.len());
            assert(before[i] == NEWLINE);
        }
    }
}

proof fn lemma_lines_joined(a: Seq<u8>, b: Seq<u8>)
    ensures
        complete_lines(a + b) == complete_lines(a) + complete_lines(open_line(a) + b),
        open_line(a + b) == open_line(open_line(a) + b),
    decreases b.len(),
{
    let rest = open_line(a) + b;
    if b.len() == 0 {
        lemma_open_line_has_no_break(a);
        lemma_open_only(open_line(a));
        assert(a + b =~= a);
        assert(rest =~= open_line(a));
        assert(complete_lines(a) + complete_lines(rest) =~= complete_lines(a));
    } else {
        lemma_lines_joined(a, b.drop_last());
        assert((a + b).drop_last() =~= a + b.drop_last());
        assert(rest.drop_last() =~= open_line(a) + b.drop_last());
        assert((a + b).last() == b.last());
        assert(rest.last() == b.last());
        assert(complete_lines(a + b) =~= complete_lines(a) + complete_lines(rest));
    }
}

proof fn lemma_decoded_joined(a: Seq<Seq<u8>>, b: Seq<Seq<u8>>)
    ensures
        decoded_lines(a + b) == decoded_lines(a) + decoded_lines(b),
    decreases b.len(),
{
    if b.len() == 0 {
        assert(a + b =~= a);
        assert(decoded_lines(a) + decoded_lines(b) =~= decoded_lines(a));
    } else {
        lemma_decoded_joined(a, b.drop_last());
        assert((a + b).drop_last() =~= a + b.drop_last());
        assert(decoded_lines(a + b) =~= decoded_lines(a) + decoded_lines(b));
    }
}

/// No byte of an encoded character but the line break's own is a line break.
proof fn lemma_encoded_char(c: char)
    requires
        c != '\n',
    ensures
        !vstd::utf8::encode_scalar(c as u32).contains(NEWLINE),
{
    let v = c as u32;
    assert(v != 10);
    assert(v != 10 && v <= 0x7f ==> ((v & 0x7f) as u8) != 10) by (bit_vector);
    assert((0xc0u8 | ((v >> 6) & 0x1f) as u8) != 10) by (bit_vector);
    assert((0xe0u8 | ((v >> 12) & 0x0f) as u8) != 10) by (bit_vector);
    assert((0xf0u8 | ((v >> 18) & 0x7) as u8) != 10) by (bit_vector);
    assert((0x80u8 | (v & 0x3f) as u8) != 10) by (bit_vector);
    assert((0x80u8 | ((v >> 6) & 0x3f) as u8) != 10) by (bit_vector);
    assert((0x80u8 | ((v >> 12) & 0x3f) as u8) != 10) by (bit_vector);
}

proof fn lemma_encoded_line(text: Seq<char>)
    requires
        !text.contains('\n'),
    ensures
        !vstd::utf8::encode_utf8(text).contains(NEWLINE),
    decreases text.len(),
{
    if text.len() > 0 {
        let first = vstd::utf8::encode_scalar(text[0] as u32);
        let rest = vstd::utf8::encode_utf8(text.drop_first());
        lemma_encoded_char(text[0]);
        assert forall|c: char| #[trigger] text.drop_first().contains(c) implies text.contains(
            c,
        ) by {
            let i = text.drop_first().index_of(c);
            assert(text[i + 1] == c);
        }
        lemma_encoded_line(text.drop_first());
        if (first + rest).contains(NEWLINE) {
            let i = (first + rest).index_of(NEWLINE);
            if i < first.len() {
                assert(first[i] == NEWLINE);
            } else {
                assert(rest[i - first.len()] == NEWLINE);
            }
        }
    }
}

proof fn lemma_file_lines(lines: Seq<Seq<char>>)
    requires
        forall|i: int|
            0 <= i < lines.len() ==> (#[trigger] lines[i]).len() > 0 && !lines[i].contains('\n'),
    ensures
        open_line(file_bytes(lines)).len() == 0,
        decoded_lines(complete_lines(file_bytes(lines))) == lines,
    decreases lines.len(),
{
    if lines.len() > 0 {
        let before = file_bytes(lines.drop_last());
        let text = lines.last();
        let encoded = vstd::utf8::encode_utf8(text);
        let line = encoded.push(NEWLINE);
        assert(text == lines[lines.len() - 1]);
        assert forall|i: int| 0 <= i < lines.drop_last().len() implies (
            #[trigger] lines.drop_last()[i]).len() > 0 && !lines.drop_last()[i].contains('\n') by {
            assert(lines.drop_last()[i] == lines[i]);
        }
        lemma_file_lines(lines.drop_last());
        lemma_encoded_line(text);
        lemma_open_only(encoded);
        lemma_lines_joined(before, line);
        assert(open_line(before) + line =~= line);
        assert(line.drop_last() =~= encoded);
        assert(complete_lines(line) =~= seq![encoded]);
        vstd::utf8::encode_utf8_valid_utf8(text);
        vstd::utf8::encode_utf8_decode_utf8(text);
        lemma_decoded_joined(complete_lines(before), seq![encoded]);
        assert(seq![encoded].drop_last() =~= Seq::<Seq<u8>>::empty());
        assert(decoded_lines(Seq::<Seq<u8>>::empty()) =~= Seq::<Seq<char>>::empty());
        assert(decoded_lines(seq![encoded]) =~= seq![text]);
        assert(lines.drop_last() + seq![text] =~= lines);
    } else {
        assert(decoded_lines(complete_lines(file_bytes(lines))) =~= lines);
    }
}

} // verus!
