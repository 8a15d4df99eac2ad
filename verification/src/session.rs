//! A session: one child process in a terminal of its own, with what is known of it.

use vstd::prelude::*;

use crate::git_info::GitStatusWatcher;
use crate::transcript::{TranscriptWatcher, WatchAction, WatchEvent};

verus! {

/// The height of a terminal until it is resized.
pub const ROWS: u16 = 24;

/// The width of a terminal until it is resized.
pub const COLS: u16 = 80;

/// A session's status, as the grid highlights it.
#[derive(Debug, Clone, Copy, PartialEq, Eq, Structural)]
pub enum SessionStatus {
    Idle,
    Working,
    WaitingForAnswer,
    WaitingForPermission,
    /// A backgrounded shell task is still running after the turn that started it has ended.
    BackgroundTaskRunning,
    /// The child process exited without being deliberately killed.
    Crashed,
}

/// What the last look at a child process gave.
#[derive(Debug, Clone, Copy, PartialEq, Eq, Structural)]
pub enum ChildState {
    Running,
    Exited,
    /// The process could not be asked.
    Unknown,
}

/// How to start a session's child process.
#[derive(Debug)]
pub struct SpawnPlan {
    pub program: String,
    pub args: Vec<String>,
    pub dir: String,
    pub rows: u16,
    pub cols: u16,
}

/// The arguments of a session's program.
pub open spec fn settings_args(settings_path: Seq<char>) -> Seq<Seq<char>> {
    seq!["--settings"@, settings_path]
}

/// The plan for a session that runs a program in a directory and is to use a hooks settings file.
pub fn spawn_plan(program: &str, dir: &str, settings_path: &str) -> (r: SpawnPlan)
    ensures
        r.program@ == program@,
        crate::text::texts(r.args@) == settings_args(settings_path@),
        crate::text::texts(r.args@) == seq!["--settings"@, settings_path@],
        r.dir@ == dir@,
        r.rows == ROWS,
        r.cols == COLS,
{
    let args = vec!["--settings".to_owned(), settings_path.to_owned()];
    assert(crate::text::texts(args@) =~= seq!["--settings"@, settings_path@]);
    SpawnPlan { program: program.to_owned(), args, dir: dir.to_owned(), rows: ROWS, cols: COLS }
}

/// The status of a session: that it has crashed, once its process is not known to be running;
/// else what its hooks have reported; else that it is idle.
pub open spec fn effective_status(
    child: ChildState,
    reported: Option<SessionStatus>,
) -> SessionStatus {
    if child != ChildState::Running {
        SessionStatus::Crashed
    } else {
        match reported {
            Some(status) => status,
            None => SessionStatus::Idle,
        }
    }
}

/// What is known of a running session.
#[derive(Debug)]
pub struct Session {
    child: ChildState,
    transcript: TranscriptWatcher,
    git_status: GitStatusWatcher,
    hook_slot: Option<usize>,
}

/// The state of a `Session`.
pub struct SessionView {
    pub child: ChildState,
    pub transcript: crate::transcript::WatcherView,
    pub git_status: Option<Seq<char>>,
    /// The slot that its hook events are routed to, where it has been registered.
    pub hook_slot: Option<usize>,
}

impl View for Session {
    type V = SessionView;

    closed spec fn view(&self) -> SessionView {
        SessionView {
            child: self.child,
            transcript: self.transcript@,
            git_status: self.git_status@,
            hook_slot: self.hook_slot,
        }
    }
}

impl Session {
    /// The transcript watcher is well formed.
    pub open spec fn wf(&self) -> bool {
        &&& crate::activity::well_formed(self@.transcript.feed)
        &&& !self@.transcript.carry.contains(crate::transcript::NEWLINE)
    }

    /// A session whose process has just been started, and the first thing that its transcript
    /// watcher asks for.
    pub fn spawn(git_summary: Option<String>, hook_slot: Option<usize>) -> (r: (
        Self,
        WatchAction,
    ))
        ensures
            r.0.wf(),
            r.0@.child == ChildState::Running,
            r.0@.transcript.phase == crate::transcript::WatchPhase::Waiting,
            r.0@.transcript.followed == Seq::<char>::empty(),
            r.0@.transcript.carry == Seq::<u8>::empty(),
            r.0@.transcript.feed == Seq::<Seq<char>>::empty(),
            r.0@.git_status == crate::text::opt_text(git_summary),
            r.0@.hook_slot == hook_slot,
            r.1 == (WatchAction::ReadPath { after_ms: 0 }),
    {
        let (transcript, action) = TranscriptWatcher::start();
        let session = Session {
            child: ChildState::Running,
            transcript,
            git_status: GitStatusWatcher::start(git_summary),
            hook_slot,
        };
        (session, action)
    }

    /// Recent activity, oldest first.
    pub fn activity_lines(&self) -> (r: Vec<String>)
        ensures
            crate::text::texts(r@) == crate::activity::shown(self@.transcript.feed),
    {
        self.transcript.activity_lines()
    }

    /// The current branch and the size of the working tree's diff, such as `"main  +3/-1"`, or
    /// `None` when the directory is not a git repository.
    pub fn git_status_summary(&self) -> (r: Option<String>)
        ensures
            crate::text::opt_text(r) == self@.git_status,
    {
        self.git_status.summary()
    }

    /// Takes over a new summary of the working directory.
    pub fn refresh_git_status(&mut self, summary: Option<String>)
        ensures
            final(self)@ == (SessionView {
                git_status: crate::text::opt_text(summary),
                ..old(self)@
            }),
    {
        self.git_status.refresh(summary);
    }

    /// The path of the file that the transcript watcher's actions speak of.
    pub fn transcript_path(&self) -> (r: &str)
        ensures
            r@ == self@.transcript.followed,
    {
        self.transcript.followed()
    }

    /// Takes in what came of the transcript watcher's last action and says what to do next.
    pub fn transcript_step(&mut self, event: &WatchEvent) -> (r: WatchAction)
        requires
            old(self).wf(),
        ensures
            final(self).wf(),
            r == crate::transcript::watch_step(old(self)@.transcript, *event).1,
            final(self)@ == (SessionView {
                transcript: crate::transcript::watch_step(old(self)@.transcript, *event).0,
                ..old(self)@
            }),
    {
        self.transcript.step(event)
    }

    /// Takes note of what a look at the child process gave.
    pub fn observe_child(&mut self, child: ChildState)
        ensures
            final(self)@ == (SessionView { child, ..old(self)@ }),
    {
        self.child = child;
    }

    /// Whether the child process was still running when last looked at.
    pub fn is_alive(&self) -> (r: bool)
        ensures
            r == (self@.child == ChildState::Running),
    {
        self.child == ChildState::Running
    }

    /// The slot that the session's hook events are routed to, where it has been registered.
    pub fn hook_slot(&self) -> (r: Option<usize>)
        ensures
            r == self@.hook_slot,
    {
        self.hook_slot
    }

    /// The session's status, given what stands in its hook slot.
    pub fn status(&self, reported: Option<SessionStatus>) -> (r: SessionStatus)
        ensures
            r == effective_status(self@.child, reported),
    {
        if !self.is_alive() {
            return SessionStatus::Crashed;
        }
        match reported {
            Some(status) => status,
            None => SessionStatus::Idle,
        }
    }
}

// ---------------------------------------------------------------------------------------------
// Laws
// ---------------------------------------------------------------------------------------------

/// A session that is registered and then hooks of whatever sessions fire: while its process runs,
/// its status is that of the last of its own events that says something about it, or idle before
/// the first. It shows as crashed exactly when its process is not known to be running.
pub proof fn law_status_follows_hooks(
    child: ChildState,
    before: crate::hooks::RegistryView,
    dir: Seq<char>,
    events: Seq<crate::hooks::HookEventView>,
)
    requires
        crate::hooks::registry_wf(before),
        before.slots.len() < usize::MAX,
    ensures
        ({
            let start = crate::hooks::registered(before, dir, SessionStatus::Idle);
            let slot = crate::hooks::applied_all(start, events).slots[before.slots.len() as int];
            let status = effective_status(child, Some(slot.status));
            &&& child == ChildState::Running ==> status == match crate::hooks::last_status(
                events,
                dir,
            ) {
                Some(reported) => reported,
                None => SessionStatus::Idle,
            }
            &&& status == SessionStatus::Crashed <==> child != ChildState::Running
        }),
{
    let start = crate::hooks::registered(before, dir, SessionStatus::Idle);
    crate::hooks::law_registration(before, dir, SessionStatus::Idle);
    crate::hooks::law_status_after_a_run(start, events, dir);
    crate::hooks::law_events_report_no_crash(events, dir);
    assert(crate::hooks::slot_of(crate::hooks::applied_all(start, events), dir) is Some);
}

/// A session without hooks is idle for as long as its process runs.
pub proof fn law_idle_without_hooks(child: ChildState)
    ensures
        effective_status(child, None) == if child == ChildState::Running {
            SessionStatus::Idle
        } else {
            SessionStatus::Crashed
        },
{
}

/// Whatever a session has reported, it shows as that while its process runs and as crashed once it
/// is not known to.
pub proof fn law_reported_status(child: ChildState, reported: SessionStatus)
    ensures
        child == ChildState::Running ==> effective_status(child, Some(reported)) == reported,
        child == ChildState::Exited ==> effective_status(child, Some(reported))
            == SessionStatus::Crashed,
        child == ChildState::Unknown ==> effective_status(child, Some(reported))
            == SessionStatus::Crashed,
{
}

/// A session is pointed at the settings file that it is given and at nothing else.
pub proof fn law_settings_args(path: Seq<char>, other: Seq<char>)
    ensures
        settings_args(path).len() == 2,
        settings_args(path).first() == "--settings"@,
        settings_args(path).last() == path,
        settings_args(path) == settings_args(other) ==> path == other,
{
    assert(settings_args(path)[1] == path && settings_args(other)[1] == other);
}

} // verus!
