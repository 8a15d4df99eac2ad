use cctiles::hooks::HookServer;
use cctiles::session::{spawn_plan, ChildState, Session, SessionStatus};
use cctiles::transcript::{WatchAction, WatchEvent};

fn session() -> Session {
    Session::spawn(None, None).0
}

fn status(session: &Session, hooks: &HookServer) -> SessionStatus {
    session.status(session.hook_slot().and_then(|slot| hooks.status(slot)))
}

fn event(name: &str, extra: &str) -> String {
    format!("{{\"hook_event_name\": \"{name}\", \"cwd\": \"/proj\"{extra}}}")
}

#[test]
fn status_defaults_to_idle_without_a_hook_server() {
    assert_eq!(session().status(None), SessionStatus::Idle);
    assert!(session().is_alive());
    assert_eq!(session().hook_slot(), None);
}

#[test]
fn status_follows_hook_events_for_working_answer_and_permission() {
    let mut hooks = HookServer::start(4000, "/tmp/settings.json".to_string());
    let slot = hooks.register("/proj");
    let (session, _) = Session::spawn(None, Some(slot));
    assert_eq!(status(&session, &hooks), SessionStatus::Idle);

    hooks.handle_request(&event("UserPromptSubmit", ""));
    assert_eq!(status(&session, &hooks), SessionStatus::Working);

    hooks.handle_request(&event("PreToolUse", ", \"tool_name\": \"AskUserQuestion\""));
    assert_eq!(status(&session, &hooks), SessionStatus::WaitingForAnswer);

    hooks.handle_request(&event("PermissionRequest", ""));
    assert_eq!(status(&session, &hooks), SessionStatus::WaitingForPermission);
}

#[test]
fn status_distinguishes_background_task_running_from_idle_on_stop() {
    let mut hooks = HookServer::start(4000, "/tmp/settings.json".to_string());
    let slot = hooks.register("/proj");
    let (session, _) = Session::spawn(None, Some(slot));

    let running = ", \"background_tasks\": [{\"id\": \"abc\", \"status\": \"running\"}]";
    hooks.handle_request(&event("Stop", running));
    assert_eq!(status(&session, &hooks), SessionStatus::BackgroundTaskRunning);

    hooks.handle_request(&event("Stop", ", \"background_tasks\": []"));
    assert_eq!(status(&session, &hooks), SessionStatus::Idle);
}

#[test]
fn status_reflects_a_process_that_has_exited() {
    for gone in [ChildState::Exited, ChildState::Unknown] {
        let mut session = session();
        session.observe_child(gone);
        assert!(!session.is_alive());
        assert_eq!(session.status(None), SessionStatus::Crashed);
        assert_eq!(session.status(Some(SessionStatus::Working)), SessionStatus::Crashed);
        session.observe_child(ChildState::Running);
        assert_eq!(session.status(Some(SessionStatus::Working)), SessionStatus::Working);
    }
}

#[test]
fn a_session_shows_its_repository() {
    let (mut session, _) = Session::spawn(Some("main  +0/-0".to_string()), None);
    assert_eq!(session.git_status_summary(), Some("main  +0/-0".to_string()));
    session.refresh_git_status(Some("main  +3/-1".to_string()));
    assert_eq!(session.git_status_summary(), Some("main  +3/-1".to_string()));
    assert_eq!(session.activity_lines(), vec!["Idle"]);
}

#[test]
fn a_session_shows_its_transcript() {
    let (mut session, first) = Session::spawn(None, None);
    assert_eq!(first, WatchAction::ReadPath { after_ms: 0 });
    let report = WatchEvent::PathReported(Some("/t.jsonl".to_string()));
    session.transcript_step(&report);
    assert_eq!(session.transcript_path(), "/t.jsonl");
    assert_eq!(session.transcript_step(&report), WatchAction::OpenFile);
    assert_eq!(session.transcript_step(&WatchEvent::Opened), WatchAction::CheckFile);
    assert_eq!(session.transcript_step(&WatchEvent::Checked(None)), WatchAction::ReadFile);
    let line = "{\"type\":\"assistant\",\"message\":{\"content\":[{\"type\":\"text\",\"text\":\"hi\"}]}}\n";
    let read = WatchEvent::Read(line.as_bytes().to_vec());
    assert_eq!(session.transcript_step(&read), WatchAction::Subscribe);
    assert_eq!(session.activity_lines(), vec!["hi"]);
}

#[test]
fn a_session_is_started_with_its_settings() {
    let plan = spawn_plan("agent", "/proj", "/tmp/cctiles-hooks-9.json");
    assert_eq!(plan.program, "agent");
    assert_eq!(plan.args, vec!["--settings", "/tmp/cctiles-hooks-9.json"]);
    assert_eq!(plan.dir, "/proj");
    assert_eq!((plan.rows, plan.cols), (24, 80));
}
