use cctiles::hooks::{
    apply_event, event_status, hook_entry, hook_url, settings_file_name, settings_json,
    settings_value, HookEvent, HookServer, Registry,
};
use cctiles::session::SessionStatus;
use serde_json::Value;

fn object(fields: &[(&str, Value)]) -> Value {
    Value::from_iter(fields.iter().map(|(key, value)| (key.to_string(), value.clone())))
}

fn text(s: &str) -> Value {
    Value::from(s)
}

fn status_of(registry: &Registry, dir: &str) -> Option<SessionStatus> {
    registry.status_of(dir)
}

fn registry_with(dir: &str, initial: SessionStatus) -> Registry {
    let mut registry = Registry::new();
    registry.insert(dir, initial);
    registry
}

fn event(event_name: &str, cwd: &str, extra: &[(&str, Value)]) -> Value {
    let mut fields = vec![("hook_event_name", text(event_name)), ("cwd", text(cwd))];
    fields.extend_from_slice(extra);
    object(&fields)
}

fn no_tasks() -> Value {
    Value::from(Vec::<Value>::new())
}

fn one_task() -> Value {
    Value::from(vec![object(&[("id", text("abc")), ("status", text("running"))])])
}

#[test]
fn user_prompt_submit_sets_working() {
    let mut registry = registry_with("/proj", SessionStatus::Idle);
    apply_event(&event("UserPromptSubmit", "/proj", &[]), &mut registry);
    assert_eq!(status_of(&registry, "/proj"), Some(SessionStatus::Working));
}

#[test]
fn pre_tool_use_for_ask_user_question_sets_waiting_for_answer() {
    let mut registry = registry_with("/proj", SessionStatus::Working);
    apply_event(
        &event("PreToolUse", "/proj", &[("tool_name", text("AskUserQuestion"))]),
        &mut registry,
    );
    assert_eq!(status_of(&registry, "/proj"), Some(SessionStatus::WaitingForAnswer));
}

#[test]
fn pre_tool_use_for_other_tools_sets_working() {
    let mut registry = registry_with("/proj", SessionStatus::Idle);
    apply_event(&event("PreToolUse", "/proj", &[("tool_name", text("Bash"))]), &mut registry);
    assert_eq!(status_of(&registry, "/proj"), Some(SessionStatus::Working));
}

#[test]
fn permission_request_sets_waiting_for_permission() {
    let mut registry = registry_with("/proj", SessionStatus::Working);
    apply_event(&event("PermissionRequest", "/proj", &[]), &mut registry);
    assert_eq!(status_of(&registry, "/proj"), Some(SessionStatus::WaitingForPermission));
}

#[test]
fn stop_with_background_tasks_sets_background_task_running() {
    let mut registry = registry_with("/proj", SessionStatus::Working);
    apply_event(&event("Stop", "/proj", &[("background_tasks", one_task())]), &mut registry);
    assert_eq!(status_of(&registry, "/proj"), Some(SessionStatus::BackgroundTaskRunning));
}

#[test]
fn stop_without_background_tasks_sets_idle() {
    let mut registry = registry_with("/proj", SessionStatus::Working);
    apply_event(&event("Stop", "/proj", &[("background_tasks", no_tasks())]), &mut registry);
    assert_eq!(status_of(&registry, "/proj"), Some(SessionStatus::Idle));
}

#[test]
fn stop_missing_background_tasks_field_sets_idle() {
    let mut registry = registry_with("/proj", SessionStatus::Working);
    apply_event(&event("Stop", "/proj", &[]), &mut registry);
    assert_eq!(status_of(&registry, "/proj"), Some(SessionStatus::Idle));
}

#[test]
fn event_for_unregistered_cwd_is_ignored_without_panicking() {
    let mut registry = registry_with("/proj", SessionStatus::Idle);
    apply_event(&event("UserPromptSubmit", "/some/other/dir", &[]), &mut registry);
    assert_eq!(status_of(&registry, "/proj"), Some(SessionStatus::Idle));
}

#[test]
fn unrecognized_event_name_is_ignored() {
    let mut registry = registry_with("/proj", SessionStatus::Working);
    apply_event(&event("SessionStart", "/proj", &[]), &mut registry);
    assert_eq!(status_of(&registry, "/proj"), Some(SessionStatus::Working));
}

#[test]
fn post_tool_use_sets_working() {
    let mut registry = registry_with("/proj", SessionStatus::WaitingForPermission);
    apply_event(&event("PostToolUse", "/proj", &[]), &mut registry);
    assert_eq!(status_of(&registry, "/proj"), Some(SessionStatus::Working));
}

#[test]
fn events_without_a_name_or_directory_are_ignored() {
    let mut registry = registry_with("/proj", SessionStatus::Working);
    apply_event(&object(&[("cwd", text("/proj"))]), &mut registry);
    apply_event(&object(&[("hook_event_name", text("Stop"))]), &mut registry);
    let odd = object(&[("hook_event_name", text("Stop")), ("cwd", Value::from(1))]);
    apply_event(&odd, &mut registry);
    apply_event(&Value::Null, &mut registry);
    assert_eq!(status_of(&registry, "/proj"), Some(SessionStatus::Working));
}

#[test]
fn background_tasks_that_are_no_list_do_not_count() {
    let mut registry = registry_with("/proj", SessionStatus::Working);
    apply_event(&event("Stop", "/proj", &[("background_tasks", text("abc"))]), &mut registry);
    assert_eq!(status_of(&registry, "/proj"), Some(SessionStatus::Idle));
}

#[test]
fn events_are_read_field_by_field() {
    let read = HookEvent::read(&event(
        "PreToolUse",
        "/proj",
        &[("tool_name", text("Bash")), ("transcript_path", text("/t.jsonl"))],
    ));
    assert_eq!(read.cwd.as_deref(), Some("/proj"));
    assert_eq!(read.name.as_deref(), Some("PreToolUse"));
    assert_eq!(read.tool_name.as_deref(), Some("Bash"));
    assert_eq!(read.background_tasks, 0);
    assert_eq!(read.transcript_path.as_deref(), Some("/t.jsonl"));
    assert_eq!(event_status(&read), Some(SessionStatus::Working));

    let stop = HookEvent::read(&event("Stop", "/proj", &[("background_tasks", one_task())]));
    assert_eq!(stop.background_tasks, 1);
    assert_eq!(event_status(&stop), Some(SessionStatus::BackgroundTaskRunning));
}

#[test]
fn one_session_is_not_touched_by_the_events_of_another() {
    let mut registry = Registry::new();
    let a = registry.insert("/a", SessionStatus::Idle);
    let b = registry.insert("/b", SessionStatus::Idle);
    apply_event(&event("UserPromptSubmit", "/a", &[]), &mut registry);
    apply_event(&event("PermissionRequest", "/b", &[]), &mut registry);
    assert_eq!(registry.status(a), Some(SessionStatus::Working));
    assert_eq!(registry.status(b), Some(SessionStatus::WaitingForPermission));
    assert_eq!(registry.status(2), None);
    assert_eq!(registry.status_of("/c"), None);
}

#[test]
fn the_last_event_of_a_run_decides() {
    let mut registry = registry_with("/proj", SessionStatus::Idle);
    apply_event(&event("UserPromptSubmit", "/proj", &[]), &mut registry);
    apply_event(&event("PermissionRequest", "/proj", &[]), &mut registry);
    apply_event(&event("Stop", "/elsewhere", &[]), &mut registry);
    apply_event(&event("SessionStart", "/proj", &[]), &mut registry);
    assert_eq!(status_of(&registry, "/proj"), Some(SessionStatus::WaitingForPermission));
}

#[test]
fn a_replaced_registration_keeps_what_it_had() {
    let mut server = HookServer::start(4000, "/tmp/settings.json".to_string());
    let first = server.register("/proj");
    server.handle_request(&event("UserPromptSubmit", "/proj", &[]).to_string());
    let second = server.register("/proj");
    assert_eq!(server.status(second), Some(SessionStatus::Idle));
    server.handle_request(&event("PermissionRequest", "/proj", &[]).to_string());
    assert_eq!(server.status(first), Some(SessionStatus::Working));
    assert_eq!(server.status(second), Some(SessionStatus::WaitingForPermission));
}

#[test]
fn http_server_delivers_events_end_to_end() {
    let mut server = HookServer::start(4000, "/tmp/settings.json".to_string());
    let dir = "/tmp/cctiles-hooks-e2e-test";
    let slot = server.register(dir);
    assert_eq!(server.status(slot), Some(SessionStatus::Idle));
    server.handle_request("not json at all");
    server.handle_request("");
    assert_eq!(server.status(slot), Some(SessionStatus::Idle));
    server.handle_request(&event("UserPromptSubmit", dir, &[]).to_string());
    assert_eq!(server.status(slot), Some(SessionStatus::Working));
}

#[test]
fn events_report_the_transcript() {
    let mut server = HookServer::start(4000, "/tmp/settings.json".to_string());
    let slot = server.register("/proj");
    assert_eq!(server.transcript_path(slot), None);
    let first = event("UserPromptSubmit", "/proj", &[("transcript_path", text("/first.jsonl"))]);
    server.handle_request(&first.to_string());
    assert_eq!(server.transcript_path(slot), Some("/first.jsonl".to_string()));
    server.handle_request(&event("Stop", "/proj", &[]).to_string());
    assert_eq!(server.transcript_path(slot), Some("/first.jsonl".to_string()));
    let second = event("UserPromptSubmit", "/proj", &[("transcript_path", text("/second.jsonl"))]);
    server.handle_request(&second.to_string());
    assert_eq!(server.transcript_path(slot), Some("/second.jsonl".to_string()));
    let other = event("SessionStart", "/proj", &[("transcript_path", text("/third.jsonl"))]);
    server.handle_request(&other.to_string());
    assert_eq!(server.transcript_path(slot), Some("/second.jsonl".to_string()));
    assert_eq!(server.transcript_path(7), None);
}

#[test]
fn settings_file_points_at_the_running_server_port() {
    let server = HookServer::start(51234, "/tmp/cctiles-hooks-9.json".to_string());
    let contents = String::from_utf8(server.settings_contents()).unwrap();
    assert!(contents.contains(&format!("127.0.0.1:{}", server.port())));
    assert!(contents.contains("PermissionRequest"));
    assert!(contents.contains("Stop"));
    assert_eq!(server.port(), 51234);
    assert_eq!(server.settings_path(), "/tmp/cctiles-hooks-9.json");
}

#[test]
fn settings_name_every_event_and_nothing_else() {
    let entry = "[{\"hooks\":[{\"type\":\"http\",\"url\":\"http://127.0.0.1:80/hook\"}],\"matcher\":\"\"}]";
    let expected = format!(
        "{{\"hooks\":{{\"PermissionRequest\":{entry},\"PostToolUse\":{entry},\"PreToolUse\":{entry},\"Stop\":{entry},\"UserPromptSubmit\":{entry}}}}}"
    );
    assert_eq!(String::from_utf8(settings_json(80)).unwrap(), expected);
    assert_eq!(settings_value(80).to_string(), expected);
    assert_eq!(hook_entry("http://127.0.0.1:80/hook").to_string(), entry);
}

#[test]
fn names_are_written_out() {
    assert_eq!(hook_url(0), "http://127.0.0.1:0/hook");
    assert_eq!(hook_url(65535), "http://127.0.0.1:65535/hook");
    assert_eq!(settings_file_name(4242), "cctiles-hooks-4242.json");
}
