use cctiles::activity::{
    describe_tool_use, read_block, read_entry, ActivityState, Block, ToolInput, MAX_LINES,
};
use serde_json::Value;

fn object(fields: &[(&str, Value)]) -> Value {
    Value::from_iter(fields.iter().map(|(key, value)| (key.to_string(), value.clone())))
}

fn text(s: &str) -> Value {
    Value::from(s)
}

fn lines_of(lines: &[String]) -> Vec<String> {
    let mut state = ActivityState::default();
    state.update(lines);
    state.recent_lines()
}

fn entry(role: &str, content: Vec<Value>) -> Value {
    object(&[
        ("type", text(role)),
        ("message", object(&[("role", text(role)), ("content", Value::from(content))])),
    ])
}

fn assistant_tool_use(id: &str, name: &str, input: Value) -> String {
    entry(
        "assistant",
        vec![object(&[
            ("type", text("tool_use")),
            ("id", text(id)),
            ("name", text(name)),
            ("input", input),
        ])],
    )
    .to_string()
}

fn assistant_text(s: &str) -> String {
    entry("assistant", vec![object(&[("type", text("text")), ("text", text(s))])]).to_string()
}

fn user_tool_result(tool_use_id: &str) -> String {
    entry(
        "user",
        vec![object(&[
            ("type", text("tool_result")),
            ("tool_use_id", text(tool_use_id)),
            ("content", Value::from(Vec::<Value>::new())),
        ])],
    )
    .to_string()
}

fn no_arguments() -> ToolInput {
    ToolInput { description: None, command: None, file_path: None, pattern: None }
}

#[test]
fn tool_use_shows_as_running() {
    let lines = vec![assistant_tool_use(
        "toolu_1",
        "Bash",
        object(&[("command", text("cargo test")), ("description", text("Run the test suite"))]),
    )];
    assert_eq!(lines_of(&lines), vec!["Running: Run the test suite"]);
}

#[test]
fn bash_without_description_falls_back_to_command() {
    let lines =
        vec![assistant_tool_use("toolu_1", "Bash", object(&[("command", text("cargo build"))]))];
    assert_eq!(lines_of(&lines), vec!["Running: cargo build"]);
}

#[test]
fn assistant_text_is_not_truncated() {
    let long_text = "a".repeat(200);
    let lines = vec![assistant_text(&long_text)];
    assert_eq!(lines_of(&lines), vec![long_text]);
}

#[test]
fn each_event_becomes_its_own_line_in_order() {
    let lines = vec![
        assistant_text("Let's get started."),
        assistant_tool_use("toolu_1", "Read", object(&[("file_path", text("src/main.rs"))])),
        user_tool_result("toolu_1"),
        assistant_text("All done here."),
    ];
    assert_eq!(
        lines_of(&lines),
        vec![
            "Let's get started.".to_string(),
            "Reading src/main.rs".to_string(),
            "All done here.".to_string(),
        ]
    );
}

#[test]
fn no_entries_at_all_is_idle() {
    assert_eq!(lines_of(&[]), vec!["Idle".to_string()]);
}

#[test]
fn read_and_edit_show_file_paths() {
    let lines = vec![assistant_tool_use(
        "toolu_1",
        "Edit",
        object(&[
            ("file_path", text("src/config.rs")),
            ("old_string", text("a")),
            ("new_string", text("b")),
        ]),
    )];
    assert_eq!(lines_of(&lines), vec!["Editing src/config.rs"]);
}

#[test]
fn malformed_lines_are_skipped_without_panicking() {
    let lines = vec![
        "not json at all".to_string(),
        assistant_tool_use("toolu_1", "Bash", object(&[("command", text("ls"))])),
    ];
    assert_eq!(lines_of(&lines), vec!["Running: ls"]);
}

#[test]
fn embedded_newlines_in_a_multiline_bash_command_are_collapsed() {
    let lines = vec![assistant_tool_use(
        "toolu_1",
        "Bash",
        object(&[("command", text("mkdir -p /tmp/foo\ncat > /tmp/foo/bar << 'EOF'"))]),
    )];
    let result = lines_of(&lines);
    assert_eq!(result.len(), 1);
    assert!(!result[0].contains('\n'));
    assert_eq!(result[0], "Running: mkdir -p /tmp/foo cat > /tmp/foo/bar << 'EOF'");
}

#[test]
fn update_called_across_separate_batches_accumulates() {
    let mut state = ActivityState::default();
    state.update(&[assistant_tool_use(
        "toolu_1",
        "Bash",
        object(&[("command", text("cargo test"))]),
    )]);
    assert_eq!(state.recent_lines(), vec!["Running: cargo test"]);

    state.update(&[user_tool_result("toolu_1"), assistant_text("Tests passed.")]);
    assert_eq!(
        state.recent_lines(),
        vec!["Running: cargo test".to_string(), "Tests passed.".to_string()]
    );
}

#[test]
fn old_entries_fall_off_once_the_cap_is_exceeded() {
    let mut state = ActivityState::default();
    for i in 0..MAX_LINES + 10 {
        state.update(&[assistant_text(&format!("message {i}"))]);
    }
    let lines = state.recent_lines();
    assert_eq!(lines.len(), MAX_LINES);
    assert_eq!(lines.first(), Some(&"message 10".to_string()));
    assert_eq!(lines.last(), Some(&format!("message {}", MAX_LINES + 9)));
}

#[test]
fn one_batch_or_many_leave_the_same_feed() {
    let lines: Vec<String> = (0..450).map(|i| assistant_text(&format!("line {i}"))).collect();
    let mut batched = ActivityState::default();
    for batch in lines.chunks(7) {
        batched.update(batch);
    }
    assert_eq!(batched.recent_lines(), lines_of(&lines));
    assert_eq!(batched.recent_lines()[0], "line 250");
}

#[test]
fn every_tool_has_its_own_summary() {
    let input = ToolInput {
        description: Some("look around".to_string()),
        command: Some("ls".to_string()),
        file_path: Some("a/b.rs".to_string()),
        pattern: Some("fn main".to_string()),
    };
    assert_eq!(describe_tool_use("Bash", &input), "Running: look around");
    assert_eq!(describe_tool_use("Read", &input), "Reading a/b.rs");
    assert_eq!(describe_tool_use("Edit", &input), "Editing a/b.rs");
    assert_eq!(describe_tool_use("Write", &input), "Writing a/b.rs");
    assert_eq!(describe_tool_use("Grep", &input), "Searching for fn main");
    assert_eq!(describe_tool_use("AskUserQuestion", &input), "Waiting for your answer");
    assert_eq!(describe_tool_use("Agent", &input), "look around");
    assert_eq!(describe_tool_use("WebFetch", &input), "Running: WebFetch");
}

#[test]
fn every_tool_has_a_summary_without_arguments() {
    assert_eq!(describe_tool_use("Bash", &no_arguments()), "Running a command");
    assert_eq!(describe_tool_use("Read", &no_arguments()), "Reading a file");
    assert_eq!(describe_tool_use("Edit", &no_arguments()), "Editing a file");
    assert_eq!(describe_tool_use("Write", &no_arguments()), "Writing a file");
    assert_eq!(describe_tool_use("Grep", &no_arguments()), "Searching");
    assert_eq!(describe_tool_use("AskUserQuestion", &no_arguments()), "Waiting for your answer");
    assert_eq!(describe_tool_use("Agent", &no_arguments()), "Running a subagent");
    assert_eq!(describe_tool_use("", &no_arguments()), "Running: ");
}

#[test]
fn summaries_are_cut_to_length() {
    let long = "x".repeat(70);
    let input = ToolInput {
        description: Some(long.clone()),
        command: None,
        file_path: Some(long.clone()),
        pattern: Some(long.clone()),
    };
    let cut = |n: usize| "x".repeat(n) + "\u{2026}";
    assert_eq!(describe_tool_use("Bash", &input), "Running: ".to_string() + &cut(50));
    assert_eq!(describe_tool_use("Grep", &input), "Searching for ".to_string() + &cut(40));
    assert_eq!(describe_tool_use("Agent", &input), cut(60));
    assert_eq!(describe_tool_use("Read", &input), "Reading ".to_string() + &long);
}

#[test]
fn blocks_are_read_with_what_they_lack() {
    let nameless = read_block(&object(&[("type", text("tool_use"))]));
    assert!(matches!(nameless, Block::ToolUse { name, input }
        if name.is_empty() && input.description.is_none() && input.command.is_none()));

    let odd_input = read_block(&object(&[
        ("type", text("tool_use")),
        ("name", text("Bash")),
        ("input", object(&[("command", Value::from(5)), ("description", Value::Null)])),
    ]));
    assert!(matches!(odd_input, Block::ToolUse { name, input }
        if name == "Bash" && input.description.is_none() && input.command.is_none()));

    let textless = read_block(&object(&[("type", text("text"))]));
    assert!(matches!(textless, Block::Other));

    let thinking = read_block(&object(&[("type", text("thinking")), ("text", text("hm"))]));
    assert!(matches!(thinking, Block::Other));

    assert!(matches!(read_block(&Value::Null), Block::Other));
}

#[test]
fn entries_without_content_have_no_blocks() {
    let said = object(&[("type", text("text")), ("text", text("hi"))]);
    assert_eq!(read_entry(&entry("assistant", vec![said.clone()])).len(), 1);
    assert_eq!(read_entry(&entry("user", vec![said])).len(), 0);
    assert_eq!(read_entry(&object(&[("type", text("assistant"))])).len(), 0);
    let plain = object(&[("type", text("assistant")), ("message", text("hi"))]);
    assert_eq!(read_entry(&plain).len(), 0);
    let flat = object(&[
        ("type", text("assistant")),
        ("message", object(&[("content", text("hi"))])),
    ]);
    assert_eq!(read_entry(&flat).len(), 0);
    assert_eq!(read_entry(&Value::from(7)).len(), 0);
}

#[test]
fn several_blocks_of_one_message_stand_in_order() {
    let message = entry(
        "assistant",
        vec![
            object(&[("type", text("text")), ("text", text("  one\r\ntwo \u{3000}"))]),
            object(&[("type", text("thinking"))]),
            object(&[("type", text("tool_use")), ("name", text("Write"))]),
        ],
    );
    assert_eq!(lines_of(&[message.to_string()]), vec!["one  two", "Writing a file"]);
}

#[test]
fn blocks_are_recorded_like_lines() {
    let mut state = ActivityState::default();
    state.record(&[
        Block::Text { text: " said ".to_string() },
        Block::Other,
        Block::ToolUse { name: "Grep".to_string(), input: no_arguments() },
    ]);
    assert_eq!(state.recent_lines(), vec!["said", "Searching"]);
}

#[test]
fn blank_text_is_an_entry_all_the_same() {
    assert_eq!(lines_of(&[assistant_text(" \n ")]), vec![""]);
}
