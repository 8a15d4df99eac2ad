use cctiles::git_info::{
    branch_args, branch_name, diff_args, git_summary, parse_shortstat, summary_line,
    CommandOutput, GitStatusWatcher, POLL_INTERVAL_SECS,
};

fn printed(text: &str) -> Option<CommandOutput> {
    Some(CommandOutput { success: true, stdout: text.as_bytes().to_vec() })
}

fn failed(text: &str) -> Option<CommandOutput> {
    Some(CommandOutput { success: false, stdout: text.as_bytes().to_vec() })
}

#[test]
fn parses_both_counts() {
    let text = " 2 files changed, 10 insertions(+), 3 deletions(-)\n";
    assert_eq!(parse_shortstat(text), (10, 3));
}

#[test]
fn parses_singular_counts() {
    let text = " 1 file changed, 1 insertion(+), 1 deletion(-)\n";
    assert_eq!(parse_shortstat(text), (1, 1));
}

#[test]
fn parses_insertions_only() {
    let text = " 1 file changed, 5 insertions(+)\n";
    assert_eq!(parse_shortstat(text), (5, 0));
}

#[test]
fn empty_diff_is_zero_zero() {
    assert_eq!(parse_shortstat(""), (0, 0));
}

#[test]
fn parses_deletions_only() {
    assert_eq!(parse_shortstat(" 3 files changed, 12 deletions(-)\n"), (0, 12));
}

#[test]
fn counts_that_are_no_numbers_are_zero() {
    assert_eq!(parse_shortstat("many insertions(+), -4 deletions(-)"), (0, 0));
    assert_eq!(parse_shortstat("4294967295 insertions(+), 4294967296 deletions(-)"), (4294967295, 0));
    assert_eq!(parse_shortstat("+7 insertions(+)"), (7, 0));
    assert_eq!(parse_shortstat("insertions(+)"), (0, 0));
}

#[test]
fn the_first_part_with_the_word_counts() {
    assert_eq!(parse_shortstat("1 insertion, 2 insertions, 3 deletions, 4 deletions"), (1, 3));
    assert_eq!(parse_shortstat("5 insertions and deletions"), (5, 5));
}

#[test]
fn git_summary_reports_the_current_branch_and_a_clean_diffstat() {
    assert_eq!(git_summary(&printed("main\n"), &printed("")), Some("main  +0/-0".to_string()));
}

#[test]
fn a_summary_shows_the_counts() {
    let diff = printed(" 1 file changed, 3 insertions(+), 1 deletion(-)\n");
    assert_eq!(git_summary(&printed("main\n"), &diff), Some("main  +3/-1".to_string()));
    assert_eq!(summary_line("topic", &diff), "topic  +3/-1");
}

#[test]
fn git_summary_is_none_outside_a_repository() {
    assert_eq!(git_summary(&failed(""), &printed("")), None);
    assert_eq!(git_summary(&failed("main\n"), &printed("")), None);
    assert_eq!(git_summary(&None, &None), None);
    assert_eq!(branch_name(&printed(" \n")), None);
    assert_eq!(branch_name(&printed(" topic \n")), Some("topic".to_string()));
}

#[test]
fn without_a_diff_nothing_has_changed() {
    assert_eq!(git_summary(&printed("main\n"), &None), Some("main  +0/-0".to_string()));
    let refused = failed(" 1 file changed, 3 insertions(+)\n");
    assert_eq!(git_summary(&printed("main\n"), &refused), Some("main  +0/-0".to_string()));
}

#[test]
fn a_branch_that_is_not_utf8_is_shown_with_replacement_characters() {
    let output = Some(CommandOutput { success: true, stdout: vec![b'a', 0xff, b'b', b'\n'] });
    assert_eq!(branch_name(&output), Some("a\u{fffd}b".to_string()));
}

#[test]
fn commands_look_at_the_given_directory() {
    assert_eq!(branch_args("/proj"), vec!["-C", "/proj", "rev-parse", "--abbrev-ref", "HEAD"]);
    assert_eq!(diff_args("/proj"), vec!["-C", "/proj", "diff", "HEAD", "--shortstat"]);
}

#[test]
fn a_watcher_keeps_the_latest_summary() {
    let mut watcher = GitStatusWatcher::start(Some("main  +0/-0".to_string()));
    assert_eq!(watcher.summary(), Some("main  +0/-0".to_string()));
    watcher.refresh(Some("main  +1/-0".to_string()));
    assert_eq!(watcher.summary(), Some("main  +1/-0".to_string()));
    watcher.refresh(None);
    assert_eq!(watcher.summary(), None);
    assert_eq!(POLL_INTERVAL_SECS, 3);
}
