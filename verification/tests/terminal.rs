use cctiles::session::{COLS, ROWS};
use cctiles::terminal::Terminal;

fn terminal() -> Terminal {
    Terminal::new(ROWS, COLS)
}

#[test]
fn screen_buffer_reflects_child_output() {
    let mut terminal = terminal();
    assert_eq!(terminal.contents(), "");
    terminal.take_output(b"hello-vt100-test\r\n");
    assert!(terminal.contents().contains("hello-vt100-test"));
    assert!(terminal.screen().contents().contains("hello-vt100-test"));
}

#[test]
fn resize_updates_the_screen_buffer_dimensions() {
    let mut terminal = terminal();
    assert_eq!(terminal.size(), (24, 80));
    terminal.resize(40, 100);
    assert_eq!(terminal.size(), (40, 100));
    assert_eq!(terminal.screen().size(), (40, 100));
    terminal.resize(1, 1);
    assert_eq!(terminal.size(), (1, 1));
}

#[test]
fn output_keeps_the_size() {
    let mut terminal = terminal();
    terminal.resize(10, 20);
    terminal.take_output(b"\x1b[8;50;90t\x1bc\x1b[?1049h");
    assert_eq!(terminal.size(), (10, 20));
}

#[test]
fn output_is_drawn_in_the_order_it_comes() {
    let mut terminal = terminal();
    terminal.take_output(b"one\r\n");
    terminal.take_output(b"two\r\n\x1b[1;1Hsix");
    assert_eq!(terminal.contents(), "six\ntwo");
}

#[test]
fn a_narrower_screen_of_ascii_goes_on_taking_output() {
    let mut terminal = terminal();
    terminal.take_output(b"a line that is cut off");
    terminal.resize(5, 6);
    assert_eq!(terminal.contents(), "a line");
    terminal.take_output(b"\x1b[1;6Hs and more");
    assert_eq!(terminal.size(), (5, 6));
    assert!(terminal.contents().starts_with("a lins"));
}

#[test]
fn the_smallest_screen_that_draws_takes_any_output() {
    let mut terminal = Terminal::new(2, 3);
    let all: Vec<u8> = (0..=255).collect();
    terminal.take_output("a\u{17d8}".as_bytes());
    for _ in 0..4 {
        terminal.take_output("\u{3042}a\u{17d8}b\u{3046}\t\r\n\u{301}\x1b[@\x1b[P\x1b[X\x1bM".as_bytes());
        terminal.take_output(&all);
        terminal.take_output("ab\u{17d8}c\u{17d8}\u{17d8}".as_bytes());
    }
    assert_eq!(terminal.size(), (2, 3));
}

#[test]
fn no_character_below_the_bound_takes_two_columns() {
    let mut terminal = terminal();
    for c in '\u{20}'..'\u{1000}' {
        terminal.take_output(format!("\x1b[2J\x1b[1;1H{c}").as_bytes());
        assert!(terminal.screen().cursor_position().1 <= 1, "{c:?}");
        assert!(!terminal.screen().cell(0, 0).unwrap().is_wide(), "{c:?}");
    }
}

#[test]
fn a_narrower_screen_of_narrow_characters_goes_on_taking_output() {
    let mut terminal = Terminal::new(3, 8);
    terminal.take_output("gr\u{fc}\u{df}e \u{e9}t".as_bytes());
    terminal.resize(3, 4);
    assert_eq!(terminal.contents(), "gr\u{fc}\u{df}");
    terminal.take_output("\x1b[1;4Hn\x1b[1;3H\u{e9}".as_bytes());
    assert_eq!(terminal.contents(), "gr\u{e9}n");
}

#[test]
fn a_wider_screen_keeps_wide_characters_whole() {
    let mut terminal = Terminal::new(3, 4);
    terminal.take_output("\u{3042}\u{3044}".as_bytes());
    terminal.resize(3, 9);
    terminal.take_output("\x1b[1;4Hx".as_bytes());
    assert_eq!(terminal.contents(), "\u{3042} x");
}
