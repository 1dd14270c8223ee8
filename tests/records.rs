use malogany::text::{column_text, text_lines};
use malogany::{color_for, enter_branch, exit_branch, init, BranchStack, Color, Level, Mode, Style};

#[test]
fn disabled_record_draws_and_changes_nothing() {
    let logger = init(Level::Warn);
    let mut stack = BranchStack::new(Mode::Tree);
    enter_branch(&mut stack, "a");
    exit_branch(&mut stack).unwrap();
    assert!(stack.ended_branch());
    let out = logger.log(&mut stack, Level::Info, "hidden");
    assert!(out.is_empty());
    assert!(stack.ended_branch());
    assert!(logger.log(&mut stack, Level::Trace, "hidden").is_empty());
    assert!(stack.ended_branch());
    assert!(!logger.log(&mut stack, Level::Error, "shown").is_empty());
    assert!(!stack.ended_branch());
}

#[test]
fn enabled_follows_severity_order() {
    let logger = init(Level::Info);
    assert_eq!(logger.level(), Level::Info);
    assert!(logger.enabled(Level::Error));
    assert!(logger.enabled(Level::Warn));
    assert!(logger.enabled(Level::Info));
    assert!(!logger.enabled(Level::Debug));
    assert!(!logger.enabled(Level::Trace));
}

#[test]
fn multi_line_record_repeats_gutter() {
    let logger = init(Level::Trace);
    let mut stack = BranchStack::new(Mode::Tree);
    enter_branch(&mut stack, "exp");
    let out = logger.log(&mut stack, Level::Error, "first\nsecond");
    let texts: Vec<&str> = out.iter().map(|s| s.text.as_str()).collect();
    assert_eq!(texts, vec!["  │   ", "ERROR:", " first\n", "  │   ", "second\n"]);
    assert_eq!(out[0].style, Style::Gutter);
    assert_eq!(out[1].style, Style::Tag(Color::Red));
    assert_eq!(out[2].style, Style::Plain);
    assert_eq!(out[3].style, Style::Gutter);
}

#[test]
fn record_with_trailing_newline_has_no_empty_last_line() {
    let logger = init(Level::Trace);
    let mut stack = BranchStack::new(Mode::Tree);
    let out = logger.log(&mut stack, Level::Debug, "done\n");
    let texts: Vec<&str> = out.iter().map(|s| s.text.as_str()).collect();
    assert_eq!(texts, vec!["", "DEBUG:", " done\n"]);
    assert_eq!(out[1].style, Style::Tag(Color::Green));
}

#[test]
fn empty_message_draws_one_space() {
    let logger = init(Level::Trace);
    let mut stack = BranchStack::new(Mode::Tree);
    let out = logger.log(&mut stack, Level::Trace, "");
    let texts: Vec<&str> = out.iter().map(|s| s.text.as_str()).collect();
    assert_eq!(texts, vec!["", "TRACE:", " \n"]);
}

#[test]
fn flat_record_is_tag_and_message() {
    let logger = init(Level::Trace);
    let mut stack = BranchStack::new(Mode::Flat);
    let out = logger.log(&mut stack, Level::Warn, "a\nb");
    let texts: Vec<&str> = out.iter().map(|s| s.text.as_str()).collect();
    assert_eq!(texts, vec!["WARN:", " a\nb\n"]);
    assert_eq!(out[0].style, Style::Tag(Color::Yellow));
    assert_eq!(out[1].style, Style::Plain);
    assert!(!stack.ended_branch());
}

#[test]
fn level_colors() {
    assert_eq!(color_for(Level::Error), Color::Red);
    assert_eq!(color_for(Level::Warn), Color::Yellow);
    assert_eq!(color_for(Level::Info), Color::Cyan);
    assert_eq!(color_for(Level::Debug), Color::Green);
    assert_eq!(color_for(Level::Trace), Color::White);
}

#[test]
fn level_names() {
    assert_eq!(Level::Error.as_str(), "ERROR");
    assert_eq!(Level::Warn.as_str(), "WARN");
    assert_eq!(Level::Info.as_str(), "INFO");
    assert_eq!(Level::Debug.as_str(), "DEBUG");
    assert_eq!(Level::Trace.as_str(), "TRACE");
    assert!(Level::Error.at_most(Level::Error));
    assert!(!Level::Trace.at_most(Level::Debug));
}

#[test]
fn styles_give_colors() {
    assert_eq!(Style::Plain.foreground(), None);
    assert_eq!(Style::Gutter.foreground(), Some(Color::Rgb(160, 160, 160)));
    assert_eq!(Style::Banner.foreground(), Some(Color::Rgb(20, 20, 20)));
    assert_eq!(Style::Banner.background(), Some(Color::Rgb(160, 160, 160)));
    assert_eq!(Style::Gutter.background(), None);
    assert!(Style::Tag(Color::Cyan).bold());
    assert!(!Style::Banner.bold());
}

#[test]
fn columns_center_the_bar() {
    assert_eq!(column_text(5), "  │   ");
    assert_eq!(column_text(4), " │   ");
    assert_eq!(column_text(2), "│  ");
    assert_eq!(column_text(1), "│ ");
    assert_eq!(column_text(0), "│ ");
}

#[test]
fn lines_split_on_line_feeds() {
    assert_eq!(text_lines(""), Vec::<String>::new());
    assert_eq!(text_lines("a"), vec!["a"]);
    assert_eq!(text_lines("a\n"), vec!["a"]);
    assert_eq!(text_lines("\n"), vec![""]);
    assert_eq!(text_lines("a\n\nb"), vec!["a", "", "b"]);
}

#[test]
fn carriage_return_line_feed_ends_a_line() {
    assert_eq!(text_lines("a\r\nb"), vec!["a", "b"]);
    assert_eq!(text_lines("a\r\n"), vec!["a"]);
    assert_eq!(text_lines("\r\n"), vec![""]);
    assert_eq!(text_lines("a\r\r\nb"), vec!["a\r", "b"]);
    assert_eq!(text_lines("a\rb"), vec!["a\rb"]);
    assert_eq!(text_lines("a\r"), vec!["a\r"]);
}

#[test]
fn crlf_record_drops_carriage_returns() {
    let logger = init(Level::Trace);
    let mut stack = BranchStack::new(Mode::Tree);
    enter_branch(&mut stack, "exp");
    let out = logger.log(&mut stack, Level::Info, "a\r\nb\r\n");
    let texts: Vec<&str> = out.iter().map(|s| s.text.as_str()).collect();
    assert_eq!(texts, vec!["  │   ", "INFO:", " a\n", "  │   ", "b\n"]);
    assert_eq!(out[1].style, Style::Tag(Color::Cyan));
}
