use malogany::{enter_branch, exit_branch, BranchError, BranchStack, Mode, Span, Style};

fn texts(spans: &[Span]) -> Vec<String> {
    spans.iter().map(|s| s.text.clone()).collect()
}

fn has_blank_separator(spans: &[Span]) -> bool {
    spans.len() == 5 && spans[1].text == "\n" && spans[1].style == Style::Plain
}

#[test]
fn nested_enters_depths_and_no_separator() {
    let mut stack = BranchStack::new(Mode::Tree);
    let mut depths = vec![stack.depth()];
    let first = enter_branch(&mut stack, "exp");
    depths.push(stack.depth());
    let second = enter_branch(&mut stack, "ident");
    depths.push(stack.depth());
    assert!(exit_branch(&mut stack).is_ok());
    depths.push(stack.depth());
    assert!(exit_branch(&mut stack).is_ok());
    depths.push(stack.depth());
    assert_eq!(depths, vec![0, 1, 2, 1, 0]);
    assert!(!has_blank_separator(&first));
    assert!(!has_blank_separator(&second));
    assert_eq!(texts(&first), vec!["", " exp ", "\n"]);
    assert_eq!(texts(&second), vec!["  │   ", " ident ", "\n"]);
}

#[test]
fn sibling_after_exit_gets_separator() {
    let mut stack = BranchStack::new(Mode::Tree);
    enter_branch(&mut stack, "ident");
    let closed = exit_branch(&mut stack).unwrap();
    assert_eq!(texts(&closed), vec!["", " ident ", "\n"]);
    assert!(stack.ended_branch());
    let again = enter_branch(&mut stack, "ident");
    assert!(has_blank_separator(&again));
    assert_eq!(again[0].style, Style::Gutter);
    assert_eq!(again[3].text, " ident ");
    assert_eq!(again[3].style, Style::Banner);
    assert!(!stack.ended_branch());
}

#[test]
fn record_after_exit_suppresses_separator() {
    let logger = malogany::init(malogany::Level::Trace);
    let mut stack = BranchStack::new(Mode::Tree);
    enter_branch(&mut stack, "ident");
    exit_branch(&mut stack).unwrap();
    let out = logger.log(&mut stack, malogany::Level::Info, "between");
    assert!(!out.is_empty());
    assert!(!stack.ended_branch());
    let again = enter_branch(&mut stack, "ident");
    assert!(!has_blank_separator(&again));
    assert_eq!(again.len(), 3);
}

#[test]
fn exit_on_empty_stack_underflows() {
    let mut stack = BranchStack::new(Mode::Tree);
    assert_eq!(exit_branch(&mut stack).unwrap_err(), BranchError::EmptyStackUnderflow);
    assert_eq!(stack.depth(), 0);
    enter_branch(&mut stack, "a");
    exit_branch(&mut stack).unwrap();
    assert_eq!(exit_branch(&mut stack).unwrap_err(), BranchError::EmptyStackUnderflow);
}

#[test]
fn well_matched_sequence_returns_to_zero() {
    let mut stack = BranchStack::new(Mode::Tree);
    for name in ["a", "b"] {
        enter_branch(&mut stack, name);
        enter_branch(&mut stack, "inner");
        exit_branch(&mut stack).unwrap();
        enter_branch(&mut stack, "inner2");
        exit_branch(&mut stack).unwrap();
        exit_branch(&mut stack).unwrap();
    }
    assert_eq!(stack.depth(), 0);
}

#[test]
fn gutter_width_counts_characters_not_bytes() {
    let mut stack = BranchStack::new(Mode::Tree);
    enter_branch(&mut stack, "héllo");
    assert_eq!(stack.width_at(0), 7);
    assert_eq!(stack.render_preamble(), "   │    ");
    enter_branch(&mut stack, "");
    assert_eq!(stack.width_at(1), 2);
    assert_eq!(stack.render_preamble(), "   │    │  ");
    assert_eq!(stack.name_at(0), "héllo");
    assert_eq!(stack.name_at(1), "");
}

#[test]
fn preamble_rendered_twice_is_identical() {
    let mut stack = BranchStack::new(Mode::Tree);
    assert_eq!(stack.render_preamble(), "");
    enter_branch(&mut stack, "exp");
    enter_branch(&mut stack, "ident");
    let a = stack.render_preamble();
    let b = stack.render_preamble();
    assert_eq!(a, b);
    assert_eq!(a, "  │      │    ");
}

#[test]
fn exit_banner_follows_popped_gutter() {
    let mut stack = BranchStack::new(Mode::Tree);
    enter_branch(&mut stack, "exp");
    enter_branch(&mut stack, "ident");
    let out = exit_branch(&mut stack).unwrap();
    assert_eq!(texts(&out), vec!["  │   ", " ident ", "\n"]);
    assert_eq!(out[0].style, Style::Gutter);
    assert_eq!(out[1].style, Style::Banner);
    assert_eq!(out[2].style, Style::Plain);
}

#[test]
fn flat_mode_tracks_nothing() {
    let mut stack = BranchStack::new(Mode::Flat);
    assert!(enter_branch(&mut stack, "exp").is_empty());
    assert_eq!(stack.depth(), 0);
    assert!(exit_branch(&mut stack).unwrap().is_empty());
    assert!(exit_branch(&mut stack).unwrap().is_empty());
    assert!(!stack.ended_branch());
    assert_eq!(stack.mode(), Mode::Flat);
}

#[test]
fn gutter_layout_has_one_bar_per_branch_at_its_offset() {
    let mut stack = BranchStack::new(Mode::Tree);
    enter_branch(&mut stack, "exp");
    enter_branch(&mut stack, "ident");
    let chars: Vec<char> = stack.render_preamble().chars().collect();
    assert_eq!(chars.len(), (3 + 2 + 1) + (5 + 2 + 1));
    let bars: Vec<usize> = (0..chars.len()).filter(|&i| chars[i] == '│').collect();
    assert_eq!(bars, vec![(5 - 1) / 2, 6 + (7 - 1) / 2]);
}
