use layout_picker::config::{apply_option, parse_bool, Applied, Options};
use layout_picker::dispatch::{action_for, handle, Action, Effect, KeyPress};
use layout_picker::selector::Selector;

#[test]
fn defaults_ignore_case_and_no_quick_jump() {
    let o = Options::new();
    assert!(o.ignore_case);
    assert!(!o.quick_jump);
}

#[test]
fn parse_bool_accepts_trimmed_true_and_false() {
    assert_eq!(parse_bool("true"), Some(true));
    assert_eq!(parse_bool("false"), Some(false));
    assert_eq!(parse_bool("  true "), Some(true));
    assert_eq!(parse_bool("\tfalse\n"), Some(false));
}

#[test]
fn parse_bool_rejects_anything_else() {
    assert_eq!(parse_bool("TRUE"), None);
    assert_eq!(parse_bool("1"), None);
    assert_eq!(parse_bool(""), None);
    assert_eq!(parse_bool("yes"), None);
}

#[test]
fn apply_updates_ignore_case() {
    let mut o = Options::new();
    assert_eq!(apply_option(&mut o, "ignore_case", "false"), Applied::Updated);
    assert!(!o.ignore_case);
    assert!(!o.quick_jump);
}

#[test]
fn apply_updates_quick_jump() {
    let mut o = Options::new();
    assert_eq!(apply_option(&mut o, "quick_jump", " true "), Applied::Updated);
    assert!(o.quick_jump);
    assert!(o.ignore_case);
}

#[test]
fn apply_reports_a_malformed_boolean() {
    let mut o = Options::new();
    assert_eq!(apply_option(&mut o, "ignore_case", "yes"), Applied::InvalidValue);
    assert_eq!(o, Options::new());
}

#[test]
fn apply_reports_an_unknown_key() {
    let mut o = Options::new();
    assert_eq!(apply_option(&mut o, "selection_color", "cyan"), Applied::UnknownKey);
    assert_eq!(o, Options::new());
}

#[test]
fn keys_map_to_their_actions() {
    assert_eq!(action_for(KeyPress::Esc, false), Action::Cancel);
    assert_eq!(action_for(KeyPress::Ctrl('c'), false), Action::Cancel);
    assert_eq!(action_for(KeyPress::Down, false), Action::MoveDown);
    assert_eq!(action_for(KeyPress::Tab, false), Action::MoveDown);
    assert_eq!(action_for(KeyPress::Ctrl('n'), false), Action::MoveDown);
    assert_eq!(action_for(KeyPress::Up, false), Action::MoveUp);
    assert_eq!(action_for(KeyPress::ShiftTab, false), Action::MoveUp);
    assert_eq!(action_for(KeyPress::Ctrl('k'), false), Action::MoveUp);
    assert_eq!(action_for(KeyPress::Ctrl('p'), false), Action::MoveUp);
    assert_eq!(action_for(KeyPress::Enter, false), Action::Commit);
    assert_eq!(action_for(KeyPress::Backspace, false), Action::DeleteChar);
    assert_eq!(action_for(KeyPress::Char('q'), false), Action::AppendChar('q'));
    assert_eq!(action_for(KeyPress::Char('Z'), false), Action::AppendChar('Z'));
}

#[test]
fn digits_jump_only_while_quick_jump_is_on() {
    assert_eq!(action_for(KeyPress::Char('3'), true), Action::QuickJump(3));
    assert_eq!(action_for(KeyPress::Char('0'), true), Action::QuickJump(0));
    assert_eq!(action_for(KeyPress::Char('9'), true), Action::QuickJump(9));
    assert_eq!(action_for(KeyPress::Char('3'), false), Action::AppendChar('3'));
}

#[test]
fn unmapped_input_is_ignored() {
    assert_eq!(action_for(KeyPress::Char('!'), false), Action::Ignore);
    assert_eq!(action_for(KeyPress::Char(' '), true), Action::Ignore);
    assert_eq!(action_for(KeyPress::Ctrl('x'), false), Action::Ignore);
    assert_eq!(action_for(KeyPress::Other, true), Action::Ignore);
}

fn picker(items: &[&str]) -> Selector {
    let mut s = Selector::new(true);
    s.set_items(items.iter().map(|n| n.to_string()).collect());
    s
}

#[test]
fn handling_a_cancel_asks_to_close() {
    let mut s = picker(&["A"]);
    assert_eq!(handle(&mut s, Action::Cancel), Effect::CloseSelf);
    assert_eq!(s.selected, Some("A".to_string()));
}

#[test]
fn handling_movement_redraws() {
    let mut s = picker(&["A", "B"]);
    assert_eq!(handle(&mut s, Action::MoveDown), Effect::Redraw);
    assert_eq!(s.selected, Some("B".to_string()));
    assert_eq!(handle(&mut s, Action::MoveUp), Effect::Redraw);
    assert_eq!(s.selected, Some("A".to_string()));
}

#[test]
fn handling_a_commit_opens_the_selected_item() {
    let mut s = picker(&["A", "B"]);
    handle(&mut s, Action::MoveDown);
    assert_eq!(handle(&mut s, Action::Commit), Effect::OpenItem(1));
}

#[test]
fn committing_without_a_selection_does_nothing() {
    let mut s = picker(&[]);
    assert_eq!(handle(&mut s, Action::Commit), Effect::Nothing);
}

#[test]
fn handling_filter_edits_redraws_and_resets() {
    let mut s = picker(&["Apple", "Banana"]);
    assert_eq!(handle(&mut s, Action::AppendChar('b')), Effect::Redraw);
    assert_eq!(s.filter, "b".to_string());
    assert_eq!(s.selected, Some("Banana".to_string()));
    assert_eq!(handle(&mut s, Action::DeleteChar), Effect::Redraw);
    assert_eq!(s.filter, String::new());
    assert_eq!(s.selected, Some("Apple".to_string()));
}

#[test]
fn handling_a_quick_jump_switches_tabs() {
    let mut s = picker(&["A"]);
    assert_eq!(handle(&mut s, Action::QuickJump(4)), Effect::SwitchTab(4));
    assert_eq!(s.selected, Some("A".to_string()));
}

#[test]
fn handling_ignored_input_does_nothing() {
    let mut s = picker(&["A"]);
    assert_eq!(handle(&mut s, Action::Ignore), Effect::Nothing);
    assert_eq!(s.filter, String::new());
    assert_eq!(s.selected, Some("A".to_string()));
}
