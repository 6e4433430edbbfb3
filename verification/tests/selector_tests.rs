use layout_picker::selector::{name_matches, Selector};

fn names(v: &[&str]) -> Vec<String> {
    v.iter().map(|s| s.to_string()).collect()
}

fn picker(items: &[&str], ignore_case: bool) -> Selector {
    let mut s = Selector::new(ignore_case);
    s.set_items(names(items));
    s
}

#[test]
fn empty_filter_matches_everything() {
    assert!(name_matches("Apple", "", true));
    assert!(name_matches("Apple", "", false));
    assert!(name_matches("", "", true));
    assert!(name_matches("", "", false));
}

#[test]
fn case_insensitive_matching_lowercases_both_sides() {
    assert!(name_matches("Apple", "app", true));
    assert!(name_matches("Apple", "APP", true));
    assert!(name_matches("Banana", "A", true));
    assert!(!name_matches("Banana", "x", true));
}

#[test]
fn case_sensitive_matching_keeps_case() {
    assert!(name_matches("Apple", "A", false));
    assert!(!name_matches("Banana", "A", false));
    assert!(!name_matches("Apple", "APP", false));
}

#[test]
fn containment_covers_equality_and_substrings() {
    assert!(name_matches("abc", "abc", false));
    assert!(name_matches("hello", "ell", false));
    assert!(!name_matches("hello", "xyz", false));
    assert!(!name_matches("ell", "hello", false));
}

#[test]
fn fresh_selector_is_empty() {
    let s = Selector::new(true);
    assert_eq!(s.selected, None);
    assert!(s.visible().is_empty());
    assert_eq!(s.commit(), None);
}

#[test]
fn new_items_select_the_first() {
    let s = picker(&["A", "B", "C"], true);
    assert_eq!(s.selected, Some("A".to_string()));
    assert_eq!(s.visible(), names(&["A", "B", "C"]));
}

#[test]
fn move_down_wraps_to_the_top() {
    let mut s = picker(&["A", "B", "C"], true);
    s.select_down();
    assert_eq!(s.selected, Some("B".to_string()));
    s.select_down();
    assert_eq!(s.selected, Some("C".to_string()));
    s.select_down();
    assert_eq!(s.selected, Some("A".to_string()));
}

#[test]
fn move_up_wraps_to_the_bottom() {
    let mut s = picker(&["A", "B", "C"], true);
    s.select_up();
    assert_eq!(s.selected, Some("C".to_string()));
    s.select_up();
    assert_eq!(s.selected, Some("B".to_string()));
}

#[test]
fn single_visible_item_stays_selected() {
    let mut s = picker(&["only"], true);
    assert_eq!(s.selected, Some("only".to_string()));
    s.select_down();
    assert_eq!(s.selected, Some("only".to_string()));
    s.select_up();
    assert_eq!(s.selected, Some("only".to_string()));
}

#[test]
fn duplicate_names_step_from_the_first_occurrence() {
    let mut s = picker(&["A", "B", "A"], true);
    assert_eq!(s.selected, Some("A".to_string()));
    s.select_down();
    assert_eq!(s.selected, Some("B".to_string()));
}

#[test]
fn append_filters_case_insensitively_and_resets() {
    let mut s = picker(&["Apple", "Banana", "Apricot"], true);
    s.append_char('a');
    assert_eq!(s.filter, "a".to_string());
    assert_eq!(s.visible(), names(&["Apple", "Banana", "Apricot"]));
    assert_eq!(s.selected, Some("Apple".to_string()));
}

#[test]
fn append_filters_case_sensitively_and_resets() {
    let mut s = picker(&["Apple", "Banana"], false);
    s.append_char('A');
    assert_eq!(s.filter, "A".to_string());
    assert_eq!(s.visible(), names(&["Apple"]));
    assert_eq!(s.selected, Some("Apple".to_string()));
}

#[test]
fn empty_item_list_stays_inert() {
    let mut s = picker(&[], true);
    s.append_char('x');
    assert!(s.visible().is_empty());
    assert_eq!(s.selected, None);
    assert_eq!(s.commit(), None);
    s.select_down();
    assert_eq!(s.selected, None);
    s.select_up();
    assert_eq!(s.selected, None);
}

#[test]
fn unmatched_filter_clears_selection_and_deleting_restores_it() {
    let mut s = picker(&["Apple", "Banana"], true);
    s.append_char('x');
    s.append_char('y');
    s.append_char('z');
    assert_eq!(s.filter, "xyz".to_string());
    assert!(s.visible().is_empty());
    assert_eq!(s.selected, None);
    s.delete_char();
    assert_eq!(s.filter, "xy".to_string());
    assert_eq!(s.selected, None);
    s.delete_char();
    s.delete_char();
    assert_eq!(s.filter, String::new());
    assert_eq!(s.visible(), names(&["Apple", "Banana"]));
    assert_eq!(s.selected, Some("Apple".to_string()));
}

#[test]
fn delete_on_empty_filter_is_a_noop() {
    let mut s = picker(&["A", "B"], true);
    s.select_down();
    s.delete_char();
    assert_eq!(s.filter, String::new());
    assert_eq!(s.selected, Some("A".to_string()));
}

#[test]
fn replacing_items_keeps_a_still_visible_selection() {
    let mut s = picker(&["A", "B", "C"], true);
    s.select_down();
    assert_eq!(s.selected, Some("B".to_string()));
    s.set_items(names(&["B", "C"]));
    assert_eq!(s.selected, Some("B".to_string()));
}

#[test]
fn replacing_items_resets_a_vanished_selection() {
    let mut s = picker(&["A", "B"], true);
    s.select_down();
    assert_eq!(s.selected, Some("B".to_string()));
    s.set_items(names(&["C", "D"]));
    assert_eq!(s.selected, Some("C".to_string()));
}

#[test]
fn commit_returns_the_first_index_of_the_selected_name() {
    let mut s = picker(&["A", "B", "C"], true);
    s.select_down();
    assert_eq!(s.commit(), Some(1));
    s.select_down();
    assert_eq!(s.commit(), Some(2));
}

#[test]
fn filter_grows_and_shrinks_one_character_at_a_time() {
    let mut s = picker(&["alpha"], true);
    s.append_char('a');
    s.append_char('l');
    assert_eq!(s.filter, "al".to_string());
    s.delete_char();
    assert_eq!(s.filter, "a".to_string());
}

#[test]
fn rows_mark_exactly_the_selected_item() {
    let s = picker(&["A", "B"], true);
    let rows = s.rows();
    assert_eq!(rows.len(), 2);
    assert_eq!(rows[0], ("A".to_string(), true));
    assert_eq!(rows[1], ("B".to_string(), false));
}

#[test]
fn visible_preserves_item_order() {
    let mut s = picker(&["b", "ab", "c", "abc"], false);
    s.append_char('b');
    assert_eq!(s.visible(), names(&["b", "ab", "abc"]));
    assert_eq!(s.selected, Some("b".to_string()));
}
