use rustfolio::key::Key;
use rustfolio::selection::{apply_filter, update_selection, SelectAction, SelectPrompt};

fn assets() -> SelectPrompt<&'static str> {
    SelectPrompt::new(vec!["cash", "bonds", "stocks"], |s: &&str| s.to_string())
}

fn type_text<T>(p: &mut SelectPrompt<T>, text: &str) {
    for c in text.chars() {
        assert_eq!(p.handle_key(Key::Character(c)), SelectAction::FilterChanged);
    }
}

#[test]
fn starts_with_every_item_and_first_highlighted() {
    let p = assets();
    assert_eq!(p.filtered(), &vec![0, 1, 2]);
    assert_eq!(p.highlighted(), Some(0));
    assert_eq!(p.filter(), "");
    assert_eq!(p.displays(), &vec!["cash".to_string(), "bonds".to_string(), "stocks".to_string()]);
}

#[test]
fn filter_is_literal_containment() {
    let mut p = assets();
    type_text(&mut p, "s");
    // every label holds an "s"
    assert_eq!(p.filtered(), &vec![0, 1, 2]);
    type_text(&mut p, "t");
    let labels: Vec<&String> = p.filtered().iter().map(|i| &p.displays()[*i]).collect();
    assert_eq!(labels, vec!["stocks"]);
    assert_eq!(p.highlighted(), Some(0));
}

#[test]
fn filter_is_case_sensitive() {
    let mut p = assets();
    type_text(&mut p, "S");
    assert!(p.filtered().is_empty());
    assert_eq!(p.highlighted(), None);
}

#[test]
fn retyping_the_same_filter_gives_the_same_list() {
    let mut p = assets();
    type_text(&mut p, "o");
    let before = p.filtered().clone();
    assert_eq!(before, vec![1, 2]);
    type_text(&mut p, "x");
    assert!(p.filtered().is_empty());
    assert_eq!(p.handle_key(Key::Backspace), SelectAction::FilterChanged);
    assert_eq!(p.filter(), "o");
    assert_eq!(p.filtered(), &before);
    let names = vec!["cash".to_string(), "bonds".to_string(), "stocks".to_string()];
    assert_eq!(apply_filter("o", &names), apply_filter("o", &names));
}

#[test]
fn filtered_positions_are_increasing_and_in_range() {
    let names: Vec<String> = vec!["ab", "b", "cab", "", "bb", "a"].into_iter().map(String::from).collect();
    let r = apply_filter("b", &names);
    assert_eq!(r, vec![0, 1, 2, 4]);
    assert!(r.windows(2).all(|w| w[0] < w[1]));
    assert!(r.iter().all(|i| *i < names.len()));
    assert_eq!(apply_filter("", &names), vec![0, 1, 2, 3, 4, 5]);
}

#[test]
fn highlight_is_clamped_when_the_list_shrinks() {
    let items = vec!["a1", "a2", "b3", "a4"];
    let mut p = SelectPrompt::new(items, |s: &&str| s.to_string());
    for _ in 0..3 {
        assert_eq!(p.handle_key(Key::ArrowDown), SelectAction::SelectionMoved);
    }
    assert_eq!(p.highlighted(), Some(3));
    type_text(&mut p, "b");
    assert_eq!(p.filtered(), &vec![2]);
    assert_eq!(p.highlighted(), Some(0));
    p.handle_key(Key::Backspace);
    assert_eq!(p.highlighted(), Some(0));
}

#[test]
fn arrows_clamp_without_wrapping() {
    let mut p = assets();
    p.handle_key(Key::ArrowUp);
    assert_eq!(p.highlighted(), Some(0));
    p.handle_key(Key::ArrowDown);
    p.handle_key(Key::ArrowDown);
    p.handle_key(Key::ArrowDown);
    assert_eq!(p.highlighted(), Some(2));
    p.handle_key(Key::ArrowUp);
    assert_eq!(p.highlighted(), Some(1));
    assert!(p.highlighted().unwrap() < p.filtered().len());
}

#[test]
fn single_item_is_chosen_by_enter() {
    let mut p = SelectPrompt::new(vec![42u32], |n: &u32| n.to_string());
    assert_eq!(p.highlighted(), Some(0));
    assert_eq!(p.handle_key(Key::Enter), SelectAction::Chosen);
    assert_eq!(p.take_choice(), 42);
}

#[test]
fn enter_on_empty_list_is_ignored() {
    let mut p = assets();
    type_text(&mut p, "zzz");
    assert!(p.filtered().is_empty());
    assert_eq!(p.highlighted(), None);
    assert_eq!(p.handle_key(Key::Enter), SelectAction::Ignored);
    assert_eq!(p.handle_key(Key::ArrowDown), SelectAction::SelectionMoved);
    assert_eq!(p.highlighted(), None);
    assert_eq!(p.filter(), "zzz");
    for _ in 0..3 {
        p.handle_key(Key::Backspace);
    }
    assert_eq!(p.highlighted(), Some(0));
    assert_eq!(p.handle_key(Key::Enter), SelectAction::Chosen);
    assert_eq!(p.take_choice(), "cash");
}

#[test]
fn choice_follows_the_filtered_position() {
    let mut p = assets();
    type_text(&mut p, "o");
    p.handle_key(Key::ArrowDown);
    assert_eq!(p.handle_key(Key::Enter), SelectAction::Chosen);
    assert_eq!(p.take_choice(), "stocks");
}

#[test]
fn other_keys_are_ignored() {
    let mut p = assets();
    assert_eq!(p.handle_key(Key::Escape), SelectAction::Ignored);
    assert_eq!(p.handle_key(Key::Other), SelectAction::Ignored);
    assert_eq!(p.handle_key(Key::Backspace), SelectAction::FilterChanged);
    assert_eq!(p.filter(), "");
    assert_eq!(p.filtered(), &vec![0, 1, 2]);
}

#[test]
fn selection_update_rules() {
    assert_eq!(update_selection(&[], Some(3)), None);
    assert_eq!(update_selection(&[4, 7], None), Some(0));
    assert_eq!(update_selection(&[4, 7], Some(5)), Some(1));
    assert_eq!(update_selection(&[4, 7, 9], Some(1)), Some(1));
}
