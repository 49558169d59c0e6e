use std::cell::Cell;

use rustfolio::input::{confirmation_answer, Input, TextAction, TextPhase};
use rustfolio::key::Key;

fn non_negative(s: &String) -> Result<f64, String> {
    let msg = String::from("Amount must be a positive floating point number");
    match s.trim().parse::<f64>() {
        Ok(f) if f >= 0.0 => Ok(f),
        _ => Err(msg),
    }
}

#[test]
fn builder_sets_each_field() {
    let input = Input::new("Amount", non_negative).default_value(Some(3.0)).esc_interrupts(true);
    assert_eq!(input.label(), "Amount");
    let mut p = input.into_prompt();
    assert_eq!(p.last_result(), &Ok(3.0));
    assert_eq!(p.handle_key(Key::Escape), TextAction::Cancelled);
    assert_eq!(p.phase(), TextPhase::Cancelled);
    assert_eq!(p.into_value(), None);
}

#[test]
fn negative_amount_is_never_accepted() {
    let mut p = Input::new("Amount", non_negative).into_prompt();
    assert_eq!(p.handle_key(Key::Character('-')), TextAction::BufferChanged);
    assert!(p.last_result().is_err());
    assert_eq!(p.handle_key(Key::Character('5')), TextAction::BufferChanged);
    assert_eq!(p.buffer(), "-5");
    assert!(p.last_result().is_err());
    let msg = String::from("Amount must be a positive floating point number");
    assert_eq!(p.handle_key(Key::Enter), TextAction::Rejected(msg.clone()));
    assert_eq!(p.phase(), TextPhase::Editing);
    assert_eq!(p.buffer(), "");
    assert_eq!(p.handle_key(Key::Enter), TextAction::Rejected(msg));
    assert_eq!(p.phase(), TextPhase::Editing);
}

#[test]
fn default_is_accepted_without_validation() {
    let calls = Cell::new(0u32);
    let counting = |s: &String| {
        calls.set(calls.get() + 1);
        non_negative(s)
    };
    let mut p = Input::new("Amount", counting).default_value(Some(100.0)).into_prompt();
    assert_eq!(p.handle_key(Key::Enter), TextAction::Accepted);
    assert_eq!(p.phase(), TextPhase::Accepted);
    assert_eq!(calls.get(), 0);
    assert_eq!(p.into_value(), Some(100.0));
}

#[test]
fn result_always_matches_the_buffer() {
    let mut p = Input::new("Amount", non_negative).into_prompt();
    assert_eq!(p.last_result(), &non_negative(&String::new()));
    let keys = [
        Key::Character('1'),
        Key::Character('2'),
        Key::Backspace,
        Key::Character('x'),
        Key::Backspace,
        Key::Backspace,
        Key::Backspace,
        Key::Character('7'),
    ];
    for k in keys {
        p.handle_key(k);
        assert_eq!(p.last_result(), &non_negative(p.buffer()));
    }
    assert_eq!(p.buffer(), "7");
    assert_eq!(p.handle_key(Key::Enter), TextAction::Accepted);
    assert_eq!(p.into_value(), Some(7.0));
}

#[test]
fn editing_drops_the_default() {
    let mut p = Input::new("Amount", non_negative).default_value(Some(1.0)).into_prompt();
    p.handle_key(Key::Character('a'));
    p.handle_key(Key::Backspace);
    assert_eq!(p.buffer(), "");
    assert!(p.last_result().is_err());
    assert!(matches!(p.handle_key(Key::Enter), TextAction::Rejected(_)));
}

#[test]
fn escape_is_ignored_unless_interruptible() {
    let mut p = Input::new("Name", |s: &String| Ok::<String, String>(s.clone())).into_prompt();
    assert_eq!(p.handle_key(Key::Escape), TextAction::Ignored);
    assert_eq!(p.handle_key(Key::ArrowUp), TextAction::Ignored);
    assert_eq!(p.phase(), TextPhase::Editing);
    p.handle_key(Key::Character('é'));
    p.handle_key(Key::Character('x'));
    assert_eq!(p.handle_key(Key::Enter), TextAction::Accepted);
    assert_eq!(p.into_value(), Some(String::from("éx")));
}

#[test]
fn backspace_on_empty_buffer_keeps_it_empty() {
    let mut p = Input::new("Name", |s: &String| Ok::<usize, String>(s.len())).into_prompt();
    assert_eq!(p.handle_key(Key::Backspace), TextAction::BufferChanged);
    assert_eq!(p.buffer(), "");
    assert_eq!(p.last_result(), &Ok(0));
}

#[test]
fn default_value_is_kept_until_started() {
    let input = Input::new("Amount", non_negative);
    assert_eq!(input.preset(), &None);
    let input = input.default_value(Some(2.5));
    assert_eq!(input.preset(), &Some(2.5));
}

#[test]
fn yes_no_answers() {
    assert!(confirmation_answer("", true));
    assert!(confirmation_answer("yes", true));
    assert!(!confirmation_answer(" n\n", true));
    assert!(!confirmation_answer("", false));
    assert!(confirmation_answer("y\n", false));
    assert!(!confirmation_answer("Y", false));
    assert!(!confirmation_answer("yes", false));
}
