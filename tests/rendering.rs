use rustfolio::key::Key;
use rustfolio::render::{
    conclude_selection, display_error, draw_accepted, draw_filter, draw_options, draw_prompt,
    redraw_buffer, Color, DrawOp,
};
use rustfolio::selection::SelectPrompt;
use rustfolio::input::Input;

fn print(s: &str) -> DrawOp {
    DrawOp::Print(s.to_string())
}

#[test]
fn prompt_line_with_and_without_default() {
    let head = vec![
        DrawOp::Bold,
        DrawOp::Foreground(Color::Green),
        print("? "),
        DrawOp::ResetColor,
        DrawOp::Bold,
        print("Amount: "),
        DrawOp::ResetAttributes,
    ];
    let mut plain = head.clone();
    plain.push(DrawOp::SavePosition);
    assert_eq!(draw_prompt("Amount", None), plain);
    let mut with_default = head;
    with_default.extend(vec![
        DrawOp::Foreground(Color::DarkGrey),
        print("[12.5] "),
        DrawOp::ResetColor,
        DrawOp::SavePosition,
    ]);
    assert_eq!(draw_prompt("Amount", Some("12.5")), with_default);
}

#[test]
fn buffer_error_and_accepted_value() {
    assert_eq!(
        redraw_buffer("4.2"),
        vec![DrawOp::RestorePosition, DrawOp::ClearToEnd, print("4.2")]
    );
    assert_eq!(
        display_error("bad"),
        vec![
            DrawOp::RestorePosition,
            DrawOp::ClearToEnd,
            print(" "),
            DrawOp::Foreground(Color::Red),
            print("[bad]"),
            DrawOp::ResetColor,
            DrawOp::RestorePosition,
        ]
    );
    assert_eq!(
        draw_accepted("7"),
        vec![
            DrawOp::RestorePosition,
            DrawOp::ClearToEnd,
            DrawOp::Foreground(Color::DarkCyan),
            print("7"),
            print("\n"),
            DrawOp::ResetColor,
        ]
    );
    assert_eq!(
        draw_filter("st"),
        vec![DrawOp::MoveToInputStart, DrawOp::ClearToEnd, print("st"), DrawOp::SavePosition]
    );
}

#[test]
fn text_prompt_redraws_its_buffer() {
    let mut p = Input::new("N", |s: &String| Ok::<usize, String>(s.len())).into_prompt();
    p.handle_key(Key::Character('a'));
    assert_eq!(p.redraw(), redraw_buffer("a"));
}

#[test]
fn pane_marks_the_highlighted_row_and_blanks_the_rest() {
    let names = vec!["cash".to_string(), "bonds".to_string(), "stocks".to_string()];
    let ops = draw_options(Some(1), &[0, 2], &names);
    let mut expected = vec![DrawOp::RestorePosition, DrawOp::MoveToNextLine];
    expected.extend(vec![
        DrawOp::ClearLine,
        print("  "),
        print("cash"),
        DrawOp::ResetAttributes,
        DrawOp::MoveToNextLine,
    ]);
    expected.extend(vec![
        DrawOp::ClearLine,
        DrawOp::Bold,
        print("> "),
        print("stocks"),
        DrawOp::ResetAttributes,
        DrawOp::MoveToNextLine,
    ]);
    for _ in 0..3 {
        expected.extend(vec![DrawOp::ClearLine, DrawOp::MoveToNextLine]);
    }
    expected.push(DrawOp::RestorePosition);
    assert_eq!(ops, expected);
}

#[test]
fn pane_shows_at_most_five_rows() {
    let names: Vec<String> = (0..8).map(|i| format!("item{}", i)).collect();
    let all: Vec<usize> = (0..8).collect();
    let ops = draw_options(None, &all, &names);
    let rows = ops.iter().filter(|o| **o == DrawOp::ClearLine).count();
    assert_eq!(rows, 5);
    assert!(ops.contains(&print("item4")));
    assert!(!ops.contains(&print("item5")));
    let empty = draw_options(None, &[], &names);
    assert_eq!(empty.len(), 2 + 5 * 2 + 1);
}

#[test]
fn select_prompt_panes() {
    let mut p = SelectPrompt::new(vec!["cash", "bonds", "stocks"], |s: &&str| s.to_string());
    p.handle_key(Key::Character('o'));
    p.handle_key(Key::ArrowDown);
    let names = vec!["cash".to_string(), "bonds".to_string(), "stocks".to_string()];
    assert_eq!(p.options_pane(), draw_options(Some(1), &[1, 2], &names));
    assert_eq!(p.filter_echo(), draw_filter("o"));
    assert_eq!(p.conclusion(), conclude_selection(2, "stocks"));
}

#[test]
fn conclusion_clears_rows_and_shows_choice() {
    assert_eq!(
        conclude_selection(1, "bonds"),
        vec![
            DrawOp::RestorePosition,
            DrawOp::MoveToNextLine,
            DrawOp::ClearLine,
            DrawOp::MoveToInputStart,
            DrawOp::ClearToEnd,
            DrawOp::Foreground(Color::DarkCyan),
            print("bonds"),
            DrawOp::ResetColor,
            DrawOp::MoveToNextLine,
        ]
    );
}
