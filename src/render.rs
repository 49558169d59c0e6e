//! Redraw instructions: what a terminal driver must do to show a prompt's
//! state, computed from that state alone. Every redraw is relative to the
//! cursor anchor saved after the label, and never clears the whole screen.
use vstd::prelude::*;

verus! {

/// The most rows that the options pane shows; longer lists show their first
/// rows only.
pub const MAX_VISIBLE_OPTIONS: usize = 5;

/// The foreground colours that prompts use.
#[derive(Clone, Copy, Debug, PartialEq, Eq, Structural)]
pub enum Color {
    Green,
    DarkGrey,
    DarkCyan,
    Red,
}

/// One terminal instruction.
#[derive(Clone, Debug, PartialEq, Eq)]
pub enum DrawOp {
    /// Saves the cursor position as the anchor.
    SavePosition,
    /// Moves the cursor back to the anchor.
    RestorePosition,
    /// Moves the cursor to where typing starts, just after the label.
    MoveToInputStart,
    /// Moves the cursor to the start of the next line.
    MoveToNextLine,
    /// Clears the line the cursor is on.
    ClearLine,
    /// Clears from the cursor to the end of its line.
    ClearToEnd,
    /// Writes text at the cursor.
    Print(String),
    /// Switches to bold text.
    Bold,
    /// Resets every text attribute.
    ResetAttributes,
    /// Switches the foreground colour.
    Foreground(Color),
    /// Resets the foreground colour.
    ResetColor,
}

/// The abstract form of a [`DrawOp`].
pub enum Draw {
    SavePosition,
    RestorePosition,
    MoveToInputStart,
    MoveToNextLine,
    ClearLine,
    ClearToEnd,
    Print(Seq<char>),
    Bold,
    ResetAttributes,
    Foreground(Color),
    ResetColor,
}

impl View for DrawOp {
    type V = Draw;

    open spec fn view(&self) -> Draw {
        match self {
            DrawOp::SavePosition => Draw::SavePosition,
            DrawOp::RestorePosition => Draw::RestorePosition,
            DrawOp::MoveToInputStart => Draw::MoveToInputStart,
            DrawOp::MoveToNextLine => Draw::MoveToNextLine,
            DrawOp::ClearLine => Draw::ClearLine,
            DrawOp::ClearToEnd => Draw::ClearToEnd,
            DrawOp::Print(s) => Draw::Print(s@),
            DrawOp::Bold => Draw::Bold,
            DrawOp::ResetAttributes => Draw::ResetAttributes,
            DrawOp::Foreground(c) => Draw::Foreground(*c),
            DrawOp::ResetColor => Draw::ResetColor,
        }
    }
}

/// The abstract form of a list of instructions.
pub open spec fn draws(ops: Seq<DrawOp>) -> Seq<Draw> {
    ops.map_values(|o: DrawOp| o@)
}

/// The label line: a green question mark, the label in bold followed by a
/// colon, and the default value in grey brackets if there is one; the cursor
/// is then saved as the anchor.
pub open spec fn prompt_draws(label: Seq<char>, default_text: Option<Seq<char>>) -> Seq<Draw> {
    let head = seq![
        Draw::Bold,
        Draw::Foreground(Color::Green),
        Draw::Print("? "@),
        Draw::ResetColor,
        Draw::Bold,
        Draw::Print(label + ": "@),
        Draw::ResetAttributes,
    ];
    match default_text {
        Some(d) => head + seq![
            Draw::Foreground(Color::DarkGrey),
            Draw::Print("["@ + d + "] "@),
            Draw::ResetColor,
            Draw::SavePosition,
        ],
        None => head.push(Draw::SavePosition),
    }
}

/// The buffer, rewritten in place after the anchor.
pub open spec fn buffer_draws(buffer: Seq<char>) -> Seq<Draw> {
    seq![Draw::RestorePosition, Draw::ClearToEnd, Draw::Print(buffer)]
}

/// An error message in red brackets after the anchor, the cursor left at
/// the anchor.
pub open spec fn error_draws(message: Seq<char>) -> Seq<Draw> {
    seq![
        Draw::RestorePosition,
        Draw::ClearToEnd,
        Draw::Print(" "@),
        Draw::Foreground(Color::Red),
        Draw::Print("["@ + message + "]"@),
        Draw::ResetColor,
        Draw::RestorePosition,
    ]
}

/// The accepted value in cyan after the anchor, then a new line.
pub open spec fn accepted_draws(text: Seq<char>) -> Seq<Draw> {
    seq![
        Draw::RestorePosition,
        Draw::ClearToEnd,
        Draw::Foreground(Color::DarkCyan),
        Draw::Print(text),
        Draw::Print("\n"@),
        Draw::ResetColor,
    ]
}

/// The filter text, rewritten after the label; the cursor after it becomes
/// the anchor.
pub open spec fn filter_draws(filter: Seq<char>) -> Seq<Draw> {
    seq![Draw::MoveToInputStart, Draw::ClearToEnd, Draw::Print(filter), Draw::SavePosition]
}

/// One row of the options pane: a bold `> ` marks the highlighted row.
pub open spec fn row_draws(label: Seq<char>, selected: bool) -> Seq<Draw> {
    if selected {
        seq![
            Draw::ClearLine,
            Draw::Bold,
            Draw::Print("> "@),
            Draw::Print(label),
            Draw::ResetAttributes,
            Draw::MoveToNextLine,
        ]
    } else {
        seq![
            Draw::ClearLine,
            Draw::Print("  "@),
            Draw::Print(label),
            Draw::ResetAttributes,
            Draw::MoveToNextLine,
        ]
    }
}

/// The rows for `labels`, the row at position `selection` highlighted.
pub open spec fn rows_draws(labels: Seq<Seq<char>>, selection: Option<usize>) -> Seq<Draw>
    decreases labels.len(),
{
    if labels.len() == 0 {
        Seq::empty()
    } else {
        rows_draws(labels.drop_last(), selection) + row_draws(
            labels.last(),
            selection == Some((labels.len() - 1) as usize),
        )
    }
}

/// `count` blanked rows.
pub open spec fn blank_draws(count: nat) -> Seq<Draw>
    decreases count,
{
    if count == 0 {
        Seq::empty()
    } else {
        blank_draws((count - 1) as nat) + seq![Draw::ClearLine, Draw::MoveToNextLine]
    }
}

/// The labels that the pane shows: the first `MAX_VISIBLE_OPTIONS` at most.
pub open spec fn shown(labels: Seq<Seq<char>>) -> Seq<Seq<char>> {
    if labels.len() <= MAX_VISIBLE_OPTIONS {
        labels
    } else {
        labels.take(MAX_VISIBLE_OPTIONS as int)
    }
}

/// The options pane below the anchor: one row per shown label, rows left
/// over from a longer list blanked, and the cursor back at the anchor.
pub open spec fn options_draws(labels: Seq<Seq<char>>, selection: Option<usize>) -> Seq<Draw> {
    seq![Draw::RestorePosition, Draw::MoveToNextLine] + rows_draws(shown(labels), selection)
        + blank_draws((MAX_VISIBLE_OPTIONS - shown(labels).len()) as nat) + seq![
        Draw::RestorePosition,
    ]
}

/// `count` rows below the anchor cleared.
pub open spec fn cleared_rows(count: nat) -> Seq<Draw>
    decreases count,
{
    if count == 0 {
        Seq::empty()
    } else {
        cleared_rows((count - 1) as nat) + seq![Draw::MoveToNextLine, Draw::ClearLine]
    }
}

/// The end of a selection: the pane's `rows` rows cleared, and the chosen
/// label in cyan in place of the filter, then a new line.
pub open spec fn conclusion_draws(rows: nat, choice: Seq<char>) -> Seq<Draw> {
    seq![Draw::RestorePosition] + cleared_rows(rows) + seq![
        Draw::MoveToInputStart,
        Draw::ClearToEnd,
        Draw::Foreground(Color::DarkCyan),
        Draw::Print(choice),
        Draw::ResetColor,
        Draw::MoveToNextLine,
    ]
}

/// The labels at the positions `filtered` of `all`.
pub open spec fn picked_labels(filtered: Seq<usize>, all: Seq<String>) -> Seq<Seq<char>> {
    filtered.map_values(|i: usize| all[i as int]@)
}

/// Appends one instruction.
fn push_op(out: &mut Vec<DrawOp>, op: DrawOp)
    ensures
        draws(final(out)@) == draws(old(out)@).push(op@),
{
    let ghost v = op@;
    out.push(op);
    assert(draws(out@) =~= draws(old(out)@).push(v));
}

/// Text made of `a` followed by `b`.
fn joined(a: &str, b: &str) -> (r: String)
    ensures
        r@ == a@ + b@,
{
    let mut s = String::from_str(a);
    s.append(b);
    s
}

/// Draws the label line, with the default value's text if there is one.
pub fn draw_prompt(label: &str, default_text: Option<&str>) -> (r: Vec<DrawOp>)
    ensures
        draws(r@) == prompt_draws(
            label@,
            match default_text {
                Some(d) => Some(d@),
                None => None,
            },
        ),
{
    let mut out: Vec<DrawOp> = Vec::new();
    push_op(&mut out, DrawOp::Bold);
    push_op(&mut out, DrawOp::Foreground(Color::Green));
    push_op(&mut out, DrawOp::Print(String::from_str("? ")));
    push_op(&mut out, DrawOp::ResetColor);
    push_op(&mut out, DrawOp::Bold);
    push_op(&mut out, DrawOp::Print(joined(label, ": ")));
    push_op(&mut out, DrawOp::ResetAttributes);
    match default_text {
        Some(d) => {
            push_op(&mut out, DrawOp::Foreground(Color::DarkGrey));
            let bracketed = joined(joined("[", d).as_str(), "] ");
            push_op(&mut out, DrawOp::Print(bracketed));
            push_op(&mut out, DrawOp::ResetColor);
        },
        None => {},
    }
    push_op(&mut out, DrawOp::SavePosition);
    proof {
        let head = seq![
            Draw::Bold,
            Draw::Foreground(Color::Green),
            Draw::Print("? "@),
            Draw::ResetColor,
            Draw::Bold,
            Draw::Print(label@ + ": "@),
            Draw::ResetAttributes,
        ];
        match default_text {
            Some(d) => {
                assert(draws(out@) =~= head + seq![
                    Draw::Foreground(Color::DarkGrey),
                    Draw::Print("["@ + d@ + "] "@),
                    Draw::ResetColor,
                    Draw::SavePosition,
                ]);
            },
            None => {
                assert(draws(out@) =~= head.push(Draw::SavePosition));
            },
        }
    }
    out
}

/// Rewrites the buffer after the anchor.
pub fn redraw_buffer(buffer: &str) -> (r: Vec<DrawOp>)
    ensures
        draws(r@) == buffer_draws(buffer@),
{
    let mut out: Vec<DrawOp> = Vec::new();
    push_op(&mut out, DrawOp::RestorePosition);
    push_op(&mut out, DrawOp::ClearToEnd);
    push_op(&mut out, DrawOp::Print(String::from_str(buffer)));
    assert(draws(out@) =~= buffer_draws(buffer@));
    out
}

/// Shows a validation error beside the prompt.
pub fn display_error(error_msg: &str) -> (r: Vec<DrawOp>)
    ensures
        draws(r@) == error_draws(error_msg@),
{
    let mut out: Vec<DrawOp> = Vec::new();
    push_op(&mut out, DrawOp::RestorePosition);
    push_op(&mut out, DrawOp::ClearToEnd);
    push_op(&mut out, DrawOp::Print(String::from_str(" ")));
    push_op(&mut out, DrawOp::Foreground(Color::Red));
    push_op(&mut out, DrawOp::Print(joined(joined("[", error_msg).as_str(), "]")));
    push_op(&mut out, DrawOp::ResetColor);
    push_op(&mut out, DrawOp::RestorePosition);
    assert(draws(out@) =~= error_draws(error_msg@));
    out
}

/// Shows the accepted value in place of the buffer and ends the line.
pub fn draw_accepted(text: &str) -> (r: Vec<DrawOp>)
    ensures
        draws(r@) == accepted_draws(text@),
{
    let mut out: Vec<DrawOp> = Vec::new();
    push_op(&mut out, DrawOp::RestorePosition);
    push_op(&mut out, DrawOp::ClearToEnd);
    push_op(&mut out, DrawOp::Foreground(Color::DarkCyan));
    push_op(&mut out, DrawOp::Print(String::from_str(text)));
    push_op(&mut out, DrawOp::Print(String::from_str("\n")));
    push_op(&mut out, DrawOp::ResetColor);
    assert(draws(out@) =~= accepted_draws(text@));
    out
}

/// Rewrites the filter text after the label.
pub fn draw_filter(filter: &str) -> (r: Vec<DrawOp>)
    ensures
        draws(r@) == filter_draws(filter@),
{
    let mut out: Vec<DrawOp> = Vec::new();
    push_op(&mut out, DrawOp::MoveToInputStart);
    push_op(&mut out, DrawOp::ClearToEnd);
    push_op(&mut out, DrawOp::Print(String::from_str(filter)));
    push_op(&mut out, DrawOp::SavePosition);
    assert(draws(out@) =~= filter_draws(filter@));
    out
}

/// Draws the options pane for the list `filtered` of positions in
/// `all_options`, the row at position `selection` of the list highlighted.
pub fn draw_options(selection: Option<usize>, filtered: &[usize], all_options: &[String]) -> (r:
    Vec<DrawOp>)
    requires
        forall|k: int| 0 <= k < filtered@.len() ==> filtered@[k] < all_options@.len(),
    ensures
        draws(r@) == options_draws(picked_labels(filtered@, all_options@), selection),
{
    let ghost labels = picked_labels(filtered@, all_options@);
    let ghost visible = shown(labels);
    let ghost header = seq![Draw::RestorePosition, Draw::MoveToNextLine];
    let count = if filtered.len() <= MAX_VISIBLE_OPTIONS {
        filtered.len()
    } else {
        MAX_VISIBLE_OPTIONS
    };
    let mut out: Vec<DrawOp> = Vec::new();
    push_op(&mut out, DrawOp::RestorePosition);
    push_op(&mut out, DrawOp::MoveToNextLine);
    assert(draws(out@) =~= header + rows_draws(visible.take(0), selection));
    let mut k: usize = 0;
    while k < count
        invariant
            labels == picked_labels(filtered@, all_options@),
            visible == shown(labels),
            count == visible.len(),
            count <= filtered@.len(),
            k <= count,
            forall|j: int| 0 <= j < filtered@.len() ==> filtered@[j] < all_options@.len(),
            draws(out@) == header + rows_draws(visible.take(k as int), selection),
        decreases count - k,
    {
        let label = &all_options[filtered[k]];
        let selected = match selection {
            Some(s) => s == k,
            None => false,
        };
        let ghost before = draws(out@);
        push_op(&mut out, DrawOp::ClearLine);
        if selected {
            push_op(&mut out, DrawOp::Bold);
            push_op(&mut out, DrawOp::Print(String::from_str("> ")));
        } else {
            push_op(&mut out, DrawOp::Print(String::from_str("  ")));
        }
        push_op(&mut out, DrawOp::Print(String::from_str(label.as_str())));
        push_op(&mut out, DrawOp::ResetAttributes);
        push_op(&mut out, DrawOp::MoveToNextLine);
        proof {
            let next = visible.take(k + 1);
            assert(next.drop_last() =~= visible.take(k as int));
            assert(next.last() == label@);
            assert(draws(out@) =~= before + row_draws(label@, selected));
            assert(rows_draws(next, selection) == rows_draws(visible.take(k as int), selection)
                + row_draws(label@, selected));
            assert(draws(out@) =~= header + rows_draws(next, selection));
        }
        k = k + 1;
    }
    assert(visible.take(count as int) =~= visible);
    let ghost rows = header + rows_draws(visible, selection);
    assert(draws(out@) =~= rows + blank_draws(0));
    let mut b: usize = count;
    while b < MAX_VISIBLE_OPTIONS
        invariant
            count <= b <= MAX_VISIBLE_OPTIONS,
            draws(out@) == rows + blank_draws((b - count) as nat),
        decreases MAX_VISIBLE_OPTIONS - b,
    {
        let ghost before = draws(out@);
        push_op(&mut out, DrawOp::ClearLine);
        push_op(&mut out, DrawOp::MoveToNextLine);
        b = b + 1;
        assert(blank_draws((b - count) as nat) == blank_draws((b - 1 - count) as nat) + seq![
            Draw::ClearLine,
            Draw::MoveToNextLine,
        ]);
        assert(draws(out@) =~= rows + blank_draws((b - count) as nat));
    }
    push_op(&mut out, DrawOp::RestorePosition);
    assert(draws(out@) =~= options_draws(labels, selection));
    out
}

/// Clears the pane's `rows` rows and shows the chosen label in place of the
/// filter.
pub fn conclude_selection(rows: usize, choice: &str) -> (r: Vec<DrawOp>)
    ensures
        draws(r@) == conclusion_draws(rows as nat, choice@),
{
    let mut out: Vec<DrawOp> = Vec::new();
    push_op(&mut out, DrawOp::RestorePosition);
    let ghost start = seq![Draw::RestorePosition];
    assert(draws(out@) =~= start + cleared_rows(0));
    let mut k: usize = 0;
    while k < rows
        invariant
            k <= rows,
            draws(out@) == start + cleared_rows(k as nat),
        decreases rows - k,
    {
        push_op(&mut out, DrawOp::MoveToNextLine);
        push_op(&mut out, DrawOp::ClearLine);
        k = k + 1;
        assert(cleared_rows(k as nat) == cleared_rows((k - 1) as nat) + seq![
            Draw::MoveToNextLine,
            Draw::ClearLine,
        ]);
        assert(draws(out@) =~= start + cleared_rows(k as nat));
    }
    let ghost cleared = draws(out@);
    push_op(&mut out, DrawOp::MoveToInputStart);
    push_op(&mut out, DrawOp::ClearToEnd);
    push_op(&mut out, DrawOp::Foreground(Color::DarkCyan));
    push_op(&mut out, DrawOp::Print(String::from_str(choice)));
    push_op(&mut out, DrawOp::ResetColor);
    push_op(&mut out, DrawOp::MoveToNextLine);
    assert(draws(out@) =~= conclusion_draws(rows as nat, choice@));
    out
}

} // verus!
