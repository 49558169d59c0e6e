//! The validated single-line text prompt: its configuration, built step by
//! step, and the state machine that turns keys into an edited buffer, a cached
//! validation outcome and, in the end, an accepted value or a cancellation.
use vstd::prelude::*;

use crate::key::Key;
use crate::paths::{trimmed, trimmed_range};
use crate::text::chars_of;
use crate::render::{buffer_draws, draws, redraw_buffer, DrawOp};
use crate::text::{pop_char, push_char};

verus! {

/// The abstract configuration of a text prompt.
pub struct InputView<F, T> {
    pub label: Seq<char>,
    pub validation: F,
    pub default_value: Option<T>,
    pub esc_interrupts: bool,
}

/// The configuration of a text prompt: its label, the validator that turns
/// the typed text into a value or an error message, an optional default
/// value accepted by an immediate Enter, and whether Escape cancels.
pub struct Input<F, T> {
    label: String,
    validation: F,
    default_value: Option<T>,
    esc_interrupts: bool,
}

impl<F, T> View for Input<F, T> {
    type V = InputView<F, T>;

    closed spec fn view(&self) -> InputView<F, T> {
        InputView {
            label: self.label@,
            validation: self.validation,
            default_value: self.default_value,
            esc_interrupts: self.esc_interrupts,
        }
    }
}

/// Where a text prompt stands.
#[derive(Clone, Copy, Debug, PartialEq, Eq, Structural)]
pub enum TextPhase {
    Editing,
    Accepted,
    Cancelled,
}

/// What a key did to a text prompt, and so what must be redrawn.
#[derive(Clone, Debug, PartialEq, Eq)]
pub enum TextAction {
    /// Nothing changed.
    Ignored,
    /// The buffer changed and was validated again.
    BufferChanged,
    /// Enter was pressed on an invalid buffer: the buffer was cleared and the
    /// message is to be shown beside the prompt.
    Rejected(String),
    /// Enter was pressed on a valid buffer: the prompt is done.
    Accepted,
    /// Escape was pressed on an interruptible prompt: the prompt is done.
    Cancelled,
}

/// A validator gives one outcome for each text.
pub open spec fn deterministic<F: Fn(&String) -> Result<T, String>, T>(f: F) -> bool {
    forall|s1: &String, s2: &String, r1: Result<T, String>, r2: Result<T, String>|
        s1@ == s2@ && #[trigger] f.ensures((s1,), r1) && #[trigger] f.ensures((s2,), r2) ==> r1
            == r2
}

/// The abstract state of a text prompt.
pub struct TextView<F, T> {
    pub label: Seq<char>,
    pub validation: F,
    pub esc_interrupts: bool,
    /// The text typed so far.
    pub buffer: String,
    /// The cached validation outcome.
    pub last_result: Result<T, String>,
    /// The outcome is the default value, standing in for validation until the
    /// first edit.
    pub uses_default: bool,
    pub phase: TextPhase,
}

impl<F: Fn(&String) -> Result<T, String>, T> TextView<F, T> {
    /// The validator can be called on any text; the cached outcome is the
    /// default value while nothing was typed, and otherwise an outcome of the
    /// validator on the current buffer; an accepted prompt holds a value.
    pub open spec fn inv(self) -> bool {
        &&& forall|s: String| #[trigger] self.validation.requires((&s,))
        &&& self.uses_default ==> self.buffer@.len() == 0 && self.last_result is Ok
        &&& !self.uses_default ==> self.validation.ensures((&self.buffer,), self.last_result)
        &&& self.phase == TextPhase::Accepted ==> self.last_result is Ok
    }

    /// `next` is this prompt, still editing, with the buffer `buffer` validated
    /// afresh.
    pub open spec fn edited_to(self, next: Self, buffer: Seq<char>) -> bool {
        &&& next.label == self.label
        &&& next.validation == self.validation
        &&& next.esc_interrupts == self.esc_interrupts
        &&& next.buffer@ == buffer
        &&& !next.uses_default
        &&& next.phase == TextPhase::Editing
    }

    /// This prompt, moved to `phase`.
    pub open spec fn with_phase(self, phase: TextPhase) -> Self {
        TextView {
            label: self.label,
            validation: self.validation,
            esc_interrupts: self.esc_interrupts,
            buffer: self.buffer,
            last_result: self.last_result,
            uses_default: self.uses_default,
            phase,
        }
    }

    /// `key` takes an editing prompt from this state to `next`, with action `r`.
    pub open spec fn key_effect(self, key: Key, next: Self, r: TextAction) -> bool {
        match key {
            Key::Character(c) => self.edited_to(next, self.buffer@.push(c)) && r
                == TextAction::BufferChanged,
            Key::Backspace => self.edited_to(
                next,
                if self.buffer@.len() > 0 {
                    self.buffer@.drop_last()
                } else {
                    self.buffer@
                },
            ) && r == TextAction::BufferChanged,
            Key::Enter => match self.last_result {
                Ok(_) => next == self.with_phase(TextPhase::Accepted) && r == TextAction::Accepted,
                Err(msg) => self.edited_to(next, Seq::empty()) && r == TextAction::Rejected(msg),
            },
            Key::Escape => if self.esc_interrupts {
                next == self.with_phase(TextPhase::Cancelled) && r == TextAction::Cancelled
            } else {
                next == self && r == TextAction::Ignored
            },
            _ => next == self && r == TextAction::Ignored,
        }
    }
}

impl<F: Fn(&String) -> Result<T, String>, T> Input<F, T> {
    /// A prompt labelled `label` with the validator `validation`, no default
    /// value, and Escape ignored.
    pub fn new(label: &str, validation: F) -> (r: Self)
        ensures
            r@ == (InputView {
                label: label@,
                validation,
                default_value: None::<T>,
                esc_interrupts: false,
            }),
    {
        Input { label: String::from_str(label), validation, default_value: None, esc_interrupts: false }
    }

    /// The same prompt with `default_value` as its default value.
    pub fn default_value(self, default_value: Option<T>) -> (r: Self)
        ensures
            r@ == (InputView { default_value, ..self@ }),
    {
        let mut s = self;
        s.default_value = default_value;
        s
    }

    /// The same prompt, with Escape cancelling it or not.
    pub fn esc_interrupts(self, esc_interrupts: bool) -> (r: Self)
        ensures
            r@ == (InputView { esc_interrupts, ..self@ }),
    {
        let mut s = self;
        s.esc_interrupts = esc_interrupts;
        s
    }

    /// The label shown before the text.
    pub fn label(&self) -> (r: &String)
        ensures
            r@ == self@.label,
    {
        &self.label
    }

    /// The default value, if any.
    pub fn preset(&self) -> (r: &Option<T>)
        ensures
            *r == self@.default_value,
    {
        &self.default_value
    }

    /// Starts editing: the buffer is empty, and the cached outcome is the
    /// default value if there is one, else the validation of the empty text.
    pub fn into_prompt(self) -> (r: TextPrompt<F, T>)
        requires
            forall|s: String| #[trigger] self@.validation.requires((&s,)),
        ensures
            r@.inv(),
            r@.label == self@.label,
            r@.validation == self@.validation,
            r@.esc_interrupts == self@.esc_interrupts,
            r@.buffer@.len() == 0,
            r@.phase == TextPhase::Editing,
            r@.uses_default == self@.default_value is Some,
            self@.default_value is Some ==> r@.last_result == Ok::<T, String>(
                self@.default_value->0,
            ),
    {
        assert(self@.validation == self.validation);
        let Input { label, validation, default_value, esc_interrupts } = self;
        let buffer = String::new();
        match default_value {
            Some(d) => TextPrompt {
                label,
                validation,
                esc_interrupts,
                buffer,
                last_result: Ok(d),
                uses_default: true,
                phase: TextPhase::Editing,
            },
            None => {
                let last_result = validation(&buffer);
                TextPrompt {
                    label,
                    validation,
                    esc_interrupts,
                    buffer,
                    last_result,
                    uses_default: false,
                    phase: TextPhase::Editing,
                }
            },
        }
    }
}

/// A running text prompt.
pub struct TextPrompt<F, T> {
    label: String,
    validation: F,
    esc_interrupts: bool,
    buffer: String,
    last_result: Result<T, String>,
    uses_default: bool,
    phase: TextPhase,
}

impl<F, T> View for TextPrompt<F, T> {
    type V = TextView<F, T>;

    closed spec fn view(&self) -> TextView<F, T> {
        TextView {
            label: self.label@,
            validation: self.validation,
            esc_interrupts: self.esc_interrupts,
            buffer: self.buffer,
            last_result: self.last_result,
            uses_default: self.uses_default,
            phase: self.phase,
        }
    }
}

impl<F: Fn(&String) -> Result<T, String>, T> TextPrompt<F, T> {
    /// Validates the buffer afresh.
    fn revalidate(&mut self)
        requires
            forall|s: String| #[trigger] old(self)@.validation.requires((&s,)),
        ensures
            old(self)@.edited_to(final(self)@, old(self)@.buffer@),
            final(self)@.validation.ensures((&final(self)@.buffer,), final(self)@.last_result),
            final(self)@.buffer == old(self)@.buffer,
    {
        assert(self@.validation == self.validation);
        self.last_result = (self.validation)(&self.buffer);
        self.uses_default = false;
        self.phase = TextPhase::Editing;
    }

    /// Handles one key: a character is appended and backspace removes the
    /// last one (if any), each followed by validation of the new buffer; Enter
    /// accepts a valid outcome, or clears the buffer and reports the error;
    /// Escape cancels an interruptible prompt; anything else is ignored.
    pub fn handle_key(&mut self, key: Key) -> (r: TextAction)
        requires
            old(self)@.inv(),
            old(self)@.phase == TextPhase::Editing,
        ensures
            final(self)@.inv(),
            old(self)@.key_effect(key, final(self)@, r),
    {
        match key {
            Key::Character(c) => {
                push_char(&mut self.buffer, c);
                self.revalidate();
                TextAction::BufferChanged
            },
            Key::Backspace => {
                pop_char(&mut self.buffer);
                self.revalidate();
                TextAction::BufferChanged
            },
            Key::Enter => {
                if self.last_result.is_ok() {
                    self.phase = TextPhase::Accepted;
                    TextAction::Accepted
                } else {
                    self.buffer = String::new();
                    let mut previous = (self.validation)(&self.buffer);
                    std::mem::swap(&mut previous, &mut self.last_result);
                    self.uses_default = false;
                    match previous {
                        Err(msg) => TextAction::Rejected(msg),
                        Ok(_) => TextAction::Ignored,
                    }
                }
            },
            Key::Escape => {
                if self.esc_interrupts {
                    self.phase = TextPhase::Cancelled;
                    TextAction::Cancelled
                } else {
                    TextAction::Ignored
                }
            },
            _ => TextAction::Ignored,
        }
    }

    /// The text typed so far.
    pub fn buffer(&self) -> (r: &String)
        ensures
            r == self@.buffer,
    {
        &self.buffer
    }

    /// The buffer, rewritten in place after the anchor.
    pub fn redraw(&self) -> (r: Vec<DrawOp>)
        ensures
            draws(r@) == buffer_draws(self@.buffer@),
    {
        redraw_buffer(self.buffer.as_str())
    }

    /// The cached validation outcome.
    pub fn last_result(&self) -> (r: &Result<T, String>)
        ensures
            r == self@.last_result,
    {
        &self.last_result
    }

    /// Where the prompt stands.
    pub fn phase(&self) -> (r: TextPhase)
        ensures
            r == self@.phase,
    {
        self.phase
    }

    /// Ends a finished prompt: the accepted value, or `None` if it was
    /// cancelled.
    pub fn into_value(self) -> (r: Option<T>)
        requires
            self@.inv(),
            self@.phase != TextPhase::Editing,
        ensures
            self@.phase == TextPhase::Accepted ==> r == Some(self@.last_result->Ok_0),
            self@.phase == TextPhase::Cancelled ==> r is None,
    {
        match self.phase {
            TextPhase::Accepted => match self.last_result {
                Ok(v) => Some(v),
                Err(_) => None,
            },
            _ => None,
        }
    }
}

/// The cached outcome always reflects the current buffer, whatever keys led
/// to it: once anything was typed or erased it is an outcome of the validator
/// on exactly that buffer, so with a deterministic validator two prompts
/// whose buffers hold the same text hold the same outcome.
pub proof fn lemma_result_reflects_buffer<F: Fn(&String) -> Result<T, String>, T>(
    a: TextView<F, T>,
    b: TextView<F, T>,
)
    requires
        a.inv(),
        b.inv(),
        !a.uses_default,
        !b.uses_default,
        a.validation == b.validation,
        deterministic(a.validation),
        a.buffer@ == b.buffer@,
    ensures
        a.validation.ensures((&a.buffer,), a.last_result),
        a.last_result == b.last_result,
{
}

/// Whether a typed answer to a yes/no question means yes: with yes as the
/// default anything but `n` does, and with no as the default only `y` does;
/// white space around the answer is ignored.
pub fn confirmation_answer(answer: &str, default_positive: bool) -> (r: bool)
    ensures
        r == if default_positive {
            trimmed(answer@) != seq!['n']
        } else {
            trimmed(answer@) == seq!['y']
        },
{
    let chars = chars_of(answer);
    let (start, end) = trimmed_range(&chars);
    let ghost t = chars@.subrange(start as int, end as int);
    if end - start == 1 {
        let c = chars[start];
        assert(t =~= seq![c]);
        if c == 'n' {
            assert(t =~= seq!['n']);
        } else {
            assert(t[0] != seq!['n'][0]);
        }
        if c == 'y' {
            assert(t =~= seq!['y']);
        } else {
            assert(t[0] != seq!['y'][0]);
        }
        if default_positive {
            c != 'n'
        } else {
            c == 'y'
        }
    } else {
        assert(t.len() != 1);
        assert(t != seq!['n'] && t != seq!['y']);
        default_positive
    }
}

} // verus!
