//! Keystroke-driven terminal prompts: a validated single-line text prompt and
//! a filterable single-choice list, modelled as state machines whose
//! transitions are proved against their contracts, plus the redraw
//! instructions that a terminal driver carries out for them.

pub mod text;
pub mod key;
pub mod selection;
pub mod input;
pub mod render;
pub mod paths;
