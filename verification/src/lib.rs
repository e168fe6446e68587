//! A fuzzy item picker: the verified layout, prompt editing and frame logic.
pub mod incremental;
pub mod match_list;
pub mod util;
pub mod text;
pub mod frame;
pub mod editable;
pub mod component;
pub mod filter;
pub mod segment;
pub mod prompt;
pub mod term;
pub mod lazy;
pub mod error;
pub mod event;
pub mod picker;

use vstd::prelude::*;

verus! {

/// How to treat a case mismatch between two characters.
#[derive(Clone, Copy, Debug, PartialEq, Eq)]
#[non_exhaustive]
pub enum CaseMatching {
    /// Characters never match their case folded version (`a != A`).
    Respect,
    /// Characters always match their case folded version (`a == A`).
    Ignore,
    /// Act like [`Ignore`](CaseMatching::Ignore) if all characters in a pattern atom are
    /// lowercase and like [`Respect`](CaseMatching::Respect) otherwise.
    Smart,
}

impl Default for CaseMatching {
    fn default() -> (r: Self)
        ensures
            r == CaseMatching::Smart,
    {
        CaseMatching::Smart
    }
}

/// How to handle Unicode Latin normalization.
#[derive(Clone, Copy, Debug, PartialEq, Eq)]
#[non_exhaustive]
pub enum Normalization {
    /// Characters never match their normalized version (`a != ä`).
    Never,
    /// Act like [`Never`](Normalization::Never) if any character would need to be normalized, and
    /// otherwise perform normalization (`a == ä` but `ä != a`).
    Smart,
}

impl Default for Normalization {
    fn default() -> (r: Self)
        ensures
            r == Normalization::Smart,
    {
        Normalization::Smart
    }
}

/// Decorative characters used by the picker UI.
///
/// All of the characters must be single-width, or the picker screen will be corrupted.
#[derive(Clone, Debug, Eq, PartialEq)]
#[non_exhaustive]
pub struct PickerChars {
    /// The prompt indicator.
    pub prompt: char,
    /// The marker for the currently selected item.
    pub selection: char,
    /// The marker for any queued items.
    pub queued: char,
    /// An indicator for truncated text.
    pub ellipsis: char,
    /// The horizontal separator between the prompt and the match list.
    pub separator: char,
    /// The characters used by the item spinner.
    pub spinner_chars: Vec<char>,
    /// An indicator that matching is ongoing in the background.
    pub matching_indicator: char,
}

impl PickerChars {
    /// The default Unicode character set.
    pub fn new() -> (r: Self)
        ensures
            r.prompt == '>',
            r.selection == '\u{258c}',
            r.queued == '\u{2503}',
            r.ellipsis == '\u{2026}',
            r.separator == '\u{2500}',
            r.spinner_chars@ == seq![
                '\u{280b}', '\u{2819}', '\u{2839}', '\u{2838}', '\u{283c}', '\u{2834}', '\u{2826}',
                '\u{2827}', '\u{2807}', '\u{280f}',
            ],
            r.matching_indicator == '\u{b7}',
    {
        Self {
            prompt: '>',
            selection: '\u{258c}',
            queued: '\u{2503}',
            ellipsis: '\u{2026}',
            separator: '\u{2500}',
            spinner_chars: vec![
                '\u{280b}', '\u{2819}', '\u{2839}', '\u{2838}', '\u{283c}', '\u{2834}', '\u{2826}',
                '\u{2827}', '\u{2807}', '\u{280f}',
            ],
            matching_indicator: '\u{b7}',
        }
    }

    /// An ASCII-compatible character set.
    pub fn ascii() -> (r: Self)
        ensures
            r.prompt == '>',
            r.selection == '>',
            r.queued == '|',
            r.ellipsis == '.',
            r.separator == '-',
            r.spinner_chars@ == seq!['|', '|', '/', '/', '-', '-', '\\', '\\'],
            r.matching_indicator == '.',
    {
        Self {
            prompt: '>',
            selection: '>',
            queued: '|',
            ellipsis: '.',
            separator: '-',
            spinner_chars: vec!['|', '|', '/', '/', '-', '-', '\\', '\\'],
            matching_indicator: '.',
        }
    }
}

impl Default for PickerChars {
    fn default() -> (r: Self)
        ensures
            r.prompt == '>',
            r.selection == '\u{258c}',
            r.queued == '\u{2503}',
            r.ellipsis == '\u{2026}',
            r.separator == '\u{2500}',
            r.spinner_chars@ == seq![
                '\u{280b}', '\u{2819}', '\u{2839}', '\u{2838}', '\u{283c}', '\u{2834}', '\u{2826}',
                '\u{2827}', '\u{2807}', '\u{280f}',
            ],
            r.matching_indicator == '\u{b7}',
    {
        Self::new()
    }
}

} // verus!

