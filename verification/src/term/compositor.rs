//! The decisions of the terminal compositor: what each terminal event does to the query line, the
//! selection and the screen dimensions, and how a batch of events ends.
use vstd::prelude::*;

use super::editable::{edit_step, Edit, EditableString};
use crate::component::editable::trailing_backslashes;
use super::{Dimensions, EventSummary};
use crate::incremental::seq_sum;
use crate::prompt::{prompt_char, prompt_normalized};
use crate::segment::{cluster_lens, cluster_start, lemma_word_starts_bound, word_starts};

verus! {

/// An event of the terminal compositor.
pub enum TermEvent {
    /// Abort at the user's request.
    Abort,
    /// Move the cursor to the start of the query.
    MoveToStart,
    /// Move the cursor to the end of the query.
    MoveToEnd,
    /// Insert a character.
    Insert(char),
    /// Select the current item.
    Select,
    /// Move the selection up.
    MoveUp,
    /// Move the selection down.
    MoveDown,
    /// Move the cursor left.
    MoveLeft,
    /// Move the cursor a word left.
    MoveWordLeft,
    /// Move the cursor right.
    MoveRight,
    /// Move the cursor a word right.
    MoveWordRight,
    /// Delete the grapheme before the cursor.
    Backspace,
    /// Delete the word before the cursor.
    BackspaceWord,
    /// Delete everything before the cursor.
    ClearBefore,
    /// Delete the grapheme after the cursor.
    Delete,
    /// Delete everything after the cursor.
    ClearAfter,
    /// Quit without selecting.
    Quit,
    /// Quit without selecting if the query is empty.
    QuitIfEmpty,
    /// The screen was resized to `(width, height)`.
    Resize(u16, u16),
    /// Paste text.
    Paste(String),
}

/// What the compositor does after an event.
pub enum TermStep {
    /// Take the next event.
    Continue,
    /// Abort at the user's request.
    Abort,
    /// Stop with this summary.
    Finish(EventSummary),
}

/// The part of the compositor that events change.
pub struct CompositorState {
    /// The query line.
    pub prompt: EditableString,
    /// The screen dimensions.
    pub dimensions: Dimensions,
    /// The selected match.
    pub selection: usize,
    /// The number of matches.
    pub matched_item_count: u32,
    /// Whether the screen must be redrawn.
    pub needs_redraw: bool,
    /// The configured scroll padding.
    pub scroll_padding: u16,
    /// The configured padding of the query line.
    pub prompt_padding: u16,
}

/// The edit of the query line that an event makes, if any.
pub open spec fn term_edit(e: TermEvent) -> Option<Edit> {
    match e {
        TermEvent::MoveToStart => Some(Edit::ToStart),
        TermEvent::MoveToEnd => Some(Edit::ToEnd),
        TermEvent::Insert(c) => Some(Edit::Insert(c)),
        TermEvent::MoveLeft => Some(Edit::Left),
        TermEvent::MoveWordLeft => Some(Edit::WordLeft),
        TermEvent::MoveRight => Some(Edit::Right),
        TermEvent::MoveWordRight => Some(Edit::WordRight),
        TermEvent::Backspace => Some(Edit::Backspace),
        TermEvent::BackspaceWord => Some(Edit::BackspaceWord),
        TermEvent::ClearBefore => Some(Edit::ClearBefore),
        TermEvent::Delete => Some(Edit::Delete),
        TermEvent::ClearAfter => Some(Edit::ClearAfter),
        TermEvent::Paste(s) => Some(Edit::Paste(s)),
        _ => None,
    }
}

/// Whether an edit removes text: after it, the query is no longer an extension of the one the
/// matcher last saw.
pub open spec fn removes(e: TermEvent) -> bool {
    e is Backspace || e is BackspaceWord || e is ClearBefore || e is Delete || e is ClearAfter
}

/// Whether an edit adds text.
pub open spec fn adds(e: TermEvent) -> bool {
    e is Insert || e is Paste
}

/// The query line `new` is `old` after the edit `e`, which reported `changed`.
pub open spec fn edited(old: EditableString, new: EditableString, e: Edit, changed: bool) -> bool {
    &&& new.wf()
    &&& new.cols() == old.cols()
    &&& new.pad() == old.pad()
    &&& (new.text(), new.pos(), new.shift(), changed) == edit_step(
        old.text(),
        old.pos(),
        old.shift(),
        old.limit(),
        old.pad(),
        e,
    )
}

/// What the cursor movements of the compositor do to the query line `old`, giving `new`: no
/// movement changes the text; a move to the start puts the cursor at 0 and a move to the end at
/// the end of the text; a move a word left never moves the cursor right, and when it moves, the
/// cursor lands on the start of the last Unicode word before it (with no such word it stays);
/// a move a word right never moves it left nor past the end, and lands on the start of the
/// second word after it, or the end of the text.
pub proof fn law_compositor_moves(old: EditableString, new: EditableString, e: TermEvent, changed: bool)
    requires
        old.wf(),
        term_edit(e) is Some,
        edited(old, new, term_edit(e)->0, changed),
    ensures
        (e is MoveLeft || e is MoveWordLeft || e is MoveRight || e is MoveWordRight || e is MoveToStart
            || e is MoveToEnd) ==> new.text() == old.text(),
        e is MoveToStart ==> new.pos() == 0 && changed == (old.pos() != 0),
        e is MoveToEnd ==> new.pos() == old.text().len() && changed == (old.pos() != old.text().len()),
        e is MoveWordLeft ==> {
            let ws = word_starts(old.text().take(old.pos()));
            &&& new.pos() <= old.pos()
            &&& changed == (ws.len() > 0)
            &&& changed ==> new.pos() == ws[ws.len() - 1]
            &&& !changed ==> new.pos() == old.pos()
        },
        e is MoveWordRight ==> {
            let ws = word_starts(old.text().subrange(old.pos(), old.text().len() as int));
            &&& old.pos() <= new.pos() <= old.text().len()
            &&& changed == (ws.len() > 0)
            &&& changed && ws.len() > 1 ==> new.pos() == old.pos() + ws[1]
            &&& changed && ws.len() <= 1 ==> new.pos() == old.text().len()
            &&& !changed ==> new.pos() == old.pos()
        },
        (e is MoveLeft || e is MoveRight) && !changed ==> new.pos() == old.pos(),
        e is MoveLeft ==> {
            let t = old.text().take(old.pos());
            let c = cluster_lens(t).len() as int;
            &&& changed == (c > 0)
            &&& changed ==> new.pos() == cluster_start(t, c - 1)
        },
        e is MoveRight ==> {
            let t = old.text().subrange(old.pos(), old.text().len() as int);
            &&& changed == (cluster_lens(t).len() > 0)
            &&& changed ==> new.pos() == old.pos() + cluster_lens(t)[0]
        },
{
    old.lemma_cursor_in_text();
    let s = old.text();
    let pos = old.pos();
    if e is MoveWordLeft {
        let ws = word_starts(s.take(pos));
        if ws.len() > 0 {
            lemma_word_starts_bound(s.take(pos), ws.len() - 1);
        }
    }
    if e is MoveWordRight {
        let t = s.subrange(pos, s.len() as int);
        let ws = word_starts(t);
        if ws.len() > 1 {
            lemma_word_starts_bound(t, 1);
        }
    }
}

/// What the editing events of the compositor do to the query line `old`, giving `new`: an
/// inserted character that is kept (see `prompt_char`) goes in at the cursor, which moves past
/// it; a paste puts its normalized text in at the cursor, which moves past it; clearing before
/// the cursor keeps the text after it and puts the cursor at 0; clearing after keeps the text
/// before it and the cursor; deleting backwards (a grapheme or a word) removes the text between
/// the new and the old cursor, and a word is removed only back to a word start, never forward;
/// deleting forwards keeps the cursor and the text before it.
pub proof fn law_compositor_edits(old: EditableString, new: EditableString, e: TermEvent, changed: bool)
    requires
        old.wf(),
        term_edit(e) is Some,
        edited(old, new, term_edit(e)->0, changed),
    ensures
        ({
            let s = old.text();
            let pos = old.pos();
            &&& e matches TermEvent::Insert(ch) ==> match prompt_char(ch) {
                Some(c) => new.text() == s.take(pos) + seq![c] + s.skip(pos) && new.pos() == pos + 1
                    && changed,
                None => new.text() == s && new.pos() == pos && !changed,
            }
            &&& e matches TermEvent::Paste(q) ==> new.text() == s.take(pos) + prompt_normalized(q@)
                + s.skip(pos) && new.pos() == pos + prompt_normalized(q@).len()
            &&& e is ClearBefore ==> new.pos() == 0 && if pos == 0 {
                new.text() == s && !changed
            } else {
                new.text() == s.skip(pos) && changed
            }
            &&& e is ClearAfter ==> new.pos() == pos && new.text() == s.take(pos) && changed == (pos
                != s.len())
            &&& (e is Backspace || e is BackspaceWord) ==> new.text() == s.take(new.pos()) + s.skip(pos)
                || (!changed && new.text() == s && new.pos() == pos)
            &&& e is BackspaceWord ==> new.pos() <= pos && (changed ==> new.pos() == word_starts(
                s.take(pos)).last())
            &&& e is Delete ==> new.pos() == pos && new.text().take(pos) == s.take(pos)
            &&& e is Delete ==> {
                let t = s.subrange(pos, s.len() as int);
                &&& changed == (cluster_lens(t).len() > 0)
                &&& changed ==> new.text() == s.take(pos) + s.skip(pos + cluster_lens(t)[0])
                &&& !changed ==> new.text() == s
            }
            &&& e is Backspace ==> {
                let t = s.take(pos);
                let c = cluster_lens(t).len() as int;
                &&& changed == (c > 0)
                &&& changed ==> new.pos() == cluster_start(t, c - 1) && new.text() == s.take(
                    new.pos(),
                ) + s.skip(pos)
                &&& !changed ==> new.text() == s && new.pos() == pos
            }
        }),
{
    old.lemma_cursor_in_text();
    let s = old.text();
    let pos = old.pos();
    if e is BackspaceWord {
        let ws = word_starts(s.take(pos));
        if ws.len() > 0 {
            lemma_word_starts_bound(s.take(pos), ws.len() - 1);
            let p = ws[ws.len() - 1];
            assert((s.take(p) + s.skip(pos)).take(p) =~= s.take(p));
        }
    }
    if e is Delete {
        let t = s.subrange(pos, s.len() as int);
        assert((s.take(pos) + s.skip(pos + crate::segment::cluster_lens(t)[0])).take(pos) =~= s.take(
            pos,
        ));
    }
    if e is ClearBefore && pos == 0 {
        assert(s.skip(0) =~= s);
    }
}

/// The last selection among `count` matches.
pub open spec fn last_selection(count: u32) -> int {
    if count >= 1 {
        count - 1
    } else {
        0
    }
}

/// How a batch of events ends when no event stopped it: the query was updated (and whether only
/// by appending) or nothing changed.
pub fn batch_summary(update_prompt: bool, append: bool) -> (r: EventSummary)
    ensures
        update_prompt ==> r == EventSummary::UpdatePrompt(append),
        !update_prompt ==> r is Continue,
{
    if update_prompt {
        EventSummary::UpdatePrompt(append)
    } else {
        EventSummary::Continue
    }
}

impl CompositorState {
    /// Apply an edit to the query line, marking a redraw when it changed.
    fn edit_prompt(&mut self, e: Edit) -> (r: bool)
        requires
            old(self).prompt.wf(),
        ensures
            edited(old(self).prompt, final(self).prompt, e, r),
            final(self).needs_redraw == (old(self).needs_redraw || r),
            final(self).selection == old(self).selection,
            final(self).matched_item_count == old(self).matched_item_count,
            final(self).dimensions == old(self).dimensions,
            final(self).scroll_padding == old(self).scroll_padding,
            final(self).prompt_padding == old(self).prompt_padding,
    {
        let changed = self.prompt.edit(e);
        self.needs_redraw = self.needs_redraw || changed;
        changed
    }

    /// Take one terminal event. `update_prompt` gathers whether the query changed and `append`
    /// whether every change so far only appended to it.
    pub fn step(&mut self, update_prompt: &mut bool, append: &mut bool, e: TermEvent) -> (r: TermStep)
        requires
            old(self).prompt.wf(),
        ensures
            final(self).prompt.wf(),
            final(self).matched_item_count == old(self).matched_item_count,
            final(self).scroll_padding == old(self).scroll_padding,
            final(self).prompt_padding == old(self).prompt_padding,
            match term_edit(e) {
                Some(ed) => exists|changed: bool|
                    {
                        &&& edited(old(self).prompt, final(self).prompt, ed, changed)
                        &&& r is Continue
                        &&& final(self).needs_redraw == (old(self).needs_redraw || changed)
                        &&& final(self).selection == old(self).selection
                        &&& final(self).dimensions == old(self).dimensions
                        &&& adds(e) ==> *final(update_prompt) == (*old(update_prompt) || changed)
                            && *final(append) == (*old(append) && old(self).prompt.pos()
                            == old(self).prompt.text().len() && trailing_backslashes(
                            old(self).prompt.text()) % 2 == 0)
                        &&& removes(e) ==> *final(update_prompt) == (*old(update_prompt) || changed)
                            && *final(append) == (*old(append) && !changed)
                        &&& !adds(e) && !removes(e) ==> *final(update_prompt) == *old(update_prompt)
                            && *final(append) == *old(append)
                    },
                None => {
                    &&& *final(update_prompt) == *old(update_prompt)
                    &&& *final(append) == *old(append)
                    &&& match e {
                        TermEvent::Abort => r is Abort && final(self).prompt == old(self).prompt,
                        TermEvent::Select => r == TermStep::Finish(EventSummary::Select),
                        TermEvent::Quit => r == TermStep::Finish(EventSummary::Quit),
                        TermEvent::QuitIfEmpty => if old(self).prompt.text().len() == 0 {
                            r == TermStep::Finish(EventSummary::Quit)
                        } else {
                            r is Continue
                        },
                        TermEvent::MoveUp => {
                            &&& r is Continue
                            &&& final(self).prompt == old(self).prompt
                            &&& if old(self).selection < last_selection(old(self).matched_item_count) {
                                final(self).selection == old(self).selection + 1
                                    && final(self).needs_redraw
                            } else {
                                final(self).selection == old(self).selection
                                    && final(self).needs_redraw == old(self).needs_redraw
                            }
                        },
                        TermEvent::MoveDown => {
                            &&& r is Continue
                            &&& final(self).prompt == old(self).prompt
                            &&& if old(self).selection > 0 {
                                final(self).selection == old(self).selection - 1
                                    && final(self).needs_redraw
                            } else {
                                final(self).selection == old(self).selection
                                    && final(self).needs_redraw == old(self).needs_redraw
                            }
                        },
                        TermEvent::Resize(w, h) => {
                            &&& r is Continue
                            &&& final(self).needs_redraw
                            &&& final(self).dimensions.width == w
                            &&& final(self).dimensions.height == h
                            &&& final(self).dimensions.scroll_padding_bottom
                                == final(self).dimensions.scroll_padding_top
                            &&& final(self).dimensions.scroll_padding_top == if old(self).scroll_padding
                                <= (if h >= 3 { h - 3 } else { 0 }) / 2 {
                                old(self).scroll_padding as int
                            } else {
                                (if h >= 3 { h - 3 } else { 0 }) / 2
                            }
                            &&& final(self).prompt.text() == old(self).prompt.text()
                            &&& final(self).prompt.pos() == old(self).prompt.pos()
                            &&& final(self).prompt.cols() == (if w >= 2 { w - 2 } else { 0 })
                        },
                        _ => true,
                    }
                },
            },
    {
        match e {
            TermEvent::Abort => TermStep::Abort,
            TermEvent::Select => TermStep::Finish(EventSummary::Select),
            TermEvent::Quit => TermStep::Finish(EventSummary::Quit),
            TermEvent::QuitIfEmpty => {
                if self.prompt.is_empty() {
                    TermStep::Finish(EventSummary::Quit)
                } else {
                    TermStep::Continue
                }
            },
            TermEvent::MoveUp => {
                let last = if self.matched_item_count >= 1 { self.matched_item_count - 1 } else { 0 };
                if (self.selection as u64) < (last as u64) {
                    self.needs_redraw = true;
                    self.selection = self.selection + 1;
                }
                TermStep::Continue
            },
            TermEvent::MoveDown => {
                if self.selection > 0 {
                    self.needs_redraw = true;
                    self.selection = self.selection - 1;
                }
                TermStep::Continue
            },
            TermEvent::Resize(width, height) => {
                self.needs_redraw = true;
                self.dimensions = Dimensions::from_screen(self.scroll_padding, width, height);
                let w = self.dimensions.max_prompt_width();
                self.prompt.resize(w, self.prompt_padding);
                TermStep::Continue
            },
            TermEvent::Insert(ch) => {
                *append = *append && self.prompt.is_appending();
                let changed = self.edit_prompt(Edit::Insert(ch));
                *update_prompt = *update_prompt || changed;
                TermStep::Continue
            },
            TermEvent::Paste(s) => {
                *append = *append && self.prompt.is_appending();
                let changed = self.edit_prompt(Edit::Paste(s));
                *update_prompt = *update_prompt || changed;
                TermStep::Continue
            },
            TermEvent::MoveToStart => {
                self.edit_prompt(Edit::ToStart);
                TermStep::Continue
            },
            TermEvent::MoveToEnd => {
                self.edit_prompt(Edit::ToEnd);
                TermStep::Continue
            },
            TermEvent::MoveLeft => {
                self.edit_prompt(Edit::Left);
                TermStep::Continue
            },
            TermEvent::MoveWordLeft => {
                self.edit_prompt(Edit::WordLeft);
                TermStep::Continue
            },
            TermEvent::MoveRight => {
                self.edit_prompt(Edit::Right);
                TermStep::Continue
            },
            TermEvent::MoveWordRight => {
                self.edit_prompt(Edit::WordRight);
                TermStep::Continue
            },
            TermEvent::Backspace => self.removing(update_prompt, append, Edit::Backspace),
            TermEvent::BackspaceWord => self.removing(update_prompt, append, Edit::BackspaceWord),
            TermEvent::ClearBefore => self.removing(update_prompt, append, Edit::ClearBefore),
            TermEvent::Delete => self.removing(update_prompt, append, Edit::Delete),
            TermEvent::ClearAfter => self.removing(update_prompt, append, Edit::ClearAfter),
        }
    }

    /// An edit that removes text: when it changed the query, the query is updated and no longer
    /// only appended to.
    fn removing(&mut self, update_prompt: &mut bool, append: &mut bool, e: Edit) -> (r: TermStep)
        requires
            old(self).prompt.wf(),
        ensures
            exists|changed: bool|
                {
                    &&& edited(old(self).prompt, final(self).prompt, e, changed)
                    &&& final(self).needs_redraw == (old(self).needs_redraw || changed)
                    &&& *final(update_prompt) == (*old(update_prompt) || changed)
                    &&& *final(append) == (*old(append) && !changed)
                },
            r is Continue,
            final(self).selection == old(self).selection,
            final(self).matched_item_count == old(self).matched_item_count,
            final(self).dimensions == old(self).dimensions,
            final(self).scroll_padding == old(self).scroll_padding,
            final(self).prompt_padding == old(self).prompt_padding,
    {
        if self.edit_prompt(e) {
            *update_prompt = true;
            *append = false;
        }
        TermStep::Continue
    }
}

/// The line counts of the drawn items in the order they are drawn, from the bottom of the match
/// area up: the items below the selection from the farthest, the selection, then the items above
/// it from the nearest. `below` holds the selection and the items below it, nearest first.
pub open spec fn draw_order(below: Seq<usize>, above: Seq<usize>) -> Seq<usize> {
    Seq::new(
        below.len() + above.len(),
        |k: int|
            if k < below.len() {
                below[below.len() - 1 - k]
            } else {
                above[k - below.len()]
            },
    )
}

/// The screen row at which an item is drawn when `lines` lines have been drawn up to and
/// including it, in a match area `height` rows high (0 where that would be above the screen).
pub open spec fn row_for(height: int, lines: int) -> int {
    if lines >= height {
        0
    } else {
        height - lines
    }
}

/// An item of the match list as the compositor draws it.
pub struct DrawnItem {
    /// The index of the match.
    pub index: u32,
    /// The screen row at which it is drawn.
    pub row: u16,
    /// The number of lines drawn of it.
    pub lines: usize,
    /// Whether it is the selection.
    pub selected: bool,
    /// Whether its first lines are drawn (below and at the selection) rather than its last ones.
    pub first_lines: bool,
}

/// The items to draw, in drawing order (see `draw_order`), with their match indices and screen
/// rows: the first is `below.len() - 1` matches before the selection, and each follows the one
/// before; each is drawn at the row reached after the lines drawn so far, counted up from the
/// bottom of a match area `height` rows high.
pub fn draw_layout(selection: u32, height: u16, below: &[usize], above: &[usize]) -> (r: Vec<DrawnItem>)
    requires
        1 <= below@.len() <= selection + 1,
        selection + above@.len() <= u32::MAX,
        below@.len() + above@.len() <= usize::MAX,
    ensures
        r@.len() == below@.len() + above@.len(),
        forall|k: int|
            0 <= k < r@.len() ==> {
                let d = #[trigger] r@[k];
                &&& d.index == selection + 1 - below@.len() + k
                &&& d.lines == draw_order(below@, above@)[k]
                &&& d.row == row_for(height as int, seq_sum(draw_order(below@, above@).take(k + 1)))
                &&& d.selected == (k == below@.len() - 1)
                &&& d.first_lines == (k < below@.len())
            },
{
    let ghost order = draw_order(below@, above@);
    let bl = below.len();
    let n = bl + above.len();
    let first = selection - (bl - 1) as u32;
    let mut out: Vec<DrawnItem> = Vec::new();
    let mut drawn: usize = 0;
    let mut k: usize = 0;
    while k < n
        invariant
            n == order.len(),
            bl == below@.len(),
            order == draw_order(below@, above@),
            1 <= bl <= selection + 1,
            selection + above@.len() <= u32::MAX,
            first == selection + 1 - bl,
            k <= n,
            drawn == if seq_sum(order.take(k as int)) <= usize::MAX {
                seq_sum(order.take(k as int))
            } else {
                usize::MAX as int
            },
            out@.len() == k,
            forall|j: int|
                0 <= j < k ==> {
                    let d = #[trigger] out@[j];
                    &&& d.index == selection + 1 - bl + j
                    &&& d.lines == order[j]
                    &&& d.row == row_for(height as int, seq_sum(order.take(j + 1)))
                    &&& d.selected == (j == bl - 1)
                    &&& d.first_lines == (j < bl)
                },
        decreases n - k,
    {
        let lines = if k < bl {
            below[bl - 1 - k]
        } else {
            above[k - bl]
        };
        proof {
            assert(order.take(k + 1).drop_last() =~= order.take(k as int));
            assert(order.take(k + 1).last() == order[k as int]);
            crate::incremental::lemma_seq_sum_nonneg(order.take(k as int));
        }
        drawn = drawn.saturating_add(lines);
        let row = if drawn >= height as usize {
            0
        } else {
            height - drawn as u16
        };
        out.push(DrawnItem { index: first + k as u32, row, lines, selected: k == bl - 1, first_lines: k < bl });
        k = k + 1;
    }
    out
}

} // verus!
