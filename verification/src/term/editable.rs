//! The query line of the terminal picker: an editable string whose cursor moves one grapheme
//! cluster or one Unicode word at a time, kept in view on a screen of fixed width.
use vstd::prelude::*;

use crate::component::editable::{even_trailing_backslashes, trailing_backslashes};
use crate::prompt::{
    concat, left_limit_of, normalize_char, normalize_prompt_string, padding_for, prompt_char,
    prompt_normalized, shift_left, shift_right, shift_to_end, start_of, view_left, view_right,
    visible, walk_to_end,
};
use crate::segment::{
    char_columns, char_width, cluster_lens, cluster_widths, cluster_start, clusters,
    lemma_cluster_start_bounds, lemma_word_starts_bound, text_width, width_of, word_positions,
    word_starts,
};
use crate::text::{chars_to_string, str_chars};
use crate::util::as_u16;

verus! {

/// Mutate a given string in-place, removing control characters and converting newlines, carriage
/// returns and TABs to ASCII space.
pub fn normalize_query_string(s: &mut String)
    ensures
        final(s)@ == prompt_normalized(old(s)@),
        prompt_normalized(final(s)@) == final(s)@,
{
    normalize_prompt_string(s);
}

/// An edit to apply to an [`EditableString`].
#[derive(Debug, PartialEq, Eq)]
pub enum Edit {
    /// Insert a [`char`] at the current cursor position.
    Insert(char),
    /// Delete a grapheme immediately preceding the current cursor position.
    Backspace,
    /// Delete the word immediately preceding the current cursor position.
    BackspaceWord,
    /// Delete a grapheme immediately following the current cursor position.
    Delete,
    /// Paste a [`String`] at the current cursor position.
    Paste(String),
    /// Move the cursor left.
    Left,
    /// Move the cursor left an entire word.
    WordLeft,
    /// Move the cursor right.
    Right,
    /// Move the cursor right an entire word.
    WordRight,
    /// Move the cursor to the start.
    ToStart,
    /// Move the cursor to the end.
    ToEnd,
    /// Delete everything before the cursor.
    ClearBefore,
    /// Delete everything after the cursor.
    ClearAfter,
}

/// A movement of the cursor.
enum CursorMovement {
    Left,
    WordLeft,
    Right,
    WordRight,
    ToStart,
    ToEnd,
}

/// The width a character is inserted with: that of a space for newlines, carriage returns and
/// tabs.
pub open spec fn insert_width(c: char) -> int {
    if c == '\n' || c == '\r' || c == '\t' {
        1
    } else {
        match char_columns(c) {
            Some(w) => w as int,
            None => 0,
        }
    }
}

/// Moving left over the grapheme cluster before the cursor.
pub open spec fn cluster_left(s: Seq<char>, pos: int, shift: int, pad: int) -> (int, int, bool) {
    let t = s.take(pos);
    let c = cluster_lens(t).len() as int;
    if c > 0 {
        let p = cluster_start(t, c - 1);
        (p, shift_left(s, p, shift, cluster_widths(t)[c - 1], pad), true)
    } else {
        (pos, shift, false)
    }
}

/// Moving left to the start of the last Unicode word before the cursor.
pub open spec fn word_left(s: Seq<char>, pos: int, shift: int, pad: int) -> (int, int, bool) {
    let ws = word_starts(s.take(pos));
    if ws.len() > 0 {
        let p = ws[ws.len() - 1];
        (p, shift_left(s, p, shift, text_width(s.subrange(p, pos)) as int, pad), true)
    } else {
        (pos, shift, false)
    }
}

/// Moving right over the grapheme cluster after the cursor.
pub open spec fn cluster_right(s: Seq<char>, pos: int, shift: int, limit: int) -> (int, int, bool) {
    let t = s.subrange(pos, s.len() as int);
    if cluster_lens(t).len() > 0 {
        (pos + cluster_lens(t)[0], shift_right(shift, cluster_widths(t)[0], limit), true)
    } else {
        (pos, shift, false)
    }
}

/// Moving right past the first Unicode word after the cursor, to the start of the next one (or
/// to the end).
pub open spec fn word_right(s: Seq<char>, pos: int, shift: int, limit: int) -> (int, int, bool) {
    let ws = word_starts(s.subrange(pos, s.len() as int));
    if ws.len() > 0 {
        let next = if ws.len() > 1 {
            pos + ws[1]
        } else {
            s.len() as int
        };
        (next, shift_right(shift, text_width(s.subrange(pos, next)) as int, limit), true)
    } else {
        (pos, shift, false)
    }
}

/// What applying `e` does to text `s` with the cursor at `pos` in screen column `shift`, on a
/// screen whose cursor column is limited to `limit` with padding `pad`: the new text, cursor,
/// screen column, and whether anything changed.
pub open spec fn edit_step(s: Seq<char>, pos: int, shift: int, limit: int, pad: int, e: Edit) -> (
    Seq<char>,
    int,
    int,
    bool,
) {
    match e {
        Edit::Left => {
            let m = cluster_left(s, pos, shift, pad);
            (s, m.0, m.1, m.2)
        },
        Edit::WordLeft => {
            let m = word_left(s, pos, shift, pad);
            (s, m.0, m.1, m.2)
        },
        Edit::Right => {
            let m = cluster_right(s, pos, shift, limit);
            (s, m.0, m.1, m.2)
        },
        Edit::WordRight => {
            let m = word_right(s, pos, shift, limit);
            (s, m.0, m.1, m.2)
        },
        Edit::ToStart => if pos == 0 {
            (s, pos, shift, false)
        } else {
            (s, 0, 0, true)
        },
        Edit::ToEnd => if pos == s.len() {
            (s, pos, shift, false)
        } else {
            (
                s,
                s.len() as int,
                shift_to_end(cluster_widths(s.subrange(pos, s.len() as int)), shift, limit),
                true,
            )
        },
        Edit::Insert(ch) => match prompt_char(ch) {
            Some(c) => (
                s.take(pos) + seq![c] + s.skip(pos),
                pos + 1,
                shift_right(shift, insert_width(ch), limit),
                true,
            ),
            None => (s, pos, shift, false),
        },
        Edit::Paste(q) => {
            let t = prompt_normalized(q@);
            (
                s.take(pos) + t + s.skip(pos),
                pos + t.len(),
                shift_right(shift, text_width(t) as int, limit),
                true,
            )
        },
        Edit::Backspace => {
            let m = cluster_left(s, pos, shift, pad);
            if m.2 {
                (s.take(m.0) + s.skip(pos), m.0, m.1, true)
            } else {
                (s, pos, shift, false)
            }
        },
        Edit::BackspaceWord => {
            let m = word_left(s, pos, shift, pad);
            if m.2 {
                (s.take(m.0) + s.skip(pos), m.0, m.1, true)
            } else {
                (s, pos, shift, false)
            }
        },
        Edit::ClearBefore => if pos == 0 {
            (s, pos, shift, false)
        } else {
            (s.skip(pos), 0, 0, true)
        },
        Edit::Delete => {
            let t = s.subrange(pos, s.len() as int);
            if cluster_lens(t).len() > 0 {
                (s.take(pos) + s.skip(pos + cluster_lens(t)[0]), pos, shift, true)
            } else {
                (s, pos, shift, false)
            }
        },
        Edit::ClearAfter => if pos == s.len() {
            (s, pos, shift, false)
        } else {
            (s.take(pos), pos, shift, true)
        },
    }
}

/// An editable query line.
#[derive(Debug)]
pub struct EditableString {
    contents: Vec<char>,
    offset: usize,
    screen_offset: u16,
    width: u16,
    left_padding: u16,
    right_padding: u16,
}

impl EditableString {
    /// The text.
    pub closed spec fn text(&self) -> Seq<char> {
        self.contents@
    }

    /// The cursor position, as a character index.
    pub closed spec fn pos(&self) -> int {
        self.offset as int
    }

    /// The screen column of the cursor.
    pub closed spec fn shift(&self) -> int {
        self.screen_offset as int
    }

    /// The width of the screen.
    pub closed spec fn cols(&self) -> u16 {
        self.width
    }

    /// The padding kept left and right of the cursor.
    pub closed spec fn pad(&self) -> int {
        self.left_padding as int
    }

    /// The largest screen column of the cursor.
    pub open spec fn limit(&self) -> int {
        self.cols() - self.pad()
    }

    /// The cursor lies within the text, its screen column within the limit, and the padding is
    /// less than half of the screen.
    pub closed spec fn wf(&self) -> bool {
        &&& self.offset <= self.contents@.len()
        &&& self.left_padding == self.right_padding
        &&& 2 * self.left_padding <= self.width
        &&& self.screen_offset <= self.width - self.right_padding
    }

    /// A well-formed query line has its cursor within the text.
    pub proof fn lemma_cursor_in_text(&self)
        requires
            self.wf(),
        ensures
            0 <= self.pos() <= self.text().len(),
    {
    }

    /// Create a new editable string with the provided screen width and padding.
    pub fn new(width: u16, padding: u16) -> (r: Self)
        ensures
            r.wf(),
            r.text() == Seq::<char>::empty(),
            r.pos() == 0,
            r.shift() == 0,
            r.cols() == width,
            r.pad() == padding_for(width, padding),
    {
        let half: u16 = if width == 0 {
            0
        } else {
            (width - 1) / 2
        };
        let prompt_padding = if padding <= half {
            padding
        } else {
            half
        };
        Self {
            contents: Vec::new(),
            offset: 0,
            screen_offset: 0,
            width,
            left_padding: prompt_padding,
            right_padding: prompt_padding,
        }
    }

    /// Whether or not the prompt is empty.
    pub fn is_empty(&self) -> (r: bool)
        ensures
            r == (self.text().len() == 0),
    {
        self.contents.len() == 0
    }

    /// The text from `a` to `b`.
    fn part(&self, a: usize, b: usize) -> (r: &[char])
        requires
            a <= b <= self.text().len(),
        ensures
            r@ == self.text().subrange(a as int, b as int),
    {
        vstd::slice::slice_subrange(self.contents.as_slice(), a, b)
    }

    /// The visible part of the text, and the number of columns hidden at the left edge of the
    /// screen when a wide grapheme cluster is cut there.
    pub fn view(&self) -> (r: (String, u16))
        requires
            self.wf(),
        ensures
            ({
                let before = self.text().take(self.pos());
                let after = self.text().skip(self.pos());
                let left = view_left(before, cluster_lens(before).len() as int, 0, self.shift());
                let right = self.pos() + view_right(after, 0, 0, self.cols() - self.shift());
                &&& r.0@ == self.text().subrange(left.0, right)
                &&& r.1 == left.1
            }),
    {
        visible(self.contents.as_slice(), self.offset, self.screen_offset, self.width)
    }

    /// Resize the screen, adjusting the padding and the screen column of the cursor.
    pub fn resize(&mut self, width: u16, padding: u16)
        requires
            old(self).wf(),
        ensures
            final(self).wf(),
            final(self).text() == old(self).text(),
            final(self).pos() == old(self).pos(),
            final(self).cols() == width,
            final(self).pad() == padding_for(width, padding),
            final(self).shift() == if old(self).shift() <= width - padding_for(width, padding) {
                old(self).shift()
            } else {
                width - padding_for(width, padding)
            },
    {
        let half: u16 = if width == 0 {
            0
        } else {
            (width - 1) / 2
        };
        let prompt_padding = if padding <= half {
            padding
        } else {
            half
        };
        let limit = width - prompt_padding;
        self.left_padding = prompt_padding;
        self.right_padding = prompt_padding;
        self.width = width;
        if self.screen_offset > limit {
            self.screen_offset = limit;
        }
    }

    /// Get the cursor offset within the screen.
    pub fn screen_offset(&self) -> (r: u16)
        ensures
            r == self.shift(),
    {
        self.screen_offset
    }

    /// Get the contents of the prompt.
    pub fn contents(&self) -> (r: String)
        ensures
            r@ == self.text(),
    {
        chars_to_string(self.contents.as_slice())
    }

    /// Replace the text (as given, without normalizing it) and move the cursor to the end; the
    /// screen column is left as it was.
    pub fn set_prompt(&mut self, prompt: String)
        requires
            old(self).wf(),
        ensures
            final(self).wf(),
            final(self).text() == prompt@,
            final(self).pos() == prompt@.len(),
            final(self).shift() == old(self).shift(),
            final(self).cols() == old(self).cols(),
            final(self).pad() == old(self).pad(),
    {
        self.contents = str_chars(prompt.as_str());
        self.offset = self.contents.len();
    }

    /// Increase the screen offset by the provided width, without exceeding the maximum offset.
    fn increase_by_width(&mut self, width: usize)
        requires
            old(self).wf(),
        ensures
            final(self).wf(),
            final(self).shift() == shift_right(old(self).shift(), width as int, old(self).limit()),
            final(self).text() == old(self).text(),
            final(self).pos() == old(self).pos(),
            final(self).cols() == old(self).cols(),
            final(self).pad() == old(self).pad(),
    {
        let limit = self.width - self.right_padding;
        let moved = self.screen_offset.saturating_add(as_u16(width));
        self.screen_offset = if moved <= limit {
            moved
        } else {
            limit
        };
    }

    /// Insert characters at the cursor position, moving the cursor past them.
    fn insert(&mut self, ins: &[char])
        requires
            old(self).wf(),
        ensures
            final(self).wf(),
            final(self).text() == old(self).text().take(old(self).pos()) + ins@ + old(
                self,
            ).text().skip(old(self).pos()),
            final(self).pos() == old(self).pos() + ins@.len(),
            final(self).shift() == old(self).shift(),
            final(self).cols() == old(self).cols(),
            final(self).pad() == old(self).pad(),
    {
        let len = self.contents.len();
        let head = concat(self.part(0, self.offset), ins);
        let v = concat(head.as_slice(), self.part(self.offset, len));
        let nl = v.len();
        assert(v@ =~= old(self).text().take(old(self).pos()) + ins@ + old(self).text().skip(
            old(self).pos(),
        ));
        self.contents = v;
        self.offset = self.offset + ins.len();
    }

    /// The screen column after moving the cursor left to `pos` by `width` columns.
    fn move_left(&self, pos: usize, width: usize) -> (r: u16)
        requires
            self.wf(),
            pos <= self.text().len(),
        ensures
            r == shift_left(self.text(), pos as int, self.shift(), width as int, self.pad()),
            r <= self.limit(),
    {
        let t = self.part(0, pos);
        assert(t@ == self.text().take(pos as int));
        let low = left_limit_of(t, self.left_padding);
        let moved = self.screen_offset.saturating_sub(as_u16(width));
        if moved >= low {
            moved
        } else {
            low
        }
    }

    /// Move the cursor.
    fn move_cursor(&mut self, cm: CursorMovement) -> (r: bool)
        requires
            old(self).wf(),
        ensures
            final(self).wf(),
            final(self).text() == old(self).text(),
            final(self).cols() == old(self).cols(),
            final(self).pad() == old(self).pad(),
            (cm is Left || cm is WordLeft) ==> final(self).pos() <= old(self).pos(),
            (final(self).pos(), final(self).shift(), r) == match cm {
                CursorMovement::Left => cluster_left(
                    old(self).text(),
                    old(self).pos(),
                    old(self).shift(),
                    old(self).pad(),
                ),
                CursorMovement::WordLeft => word_left(
                    old(self).text(),
                    old(self).pos(),
                    old(self).shift(),
                    old(self).pad(),
                ),
                CursorMovement::Right => cluster_right(
                    old(self).text(),
                    old(self).pos(),
                    old(self).shift(),
                    old(self).limit(),
                ),
                CursorMovement::WordRight => word_right(
                    old(self).text(),
                    old(self).pos(),
                    old(self).shift(),
                    old(self).limit(),
                ),
                CursorMovement::ToStart => if old(self).pos() == 0 {
                    (old(self).pos(), old(self).shift(), false)
                } else {
                    (0, 0, true)
                },
                CursorMovement::ToEnd => if old(self).pos() == old(self).text().len() {
                    (old(self).pos(), old(self).shift(), false)
                } else {
                    (
                        old(self).text().len() as int,
                        shift_to_end(
                            cluster_widths(
                                old(self).text().subrange(
                                    old(self).pos(),
                                    old(self).text().len() as int,
                                ),
                            ),
                            old(self).shift(),
                            old(self).limit(),
                        ),
                        true,
                    )
                },
            },
    {
        let len = self.contents.len();
        match cm {
            CursorMovement::Left => {
                let t = self.part(0, self.offset);
                assert(t@ == self.text().take(self.pos()));
                let (lens, widths) = clusters(t);
                let c = lens.len();
                if c > 0 {
                    let new_offset = start_of(t, &lens, c - 1);
                    let so = self.move_left(new_offset, widths[c - 1]);
                    self.offset = new_offset;
                    self.screen_offset = so;
                    true
                } else {
                    false
                }
            },
            CursorMovement::WordLeft => {
                let t = self.part(0, self.offset);
                assert(t@ == self.text().take(self.pos()));
                let ws = word_positions(t);
                let c = ws.len();
                if c > 0 {
                    proof {
                        lemma_word_starts_bound(t@, c - 1);
                    }
                    let new_offset = ws[c - 1];
                    let step_width = width_of(self.part(new_offset, self.offset));
                    let so = self.move_left(new_offset, step_width);
                    self.offset = new_offset;
                    self.screen_offset = so;
                    true
                } else {
                    false
                }
            },
            CursorMovement::Right => {
                let t = self.part(self.offset, len);
                let (lens, widths) = clusters(t);
                if lens.len() > 0 {
                    proof {
                        lemma_cluster_start_bounds(t@, 0, 1);
                        crate::segment::lemma_int_sum_take(cluster_lens(t@), 0);
                        assert(cluster_lens(t@).take(0) =~= Seq::<int>::empty());
                    }
                    self.offset = self.offset + lens[0];
                    self.increase_by_width(widths[0]);
                    true
                } else {
                    false
                }
            },
            CursorMovement::WordRight => {
                let t = self.part(self.offset, len);
                let ws = word_positions(t);
                if ws.len() > 0 {
                    let next_offset = if ws.len() > 1 {
                        proof {
                            lemma_word_starts_bound(t@, 1);
                        }
                        self.offset + ws[1]
                    } else {
                        len
                    };
                    let step_width = width_of(self.part(self.offset, next_offset));
                    self.offset = next_offset;
                    self.increase_by_width(step_width);
                    true
                } else {
                    false
                }
            },
            CursorMovement::ToStart => {
                if self.offset == 0 {
                    false
                } else {
                    self.offset = 0;
                    self.screen_offset = 0;
                    true
                }
            },
            CursorMovement::ToEnd => {
                if self.offset == len {
                    false
                } else {
                    let limit = self.width - self.right_padding;
                    let so = walk_to_end(self.part(self.offset, len), self.screen_offset, limit);
                    self.screen_offset = so;
                    self.offset = len;
                    true
                }
            },
        }
    }

    /// Remove the characters from `a` to `b`.
    fn remove_range(&mut self, a: usize, b: usize)
        requires
            old(self).wf(),
            a <= b <= old(self).text().len(),
            old(self).pos() <= a + old(self).text().len() - b,
        ensures
            final(self).wf(),
            final(self).text() == old(self).text().take(a as int) + old(self).text().skip(b as int),
            final(self).pos() == old(self).pos(),
            final(self).shift() == old(self).shift(),
            final(self).cols() == old(self).cols(),
            final(self).pad() == old(self).pad(),
    {
        let len = self.contents.len();
        let v = concat(self.part(0, a), self.part(b, len));
        assert(self.text().subrange(0, a as int) == self.text().take(a as int));
        assert(self.text().subrange(b as int, len as int) == self.text().skip(b as int));
        self.contents = v;
    }

    /// Edit the editable string; see `edit_step` for what each edit does. Returns whether
    /// anything changed.
    pub fn edit(&mut self, e: Edit) -> (r: bool)
        requires
            old(self).wf(),
        ensures
            final(self).wf(),
            final(self).cols() == old(self).cols(),
            final(self).pad() == old(self).pad(),
            (final(self).text(), final(self).pos(), final(self).shift(), r) == edit_step(
                old(self).text(),
                old(self).pos(),
                old(self).shift(),
                old(self).limit(),
                old(self).pad(),
                e,
            ),
    {
        match e {
            Edit::Left => self.move_cursor(CursorMovement::Left),
            Edit::WordLeft => self.move_cursor(CursorMovement::WordLeft),
            Edit::Right => self.move_cursor(CursorMovement::Right),
            Edit::WordRight => self.move_cursor(CursorMovement::WordRight),
            Edit::ToStart => self.move_cursor(CursorMovement::ToStart),
            Edit::ToEnd => self.move_cursor(CursorMovement::ToEnd),
            Edit::Insert(ch) => {
                match normalize_char(ch) {
                    Some(c) => {
                        let w: usize = if ch == '\n' || ch == '\r' || ch == '\t' {
                            1
                        } else {
                            match char_width(ch) {
                                Some(w) => w,
                                None => 0,
                            }
                        };
                        let v = vec![c];
                        assert(v@ =~= seq![c]);
                        self.insert(v.as_slice());
                        self.increase_by_width(w);
                        true
                    },
                    None => false,
                }
            },
            Edit::Paste(s) => {
                let mut s = s;
                normalize_prompt_string(&mut s);
                let chars = str_chars(s.as_str());
                let w = width_of(chars.as_slice());
                self.insert(chars.as_slice());
                self.increase_by_width(w);
                true
            },
            Edit::Backspace => {
                let delete_until = self.offset;
                if self.move_cursor(CursorMovement::Left) {
                    let start = self.offset;
                    self.remove_range(start, delete_until);
                    true
                } else {
                    false
                }
            },
            Edit::BackspaceWord => {
                let delete_until = self.offset;
                if self.move_cursor(CursorMovement::WordLeft) {
                    let start = self.offset;
                    self.remove_range(start, delete_until);
                    true
                } else {
                    false
                }
            },
            Edit::ClearBefore => {
                if self.offset == 0 {
                    false
                } else {
                    let start = self.offset;
                    self.offset = 0;
                    self.screen_offset = 0;
                    self.remove_range(0, start);
                    assert(self.text() =~= old(self).text().skip(old(self).pos()));
                    true
                }
            },
            Edit::Delete => {
                let len = self.contents.len();
                let t = self.part(self.offset, len);
                let (lens, _) = clusters(t);
                if lens.len() > 0 {
                    proof {
                        lemma_cluster_start_bounds(t@, 0, 1);
                        crate::segment::lemma_int_sum_take(cluster_lens(t@), 0);
                        assert(cluster_lens(t@).take(0) =~= Seq::<int>::empty());
                    }
                    let start = self.offset;
                    let end = self.offset + lens[0];
                    self.remove_range(start, end);
                    true
                } else {
                    false
                }
            },
            Edit::ClearAfter => {
                let len = self.contents.len();
                if self.offset == len {
                    false
                } else {
                    let start = self.offset;
                    self.remove_range(start, len);
                    assert(self.text() =~= old(self).text().take(old(self).pos()));
                    true
                }
            },
        }
    }

    /// Are we in an "appending" state? This is the case if the cursor is at the end of the string
    /// and the string does not end in an unescaped backslash.
    pub fn is_appending(&self) -> (r: bool)
        ensures
            r == (self.pos() == self.text().len() && trailing_backslashes(self.text()) % 2 == 0),
    {
        self.offset == self.contents.len() && even_trailing_backslashes(self.contents.as_slice())
    }
}

} // verus!
