//! An editable string with a windowed cursor.
use vstd::prelude::*;

use super::{Cursor, WindowView};
use crate::component::cursor::adjusted_offset;
use crate::text::{chars_to_string, push_char, str_chars};

verus! {

/// Whether a character is an ASCII control character (`U+0000..=U+001F` or `U+007F`).
pub open spec fn is_ascii_control(c: char) -> bool {
    (c as u32) <= 0x1f || (c as u32) == 0x7f
}

/// Whether a character is an ASCII control character.
pub fn ascii_control(c: char) -> (r: bool)
    ensures
        r == is_ascii_control(c),
{
    let u = c as u32;
    u <= 0x1f || u == 0x7f
}

/// The normalized form of a character: newlines, carriage returns and tabs become spaces, and
/// other ASCII control characters are removed.
pub open spec fn normalized_char(c: char) -> Option<char> {
    if c == '\n' || c == '\r' || c == '\t' {
        Some(' ')
    } else if is_ascii_control(c) {
        None
    } else {
        Some(c)
    }
}

/// The normalized form of a sequence of characters.
pub open spec fn normalized(s: Seq<char>) -> Seq<char>
    decreases s.len(),
{
    if s.len() == 0 {
        Seq::empty()
    } else {
        match normalized_char(s.last()) {
            Some(c) => normalized(s.drop_last()).push(c),
            None => normalized(s.drop_last()),
        }
    }
}

fn normalize_char(ch: char) -> (r: Option<char>)
    ensures
        r == normalized_char(ch),
{
    if ch == '\n' || ch == '\r' || ch == '\t' {
        Some(' ')
    } else if ascii_control(ch) {
        None
    } else {
        Some(ch)
    }
}

/// Mutate a given string in-place, removing ASCII control characters and converting newlines,
/// carriage returns and TABs to ASCII space.
pub fn normalize_query_string(s: &mut String)
    ensures
        final(s)@ == normalized(old(s)@),
{
    let chars = str_chars(s.as_str());
    let mut out = String::new();
    let mut i: usize = 0;
    while i < chars.len()
        invariant
            i <= chars@.len(),
            out@ == normalized(chars@.take(i as int)),
        decreases chars@.len() - i,
    {
        assert(chars@.take(i + 1).drop_last() =~= chars@.take(i as int));
        match normalize_char(chars[i]) {
            Some(c) => push_char(&mut out, c),
            None => {},
        }
        i = i + 1;
    }
    assert(chars@.take(chars@.len() as int) =~= chars@);
    *s = out;
}

/// Normalizing twice is the same as normalizing once.
pub proof fn lemma_normalized_idempotent(s: Seq<char>)
    ensures
        normalized(normalized(s)) == normalized(s),
    decreases s.len(),
{
    if s.len() > 0 {
        lemma_normalized_idempotent(s.drop_last());
        match normalized_char(s.last()) {
            Some(c) => {
                let n = normalized(s.drop_last()).push(c);
                assert(n.drop_last() =~= normalized(s.drop_last()));
            },
            None => {},
        }
    }
}

/// An edit to apply to an [`EditableString`].
#[derive(Debug, PartialEq, Eq)]
pub enum Edit {
    /// Insert a [`char`] at the current cursor position.
    Insert(char),
    /// Delete a [`char`] immediately preceding the current cursor position.
    Delete,
    /// Paste a [`String`] at the current cursor position.
    Paste(String),
    /// Move the cursor left.
    Left,
    /// Move the cursor right.
    Right,
    /// Move the cursor to the start.
    ToStart,
    /// Move the cursor to the end.
    ToEnd,
}

/// A movement to apply to an [`EditableString`].
#[derive(Debug, PartialEq, Eq, Clone, Copy)]
enum Jump {
    Left(usize),
    Right(usize),
    ToStart,
    ToEnd,
}

/// An editable string type with a cursor and scrolling window.
#[derive(Debug)]
pub struct EditableString {
    /// The contents of the editable string.
    contents: Vec<char>,
    /// The position within the string.
    cursor: Cursor,
}

/// The number of trailing backslashes in a sequence.
pub open spec fn trailing_backslashes(s: Seq<char>) -> nat
    decreases s.len(),
{
    if s.len() > 0 && s.last() == '\\' {
        1 + trailing_backslashes(s.drop_last())
    } else {
        0
    }
}

/// Whether a sequence ends in an even number of backslashes, so that no backslash escapes what
/// follows it.
pub(crate) fn even_trailing_backslashes(s: &[char]) -> (r: bool)
    ensures
        r == (trailing_backslashes(s@) % 2 == 0),
{
    let mut count: usize = 0;
    let n = s.len();
    let mut i: usize = n;
    assert(s@.take(n as int) =~= s@);
    while i > 0 && s[i - 1] == '\\'
        invariant
            n == s@.len(),
            i <= s@.len(),
            count == s@.len() - i,
            trailing_backslashes(s@) == count + trailing_backslashes(s@.take(i as int)),
        decreases i,
    {
        assert(s@.take(i as int).drop_last() =~= s@.take(i - 1));
        i = i - 1;
        count = count + 1;
    }
    proof {
        if i > 0 {
            assert(s@.take(i as int).last() == s@[i - 1]);
        }
    }
    count % 2 == 0
}

impl EditableString {
    /// The characters of the string.
    pub closed spec fn text(&self) -> Seq<char> {
        self.contents@
    }

    /// The cursor.
    pub closed spec fn cur(&self) -> Cursor {
        self.cursor
    }

    /// The cursor position.
    pub open spec fn pos(&self) -> usize {
        self.cur().index_of()
    }

    /// The invariant: the cursor lies within the string and its window.
    pub open spec fn wf(&self) -> bool {
        &&& self.cur().wf()
        &&& self.pos() <= self.text().len()
    }

    /// The whole contents as a string.
    pub fn full_contents(&self) -> (r: String)
        ensures
            r@ == self.text(),
    {
        chars_to_string(self.contents.as_slice())
    }

    /// Return an unpadded view.
    pub fn view(&self) -> (r: WindowView<'_, char>)
        requires
            self.wf(),
        ensures
            ({
                let c = self.cur();
                let end = c.offset_of() + c.width_of();
                let right = if end <= self.text().len() { end } else { self.text().len() as int };
                &&& r.items() == self.text().subrange(c.offset_of() as int, right)
                &&& r.pos() == c.index_of() - c.offset_of()
            }),
    {
        self.cursor.view(self.contents.as_slice())
    }

    /// Reset the prompt contents and move the cursor to the end of the prompt.
    pub fn set_prompt(&mut self, new: &str)
        requires
            old(self).wf(),
        ensures
            final(self).wf(),
            final(self).text() == new@,
            final(self).pos() == new@.len(),
            final(self).cur().width_of() == old(self).cur().width_of(),
    {
        let chars = str_chars(new);
        let ghost c = self.cursor;
        if self.cursor.idx() > chars.len() {
            self.cursor.set_index(chars.len());
        }
        self.contents = chars;
        self.jump(Jump::ToEnd);
    }

    /// Return the padded view given the current cursor position with padding size on the left
    /// and the right.
    pub fn view_padded(&self, left: usize, right: usize) -> (r: WindowView<'_, char>)
        requires
            self.wf(),
            (if self.cur().offset_of() >= left { self.cur().offset_of() - left } else { 0 }) + left
                + self.cur().width_of() + right <= usize::MAX,
        ensures
            ({
                let c = self.cur();
                let view_left = if c.offset_of() >= left { c.offset_of() - left } else { 0 };
                let end = view_left + left + c.width_of() + right;
                let right = if end <= self.text().len() { end } else { self.text().len() as int };
                &&& r.items() == self.text().subrange(view_left as int, right)
                &&& r.pos() == c.index_of() - view_left
            }),
    {
        self.cursor.view_padded(left, right, self.contents.as_slice())
    }

    /// Create a new [`EditableString`] with given window width.
    pub fn new(width: usize) -> (r: Self)
        ensures
            r.wf(),
            r.text() == Seq::<char>::empty(),
            r.pos() == 0,
            r.cur().offset_of() == 0,
            r.cur().width_of() == width,
    {
        Self { contents: Vec::new(), cursor: Cursor::new(width) }
    }

    /// Resize the window with the updated width.
    pub fn resize(&mut self, width: usize)
        requires
            old(self).wf(),
            old(self).cur().offset_of() + width <= usize::MAX,
        ensures
            final(self).wf(),
            final(self).text() == old(self).text(),
            final(self).pos() == old(self).pos(),
            final(self).cur().width_of() == width,
            final(self).cur().offset_of() == adjusted_offset(
                old(self).pos() as int,
                old(self).cur().offset_of() as int,
                width as int,
            ),
    {
        self.cursor.set_width(width);
    }

    /// Check if there is no trailing escape `\`.
    fn no_trailing_escape(&self) -> (r: bool)
        ensures
            r == (trailing_backslashes(self.text()) % 2 == 0),
    {
        even_trailing_backslashes(self.contents.as_slice())
    }

    /// Are we in an "appending" state? This is the case if the cursor is at the end of the string
    /// and the previous character isn't an escaped `\`.
    pub fn is_appending(&self) -> (r: bool)
        ensures
            r == (self.pos() == self.text().len() && trailing_backslashes(self.text()) % 2 == 0),
    {
        self.cursor.idx() == self.contents.len() && self.no_trailing_escape()
    }

    /// Whether or not the query string is empty.
    pub fn is_empty(&self) -> (r: bool)
        ensures
            r == (self.text().len() == 0),
    {
        self.contents.len() == 0
    }

    /// Change the cursor position to the provided index; return true if the cursor moved.
    fn shift_to(&mut self, pos: usize) -> (r: bool)
        requires
            old(self).wf(),
        ensures
            final(self).wf(),
            final(self).text() == old(self).text(),
            final(self).cur().width_of() == old(self).cur().width_of(),
            r == (pos <= old(self).text().len() && old(self).pos() != pos),
            r ==> final(self).pos() == pos && final(self).cur().offset_of() == adjusted_offset(
                pos as int,
                old(self).cur().offset_of() as int,
                old(self).cur().width_of() as int,
            ),
            !r ==> final(self).cur() == old(self).cur(),
    {
        if pos <= self.contents.len() && self.cursor.idx() != pos {
            self.cursor.set_index(pos);
            true
        } else {
            false
        }
    }

    /// Move the cursor by the provided [`Jump`].
    fn jump(&mut self, jm: Jump) -> (r: bool)
        requires
            old(self).wf(),
        ensures
            final(self).wf(),
            final(self).text() == old(self).text(),
            final(self).cur().width_of() == old(self).cur().width_of(),
            ({
                let target: int = match jm {
                    Jump::Left(d) => if old(self).pos() >= d { old(self).pos() - d } else { 0 },
                    Jump::Right(d) => if old(self).pos() + d <= usize::MAX {
                        old(self).pos() + d
                    } else {
                        usize::MAX as int
                    },
                    Jump::ToStart => 0,
                    Jump::ToEnd => old(self).text().len() as int,
                };
                &&& r == (target <= old(self).text().len() && old(self).pos() != target)
                &&& r ==> final(self).pos() == target && final(self).cur().offset_of()
                    == adjusted_offset(
                    target,
                    old(self).cur().offset_of() as int,
                    old(self).cur().width_of() as int,
                )
                &&& !r ==> final(self).cur() == old(self).cur()
            }),
    {
        match jm {
            Jump::Left(dist) => self.shift_to(self.cursor.idx().saturating_sub(dist)),
            Jump::Right(dist) => self.shift_to(self.cursor.idx().saturating_add(dist)),
            Jump::ToStart => self.shift_to(0),
            Jump::ToEnd => self.shift_to(self.contents.len()),
        }
    }
}


/// The characters of `s` appended to `v`.
fn extend_chars(v: &mut Vec<char>, s: &Vec<char>)
    ensures
        final(v)@ == old(v)@ + s@,
{
    let mut i: usize = 0;
    while i < s.len()
        invariant
            i <= s@.len(),
            v@ == old(v)@ + s@.take(i as int),
        decreases s@.len() - i,
    {
        v.push(s[i]);
        i = i + 1;
        assert(v@ =~= old(v)@ + s@.take(i as int));
    }
    assert(s@.take(s@.len() as int) =~= s@);
}

impl EditableString {
    /// Apply the provided [`Edit`] to the [`EditableString`], and return whether or not anything
    /// changed.
    pub fn edit(&mut self, e: Edit) -> (r: bool)
        requires
            old(self).wf(),
            old(self).text().len() < usize::MAX,
        ensures
            final(self).wf(),
            final(self).cur().width_of() == old(self).cur().width_of(),
            ({
                let t = old(self).text();
                let p = old(self).pos();
                let o = old(self).cur().offset_of() as int;
                let w = old(self).cur().width_of() as int;
                match e {
                    Edit::Left => {
                        &&& final(self).text() == t
                        &&& r == (p > 0)
                        &&& r ==> final(self).pos() == p - 1
                            && final(self).cur().offset_of() == adjusted_offset(p - 1, o, w)
                        &&& !r ==> final(self).cur() == old(self).cur()
                    },
                    Edit::Right => {
                        &&& final(self).text() == t
                        &&& r == (p < t.len())
                        &&& r ==> final(self).pos() == p + 1
                            && final(self).cur().offset_of() == adjusted_offset(p + 1, o, w)
                        &&& !r ==> final(self).cur() == old(self).cur()
                    },
                    Edit::ToStart => {
                        &&& final(self).text() == t
                        &&& r == (p != 0)
                        &&& final(self).pos() == 0
                        &&& r ==> final(self).cur().offset_of() == adjusted_offset(0, o, w)
                    },
                    Edit::ToEnd => {
                        &&& final(self).text() == t
                        &&& r == (p != t.len())
                        &&& final(self).pos() == t.len()
                        &&& r ==> final(self).cur().offset_of() == adjusted_offset(t.len() as int, o, w)
                    },
                    Edit::Insert(ch) => match normalized_char(ch) {
                        Some(c) => {
                            &&& r
                            &&& final(self).text() == t.insert(p as int, c)
                            &&& final(self).pos() == p + 1
                            &&& final(self).cur().offset_of() == adjusted_offset(p + 1, o, w)
                        },
                        None => {
                            &&& !r
                            &&& final(self).text() == t
                            &&& final(self).cur() == old(self).cur()
                        },
                    },
                    Edit::Paste(s) => if s@.len() == 0 {
                        &&& !r
                        &&& final(self).text() == t
                        &&& final(self).cur() == old(self).cur()
                    } else {
                        let n = normalized(s@);
                        &&& r
                        &&& final(self).text() == t.take(p as int) + n + t.skip(p as int)
                        &&& final(self).pos() == p + n.len()
                        &&& n.len() > 0 ==> final(self).cur().offset_of() == adjusted_offset(
                            p + n.len(),
                            o,
                            w,
                        )
                        &&& n.len() == 0 ==> final(self).cur() == old(self).cur()
                    },
                    Edit::Delete => {
                        &&& r == (p > 0)
                        &&& r ==> final(self).text() == t.remove(p - 1) && final(self).pos() == p - 1
                            && final(self).cur().offset_of() == adjusted_offset(p - 1, o, w)
                        &&& !r ==> final(self).text() == t && final(self).cur() == old(self).cur()
                    },
                }
            }),
    {
        match e {
            Edit::Left => self.jump(Jump::Left(1)),
            Edit::Right => self.jump(Jump::Right(1)),
            Edit::ToStart => {
                let r = self.jump(Jump::ToStart);
                r
            },
            Edit::ToEnd => self.jump(Jump::ToEnd),
            Edit::Insert(ch) => {
                match normalize_char(ch) {
                    Some(c) => {
                        self.contents.insert(self.cursor.idx(), c);
                        self.jump(Jump::Right(1))
                    },
                    None => false,
                }
            },
            Edit::Paste(s) => {
                let mut s = s;
                if s.as_str().is_empty() {
                    false
                } else {
                    normalize_query_string(&mut s);
                    let chars = str_chars(s.as_str());
                    if self.is_appending() {
                        extend_chars(&mut self.contents, &chars);
                        self.jump(Jump::ToEnd);
                    } else {
                        let idx = self.cursor.idx();
                        let mut head: Vec<char> = Vec::new();
                        let mut tail: Vec<char> = Vec::new();
                        let mut i: usize = 0;
                        while i < self.contents.len()
                            invariant
                                idx <= self.contents@.len(),
                                i <= self.contents@.len(),
                                head@ == self.contents@.take(if i <= idx { i as int } else { idx as int }),
                                tail@ == if i <= idx {
                                    Seq::<char>::empty()
                                } else {
                                    self.contents@.subrange(idx as int, i as int)
                                },
                            decreases self.contents@.len() - i,
                        {
                            if i < idx {
                                head.push(self.contents[i]);
                            } else {
                                tail.push(self.contents[i]);
                            }
                            i = i + 1;
                            assert(head@ =~= self.contents@.take(if i <= idx { i as int } else { idx as int }));
                            assert(tail@ =~= if i <= idx {
                                Seq::<char>::empty()
                            } else {
                                self.contents@.subrange(idx as int, i as int)
                            });
                        }
                        assert(tail@ =~= self.contents@.skip(idx as int));
                        extend_chars(&mut head, &chars);
                        self.contents = head;
                        assert(self.contents@.len() == idx + chars@.len());
                        self.shift_to(self.contents.len());
                        extend_chars(&mut self.contents, &tail);
                    }
                    true
                }
            },
            Edit::Delete => {
                let changed = self.jump(Jump::Left(1));
                if changed {
                    self.contents.remove(self.cursor.idx());
                }
                changed
            },
        }
    }
}

} // verus!
