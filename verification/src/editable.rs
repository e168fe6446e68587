//! A simple editable string with a cursor.
use vstd::prelude::*;

use crate::text::{chars_to_string, str_chars};

verus! {

/// The movement mode.
#[derive(Debug, PartialEq, Eq, Clone, Copy)]
pub enum MovementType {
    /// One character to the left.
    Left,
    /// One character to the right.
    Right,
    /// To the start.
    Start,
    /// To the end.
    End,
}

/// A simple editable string type with a cursor indicating the current edit position, and various
/// supported actions.
#[derive(Debug)]
pub struct EditableString {
    /// The contents of the editable string.
    contents: Vec<char>,
    /// The position within the string.
    cursor: usize,
}

impl Default for EditableString {
    fn default() -> (r: Self)
        ensures
            r.wf(),
            r.text() == Seq::<char>::empty(),
            r.pos() == 0,
    {
        Self { contents: Vec::new(), cursor: 0 }
    }
}

impl EditableString {
    /// The characters of the string.
    pub closed spec fn text(&self) -> Seq<char> {
        self.contents@
    }

    /// The cursor position.
    pub closed spec fn pos(&self) -> nat {
        self.cursor as nat
    }

    /// The invariant: the cursor lies within the string.
    pub open spec fn wf(&self) -> bool {
        self.pos() <= self.text().len()
    }

    /// The cursor position within the string.
    pub fn position(&self) -> (r: usize)
        ensures
            r == self.pos(),
    {
        self.cursor
    }

    /// Is the cursor at the end of the string?
    pub fn cursor_at_end(&self) -> (r: bool)
        ensures
            r == (self.pos() == self.text().len()),
    {
        self.cursor == self.contents.len()
    }

    /// The contents as a string.
    pub fn to_string(&self) -> (r: String)
        ensures
            r@ == self.text(),
    {
        chars_to_string(self.contents.as_slice())
    }

    /// Paste a string at the current cursor position and return whether or not the string was
    /// changed.
    pub fn paste(&mut self, s: &str) -> (r: bool)
        requires
            old(self).wf(),
        ensures
            final(self).wf(),
            r == (s@.len() > 0),
            final(self).text() == old(self).text().take(old(self).pos() as int) + s@ + old(
                self,
            ).text().skip(old(self).pos() as int),
            final(self).pos() == old(self).pos() + s@.len(),
    {
        let chars = str_chars(s);
        if chars.len() == 0 {
            return false;
        }
        let mut new_contents: Vec<char> = Vec::new();
        let mut i: usize = 0;
        while i < self.cursor
            invariant
                i <= self.cursor <= self.contents@.len(),
                new_contents@ == self.contents@.take(i as int),
            decreases self.cursor - i,
        {
            new_contents.push(self.contents[i]);
            i = i + 1;
            assert(new_contents@ =~= self.contents@.take(i as int));
        }
        let mut j: usize = 0;
        while j < chars.len()
            invariant
                j <= chars@.len(),
                i == self.cursor,
                new_contents@ == self.contents@.take(i as int) + chars@.take(j as int),
            decreases chars@.len() - j,
        {
            new_contents.push(chars[j]);
            j = j + 1;
            assert(new_contents@ =~= self.contents@.take(i as int) + chars@.take(j as int));
        }
        let ghost mid = new_contents@;
        let mut k: usize = self.cursor;
        while k < self.contents.len()
            invariant
                self.cursor <= k <= self.contents@.len(),
                new_contents@ == mid + self.contents@.subrange(self.cursor as int, k as int),
            decreases self.contents@.len() - k,
        {
            new_contents.push(self.contents[k]);
            k = k + 1;
            assert(new_contents@ =~= mid + self.contents@.subrange(self.cursor as int, k as int));
        }
        assert(chars@.take(chars@.len() as int) =~= chars@);
        assert(self.contents@.subrange(self.cursor as int, self.contents@.len() as int)
            =~= self.contents@.skip(self.cursor as int));
        let n = new_contents.len();
        assert(n == self.cursor + chars@.len() + (self.contents@.len() - self.cursor));
        self.cursor = self.cursor + chars.len();
        self.contents = new_contents;
        true
    }

    /// Insert a new char at the current cursor position and return whether or not the string was
    /// changed.
    pub fn insert(&mut self, ch: char) -> (r: bool)
        requires
            old(self).wf(),
            old(self).text().len() < usize::MAX,
        ensures
            final(self).wf(),
            r,
            final(self).text() == old(self).text().insert(old(self).pos() as int, ch),
            final(self).pos() == old(self).pos() + 1,
    {
        self.contents.insert(self.cursor, ch);
        self.cursor = self.cursor + 1;
        true
    }

    /// Delete the character immediately preceding the cursor and return whether or not the string
    /// was changed.
    pub fn delete(&mut self) -> (r: bool)
        requires
            old(self).wf(),
        ensures
            final(self).wf(),
            r == (old(self).pos() > 0),
            r ==> final(self).text() == old(self).text().remove(old(self).pos() - 1)
                && final(self).pos() == old(self).pos() - 1,
            !r ==> final(self).text() == old(self).text() && final(self).pos() == old(self).pos(),
    {
        if self.cursor > 0 {
            self.cursor = self.cursor - 1;
            self.contents.remove(self.cursor);
            true
        } else {
            false
        }
    }

    /// Change the cursor position to the provided index; return whether or not the cursor moved.
    fn shift_to(&mut self, pos: usize) -> (r: bool)
        requires
            old(self).wf(),
        ensures
            final(self).wf(),
            final(self).text() == old(self).text(),
            r == (pos <= old(self).text().len() && old(self).pos() != pos),
            r ==> final(self).pos() == pos,
            !r ==> final(self).pos() == old(self).pos(),
    {
        if pos <= self.contents.len() && self.cursor != pos {
            self.cursor = pos;
            true
        } else {
            false
        }
    }

    /// Change the cursor position and return whether or not the cursor moved.
    pub fn shift(&mut self, st: MovementType) -> (r: bool)
        requires
            old(self).wf(),
        ensures
            final(self).wf(),
            final(self).text() == old(self).text(),
            final(self).pos() == match st {
                MovementType::Left => if old(self).pos() > 0 {
                    (old(self).pos() - 1) as nat
                } else {
                    0
                },
                MovementType::Right => if old(self).pos() < old(self).text().len() {
                    old(self).pos() + 1
                } else {
                    old(self).pos()
                },
                MovementType::Start => 0,
                MovementType::End => old(self).text().len(),
            },
            r == (final(self).pos() != old(self).pos()),
    {
        match st {
            MovementType::Left => {
                if self.cursor > 0 {
                    self.cursor = self.cursor - 1;
                    true
                } else {
                    false
                }
            },
            MovementType::Right => {
                if self.cursor < self.contents.len() {
                    self.shift_to(self.cursor + 1)
                } else {
                    false
                }
            },
            MovementType::Start => self.shift_to(0),
            MovementType::End => self.shift_to(self.contents.len()),
        }
    }
}

/// Inserting a character and then deleting the character before the cursor gives back the
/// string and cursor it started from.
pub proof fn lemma_insert_delete(s: Seq<char>, pos: nat, ch: char)
    requires
        pos <= s.len(),
    ensures
        s.insert(pos as int, ch).remove(pos as int) == s,
{
    assert(s.insert(pos as int, ch).remove(pos as int) =~= s);
}

} // verus!
