//! # A windowed cursor
//! This module implements a windowed cursor component.
use vstd::prelude::*;

use crate::text::chars_to_string;

verus! {

/// # A view of an underlying buffer (the window of a [`Cursor`]).
#[derive(Debug, Clone, Copy)]
pub struct WindowView<'a, T> {
    contents: &'a [T],
    index: usize,
}

impl<'a, T> WindowView<'a, T> {
    /// The contents of the view.
    pub closed spec fn items(&self) -> Seq<T> {
        self.contents@
    }

    /// The position of the cursor within the view.
    pub closed spec fn pos(&self) -> usize {
        self.index
    }

    /// The `0`-indexed position of the cursor within the view.
    pub fn index(&self) -> (r: usize)
        ensures
            r == self.pos(),
    {
        self.index
    }

    /// Return the contents of the view.
    pub fn as_slice(&self) -> (r: &'a [T])
        ensures
            r@ == self.items(),
    {
        self.contents
    }
}

impl<'a> WindowView<'a, char> {
    /// The contents of the view as a string.
    pub fn to_string(&self) -> (r: String)
        ensures
            r@ == self.items(),
    {
        chars_to_string(self.contents)
    }
}

/// # Represent a cursor and window within an underlying buffer.
///
/// The internal state is represented by three parameters:
/// - the `index`, which is the position within the string;
/// - the `width`, which is the width of the internal window;
/// - the `offset`, which is the position of the leftmost endpoint of the view window.
///
/// The main invariant is that `offset <= index <= offset + width`. When the cursor is moved, the
/// offset changes by the minimal amount which keeps the cursor within the window.
#[derive(Debug, Clone, Copy)]
pub struct Cursor {
    /// The position within the string.
    index: usize,
    /// The current offset of the view window.
    offset: usize,
    /// The width of the view window.
    width: usize,
}

/// The offset after moving the cursor to `index`: unchanged if the cursor is still within the
/// window, otherwise moved just enough to contain it.
pub open spec fn adjusted_offset(index: int, offset: int, width: int) -> int {
    if index < offset {
        index
    } else if index >= offset + width {
        index - width
    } else {
        offset
    }
}

impl Cursor {
    /// The absolute cursor position.
    pub closed spec fn index_of(&self) -> usize {
        self.index
    }

    /// The leftmost position of the window.
    pub closed spec fn offset_of(&self) -> usize {
        self.offset
    }

    /// The width of the window.
    pub closed spec fn width_of(&self) -> usize {
        self.width
    }

    /// The invariant: the cursor lies within the window.
    pub open spec fn wf(&self) -> bool {
        &&& self.offset_of() <= self.index_of()
        &&& self.index_of() <= self.offset_of() + self.width_of()
        &&& self.offset_of() + self.width_of() <= usize::MAX
    }

    /// Create a new cursor with given width.
    pub fn new(width: usize) -> (r: Self)
        ensures
            r.wf(),
            r.index_of() == 0,
            r.offset_of() == 0,
            r.width_of() == width,
    {
        Self { index: 0, offset: 0, width }
    }

    /// The absolute index of the cursor.
    pub fn idx(&self) -> (r: usize)
        ensures
            r == self.index_of(),
    {
        self.index
    }

    /// Return the padded view given the current cursor position with padding size on the left
    /// and the right.
    ///
    /// The padding will translate to the right if the view would contain negative indices.
    pub fn view_padded<'a, T>(&self, left: usize, right: usize, buffer: &'a [T]) -> (r: WindowView<'a, T>)
        requires
            self.wf(),
            self.index_of() <= buffer@.len(),
            (if self.offset_of() >= left { self.offset_of() - left } else { 0 }) + left
                + self.width_of() + right <= usize::MAX,
        ensures
            ({
                let view_left = if self.offset_of() >= left { self.offset_of() - left } else { 0 };
                let end = view_left + left + self.width_of() + right;
                let view_right = if end <= buffer@.len() { end } else { buffer@.len() as int };
                &&& r.items() == buffer@.subrange(view_left as int, view_right)
                &&& r.pos() == self.index_of() - view_left
            }),
    {
        let view_left = self.offset.saturating_sub(left);
        let end = view_left + left + self.width + right;
        let view_right = if end <= buffer.len() { end } else { buffer.len() };
        WindowView {
            contents: vstd::slice::slice_subrange(buffer, view_left, view_right),
            index: self.index - view_left,
        }
    }

    /// Return the current view given the current cursor state.
    pub fn view<'a, T>(&self, target: &'a [T]) -> (r: WindowView<'a, T>)
        requires
            self.wf(),
            self.index_of() <= target@.len(),
        ensures
            ({
                let end = self.offset_of() + self.width_of();
                let view_right = if end <= target@.len() { end } else { target@.len() as int };
                &&& r.items() == target@.subrange(self.offset_of() as int, view_right)
                &&& r.pos() == self.index_of() - self.offset_of()
            }),
    {
        self.view_padded(0, 0, target)
    }

    /// Set the index to the given value.
    pub fn set_index(&mut self, index: usize)
        requires
            old(self).wf(),
        ensures
            final(self).wf(),
            final(self).index_of() == index,
            final(self).width_of() == old(self).width_of(),
            final(self).offset_of() == adjusted_offset(
                index as int,
                old(self).offset_of() as int,
                old(self).width_of() as int,
            ),
    {
        self.index = index;
        self.reset()
    }

    /// Set the width to the given value.
    pub fn set_width(&mut self, width: usize)
        requires
            old(self).wf(),
            old(self).offset_of() + width <= usize::MAX,
        ensures
            final(self).wf(),
            final(self).index_of() == old(self).index_of(),
            final(self).width_of() == width,
            final(self).offset_of() == adjusted_offset(
                old(self).index_of() as int,
                old(self).offset_of() as int,
                width as int,
            ),
    {
        self.width = width;
        self.reset()
    }

    /// Reset the internal window.
    fn reset(&mut self)
        requires
            old(self).offset_of() + old(self).width_of() <= usize::MAX,
        ensures
            final(self).wf(),
            final(self).index_of() == old(self).index_of(),
            final(self).width_of() == old(self).width_of(),
            final(self).offset_of() == adjusted_offset(
                old(self).index_of() as int,
                old(self).offset_of() as int,
                old(self).width_of() as int,
            ),
    {
        if self.index < self.offset {
            self.offset = self.index
        } else if self.index >= self.offset + self.width {
            self.offset = self.index - self.width
        }
    }
}

/// Moving the cursor changes the window offset by the least amount that keeps the cursor inside
/// the window: no other offset which contains the cursor is closer to the previous offset.
pub proof fn lemma_adjusted_offset_minimal(index: int, offset: int, width: int, other: int)
    requires
        0 <= width,
        other <= index <= other + width,
    ensures
        ({
            let new = adjusted_offset(index, offset, width);
            &&& new <= index <= new + width
            &&& (if new >= offset { new - offset } else { offset - new }) <= (if other >= offset {
                other - offset
            } else {
                offset - other
            })
        }),
{
}

} // verus!
