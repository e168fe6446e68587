//! The terminal picker: its query line, layout and drawing helpers.
use std::ops::Range;

use vstd::prelude::*;

use self::unicode::Span;

pub mod compositor;
pub mod editable;
pub mod item;
pub mod matcher;
pub mod span;
pub mod unicode;

verus! {

/// The outcome after processing all of the events.
pub enum EventSummary {
    /// Continue rendering the frame.
    Continue,
    /// The prompt was updated; were the updates append-only?
    UpdatePrompt(bool),
    /// Select the given item and quit.
    Select,
    /// Quit without selecting an item.
    Quit,
}

/// The dimension parameters of various items in the screen.
#[derive(Debug)]
pub struct Dimensions {
    /// The width of the screen.
    pub width: u16,
    /// The height of the screen, including the prompt.
    pub height: u16,
    /// The padding at the bottom.
    pub scroll_padding_bottom: u16,
    /// The padding at the top.
    pub scroll_padding_top: u16,
}

impl Dimensions {
    /// Initialize based on screen dimensions: the configured scroll padding, but at most half of
    /// the rows left by the prompt, the match count and the selection.
    pub fn from_screen(scroll_padding: u16, width: u16, height: u16) -> (r: Self)
        ensures
            r.width == width,
            r.height == height,
            r.scroll_padding_bottom == r.scroll_padding_top,
            r.scroll_padding_top == if scroll_padding <= (if height >= 3 { height - 3 } else { 0 }) / 2 {
                scroll_padding as int
            } else {
                (if height >= 3 { height - 3 } else { 0 }) / 2
            },
    {
        let half = height.saturating_sub(3) / 2;
        let scroll_padding = if scroll_padding <= half {
            scroll_padding
        } else {
            half
        };
        Self { width, height, scroll_padding_bottom: scroll_padding, scroll_padding_top: scroll_padding }
    }

    /// The screen position `(column, row)` of the line `index` rows above the bottom of the match
    /// printing area.
    pub fn move_to_screen_index(&self, index: u16) -> (r: (u16, u16))
        requires
            index < self.height - 2,
        ensures
            r == (0u16, (self.height - 3 - index) as u16),
    {
        (0, self.max_draw_height() - 1 - index)
    }

    /// The screen column of the end of a line.
    pub fn move_to_end_of_line(&self) -> (r: u16)
        requires
            self.width >= 1,
        ensures
            r == self.width - 1,
    {
        self.width - 1
    }

    /// The screen position of the bottom left corner of the match printing area.
    pub fn move_to_results_start(&self) -> (r: (u16, u16))
        ensures
            r == (0u16, if self.height >= 2 { (self.height - 2) as u16 } else { 0u16 }),
    {
        (0, self.max_draw_height())
    }

    /// The maximum width of the prompt string display window.
    pub fn max_prompt_width(&self) -> (r: u16)
        ensures
            r == if self.width >= 2 { self.width - 2 } else { 0 },
    {
        self.width.saturating_sub(2)
    }

    /// The maximum number of matches which can be drawn to the screen.
    pub fn max_draw_height(&self) -> (r: u16)
        ensures
            r == if self.height >= 2 { self.height - 2 } else { 0 },
    {
        self.height.saturating_sub(2)
    }

    /// The maximum length on which a match can be drawn.
    pub fn max_draw_length(&self) -> (r: u16)
        ensures
            r == if self.width >= 2 { self.width - 2 } else { 0 },
    {
        self.width.saturating_sub(2)
    }

    /// The row of the prompt string.
    pub fn prompt_y(&self) -> (r: u16)
        ensures
            r == if self.height >= 1 { self.height - 1 } else { 0 },
    {
        self.height.saturating_sub(1)
    }

    /// The screen position of the start of the prompt rendering region.
    pub fn move_to_prompt(&self) -> (r: (u16, u16))
        ensures
            r == (0u16, if self.height >= 1 { (self.height - 1) as u16 } else { 0u16 }),
    {
        (0, self.prompt_y())
    }

    /// The screen position of the cursor at column `view_position` of the prompt.
    pub fn move_to_cursor(&self, view_position: u16) -> (r: (u16, u16))
        requires
            view_position + 2 <= u16::MAX,
        ensures
            r == ((view_position + 2) as u16, if self.height >= 1 { (self.height - 1) as u16 } else { 0u16 }),
    {
        (view_position + 2, self.prompt_y())
    }
}

/// Buffers reused to render items.
pub struct CompositorBuffer {
    /// Spans used to render items.
    pub spans: Vec<Span>,
    /// Sub-slices of `spans` corresponding to lines.
    pub lines: Vec<Range<usize>>,
    /// Indices generated from a match.
    pub indices: Vec<u32>,
}

impl CompositorBuffer {
    /// Empty buffers.
    pub fn new() -> (r: Self)
        ensures
            r.spans@.len() == 0,
            r.lines@.len() == 0,
            r.indices@.len() == 0,
    {
        Self {
            spans: Vec::with_capacity(16),
            lines: Vec::with_capacity(4),
            indices: Vec::with_capacity(16),
        }
    }
}

} // verus!
