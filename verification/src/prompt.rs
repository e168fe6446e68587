//! The single-line query prompt: an editable string with a cursor, kept in view on a screen of
//! fixed width.
//!
//! The contents are held as characters and the cursor as a character index. Cursor movements go
//! by grapheme clusters and Unicode words, and the screen position of the cursor by display
//! widths; both come from `crate::segment`.
use vstd::prelude::*;

use crate::component::ComponentStatus;
use crate::segment::{
    char_columns, char_width, cluster_lens, cluster_start, cluster_widths, clusters, clusters_ok,
    int_sum, lemma_cluster_start_bounds, lemma_int_sum_take, lemma_word_starts_bound, text_width,
    width_of, word_positions, word_starts,
};
use crate::text::{chars_to_string, push_char, str_chars};
use crate::util::as_u16;

verus! {

/// The smaller of two integers.
pub open spec fn min_i(a: int, b: int) -> int {
    if a <= b {
        a
    } else {
        b
    }
}

/// The larger of two integers.
pub open spec fn max_i(a: int, b: int) -> int {
    if a >= b {
        a
    } else {
        b
    }
}

/// A width, saturated to the range of `u16`.
pub open spec fn sat16(w: int) -> int {
    if w > u16::MAX {
        u16::MAX as int
    } else {
        w
    }
}

/// The padding actually used on a screen of the given width: the configured padding, but less
/// than half of the screen.
pub open spec fn padding_for(width: u16, configured: u16) -> int {
    let half: int = if width == 0 {
        0
    } else {
        (width - 1) / 2
    };
    min_i(configured as int, half)
}

/// How a character enters the prompt: newlines, carriage returns and tabs become spaces and characters without a
/// display width (control characters) are dropped.
pub open spec fn prompt_char(c: char) -> Option<char> {
    if c == '\n' || c == '\r' || c == '\t' {
        Some(' ')
    } else if char_columns(c) is Some {
        Some(c)
    } else {
        None
    }
}

/// The normalized form of a text entering the prompt.
pub open spec fn prompt_normalized(s: Seq<char>) -> Seq<char>
    decreases s.len(),
{
    if s.len() == 0 {
        Seq::empty()
    } else {
        match prompt_char(s.last()) {
            Some(c) => prompt_normalized(s.drop_last()).push(c),
            None => prompt_normalized(s.drop_last()),
        }
    }
}

/// The position `n` grapheme clusters right of `pos`, or the end of the text if there are fewer.
pub open spec fn right_target(s: Seq<char>, pos: int, n: int) -> int {
    let t = s.subrange(pos, s.len() as int);
    if n < cluster_lens(t).len() {
        pos + cluster_start(t, n)
    } else {
        s.len() as int
    }
}

/// The position `n` grapheme clusters left of `pos`; the start of the text if there are fewer,
/// and also for `n == 0`.
pub open spec fn left_target(s: Seq<char>, pos: int, n: int) -> int {
    let t = s.take(pos);
    let c = cluster_lens(t).len() as int;
    if 0 < n <= c {
        cluster_start(t, c - n)
    } else {
        0
    }
}

/// The start of the `n`-th Unicode word (counting from 0) right of `pos`, or the end of the text.
pub open spec fn word_right_target(s: Seq<char>, pos: int, n: int) -> int {
    let ws = word_starts(s.subrange(pos, s.len() as int));
    if n < ws.len() {
        pos + ws[n]
    } else {
        s.len() as int
    }
}

/// The start of the `n`-th Unicode word left of `pos`: with fewer words the first one, and the
/// start of the text for `n == 0` or when there is no word.
pub open spec fn word_left_target(s: Seq<char>, pos: int, n: int) -> int {
    let ws = word_starts(s.take(pos));
    if n == 0 || ws.len() == 0 {
        0
    } else if n <= ws.len() {
        ws[ws.len() - n]
    } else {
        ws[0]
    }
}

/// The least screen offset left of the cursor: the padding, or less where the text before the
/// cursor is narrower.
pub open spec fn left_limit(before: Seq<char>, pad: int) -> int {
    min_i(pad, int_sum(cluster_widths(before)))
}

/// The screen offset after moving the cursor to `pos` by `w` columns to the left.
pub open spec fn shift_left(s: Seq<char>, pos: int, shift: int, w: int, pad: int) -> int {
    max_i(if shift >= sat16(w) { shift - sat16(w) } else { 0 }, left_limit(s.take(pos), pad))
}

/// The screen offset after moving the cursor by `w` columns to the right.
pub open spec fn shift_right(shift: int, w: int, limit: int) -> int {
    min_i(min_i(shift + sat16(w), u16::MAX as int), limit)
}

/// The screen offset reached by walking over clusters of the given widths until `limit`.
pub open spec fn shift_to_end(ws: Seq<int>, shift: int, limit: int) -> int
    decreases ws.len(),
{
    if ws.len() == 0 {
        shift
    } else {
        let next = min_i(shift + sat16(ws[0]), u16::MAX as int);
        if next >= limit {
            limit
        } else {
            shift_to_end(ws.drop_first(), next, limit)
        }
    }
}

/// Moving the cursor left to `target`: the new position and screen offset, and whether it moved.
pub open spec fn left_move(s: Seq<char>, pos: int, shift: int, pad: int, target: int) -> (
    int,
    int,
    bool,
) {
    if target != pos {
        (target, shift_left(s, target, shift, text_width(s.subrange(target, pos)) as int, pad), true)
    } else {
        (pos, shift, false)
    }
}

/// Moving the cursor right to `target`: the new position and screen offset, and whether it moved.
pub open spec fn right_move(s: Seq<char>, pos: int, shift: int, limit: int, target: int) -> (
    int,
    int,
    bool,
) {
    if target != pos {
        (target, shift_right(shift, text_width(s.subrange(pos, target)) as int, limit), true)
    } else {
        (pos, shift, false)
    }
}

/// Moving the cursor to the end of the text.
pub open spec fn end_move(s: Seq<char>, pos: int, shift: int, limit: int) -> (int, int, bool) {
    if pos == s.len() {
        (pos, shift, false)
    } else {
        (
            s.len() as int,
            shift_to_end(cluster_widths(s.subrange(pos, s.len() as int)), shift, limit),
            true,
        )
    }
}

/// The start of the grapheme cluster that ends at `pos` (`pos` itself at the start of the text).
pub open spec fn previous_cluster(s: Seq<char>, pos: int) -> int {
    let t = s.take(pos);
    let c = cluster_lens(t).len() as int;
    if c > 0 {
        cluster_start(t, c - 1)
    } else {
        pos
    }
}

/// Inserting `ins` at the cursor: the new text, position and screen offset.
pub open spec fn insert_result(
    s: Seq<char>,
    pos: int,
    shift: int,
    limit: int,
    pad: int,
    ins: Seq<char>,
) -> (Seq<char>, int, int) {
    let prev = previous_cluster(s, pos);
    let old_w = text_width(s.subrange(prev, pos)) as int;
    let s2 = s.take(pos) + ins + s.skip(pos);
    let pos2 = pos + ins.len();
    let new_w = text_width(s2.subrange(prev, pos2)) as int;
    let shift2 = if new_w > old_w {
        shift_right(shift, new_w - old_w, limit)
    } else if old_w > new_w {
        shift_left(s2, pos2, shift, old_w - new_w, pad)
    } else {
        shift
    };
    (s2, pos2, shift2)
}

/// Where the visible part of the text starts, walking left from the cursor over the clusters of
/// `before` (the text before the cursor) until `shift` columns are covered, and how many columns
/// of the first visible cluster are hidden at the left edge.
pub open spec fn view_left(before: Seq<char>, k: int, total: int, shift: int) -> (int, int)
    decreases k,
{
    if k <= 0 {
        (0, 0)
    } else {
        let w = cluster_widths(before)[k - 1];
        let tot = min_i(total + w, usize::MAX as int);
        if tot >= shift {
            (
                cluster_start(before, k - 1) + if tot == shift {
                    0
                } else {
                    cluster_lens(before)[k - 1]
                },
                (tot - shift) as u16 as int,
            )
        } else {
            view_left(before, k - 1, tot, shift)
        }
    }
}

/// Where the visible part of the text ends: the first cluster of `after` (the text from the
/// cursor on) that no longer fits into `room` columns, or the end.
pub open spec fn view_right(after: Seq<char>, k: int, total: int, room: int) -> int
    decreases cluster_lens(after).len() - k,
{
    if k >= cluster_lens(after).len() || k < 0 {
        after.len() as int
    } else {
        let tot = min_i(total + cluster_widths(after)[k], usize::MAX as int);
        if tot > room {
            cluster_start(after, k)
        } else {
            view_right(after, k + 1, tot, room)
        }
    }
}

/// An event that modifies the prompt.
#[derive(Debug, PartialEq, Eq)]
#[non_exhaustive]
pub enum PromptEvent {
    /// Move the cursor `usize` graphemes to the left.
    Left(usize),
    /// Move the cursor `usize` Unicode words to the left.
    WordLeft(usize),
    /// Move the cursor `usize` graphemes to the right.
    Right(usize),
    /// Move the cursor `usize` Unicode words to the right.
    WordRight(usize),
    /// Move the cursor to the start.
    ToStart,
    /// Move the cursor to the end.
    ToEnd,
    /// Delete `usize` graphemes immediately preceding the cursor.
    Backspace(usize),
    /// Delete `usize` graphemes immediately following the cursor.
    Delete(usize),
    /// Delete `usize` Unicode words immediately preceding the cursor.
    BackspaceWord(usize),
    /// Clear everything before the cursor.
    ClearBefore,
    /// Clear everything after the cursor.
    ClearAfter,
    /// Insert a character at the cursor.
    Insert(char),
    /// Paste a string at the cursor.
    Paste(String),
    /// Reset the prompt to a new string and move the cursor to the end.
    Reset(String),
}

impl PromptEvent {
    /// Whether or not the event is a cursor movement that does not edit the prompt string.
    pub fn is_cursor_movement(&self) -> (r: bool)
        ensures
            r == (self is Left || self is WordLeft || self is Right || self is WordRight
                || self is ToStart || self is ToEnd),
    {
        match self {
            PromptEvent::Left(_) | PromptEvent::WordLeft(_) | PromptEvent::Right(_)
            | PromptEvent::WordRight(_) | PromptEvent::ToStart | PromptEvent::ToEnd => true,
            _ => false,
        }
    }
}

/// A movement of the prompt cursor.
enum CursorMovement {
    Left(usize),
    WordLeft(usize),
    Right(usize),
    WordRight(usize),
    ToStart,
    ToEnd,
}

/// The configuration of a prompt.
#[derive(Debug, Clone, Copy)]
pub struct PromptConfig {
    /// The number of columns kept free on either side of the cursor where possible.
    pub padding: u16,
}

impl PromptConfig {
    /// The default configuration: a padding of 2.
    pub fn new() -> (r: Self)
        ensures
            r.padding == 2,
    {
        Self { padding: 2 }
    }
}

impl Default for PromptConfig {
    fn default() -> (r: Self)
        ensures
            r.padding == 2,
    {
        Self::new()
    }
}

/// The result of handling a prompt event.
#[derive(Debug, Clone, Copy)]
pub struct PromptStatus {
    /// Whether the prompt has to be drawn again.
    pub needs_redraw: bool,
    /// Whether the contents of the prompt changed.
    pub contents_changed: bool,
}

impl Default for PromptStatus {
    fn default() -> (r: Self)
        ensures
            !r.needs_redraw,
            !r.contents_changed,
    {
        PromptStatus { needs_redraw: false, contents_changed: false }
    }
}

impl ComponentStatus for PromptStatus {
    open spec fn spec_needs_redraw(&self) -> bool {
        self.needs_redraw
    }

    fn needs_redraw(&self) -> (r: bool) {
        self.needs_redraw
    }
}

impl PromptStatus {
    /// Combine with another status: each flag is set if it is set in either.
    pub fn bitor_assign(&mut self, rhs: Self)
        ensures
            final(self).needs_redraw == (old(self).needs_redraw || rhs.needs_redraw),
            final(self).contents_changed == (old(self).contents_changed || rhs.contents_changed),
    {
        self.needs_redraw = self.needs_redraw || rhs.needs_redraw;
        self.contents_changed = self.contents_changed || rhs.contents_changed;
    }
}

/// An editable single-line prompt.
#[derive(Debug)]
pub struct Prompt {
    contents: Vec<char>,
    offset: usize,
    screen_offset: u16,
    width: u16,
    config: PromptConfig,
}

/// A character that enters the prompt as itself.
pub open spec fn kept(c: char) -> bool {
    prompt_char(c) == Some(c)
}

/// Normalizing a normalized text leaves it as it is, when the space that newlines and tabs
/// become has a width.
proof fn lemma_prompt_normalized_idempotent(s: Seq<char>)
    requires
        char_columns(' ') is Some,
    ensures
        prompt_normalized(prompt_normalized(s)) == prompt_normalized(s),
    decreases s.len(),
{
    if s.len() > 0 {
        lemma_prompt_normalized_idempotent(s.drop_last());
        let p = prompt_normalized(s.drop_last());
        match prompt_char(s.last()) {
            Some(c) => {
                assert(kept(c));
                assert(p.push(c).drop_last() =~= p);
                assert(p.push(c).last() == c);
            },
            None => {},
        }
    }
}

/// Mutate a given string in-place, removing control characters and converting newlines, carriage
/// returns and TABs to ASCII space. A normalized string is left as it is by normalizing it again.
pub fn normalize_prompt_string(s: &mut String)
    ensures
        final(s)@ == prompt_normalized(old(s)@),
        prompt_normalized(final(s)@) == final(s)@,
{
    // the space that newlines and tabs become is printable, with a width
    let _space_width = char_width(' ');
    proof {
        lemma_prompt_normalized_idempotent(old(s)@);
    }
    let chars = str_chars(s.as_str());
    let mut out = String::new();
    let mut i: usize = 0;
    while i < chars.len()
        invariant
            i <= chars@.len(),
            out@ == prompt_normalized(chars@.take(i as int)),
        decreases chars@.len() - i,
    {
        assert(chars@.take(i + 1).drop_last() =~= chars@.take(i as int));
        match normalize_char(chars[i]) {
            Some(c) => push_char(&mut out, c),
            None => {},
        }
        i = i + 1;
    }
    assert(chars@.take(chars@.len() as int) =~= chars@);
    *s = out;
}

/// Normalize a single character (see `prompt_char`).
pub(crate) fn normalize_char(ch: char) -> (r: Option<char>)
    ensures
        r == prompt_char(ch),
{
    if ch == '\n' || ch == '\r' || ch == '\t' {
        Some(' ')
    } else {
        match char_width(ch) {
            Some(_) => Some(ch),
            None => None,
        }
    }
}

/// The sum of the first `k` cluster lengths of `s`: where cluster `k` starts.
pub(crate) fn start_of(s: &[char], lens: &Vec<usize>, k: usize) -> (r: usize)
    requires
        clusters_ok(s@),
        lens@.len() == cluster_lens(s@).len(),
        forall|j: int| 0 <= j < lens@.len() ==> lens@[j] == #[trigger] cluster_lens(s@)[j],
        k <= lens@.len(),
    ensures
        r == cluster_start(s@, k as int),
        r <= s@.len(),
{
    let sl = s.len();
    let mut acc: usize = 0;
    let mut i: usize = 0;
    proof {
        lemma_cluster_start_bounds(s@, 0, k as int);
        assert(cluster_lens(s@).take(0) =~= Seq::<int>::empty());
    }
    while i < k
        invariant
            clusters_ok(s@),
            lens@.len() == cluster_lens(s@).len(),
            forall|j: int| 0 <= j < lens@.len() ==> lens@[j] == #[trigger] cluster_lens(s@)[j],
            k <= lens@.len(),
            sl == s@.len(),
            i <= k,
            acc == cluster_start(s@, i as int),
        decreases k - i,
    {
        proof {
            lemma_int_sum_take(cluster_lens(s@), i as int);
            lemma_cluster_start_bounds(s@, i as int + 1, k as int);
            lemma_cluster_start_bounds(s@, k as int, lens@.len() as int);
        }
        acc = acc + lens[i];
        i = i + 1;
    }
    proof {
        lemma_cluster_start_bounds(s@, k as int, lens@.len() as int);
    }
    acc
}

/// A screen offset never exceeds the offset limit when it starts at or below it.
pub proof fn lemma_shift_to_end_bound(ws: Seq<int>, shift: int, limit: int)
    requires
        0 <= shift <= limit,
        forall|k: int| 0 <= k < ws.len() ==> ws[k] >= 0,
    ensures
        0 <= shift_to_end(ws, shift, limit) <= limit,
    decreases ws.len(),
{
    if ws.len() > 0 {
        let next = min_i(shift + sat16(ws[0]), u16::MAX as int);
        if next < limit {
            lemma_shift_to_end_bound(ws.drop_first(), next, limit);
        }
    }
}

/// The screen offset after resizing the screen to `width` columns.
pub open spec fn resized_shift(s: Seq<char>, pos: int, shift: int, width: u16, cfg: u16) -> int {
    let pad = padding_for(width, cfg);
    let capacity = width - pad;
    let before = sat16(text_width(s.take(pos)) as int);
    let after = sat16(text_width(s.skip(pos)) as int);
    let upper = min_i(before, capacity);
    let lower = min_i(max_i(min_i(pad, before), max_i(capacity - after, 0)), upper);
    min_i(max_i(shift, lower), upper)
}

/// What a prompt event is, with the text it carries as characters.
pub enum EventModel {
    Left(usize),
    WordLeft(usize),
    Right(usize),
    WordRight(usize),
    ToStart,
    ToEnd,
    Backspace(usize),
    Delete(usize),
    BackspaceWord(usize),
    ClearBefore,
    ClearAfter,
    Insert(char),
    Paste(Seq<char>),
    Reset(Seq<char>),
}

/// The model of a prompt event.
pub open spec fn model(e: PromptEvent) -> EventModel {
    match e {
        PromptEvent::Left(n) => EventModel::Left(n),
        PromptEvent::WordLeft(n) => EventModel::WordLeft(n),
        PromptEvent::Right(n) => EventModel::Right(n),
        PromptEvent::WordRight(n) => EventModel::WordRight(n),
        PromptEvent::ToStart => EventModel::ToStart,
        PromptEvent::ToEnd => EventModel::ToEnd,
        PromptEvent::Backspace(n) => EventModel::Backspace(n),
        PromptEvent::Delete(n) => EventModel::Delete(n),
        PromptEvent::BackspaceWord(n) => EventModel::BackspaceWord(n),
        PromptEvent::ClearBefore => EventModel::ClearBefore,
        PromptEvent::ClearAfter => EventModel::ClearAfter,
        PromptEvent::Insert(c) => EventModel::Insert(c),
        PromptEvent::Paste(q) => EventModel::Paste(q@),
        PromptEvent::Reset(q) => EventModel::Reset(q@),
    }
}

/// What handling `e` does to a prompt with text `s`, cursor `pos` and screen column `shift` on a
/// screen of `cols` columns with configured padding `cfg`: the new text, cursor and screen
/// column, whether a redraw is needed and whether the contents changed.
pub open spec fn prompt_step(s: Seq<char>, pos: int, shift: int, cols: u16, cfg: u16, e: EventModel) -> (
    Seq<char>,
    int,
    int,
    bool,
    bool,
) {
    let pad = padding_for(cols, cfg);
    let limit = cols - pad;
    match e {
        EventModel::Reset(q) => {
            let t = prompt_normalized(q);
            (t, t.len() as int, min_i(sat16(text_width(t) as int), limit), true, t != s)
        },
        EventModel::Left(n) => {
            let m = left_move(s, pos, shift, pad, left_target(s, pos, n as int));
            (s, m.0, m.1, m.2, false)
        },
        EventModel::WordLeft(n) => {
            let m = left_move(s, pos, shift, pad, word_left_target(s, pos, n as int));
            (s, m.0, m.1, m.2, false)
        },
        EventModel::Right(n) => {
            let m = right_move(s, pos, shift, limit, right_target(s, pos, n as int));
            (s, m.0, m.1, m.2, false)
        },
        EventModel::WordRight(n) => {
            let m = right_move(s, pos, shift, limit, word_right_target(s, pos, n as int));
            (s, m.0, m.1, m.2, false)
        },
        EventModel::ToStart => if pos == 0 {
            (s, pos, shift, false, false)
        } else {
            (s, 0, 0, true, false)
        },
        EventModel::ToEnd => {
            let m = end_move(s, pos, shift, limit);
            (s, m.0, m.1, m.2, false)
        },
        EventModel::Insert(ch) => match prompt_char(ch) {
            Some(c) => {
                let ins = insert_result(s, pos, shift, limit, pad, seq![c]);
                (ins.0, ins.1, ins.2, true, true)
            },
            None => (s, pos, shift, false, false),
        },
        EventModel::Paste(q) => {
            let t = prompt_normalized(q);
            if t.len() > 0 {
                let ins = insert_result(s, pos, shift, limit, pad, t);
                (ins.0, ins.1, ins.2, true, true)
            } else {
                (s, pos, shift, false, false)
            }
        },
        EventModel::Backspace(n) => {
            let m = left_move(s, pos, shift, pad, left_target(s, pos, n as int));
            if m.2 {
                (s.take(m.0) + s.skip(pos), m.0, m.1, true, true)
            } else {
                (s, pos, shift, false, false)
            }
        },
        EventModel::BackspaceWord(n) => {
            let m = left_move(s, pos, shift, pad, word_left_target(s, pos, n as int));
            if m.2 {
                (s.take(m.0) + s.skip(pos), m.0, m.1, true, true)
            } else {
                (s, pos, shift, false, false)
            }
        },
        EventModel::ClearBefore => if pos == 0 {
            (s, pos, shift, false, false)
        } else {
            (s.skip(pos), 0, 0, true, true)
        },
        EventModel::Delete(n) => {
            let t = right_target(s, pos, n as int);
            if t != pos {
                (s.take(pos) + s.skip(t), pos, shift, true, true)
            } else {
                (s, pos, shift, false, false)
            }
        },
        EventModel::ClearAfter => if pos == s.len() {
            (s, pos, shift, false, false)
        } else {
            (s.take(pos), pos, shift, true, true)
        },
    }
}

/// The concatenation of two sequences of characters.
pub(crate) fn concat(a: &[char], b: &[char]) -> (r: Vec<char>)
    ensures
        r@ == a@ + b@,
{
    let mut r: Vec<char> = Vec::new();
    let n = a.len();
    let mut i: usize = 0;
    while i < n
        invariant
            n == a@.len(),
            i <= n,
            r@ == a@.take(i as int),
        decreases n - i,
    {
        r.push(a[i]);
        i = i + 1;
        assert(r@ =~= a@.take(i as int));
    }
    let m = b.len();
    let mut j: usize = 0;
    assert(a@.take(n as int) =~= a@);
    while j < m
        invariant
            m == b@.len(),
            j <= m,
            r@ == a@ + b@.take(j as int),
        decreases m - j,
    {
        r.push(b[j]);
        j = j + 1;
        assert(r@ =~= a@ + b@.take(j as int));
    }
    assert(b@.take(m as int) =~= b@);
    r
}

/// Whether two sequences of characters are equal.
pub(crate) fn same_chars(a: &[char], b: &[char]) -> (r: bool)
    ensures
        r == (a@ == b@),
{
    if a.len() != b.len() {
        return false;
    }
    let n = a.len();
    let mut i: usize = 0;
    while i < n
        invariant
            n == a@.len(),
            n == b@.len(),
            i <= n,
            forall|k: int| 0 <= k < i ==> a@[k] == b@[k],
        decreases n - i,
    {
        if a[i] != b[i] {
            return false;
        }
        i = i + 1;
    }
    assert(a@ =~= b@);
    true
}

/// The least screen column of a cursor with the text `t` before it (see `left_limit`).
pub(crate) fn left_limit_of(t: &[char], pad: u16) -> (r: u16)
    ensures
        r == left_limit(t@, pad as int),
        r <= pad,
{
    let (_, widths) = clusters(t);
    let ghost ws = cluster_widths(t@);
    let n = widths.len();
    proof {
        crate::segment::lemma_int_sum_mono(ws, 0, n as int);
        assert(ws.take(n as int) =~= ws);
        assert(ws.take(0) =~= Seq::<int>::empty());
    }
    if pad == 0 {
        return 0;
    }
    let mut acc: usize = 0;
    let mut i: usize = 0;
    while i < n
        invariant
            n == widths@.len(),
            n == ws.len(),
            ws == cluster_widths(t@),
            forall|k: int| 0 <= k < n ==> widths@[k] == #[trigger] ws[k],
            forall|k: int| 0 <= k < n ==> #[trigger] ws[k] >= 0,
            i <= n,
            acc == min_i(int_sum(ws.take(i as int)), usize::MAX as int),
            acc < pad,
        decreases n - i,
    {
        proof {
            lemma_int_sum_take(ws, i as int);
        }
        acc = acc.saturating_add(widths[i]);
        i = i + 1;
        if acc >= pad as usize {
            proof {
                crate::segment::lemma_int_sum_mono(ws, i as int, n as int);
                assert(ws.take(n as int) =~= ws);
            }
            return pad;
        }
    }
    assert(ws.take(n as int) =~= ws);
    acc as u16
}

/// Walk a screen column over the clusters of `t` until `limit` (see `shift_to_end`).
pub(crate) fn walk_to_end(t: &[char], shift: u16, max_offset: u16) -> (r: u16)
    requires
        shift <= max_offset,
    ensures
        r == shift_to_end(cluster_widths(t@), shift as int, max_offset as int),
        r <= max_offset,
{
    let (_, widths) = clusters(t);
    let ghost ws = cluster_widths(t@);
    let n = widths.len();
    let mut so = shift;
    let mut i: usize = 0;
    assert(ws.skip(0) =~= ws);
    while i < n
        invariant
            n == widths@.len(),
            n == ws.len(),
            forall|k: int| 0 <= k < n ==> widths@[k] == #[trigger] ws[k],
            i <= n,
            ws == cluster_widths(t@),
            so < max_offset || (i == 0 && so <= max_offset),
            shift_to_end(ws, shift as int, max_offset as int) == shift_to_end(
                ws.skip(i as int),
                so as int,
                max_offset as int,
            ),
        decreases n - i,
    {
        assert(ws.skip(i as int).drop_first() =~= ws.skip(i as int + 1));
        assert(ws.skip(i as int)[0] == ws[i as int]);
        assert(ws.skip(i as int).len() > 0);
        assert(shift_to_end(ws.skip(i as int), so as int, max_offset as int) == {
            let next = min_i(so + sat16(ws[i as int]), u16::MAX as int);
            if next >= max_offset {
                max_offset as int
            } else {
                shift_to_end(ws.skip(i as int + 1), next, max_offset as int)
            }
        });
        so = so.saturating_add(as_u16(widths[i]));
        i = i + 1;
        if so >= max_offset {
            return max_offset;
        }
    }
    so
}

/// The part of `s` that is visible with the cursor at `pos` in screen column `shift` of a
/// screen `width` columns wide, and the number of columns of the first visible cluster hidden at
/// the left edge.
pub(crate) fn visible(s: &[char], pos: usize, shift: u16, width: u16) -> (r: (String, u16))
    requires
        pos <= s@.len(),
        shift <= width,
    ensures
        ({
            let before = s@.take(pos as int);
            let after = s@.skip(pos as int);
            let left = view_left(before, cluster_lens(before).len() as int, 0, shift as int);
            let right = pos + view_right(after, 0, 0, width - shift);
            &&& r.0@ == s@.subrange(left.0, right)
            &&& r.1 == left.1
        }),
{
    let len = s.len();
    let so = shift;
    let t = vstd::slice::slice_subrange(s, 0, pos);
    assert(t@ == s@.take(pos as int));
    let (lens, widths) = clusters(t);
    let tl = t.len();
    let c = lens.len();
    let mut k: usize = c;
    let mut total: usize = 0;
    let mut left: usize = 0;
    let mut extra: u16 = 0;
    while k > 0
        invariant_except_break
            view_left(t@, c as int, 0, so as int) == view_left(t@, k as int, total as int, so as int),
            left == 0,
            extra == 0,
        invariant
            tl == t@.len(),
            c == lens@.len(),
            c == widths@.len(),
            c == cluster_lens(t@).len(),
            clusters_ok(t@),
            forall|j: int| 0 <= j < c ==> lens@[j] == #[trigger] cluster_lens(t@)[j],
            forall|j: int| 0 <= j < c ==> widths@[j] == #[trigger] cluster_widths(t@)[j],
            k <= c,
        ensures
            (left as int, extra as int) == view_left(t@, c as int, 0, so as int),
            left <= t@.len(),
        decreases k,
    {
        let w = widths[k - 1];
        let tot = total.saturating_add(w);
        if tot >= so as usize {
            let st = start_of(t, &lens, k - 1);
            proof {
                lemma_int_sum_take(cluster_lens(t@), k - 1);
                lemma_cluster_start_bounds(t@, k as int, c as int);
            }
            left = if tot == so as usize {
                st
            } else {
                st + lens[k - 1]
            };
            extra = #[verifier::truncate] ((tot - so as usize) as u16);
            break;
        }
        total = tot;
        k = k - 1;
    }
    let u = vstd::slice::slice_subrange(s, pos, len);
    assert(u@ == s@.skip(pos as int));
    let (rlens, rwidths) = clusters(u);
    let d = rlens.len();
    let room: u16 = width - so;
    let mut j: usize = 0;
    let mut rtotal: usize = 0;
    let mut right: usize = u.len();
    assert(view_right(u@, 0, 0, room as int) == view_right(u@, j as int, rtotal as int, room as int));
    while j < d
        invariant_except_break
            view_right(u@, 0, 0, room as int) == view_right(u@, j as int, rtotal as int, room as int),
            right == u@.len(),
        invariant
            d == rlens@.len(),
            d == rwidths@.len(),
            d == cluster_lens(u@).len(),
            clusters_ok(u@),
            forall|i: int| 0 <= i < d ==> rlens@[i] == #[trigger] cluster_lens(u@)[i],
            forall|i: int| 0 <= i < d ==> rwidths@[i] == #[trigger] cluster_widths(u@)[i],
            j <= d,
        ensures
            right == view_right(u@, 0, 0, room as int),
            right <= u@.len(),
        decreases d - j,
    {
        let tot = rtotal.saturating_add(rwidths[j]);
        if tot > room as usize {
            right = start_of(u, &rlens, j);
            break;
        }
        rtotal = tot;
        j = j + 1;
    }
    let shown = vstd::slice::slice_subrange(s, left, pos + right);
    (chars_to_string(shown), extra)
}

impl Prompt {
    /// The text of the prompt.
    pub closed spec fn text(&self) -> Seq<char> {
        self.contents@
    }

    /// The cursor position, as a character index into the text.
    pub closed spec fn pos(&self) -> int {
        self.offset as int
    }

    /// The screen column of the cursor.
    pub closed spec fn shift(&self) -> int {
        self.screen_offset as int
    }

    /// The width of the screen.
    pub closed spec fn cols(&self) -> u16 {
        self.width
    }

    /// The configured padding.
    pub closed spec fn configured(&self) -> u16 {
        self.config.padding
    }

    /// The padding in use on the current screen.
    pub open spec fn pad(&self) -> int {
        padding_for(self.cols(), self.configured())
    }

    /// The largest screen column of the cursor.
    pub open spec fn limit(&self) -> int {
        self.cols() - self.pad()
    }

    /// The cursor lies within the text and its screen column within the limit.
    pub open spec fn wf(&self) -> bool {
        &&& 0 <= self.pos() <= self.text().len()
        &&& 0 <= self.shift() <= self.limit()
    }

    /// Create an empty prompt on a screen of width 0.
    pub fn new(config: PromptConfig) -> (r: Self)
        ensures
            r.wf(),
            r.text() == Seq::<char>::empty(),
            r.pos() == 0,
            r.shift() == 0,
            r.cols() == 0,
            r.configured() == config.padding,
    {
        Self { contents: Vec::new(), offset: 0, screen_offset: 0, width: 0, config }
    }

    /// The padding in use: the configured padding, but less than half of the screen.
    pub fn padding(&self) -> (r: u16)
        ensures
            r == self.pad(),
            2 * r <= self.cols(),
            self.cols() > 0 ==> 2 * r < self.cols(),
    {
        let half: u16 = if self.width == 0 {
            0
        } else {
            (self.width - 1) / 2
        };
        if self.config.padding <= half {
            self.config.padding
        } else {
            half
        }
    }

    /// The largest screen column of the cursor.
    fn max_offset(&self) -> (r: u16)
        ensures
            r == self.limit(),
            self.pad() <= r,
    {
        let p = self.padding();
        self.width - p
    }

    /// Whether or not the prompt is empty.
    pub fn is_empty(&self) -> (r: bool)
        ensures
            r == (self.text().len() == 0),
    {
        self.contents.len() == 0
    }

    /// Get the cursor offset within the screen.
    pub fn screen_offset(&self) -> (r: u16)
        ensures
            r == self.shift(),
    {
        self.screen_offset
    }

    /// Get the contents of the prompt.
    pub fn contents(&self) -> (r: String)
        ensures
            r@ == self.text(),
    {
        chars_to_string(self.contents.as_slice())
    }

    /// The text from `a` to `b`.
    fn part(&self, a: usize, b: usize) -> (r: &[char])
        requires
            a <= b <= self.text().len(),
        ensures
            r@ == self.text().subrange(a as int, b as int),
    {
        vstd::slice::slice_subrange(self.contents.as_slice(), a, b)
    }

    /// The position `n` grapheme clusters right of the cursor.
    fn right_of(&self, n: usize) -> (r: usize)
        requires
            self.wf(),
        ensures
            r == right_target(self.text(), self.pos(), n as int),
            self.pos() <= r <= self.text().len(),
    {
        let len = self.contents.len();
        let t = self.part(self.offset, len);
        let (lens, _) = clusters(t);
        if n < lens.len() {
            let st = start_of(t, &lens, n);
            self.offset + st
        } else {
            len
        }
    }

    /// The position `n` grapheme clusters left of the cursor.
    fn left_of(&self, n: usize) -> (r: usize)
        requires
            self.wf(),
        ensures
            r == left_target(self.text(), self.pos(), n as int),
            r <= self.pos(),
    {
        let t = self.part(0, self.offset);
        assert(t@ == self.text().take(self.pos()));
        let (lens, _) = clusters(t);
        let c = lens.len();
        if 0 < n && n <= c {
            start_of(t, &lens, c - n)
        } else {
            0
        }
    }

    /// The start of the `n`-th Unicode word right of the cursor.
    fn word_right_of(&self, n: usize) -> (r: usize)
        requires
            self.wf(),
        ensures
            r == word_right_target(self.text(), self.pos(), n as int),
            self.pos() <= r <= self.text().len(),
    {
        let len = self.contents.len();
        let t = self.part(self.offset, len);
        let ws = word_positions(t);
        if n < ws.len() {
            proof {
                lemma_word_starts_bound(t@, n as int);
            }
            self.offset + ws[n]
        } else {
            len
        }
    }

    /// The start of the `n`-th Unicode word left of the cursor.
    fn word_left_of(&self, n: usize) -> (r: usize)
        requires
            self.wf(),
        ensures
            r == word_left_target(self.text(), self.pos(), n as int),
            r <= self.pos(),
    {
        let t = self.part(0, self.offset);
        assert(t@ == self.text().take(self.pos()));
        let ws = word_positions(t);
        let c = ws.len();
        if n == 0 || c == 0 {
            0
        } else if n <= c {
            proof {
                lemma_word_starts_bound(t@, c - n);
            }
            ws[c - n]
        } else {
            proof {
                lemma_word_starts_bound(t@, 0);
            }
            ws[0]
        }
    }

    /// The least screen column of the cursor at position `pos`.
    fn left_limit_at(&self, pos: usize) -> (r: u16)
        requires
            pos <= self.text().len(),
        ensures
            r == left_limit(self.text().take(pos as int), self.pad()),
            r <= self.pad(),
    {
        let pad = self.padding();
        let t = self.part(0, pos);
        assert(t@ == self.text().take(pos as int));
        left_limit_of(t, pad)
    }

    /// Increase the screen offset by the provided width, without exceeding the maximum offset.
    fn right_by(&mut self, width: usize)
        requires
            old(self).wf(),
        ensures
            final(self).shift() == shift_right(old(self).shift(), width as int, old(self).limit()),
            final(self).text() == old(self).text(),
            final(self).pos() == old(self).pos(),
            final(self).cols() == old(self).cols(),
            final(self).configured() == old(self).configured(),
            final(self).wf(),
    {
        let limit = self.max_offset();
        let moved = self.screen_offset.saturating_add(as_u16(width));
        self.screen_offset = if moved <= limit {
            moved
        } else {
            limit
        };
    }

    /// Decrease the screen offset by the provided width, keeping the padding where the text before
    /// the cursor allows it.
    fn left_by(&mut self, width: usize)
        requires
            old(self).wf(),
        ensures
            final(self).shift() == shift_left(
                old(self).text(),
                old(self).pos(),
                old(self).shift(),
                width as int,
                old(self).pad(),
            ),
            final(self).text() == old(self).text(),
            final(self).pos() == old(self).pos(),
            final(self).cols() == old(self).cols(),
            final(self).configured() == old(self).configured(),
            final(self).wf(),
    {
        let low = self.left_limit_at(self.offset);
        let limit = self.max_offset();
        let moved = self.screen_offset.saturating_sub(as_u16(width));
        self.screen_offset = if moved >= low {
            moved
        } else {
            low
        };
    }

    /// Walk the screen offset to the end of the text.
    fn shift_to_end_exec(&self) -> (r: u16)
        requires
            self.wf(),
        ensures
            r == shift_to_end(
                cluster_widths(self.text().subrange(self.pos(), self.text().len() as int)),
                self.shift(),
                self.limit(),
            ),
            r <= self.limit(),
    {
        let max_offset = self.max_offset();
        let len = self.contents.len();
        let t = self.part(self.offset, len);
        walk_to_end(t, self.screen_offset, max_offset)
    }

    /// Move the cursor.
    fn move_cursor(&mut self, cm: CursorMovement) -> (r: bool)
        requires
            old(self).wf(),
        ensures
            final(self).wf(),
            final(self).text() == old(self).text(),
            final(self).cols() == old(self).cols(),
            final(self).configured() == old(self).configured(),
            (cm is Left || cm is WordLeft) ==> final(self).pos() <= old(self).pos(),
            (final(self).pos(), final(self).shift(), r) == match cm {
                CursorMovement::Left(n) => left_move(
                    old(self).text(),
                    old(self).pos(),
                    old(self).shift(),
                    old(self).pad(),
                    left_target(old(self).text(), old(self).pos(), n as int),
                ),
                CursorMovement::WordLeft(n) => left_move(
                    old(self).text(),
                    old(self).pos(),
                    old(self).shift(),
                    old(self).pad(),
                    word_left_target(old(self).text(), old(self).pos(), n as int),
                ),
                CursorMovement::Right(n) => right_move(
                    old(self).text(),
                    old(self).pos(),
                    old(self).shift(),
                    old(self).limit(),
                    right_target(old(self).text(), old(self).pos(), n as int),
                ),
                CursorMovement::WordRight(n) => right_move(
                    old(self).text(),
                    old(self).pos(),
                    old(self).shift(),
                    old(self).limit(),
                    word_right_target(old(self).text(), old(self).pos(), n as int),
                ),
                CursorMovement::ToStart => if old(self).pos() == 0 {
                    (old(self).pos(), old(self).shift(), false)
                } else {
                    (0, 0, true)
                },
                CursorMovement::ToEnd => end_move(
                    old(self).text(),
                    old(self).pos(),
                    old(self).shift(),
                    old(self).limit(),
                ),
            },
    {
        match cm {
            CursorMovement::Left(n) => {
                let new_offset = self.left_of(n);
                self.step_left(new_offset)
            },
            CursorMovement::WordLeft(n) => {
                let new_offset = self.word_left_of(n);
                self.step_left(new_offset)
            },
            CursorMovement::Right(n) => {
                let new_offset = self.right_of(n);
                self.step_right(new_offset)
            },
            CursorMovement::WordRight(n) => {
                let new_offset = self.word_right_of(n);
                self.step_right(new_offset)
            },
            CursorMovement::ToStart => {
                if self.offset == 0 {
                    false
                } else {
                    self.offset = 0;
                    self.screen_offset = 0;
                    true
                }
            },
            CursorMovement::ToEnd => {
                if self.offset == self.contents.len() {
                    false
                } else {
                    let so = self.shift_to_end_exec();
                    self.screen_offset = so;
                    self.offset = self.contents.len();
                    true
                }
            },
        }
    }

    /// Move the cursor left to `new_offset`, if that is a move.
    fn step_left(&mut self, new_offset: usize) -> (r: bool)
        requires
            old(self).wf(),
            new_offset <= old(self).pos(),
        ensures
            final(self).wf(),
            final(self).text() == old(self).text(),
            final(self).cols() == old(self).cols(),
            final(self).configured() == old(self).configured(),
            (final(self).pos(), final(self).shift(), r) == left_move(
                old(self).text(),
                old(self).pos(),
                old(self).shift(),
                old(self).pad(),
                new_offset as int,
            ),
    {
        if new_offset != self.offset {
            let step_width = width_of(self.part(new_offset, self.offset));
            self.offset = new_offset;
            self.left_by(step_width);
            true
        } else {
            false
        }
    }

    /// Move the cursor right to `new_offset`, if that is a move.
    fn step_right(&mut self, new_offset: usize) -> (r: bool)
        requires
            old(self).wf(),
            old(self).pos() <= new_offset <= old(self).text().len(),
        ensures
            final(self).wf(),
            final(self).text() == old(self).text(),
            final(self).cols() == old(self).cols(),
            final(self).configured() == old(self).configured(),
            (final(self).pos(), final(self).shift(), r) == right_move(
                old(self).text(),
                old(self).pos(),
                old(self).shift(),
                old(self).limit(),
                new_offset as int,
            ),
    {
        if new_offset != self.offset {
            let step_width = width_of(self.part(self.offset, new_offset));
            self.offset = new_offset;
            self.right_by(step_width);
            true
        } else {
            false
        }
    }
}

impl Prompt {
    /// Insert characters at the cursor position, keeping the screen column in step with the width
    /// of the grapheme cluster the cursor ends up in.
    fn insert(&mut self, ins: &[char])
        requires
            old(self).wf(),
        ensures
            final(self).wf(),
            (final(self).text(), final(self).pos(), final(self).shift()) == insert_result(
                old(self).text(),
                old(self).pos(),
                old(self).shift(),
                old(self).limit(),
                old(self).pad(),
                ins@,
            ),
            final(self).cols() == old(self).cols(),
            final(self).configured() == old(self).configured(),
    {
        let t = self.part(0, self.offset);
        assert(t@ == self.text().take(self.pos()));
        let (lens, _) = clusters(t);
        let c = lens.len();
        let prev = if c > 0 {
            start_of(t, &lens, c - 1)
        } else {
            self.offset
        };
        proof {
            if c > 0 {
                lemma_cluster_start_bounds(t@, c - 1, c as int);
                assert(cluster_lens(t@).take(c as int) =~= cluster_lens(t@));
            }
        }
        let old_width = width_of(self.part(prev, self.offset));
        let len = self.contents.len();
        let head = concat(self.part(0, self.offset), ins);
        let v = concat(head.as_slice(), self.part(self.offset, len));
        let nl = v.len();
        let ghost s2 = v@;
        assert(s2 =~= old(self).text().take(old(self).pos()) + ins@ + old(self).text().skip(
            old(self).pos(),
        ));
        self.contents = v;
        self.offset = self.offset + ins.len();
        let new_width = width_of(self.part(prev, self.offset));
        if new_width > old_width {
            self.right_by(new_width - old_width);
        } else if old_width > new_width {
            self.left_by(old_width - new_width);
        }
    }

    /// Insert a character at the cursor position.
    fn insert_char(&mut self, ch: char)
        requires
            old(self).wf(),
        ensures
            final(self).wf(),
            (final(self).text(), final(self).pos(), final(self).shift()) == insert_result(
                old(self).text(),
                old(self).pos(),
                old(self).shift(),
                old(self).limit(),
                old(self).pad(),
                seq![ch],
            ),
            final(self).cols() == old(self).cols(),
            final(self).configured() == old(self).configured(),
    {
        let v = vec![ch];
        assert(v@ =~= seq![ch]);
        self.insert(v.as_slice());
    }

    /// Resize the screen, adjusting the padding and the screen column of the cursor.
    pub fn resize(&mut self, width: u16)
        requires
            old(self).wf(),
        ensures
            final(self).wf(),
            final(self).cols() == width,
            final(self).text() == old(self).text(),
            final(self).pos() == old(self).pos(),
            final(self).configured() == old(self).configured(),
            final(self).shift() == resized_shift(
                old(self).text(),
                old(self).pos(),
                old(self).shift(),
                width,
                old(self).configured(),
            ),
    {
        self.width = width;
        let padding = self.padding();
        let capacity = width - padding;
        let len = self.contents.len();
        let before = as_u16(width_of(self.part(0, self.offset)));
        let after = as_u16(width_of(self.part(self.offset, len)));
        assert(self.text().subrange(0, self.pos()) == self.text().take(self.pos()));
        assert(self.text().subrange(self.pos(), self.text().len() as int) == self.text().skip(
            self.pos(),
        ));
        let upper = if before <= capacity {
            before
        } else {
            capacity
        };
        let a = if padding <= before {
            padding
        } else {
            before
        };
        let b = capacity.saturating_sub(after);
        let m = if a >= b {
            a
        } else {
            b
        };
        let lower = if m <= upper {
            m
        } else {
            upper
        };
        self.screen_offset = if self.screen_offset < lower {
            lower
        } else if self.screen_offset > upper {
            upper
        } else {
            self.screen_offset
        };
    }

    /// Reset the prompt to the normalized query, moving the cursor to the end; returns whether the
    /// contents changed.
    pub fn set_query(&mut self, prompt: String) -> (r: bool)
        requires
            old(self).wf(),
        ensures
            final(self).wf(),
            final(self).text() == prompt_normalized(prompt@),
            final(self).pos() == final(self).text().len(),
            final(self).shift() == min_i(
                sat16(text_width(final(self).text()) as int),
                old(self).limit(),
            ),
            final(self).cols() == old(self).cols(),
            final(self).configured() == old(self).configured(),
            r == (prompt_normalized(prompt@) != old(self).text()),
    {
        let mut contents = prompt;
        normalize_prompt_string(&mut contents);
        let chars = str_chars(contents.as_str());
        let changed = !same_chars(chars.as_slice(), self.contents.as_slice());
        let w = as_u16(width_of(chars.as_slice()));
        let limit = self.max_offset();
        self.contents = chars;
        self.offset = self.contents.len();
        self.screen_offset = if w <= limit {
            w
        } else {
            limit
        };
        changed
    }

    /// The visible part of the prompt, and the number of columns hidden at the left edge of the
    /// screen when a wide grapheme cluster is cut there.
    pub fn view(&self) -> (r: (String, u16))
        requires
            self.wf(),
        ensures
            self.cols() == 0 ==> r.0@ == Seq::<char>::empty() && r.1 == 0,
            self.cols() != 0 ==> {
                let before = self.text().take(self.pos());
                let after = self.text().skip(self.pos());
                let left = view_left(before, cluster_lens(before).len() as int, 0, self.shift());
                let right = self.pos() + view_right(after, 0, 0, self.cols() - self.shift());
                &&& r.0@ == self.text().subrange(left.0, right)
                &&& r.1 == left.1
            },
    {
        if self.width == 0 {
            return (String::new(), 0);
        }
        visible(self.contents.as_slice(), self.offset, self.screen_offset, self.width)
    }
}

impl Prompt {
    /// Remove the characters from `a` to `b`.
    fn remove_range(&mut self, a: usize, b: usize)
        requires
            a <= b <= old(self).text().len(),
        ensures
            final(self).text() == old(self).text().take(a as int) + old(self).text().skip(b as int),
            final(self).pos() == old(self).pos(),
            final(self).shift() == old(self).shift(),
            final(self).cols() == old(self).cols(),
            final(self).configured() == old(self).configured(),
    {
        let len = self.contents.len();
        let v = concat(self.part(0, a), self.part(b, len));
        assert(self.text().subrange(0, a as int) == self.text().take(a as int));
        assert(self.text().subrange(b as int, len as int) == self.text().skip(b as int));
        self.contents = v;
    }

    /// Apply a prompt event; see `prompt_step` for what each event does.
    pub fn handle(&mut self, e: PromptEvent) -> (r: PromptStatus)
        requires
            old(self).wf(),
        ensures
            final(self).wf(),
            final(self).cols() == old(self).cols(),
            final(self).configured() == old(self).configured(),
            (final(self).text(), final(self).pos(), final(self).shift(), r.needs_redraw, r.contents_changed)
                == prompt_step(
                old(self).text(),
                old(self).pos(),
                old(self).shift(),
                old(self).cols(),
                old(self).configured(),
                model(e),
            ),
            r.contents_changed == (final(self).text() != old(self).text()),
            r.contents_changed ==> r.needs_redraw,
            e is Left || e is WordLeft || e is Right || e is WordRight || e is ToStart || e is ToEnd
                ==> final(self).text() == old(self).text() && !r.contents_changed,
    {
        let mut contents_changed = false;
        let needs_redraw = match e {
            PromptEvent::Reset(s) => {
                contents_changed = self.set_query(s);
                true
            },
            PromptEvent::Left(n) => self.move_cursor(CursorMovement::Left(n)),
            PromptEvent::WordLeft(n) => self.move_cursor(CursorMovement::WordLeft(n)),
            PromptEvent::Right(n) => self.move_cursor(CursorMovement::Right(n)),
            PromptEvent::WordRight(n) => self.move_cursor(CursorMovement::WordRight(n)),
            PromptEvent::ToStart => self.move_cursor(CursorMovement::ToStart),
            PromptEvent::ToEnd => self.move_cursor(CursorMovement::ToEnd),
            PromptEvent::Insert(ch) => {
                match normalize_char(ch) {
                    Some(c) => {
                        contents_changed = true;
                        self.insert_char(c);
                        true
                    },
                    None => false,
                }
            },
            PromptEvent::Paste(s) => {
                let mut s = s;
                normalize_prompt_string(&mut s);
                let chars = str_chars(s.as_str());
                if chars.len() > 0 {
                    contents_changed = true;
                    self.insert(chars.as_slice());
                    true
                } else {
                    false
                }
            },
            PromptEvent::Backspace(n) => {
                let delete_until = self.offset;
                if self.move_cursor(CursorMovement::Left(n)) {
                    let start = self.offset;
                    self.remove_range(start, delete_until);
                    contents_changed = true;
                    true
                } else {
                    false
                }
            },
            PromptEvent::BackspaceWord(n) => {
                let delete_until = self.offset;
                if self.move_cursor(CursorMovement::WordLeft(n)) {
                    let start = self.offset;
                    self.remove_range(start, delete_until);
                    contents_changed = true;
                    true
                } else {
                    false
                }
            },
            PromptEvent::ClearBefore => {
                if self.offset == 0 {
                    false
                } else {
                    let start = self.offset;
                    self.remove_range(0, start);
                    assert(self.text() =~= old(self).text().skip(old(self).pos()));
                    self.offset = 0;
                    self.screen_offset = 0;
                    contents_changed = true;
                    true
                }
            },
            PromptEvent::Delete(n) => {
                let new_offset = self.right_of(n);
                if new_offset != self.offset {
                    let start = self.offset;
                    self.remove_range(start, new_offset);
                    contents_changed = true;
                    true
                } else {
                    false
                }
            },
            PromptEvent::ClearAfter => {
                let len = self.contents.len();
                if self.offset == len {
                    false
                } else {
                    let start = self.offset;
                    self.remove_range(start, len);
                    assert(self.text() =~= old(self).text().take(old(self).pos()));
                    contents_changed = true;
                    true
                }
            },
        };
        PromptStatus { needs_redraw, contents_changed }
    }
}

} // verus!
