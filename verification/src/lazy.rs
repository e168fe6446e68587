//! Lazy handling of events: consecutive prompt events that combine are merged before the prompt
//! handles them, and moves of the selection are gathered before the match list is laid out.
use vstd::prelude::*;

use crate::match_list::selected::{has_room, toggled};
use crate::match_list::{clamp_selection, movable, MatchList, MatchListEvent, SelectedIndices};
use crate::prompt::{
    model, prompt_char, prompt_normalized, prompt_step, EventModel, Prompt, PromptEvent,
    PromptStatus,
};
use crate::text::push_char;
use crate::util::as_u32;

verus! {

/// Whether an event only moves the cursor.
pub open spec fn is_movement(e: EventModel) -> bool {
    e is Left || e is WordLeft || e is Right || e is WordRight || e is ToStart || e is ToEnd
}

/// The single event equivalent to `b` followed by `e`, when the two combine.
pub open spec fn merge(b: EventModel, e: EventModel) -> Option<EventModel> {
    if b is Left && e is Left {
        Some(EventModel::Left((b->Left_0 + e->Left_0) as usize))
    } else if b is WordLeft && e is WordLeft {
        Some(EventModel::WordLeft((b->WordLeft_0 + e->WordLeft_0) as usize))
    } else if b is Right && e is Right {
        Some(EventModel::Right((b->Right_0 + e->Right_0) as usize))
    } else if b is WordRight && e is WordRight {
        Some(EventModel::WordRight((b->WordRight_0 + e->WordRight_0) as usize))
    } else if e is ToStart && is_movement(b) {
        Some(EventModel::ToStart)
    } else if e is ToEnd && is_movement(b) {
        Some(EventModel::ToEnd)
    } else if b is Backspace && e is Backspace {
        Some(EventModel::Backspace((b->Backspace_0 + e->Backspace_0) as usize))
    } else if b is Delete && e is Delete {
        Some(EventModel::Delete((b->Delete_0 + e->Delete_0) as usize))
    } else if b is BackspaceWord && e is BackspaceWord {
        Some(EventModel::BackspaceWord((b->BackspaceWord_0 + e->BackspaceWord_0) as usize))
    } else if e is ClearBefore && (b is Backspace || b is ClearBefore || b is BackspaceWord) {
        Some(EventModel::ClearBefore)
    } else if e is ClearAfter && (b is Delete || b is ClearAfter) {
        Some(EventModel::ClearAfter)
    } else if b is Paste && e is Insert {
        Some(EventModel::Paste(b->Paste_0.push(e->Insert_0)))
    } else if b is Paste && e is Paste {
        Some(EventModel::Paste(b->Paste_0 + e->Paste_0))
    } else if e is Reset {
        Some(e)
    } else {
        None
    }
}

/// The merges that do not count graphemes or words: a reset after any event, a jump to the start
/// or the end after a movement, a clear after the same clear, and a paste followed by an insert
/// or a paste.
pub open spec fn merges_without_counts(b: EventModel, e: EventModel) -> bool {
    ||| e is Reset
    ||| (e is ToStart || e is ToEnd) && is_movement(b)
    ||| b is ClearBefore && e is ClearBefore
    ||| b is ClearAfter && e is ClearAfter
    ||| b is Paste && (e is Insert || e is Paste)
}

/// Normalizing a concatenation normalizes each part.
proof fn lemma_normalized_concat(a: Seq<char>, b: Seq<char>)
    ensures
        prompt_normalized(a + b) == prompt_normalized(a) + prompt_normalized(b),
    decreases b.len(),
{
    if b.len() == 0 {
        assert(a + b =~= a);
        assert(prompt_normalized(a) + prompt_normalized(b) =~= prompt_normalized(a));
    } else {
        lemma_normalized_concat(a, b.drop_last());
        assert((a + b).drop_last() =~= a + b.drop_last());
        assert((a + b).last() == b.last());
        match prompt_char(b.last()) {
            Some(c) => {
                assert(prompt_normalized(a) + prompt_normalized(b.drop_last()).push(c) =~= (
                prompt_normalized(a) + prompt_normalized(b.drop_last())).push(c));
            },
            None => {},
        }
    }
}

/// Handling two events that the prompt buffer merges, where the merge counts no graphemes or
/// words (see `merges_without_counts`), gives the same text and cursor as handling the merged
/// event.
#[verifier::rlimit(60)]
pub proof fn lemma_merge_without_counts(
    s: Seq<char>,
    pos: int,
    shift: int,
    cols: u16,
    cfg: u16,
    b: EventModel,
    e: EventModel,
)
    requires
        0 <= pos <= s.len(),
        merges_without_counts(b, e),
    ensures
        merge(b, e) is Some,
        ({
            let first = prompt_step(s, pos, shift, cols, cfg, b);
            let both = prompt_step(first.0, first.1, first.2, cols, cfg, e);
            let merged = prompt_step(s, pos, shift, cols, cfg, merge(b, e)->0);
            both.0 == merged.0 && both.1 == merged.1
        }),
{
    let first = prompt_step(s, pos, shift, cols, cfg, b);
    if b is Paste && e is Insert {
        let q = b->Paste_0;
        let ch = e->Insert_0;
        lemma_normalized_concat(q, seq![ch]);
        assert(q.push(ch) =~= q + seq![ch]);
        let t = prompt_normalized(q);
        assert(seq![ch].drop_last() =~= Seq::<char>::empty());
        assert(seq![ch].last() == ch);
        assert(prompt_normalized(Seq::<char>::empty()) == Seq::<char>::empty());
        match prompt_char(ch) {
            Some(c) => {
                assert(prompt_normalized(seq![ch]) =~= seq![c]);
                let s2 = s.take(pos) + t + s.skip(pos);
                let p2 = pos + t.len();
                assert(s2.take(p2) =~= s.take(pos) + t);
                assert(s2.skip(p2) =~= s.skip(pos));
                assert(s2.take(p2) + seq![c] + s2.skip(p2) =~= s.take(pos) + (t + seq![c]) + s.skip(pos));
                if t.len() == 0 {
                    assert(s.take(pos) + t + s.skip(pos) =~= s);
                    assert(t + seq![c] =~= seq![c]);
                }
            },
            None => {
                assert(prompt_normalized(seq![ch]) =~= Seq::<char>::empty());
                assert(t + Seq::<char>::empty() =~= t);
            },
        }
    } else if b is Paste && e is Paste {
        let q1 = b->Paste_0;
        let q2 = e->Paste_0;
        lemma_normalized_concat(q1, q2);
        let t1 = prompt_normalized(q1);
        let t2 = prompt_normalized(q2);
        let s2 = s.take(pos) + t1 + s.skip(pos);
        let p2 = pos + t1.len();
        assert(s2.take(p2) =~= s.take(pos) + t1);
        assert(s2.skip(p2) =~= s.skip(pos));
        assert(s2.take(p2) + t2 + s2.skip(p2) =~= s.take(pos) + (t1 + t2) + s.skip(pos));
        if t1.len() == 0 {
            assert(s.take(pos) + t1 + s.skip(pos) =~= s);
            assert(t1 + t2 =~= t2);
        }
        if t2.len() == 0 {
            assert(t1 + t2 =~= t1);
        }
    } else if b is ClearBefore && e is ClearBefore {
        if pos != 0 {
            assert(s.skip(pos).len() == s.len() - pos);
        }
    }
}

/// The counts of two events that combine by adding them fit in a `usize`.
pub open spec fn counts_fit(b: EventModel, e: EventModel) -> bool {
    &&& (b is Left && e is Left) ==> b->Left_0 + e->Left_0 <= usize::MAX
    &&& (b is WordLeft && e is WordLeft) ==> b->WordLeft_0 + e->WordLeft_0 <= usize::MAX
    &&& (b is Right && e is Right) ==> b->Right_0 + e->Right_0 <= usize::MAX
    &&& (b is WordRight && e is WordRight) ==> b->WordRight_0 + e->WordRight_0 <= usize::MAX
    &&& (b is Backspace && e is Backspace) ==> b->Backspace_0 + e->Backspace_0 <= usize::MAX
    &&& (b is Delete && e is Delete) ==> b->Delete_0 + e->Delete_0 <= usize::MAX
    &&& (b is BackspaceWord && e is BackspaceWord) ==> b->BackspaceWord_0 + e->BackspaceWord_0
        <= usize::MAX
}

/// `new` is the prompt `old` after it handled `e`, reporting `st`.
pub open spec fn stepped(old: Prompt, new: Prompt, e: EventModel, st: PromptStatus) -> bool {
    &&& new.wf()
    &&& new.cols() == old.cols()
    &&& new.configured() == old.configured()
    &&& (new.text(), new.pos(), new.shift(), st.needs_redraw, st.contents_changed) == prompt_step(
        old.text(),
        old.pos(),
        old.shift(),
        old.cols(),
        old.configured(),
        e,
    )
}

/// A step of the prompt that reports no change of contents leaves the text as it was.
pub proof fn lemma_unreported_step_keeps_text(old: Prompt, new: Prompt, e: EventModel, st: PromptStatus)
    requires
        stepped(old, new, e, st),
        !st.contents_changed,
    ensures
        new.text() == old.text(),
{
}

/// Across a frame, the gathered status reports every change of the prompt's text: if no change
/// was reported before the buffer took an event and the text was then `start`, then afterwards
/// either a change is reported or the text is still `start`. The same holds of a flush. Starting
/// from an empty buffer, whose status reports nothing, the status at the end of a frame therefore
/// reports a change whenever the text differs from the one the frame began with.
pub proof fn law_changes_are_reported(
    old_lp: LazyPrompt,
    new_lp: LazyPrompt,
    old_p: Prompt,
    new_p: Prompt,
    e: EventModel,
    start: Seq<char>,
)
    requires
        !old_lp.gathered().contents_changed ==> old_p.text() == start,
    ensures
        took(old_lp, new_lp, old_p, new_p, e) ==> (!new_lp.gathered().contents_changed
            ==> new_p.text() == start),
        flushed(old_lp, new_lp, old_p, new_p) ==> (!new_lp.gathered().contents_changed
            ==> new_p.text() == start),
{
    if took(old_lp, new_lp, old_p, new_p, e) && !new_lp.gathered().contents_changed {
        if let Some(b) = old_lp.buffered() {
            if merge(b, e) is None {
                let st = choose|st: PromptStatus|
                    stepped(old_p, new_p, b, st) && new_lp.gathered().needs_redraw == (
                    old_lp.gathered().needs_redraw || st.needs_redraw)
                        && new_lp.gathered().contents_changed == (
                    old_lp.gathered().contents_changed || st.contents_changed);
                lemma_unreported_step_keeps_text(old_p, new_p, b, st);
            }
        }
    }
    if flushed(old_lp, new_lp, old_p, new_p) && !new_lp.gathered().contents_changed {
        if let Some(b) = old_lp.buffered() {
            let st = choose|st: PromptStatus|
                stepped(old_p, new_p, b, st) && new_lp.gathered().needs_redraw == (
                old_lp.gathered().needs_redraw || st.needs_redraw)
                    && new_lp.gathered().contents_changed == (old_lp.gathered().contents_changed
                    || st.contents_changed);
            lemma_unreported_step_keeps_text(old_p, new_p, b, st);
        }
    }
}

/// Combine `b` and `e` into one event when they combine; otherwise hand both back.
fn combine(b: PromptEvent, e: PromptEvent) -> (r: Result<PromptEvent, (PromptEvent, PromptEvent)>)
    requires
        counts_fit(model(b), model(e)),
    ensures
        match merge(model(b), model(e)) {
            Some(m) => r matches Ok(x) && model(x) == m,
            None => r matches Err(p) && model(p.0) == model(b) && model(p.1) == model(e),
        },
{
    match (b, e) {
        (PromptEvent::Left(n1), PromptEvent::Left(n2)) => Ok(PromptEvent::Left(n1 + n2)),
        (PromptEvent::WordLeft(n1), PromptEvent::WordLeft(n2)) => Ok(PromptEvent::WordLeft(n1 + n2)),
        (PromptEvent::Right(n1), PromptEvent::Right(n2)) => Ok(PromptEvent::Right(n1 + n2)),
        (PromptEvent::WordRight(n1), PromptEvent::WordRight(n2)) => Ok(PromptEvent::WordRight(n1 + n2)),
        (b, PromptEvent::ToStart) if b.is_cursor_movement() => Ok(PromptEvent::ToStart),
        (b, PromptEvent::ToEnd) if b.is_cursor_movement() => Ok(PromptEvent::ToEnd),
        (PromptEvent::Backspace(n1), PromptEvent::Backspace(n2)) => Ok(PromptEvent::Backspace(n1 + n2)),
        (PromptEvent::Delete(n1), PromptEvent::Delete(n2)) => Ok(PromptEvent::Delete(n1 + n2)),
        (PromptEvent::BackspaceWord(n1), PromptEvent::BackspaceWord(n2)) => Ok(
            PromptEvent::BackspaceWord(n1 + n2),
        ),
        (PromptEvent::Backspace(_), PromptEvent::ClearBefore) => Ok(PromptEvent::ClearBefore),
        (PromptEvent::ClearBefore, PromptEvent::ClearBefore) => Ok(PromptEvent::ClearBefore),
        (PromptEvent::BackspaceWord(_), PromptEvent::ClearBefore) => Ok(PromptEvent::ClearBefore),
        (PromptEvent::Delete(_), PromptEvent::ClearAfter) => Ok(PromptEvent::ClearAfter),
        (PromptEvent::ClearAfter, PromptEvent::ClearAfter) => Ok(PromptEvent::ClearAfter),
        (PromptEvent::Paste(current), PromptEvent::Insert(ch)) => {
            let mut current = current;
            push_char(&mut current, ch);
            Ok(PromptEvent::Paste(current))
        },
        (PromptEvent::Paste(current), PromptEvent::Paste(s)) => {
            let mut current = current;
            current.append(s.as_str());
            Ok(PromptEvent::Paste(current))
        },
        (_, PromptEvent::Reset(s)) => Ok(PromptEvent::Reset(s)),
        (b, e) => Err((b, e)),
    }
}

/// `new_lp` and `new_p` are the buffer `old_lp` and the prompt `old_p` after the buffer took
/// `e`: the first event is buffered; an event that combines with the buffered one is merged into
/// it; otherwise the prompt handles the buffered event and `e` is buffered.
pub open spec fn took(old_lp: LazyPrompt, new_lp: LazyPrompt, old_p: Prompt, new_p: Prompt, e: EventModel) -> bool {
    match old_lp.buffered() {
        None => new_lp.buffered() == Some(e) && new_p == old_p && new_lp.gathered() == old_lp.gathered(),
        Some(b) => match merge(b, e) {
            Some(m) => new_lp.buffered() == Some(m) && new_p == old_p && new_lp.gathered()
                == old_lp.gathered(),
            None => new_lp.buffered() == Some(e) && exists|st: PromptStatus|
                stepped(old_p, new_p, b, st) && new_lp.gathered().needs_redraw == (
                old_lp.gathered().needs_redraw || st.needs_redraw) && new_lp.gathered().contents_changed
                == (old_lp.gathered().contents_changed || st.contents_changed),
        },
    }
}

/// `new_lp` and `new_p` are the buffer `old_lp` and the prompt `old_p` after the buffered event,
/// if any, was handled: nothing is buffered any more, and the status of the prompt is gathered.
pub open spec fn flushed(old_lp: LazyPrompt, new_lp: LazyPrompt, old_p: Prompt, new_p: Prompt) -> bool {
    &&& new_lp.buffered() is None
    &&& match old_lp.buffered() {
        None => new_p == old_p && new_lp.gathered() == old_lp.gathered(),
        Some(b) => exists|st: PromptStatus|
            stepped(old_p, new_p, b, st) && new_lp.gathered().needs_redraw == (
            old_lp.gathered().needs_redraw || st.needs_redraw) && new_lp.gathered().contents_changed
                == (old_lp.gathered().contents_changed || st.contents_changed),
    }
}

/// A prompt event buffer: events that combine are merged, and the prompt only handles an event
/// once the next one does not combine with it, or on [`finish`](Self::finish).
pub struct LazyPrompt {
    buffered_event: Option<PromptEvent>,
    status: PromptStatus,
}

impl LazyPrompt {
    /// The buffered event.
    pub closed spec fn buffered(&self) -> Option<EventModel> {
        match self.buffered_event {
            Some(e) => Some(model(e)),
            None => None,
        }
    }

    /// The status gathered so far.
    pub closed spec fn gathered(&self) -> PromptStatus {
        self.status
    }

    /// Whether the next event can be taken: counts that add up fit.
    pub open spec fn accepts(&self, e: PromptEvent) -> bool {
        match self.buffered() {
            Some(b) => counts_fit(b, model(e)),
            None => true,
        }
    }

    /// Whether or not the prompt is empty.
    pub fn is_empty(&self, prompt: &Prompt) -> (r: bool)
        ensures
            r == (prompt.text().len() == 0),
    {
        prompt.is_empty()
    }

    /// An empty buffer.
    pub fn new() -> (r: Self)
        ensures
            r.buffered() is None,
            !r.gathered().needs_redraw,
            !r.gathered().contents_changed,
    {
        Self { buffered_event: None, status: PromptStatus::default() }
    }

    /// Handle the buffered event, if any, and return the gathered status.
    pub fn finish(self, prompt: &mut Prompt) -> (r: PromptStatus)
        requires
            old(prompt).wf(),
        ensures
            final(prompt).wf(),
            match self.buffered() {
                None => *final(prompt) == *old(prompt) && r == self.gathered(),
                Some(e) => exists|st: PromptStatus|
                    stepped(*old(prompt), *final(prompt), e, st) && r.needs_redraw == (
                    self.gathered().needs_redraw || st.needs_redraw) && r.contents_changed == (
                    self.gathered().contents_changed || st.contents_changed),
            },
            !r.contents_changed ==> !self.gathered().contents_changed && final(prompt).text()
                == old(prompt).text(),
    {
        let mut status = self.status;
        match self.buffered_event {
            Some(event) => {
                let st = prompt.handle(event);
                assert(stepped(*old(prompt), *prompt, model(event), st));
                proof {
                    if !st.contents_changed {
                        lemma_unreported_step_keeps_text(*old(prompt), *prompt, model(event), st);
                    }
                }
                status.bitor_assign(st);
            },
            None => {},
        }
        status
    }

    /// Whether the event can be taken: see `accepts`.
    pub fn fits(&self, event: &PromptEvent) -> (r: bool)
        ensures
            r == self.accepts(*event),
    {
        match &self.buffered_event {
            None => true,
            Some(b) => match (b, event) {
                (PromptEvent::Left(n1), PromptEvent::Left(n2)) => n1.checked_add(*n2).is_some(),
                (PromptEvent::WordLeft(n1), PromptEvent::WordLeft(n2)) => n1.checked_add(*n2).is_some(),
                (PromptEvent::Right(n1), PromptEvent::Right(n2)) => n1.checked_add(*n2).is_some(),
                (PromptEvent::WordRight(n1), PromptEvent::WordRight(n2)) => n1.checked_add(*n2).is_some(),
                (PromptEvent::Backspace(n1), PromptEvent::Backspace(n2)) => n1.checked_add(*n2).is_some(),
                (PromptEvent::Delete(n1), PromptEvent::Delete(n2)) => n1.checked_add(*n2).is_some(),
                (PromptEvent::BackspaceWord(n1), PromptEvent::BackspaceWord(n2)) => n1.checked_add(
                    *n2,
                ).is_some(),
                _ => true,
            },
        }
    }

    /// Handle the buffered event, if any, keeping the gathered status.
    pub fn flush(&mut self, prompt: &mut Prompt)
        requires
            old(prompt).wf(),
        ensures
            final(prompt).wf(),
            flushed(*old(self), *final(self), *old(prompt), *final(prompt)),
    {
        match self.buffered_event.take() {
            Some(event) => {
                let st = prompt.handle(event);
                assert(stepped(*old(prompt), *prompt, model(event), st));
                self.status.bitor_assign(st);
            },
            None => {},
        }
    }

    /// Take an event: merge it into the buffered one where they combine; otherwise the prompt
    /// handles the buffered event and the new one is buffered.
    pub fn handle(&mut self, prompt: &mut Prompt, event: PromptEvent)
        requires
            old(prompt).wf(),
            old(self).accepts(event),
        ensures
            final(prompt).wf(),
            took(*old(self), *final(self), *old(prompt), *final(prompt), model(event)),
    {
        match self.buffered_event.take() {
            None => {
                self.buffered_event = Some(event);
            },
            Some(b) => {
                match combine(b, event) {
                    Ok(m) => {
                        self.buffered_event = Some(m);
                    },
                    Err((b, e)) => {
                        self.buffered_event = Some(e);
                        let st = prompt.handle(b);
                        assert(stepped(*old(prompt), *prompt, model(b), st));
                        self.status.bitor_assign(st);
                    },
                }
            },
        }
    }
}

/// The largest selection in a list of `len` matches (counted as a `u32`, saturating).
pub open spec fn max_selection(len: int) -> u32 {
    let count = if len <= u32::MAX { len } else { u32::MAX as int };
    (if count >= 1 { count - 1 } else { 0 }) as u32
}

/// The count `n` as a `u32`, saturating.
pub open spec fn count_u32(n: usize) -> int {
    if n <= u32::MAX { n as int } else { u32::MAX as int }
}

/// The selection moved `n` items towards the end of the list, and kept at most `max`.
pub open spec fn moved_on(sel: u32, n: usize, max: u32) -> u32 {
    let sum = sel + count_u32(n);
    let s = if sum <= u32::MAX { sum } else { u32::MAX as int };
    (if s <= max { s } else { max as int }) as u32
}

/// The selection moved `n` items towards the start of the list, and kept at least 0.
pub open spec fn moved_back(sel: u32, n: usize) -> u32 {
    (if sel >= count_u32(n) { sel - count_u32(n) } else { 0 }) as u32
}

/// The selection after moving up `n` items on the screen: towards the end of the list, or its
/// start when the list is reversed.
pub open spec fn moved_up(sel: u32, n: usize, reversed: bool, max: u32) -> u32 {
    if reversed { moved_back(sel, n) } else { moved_on(sel, n, max) }
}

/// The selection after moving down `n` items on the screen.
pub open spec fn moved_down(sel: u32, n: usize, reversed: bool, max: u32) -> u32 {
    if reversed { moved_on(sel, n, max) } else { moved_back(sel, n) }
}

/// Whether the selected match can be toggled: the list is not empty, and the item is queued or
/// another one may be.
pub open spec fn can_toggle(sel: u32, matches: Seq<u32>, q: Set<u32>, limit: Option<u32>) -> bool {
    &&& matches.len() > 0
    &&& q.contains(matches[sel as int]) || has_room(q, limit)
}

/// The buffered selection, whether the queue changed, and the queued item indices after one
/// event: `matches` holds the item index of each match, in match order.
pub open spec fn lazy_step(
    sel: u32,
    changed: bool,
    q: Set<u32>,
    limit: Option<u32>,
    event: MatchListEvent,
    reversed: bool,
    matches: Seq<u32>,
) -> (u32, bool, Set<u32>) {
    let max = max_selection(matches.len() as int);
    match event {
        MatchListEvent::Up(n) => (moved_up(sel, n, reversed, max), changed, q),
        MatchListEvent::Down(n) => (moved_down(sel, n, reversed, max), changed, q),
        MatchListEvent::ToggleUp(n) => if can_toggle(sel, matches, q, limit) {
            (moved_up(sel, n, reversed, max), true, toggled(q, limit, matches[sel as int]))
        } else {
            (sel, changed, q)
        },
        MatchListEvent::ToggleDown(n) => if can_toggle(sel, matches, q, limit) {
            (moved_down(sel, n, reversed, max), true, toggled(q, limit, matches[sel as int]))
        } else {
            (sel, changed, q)
        },
        MatchListEvent::DeselectAll => (sel, changed || q != Set::<u32>::empty(), Set::<u32>::empty()),
        MatchListEvent::Reset => (0, changed, q),
    }
}

/// Moving the selection over a non-empty list of matches: on a list that is not reversed,
/// `Down(n)` lowers the selection by `n`, stopping at the first match, and `Up(n)` raises it by `n`,
/// stopping at the last match; a reversed list swaps the two directions. Neither move touches the
/// queue or its changed flag.
pub proof fn law_selection_moves(
    sel: u32,
    changed: bool,
    q: Set<u32>,
    limit: Option<u32>,
    n: usize,
    reversed: bool,
    matches: Seq<u32>,
)
    requires
        1 <= matches.len() <= u32::MAX,
        sel < matches.len(),
    ensures
        ({
            let down = lazy_step(sel, changed, q, limit, MatchListEvent::Down(n), reversed, matches);
            let up = lazy_step(sel, changed, q, limit, MatchListEvent::Up(n), reversed, matches);
            let lower: int = if sel as int >= n as int { sel - n } else { 0 };
            let higher: int = if sel + n < matches.len() { sel + n } else { matches.len() - 1 };
            &&& down.1 == changed && down.2 == q
            &&& up.1 == changed && up.2 == q
            &&& !reversed ==> down.0 == lower && up.0 == higher
            &&& reversed ==> down.0 == higher && up.0 == lower
            &&& down.0 <= sel || reversed
            &&& up.0 >= sel || reversed
        }),
{
}

/// Toggling the selected match: when the item is queued, or the queue has room for another, the
/// item's membership in the queue flips, no other item changes, the queue is marked as changed,
/// and the selection then moves exactly as the plain move in the same direction would
/// (`ToggleDown(n)` as `Down(n)`, `ToggleUp(n)` as `Up(n)`). Otherwise nothing happens.
pub proof fn law_toggle_then_move(
    sel: u32,
    changed: bool,
    q: Set<u32>,
    limit: Option<u32>,
    n: usize,
    reversed: bool,
    matches: Seq<u32>,
)
    requires
        1 <= matches.len() <= u32::MAX,
        sel < matches.len(),
    ensures
        ({
            let item = matches[sel as int];
            let can = q.contains(item) || has_room(q, limit);
            let td = lazy_step(sel, changed, q, limit, MatchListEvent::ToggleDown(n), reversed, matches);
            let tu = lazy_step(sel, changed, q, limit, MatchListEvent::ToggleUp(n), reversed, matches);
            let d = lazy_step(sel, changed, q, limit, MatchListEvent::Down(n), reversed, matches);
            let u = lazy_step(sel, changed, q, limit, MatchListEvent::Up(n), reversed, matches);
            &&& can ==> td.0 == d.0 && tu.0 == u.0 && td.1 && tu.1
            &&& can ==> td.2.contains(item) == !q.contains(item) && tu.2.contains(item)
                == !q.contains(item)
            &&& can ==> forall|x: u32| x != item ==> (td.2.contains(x) == q.contains(x)
                && tu.2.contains(x) == q.contains(x))
            &&& !can ==> td == (sel, changed, q) && tu == (sel, changed, q)
        }),
{
}

/// With no matches, there is nothing to toggle: a toggle changes neither the selection nor the
/// queue.
pub proof fn law_no_toggle_without_matches(
    sel: u32,
    changed: bool,
    q: Set<u32>,
    limit: Option<u32>,
    n: usize,
    reversed: bool,
)
    ensures
        lazy_step(sel, changed, q, limit, MatchListEvent::ToggleDown(n), reversed, Seq::empty()) == (
            sel,
            changed,
            q,
        ),
        lazy_step(sel, changed, q, limit, MatchListEvent::ToggleUp(n), reversed, Seq::empty()) == (
            sel,
            changed,
            q,
        ),
{
}

/// Clearing the queue empties it and keeps the selection, marking a change exactly when
/// something was queued; resetting the selection moves it to the first match and keeps the
/// queue.
pub proof fn law_clear_and_reset(
    sel: u32,
    changed: bool,
    q: Set<u32>,
    limit: Option<u32>,
    reversed: bool,
    matches: Seq<u32>,
)
    ensures
        ({
            let c = lazy_step(sel, changed, q, limit, MatchListEvent::DeselectAll, reversed, matches);
            let r = lazy_step(sel, changed, q, limit, MatchListEvent::Reset, reversed, matches);
            &&& c.0 == sel
            &&& forall|x: u32| !c.2.contains(x)
            &&& c.1 == (changed || exists|x: u32| q.contains(x))
            &&& r == (0u32, changed, q)
        }),
{
    if forall|x: u32| !q.contains(x) {
        assert(q =~= Set::<u32>::empty());
    } else {
        let x = choose|x: u32| q.contains(x);
        assert(!Set::<u32>::empty().contains(x));
    }
}

/// A selection buffer: moves of the selection, and toggles of queued items, are gathered while
/// events arrive, and the match list is laid out once, on [`finish`](Self::finish).
pub struct LazyMatchList {
    buffered_selection: u32,
    toggled: bool,
}

impl LazyMatchList {
    /// The buffered selection.
    pub closed spec fn buffered(&self) -> u32 {
        self.buffered_selection
    }

    /// Whether a queued item was toggled.
    pub closed spec fn queue_changed(&self) -> bool {
        self.toggled
    }

    /// The buffered selection is a match, when there are matches.
    pub open spec fn fits(&self, matches: Seq<u32>) -> bool {
        matches.len() > 0 ==> (self.buffered() as int) < matches.len()
    }

    /// A buffer starting from the current selection of the match list.
    pub fn new(match_list: &MatchList) -> (r: Self)
        ensures
            r.buffered() == match_list.sel(),
            !r.queue_changed(),
    {
        Self { buffered_selection: match_list.selection(), toggled: false }
    }

    /// Start the selection over, for a restarted match list.
    pub fn restart(&mut self)
        ensures
            final(self).buffered() == 0,
            final(self).queue_changed() == old(self).queue_changed(),
    {
        self.buffered_selection = 0;
    }

    /// Whether a queued item was toggled.
    pub fn has_toggled(&self) -> (r: bool)
        ensures
            r == self.queue_changed(),
    {
        self.toggled
    }

    /// The buffered selection, unless there are no matches.
    pub fn selection(&self, matched: usize) -> (r: Option<u32>)
        ensures
            r == if matched == 0 { None } else { Some(self.buffered()) },
    {
        if matched == 0 {
            None
        } else {
            Some(self.buffered_selection)
        }
    }

    /// Toggle the selected match; returns whether anything changed.
    fn toggle_selection(&mut self, matches: &[u32], queued: &mut SelectedIndices) -> (r: bool)
        requires
            old(self).fits(matches@),
            old(queued).wf(),
        ensures
            final(queued).wf(),
            final(queued).max_queued() == old(queued).max_queued(),
            r == can_toggle(old(self).buffered(), matches@, old(queued).queued(), old(queued).max_queued()),
            r ==> final(self).queue_changed() && final(queued).queued() == toggled(
                old(queued).queued(),
                old(queued).max_queued(),
                matches@[old(self).buffered() as int],
            ),
            !r ==> final(self).queue_changed() == old(self).queue_changed() && final(queued).queued()
                == old(queued).queued(),
            final(self).buffered() == old(self).buffered(),
    {
        if matches.len() > 0 && queued.toggle(matches[self.buffered_selection as usize]) {
            self.toggled = true;
            true
        } else {
            false
        }
    }

    /// Move the buffered selection `n` items towards the end of the list.
    fn incr(&mut self, n: usize, max: u32)
        ensures
            final(self).buffered() == moved_on(old(self).buffered(), n, max),
            final(self).queue_changed() == old(self).queue_changed(),
    {
        let s = self.buffered_selection.saturating_add(as_u32(n));
        self.buffered_selection = if s <= max { s } else { max };
    }

    /// Move the buffered selection `n` items towards the start of the list.
    fn decr(&mut self, n: usize)
        ensures
            final(self).buffered() == moved_back(old(self).buffered(), n),
            final(self).queue_changed() == old(self).queue_changed(),
    {
        self.buffered_selection = self.buffered_selection.saturating_sub(as_u32(n));
    }

    /// Take an event: `matches` holds the item index of each match, in match order, and
    /// `queued` the queued item indices.
    pub fn handle(
        &mut self,
        event: MatchListEvent,
        reversed: bool,
        matches: &[u32],
        queued: &mut SelectedIndices,
    )
        requires
            old(self).fits(matches@),
            old(queued).wf(),
        ensures
            final(self).fits(matches@),
            final(queued).wf(),
            final(queued).max_queued() == old(queued).max_queued(),
            (final(self).buffered(), final(self).queue_changed(), final(queued).queued()) == lazy_step(
                old(self).buffered(),
                old(self).queue_changed(),
                old(queued).queued(),
                old(queued).max_queued(),
                event,
                reversed,
                matches@,
            ),
    {
        let len = as_u32(matches.len());
        let max = if len >= 1 { len - 1 } else { 0 };
        match event {
            MatchListEvent::Up(n) => {
                if reversed {
                    self.decr(n);
                } else {
                    self.incr(n, max);
                }
            },
            MatchListEvent::Down(n) => {
                if reversed {
                    self.incr(n, max);
                } else {
                    self.decr(n);
                }
            },
            MatchListEvent::ToggleUp(n) => {
                if self.toggle_selection(matches, queued) {
                    if reversed {
                        self.decr(n);
                    } else {
                        self.incr(n, max);
                    }
                }
            },
            MatchListEvent::ToggleDown(n) => {
                if self.toggle_selection(matches, queued) {
                    if reversed {
                        self.incr(n, max);
                    } else {
                        self.decr(n);
                    }
                }
            },
            MatchListEvent::DeselectAll => {
                let cleared = queued.clear();
                self.toggled = self.toggled || cleared;
            },
            MatchListEvent::Reset => {
                self.buffered_selection = 0;
            },
        }
    }

    /// Lay out the match list at the buffered selection; returns whether the selection moved or
    /// a queued item was toggled.
    pub fn finish(self, match_list: &mut MatchList, items: &[usize]) -> (r: bool)
        requires
            old(match_list).wf(),
            items@.len() > 0 ==> (old(match_list).sel() as int) < items@.len(),
            old(match_list).sel() != 0 ==> items@.len() > 0,
            movable(*old(match_list), clamp_selection(self.buffered() as int, items@.len() as int)),
        ensures
            final(match_list).wf(),
            final(match_list).sel() == clamp_selection(self.buffered() as int, items@.len() as int),
            final(match_list).height() == old(match_list).height(),
            r == (clamp_selection(self.buffered() as int, items@.len() as int) != old(match_list).sel()
                || self.queue_changed()),
    {
        let moved = match_list.set_selection(self.buffered_selection, items);
        moved || self.toggled
    }
}

} // verus!
