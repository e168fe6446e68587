//! The decisions of a running picker: what each received event does, and which parts of the
//! screen a frame redraws. The loop that waits for events and draws frames stands around them.
use vstd::prelude::*;

use crate::error::PickError;
use crate::event::{Event, MatchListEvent, RecvError};
use crate::frame::{Redraw, SizeChange};
use crate::lazy::{flushed, lazy_step, took, LazyMatchList, LazyPrompt};
use crate::match_list::SelectedIndices;
use crate::prompt::{model, prompt_normalized, Prompt, PromptStatus};

verus! {

/// How a pick ends.
pub enum Outcome<A> {
    /// Nothing is selected.
    Nothing,
    /// The queued items are selected.
    Queued,
    /// The match with this index (in match order) is selected.
    One(u32),
    /// The pick failed.
    Failed(PickError<A>),
}

/// What the picker does after an event.
pub enum Control<A> {
    /// Wait for the next event.
    Continue,
    /// No event came in time: finish the frame.
    EndFrame,
    /// The pick ends.
    Finish(Outcome<A>),
    /// The event source asked for a restart: the matcher starts over and a new injector is handed
    /// out; [`after_restart`] decides what follows.
    Restart,
}

/// Whether a match list event only acts on the queue of a pick of several items.
pub open spec fn queues(e: MatchListEvent) -> bool {
    e is ToggleUp || e is ToggleDown || e is DeselectAll
}

/// Handle what was received from the event source: prompt events go to the prompt buffer and
/// match list events to the selection buffer (`matches` holds the item index of each match, in
/// match order); the others decide whether the pick ends, and how. When the pick is of one item
/// (`multi` is false), nothing is ever queued, so the events that toggle or clear the queue do
/// nothing.
pub fn handle_event<A>(
    received: Result<Event<A>, RecvError>,
    prompt: &mut Prompt,
    lazy_prompt: &mut LazyPrompt,
    lazy_list: &mut LazyMatchList,
    reversed: bool,
    matches: &[u32],
    queued: &mut SelectedIndices,
    multi: bool,
    redraw: &mut Redraw,
) -> (r: Control<A>)
    requires
        old(prompt).wf(),
        old(lazy_list).fits(matches@),
        old(queued).wf(),
        received matches Ok(Event::Prompt(e)) ==> old(lazy_prompt).accepts(e),
    ensures
        final(prompt).wf(),
        final(lazy_list).fits(matches@),
        final(queued).wf(),
        final(queued).max_queued() == old(queued).max_queued(),
        r is Finish && r->Finish_0 is One ==> (r->Finish_0->One_0 as int) < matches@.len(),
        match received {
            Ok(Event::Prompt(e)) => {
                &&& r is Continue
                &&& took(*old(lazy_prompt), *final(lazy_prompt), *old(prompt), *final(prompt), model(e))
                &&& *final(lazy_list) == *old(lazy_list)
                &&& final(queued).queued() == old(queued).queued()
                &&& *final(redraw) == *old(redraw)
            },
            Ok(Event::MatchList(e)) => {
                &&& r is Continue
                &&& !multi && queues(e) ==> *final(lazy_list) == *old(lazy_list) && final(queued).queued()
                    == old(queued).queued()
                &&& multi || !queues(e) ==> (final(lazy_list).buffered(), final(lazy_list).queue_changed(), final(queued).queued())
                    == lazy_step(
                    old(lazy_list).buffered(),
                    old(lazy_list).queue_changed(),
                    old(queued).queued(),
                    old(queued).max_queued(),
                    e,
                    reversed,
                    matches@,
                )
                &&& *final(prompt) == *old(prompt)
                &&& *final(lazy_prompt) == *old(lazy_prompt)
                &&& *final(redraw) == *old(redraw)
            },
            Ok(Event::Redraw) => {
                &&& r is Continue
                &&& final(redraw).prompt && final(redraw).match_list && final(redraw).match_status
                &&& *final(prompt) == *old(prompt)
                &&& final(queued).queued() == old(queued).queued()
            },
            Ok(Event::Quit) => {
                &&& r == Control::<A>::Finish(Outcome::Nothing)
                &&& final(queued).queued() == Set::<u32>::empty()
                &&& *final(prompt) == *old(prompt)
            },
            Ok(Event::QuitPromptEmpty) => exists|mid: Prompt, lp: LazyPrompt|
                {
                    &&& flushed(*old(lazy_prompt), lp, *old(prompt), mid)
                    &&& *final(lazy_prompt) == lp
                    &&& if mid.text().len() == 0 {
                        &&& r == Control::<A>::Finish(Outcome::Nothing)
                        &&& final(queued).queued() == Set::<u32>::empty()
                        &&& final(prompt).text() == prompt_normalized(Seq::<char>::empty())
                        &&& final(prompt).pos() == final(prompt).text().len()
                    } else {
                        &&& r is Continue
                        &&& *final(prompt) == mid
                        &&& final(queued).queued() == old(queued).queued()
                    }
                },
            Ok(Event::Select) => {
                &&& old(queued).queued() != Set::<u32>::empty() ==> r == Control::<A>::Finish(
                    Outcome::Queued,
                )
                &&& old(queued).queued() == Set::<u32>::empty() && matches@.len() > 0 ==> r
                    == Control::<A>::Finish(Outcome::One(old(lazy_list).buffered()))
                &&& old(queued).queued() == Set::<u32>::empty() && matches@.len() == 0 ==> r is Continue
                &&& *final(prompt) == *old(prompt)
                &&& final(queued).queued() == old(queued).queued()
            },
            Ok(Event::UserInterrupt) => r == Control::<A>::Finish(
                Outcome::Failed(PickError::UserInterrupted),
            ),
            Ok(Event::Abort(a)) => r == Control::Finish(Outcome::Failed(PickError::Aborted(a))),
            Ok(Event::Restart) => {
                &&& r is Restart
                &&& final(queued).queued() == Set::<u32>::empty()
                &&& final(lazy_list).buffered() == 0
                &&& *final(prompt) == *old(prompt)
            },
            Err(RecvError::Timeout) => {
                &&& r is EndFrame
                &&& *final(prompt) == *old(prompt)
                &&& final(queued).queued() == old(queued).queued()
            },
            Err(RecvError::Disconnected) => r == Control::<A>::Finish(
                Outcome::Failed(PickError::Disconnected),
            ),
            Err(RecvError::IO(e)) => r == Control::<A>::Finish(Outcome::Failed(PickError::IO(e))),
        },
{
    match received {
        Ok(Event::Prompt(e)) => {
            lazy_prompt.handle(prompt, e);
            Control::Continue
        },
        Ok(Event::MatchList(e)) => {
            let queue_event = match e {
                MatchListEvent::ToggleUp(_) | MatchListEvent::ToggleDown(_) | MatchListEvent::DeselectAll => true,
                _ => false,
            };
            if multi || !queue_event {
                lazy_list.handle(e, reversed, matches, queued);
            }
            Control::Continue
        },
        Ok(Event::Redraw) => {
            redraw.set_all();
            Control::Continue
        },
        Ok(Event::Quit) => {
            queued.clear();
            Control::Finish(Outcome::Nothing)
        },
        Ok(Event::QuitPromptEmpty) => {
            lazy_prompt.flush(prompt);
            let ghost mid = *prompt;
            let ghost lp = *lazy_prompt;
            if prompt.is_empty() {
                prompt.set_query(String::new());
                queued.clear();
                Control::Finish(Outcome::Nothing)
            } else {
                Control::Continue
            }
        },
        Ok(Event::Select) => {
            if !queued.is_empty() {
                Control::Finish(Outcome::Queued)
            } else {
                match lazy_list.selection(matches.len()) {
                    Some(n) => Control::Finish(Outcome::One(n)),
                    None => Control::Continue,
                }
            }
        },
        Ok(Event::UserInterrupt) => Control::Finish(Outcome::Failed(PickError::UserInterrupted)),
        Ok(Event::Abort(a)) => Control::Finish(Outcome::Failed(PickError::Aborted(a))),
        Ok(Event::Restart) => {
            queued.clear();
            lazy_list.restart();
            Control::Restart
        },
        Err(RecvError::Timeout) => Control::EndFrame,
        Err(RecvError::Disconnected) => Control::Finish(Outcome::Failed(PickError::Disconnected)),
        Err(RecvError::IO(e)) => Control::Finish(Outcome::Failed(PickError::IO(e))),
    }
}

/// What follows a restart, given whether the new injector could be handed out: the pick fails as
/// disconnected when it could not; otherwise the match list and the counts are redrawn and the
/// pick goes on.
pub fn after_restart<A>(handed_out: bool, redraw: &mut Redraw) -> (r: Control<A>)
    ensures
        !handed_out ==> r == Control::<A>::Finish(Outcome::Failed(PickError::Disconnected))
            && *final(redraw) == *old(redraw),
        handed_out ==> r is Continue && final(redraw).match_list && final(redraw).match_status
            && final(redraw).prompt == old(redraw).prompt,
{
    if handed_out {
        redraw.match_list = true;
        redraw.match_status = true;
        Control::Continue
    } else {
        Control::Finish(Outcome::Failed(PickError::Disconnected))
    }
}

/// Mark the parts to redraw once the buffered events are handled: the prompt when it needs it;
/// the match list when the selection moved, a queued item was toggled, or the query changed;
/// the match counts when the queue or the query changed.
pub fn after_events(redraw: &mut Redraw, prompt_status: PromptStatus, moved: bool, queue_changed: bool)
    ensures
        final(redraw).prompt == (old(redraw).prompt || prompt_status.needs_redraw),
        final(redraw).match_list == (old(redraw).match_list || moved || queue_changed
            || prompt_status.contents_changed),
        final(redraw).match_status == (old(redraw).match_status || queue_changed
            || prompt_status.contents_changed),
{
    redraw.prompt = redraw.prompt || prompt_status.needs_redraw;
    redraw.match_list = redraw.match_list || moved || queue_changed;
    redraw.match_status = redraw.match_status || queue_changed;
    if prompt_status.contents_changed {
        redraw.match_list = true;
        redraw.match_status = true;
    }
}

/// Mark the parts to redraw once the matches are updated: the match list and the counts when the
/// matched items changed, and the counts when the status marker changed.
pub fn after_update(redraw: &mut Redraw, items_changed: bool, marker_changed: bool)
    ensures
        final(redraw).prompt == old(redraw).prompt,
        final(redraw).match_list == (old(redraw).match_list || items_changed),
        final(redraw).match_status == (old(redraw).match_status || items_changed || marker_changed),
{
    redraw.match_list = redraw.match_list || items_changed;
    redraw.match_status = redraw.match_status || items_changed || marker_changed;
}

/// Update the redraw markers after the screen size was read before drawing a frame: a change of
/// either dimension redraws everything. The result says whether the match list must be laid out
/// for a new height, which is the case exactly when the height changed.
pub fn after_resize(redraw: &mut Redraw, change: SizeChange) -> (relayout: bool)
    ensures
        relayout == change.height_did_change(),
        (change.width_changed() || change.height_did_change()) ==> (final(redraw).prompt
            && final(redraw).match_list && final(redraw).match_status),
        !(change.width_changed() || change.height_did_change()) ==> *final(redraw) == *old(redraw),
{
    if change.is_changed() {
        redraw.set_all();
    }
    change.height_changed()
}

} // verus!
