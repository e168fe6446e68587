use nucleo_picker::error::PickError;
use nucleo_picker::event::bind::{
    keybind_default, keybind_multi_passthrough, keybind_no_multi, keybind_no_multi_passthrough,
    KeyCode, KeyEvent, KeyModifiers,
};
use nucleo_picker::event::{Event, MatchListEvent, RecvError};
use nucleo_picker::frame::Redraw;
use nucleo_picker::lazy::{LazyMatchList, LazyPrompt};
use nucleo_picker::match_list::draw::{decimal_width, status_fill, status_text};
use nucleo_picker::match_list::{
    reparse_mode, IndexBuffer, MatchList, MatchListConfig, SelectedIndices,
};
use nucleo_picker::picker::{after_events, after_restart, after_update, handle_event, Control, Outcome};
use nucleo_picker::prompt::{normalize_prompt_string, Prompt, PromptConfig, PromptEvent, PromptStatus};
use nucleo_picker::term::item::{ascii_item_size, unicode_item_size};
use nucleo_picker::term::{CompositorBuffer, Dimensions};
use nucleo_picker::{CaseMatching, Normalization, PickerChars};

fn prompt(width: u16) -> Prompt {
    let mut p = Prompt::new(PromptConfig::new());
    p.resize(width);
    p
}

#[test]
fn lazy_prompt_merges_consecutive_events() {
    let mut p = prompt(20);
    let mut lazy = LazyPrompt::new();
    lazy.handle(&mut p, PromptEvent::Paste("ab".to_owned()));
    lazy.handle(&mut p, PromptEvent::Insert('c'));
    lazy.handle(&mut p, PromptEvent::Paste("de".to_owned()));
    // nothing reaches the prompt until an event does not combine
    assert!(lazy.is_empty(&p));
    lazy.handle(&mut p, PromptEvent::Left(1));
    assert_eq!(p.contents(), "abcde");
    lazy.handle(&mut p, PromptEvent::Left(2));
    let status = lazy.finish(&mut p);
    assert!(status.needs_redraw);
    assert!(status.contents_changed);
    assert_eq!(p.screen_offset(), 2);
}

#[test]
fn lazy_prompt_clear_before_absorbs_backspaces() {
    let mut p = prompt(20);
    p.handle(PromptEvent::Paste("abc def".to_owned()));
    let mut lazy = LazyPrompt::new();
    lazy.handle(&mut p, PromptEvent::Backspace(1));
    lazy.handle(&mut p, PromptEvent::ClearBefore);
    let status = lazy.finish(&mut p);
    assert!(status.contents_changed);
    assert_eq!(p.contents(), "");
}

#[test]
fn selected_indices_respect_the_limit() {
    let mut q = SelectedIndices::init(Some(2));
    assert!(q.is_empty());
    assert!(q.toggle(3));
    assert!(q.toggle(5));
    assert!(!q.toggle(7));
    assert!(!q.is_queued(7));
    assert_eq!(q.count(), (2, Some(2)));
    assert!(q.toggle(3));
    assert!(!q.is_queued(3));
    assert!(q.toggle(3));
    assert!(q.is_queued(3));
    assert!(q.clear());
    assert!(!q.clear());
    assert_eq!(q.len(), 0);
}

#[test]
fn dimensions_leave_room_for_prompt_and_status() {
    let d = Dimensions::from_screen(3, 20, 10);
    assert_eq!(d.scroll_padding_top, 3);
    assert_eq!(d.max_prompt_width(), 18);
    assert_eq!(d.max_draw_height(), 8);
    assert_eq!(d.max_draw_length(), 18);
    assert_eq!(d.move_to_screen_index(0), (0, 7));
    assert_eq!(d.move_to_prompt(), (0, 9));
    assert_eq!(d.move_to_cursor(4), (6, 9));
    assert_eq!(d.move_to_end_of_line(), 19);
    assert_eq!(d.move_to_results_start(), (0, 8));
    let small = Dimensions::from_screen(3, 1, 4);
    assert_eq!(small.scroll_padding_bottom, 0);
    assert_eq!(small.max_draw_length(), 0);
}

#[test]
fn buffers_start_empty() {
    let b = CompositorBuffer::new();
    assert!(b.spans.is_empty() && b.lines.is_empty() && b.indices.is_empty());
    let b = IndexBuffer::new();
    assert!(b.spans.is_empty() && b.lines.is_empty() && b.indices.is_empty());
}

#[test]
fn picker_chars_and_defaults() {
    let chars = PickerChars::new();
    assert_eq!(chars.ellipsis, '…');
    assert_eq!(chars.spinner_chars.len(), 10);
    let ascii = PickerChars::ascii();
    assert_eq!(ascii.selection, '>');
    assert_eq!(ascii.spinner_chars, vec!['|', '|', '/', '/', '-', '-', '\\', '\\']);
    assert_eq!(PickerChars::default(), chars);
    assert_eq!(CaseMatching::default(), CaseMatching::Smart);
    assert_eq!(Normalization::default(), Normalization::Smart);
}

#[test]
fn error_messages() {
    let e: PickError = PickError::UserInterrupted;
    assert_eq!(e.message(), Some("keyboard interrupt"));
    let e: PickError = PickError::from_io(std::io::Error::other("x"));
    assert!(e.message().is_none());
    assert!(matches!(RecvError::from_channel(true), RecvError::Timeout));
    assert!(matches!(RecvError::from_channel(false), RecvError::Disconnected));
    assert!(matches!(RecvError::from_io(std::io::Error::other("y")), RecvError::IO(_)));
}

fn key(code: KeyCode, modifiers: KeyModifiers) -> KeyEvent {
    KeyEvent { code, modifiers, press: true }
}

#[test]
fn default_key_bindings() {
    let up: Option<Event> = keybind_default(key(KeyCode::Up, KeyModifiers::Plain));
    assert!(matches!(up, Some(Event::MatchList(MatchListEvent::Up(1)))));
    let word: Option<Event> = keybind_default(key(KeyCode::Char('f'), KeyModifiers::Alt));
    assert!(matches!(word, Some(Event::Prompt(PromptEvent::WordLeft(1)))));
    let interrupt: Option<Event> = keybind_default(key(KeyCode::Char('c'), KeyModifiers::Control));
    assert!(matches!(interrupt, Some(Event::UserInterrupt)));
    let insert: Option<Event> = keybind_default(key(KeyCode::Char('X'), KeyModifiers::Shift));
    assert!(matches!(insert, Some(Event::Prompt(PromptEvent::Insert('X')))));
    // multi-selection bindings are part of the defaults, but not of the single-selection ones
    let toggle: Option<Event> = keybind_default(key(KeyCode::Tab, KeyModifiers::Plain));
    assert!(matches!(toggle, Some(Event::MatchList(MatchListEvent::ToggleDown(1)))));
    let single: Option<Event> = keybind_no_multi(key(KeyCode::Tab, KeyModifiers::Plain));
    assert!(single.is_none());
    // releases and unbound combinations produce nothing
    let released: Option<Event> =
        keybind_default(KeyEvent { code: KeyCode::Up, modifiers: KeyModifiers::Plain, press: false });
    assert!(released.is_none());
    let combined: Option<Event> = keybind_default(key(KeyCode::Char('c'), KeyModifiers::Combined));
    assert!(combined.is_none());
    let handed_back: Result<Event, KeyEvent> =
        keybind_multi_passthrough(key(KeyCode::Esc, KeyModifiers::Plain));
    assert!(matches!(handed_back, Err(k) if k == key(KeyCode::Esc, KeyModifiers::Plain)));
    let deselect: Result<Event, KeyEvent> =
        keybind_no_multi_passthrough(key(KeyCode::Char('-'), KeyModifiers::Control));
    assert!(deselect.is_err());
}

#[test]
fn lazy_match_list_gathers_moves() {
    let mut list = MatchList::new(MatchListConfig::new());
    let mut lazy = LazyMatchList::new(&list);
    let matches = [10u32, 11, 12];
    let mut queued = SelectedIndices::init(None);
    lazy.handle(MatchListEvent::Up(1), false, &matches, &mut queued);
    assert_eq!(lazy.selection(matches.len()), Some(1));
    lazy.handle(MatchListEvent::Up(5), false, &matches, &mut queued);
    assert_eq!(lazy.selection(matches.len()), Some(2));
    lazy.handle(MatchListEvent::Down(1), false, &matches, &mut queued);
    assert_eq!(lazy.selection(matches.len()), Some(1));
    // toggling queues the item of the selected match, then moves
    lazy.handle(MatchListEvent::ToggleUp(1), false, &matches, &mut queued);
    assert!(queued.is_queued(11));
    assert!(lazy.has_toggled());
    assert_eq!(lazy.selection(matches.len()), Some(2));
    // reversed, up moves towards the start of the list
    lazy.handle(MatchListEvent::Up(1), true, &matches, &mut queued);
    assert_eq!(lazy.selection(matches.len()), Some(1));
    lazy.handle(MatchListEvent::DeselectAll, false, &matches, &mut queued);
    assert!(queued.is_empty());
    lazy.handle(MatchListEvent::Reset, false, &matches, &mut queued);
    assert_eq!(lazy.selection(matches.len()), Some(0));
    assert_eq!(lazy.selection(0), None);
    assert!(lazy.finish(&mut list, &[1, 1, 1]));
    assert_eq!(list.selection(), 0);
}

#[test]
fn lazy_match_list_with_no_room_does_not_move_on_toggle() {
    let list = MatchList::new(MatchListConfig::new());
    let mut lazy = LazyMatchList::new(&list);
    let matches = [4u32, 5];
    let mut queued = SelectedIndices::init(Some(1));
    lazy.handle(MatchListEvent::ToggleUp(1), false, &matches, &mut queued);
    assert_eq!(lazy.selection(2), Some(1));
    lazy.handle(MatchListEvent::ToggleUp(1), false, &matches, &mut queued);
    // the limit is reached: nothing is toggled and the selection stays
    assert_eq!(lazy.selection(2), Some(1));
    assert!(queued.is_queued(4));
    assert!(!queued.is_queued(5));
}

#[test]
fn picker_event_decisions() {
    let mut p = prompt(20);
    let mut lazy_prompt = LazyPrompt::new();
    let list = MatchList::new(MatchListConfig::new());
    let mut lazy_list = LazyMatchList::new(&list);
    let mut queued = SelectedIndices::init(None);
    let mut redraw = Redraw::default();
    let matches = [7u32, 8];

    let c = handle_event::<()>(Ok(Event::Prompt(PromptEvent::Insert('a'))), &mut p, &mut lazy_prompt, &mut lazy_list, false, &matches, &mut queued, true, &mut redraw);
    assert!(matches!(c, Control::Continue));
    // the insert is still buffered: the prompt is not empty once flushed, so this does not quit
    let c = handle_event::<()>(Ok(Event::QuitPromptEmpty), &mut p, &mut lazy_prompt, &mut lazy_list, false, &matches, &mut queued, true, &mut redraw);
    assert!(matches!(c, Control::Continue));
    assert_eq!(p.contents(), "a");

    let c = handle_event::<()>(Ok(Event::Redraw), &mut p, &mut lazy_prompt, &mut lazy_list, false, &matches, &mut queued, true, &mut redraw);
    assert!(matches!(c, Control::Continue));
    assert!(redraw.all_required());

    let c = handle_event::<()>(Ok(Event::MatchList(MatchListEvent::Up(1))), &mut p, &mut lazy_prompt, &mut lazy_list, false, &matches, &mut queued, true, &mut redraw);
    assert!(matches!(c, Control::Continue));
    let c = handle_event::<()>(Ok(Event::Select), &mut p, &mut lazy_prompt, &mut lazy_list, false, &matches, &mut queued, true, &mut redraw);
    assert!(matches!(c, Control::Finish(Outcome::One(1))));

    let c = handle_event::<()>(Ok(Event::Select), &mut p, &mut lazy_prompt, &mut lazy_list, false, &[], &mut queued, true, &mut redraw);
    assert!(matches!(c, Control::Continue));

    queued.toggle(3);
    let c = handle_event::<()>(Ok(Event::Select), &mut p, &mut lazy_prompt, &mut lazy_list, false, &matches, &mut queued, true, &mut redraw);
    assert!(matches!(c, Control::Finish(Outcome::Queued)));
    let c = handle_event::<()>(Ok(Event::Quit), &mut p, &mut lazy_prompt, &mut lazy_list, false, &matches, &mut queued, true, &mut redraw);
    assert!(matches!(c, Control::Finish(Outcome::Nothing)));
    assert!(queued.is_empty());

    let c = handle_event::<u8>(Ok(Event::Abort(3)), &mut p, &mut lazy_prompt, &mut lazy_list, false, &matches, &mut queued, true, &mut redraw);
    assert!(matches!(c, Control::Finish(Outcome::Failed(PickError::Aborted(3)))));
    let c = handle_event::<()>(Ok(Event::UserInterrupt), &mut p, &mut lazy_prompt, &mut lazy_list, false, &matches, &mut queued, true, &mut redraw);
    assert!(matches!(c, Control::Finish(Outcome::Failed(PickError::UserInterrupted))));
    let c = handle_event::<()>(Err(RecvError::Timeout), &mut p, &mut lazy_prompt, &mut lazy_list, false, &matches, &mut queued, true, &mut redraw);
    assert!(matches!(c, Control::EndFrame));
    let c = handle_event::<()>(Err(RecvError::Disconnected), &mut p, &mut lazy_prompt, &mut lazy_list, false, &matches, &mut queued, true, &mut redraw);
    assert!(matches!(c, Control::Finish(Outcome::Failed(PickError::Disconnected))));

    // with an empty prompt, the picker quits
    let mut empty = prompt(20);
    let mut fresh = LazyPrompt::new();
    let c = handle_event::<()>(Ok(Event::QuitPromptEmpty), &mut empty, &mut fresh, &mut lazy_list, false, &matches, &mut queued, true, &mut redraw);
    assert!(matches!(c, Control::Finish(Outcome::Nothing)));
}

#[test]
fn frame_redraw_marks() {
    let mut redraw = Redraw::default();
    after_events(&mut redraw, PromptStatus { needs_redraw: true, contents_changed: false }, false, false);
    assert!(redraw.prompt && !redraw.match_list && !redraw.match_status);
    after_events(&mut redraw, PromptStatus::default(), true, false);
    assert!(redraw.match_list && !redraw.match_status);
    redraw.reset();
    after_events(&mut redraw, PromptStatus { needs_redraw: false, contents_changed: true }, false, false);
    assert!(redraw.match_list && redraw.match_status && !redraw.prompt);
    redraw.reset();
    after_update(&mut redraw, false, true);
    assert!(!redraw.match_list && redraw.match_status);
    after_update(&mut redraw, true, false);
    assert!(redraw.match_list);
}

#[test]
fn item_sizes_count_lines() {
    assert_eq!(ascii_item_size(b"one"), 1);
    assert_eq!(ascii_item_size(b"one\ntwo\n"), 3);
    assert_eq!(unicode_item_size(&['a', '\r', 'b', '\n', 'c']), 3);
    assert_eq!(unicode_item_size(&[]), 1);
}

fn rendered_prefix(width: u16, status_marker: Option<char>) -> String {
    match status_text(width, status_marker, 3, 5, None, PickerChars::new().separator) {
        Some(t) => format!("{}{}{}", t.counts, t.queued, t.fill),
        None => String::new(),
    }
}

#[test]
fn status_line() {
    assert!(rendered_prefix(12, None).contains("  3/5"));
    assert!(rendered_prefix(12, Some('⠏')).contains("⠏ 3/5"));
    assert!(rendered_prefix(12, Some('≈')).contains("≈ 3/5"));

    assert!(rendered_prefix(12, None).contains("─────"));

    assert!(!rendered_prefix(4, None).contains("3/5"));

    let exact = rendered_prefix(5, None);
    assert!(exact.contains("3/5"));
    assert!(!exact.contains("\x1b[K"));

    assert_eq!(decimal_width(0), 1);
    assert_eq!(decimal_width(9), 1);
    assert_eq!(decimal_width(10), 2);
    assert_eq!(decimal_width(u32::MAX), 10);
}

#[test]
fn status_text_parts() {
    let t = status_text(20, None, 12, 345, Some((2, Some(10))), '-').unwrap();
    assert_eq!(t.counts, "  12/345");
    assert_eq!(t.queued, " (2/10)");
    assert_eq!(t.fill, " ----");
    let t = status_text(10, Some('·'), 0, 0, Some((7, None)), '-').unwrap();
    assert_eq!(t.counts, "· 0/0");
    assert_eq!(t.queued, " (7)");
    assert_eq!(t.fill, " ");
    assert!(status_text(9, Some('·'), 0, 0, Some((70, None)), '-').is_none());
}

#[test]
fn match_counts_fill() {
    assert_eq!(status_fill(12, None, 3, 5, None), Some(7));
    assert_eq!(status_fill(12, Some('≈'), 3, 5, None), Some(7));
    // " (2/10)" for multiple selections
    assert_eq!(status_fill(12, None, 3, 5, Some((2, Some(10)))), Some(0));
    assert_eq!(status_fill(12, None, 3, 5, Some((2, None))), Some(3));
    // a control character as the marker takes no column
    assert_eq!(status_fill(12, Some('\u{7}'), 3, 5, None), Some(8));
}

#[test]
fn queued_indices_come_out_in_increasing_order() {
    let mut queued = SelectedIndices::init(None);
    queued.toggle(5);
    queued.toggle(2);
    queued.toggle(9);
    queued.toggle(5);
    queued.toggle(7);
    assert_eq!(queued.indices(), vec![2, 7, 9]);
    assert_eq!(queued.count(), (3, None));
}

#[test]
fn normalizing_twice_is_normalizing_once() {
    let mut s = String::from("a\tb\nc\u{7}d");
    normalize_prompt_string(&mut s);
    assert_eq!(s, "a b cd");
    let once = s.clone();
    normalize_prompt_string(&mut s);
    assert_eq!(s, once);
}

#[test]
fn merged_events_give_the_same_text_and_cursor() {
    // paste then insert, merged by the buffer, against the two handled one by one
    let mut merged = prompt(20);
    let mut lazy = LazyPrompt::new();
    lazy.handle(&mut merged, PromptEvent::Paste("x\ty".to_owned()));
    lazy.handle(&mut merged, PromptEvent::Insert('z'));
    lazy.finish(&mut merged);

    let mut separate = prompt(20);
    separate.handle(PromptEvent::Paste("x\ty".to_owned()));
    separate.handle(PromptEvent::Insert('z'));
    assert_eq!(merged.contents(), separate.contents());
    assert_eq!(merged.contents(), "x yz");

    // a move then a jump to the end
    let mut lazy = LazyPrompt::new();
    lazy.handle(&mut merged, PromptEvent::Left(2));
    lazy.handle(&mut merged, PromptEvent::ToEnd);
    lazy.finish(&mut merged);
    separate.handle(PromptEvent::Left(2));
    separate.handle(PromptEvent::ToEnd);
    assert_eq!(merged.contents(), separate.contents());
}

#[test]
fn single_picks_ignore_queue_events_and_restarts_start_over() {
    let mut p = prompt(20);
    let mut lazy_prompt = LazyPrompt::new();
    let list = MatchList::new(MatchListConfig::new());
    let mut lazy_list = LazyMatchList::new(&list);
    let mut queued = SelectedIndices::init(Some(1));
    let mut redraw = Redraw::default();
    let matches = [7u32, 8];

    let c = handle_event::<()>(Ok(Event::MatchList(MatchListEvent::ToggleUp(1))), &mut p, &mut lazy_prompt, &mut lazy_list, false, &matches, &mut queued, false, &mut redraw);
    assert!(matches!(c, Control::Continue));
    assert!(queued.is_empty());
    assert_eq!(lazy_list.selection(2), Some(0));

    let c = handle_event::<()>(Ok(Event::MatchList(MatchListEvent::Up(1))), &mut p, &mut lazy_prompt, &mut lazy_list, false, &matches, &mut queued, false, &mut redraw);
    assert!(matches!(c, Control::Continue));
    assert_eq!(lazy_list.selection(2), Some(1));

    queued.toggle(8);
    let c = handle_event::<()>(Ok(Event::Restart), &mut p, &mut lazy_prompt, &mut lazy_list, false, &matches, &mut queued, true, &mut redraw);
    assert!(matches!(c, Control::Restart));
    assert!(queued.is_empty());
    assert_eq!(lazy_list.selection(2), Some(0));

    let c: Control<()> = after_restart(true, &mut redraw);
    assert!(matches!(c, Control::Continue));
    assert!(redraw.match_list && redraw.match_status && !redraw.prompt);
    let c: Control<()> = after_restart(false, &mut redraw);
    assert!(matches!(c, Control::Finish(Outcome::Failed(PickError::Disconnected))));
}

#[test]
fn an_empty_screen_moves_the_selection_only_away_from_the_bottom() {
    let list = MatchList::new(MatchListConfig::new());
    assert!(list.can_move_to(0, 3));
    assert!(list.can_move_to(2, 3));
    let mut reversed = MatchListConfig::new();
    reversed.reversed = true;
    let list = MatchList::new(reversed);
    assert!(list.can_move_to(0, 3));
    assert!(!list.can_move_to(2, 3));
}

#[test]
fn no_multi_bindings_never_queue() {
    let k = KeyEvent { code: KeyCode::BackTab, modifiers: KeyModifiers::Shift, press: true };
    let single: Option<Event> = keybind_no_multi(k);
    assert!(single.is_none());
    let multi: Option<Event> = keybind_default(k);
    assert!(matches!(multi, Some(Event::MatchList(MatchListEvent::ToggleUp(1)))));
}

#[test]
fn content_changes_are_reported_exactly() {
    let mut p = prompt(20);
    let st = p.handle(PromptEvent::Insert('a'));
    assert!(st.contents_changed && st.needs_redraw);
    let st = p.handle(PromptEvent::Left(1));
    assert!(!st.contents_changed);
    let st = p.handle(PromptEvent::Backspace(1));
    assert!(!st.contents_changed);
    assert_eq!(p.contents(), "a");
    let st = p.handle(PromptEvent::Delete(1));
    assert!(st.contents_changed);
    assert_eq!(p.contents(), "");
    let mut q = String::from("x\ry");
    normalize_prompt_string(&mut q);
    assert_eq!(q, "x y");
}

#[test]
fn reparse_mode_appends_only_on_an_extension() {
    assert_eq!(reparse_mode("", ""), None);
    assert_eq!(reparse_mode("ab", "ab"), None);
    assert_eq!(reparse_mode("", "a"), Some(true));
    assert_eq!(reparse_mode("ab", "abc"), Some(true));
    assert_eq!(reparse_mode("ab", "ac"), Some(false));
    assert_eq!(reparse_mode("abc", "ab"), Some(false));
    assert_eq!(reparse_mode("ab", "b"), Some(false));
    assert_eq!(reparse_mode("é", "éa"), Some(true));
}

#[test]
fn a_frame_reports_every_change_of_the_query() {
    let mut p = prompt(20);
    let mut lazy = LazyPrompt::new();
    lazy.handle(&mut p, PromptEvent::Insert('a'));
    lazy.handle(&mut p, PromptEvent::Left(1));
    let status = lazy.finish(&mut p);
    assert_eq!(p.contents(), "a");
    assert!(status.contents_changed);

    let mut lazy = LazyPrompt::new();
    lazy.handle(&mut p, PromptEvent::Right(1));
    lazy.handle(&mut p, PromptEvent::Left(1));
    let status = lazy.finish(&mut p);
    assert_eq!(p.contents(), "a");
    assert!(!status.contents_changed);
}

#[test]
fn printable_ascii_is_one_column_and_one_cluster_per_character() {
    let text: Vec<char> = "ab c~".chars().collect();
    assert_eq!(nucleo_picker::segment::width_of(&text), 5);
    let (lens, widths) = nucleo_picker::segment::clusters(&text);
    assert_eq!(lens, vec![1, 1, 1, 1, 1]);
    assert_eq!(widths, vec![1, 1, 1, 1, 1]);

    let wide: Vec<char> = "a漢e\u{301}".chars().collect();
    assert_eq!(nucleo_picker::segment::width_of(&wide), 4);
    let (lens, widths) = nucleo_picker::segment::clusters(&wide);
    assert_eq!(lens, vec![1, 1, 2]);
    assert_eq!(widths, vec![1, 2, 1]);
}
