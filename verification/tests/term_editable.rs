use nucleo_picker::term::compositor::{batch_summary, draw_layout, CompositorState, TermEvent, TermStep};
use nucleo_picker::term::editable::{Edit, EditableString};
use nucleo_picker::term::{Dimensions, EventSummary};

#[test]
fn test_layout() {
    let mut editable = EditableString::new(6, 2);
    editable.edit(Edit::Insert('a'));
    assert_eq!(editable.screen_offset(), 1);
    editable.edit(Edit::Insert('Ａ'));
    assert_eq!(editable.screen_offset(), 3);
    editable.edit(Edit::Insert('B'));
    assert_eq!(editable.screen_offset(), 4);

    let mut editable = EditableString::new(6, 2);
    editable.edit(Edit::Paste("ＡaＡ".to_owned()));
    assert_eq!(editable.screen_offset(), 4);

    let mut editable = EditableString::new(6, 2);
    editable.edit(Edit::Paste("abc".to_owned()));
    assert_eq!(editable.screen_offset(), 3);
    editable.edit(Edit::Paste("ab".to_owned()));
    assert_eq!(editable.screen_offset(), 4);
    editable.edit(Edit::Left);
    assert_eq!(editable.screen_offset(), 3);
    editable.edit(Edit::Left);
    assert_eq!(editable.screen_offset(), 2);
    editable.edit(Edit::Left);
    assert_eq!(editable.screen_offset(), 2);
    editable.edit(Edit::Left);
    assert_eq!(editable.screen_offset(), 1);
    editable.edit(Edit::Left);
    assert_eq!(editable.screen_offset(), 0);

    let mut editable = EditableString::new(7, 2);
    editable.edit(Edit::Paste("ＡＡＡＡＡ".to_owned()));
    editable.edit(Edit::ToStart);
    assert_eq!(editable.screen_offset(), 0);
    editable.edit(Edit::Right);
    assert_eq!(editable.screen_offset(), 2);
    editable.edit(Edit::Right);
    assert_eq!(editable.screen_offset(), 4);
    editable.edit(Edit::Right);
    assert_eq!(editable.screen_offset(), 5);
    editable.edit(Edit::Right);
    assert_eq!(editable.screen_offset(), 5);
    editable.edit(Edit::Left);
    assert_eq!(editable.screen_offset(), 3);
    editable.edit(Edit::Left);
    assert_eq!(editable.screen_offset(), 2);
    editable.edit(Edit::Left);
    assert_eq!(editable.screen_offset(), 2);
    editable.edit(Edit::Left);
    assert_eq!(editable.screen_offset(), 0);

    let mut editable = EditableString::new(7, 2);
    editable.edit(Edit::Paste("abc".to_owned()));
    editable.edit(Edit::ToStart);
    editable.edit(Edit::ToEnd);
    assert_eq!(editable.screen_offset(), 3);
    editable.edit(Edit::Paste("defghi".to_owned()));
    editable.edit(Edit::ToStart);
    editable.edit(Edit::ToEnd);
    assert_eq!(editable.screen_offset(), 5);
}

#[test]
fn test_view() {
    let mut editable = EditableString::new(7, 2);
    editable.edit(Edit::Paste("abc".to_owned()));
    assert_eq!(editable.view(), ("abc".to_owned(), 0));

    let mut editable = EditableString::new(6, 1);
    editable.edit(Edit::Paste("ＡＡＡＡＡＡ".to_owned()));
    assert_eq!(editable.view(), ("ＡＡ".to_owned(), 1));

    let mut editable = EditableString::new(7, 2);
    editable.edit(Edit::Paste("ＡＡＡＡ".to_owned()));
    assert_eq!(editable.view(), ("ＡＡ".to_owned(), 1));
    editable.edit(Edit::Left);
    assert_eq!(editable.view(), ("ＡＡ".to_owned(), 1));
    editable.edit(Edit::Left);
    assert_eq!(editable.view(), ("ＡＡＡ".to_owned(), 0));

    let mut editable = EditableString::new(7, 2);
    editable.edit(Edit::Paste("012345678".to_owned()));
    editable.edit(Edit::ToStart);
    assert_eq!(editable.view(), ("0123456".to_owned(), 0));

    let mut editable = EditableString::new(7, 2);
    editable.edit(Edit::Paste("012345Ａ".to_owned()));
    editable.edit(Edit::ToStart);
    assert_eq!(editable.view(), ("012345".to_owned(), 0));

    let mut editable = EditableString::new(4, 1);
    editable.edit(Edit::Paste("01234567".to_owned()));
    assert_eq!(editable.view(), ("567".to_owned(), 0));
    editable.edit(Edit::Left);
    assert_eq!(editable.view(), ("567".to_owned(), 0));
    editable.edit(Edit::Left);
    assert_eq!(editable.view(), ("567".to_owned(), 0));
    editable.edit(Edit::Left);
    assert_eq!(editable.view(), ("4567".to_owned(), 0));
    editable.edit(Edit::Left);
    assert_eq!(editable.view(), ("3456".to_owned(), 0));
    editable.edit(Edit::Left);
    assert_eq!(editable.view(), ("2345".to_owned(), 0));
    editable.edit(Edit::Right);
    assert_eq!(editable.view(), ("2345".to_owned(), 0));
    editable.edit(Edit::Right);
    assert_eq!(editable.view(), ("2345".to_owned(), 0));
    editable.edit(Edit::Right);
    assert_eq!(editable.view(), ("3456".to_owned(), 0));
}

#[test]
fn editable_test_word_movement() {
    let mut editable = EditableString::new(100, 2);
    editable.edit(Edit::Paste("one two".to_owned()));
    editable.edit(Edit::WordLeft);
    editable.edit(Edit::WordLeft);
    assert_eq!(editable.screen_offset(), 0);
    editable.edit(Edit::WordRight);
    assert_eq!(editable.screen_offset(), 4);
    editable.edit(Edit::WordRight);
    assert_eq!(editable.screen_offset(), 7);
    editable.edit(Edit::WordRight);
    assert_eq!(editable.screen_offset(), 7);
}

#[test]
fn editable_test_clear() {
    let mut editable = EditableString::new(7, 2);
    editable.edit(Edit::Paste("Ａbcde".to_owned()));
    editable.edit(Edit::ToStart);
    editable.edit(Edit::Right);
    editable.edit(Edit::Right);
    editable.edit(Edit::ClearAfter);
    assert_eq!(editable.contents(), "Ａb");
    editable.edit(Edit::Insert('c'));
    editable.edit(Edit::Left);
    editable.edit(Edit::ClearBefore);
    assert_eq!(editable.contents(), "c");
}

#[test]
fn editable_test_delete() {
    let mut editable = EditableString::new(7, 2);
    editable.edit(Edit::Paste("Ａb".to_owned()));
    editable.edit(Edit::Backspace);
    assert_eq!(editable.contents(), "Ａ");
    assert_eq!(editable.screen_offset(), 2);
    editable.edit(Edit::Backspace);
    assert_eq!(editable.contents(), "");
    assert_eq!(editable.screen_offset(), 0);
}

#[test]
fn editable_test_editable() {
    let mut editable = EditableString::new(3, 1);
    for e in [
        Edit::Insert('a'),
        Edit::Left,
        Edit::Insert('b'),
        Edit::ToEnd,
        Edit::Insert('c'),
        Edit::ToStart,
        Edit::Insert('d'),
        Edit::Left,
        Edit::Left,
        Edit::Right,
        Edit::Insert('e'),
    ] {
        editable.edit(e);
    }
    assert_eq!(editable.contents(), "debac");

    let mut editable = EditableString::new(3, 1);
    for e in [
        Edit::Insert('a'),
        Edit::Insert('b'),
        Edit::Insert('c'),
        Edit::Insert('d'),
        Edit::Left,
        Edit::Insert('1'),
        Edit::Insert('2'),
        Edit::Insert('3'),
        Edit::ToStart,
        Edit::Backspace,
        Edit::Insert('4'),
        Edit::ToEnd,
        Edit::Backspace,
        Edit::Left,
        Edit::Delete,
    ] {
        editable.edit(e);
    }

    assert_eq!(editable.contents(), "4abc12");
}

#[test]
fn editable_test_editable_unicode() {
    let mut editable = EditableString::new(3, 1);
    for e in [
        Edit::Paste("दे".to_owned()),
        Edit::Left,
        Edit::Insert('a'),
        Edit::ToEnd,
        Edit::Insert('Ａ'),
    ] {
        editable.edit(e);
    }
    assert_eq!(editable.contents(), "aदेＡ");

    for e in [
        Edit::ToStart,
        Edit::Right,
        Edit::ToEnd,
        Edit::Left,
        Edit::Backspace,
    ] {
        editable.edit(e);
    }

    assert_eq!(editable.contents(), "aＡ");
}

#[test]
fn appending_state_follows_the_cursor_and_escapes() {
    let mut editable = EditableString::new(20, 2);
    assert!(editable.is_appending());
    editable.edit(Edit::Paste("ab\\".to_owned()));
    assert!(!editable.is_appending());
    editable.edit(Edit::Insert('\\'));
    assert!(editable.is_appending());
    editable.edit(Edit::Left);
    assert!(!editable.is_appending());
    editable.set_prompt("x\ty".to_owned());
    assert_eq!(editable.contents(), "x\ty");
    assert!(!editable.is_empty());
}

#[test]
fn resize_keeps_the_cursor_on_screen() {
    let mut editable = EditableString::new(20, 2);
    editable.edit(Edit::Paste("abcdefghij".to_owned()));
    assert_eq!(editable.screen_offset(), 10);
    editable.resize(8, 2);
    assert_eq!(editable.screen_offset(), 6);
    assert!(!editable.edit(Edit::Insert('\u{07}')));
}

#[test]
fn compositor_steps() {
    let mut state = CompositorState {
        prompt: EditableString::new(20, 2),
        dimensions: Dimensions::from_screen(3, 22, 10),
        selection: 0,
        matched_item_count: 2,
        needs_redraw: false,
        scroll_padding: 3,
        prompt_padding: 2,
    };
    let mut update = false;
    let mut append = true;
    assert!(matches!(state.step(&mut update, &mut append, TermEvent::QuitIfEmpty), TermStep::Finish(EventSummary::Quit)));
    assert!(matches!(state.step(&mut update, &mut append, TermEvent::Insert('a')), TermStep::Continue));
    assert!(update && append && state.needs_redraw);
    assert!(matches!(state.step(&mut update, &mut append, TermEvent::QuitIfEmpty), TermStep::Continue));
    assert!(matches!(state.step(&mut update, &mut append, TermEvent::MoveUp), TermStep::Continue));
    assert_eq!(state.selection, 1);
    state.step(&mut update, &mut append, TermEvent::MoveUp);
    assert_eq!(state.selection, 1);
    state.step(&mut update, &mut append, TermEvent::MoveDown);
    assert_eq!(state.selection, 0);
    state.step(&mut update, &mut append, TermEvent::Backspace);
    assert!(update && !append);
    assert_eq!(state.prompt.contents(), "");
    state.step(&mut update, &mut append, TermEvent::Resize(12, 3));
    assert_eq!(state.dimensions.width, 12);
    assert_eq!(state.dimensions.scroll_padding_top, 0);
    assert!(matches!(state.step(&mut update, &mut append, TermEvent::Abort), TermStep::Abort));
    assert!(matches!(state.step(&mut update, &mut append, TermEvent::Select), TermStep::Finish(EventSummary::Select)));
    assert!(matches!(batch_summary(true, false), EventSummary::UpdatePrompt(false)));
    assert!(matches!(batch_summary(false, true), EventSummary::Continue));
}

#[test]
fn compositor_rows() {
    // two items below the selection (2 and 1 lines), the selection (1 line), one above (3 lines)
    let drawn = draw_layout(5, 10, &[1, 1, 2], &[3]);
    let rows: Vec<(u32, u16, usize, bool, bool)> =
        drawn.iter().map(|d| (d.index, d.row, d.lines, d.selected, d.first_lines)).collect();
    assert_eq!(
        rows,
        vec![(3, 8, 2, false, true), (4, 7, 1, false, true), (5, 6, 1, true, true), (6, 3, 3, false, false)]
    );
}
