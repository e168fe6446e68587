use nucleo_picker::prompt::{normalize_prompt_string, Prompt, PromptConfig, PromptEvent};

fn init_prompt(width: u16, padding: u16) -> Prompt {
    let mut cfg = PromptConfig::default();
    cfg.padding = padding;
    let mut prompt = Prompt::new(cfg);
    prompt.resize(width);
    prompt
}

fn view_of(p: &Prompt) -> (String, u16) {
    p.view()
}

#[test]
fn layout() {
    let mut editable = init_prompt(6, 2);
    editable.handle(PromptEvent::Insert('a'));
    assert_eq!(editable.screen_offset(), 1);
    editable.handle(PromptEvent::Insert('Ａ'));
    assert_eq!(editable.screen_offset(), 3);
    editable.handle(PromptEvent::Insert('B'));
    assert_eq!(editable.screen_offset(), 4);

    let mut editable = init_prompt(6, 2);
    editable.handle(PromptEvent::Paste("ＡaＡ".to_owned()));
    assert_eq!(editable.screen_offset(), 4);

    let mut editable = init_prompt(6, 2);
    editable.handle(PromptEvent::Paste("abc".to_owned()));
    assert_eq!(editable.screen_offset(), 3);
    editable.handle(PromptEvent::Paste("ab".to_owned()));
    assert_eq!(editable.screen_offset(), 4);
    editable.handle(PromptEvent::Left(1));
    assert_eq!(editable.screen_offset(), 3);
    editable.handle(PromptEvent::Left(1));
    assert_eq!(editable.screen_offset(), 2);
    editable.handle(PromptEvent::Left(1));
    assert_eq!(editable.screen_offset(), 2);
    editable.handle(PromptEvent::Left(1));
    assert_eq!(editable.screen_offset(), 1);
    editable.handle(PromptEvent::Left(1));
    assert_eq!(editable.screen_offset(), 0);

    let mut editable = init_prompt(7, 2);
    editable.handle(PromptEvent::Paste("ＡＡＡＡＡ".to_owned()));
    editable.handle(PromptEvent::ToStart);
    assert_eq!(editable.screen_offset(), 0);
    editable.handle(PromptEvent::Right(1));
    assert_eq!(editable.screen_offset(), 2);
    editable.handle(PromptEvent::Right(1));
    assert_eq!(editable.screen_offset(), 4);
    editable.handle(PromptEvent::Right(1));
    assert_eq!(editable.screen_offset(), 5);
    editable.handle(PromptEvent::Right(1));
    assert_eq!(editable.screen_offset(), 5);
    editable.handle(PromptEvent::Left(1));
    assert_eq!(editable.screen_offset(), 3);
    editable.handle(PromptEvent::Left(1));
    assert_eq!(editable.screen_offset(), 2);
    editable.handle(PromptEvent::Left(1));
    assert_eq!(editable.screen_offset(), 2);
    editable.handle(PromptEvent::Left(1));
    assert_eq!(editable.screen_offset(), 0);

    let mut editable = init_prompt(7, 2);
    editable.handle(PromptEvent::Paste("abc".to_owned()));
    editable.handle(PromptEvent::ToStart);
    editable.handle(PromptEvent::ToEnd);
    assert_eq!(editable.screen_offset(), 3);
    editable.handle(PromptEvent::Paste("defghi".to_owned()));
    editable.handle(PromptEvent::ToStart);
    editable.handle(PromptEvent::ToEnd);
    assert_eq!(editable.screen_offset(), 5);
}

#[test]
fn view() {
    let mut editable = init_prompt(7, 2);
    editable.handle(PromptEvent::Paste("abc".to_owned()));
    assert_eq!(view_of(&editable), ("abc".to_owned(), 0));

    let mut editable = init_prompt(6, 1);
    editable.handle(PromptEvent::Paste("ＡＡＡＡＡＡ".to_owned()));
    assert_eq!(view_of(&editable), ("ＡＡ".to_owned(), 1));

    let mut editable = init_prompt(7, 2);
    editable.handle(PromptEvent::Paste("ＡＡＡＡ".to_owned()));
    assert_eq!(view_of(&editable), ("ＡＡ".to_owned(), 1));
    editable.handle(PromptEvent::Left(1));
    assert_eq!(view_of(&editable), ("ＡＡ".to_owned(), 1));
    editable.handle(PromptEvent::Left(1));
    assert_eq!(view_of(&editable), ("ＡＡＡ".to_owned(), 0));

    let mut editable = init_prompt(7, 2);
    editable.handle(PromptEvent::Paste("012345678".to_owned()));
    editable.handle(PromptEvent::ToStart);
    assert_eq!(view_of(&editable), ("0123456".to_owned(), 0));

    let mut editable = init_prompt(7, 2);
    editable.handle(PromptEvent::Paste("012345Ａ".to_owned()));
    editable.handle(PromptEvent::ToStart);
    assert_eq!(view_of(&editable), ("012345".to_owned(), 0));

    let mut editable = init_prompt(4, 1);
    editable.handle(PromptEvent::Paste("01234567".to_owned()));
    assert_eq!(view_of(&editable), ("567".to_owned(), 0));
    editable.handle(PromptEvent::Left(1));
    assert_eq!(view_of(&editable), ("567".to_owned(), 0));
    editable.handle(PromptEvent::Left(1));
    assert_eq!(view_of(&editable), ("567".to_owned(), 0));
    editable.handle(PromptEvent::Left(1));
    assert_eq!(view_of(&editable), ("4567".to_owned(), 0));
    editable.handle(PromptEvent::Left(1));
    assert_eq!(view_of(&editable), ("3456".to_owned(), 0));
    editable.handle(PromptEvent::Left(1));
    assert_eq!(view_of(&editable), ("2345".to_owned(), 0));
    editable.handle(PromptEvent::Right(1));
    assert_eq!(view_of(&editable), ("2345".to_owned(), 0));
    editable.handle(PromptEvent::Right(1));
    assert_eq!(view_of(&editable), ("2345".to_owned(), 0));
    editable.handle(PromptEvent::Right(1));
    assert_eq!(view_of(&editable), ("3456".to_owned(), 0));
}

#[test]
fn tests_test_word_movement() {
    let mut editable = init_prompt(100, 2);
    editable.handle(PromptEvent::Paste("one two".to_owned()));
    editable.handle(PromptEvent::WordLeft(1));
    editable.handle(PromptEvent::WordLeft(1));
    assert_eq!(editable.screen_offset(), 0);
    editable.handle(PromptEvent::WordRight(1));
    assert_eq!(editable.screen_offset(), 4);
    editable.handle(PromptEvent::WordRight(1));
    assert_eq!(editable.screen_offset(), 7);
    editable.handle(PromptEvent::WordRight(1));
    assert_eq!(editable.screen_offset(), 7);
}

#[test]
fn tests_test_clear() {
    let mut editable = init_prompt(7, 2);
    editable.handle(PromptEvent::Paste("Ａbcde".to_owned()));
    editable.handle(PromptEvent::ToStart);
    editable.handle(PromptEvent::Right(1));
    editable.handle(PromptEvent::Right(1));
    editable.handle(PromptEvent::ClearAfter);
    assert_eq!(editable.contents(), "Ａb");
    editable.handle(PromptEvent::Insert('c'));
    editable.handle(PromptEvent::Left(1));
    editable.handle(PromptEvent::ClearBefore);
    assert_eq!(editable.contents(), "c");
}

#[test]
fn tests_test_delete() {
    let mut editable = init_prompt(7, 2);
    editable.handle(PromptEvent::Paste("Ａb".to_owned()));
    editable.handle(PromptEvent::Backspace(1));
    assert_eq!(editable.contents(), "Ａ");
    assert_eq!(editable.screen_offset(), 2);
    editable.handle(PromptEvent::Backspace(1));
    assert_eq!(editable.contents(), "");
    assert_eq!(editable.screen_offset(), 0);
}

#[test]
fn test_normalize_prompt() {
    let mut s = "a\nb".to_owned();
    normalize_prompt_string(&mut s);
    assert_eq!(s, "a b");

    let mut s = "ｏ\nｏ".to_owned();
    normalize_prompt_string(&mut s);
    assert_eq!(s, "ｏ ｏ");

    let mut s = "a\n\u{07}ｏ".to_owned();
    normalize_prompt_string(&mut s);
    assert_eq!(s, "a ｏ");
}

#[test]
fn tests_test_editable() {
    let mut editable = init_prompt(3, 1);
    for e in [
        PromptEvent::Insert('a'),
        PromptEvent::Left(1),
        PromptEvent::Insert('b'),
        PromptEvent::ToEnd,
        PromptEvent::Insert('c'),
        PromptEvent::ToStart,
        PromptEvent::Insert('d'),
        PromptEvent::Left(1),
        PromptEvent::Left(1),
        PromptEvent::Right(1),
        PromptEvent::Insert('e'),
    ] {
        editable.handle(e);
    }
    assert_eq!(editable.contents(), "debac");

    let mut editable = init_prompt(3, 1);
    for e in [
        PromptEvent::Insert('a'),
        PromptEvent::Insert('b'),
        PromptEvent::Insert('c'),
        PromptEvent::Insert('d'),
        PromptEvent::Left(1),
        PromptEvent::Insert('1'),
        PromptEvent::Insert('2'),
        PromptEvent::Insert('3'),
        PromptEvent::ToStart,
        PromptEvent::Backspace(1),
        PromptEvent::Insert('4'),
        PromptEvent::ToEnd,
        PromptEvent::Backspace(1),
        PromptEvent::Left(1),
        PromptEvent::Delete(1),
    ] {
        editable.handle(e);
    }

    assert_eq!(editable.contents(), "4abc12");
}

#[test]
fn tests_test_editable_unicode() {
    let mut editable = init_prompt(3, 1);
    for e in [
        PromptEvent::Paste("दे".to_owned()),
        PromptEvent::Left(1),
        PromptEvent::Insert('a'),
        PromptEvent::ToEnd,
        PromptEvent::Insert('Ａ'),
    ] {
        editable.handle(e);
    }
    assert_eq!(editable.contents(), "aदेＡ");

    for e in [
        PromptEvent::ToStart,
        PromptEvent::Right(1),
        PromptEvent::ToEnd,
        PromptEvent::Left(1),
        PromptEvent::Backspace(1),
    ] {
        editable.handle(e);
    }

    assert_eq!(editable.contents(), "aＡ");
}

#[test]
fn left_zero_moves_to_start() {
    let mut editable = init_prompt(20, 2);
    editable.handle(PromptEvent::Paste("abc".to_owned()));
    let status = editable.handle(PromptEvent::Left(0));
    assert!(status.needs_redraw);
    assert_eq!(editable.screen_offset(), 0);
}

#[test]
fn word_left_past_first_word_stops_at_it() {
    let mut editable = init_prompt(20, 2);
    editable.handle(PromptEvent::Paste("  ab cd".to_owned()));
    editable.handle(PromptEvent::BackspaceWord(5));
    assert_eq!(editable.contents(), "  ");
}

#[test]
fn reset_normalizes_and_reports_changes() {
    let mut editable = init_prompt(20, 2);
    let status = editable.handle(PromptEvent::Reset("a\tb".to_owned()));
    assert!(status.contents_changed);
    assert_eq!(editable.contents(), "a b");
    assert_eq!(editable.screen_offset(), 3);
    let status = editable.handle(PromptEvent::Reset("a b".to_owned()));
    assert!(!status.contents_changed);
    assert!(status.needs_redraw);
}

#[test]
fn control_characters_are_not_inserted() {
    let mut editable = init_prompt(20, 2);
    let status = editable.handle(PromptEvent::Insert('\u{07}'));
    assert!(!status.needs_redraw);
    assert!(editable.is_empty());
    assert!(PromptEvent::ToEnd.is_cursor_movement());
    assert!(!PromptEvent::ClearAfter.is_cursor_movement());
}

#[test]
fn zero_width_screen_shows_nothing() {
    let mut editable = init_prompt(0, 2);
    editable.handle(PromptEvent::Paste("abc".to_owned()));
    assert_eq!(view_of(&editable), (String::new(), 0));
    assert_eq!(editable.padding(), 0);
}

#[test]
fn normalization_drops_delete_and_c1_controls_and_keeps_other_text() {
    let mut s = "a\u{7f}\u{85}é\u{a0}漢".to_owned();
    normalize_prompt_string(&mut s);
    assert_eq!(s, "aé\u{a0}漢");
}
