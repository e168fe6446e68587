use nucleo_picker::term::span::{All, Piece, Spanned};
use nucleo_picker::term::unicode::{is_ascii_safe, is_unicode_safe, AsciiProcessor, Span, UnicodeProcessor};

#[test]
fn test_required_width() {
    fn assert_correct_width(indices: Vec<u32>, rendered: &str, expected_width: usize) {
        let mut spans = Vec::new();
        let mut lines = Vec::new();
        let spanned: Spanned<'_, UnicodeProcessor> =
            Spanned::new(&indices, rendered, &mut spans, &mut lines, All);

        if is_unicode_safe(rendered) {
            assert_eq!(spanned.required_width(), expected_width);
        }

        if is_ascii_safe(rendered) {
            let spanned: Spanned<'_, AsciiProcessor> =
                Spanned::new(&indices, rendered, &mut spans, &mut lines, All);
            assert_eq!(spanned.required_width(), expected_width);
        }
    }

    assert_correct_width(vec![], "a", 0);
    assert_correct_width(vec![0], "a", 1);
    assert_correct_width(vec![1], "ab", 2);
    assert_correct_width(vec![0], "Ｈb", 2);
    assert_correct_width(vec![1], "Ｈb", 3);

    assert_correct_width(vec![0, 4], "ab\ncd", 2);
    assert_correct_width(vec![0, 4], "ab\nＨd", 3);
    assert_correct_width(vec![0, 5], "ab\n\nＨＨ", 4);
    assert_correct_width(vec![1, 5], "ＨＨb\n\nab", 4);
}

#[test]
fn test_required_offset() {
    fn assert_correct_offset(
        indices: Vec<u32>,
        rendered: &str,
        max_width: u16,
        expected_offset: usize,
    ) {
        let mut spans = Vec::new();
        let mut lines = Vec::new();

        if is_unicode_safe(rendered) {
            let spanned: Spanned<'_, UnicodeProcessor> =
                Spanned::new(&indices, rendered, &mut spans, &mut lines, All);
            assert_eq!(spanned.required_offset(max_width, 0), expected_offset);
        }

        if is_ascii_safe(rendered) {
            let spanned: Spanned<'_, AsciiProcessor> =
                Spanned::new(&indices, rendered, &mut spans, &mut lines, All);
            assert_eq!(spanned.required_offset(max_width, 0), expected_offset);
        }
    }

    assert_correct_offset(vec![], "a", 1, 0);
    assert_correct_offset(vec![], "abc", 1, 0);
    assert_correct_offset(vec![2], "abc", 1, 2);
    assert_correct_offset(vec![2], "abc", 2, 2);
    assert_correct_offset(vec![2], "abc", 3, 0);
    assert_correct_offset(vec![2], "abc\nab", 2, 2);
    assert_correct_offset(vec![7], "abc\nabcd", 2, 3);

    assert_correct_offset(vec![7], "abc\nabcd", 2, 3);

    assert_correct_offset(vec![0, 7], "abc\nabcd", 2, 0);
    assert_correct_offset(vec![1, 7], "abc\nabcd", 2, 0);
    assert_correct_offset(vec![2, 7], "abc\nabcd", 2, 2);

    assert_correct_offset(vec![0, 6], "abc\naＨd", 2, 0);
    assert_correct_offset(vec![1, 6], "abc\naＨd", 2, 0);
    assert_correct_offset(vec![2, 6], "abc\naＨd", 2, 2);
    assert_correct_offset(vec![2, 6], "abc\naＨd", 3, 2);

    assert_correct_offset(vec![2, 4, 8], "abc\na\r\naＨd", 1, 0);
    assert_correct_offset(vec![2, 4, 8], "abc\na\r\naＨd", 2, 0);
    assert_correct_offset(vec![2, 8], "abc\na\r\naＨd", 2, 2);
    assert_correct_offset(vec![2, 4, 8], "abc\na\r\naＨd", 3, 0);
    assert_correct_offset(vec![2, 8], "abc\na\r\naＨd", 3, 2);
    assert_correct_offset(vec![2, 8], "abc\na\r\naＨd", 4, 0);
}

#[test]
fn required_width() {
    fn assert_correct_width(indices: Vec<u32>, rendered: &str, expected_width: usize) {
        let mut spans = Vec::new();
        let mut lines = Vec::new();
        let spanned: Spanned<'_, UnicodeProcessor> =
            Spanned::new(&indices, rendered, &mut spans, &mut lines, All);

        if is_unicode_safe(rendered) {
            assert_eq!(spanned.required_width(), expected_width);
        }

        if is_ascii_safe(rendered) {
            let spanned: Spanned<'_, AsciiProcessor> =
                Spanned::new(&indices, rendered, &mut spans, &mut lines, All);
            assert_eq!(spanned.required_width(), expected_width);
        }
    }

    assert_correct_width(vec![], "a", 0);
    assert_correct_width(vec![0], "a", 1);
    assert_correct_width(vec![1], "ab", 2);
    assert_correct_width(vec![0], "Ｈb", 2);
    assert_correct_width(vec![1], "Ｈb", 3);

    assert_correct_width(vec![0, 4], "ab\ncd", 2);
    assert_correct_width(vec![0, 4], "ab\nＨd", 3);
    assert_correct_width(vec![0, 5], "ab\n\nＨＨ", 4);
    assert_correct_width(vec![1, 5], "ＨＨb\n\nab", 4);
}

#[test]
fn required_offset() {
    fn assert_correct_offset(
        indices: Vec<u32>,
        rendered: &str,
        max_width: u16,
        expected_offset: usize,
    ) {
        let mut spans = Vec::new();
        let mut lines = Vec::new();

        if is_unicode_safe(rendered) {
            let spanned: Spanned<'_, UnicodeProcessor> =
                Spanned::new(&indices, rendered, &mut spans, &mut lines, All);
            assert_eq!(spanned.required_offset(max_width, 0), expected_offset);
        }

        if is_ascii_safe(rendered) {
            let spanned: Spanned<'_, AsciiProcessor> =
                Spanned::new(&indices, rendered, &mut spans, &mut lines, All);
            assert_eq!(spanned.required_offset(max_width, 0), expected_offset);
        }
    }

    assert_correct_offset(vec![], "a", 1, 0);
    assert_correct_offset(vec![], "abc", 1, 0);
    assert_correct_offset(vec![2], "abc", 1, 2);
    assert_correct_offset(vec![2], "abc", 2, 2);
    assert_correct_offset(vec![2], "abc", 3, 0);
    assert_correct_offset(vec![2], "abc\nab", 2, 2);
    assert_correct_offset(vec![7], "abc\nabcd", 2, 3);

    assert_correct_offset(vec![7], "abc\nabcd", 2, 3);

    assert_correct_offset(vec![0, 7], "abc\nabcd", 2, 0);
    assert_correct_offset(vec![1, 7], "abc\nabcd", 2, 0);
    assert_correct_offset(vec![2, 7], "abc\nabcd", 2, 2);

    assert_correct_offset(vec![0, 6], "abc\naＨd", 2, 0);
    assert_correct_offset(vec![1, 6], "abc\naＨd", 2, 0);
    assert_correct_offset(vec![2, 6], "abc\naＨd", 2, 2);
    assert_correct_offset(vec![2, 6], "abc\naＨd", 3, 2);

    assert_correct_offset(vec![2, 4, 8], "abc\na\r\naＨd", 1, 0);
    assert_correct_offset(vec![2, 4, 8], "abc\na\r\naＨd", 2, 0);
    assert_correct_offset(vec![2, 8], "abc\na\r\naＨd", 2, 2);
    assert_correct_offset(vec![2, 4, 8], "abc\na\r\naＨd", 3, 0);
    assert_correct_offset(vec![2, 8], "abc\na\r\naＨd", 3, 2);
    assert_correct_offset(vec![2, 8], "abc\na\r\naＨd", 4, 0);
}

#[test]
fn queue_print_line_returns_remaining_columns() {
    fn remaining_ascii(rendered: &str, capacity: u16) -> u16 {
        let mut spans = Vec::new();
        let mut lines = Vec::new();
        let spanned: Spanned<'_, AsciiProcessor> =
            Spanned::new(&[], rendered, &mut spans, &mut lines, All);
        spanned.queue_print_line(0, 0, capacity).1
    }

    assert_eq!(remaining_ascii("abc", 6), 3);
    assert_eq!(remaining_ascii("abcdef", 3), 0);

    let mut spans = Vec::new();
    let mut lines = Vec::new();
    let spanned: Spanned<'_, UnicodeProcessor> =
        Spanned::new(&[], "界a", &mut spans, &mut lines, All);
    assert_eq!(spanned.queue_print_line(0, 0, 6).1, 3);
}

fn text(start: usize, end: usize, is_match: bool) -> Piece {
    Piece::Text(Span { range: start..end, is_match })
}

#[test]
fn short_lines_are_printed_whole() {
    let mut spans = Vec::new();
    let mut lines = Vec::new();
    let spanned: Spanned<'_, AsciiProcessor> =
        Spanned::new(&[1], "abc\nde", &mut spans, &mut lines, All);
    let printed = spanned.queue_print(10, 0);
    assert_eq!(printed.len(), 2);
    assert_eq!(printed[0], vec![text(0, 1, false), text(1, 2, true), text(2, 3, false)]);
    assert_eq!(printed[1], vec![text(4, 6, false)]);
}

#[test]
fn long_lines_are_cut_with_ellipses() {
    let mut spans = Vec::new();
    let mut lines = Vec::new();
    let spanned: Spanned<'_, AsciiProcessor> =
        Spanned::new(&[5], "abcdefgh", &mut spans, &mut lines, All);
    // the match at index 5 needs 6 columns: with 4, the line is shifted by 3 columns
    assert_eq!(spanned.required_offset(4, 0), 3);
    let printed = spanned.queue_print(4, 0);
    assert_eq!(printed.len(), 1);
    assert_eq!(
        printed[0],
        vec![
            Piece::Ellipsis(1),
            text(3, 5, false),
            text(5, 6, true),
            text(6, 6, false),
            Piece::MoveToColumn(5),
            Piece::Ellipsis(1),
        ]
    );
}

#[test]
fn wide_graphemes_that_do_not_fit_leave_ellipses() {
    let mut spans = Vec::new();
    let mut lines = Vec::new();
    let spanned: Spanned<'_, UnicodeProcessor> =
        Spanned::new(&[], "a界b", &mut spans, &mut lines, All);
    // 'a' fits, the wide grapheme does not: its one remaining column is an ellipsis
    assert_eq!(spanned.queue_print_line(0, 0, 2), (vec![text(0, 1, false), Piece::Ellipsis(1)], 0));
    // nothing is printed on an empty screen
    assert_eq!(spanned.queue_print_line(0, 0, 0), (vec![], 0));
}
