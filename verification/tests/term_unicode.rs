use std::ops::Range;

use nucleo_picker::term::unicode::{
    consume, is_ascii_safe, is_unicode_safe, spans_from_indices, truncate, AsciiProcessor,
    IndexSpans, Span, UnicodeProcessor,
};

#[test]
fn test_consume_offset() {
    fn assert_consume(input: &str, w: usize, expected: (usize, usize)) {
        if is_unicode_safe(input) {
            assert_eq!(consume::<UnicodeProcessor>(input, w), expected);
        }

        if is_ascii_safe(input) {
            assert_eq!(consume::<AsciiProcessor>(input, w), expected);
        }
    }
    assert_consume("ab", 3, (2, 0));
    assert_consume("ab", 2, (2, 0));
    assert_consume("ab", 1, (1, 0));
    assert_consume("ab", 0, (0, 0));
    assert_consume("", 0, (0, 0));
    assert_consume("", 1, (0, 0));

    assert_consume("Ｈ", 0, (0, 0));
    assert_consume("Ｈ", 1, (3, 1));
    assert_consume("Ｈ", 2, (3, 0));

    assert_consume("aＨ", 0, (0, 0));
    assert_consume("aＨ", 1, (1, 0));
    assert_consume("aＨ", 2, (4, 1));
    assert_consume("aＨ", 3, (4, 0));
}

#[test]
fn test_spanned() {
    fn assert_matching_vecs<T: std::fmt::Debug + PartialEq>(a: &Vec<T>, b: &Vec<T>) {
        for (u, v) in a.iter().zip(b.iter()) {
            assert_eq!(u, v);
        }
    }

    fn assert_matching(
        indices: Vec<u32>,
        input: &'static str,
        expected_spans: Vec<Span>,
        expected_lines: Vec<Range<usize>>,
    ) {
        let mut spans = Vec::new();
        let mut lines = Vec::new();

        if is_unicode_safe(input) {
            spans_from_indices::<UnicodeProcessor>(&indices, &input, &mut spans, &mut lines);
            assert_matching_vecs(&spans, &expected_spans);
            assert_matching_vecs(&lines, &expected_lines);
        }

        if is_ascii_safe(input) {
            spans_from_indices::<AsciiProcessor>(&indices, &input, &mut spans, &mut lines);
            assert_matching_vecs(&spans, &expected_spans);
            assert_matching_vecs(&lines, &expected_lines);
        }
    }

    // basic test
    assert_matching(
        Vec::new(),
        "a",
        vec![Span {
            range: 0..1,
            is_match: false,
        }],
        vec![0..1],
    );

    // newline
    assert_matching(
        Vec::new(),
        "\na",
        vec![Span {
            range: 1..2,
            is_match: false,
        }],
        vec![0..0, 0..1],
    );
    assert_matching(
        Vec::new(),
        "\r\na",
        vec![Span {
            range: 2..3,
            is_match: false,
        }],
        vec![0..0, 0..1],
    );
    assert_matching(
        Vec::new(),
        "a\n\r\nbc",
        vec![
            Span {
                range: 0..1,
                is_match: false,
            },
            Span {
                range: 4..6,
                is_match: false,
            },
        ],
        vec![0..1, 1..1, 1..2],
    );

    // small edge cases
    assert_matching(Vec::new(), "", vec![], vec![0..0]);
    assert_matching(Vec::new(), "\n", vec![], vec![0..0, 0..0]);
    assert_matching(Vec::new(), "\r\n", vec![], vec![0..0, 0..0]);

    // with indices
    assert_matching(
        vec![0, 2],
        "a\nb",
        vec![
            Span {
                range: 0..1,
                is_match: true,
            },
            Span {
                range: 2..3,
                is_match: true,
            },
        ],
        vec![0..1, 1..2],
    );
    assert_matching(
        vec![0, 2],
        "abc",
        vec![
            Span {
                range: 0..1,
                is_match: true,
            },
            Span {
                range: 1..2,
                is_match: false,
            },
            Span {
                range: 2..3,
                is_match: true,
            },
        ],
        vec![0..3],
    );

    // with indices split over newlines
    assert_matching(
        vec![0, 2],
        "a\r\nＨ",
        vec![
            Span {
                range: 0..1,
                is_match: true,
            },
            Span {
                range: 3..6,
                is_match: true,
            },
        ],
        vec![0..1, 1..2],
    );
    assert_matching(
        vec![0, 2, 3],
        "abcd\nb",
        vec![
            Span {
                range: 0..1,
                is_match: true,
            },
            Span {
                range: 1..2,
                is_match: false,
            },
            Span {
                range: 2..4,
                is_match: true,
            },
            Span {
                range: 5..6,
                is_match: false,
            },
        ],
        vec![0..3, 3..4],
    );
}

#[test]
fn test_next_span() {
    let indices: Vec<u32> = vec![1, 2, 4, 5, 6];
    let mut is = IndexSpans::new(&indices);
    assert_eq!(is.next(), Some((1, 2)));
    assert_eq!(is.cursor(), 2);
    assert_eq!(is.next(), Some((4, 6)));
    assert_eq!(is.cursor(), 5);
    assert_eq!(is.next(), None);
    assert_eq!(is.cursor(), 5);

    let indices: Vec<u32> = vec![];
    let mut is = IndexSpans::new(&indices);
    assert_eq!(is.next(), None);
    assert_eq!(is.cursor(), 0);

    let indices: Vec<u32> = vec![2];
    let mut is = IndexSpans::new(&indices);
    assert_eq!(is.next(), Some((2, 2)));
    assert_eq!(is.cursor(), 1);
    assert_eq!(is.next(), None);
    assert_eq!(is.cursor(), 1);

    let indices: Vec<u32> = vec![10, 11, 12, 13];
    let mut is = IndexSpans::new(&indices);
    assert_eq!(is.next(), Some((10, 13)));
    assert_eq!(is.cursor(), 4);
    assert_eq!(is.next(), None);
    assert_eq!(is.cursor(), 4);
}

#[test]
fn test_truncate_width() {
    fn assert_truncate(input: &str, w: u16, expected: Result<u16, (&str, usize)>) {
        if is_unicode_safe(input) {
            assert_eq!(truncate::<UnicodeProcessor>(input, w), expected);
        }
        if is_ascii_safe(input) {
            assert_eq!(truncate::<AsciiProcessor>(input, w), expected);
        }
    }

    assert_truncate("", 0, Ok(0));

    assert_truncate("ab", 0, Err(("", 0)));
    assert_truncate("ab", 1, Err(("a", 0)));
    assert_truncate("ab", 2, Ok(0));

    assert_truncate("Ｈｅ", 0, Err(("", 0)));
    assert_truncate("Ｈｅ", 1, Err(("", 1)));
    assert_truncate("Ｈｅ", 2, Err(("Ｈ", 0)));
    assert_truncate("Ｈｅ", 3, Err(("Ｈ", 1)));
    assert_truncate("Ｈｅ", 4, Ok(0));
    assert_truncate("Ｈｅ", 5, Ok(1));

    assert_truncate("aＨ", 1, Err(("a", 0)));
    assert_truncate("aＨ", 2, Err(("a", 1)));
    assert_truncate("aＨ", 3, Ok(0));
    assert_truncate("aＨ", 4, Ok(1));
}
