//! The line of match counts: how many columns it takes, and how much of the line is left for the
//! separator that fills it.
use vstd::prelude::*;

use crate::segment::{char_columns, char_width};
use crate::text::push_char;

verus! {

/// The number of decimal digits of `v`.
pub open spec fn digits(v: nat) -> nat
    decreases v,
{
    if v < 10 {
        1
    } else {
        1 + digits(v / 10)
    }
}

/// The columns of the status marker: a blank when there is none, and none for a control
/// character.
pub open spec fn marker_columns(marker: Option<char>) -> int {
    let c = match marker {
        Some(c) => c,
        None => ' ',
    };
    match char_columns(c) {
        Some(w) => w as int,
        None => 0,
    }
}

/// The columns taken by the match counts: the marker, a blank, `matched/total`, and for multiple
/// selections ` (count)` or ` (count/limit)`.
pub open spec fn counts_columns(
    marker: Option<char>,
    matched: u32,
    total: u32,
    multi: Option<(u32, Option<u32>)>,
) -> int {
    let base = marker_columns(marker) + 1 + digits(matched as nat) + 1 + digits(total as nat);
    match multi {
        None => base,
        Some((count, None)) => base + 2 + digits(count as nat) + 1,
        Some((count, Some(limit))) => base + 2 + digits(count as nat) + 1 + 1 + digits(limit as nat),
    }
}

/// The number of decimal digits of `value`: at most 10.
pub fn decimal_width(value: u32) -> (r: usize)
    ensures
        r == digits(value as nat),
        1 <= r <= 10,
{
    proof {
        lemma_digits_bound(value as nat);
    }
    let mut v = value;
    let mut n: usize = 1;
    while v >= 10
        invariant
            n + digits(v as nat) == 1 + digits(value as nat),
            digits(value as nat) <= 10,
        decreases v,
    {
        proof {
            lemma_digits_bound((v / 10) as nat);
        }
        v = v / 10;
        n = n + 1;
    }
    n
}

/// Every number has at least one digit, and one that fits in a `u32` at most 10.
proof fn lemma_digits_bound(v: nat)
    ensures
        digits(v) >= 1,
        v <= u32::MAX ==> digits(v) <= 10,
    decreases v,
{
    if v >= 10 {
        lemma_digits_bound(v / 10);
        if v <= u32::MAX {
            assert(v / 10 < 429496730);
            lemma_digits_nine(v / 10);
        }
    }
}

/// A number below 429496730 has at most 9 digits.
proof fn lemma_digits_nine(v: nat)
    requires
        v < 429496730,
    ensures
        digits(v) <= 9,
{
    reveal_with_fuel(digits, 10);
}

/// The columns left on a line `width` columns wide after the match counts, or `None` when they do
/// not fit (and are not drawn).
pub fn status_fill(
    width: u16,
    marker: Option<char>,
    matched: u32,
    total: u32,
    multi: Option<(u32, Option<u32>)>,
) -> (r: Option<usize>)
    ensures
        r == if counts_columns(marker, matched, total, multi) > width {
            None::<usize>
        } else {
            Some((width - counts_columns(marker, matched, total, multi)) as usize)
        },
{
    let c = match marker {
        Some(c) => c,
        None => ' ',
    };
    let mw = match char_width(c) {
        Some(w) => w,
        None => 0,
    };
    let fixed = decimal_width(matched) + 1 + decimal_width(total) + 1;
    let extra = match multi {
        None => 0,
        Some((count, None)) => 2 + decimal_width(count) + 1,
        Some((count, Some(limit))) => 2 + decimal_width(count) + 1 + 1 + decimal_width(limit),
    };
    if mw > width as usize {
        return None;
    }
    let occupied = mw + fixed + extra;
    if occupied > width as usize {
        None
    } else {
        Some(width as usize - occupied)
    }
}

/// The character of a decimal digit.
pub open spec fn digit_char(d: nat) -> char {
    (48 + d) as char
}

/// The decimal digits of `v`, most significant first.
pub open spec fn decimal(v: nat) -> Seq<char>
    decreases v,
{
    if v < 10 {
        seq![digit_char(v)]
    } else {
        decimal(v / 10).push(digit_char(v % 10))
    }
}

/// The match counts as printed: the marker (a blank when there is none), a blank and
/// `matched/total`.
pub open spec fn counts_text(marker: Option<char>, matched: u32, total: u32) -> Seq<char> {
    let m = match marker {
        Some(c) => c,
        None => ' ',
    };
    seq![m, ' '] + decimal(matched as nat) + seq!['/'] + decimal(total as nat)
}

/// The number of queued items as printed for multiple selections: ` (count)` or
/// ` (count/limit)`.
pub open spec fn queued_text(multi: Option<(u32, Option<u32>)>) -> Seq<char> {
    match multi {
        None => Seq::empty(),
        Some((count, None)) => seq![' ', '('] + decimal(count as nat) + seq![')'],
        Some((count, Some(limit))) => seq![' ', '('] + decimal(count as nat) + seq!['/'] + decimal(
            limit as nat,
        ) + seq![')'],
    }
}

/// What fills the `fill` columns after the counts: a blank, then the separator.
pub open spec fn fill_text(fill: nat, separator: char) -> Seq<char> {
    if fill == 0 {
        Seq::empty()
    } else {
        seq![' '] + Seq::new((fill - 1) as nat, |i: int| separator)
    }
}

/// The text of the match-count line, in the parts that are styled apart.
pub struct StatusText {
    /// The marker and `matched/total`.
    pub counts: String,
    /// The number of queued items, for multiple selections (empty otherwise).
    pub queued: String,
    /// The rest of the line: a blank and separators.
    pub fill: String,
}

/// Append the decimal digits of `v`.
fn push_decimal(out: &mut String, v: u32)
    ensures
        final(out)@ == old(out)@ + decimal(v as nat),
    decreases v,
{
    if v >= 10 {
        push_decimal(out, v / 10);
    }
    let d = v % 10;
    let c = match d {
        0 => '0',
        1 => '1',
        2 => '2',
        3 => '3',
        4 => '4',
        5 => '5',
        6 => '6',
        7 => '7',
        8 => '8',
        _ => '9',
    };
    assert(c == digit_char(d as nat));
    push_char(out, c);
    proof {
        if v >= 10 {
            assert(decimal(v as nat) == decimal((v / 10) as nat).push(digit_char((v % 10) as nat)));
        }
    }
}

/// The match-count line on a line `width` columns wide, or `None` when the counts do not fit
/// (see `status_fill`).
pub fn status_text(
    width: u16,
    marker: Option<char>,
    matched: u32,
    total: u32,
    multi: Option<(u32, Option<u32>)>,
    separator: char,
) -> (r: Option<StatusText>)
    ensures
        r is None <==> counts_columns(marker, matched, total, multi) > width,
        r is Some ==> {
            let t = r->0;
            &&& t.counts@ == counts_text(marker, matched, total)
            &&& t.queued@ == queued_text(multi)
            &&& t.fill@ == fill_text((width - counts_columns(marker, matched, total, multi)) as nat, separator)
        },
{
    let fill = match status_fill(width, marker, matched, total, multi) {
        Some(f) => f,
        None => return None,
    };
    let mut counts = String::new();
    let m = match marker {
        Some(c) => c,
        None => ' ',
    };
    push_char(&mut counts, m);
    push_char(&mut counts, ' ');
    push_decimal(&mut counts, matched);
    push_char(&mut counts, '/');
    push_decimal(&mut counts, total);
    assert(counts@ =~= counts_text(marker, matched, total));
    let mut queued = String::new();
    match multi {
        None => {},
        Some((count, limit)) => {
            push_char(&mut queued, ' ');
            push_char(&mut queued, '(');
            push_decimal(&mut queued, count);
            match limit {
                Some(l) => {
                    push_char(&mut queued, '/');
                    push_decimal(&mut queued, l);
                },
                None => {},
            }
            push_char(&mut queued, ')');
        },
    }
    assert(queued@ =~= queued_text(multi));
    let mut rest = String::new();
    if fill > 0 {
        push_char(&mut rest, ' ');
        let mut i: usize = 1;
        while i < fill
            invariant
                1 <= i <= fill,
                rest@ =~= seq![' '] + Seq::new((i - 1) as nat, |j: int| separator),
            decreases fill - i,
        {
            push_char(&mut rest, separator);
            i = i + 1;
        }
    }
    assert(rest@ =~= fill_text(fill as nat, separator));
    Some(StatusText { counts, queued, fill: rest })
}

} // verus!
