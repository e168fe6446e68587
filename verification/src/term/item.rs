//! Rendered items: their representation and their size on screen.
use vstd::prelude::*;

verus! {

/// The number of occurrences of `b` in `s`.
pub open spec fn count_byte(s: Seq<u8>, b: u8) -> int
    decreases s.len(),
{
    if s.len() == 0 {
        0
    } else {
        count_byte(s.drop_last(), b) + if s.last() == b {
            1int
        } else {
            0int
        }
    }
}

/// The number of line breaks (`\n` or `\r`) in `s`.
pub open spec fn count_breaks(s: Seq<char>) -> int
    decreases s.len(),
{
    if s.len() == 0 {
        0
    } else {
        count_breaks(s.drop_last()) + if s.last() == '\n' || s.last() == '\r' {
            1int
        } else {
            0int
        }
    }
}

/// `count_byte` counts exactly the bytes equal to `b`: it is the length of the subsequence of
/// those bytes.
pub proof fn law_count_byte_is_filter(s: Seq<u8>, b: u8)
    ensures
        count_byte(s, b) == s.filter(|x: u8| x == b).len(),
    decreases s.len(),
{
    reveal(Seq::filter);
    if s.len() > 0 {
        law_count_byte_is_filter(s.drop_last(), b);
    }
}

/// Counting bytes over a concatenation adds the counts; a single byte counts once when it is `b`
/// and not at all otherwise.
pub proof fn law_count_byte_concat(s: Seq<u8>, t: Seq<u8>, b: u8)
    ensures
        count_byte(s + t, b) == count_byte(s, b) + count_byte(t, b),
        count_byte(seq![b], b) == 1,
        forall|x: u8| x != b ==> count_byte(seq![x], b) == 0,
    decreases t.len(),
{
    if t.len() > 0 {
        law_count_byte_concat(s, t.drop_last(), b);
        assert((s + t).drop_last() =~= s + t.drop_last());
    } else {
        assert(s + t =~= s);
    }
    assert forall|x: u8| x != b implies count_byte(seq![x], b) == 0 by {
        assert(seq![x].drop_last() =~= Seq::<u8>::empty());
        assert(seq![x].last() == x);
        assert(count_byte(Seq::<u8>::empty(), b) == 0);
    }
    assert(seq![b].drop_last() =~= Seq::<u8>::empty());
    assert(seq![b].last() == b);
    assert(count_byte(Seq::<u8>::empty(), b) == 0);
}

/// `count_breaks` counts exactly the newlines and carriage returns: it is the length of the
/// subsequence of those characters.
pub proof fn law_count_breaks_is_filter(s: Seq<char>)
    ensures
        count_breaks(s) == s.filter(|c: char| c == '\n' || c == '\r').len(),
    decreases s.len(),
{
    reveal(Seq::filter);
    if s.len() > 0 {
        law_count_breaks_is_filter(s.drop_last());
    }
}

/// The size of an ASCII item is one more than the number of its newline bytes: items without a
/// newline take one line, and any other byte (a tab, a carriage return) adds none.
pub proof fn law_ascii_item_size(bytes: Seq<u8>, r: usize)
    requires
        r == 1 + count_byte(bytes, 10),
    ensures
        r == 1 + bytes.filter(|x: u8| x == 10u8).len(),
        (forall|i: int| 0 <= i < bytes.len() ==> bytes[i] != 10u8) ==> r == 1,
{
    law_count_byte_is_filter(bytes, 10);
    if forall|i: int| 0 <= i < bytes.len() ==> bytes[i] != 10u8 {
        lemma_no_newline(bytes);
    }
}

/// Without a newline byte there is nothing to count.
proof fn lemma_no_newline(bytes: Seq<u8>)
    requires
        forall|i: int| 0 <= i < bytes.len() ==> bytes[i] != 10u8,
    ensures
        count_byte(bytes, 10) == 0,
    decreases bytes.len(),
{
    if bytes.len() > 0 {
        lemma_no_newline(bytes.drop_last());
    }
}

/// The number of lines of an ASCII item: one more than its newlines.
pub fn ascii_item_size(bytes: &[u8]) -> (r: usize)
    requires
        bytes@.len() < usize::MAX,
    ensures
        r == 1 + count_byte(bytes@, 10),
{
    let n = bytes.len();
    let mut count: usize = 0;
    let mut i: usize = 0;
    while i < n
        invariant
            n == bytes@.len(),
            n < usize::MAX,
            i <= n,
            count == count_byte(bytes@.take(i as int), 10),
            count <= i,
        decreases n - i,
    {
        assert(bytes@.take(i + 1).drop_last() =~= bytes@.take(i as int));
        if bytes[i] == 10u8 {
            count = count + 1;
        }
        i = i + 1;
    }
    assert(bytes@.take(n as int) =~= bytes@);
    1 + count
}

/// The number of lines of an item given by its characters: one more than its newlines and
/// carriage returns, which the matcher's representation may hold in place of a `\r\n`.
pub fn unicode_item_size(chars: &[char]) -> (r: usize)
    requires
        chars@.len() < usize::MAX,
    ensures
        r == 1 + count_breaks(chars@),
{
    let n = chars.len();
    let mut count: usize = 0;
    let mut i: usize = 0;
    while i < n
        invariant
            n == chars@.len(),
            n < usize::MAX,
            i <= n,
            count == count_breaks(chars@.take(i as int)),
            count <= i,
        decreases n - i,
    {
        assert(chars@.take(i + 1).drop_last() =~= chars@.take(i as int));
        if chars[i] == '\n' || chars[i] == '\r' {
            count = count + 1;
        }
        i = i + 1;
    }
    assert(chars@.take(n as int) =~= chars@);
    1 + count
}

/// An item rendered for display: borrowed ASCII text, which can be processed byte by byte, or
/// the renderer's output.
pub enum RenderedItem<'a, S> {
    /// ASCII text.
    Ascii(&'a str),
    /// Text that may hold any character.
    Unicode(S),
}

} // verus!
