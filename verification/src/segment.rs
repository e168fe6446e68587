//! Grapheme clusters, Unicode words and display widths of text.
//!
//! Segmentation and column widths come from `unicode-segmentation` and `unicode-width`; what the
//! library computes from them (cluster boundaries, word positions in characters) is verified here.
use unicode_segmentation::UnicodeSegmentation;
use unicode_width::UnicodeWidthChar;
use unicode_width::UnicodeWidthStr;
use vstd::prelude::*;

use crate::text::chars_to_string;

verus! {

/// The extended grapheme clusters of a text, in order.
pub uninterp spec fn grapheme_clusters(s: Seq<char>) -> Seq<Seq<char>>;

/// The display width of a text, in terminal columns.
pub uninterp spec fn text_width(s: Seq<char>) -> usize;

/// The display width of one character in terminal columns, or `None` for a control character.
pub uninterp spec fn char_columns(c: char) -> Option<usize>;

/// The byte offsets (in the UTF-8 encoding of a text) at which its Unicode words start.
pub uninterp spec fn word_byte_starts(s: Seq<char>) -> Seq<usize>;

/// Whether every character of a text is printable ASCII (U+0020 to U+007E).
pub open spec fn printable_ascii(s: Seq<char>) -> bool {
    forall|i: int| 0 <= i < s.len() ==> 0x20 <= (#[trigger] s[i] as u32) < 0x7f
}

/// `UnicodeSegmentation::graphemes(s, true)`, each cluster copied into a `String`.
///
/// Trusted: the clusters are named by `grapheme_clusters`; as the crate's iterator hands out
/// consecutive non-empty slices of `s`, they are non-empty and concatenate back to `s`. The crate
/// puts every printable ASCII character in its own category, between two of which its pair rules
/// always break, so a printable ASCII text is cut into single characters.
#[verifier::external_body]
fn graphemes_of(s: &str) -> (r: Vec<String>)
    ensures
        r@.map_values(|g: String| g@) == grapheme_clusters(s@),
        r@.map_values(|g: String| g@).flatten() == s@,
        forall|i: int| 0 <= i < r@.len() ==> (#[trigger] r@[i])@.len() > 0,
        printable_ascii(s@) ==> forall|i: int| 0 <= i < r@.len() ==> (#[trigger] r@[i])@.len() == 1,
{
    s.graphemes(true).map(String::from).collect()
}

/// `UnicodeWidthStr::width`: the display width of a string.
///
/// Trusted: the result is named by `text_width`; as the crate's lookup shows, each character up to
/// U+00A0 adds one column (but for a carriage return before a line feed), so a printable ASCII
/// text is as wide as it is long.
#[verifier::external_body]
fn str_width(s: &str) -> (r: usize)
    ensures
        r == text_width(s@),
        printable_ascii(s@) ==> r == s@.len(),
{
    UnicodeWidthStr::width(s)
}

/// `UnicodeWidthChar::width`: the display width of a character, `None` for control characters.
///
/// Trusted: the result is named by `char_columns`; as the crate's lookup shows, the printable
/// ASCII characters (U+0020 to U+007E) are 1 column wide, those below U+0020 and from U+007F to
/// U+009F are control characters, and every character from U+00A0 on has a width.
#[verifier::external_body]
pub(crate) fn char_width(c: char) -> (r: Option<usize>)
    ensures
        r == char_columns(c),
        0x20 <= (c as u32) < 0x7f ==> r == Some(1usize),
        (c as u32) < 0x20 ==> r is None,
        0x7f <= (c as u32) < 0xa0 ==> r is None,
        0xa0 <= (c as u32) ==> r is Some,
{
    UnicodeWidthChar::width(c)
}

/// `UnicodeSegmentation::unicode_word_indices`, keeping the byte offset of each word.
///
/// Trusted: the offsets are named by `word_byte_starts`.
#[verifier::external_body]
fn word_byte_offsets(s: &str) -> (r: Vec<usize>)
    ensures
        r@ == word_byte_starts(s@),
{
    s.unicode_word_indices().map(|(i, _)| i).collect()
}

/// The sum of a sequence of integers.
pub open spec fn int_sum(xs: Seq<int>) -> int
    decreases xs.len(),
{
    if xs.len() == 0 {
        0
    } else {
        int_sum(xs.drop_last()) + xs.last()
    }
}

/// The length in characters of each grapheme cluster of `s`.
pub open spec fn cluster_lens(s: Seq<char>) -> Seq<int> {
    grapheme_clusters(s).map_values(|g: Seq<char>| g.len() as int)
}

/// The display width of each grapheme cluster of `s`.
pub open spec fn cluster_widths(s: Seq<char>) -> Seq<int> {
    grapheme_clusters(s).map_values(|g: Seq<char>| text_width(g) as int)
}

/// The character index at which cluster `k` of `s` starts (`s.len()` for `k` = the count).
pub open spec fn cluster_start(s: Seq<char>, k: int) -> int {
    int_sum(cluster_lens(s).take(k))
}

/// The number of bytes of the UTF-8 encoding of a character.
pub open spec fn utf8_width(c: char) -> int {
    if (c as u32) < 0x80 {
        1
    } else if (c as u32) < 0x800 {
        2
    } else if (c as u32) < 0x10000 {
        3
    } else {
        4
    }
}

/// The number of bytes of the UTF-8 encoding of a text.
pub open spec fn byte_size(s: Seq<char>) -> int {
    vstd::utf8::encode_utf8(s).len() as int
}

/// The UTF-8 encoding of one character has `utf8_width` bytes.
pub proof fn lemma_encode_char_len(c: char)
    ensures
        vstd::utf8::encode_scalar(c as u32).len() == utf8_width(c),
{
    vstd::utf8::char_is_scalar(c);
}

/// Encoding a concatenation concatenates the encodings.
pub proof fn lemma_encode_concat(a: Seq<char>, b: Seq<char>)
    ensures
        vstd::utf8::encode_utf8(a + b) == vstd::utf8::encode_utf8(a) + vstd::utf8::encode_utf8(b),
    decreases a.len(),
{
    if a.len() == 0 {
        assert(a + b =~= b);
        assert(vstd::utf8::encode_utf8(a) =~= Seq::<u8>::empty());
        assert(Seq::<u8>::empty() + vstd::utf8::encode_utf8(b) =~= vstd::utf8::encode_utf8(b));
    } else {
        lemma_encode_concat(a.drop_first(), b);
        assert((a + b).drop_first() =~= a.drop_first() + b);
        assert((a + b)[0] == a[0]);
        assert(vstd::utf8::encode_utf8(a + b) =~= vstd::utf8::encode_scalar(a[0] as u32) + (
        vstd::utf8::encode_utf8(a.drop_first()) + vstd::utf8::encode_utf8(b)));
    }
}

/// The byte size of a prefix grows by the width of the next character.
pub proof fn lemma_byte_size_take(s: Seq<char>, i: int)
    requires
        0 <= i < s.len(),
    ensures
        byte_size(s.take(i + 1)) == byte_size(s.take(i)) + utf8_width(s[i]),
        byte_size(s.take(i)) < byte_size(s.take(i + 1)),
{
    assert(s.take(i + 1) =~= s.take(i) + seq![s[i]]);
    lemma_encode_concat(s.take(i), seq![s[i]]);
    lemma_encode_char_len(s[i]);
    let one = seq![s[i]];
    assert(one[0] == s[i]);
    assert(one.drop_first() =~= Seq::<char>::empty());
    assert(vstd::utf8::encode_utf8(one.drop_first()) =~= Seq::<u8>::empty());
    assert(vstd::utf8::encode_utf8(one) == vstd::utf8::encode_scalar(one[0] as u32)
        + vstd::utf8::encode_utf8(one.drop_first()));
    assert(vstd::utf8::encode_utf8(one).len() == utf8_width(s[i]));
}

/// Byte sizes of prefixes grow with the prefix.
pub proof fn lemma_byte_size_mono(s: Seq<char>, i: int, j: int)
    requires
        0 <= i <= j <= s.len(),
    ensures
        byte_size(s.take(i)) <= byte_size(s.take(j)),
        i < j ==> byte_size(s.take(i)) < byte_size(s.take(j)),
    decreases j - i,
{
    if i < j {
        lemma_byte_size_mono(s, i, j - 1);
        lemma_byte_size_take(s, j - 1);
    }
}

/// The character starting at the byte offset of a prefix of `i` characters is character `i`.
pub proof fn lemma_char_index_at_boundary(s: Seq<char>, i: int)
    requires
        0 <= i <= s.len(),
    ensures
        char_index_of_byte(s, byte_size(s.take(i))) == i,
    decreases i,
{
    if i == 0 {
        assert(s.take(0) =~= Seq::<char>::empty());
    } else {
        lemma_char_index_at_boundary(s.drop_first(), i - 1);
        assert(s.take(i).drop_first() =~= s.drop_first().take(i - 1));
        assert(s.take(i)[0] == s[0]);
        lemma_encode_char_len(s[0]);
    }
}

/// The ASCII characters each take one byte.
pub proof fn lemma_ascii_byte_size(s: Seq<char>, i: int)
    requires
        0 <= i <= s.len(),
        vstd::utf8::is_ascii_chars(s),
    ensures
        byte_size(s.take(i)) == i,
    decreases i,
{
    if i > 0 {
        lemma_ascii_byte_size(s, i - 1);
        lemma_byte_size_take(s, i - 1);
        assert('\0' <= s[i - 1] <= '\u{7f}');
    } else {
        assert(s.take(0) =~= Seq::<char>::empty());
    }
}

/// The index of the character of `s` that starts at byte `b` of its UTF-8 encoding: the number
/// of characters that have to be skipped to cover at least `b` bytes.
pub open spec fn char_index_of_byte(s: Seq<char>, b: int) -> int
    decreases s.len(),
{
    if b <= 0 || s.len() == 0 {
        0
    } else {
        1 + char_index_of_byte(s.drop_first(), b - utf8_width(s[0]))
    }
}

/// The character index at which each Unicode word of `s` starts.
pub open spec fn word_starts(s: Seq<char>) -> Seq<int> {
    word_byte_starts(s).map_values(|b: usize| char_index_of_byte(s, b as int))
}

/// A character index found from a byte offset lies within the text.
pub proof fn lemma_char_index_bound(s: Seq<char>, b: int)
    ensures
        0 <= char_index_of_byte(s, b) <= s.len(),
    decreases s.len(),
{
    if b > 0 && s.len() > 0 {
        lemma_char_index_bound(s.drop_first(), b - utf8_width(s[0]));
    }
}

/// Every word start of `s` lies within `s`.
pub proof fn lemma_word_starts_bound(s: Seq<char>, k: int)
    requires
        0 <= k < word_starts(s).len(),
    ensures
        0 <= word_starts(s)[k] <= s.len(),
{
    lemma_char_index_bound(s, word_byte_starts(s)[k] as int);
}

pub proof fn lemma_int_sum_take(xs: Seq<int>, k: int)
    requires
        0 <= k < xs.len(),
    ensures
        int_sum(xs.take(k + 1)) == int_sum(xs.take(k)) + xs[k],
{
    assert(xs.take(k + 1).drop_last() =~= xs.take(k));
}

pub proof fn lemma_int_sum_mono(xs: Seq<int>, i: int, j: int)
    requires
        0 <= i <= j <= xs.len(),
        forall|k: int| 0 <= k < xs.len() ==> xs[k] >= 0,
    ensures
        int_sum(xs.take(i)) <= int_sum(xs.take(j)),
    decreases j - i,
{
    if i < j {
        lemma_int_sum_mono(xs, i, j - 1);
        lemma_int_sum_take(xs, j - 1);
    }
}

pub proof fn lemma_int_sum_strict(xs: Seq<int>, i: int, j: int)
    requires
        0 <= i < j <= xs.len(),
        forall|k: int| 0 <= k < xs.len() ==> xs[k] > 0,
    ensures
        int_sum(xs.take(i)) < int_sum(xs.take(j)),
{
    lemma_int_sum_mono(xs, i + 1, j);
    lemma_int_sum_take(xs, i);
}

proof fn lemma_flatten_len(gs: Seq<Seq<char>>)
    ensures
        gs.flatten().len() == int_sum(gs.map_values(|g: Seq<char>| g.len() as int)),
    decreases gs.len(),
{
    gs.lemma_flatten_and_flatten_alt_are_equivalent();
    if gs.len() > 0 {
        lemma_flatten_len(gs.drop_last());
        gs.drop_last().lemma_flatten_and_flatten_alt_are_equivalent();
        assert(gs.map_values(|g: Seq<char>| g.len() as int).drop_last() =~= gs.drop_last().map_values(
            |g: Seq<char>| g.len() as int,
        ));
    }
}

/// Each grapheme cluster of `s` is non-empty, and together they cover `s`.
pub proof fn lemma_clusters_cover(s: Seq<char>)
    requires
        grapheme_clusters(s).flatten() == s,
    ensures
        int_sum(cluster_lens(s)) == s.len(),
        cluster_lens(s).take(cluster_lens(s).len() as int) == cluster_lens(s),
{
    lemma_flatten_len(grapheme_clusters(s));
    assert(cluster_lens(s).take(cluster_lens(s).len() as int) =~= cluster_lens(s));
}

/// The boundaries of the grapheme clusters of `s` increase strictly from 0 to `s.len()`.
pub open spec fn clusters_ok(s: Seq<char>) -> bool {
    &&& int_sum(cluster_lens(s)) == s.len()
    &&& forall|k: int| 0 <= k < cluster_lens(s).len() ==> #[trigger] cluster_lens(s)[k] > 0
    &&& forall|k: int| 0 <= k < cluster_widths(s).len() ==> #[trigger] cluster_widths(s)[k] >= 0
}

/// Consequences of `clusters_ok` for cluster boundaries.
pub proof fn lemma_cluster_start_bounds(s: Seq<char>, i: int, j: int)
    requires
        clusters_ok(s),
        0 <= i <= j <= cluster_lens(s).len(),
    ensures
        0 <= cluster_start(s, i) <= cluster_start(s, j) <= s.len(),
        i < j ==> cluster_start(s, i) < cluster_start(s, j),
{
    let ls = cluster_lens(s);
    lemma_int_sum_mono(ls, 0, i);
    lemma_int_sum_mono(ls, i, j);
    lemma_int_sum_mono(ls, j, ls.len() as int);
    if i < j {
        lemma_int_sum_strict(ls, i, j);
    }
    assert(ls.take(ls.len() as int) =~= ls);
    assert(ls.take(0) =~= Seq::<int>::empty());
}

/// The number of bytes in the UTF-8 encoding of a character.
pub fn utf8_len(c: char) -> (r: usize)
    ensures
        r == utf8_width(c),
{
    let v = c as u32;
    if v < 0x80 {
        1
    } else if v < 0x800 {
        2
    } else if v < 0x10000 {
        3
    } else {
        4
    }
}

/// The index of the character of `s` that starts at byte `b` of its UTF-8 encoding.
pub fn char_index(s: &[char], b: usize) -> (r: usize)
    ensures
        r == char_index_of_byte(s@, b as int),
{
    let n = s.len();
    let mut i: usize = 0;
    let mut rem: usize = b;
    assert(s@.skip(0) =~= s@);
    while i < n && rem > 0
        invariant
            n == s@.len(),
            i <= n,
            char_index_of_byte(s@, b as int) == i + char_index_of_byte(s@.skip(i as int), rem as int),
        decreases n - i,
    {
        let w = utf8_len(s[i]);
        assert(s@.skip(i as int).drop_first() =~= s@.skip(i as int + 1));
        assert(s@.skip(i as int)[0] == s@[i as int]);
        assert(char_index_of_byte(s@.skip(i as int), rem as int) == 1 + char_index_of_byte(
            s@.skip(i as int + 1),
            rem - w,
        ));
        if w >= rem {
            rem = 0;
        } else {
            rem = rem - w;
        }
        i = i + 1;
    }
    assert(s@.skip(i as int).len() == 0 || rem == 0);
    i
}

/// The display width of a sequence of characters.
pub fn width_of(s: &[char]) -> (r: usize)
    ensures
        r == text_width(s@),
        printable_ascii(s@) ==> r == s@.len(),
{
    let st = chars_to_string(s);
    str_width(st.as_str())
}

/// The character length and the display width of each grapheme cluster of `s`.
pub fn clusters(s: &[char]) -> (r: (Vec<usize>, Vec<usize>))
    ensures
        r.0@.len() == cluster_lens(s@).len(),
        r.1@.len() == cluster_lens(s@).len(),
        cluster_widths(s@).len() == cluster_lens(s@).len(),
        forall|k: int| 0 <= k < r.0@.len() ==> r.0@[k] == #[trigger] cluster_lens(s@)[k],
        forall|k: int| 0 <= k < r.1@.len() ==> r.1@[k] == #[trigger] cluster_widths(s@)[k],
        clusters_ok(s@),
        printable_ascii(s@) ==> forall|k: int| 0 <= k < r.0@.len() ==> r.0@[k] == 1,
{
    let st = chars_to_string(s);
    let gs = graphemes_of(st.as_str());
    proof {
        lemma_clusters_cover(s@);
        assert forall|k: int| 0 <= k < cluster_lens(s@).len() implies #[trigger] cluster_lens(s@)[k]
            > 0 by {
            assert(gs@.map_values(|g: String| g@)[k] == gs@[k]@);
        }
    }
    let mut lens: Vec<usize> = Vec::new();
    let mut widths: Vec<usize> = Vec::new();
    let n = gs.len();
    let mut i: usize = 0;
    while i < n
        invariant
            n == gs@.len(),
            i <= n,
            gs@.map_values(|g: String| g@) == grapheme_clusters(s@),
            lens@.len() == i,
            widths@.len() == i,
            forall|k: int| 0 <= k < i ==> lens@[k] == #[trigger] cluster_lens(s@)[k],
            forall|k: int| 0 <= k < i ==> widths@[k] == #[trigger] cluster_widths(s@)[k],
            printable_ascii(s@) ==> forall|k: int| 0 <= k < n ==> (#[trigger] gs@[k])@.len() == 1,
        decreases n - i,
    {
        let g = gs[i].as_str();
        assert(gs@.map_values(|g: String| g@)[i as int] == gs@[i as int]@);
        lens.push(g.unicode_len());
        widths.push(str_width(g));
        i = i + 1;
    }
    proof {
        if printable_ascii(s@) {
            assert forall|k: int| 0 <= k < lens@.len() implies lens@[k] == 1 by {
                assert(gs@.map_values(|g: String| g@)[k] == gs@[k]@);
                assert(lens@[k] == cluster_lens(s@)[k]);
            }
        }
    }
    (lens, widths)
}

/// The character index at which each Unicode word of `s` starts.
pub fn word_positions(s: &[char]) -> (r: Vec<usize>)
    ensures
        r@.len() == word_starts(s@).len(),
        forall|k: int| 0 <= k < r@.len() ==> r@[k] == #[trigger] word_starts(s@)[k],
{
    let st = chars_to_string(s);
    let bs = word_byte_offsets(st.as_str());
    let mut r: Vec<usize> = Vec::new();
    let n = bs.len();
    let mut i: usize = 0;
    while i < n
        invariant
            n == bs@.len(),
            bs@ == word_byte_starts(s@),
            i <= n,
            r@.len() == i,
            forall|k: int| 0 <= k < i ==> r@[k] == #[trigger] word_starts(s@)[k],
        decreases n - i,
    {
        r.push(char_index(s, bs[i]));
        i = i + 1;
    }
    r
}

} // verus!
