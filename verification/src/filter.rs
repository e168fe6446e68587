//! # Filters for rendered strings: removing control characters.
use vstd::prelude::*;

use crate::text::{push_char, str_chars};

verus! {

/// Whether a character has the general category `Cc` (control): `U+0000..=U+001F` or
/// `U+007F..=U+009F`.
pub open spec fn is_control(c: char) -> bool {
    (c as u32) <= 0x1f || (0x7f <= (c as u32) && (c as u32) <= 0x9f)
}

/// Whether a character is a control character (`char::is_control`).
pub fn char_is_control(c: char) -> (r: bool)
    ensures
        r == is_control(c),
{
    let u = c as u32;
    u <= 0x1f || (0x7f <= u && u <= 0x9f)
}

/// The characters of `s` which are not control characters, in order.
pub open spec fn without_controls(s: Seq<char>) -> Seq<char>
    decreases s.len(),
{
    if s.len() == 0 {
        Seq::empty()
    } else if is_control(s.last()) {
        without_controls(s.drop_last())
    } else {
        without_controls(s.drop_last()).push(s.last())
    }
}

/// A copy of `input` with the control characters removed.
pub fn filter_control_chars_immutable(input: &str) -> (r: String)
    ensures
        r@ == without_controls(input@),
{
    let chars = str_chars(input);
    let mut out = String::new();
    let mut i: usize = 0;
    while i < chars.len()
        invariant
            i <= chars@.len(),
            out@ == without_controls(chars@.take(i as int)),
        decreases chars@.len() - i,
    {
        assert(chars@.take(i + 1).drop_last() =~= chars@.take(i as int));
        if !char_is_control(chars[i]) {
            push_char(&mut out, chars[i]);
        }
        i = i + 1;
    }
    assert(chars@.take(chars@.len() as int) =~= chars@);
    out
}

/// Remove the control characters from `s`.
pub fn filter_control_chars_inplace(s: &mut String)
    ensures
        final(s)@ == without_controls(old(s)@),
{
    let r = filter_control_chars_immutable(s.as_str());
    *s = r;
}

/// The filtered string contains no control character, and filtering it again changes nothing.
pub proof fn lemma_without_controls(s: Seq<char>)
    ensures
        forall|i: int| 0 <= i < without_controls(s).len() ==> !is_control(#[trigger] without_controls(s)[i]),
        without_controls(without_controls(s)) == without_controls(s),
    decreases s.len(),
{
    if s.len() > 0 {
        lemma_without_controls(s.drop_last());
        if !is_control(s.last()) {
            let w = without_controls(s.drop_last()).push(s.last());
            assert(w.drop_last() =~= without_controls(s.drop_last()));
        }
    }
}

} // verus!
