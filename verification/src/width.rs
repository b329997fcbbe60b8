//! Display width of characters, as the `unicode-width` crate computes it.
use vstd::prelude::*;

verus! {

/// Width in terminal columns that `UnicodeWidthChar::width` reports for `c`
/// (`None` for control characters).
pub uninterp spec fn unicode_char_width(c: char) -> Option<usize>;

/// Calls `unicode_width::UnicodeWidthChar::width`. The result is the named
/// width; the crate's source answers `None` for U+0000..U+001F and
/// U+007F..U+009F, `Some(1)` for U+0020..U+007E, and a value of at most 3 for
/// every character from U+00A0 on (its table lookup). What the table holds
/// for a given character above U+009F is not stated.
#[verifier::external_body]
pub(crate) fn char_width(c: char) -> (w: Option<usize>)
    ensures
        w == unicode_char_width(c),
        (c as u32) < 0x20 ==> w is None,
        0x20 <= (c as u32) < 0x7f ==> w == Some(1usize),
        0x7f <= (c as u32) < 0xa0 ==> w is None,
        0xa0 <= (c as u32) ==> w is Some && w.unwrap() <= 3,
{
    unicode_width::UnicodeWidthChar::width(c)
}

/// Width of `c` in the composer: a tab counts 4 columns, a control
/// character 0.
pub open spec fn disp_w(c: char) -> nat {
    if c == '\t' {
        4
    } else {
        match unicode_char_width(c) {
            Some(n) => n as nat,
            None => 0,
        }
    }
}

/// Width of `c` when wrapping text for display: a control character (and a
/// tab) counts 1 column.
pub open spec fn wrap_w(c: char) -> nat {
    match unicode_char_width(c) {
        Some(n) => n as nat,
        None => 1,
    }
}

/// The composer's display width of a character.
pub fn char_display_width(ch: char) -> (w: usize)
    ensures
        w == disp_w(ch),
        w <= 4,
{
    if ch == '\t' {
        4
    } else {
        match char_width(ch) {
            Some(n) => n,
            None => 0,
        }
    }
}

/// The wrapping width of a character.
pub fn char_wrap_width(ch: char) -> (w: usize)
    ensures
        w == wrap_w(ch),
        1 <= w <= 3 || (w == 0 && (ch as u32) >= 0xa0),
{
    match char_width(ch) {
        Some(n) => n,
        None => 1,
    }
}

} // verus!
