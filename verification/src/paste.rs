//! Large pastes: the composer shows a one-line summary in place of a pasted
//! text, keeps the full text aside, and removes the whole summary with one
//! backspace or delete.
use vstd::prelude::*;
use crate::composer::{composer_insert_str, lead_non_ws, skip_non_ws, Composer};
use crate::text::{
    byte_len, byte_len_of, byte_offset, byte_offset_of, char_pos, char_pos_of, chars_of,
    cursor_ok, decimal, decimal_of, fits, is_boundary, is_ws, is_ws_exec, lemma_byte_len_concat,
    lemma_byte_offset_bounded, lemma_byte_offset_full, lemma_byte_offset_mono,
    lemma_char_pos_offset, lemma_cursor_pos, push_all, string_of, sub_chars, trim_start,
    trim_start_chars,
};

verus! {

broadcast use vstd::seq_lib::group_seq_properties;

/// Number of leading characters that `a` and `b` share.
pub open spec fn common_prefix(a: Seq<char>, b: Seq<char>) -> nat
    decreases a.len(),
{
    if a.len() > 0 && b.len() > 0 && a[0] == b[0] {
        1 + common_prefix(a.drop_first(), b.drop_first())
    } else {
        0
    }
}

/// Number of trailing characters that `a` and `b` share.
pub open spec fn common_suffix(a: Seq<char>, b: Seq<char>) -> nat
    decreases a.len(),
{
    if a.len() > 0 && b.len() > 0 && a.last() == b.last() {
        1 + common_suffix(a.drop_last(), b.drop_last())
    } else {
        0
    }
}

/// The characters `[start, end)` of the displayed composer text that stand
/// for a pasted text: what lies between the longest common prefix and the
/// longest common suffix (after that prefix) of the displayed and full texts.
pub open spec fn paste_span(displayed: Seq<char>, full: Seq<char>) -> Option<(nat, nat)> {
    if displayed == full {
        None
    } else {
        let p = common_prefix(displayed, full);
        let q = common_suffix(displayed.skip(p as int), full.skip(p as int));
        let e = displayed.len() - q;
        if p >= e {
            None
        } else {
            Some((p, e as nat))
        }
    }
}

pub proof fn lemma_common_prefix(a: Seq<char>, b: Seq<char>)
    ensures
        common_prefix(a, b) <= a.len(),
        common_prefix(a, b) <= b.len(),
        a.take(common_prefix(a, b) as int) == b.take(common_prefix(a, b) as int),
        common_prefix(a, b) < a.len() && common_prefix(a, b) < b.len() ==> a[common_prefix(a, b) as int]
            != b[common_prefix(a, b) as int],
    decreases a.len(),
{
    if a.len() > 0 && b.len() > 0 && a[0] == b[0] {
        lemma_common_prefix(a.drop_first(), b.drop_first());
        let p = common_prefix(a, b) as int;
        assert(a.take(p) =~= seq![a[0]] + a.drop_first().take(p - 1));
        assert(b.take(p) =~= seq![b[0]] + b.drop_first().take(p - 1));
    } else {
        assert(a.take(0) =~= b.take(0));
    }
}

pub proof fn lemma_common_suffix(a: Seq<char>, b: Seq<char>)
    ensures
        common_suffix(a, b) <= a.len(),
        common_suffix(a, b) <= b.len(),
        a.skip(a.len() - common_suffix(a, b)) == b.skip(b.len() - common_suffix(a, b)),
    decreases a.len(),
{
    if a.len() > 0 && b.len() > 0 && a.last() == b.last() {
        lemma_common_suffix(a.drop_last(), b.drop_last());
        let q = common_suffix(a, b) as int;
        assert(a.skip(a.len() - q) =~= a.drop_last().skip(a.len() - q) + seq![a.last()]);
        assert(b.skip(b.len() - q) =~= b.drop_last().skip(b.len() - q) + seq![b.last()]);
    } else {
        assert(a.skip(a.len() as int) =~= b.skip(b.len() as int));
    }
}

fn common_prefix_of(a: &Vec<char>, b: &Vec<char>) -> (n: usize)
    ensures
        n == common_prefix(a@, b@),
{
    let mut i: usize = 0;
    proof {
        assert(a@.skip(0) =~= a@);
        assert(b@.skip(0) =~= b@);
    }
    while i < a.len() && i < b.len() && a[i] == b[i]
        invariant
            i <= a.len(),
            i <= b.len(),
            common_prefix(a@, b@) == i + common_prefix(a@.skip(i as int), b@.skip(i as int)),
        decreases a.len() - i,
    {
        proof {
            assert(a@.skip(i as int).drop_first() =~= a@.skip(i as int + 1));
            assert(b@.skip(i as int).drop_first() =~= b@.skip(i as int + 1));
            assert(a@.skip(i as int)[0] == a@[i as int]);
            assert(b@.skip(i as int)[0] == b@[i as int]);
        }
        i = i + 1;
    }
    proof {
        if i < a.len() && i < b.len() {
            assert(a@.skip(i as int)[0] == a@[i as int]);
            assert(b@.skip(i as int)[0] == b@[i as int]);
        }
    }
    i
}

fn common_suffix_of(a: &Vec<char>, b: &Vec<char>) -> (n: usize)
    ensures
        n == common_suffix(a@, b@),
{
    let mut i: usize = 0;
    proof {
        assert(a@.take(a.len() as int) =~= a@);
        assert(b@.take(b.len() as int) =~= b@);
    }
    loop
        invariant
            i <= a.len(),
            i <= b.len(),
            common_suffix(a@, b@) == i + common_suffix(
                a@.take(a.len() - i),
                b@.take(b.len() - i),
            ),
        decreases a.len() - i,
    {
        let ghost ta = a@.take(a.len() - i);
        let ghost tb = b@.take(b.len() - i);
        if i >= a.len() || i >= b.len() {
            proof {
                assert(ta.len() == 0 || tb.len() == 0);
            }
            return i;
        }
        proof {
            assert(ta.last() == a@[a.len() - 1 - i]);
            assert(tb.last() == b@[b.len() - 1 - i]);
        }
        if a[a.len() - 1 - i] != b[b.len() - 1 - i] {
            return i;
        }
        proof {
            assert(ta.drop_last() =~= a@.take(a.len() - i - 1));
            assert(tb.drop_last() =~= b@.take(b.len() - i - 1));
        }
        i = i + 1;
    }
}

/// Byte length of the longest common character prefix of `a` and `b`.
pub fn common_prefix_len(a: &str, b: &str) -> (n: usize)
    requires
        fits(a@),
    ensures
        n == byte_offset(a@, common_prefix(a@, b@) as int),
{
    let va = chars_of(a);
    let vb = chars_of(b);
    let p = common_prefix_of(&va, &vb);
    proof {
        lemma_common_prefix(va@, vb@);
    }
    byte_offset_of(&va, p)
}

/// Byte length of the longest common character suffix of `a` and `b` after
/// their first `prefix` bytes (a prefix past an end counts as that end).
pub fn common_suffix_len(a: &str, b: &str, prefix: usize) -> (n: usize)
    requires
        cursor_ok(a@, prefix as int),
        cursor_ok(b@, prefix as int),
        fits(a@),
    ensures
        ({
            let ta = a@.skip(char_pos(a@, prefix as int) as int);
            let tb = b@.skip(char_pos(b@, prefix as int) as int);
            n == byte_len(ta.skip(ta.len() - common_suffix(ta, tb)))
        }),
{
    let va = chars_of(a);
    let vb = chars_of(b);
    let ka = char_pos_of(&va, prefix);
    let kb = char_pos_of(&vb, prefix);
    proof {
        lemma_cursor_pos(va@, prefix as int);
        lemma_cursor_pos(vb@, prefix as int);
    }
    let ta = sub_chars(&va, ka, va.len());
    let tb = sub_chars(&vb, kb, vb.len());
    let q = common_suffix_of(&ta, &tb);
    proof {
        lemma_common_suffix(ta@, tb@);
        assert(va@ =~= va@.take(ka + ta.len() - q) + ta@.skip(ta.len() - q));
        lemma_byte_len_concat(va@.take(ka + ta.len() - q), ta@.skip(ta.len() - q));
    }
    let tail = sub_chars(&ta, ta.len() - q, ta.len());
    proof {
        assert(tail@ =~= ta@.skip(ta.len() - q));
        assert(fits(tail@));
    }
    byte_len_of(&tail)
}

fn paste_span_of(d: &Vec<char>, f: &Vec<char>) -> (r: Option<(usize, usize)>)
    ensures
        match paste_span(d@, f@) {
            Some((s, e)) => r == Some((s as usize, e as usize)),
            None => r is None,
        },
{
    let p = common_prefix_of(d, f);
    proof {
        lemma_common_prefix(d@, f@);
    }
    let td = sub_chars(d, p, d.len());
    let tf = sub_chars(f, p, f.len());
    let q = common_suffix_of(&td, &tf);
    proof {
        lemma_common_suffix(td@, tf@);
        if d@ == f@ {
            assert(p == d.len());
            assert(td@.len() == 0);
        }
    }
    let e = d.len() - q;
    if p >= e {
        return None;
    }
    proof {
        if d@ == f@ {
            assert(false);
        }
    }
    Some((p, e))
}

/// The byte range of the displayed composer text that stands for the pasted
/// text; see `paste_span`.
pub fn large_paste_summary_span(displayed: &str, full_text: &str) -> (r: Option<(usize, usize)>)
    requires
        fits(displayed@),
    ensures
        match paste_span(displayed@, full_text@) {
            Some((s, e)) => r == Some(
                (
                    byte_offset(displayed@, s as int) as usize,
                    byte_offset(displayed@, e as int) as usize,
                ),
            ),
            None => r is None,
        },
{
    let d = chars_of(displayed);
    let f = chars_of(full_text);
    match paste_span_of(&d, &f) {
        Some((s, e)) => {
            let bs = byte_offset_of(&d, s);
            let be = byte_offset_of(&d, e);
            Some((bs, be))
        },
        None => None,
    }
}

/// The cursor lies inside the summary span for a backspace (`start < cursor
/// <= end`) or a delete (`start <= cursor < end`), in byte offsets, with the
/// cursor clamped to the text.
pub open spec fn in_span(displayed: Seq<char>, span: (nat, nat), cursor: int, backspace: bool) -> bool {
    let idx = if cursor > byte_len(displayed) {
        byte_len(displayed) as int
    } else {
        cursor
    };
    let s = byte_offset(displayed, span.0 as int) as int;
    let e = byte_offset(displayed, span.1 as int) as int;
    if backspace {
        s < idx <= e
    } else {
        s <= idx < e
    }
}

/// The outcome of a backspace or delete on a composer that shows a paste
/// summary: when the paste buffer holds the full text and the cursor is in
/// the summary, the summary goes, the cursor moves to its start and the
/// buffer empties.
pub open spec fn consumes(
    displayed: Seq<char>,
    buffer: Option<Seq<char>>,
    cursor: int,
    backspace: bool,
) -> bool {
    &&& buffer is Some
    &&& paste_span(displayed, buffer.unwrap()) is Some
    &&& in_span(displayed, paste_span(displayed, buffer.unwrap()).unwrap(), cursor, backspace)
}

pub open spec fn view_opt(o: Option<String>) -> Option<Seq<char>> {
    match o {
        Some(s) => Some(s@),
        None => None,
    }
}

fn consume_summary(
    composer: &mut String,
    cursor: &mut usize,
    paste_buffer: &mut Option<String>,
    backspace: bool,
) -> (r: bool)
    requires
        fits(old(composer)@),
    ensures
        r == consumes(old(composer)@, view_opt(*old(paste_buffer)), *old(cursor) as int, backspace),
        r ==> ({
            let span = paste_span(old(composer)@, view_opt(*old(paste_buffer)).unwrap()).unwrap();
            &&& final(composer)@ == old(composer)@.take(span.0 as int) + old(composer)@.skip(
                span.1 as int,
            )
            &&& *final(cursor) == byte_offset(old(composer)@, span.0 as int)
            &&& *final(paste_buffer) is None
        }),
        !r ==> *final(composer) == *old(composer) && *final(cursor) == *old(cursor)
            && *final(paste_buffer) == *old(paste_buffer),
{
    let full = match paste_buffer {
        Some(t) => chars_of(t.as_str()),
        None => {
            return false;
        },
    };
    let d = chars_of(composer.as_str());
    let (s, e) = match paste_span_of(&d, &full) {
        Some(span) => span,
        None => {
            return false;
        },
    };
    proof {
        lemma_common_prefix(d@, full@);
        lemma_byte_offset_bounded(d@, s as int);
        lemma_byte_offset_bounded(d@, e as int);
        lemma_byte_offset_full(d@);
    }
    let len = byte_len_of(&d);
    let idx = if *cursor > len {
        len
    } else {
        *cursor
    };
    let bs = byte_offset_of(&d, s);
    let be = byte_offset_of(&d, e);
    let inside = if backspace {
        bs < idx && idx <= be
    } else {
        bs <= idx && idx < be
    };
    if !inside {
        return false;
    }
    let mut nv = sub_chars(&d, 0, s);
    let tail = sub_chars(&d, e, d.len());
    push_all(&mut nv, &tail);
    *composer = string_of(nv.as_slice());
    *cursor = bs;
    *paste_buffer = None;
    true
}

/// Backspace on a composer showing a large-paste summary: removes the whole
/// summary in one keypress when the cursor is inside or at the end of it.
pub fn consume_large_paste_summary_with_backspace(
    composer: &mut String,
    cursor: &mut usize,
    paste_buffer: &mut Option<String>,
) -> (r: bool)
    requires
        fits(old(composer)@),
    ensures
        r == consumes(old(composer)@, view_opt(*old(paste_buffer)), *old(cursor) as int, true),
        r ==> ({
            let span = paste_span(old(composer)@, view_opt(*old(paste_buffer)).unwrap()).unwrap();
            &&& final(composer)@ == old(composer)@.take(span.0 as int) + old(composer)@.skip(
                span.1 as int,
            )
            &&& *final(cursor) == byte_offset(old(composer)@, span.0 as int)
            &&& *final(paste_buffer) is None
        }),
        !r ==> *final(composer) == *old(composer) && *final(cursor) == *old(cursor)
            && *final(paste_buffer) == *old(paste_buffer),
{
    consume_summary(composer, cursor, paste_buffer, true)
}

/// Delete on a composer showing a large-paste summary: removes the whole
/// summary in one keypress when the cursor is at its start or inside it.
pub fn consume_large_paste_summary_with_delete(
    composer: &mut String,
    cursor: &mut usize,
    paste_buffer: &mut Option<String>,
) -> (r: bool)
    requires
        fits(old(composer)@),
    ensures
        r == consumes(old(composer)@, view_opt(*old(paste_buffer)), *old(cursor) as int, false),
        r ==> ({
            let span = paste_span(old(composer)@, view_opt(*old(paste_buffer)).unwrap()).unwrap();
            &&& final(composer)@ == old(composer)@.take(span.0 as int) + old(composer)@.skip(
                span.1 as int,
            )
            &&& *final(cursor) == byte_offset(old(composer)@, span.0 as int)
            &&& *final(paste_buffer) is None
        }),
        !r ==> *final(composer) == *old(composer) && *final(cursor) == *old(cursor)
            && *final(paste_buffer) == *old(paste_buffer),
{
    consume_summary(composer, cursor, paste_buffer, false)
}

} // verus!

verus! {

/// `s` with each `\r\n`, and then each remaining `\r`, written `\n`.
pub open spec fn normalize_newlines(s: Seq<char>) -> Seq<char>
    decreases s.len(),
{
    if s.len() == 0 {
        s
    } else if s[0] == '\r' && s.len() >= 2 && s[1] == '\n' {
        seq!['\n'] + normalize_newlines(s.skip(2))
    } else if s[0] == '\r' {
        seq!['\n'] + normalize_newlines(s.drop_first())
    } else {
        seq![s[0]] + normalize_newlines(s.drop_first())
    }
}

/// Number of whitespace-separated words of `s` (std's `split_whitespace`).
pub open spec fn word_count(s: Seq<char>) -> nat
    decreases s.len(),
{
    if s.len() == 0 {
        0
    } else {
        word_count(s.drop_last()) + (if !is_ws(s.last()) && (s.len() == 1 || is_ws(
            s[s.len() - 2],
        )) {
            1nat
        } else {
            0nat
        })
    }
}

/// The first whitespace-separated word of `s` (empty when none).
pub open spec fn first_word(s: Seq<char>) -> Seq<char> {
    let t = trim_start(s);
    t.take(lead_non_ws(t) as int)
}

/// What follows the first word of `s`.
pub open spec fn after_first_word(s: Seq<char>) -> Seq<char> {
    let t = trim_start(s);
    t.skip(lead_non_ws(t) as int)
}

/// Pastes of at least this many words are shown as a summary.
pub const LARGE_PASTE_WORDS: usize = 30;

/// The summary shown for a large paste of `n` (already normalized):
/// `[w1 w2 +R words pasted]`, with the first two words and the number of
/// words not shown.
pub open spec fn paste_summary(n: Seq<char>) -> Seq<char> {
    let w1 = first_word(n);
    let w2 = first_word(after_first_word(n));
    let preview = if w2.len() == 0 {
        w1
    } else {
        w1 + " "@ + w2
    };
    let shown: nat = if w2.len() == 0 {
        1
    } else {
        2
    };
    let count = word_count(n);
    let remaining: nat = if count >= shown {
        (count - shown) as nat
    } else {
        0
    };
    "["@ + preview + " +"@ + decimal(remaining) + " words pasted]"@
}

proof fn lemma_normalize_step(t: Seq<char>)
    requires
        t.len() > 0,
    ensures
        t.len() >= 2 && t[0] == '\r' && t[1] == '\n' ==> normalize_newlines(t) == seq!['\n']
            + normalize_newlines(t.skip(2)),
        !(t.len() >= 2 && t[0] == '\r' && t[1] == '\n') ==> normalize_newlines(t) == seq![
            if t[0] == '\r' {
                '\n'
            } else {
                t[0]
            },
        ] + normalize_newlines(t.drop_first()),
{
}

fn normalize_newlines_of(v: &Vec<char>) -> (r: Vec<char>)
    ensures
        r@ == normalize_newlines(v@),
{
    let mut r: Vec<char> = Vec::new();
    let mut i: usize = 0;
    proof {
        assert(v@.skip(0) =~= v@);
        assert(r@ + normalize_newlines(v@) =~= normalize_newlines(v@));
    }
    while i < v.len()
        invariant
            i <= v.len(),
            normalize_newlines(v@) == r@ + normalize_newlines(v@.skip(i as int)),
        decreases v.len() - i,
    {
        let ghost t = v@.skip(i as int);
        let ghost r0 = r@;
        proof {
            lemma_normalize_step(t);
            assert(t[0] == v@[i as int]);
        }
        if v[i] == '\r' && i + 1 < v.len() && v[i + 1] == '\n' {
            proof {
                assert(t[1] == v@[i + 1]);
                assert(t.skip(2) =~= v@.skip(i + 2));
            }
            r.push('\n');
            i = i + 2;
            proof {
                assert(r0 + (seq!['\n'] + normalize_newlines(v@.skip(i as int))) =~= r@
                    + normalize_newlines(v@.skip(i as int)));
            }
        } else {
            proof {
                assert(t.drop_first() =~= v@.skip(i + 1));
            }
            let c = if v[i] == '\r' {
                '\n'
            } else {
                v[i]
            };
            r.push(c);
            i = i + 1;
            proof {
                assert(r0 + (seq![c] + normalize_newlines(v@.skip(i as int))) =~= r@
                    + normalize_newlines(v@.skip(i as int)));
            }
        }
    }
    proof {
        assert(v@.skip(i as int).len() == 0);
        assert(r@ + normalize_newlines(v@.skip(i as int)) =~= r@);
    }
    r
}

fn word_count_of(v: &Vec<char>) -> (n: usize)
    ensures
        n == word_count(v@),
        n <= v.len(),
{
    let mut n: usize = 0;
    let mut i: usize = 0;
    proof {
        assert(v@.take(0) =~= Seq::<char>::empty());
    }
    while i < v.len()
        invariant
            i <= v.len(),
            n <= i,
            n == word_count(v@.take(i as int)),
        decreases v.len() - i,
    {
        let ghost t = v@.take(i as int + 1);
        assert(t.drop_last() =~= v@.take(i as int));
        assert(t.last() == v@[i as int]);
        if i >= 1 {
            assert(t[t.len() - 2] == v@[i - 1]);
        }
        if !is_ws_exec(v[i]) && (i == 0 || is_ws_exec(v[i - 1])) {
            n = n + 1;
        }
        i = i + 1;
    }
    proof {
        assert(v@.take(v.len() as int) =~= v@);
    }
    n
}

/// (first word, rest after it) of `v`.
fn split_first_word(v: &Vec<char>) -> (r: (Vec<char>, Vec<char>))
    ensures
        r.0@ == first_word(v@),
        r.1@ == after_first_word(v@),
{
    let t = trim_start_chars(v);
    let e = skip_non_ws(&t, 0);
    proof {
        assert(t@.skip(0) =~= t@);
    }
    (sub_chars(&t, 0, e), sub_chars(&t, e, t.len()))
}

/// The large-paste summary of the (normalized) pasted text `n`.
pub fn paste_summary_of(n: &Vec<char>) -> (r: Vec<char>)
    ensures
        r@ == paste_summary(n@),
{
    let (w1, rest) = split_first_word(n);
    let (w2, _rest2) = split_first_word(&rest);
    let mut preview = w1;
    if w2.len() > 0 {
        preview.push(' ');
        push_all(&mut preview, &w2);
        proof {
            reveal_strlit(" ");
            assert(preview@ =~= first_word(n@) + " "@ + w2@);
        }
    }
    let shown: usize = if w2.len() == 0 {
        1
    } else {
        2
    };
    let count = word_count_of(n);
    let remaining = if count >= shown {
        count - shown
    } else {
        0
    };
    let mut out = chars_of("[");
    push_all(&mut out, &preview);
    let plus = chars_of(" +");
    push_all(&mut out, &plus);
    let digits = decimal_of(remaining as u64);
    push_all(&mut out, &digits);
    let tail = chars_of(" words pasted]");
    push_all(&mut out, &tail);
    out
}

/// Pastes `text` into the composer. Line endings become `\n`. A paste of
/// at least `LARGE_PASTE_WORDS` words is shown as its summary, the cursor
/// goes after the summary, and the full composer text is kept in the paste
/// buffer; a smaller paste is inserted at the cursor and clears the buffer.
pub fn composer_paste(c: &mut Composer, paste_buffer: &mut Option<String>, text: &str)
    requires
        ({
            let n = normalize_newlines(text@);
            let k = char_pos(old(c).text@, old(c).cursor as int) as int;
            if word_count(n) >= 30 {
                &&& is_boundary(old(c).text@, old(c).cursor as int)
                &&& fits(old(c).text@.take(k) + paste_summary(n) + old(c).text@.skip(k))
            } else {
                &&& cursor_ok(old(c).text@, old(c).cursor as int)
                &&& fits(old(c).text@ + n)
            }
        }),
    ensures
        ({
            let n = normalize_newlines(text@);
            let s = old(c).text@;
            let k = char_pos(s, old(c).cursor as int) as int;
            if word_count(n) >= 30 {
                let shown = s.take(k) + paste_summary(n) + s.skip(k);
                &&& final(c).text@ == shown
                &&& final(c).cursor == byte_len(s.take(k)) + byte_len(paste_summary(n))
                &&& *final(paste_buffer) matches Some(full) && full@ == s.take(k) + n + s.skip(k)
                &&& final(c).cleared_by_interrupt == old(c).cleared_by_interrupt
            } else {
                &&& final(c).text@ == s.take(k) + n + s.skip(k)
                &&& final(c).cursor == byte_offset(final(c).text@, k + n.len())
                &&& *final(paste_buffer) is None
                &&& !final(c).cleared_by_interrupt
            }
        }),
{
    let raw = chars_of(text);
    let n = normalize_newlines_of(&raw);
    let count = word_count_of(&n);
    if count >= LARGE_PASTE_WORDS {
        let summary = paste_summary_of(&n);
        let v = chars_of(c.text.as_str());
        let k = char_pos_of(&v, c.cursor);
        proof {
            let j = choose|j: int| 0 <= j <= v@.len() && byte_offset(v@, j) == c.cursor as int;
            lemma_char_pos_offset(v@, j);
        }
        let before = sub_chars(&v, 0, k);
        let after = sub_chars(&v, k, v.len());
        let mut full = sub_chars(&v, 0, k);
        push_all(&mut full, &n);
        push_all(&mut full, &after);
        let mut shown = sub_chars(&v, 0, k);
        push_all(&mut shown, &summary);
        push_all(&mut shown, &after);
        proof {
            lemma_byte_len_concat(before@ + summary@, after@);
            lemma_byte_len_concat(before@, summary@);
        }
        let b1 = byte_len_of(&before);
        let b2 = byte_len_of(&summary);
        c.text = string_of(shown.as_slice());
        c.cursor = b1 + b2;
        *paste_buffer = Some(string_of(full.as_slice()));
    } else {
        *paste_buffer = None;
        let ns = string_of(n.as_slice());
        composer_insert_str(c, ns.as_str());
    }
}

// ── The paste/backspace law ─────────────────────────────────────────────────

proof fn lemma_common_prefix_shared(x: Seq<char>, y: Seq<char>, z: Seq<char>)
    ensures
        common_prefix(x + y, x + z) == x.len() + common_prefix(y, z),
    decreases x.len(),
{
    if x.len() > 0 {
        assert((x + y).drop_first() =~= x.drop_first() + y);
        assert((x + z).drop_first() =~= x.drop_first() + z);
        lemma_common_prefix_shared(x.drop_first(), y, z);
    } else {
        assert(x + y =~= y);
        assert(x + z =~= z);
    }
}

proof fn lemma_common_suffix_shared(y: Seq<char>, z: Seq<char>, x: Seq<char>)
    ensures
        common_suffix(y + x, z + x) == x.len() + common_suffix(y, z),
    decreases x.len(),
{
    if x.len() > 0 {
        assert((y + x).drop_last() =~= y + x.drop_last());
        assert((z + x).drop_last() =~= z + x.drop_last());
        lemma_common_suffix_shared(y, z, x.drop_last());
    } else {
        assert(y + x =~= y);
        assert(z + x =~= z);
    }
}

proof fn lemma_summary_shape(n: Seq<char>)
    ensures
        paste_summary(n).len() > 0,
        paste_summary(n)[0] == '[',
        paste_summary(n).last() == ']',
{
    reveal_strlit("[");
    reveal_strlit(" words pasted]");
}

/// One backspace right after a large paste takes the paste back out: the
/// composer text, the cursor and the paste buffer are as before the paste.
/// (When the pasted text itself begins with `[` or ends with `]`, the
/// summary and the pasted text share that character, the detected summary
/// span is one character shorter, and the law does not hold; those inputs
/// are left out.)
pub proof fn law_backspace_undoes_large_paste(s: Seq<char>, k: int, n: Seq<char>)
    requires
        0 <= k <= s.len(),
        word_count(n) >= 30,
        n.len() > 0,
        n[0] != '[',
        n.last() != ']',
        fits(s.take(k) + paste_summary(n) + s.skip(k)),
    ensures
        ({
            let shown = s.take(k) + paste_summary(n) + s.skip(k);
            let full = s.take(k) + n + s.skip(k);
            let cursor = byte_len(s.take(k)) + byte_len(paste_summary(n));
            let span = paste_span(shown, full);
            &&& consumes(shown, Some(full), cursor as int, true)
            &&& span == Some((k as nat, (k + paste_summary(n).len()) as nat))
            &&& shown.take(k) + shown.skip(k + paste_summary(n).len()) == s
            &&& byte_offset(shown, k) == byte_len(s.take(k))
        }),
{
    let sm = paste_summary(n);
    lemma_summary_shape(n);
    let before = s.take(k);
    let after = s.skip(k);
    let shown = before + sm + after;
    let full = before + n + after;
    assert(shown =~= before + (sm + after));
    assert(full =~= before + (n + after));
    lemma_common_prefix_shared(before, sm + after, n + after);
    assert(common_prefix(sm + after, n + after) == 0) by {
        assert((sm + after)[0] == '[');
        assert((n + after)[0] == n[0]);
    }
    let p = k;
    assert(shown.skip(p) =~= sm + after);
    assert(full.skip(p) =~= n + after);
    lemma_common_suffix_shared(sm, n, after);
    assert(common_suffix(sm, n) == 0) by {
        assert(sm.last() == ']');
    }
    assert(shown != full) by {
        assert(shown[k] == '[');
        assert(full[k] == n[0]);
    }
    let e = k + sm.len();
    assert(paste_span(shown, full) == Some((k as nat, e as nat)));
    assert(shown.take(k) =~= before);
    assert(shown.take(e) =~= before + sm);
    lemma_byte_len_concat(before, sm);
    assert(byte_offset(shown, e) == byte_len(before) + byte_len(sm));
    assert(byte_offset(shown, k) == byte_len(before));
    lemma_byte_offset_mono(shown, k, e);
    lemma_byte_offset_bounded(shown, e);
    assert(shown.take(k) + shown.skip(e) =~= s);
}


/// Any whitespace character, a newline or a tab as much as a space, splits
/// words: the words of `a`, a whitespace character, then `b` are those of
/// `a` and those of `b`.
pub proof fn law_word_count_split(a: Seq<char>, c: char, b: Seq<char>)
    requires
        is_ws(c),
    ensures
        word_count(a + seq![c] + b) == word_count(a) + word_count(b),
    decreases b.len(),
{
    let s = a + seq![c] + b;
    if b.len() == 0 {
        assert(s =~= a.push(c));
        assert(s.drop_last() =~= a);
    } else {
        let b1 = b.drop_last();
        law_word_count_split(a, c, b1);
        assert(s.drop_last() =~= a + seq![c] + b1);
        assert(s.last() == b.last());
        if b.len() == 1 {
            assert(s[s.len() - 2] == c);
        } else {
            assert(s[s.len() - 2] == b[b.len() - 2]);
        }
    }
}

/// A non-empty run of characters none of which is whitespace is one word.
pub proof fn law_word_count_one_word(w: Seq<char>)
    requires
        w.len() > 0,
        forall|i: int| 0 <= i < w.len() ==> !is_ws(#[trigger] w[i]),
    ensures
        word_count(w) == 1,
    decreases w.len(),
{
    if w.len() > 1 {
        let w1 = w.drop_last();
        assert forall|i: int| 0 <= i < w1.len() implies !is_ws(#[trigger] w1[i]) by {
            assert(w1[i] == w[i]);
        }
        law_word_count_one_word(w1);
        assert(!is_ws(w[w.len() - 2]));
        assert(w.last() == w[w.len() - 1]);
        assert(!is_ws(w[w.len() - 1]));
    } else {
        assert(w.drop_last().len() == 0);
        assert(word_count(w.drop_last()) == 0);
        assert(w.last() == w[0]);
        assert(!is_ws(w[0]));
    }
}

/// Text with no word in it has a word count of zero.
pub proof fn law_word_count_blank(s: Seq<char>)
    requires
        forall|i: int| 0 <= i < s.len() ==> is_ws(#[trigger] s[i]),
    ensures
        word_count(s) == 0,
    decreases s.len(),
{
    if s.len() > 0 {
        let s1 = s.drop_last();
        assert forall|i: int| 0 <= i < s1.len() implies is_ws(#[trigger] s1[i]) by {
            assert(s1[i] == s[i]);
        }
        law_word_count_blank(s1);
        assert(is_ws(s[s.len() - 1]));
    }
}

} // verus!
