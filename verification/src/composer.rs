//! The chat composer: a text buffer with a byte-offset cursor, and the
//! editing and cursor-movement operations bound to keys.
use vstd::prelude::*;
use crate::text::{
    byte_len, byte_len_of, byte_offset, byte_offset_of, char_pos, char_pos_of, chars_of,
    cursor_ok, fits, is_boundary, is_ws, is_ws_exec, lead_ws, lemma_byte_len_concat, lemma_byte_offset_bounded,
    lemma_byte_offset_step, lemma_byte_len_ge_len, lemma_char_pos_bounded, lemma_cursor_pos, lemma_trail_ws_bounded,
    push_all, string_of, sub_chars, trim_end, trim_end_chars, utf8_len, utf8_len_of,
};
use crate::width::{char_display_width, disp_w};

verus! {

broadcast use vstd::seq_lib::group_seq_properties;

/// The text typed into the chat composer and its cursor.
///
/// `cursor` is a byte offset into `text`; operations clamp a cursor past the
/// end to the end. `cleared_by_interrupt` records that the last interrupt key
/// cleared the composer (a second one exits).
pub struct Composer {
    pub text: String,
    pub cursor: usize,
    pub cleared_by_interrupt: bool,
}

/// The cursor of `c` is one that the editing operations accept.
pub open spec fn composer_ok(c: Composer) -> bool {
    cursor_ok(c.text@, c.cursor as int) && fits(c.text@)
}

/// Index of the character at the cursor.
pub open spec fn cursor_index(c: Composer) -> nat {
    char_pos(c.text@, c.cursor as int)
}

/// Replaces the text and puts the cursor at its end.
pub fn composer_set(c: &mut Composer, text: String)
    requires
        fits(text@),
    ensures
        final(c).text@ == text@,
        final(c).cursor == byte_len(text@),
        !final(c).cleared_by_interrupt,
{
    let v = chars_of(text.as_str());
    let n = byte_len_of(&v);
    c.text = text;
    c.cursor = n;
    c.cleared_by_interrupt = false;
}

/// Empties the composer.
pub fn composer_clear(c: &mut Composer)
    ensures
        final(c).text@ == Seq::<char>::empty(),
        final(c).cursor == 0,
        final(c).cleared_by_interrupt == old(c).cleared_by_interrupt,
{
    c.text = String::new();
    c.cursor = 0;
}

/// Inserts `s` at the cursor and moves the cursor past it.
pub fn composer_insert_str(c: &mut Composer, s: &str)
    requires
        cursor_ok(old(c).text@, old(c).cursor as int),
        fits(old(c).text@ + s@),
    ensures
        ({
            let k = cursor_index(*old(c)) as int;
            &&& final(c).text@ == old(c).text@.take(k) + s@ + old(c).text@.skip(k)
            &&& final(c).cursor == byte_offset(final(c).text@, k + s@.len())
        }),
        !final(c).cleared_by_interrupt,
{
    let v = chars_of(c.text.as_str());
    let ins = chars_of(s);
    let k = char_pos_of(&v, c.cursor);
    proof {
        lemma_cursor_pos(v@, c.cursor as int);
    }
    let mut nv = sub_chars(&v, 0, k);
    push_all(&mut nv, &ins);
    let tail = sub_chars(&v, k, v.len());
    push_all(&mut nv, &tail);
    proof {
        assert(v@ =~= v@.take(k as int) + v@.skip(k as int));
        lemma_byte_len_concat(v@.take(k as int), v@.skip(k as int));
        lemma_byte_len_concat(v@.take(k as int), ins@);
        lemma_byte_len_concat(v@.take(k as int) + ins@, v@.skip(k as int));
        lemma_byte_len_ge_len(v@);
        lemma_byte_len_ge_len(ins@);
        lemma_byte_len_concat(v@, ins@);
        assert(nv@.len() == v@.len() + ins@.len());
    }
    let nk = k + ins.len();
    let b = byte_offset_of(&nv, nk);
    c.text = string_of(nv.as_slice());
    c.cursor = b;
    c.cleared_by_interrupt = false;
}

/// Moves the cursor one character left (to the start when already there).
pub fn composer_move_left(c: &mut Composer)
    requires
        composer_ok(*old(c)),
    ensures
        final(c).text@ == old(c).text@,
        final(c).cleared_by_interrupt == old(c).cleared_by_interrupt,
        ({
            let k = cursor_index(*old(c)) as int;
            final(c).cursor == if k == 0 {
                0
            } else {
                byte_offset(old(c).text@, k - 1)
            }
        }),
{
    let v = chars_of(c.text.as_str());
    let k = char_pos_of(&v, c.cursor);
    proof {
        lemma_cursor_pos(v@, c.cursor as int);
    }
    if k == 0 {
        c.cursor = 0;
    } else {
        c.cursor = byte_offset_of(&v, k - 1);
    }
}

/// Moves the cursor one character right (to the end when already there).
pub fn composer_move_right(c: &mut Composer)
    requires
        composer_ok(*old(c)),
    ensures
        final(c).text@ == old(c).text@,
        final(c).cleared_by_interrupt == old(c).cleared_by_interrupt,
        ({
            let k = cursor_index(*old(c)) as int;
            final(c).cursor == if k >= old(c).text@.len() {
                byte_len(old(c).text@)
            } else {
                byte_offset(old(c).text@, k + 1)
            }
        }),
{
    let v = chars_of(c.text.as_str());
    let k = char_pos_of(&v, c.cursor);
    proof {
        lemma_cursor_pos(v@, c.cursor as int);
    }
    if k >= v.len() {
        c.cursor = byte_len_of(&v);
    } else {
        c.cursor = byte_offset_of(&v, k + 1);
    }
}

/// Deletes the character before the cursor.
pub fn composer_backspace(c: &mut Composer)
    requires
        composer_ok(*old(c)),
    ensures
        final(c).cleared_by_interrupt == old(c).cleared_by_interrupt,
        ({
            let k = cursor_index(*old(c)) as int;
            if k == 0 {
                final(c).text@ == old(c).text@ && final(c).cursor == old(c).cursor
            } else {
                &&& final(c).text@ == old(c).text@.remove(k - 1)
                &&& final(c).cursor == byte_offset(final(c).text@, k - 1)
            }
        }),
{
    let v = chars_of(c.text.as_str());
    let k = char_pos_of(&v, c.cursor);
    proof {
        lemma_cursor_pos(v@, c.cursor as int);
    }
    if k == 0 {
        return;
    }
    let mut nv = sub_chars(&v, 0, k - 1);
    let tail = sub_chars(&v, k, v.len());
    push_all(&mut nv, &tail);
    proof {
        assert(nv@ =~= v@.remove(k - 1));
        assert(v@ =~= v@.take(k - 1) + (seq![v@[k - 1]] + v@.skip(k as int)));
        lemma_byte_len_concat(v@.take(k - 1), seq![v@[k - 1]] + v@.skip(k as int));
        lemma_byte_len_concat(seq![v@[k - 1]], v@.skip(k as int));
        lemma_byte_len_concat(v@.take(k - 1), v@.skip(k as int));
    }
    let b = byte_offset_of(&nv, k - 1);
    c.text = string_of(nv.as_slice());
    c.cursor = b;
}

/// Deletes the character at the cursor.
pub fn composer_delete(c: &mut Composer)
    requires
        composer_ok(*old(c)),
    ensures
        final(c).cleared_by_interrupt == old(c).cleared_by_interrupt,
        final(c).cursor == old(c).cursor,
        ({
            let k = cursor_index(*old(c)) as int;
            if k >= old(c).text@.len() {
                final(c).text@ == old(c).text@
            } else {
                final(c).text@ == old(c).text@.remove(k)
            }
        }),
{
    let v = chars_of(c.text.as_str());
    let k = char_pos_of(&v, c.cursor);
    proof {
        lemma_cursor_pos(v@, c.cursor as int);
    }
    if k >= v.len() {
        return;
    }
    let mut nv = sub_chars(&v, 0, k);
    let tail = sub_chars(&v, k + 1, v.len());
    push_all(&mut nv, &tail);
    proof {
        assert(nv@ =~= v@.remove(k as int));
    }
    c.text = string_of(nv.as_slice());
}

// ── Lines and columns ───────────────────────────────────────────────────────

/// (line, column) reached after the characters `p`: a newline starts a new
/// line at column 0, any other character advances by its display width.
pub open spec fn line_col(p: Seq<char>) -> (nat, nat)
    decreases p.len(),
{
    if p.len() == 0 {
        (0, 0)
    } else {
        let (l, c) = line_col(p.drop_last());
        if p.last() == '\n' {
            (l + 1, 0)
        } else {
            (l, c + disp_w(p.last()))
        }
    }
}

/// Byte offset of the position in line `line` (0-based) whose column first
/// reaches `col`, or of the end of that line when it is narrower; the end of
/// the text when there are fewer lines.
pub open spec fn line_col_target(s: Seq<char>, line: nat, col: int) -> nat
    decreases s.len(),
{
    if s.len() == 0 {
        0
    } else if line == 0 {
        if col <= 0 || s[0] == '\n' {
            0
        } else {
            utf8_len(s[0]) + line_col_target(s.drop_first(), 0, col - disp_w(s[0]))
        }
    } else if s[0] == '\n' {
        1 + line_col_target(s.drop_first(), (line - 1) as nat, col)
    } else {
        utf8_len(s[0]) + line_col_target(s.drop_first(), line, col)
    }
}

/// Total display width of line `line` (0-based) of `s`.
pub open spec fn line_width(s: Seq<char>, line: nat) -> nat
    decreases s.len(),
{
    if s.len() == 0 {
        0
    } else if s[0] == '\n' {
        if line == 0 {
            0
        } else {
            line_width(s.drop_first(), (line - 1) as nat)
        }
    } else {
        (if line == 0 {
            disp_w(s[0])
        } else {
            0
        }) + line_width(s.drop_first(), line)
    }
}

/// Number of newline characters in `s`.
pub open spec fn newline_count(s: Seq<char>) -> nat
    decreases s.len(),
{
    if s.len() == 0 {
        0
    } else {
        (if s[0] == '\n' {
            1nat
        } else {
            0nat
        }) + newline_count(s.drop_first())
    }
}

pub proof fn lemma_line_col_bounded(p: Seq<char>)
    ensures
        line_col(p).0 <= p.len(),
    decreases p.len(),
{
    if p.len() > 0 {
        lemma_line_col_bounded(p.drop_last());
    }
}

pub proof fn lemma_line_col_target_bounded(s: Seq<char>, line: nat, col: int)
    ensures
        line_col_target(s, line, col) <= byte_len(s),
    decreases s.len(),
{
    if s.len() > 0 {
        if line == 0 {
            if !(col <= 0 || s[0] == '\n') {
                lemma_line_col_target_bounded(s.drop_first(), 0, col - disp_w(s[0]));
            }
        } else if s[0] == '\n' {
            lemma_line_col_target_bounded(s.drop_first(), (line - 1) as nat, col);
        } else {
            lemma_line_col_target_bounded(s.drop_first(), line, col);
        }
    }
}

proof fn lemma_line_col_cons(c: char, u: Seq<char>)
    ensures
        line_col(seq![c] + u) == (if c == '\n' {
            (line_col(u).0 + 1, line_col(u).1)
        } else if line_col(u).0 == 0 {
            (0, line_col(u).1 + disp_w(c))
        } else {
            line_col(u)
        }),
    decreases u.len(),
{
    if u.len() == 0 {
        assert(seq![c] + u =~= seq![c]);
        assert(seq![c].drop_last() =~= Seq::<char>::empty());
    } else {
        lemma_line_col_cons(c, u.drop_last());
        assert((seq![c] + u).drop_last() =~= seq![c] + u.drop_last());
        assert((seq![c] + u).last() == u.last());
    }
}

proof fn lemma_line_col_target_of_prefix(s: Seq<char>, k: int)
    requires
        0 <= k <= s.len(),
        forall|i: int| 0 <= i < s.len() && s[i] != '\n' ==> disp_w(#[trigger] s[i]) >= 1,
    ensures
        line_col_target(s, line_col(s.take(k)).0, line_col(s.take(k)).1 as int) == byte_offset(s, k),
    decreases s.len(),
{
    if k == 0 {
        assert(s.take(0) =~= Seq::<char>::empty());
    } else {
        let c = s[0];
        let t = s.drop_first();
        assert forall|i: int| 0 <= i < t.len() && t[i] != '\n' implies disp_w(#[trigger] t[i]) >= 1 by {
            assert(t[i] == s[i + 1]);
        }
        lemma_line_col_target_of_prefix(t, k - 1);
        let u = t.take(k - 1);
        assert(s.take(k) =~= seq![c] + u);
        lemma_line_col_cons(c, u);
        assert(s.take(k).drop_first() =~= u);
        assert(s.take(k)[0] == c);
        if c != '\n' {
            assert(disp_w(c) >= 1);
        }
    }
}

/// Reading a cursor as a line and a column and finding the cursor from
/// them again gives the same cursor, when every character other than a
/// newline takes at least one column.
pub proof fn law_line_col_round_trip(s: Seq<char>, b: int)
    requires
        is_boundary(s, b),
        forall|i: int| 0 <= i < s.len() && s[i] != '\n' ==> disp_w(#[trigger] s[i]) >= 1,
    ensures
        ({
            let lc = line_col(s.take(char_pos(s, b) as int));
            line_col_target(s, lc.0, lc.1 as int) == b
        }),
{
    let k = choose|k: int| 0 <= k <= s.len() && byte_offset(s, k) == b;
    crate::text::lemma_char_pos_offset(s, k);
    lemma_line_col_target_of_prefix(s, k);
}

proof fn lemma_line_col_target_lands(s: Seq<char>, line: nat, col: int) -> (k: nat)
    ensures
        k <= s.len(),
        line_col_target(s, line, col) == byte_offset(s, k as int),
        line <= newline_count(s) ==> line_col(s.take(k as int)).0 == line,
        line <= newline_count(s) ==> (k == s.len() || s[k as int] == '\n' || line_col(s.take(k as int)).1 >= col),
    decreases s.len(),
{
    if s.len() == 0 {
        assert(s.take(0) =~= Seq::<char>::empty());
        0
    } else {
        let c = s[0];
        let t = s.drop_first();
        if line == 0 && (col <= 0 || c == '\n') {
            assert(s.take(0) =~= Seq::<char>::empty());
            0
        } else {
            let next_line: nat = if line > 0 && c == '\n' { (line - 1) as nat } else { line };
            let next_col: int = if line == 0 { col - disp_w(c) } else { col };
            let k1 = lemma_line_col_target_lands(t, next_line, next_col);
            let u = t.take(k1 as int);
            assert(s.take(k1 as int + 1) =~= seq![c] + u);
            assert(s.take(k1 as int + 1).drop_first() =~= u);
            assert(s.take(k1 as int + 1)[0] == c);
            lemma_line_col_cons(c, u);
            assert(newline_count(s) == (if c == '\n' { 1nat } else { 0nat }) + newline_count(t));
            if k1 < t.len() {
                assert(s[k1 as int + 1] == t[k1 as int]);
            }
            (k1 + 1) as nat
        }
    }
}

/// Moving to (line, column) lands on that line whenever the text has it:
/// reading the result back as a line and a column gives the same line, and
/// the position stops at the line's end (a newline or the end of the text)
/// when the line is narrower than the column.
pub proof fn law_line_col_target_on_line(s: Seq<char>, line: nat, col: int)
    requires
        line <= newline_count(s),
    ensures
        ({
            let b = line_col_target(s, line, col);
            let k = char_pos(s, b as int);
            &&& is_boundary(s, b as int)
            &&& line_col(s.take(k as int)).0 == line
            &&& (k == s.len() || s[k as int] == '\n' || line_col(s.take(k as int)).1 >= col)
        }),
{
    let k = lemma_line_col_target_lands(s, line, col);
    crate::text::lemma_char_pos_offset(s, k as int);
}

fn line_col_of(v: &Vec<char>, k: usize) -> (r: (usize, usize))
    requires
        k <= v.len(),
        v.len() <= usize::MAX / 4,
    ensures
        r.0 == line_col(v@.take(k as int)).0,
        r.1 == line_col(v@.take(k as int)).1,
{
    let mut line: usize = 0;
    let mut col: usize = 0;
    let mut i: usize = 0;
    proof {
        assert(v@.take(0) =~= Seq::<char>::empty());
    }
    while i < k
        invariant
            i <= k <= v.len(),
            v.len() <= usize::MAX / 4,
            line == line_col(v@.take(i as int)).0,
            col == line_col(v@.take(i as int)).1,
            line <= i,
            col <= 4 * i,
        decreases k - i,
    {
        let ch = v[i];
        proof {
            assert(v@.take(i as int + 1).drop_last() =~= v@.take(i as int));
            assert(v@.take(i as int + 1).last() == ch);
        }
        if ch == '\n' {
            line = line + 1;
            col = 0;
        } else {
            col = col + char_display_width(ch);
        }
        i = i + 1;
    }
    (line, col)
}

/// Line and display column of the cursor (characters starting before byte
/// `cursor` are counted).
pub fn composer_line_col(text: &str, cursor: usize) -> (r: (usize, usize))
    requires
        fits(text@),
    ensures
        ({
            let p = text@.take(char_pos(text@, cursor as int) as int);
            r.0 == line_col(p).0 && r.1 == line_col(p).1
        }),
{
    let v = chars_of(text);
    let k = char_pos_of(&v, cursor);
    proof {
        lemma_char_pos_bounded(v@, cursor as int);
    }
    line_col_of(&v, k)
}

/// Byte offset for a (line, column) target; see `line_col_target`.
pub fn composer_cursor_from_line_col(text: &str, target_line: usize, target_col: usize) -> (b: usize)
    requires
        fits(text@),
    ensures
        b == line_col_target(text@, target_line as nat, target_col as int),
        b <= byte_len(text@),
{
    let v = chars_of(text);
    cursor_from_line_col_of(&v, target_line, target_col)
}

proof fn lemma_clt_nonpos(s: Seq<char>, col: int)
    ensures
        col <= 0 ==> line_col_target(s, 0, col) == 0,
{
}

fn cursor_from_line_col_of(v: &Vec<char>, target_line: usize, target_col: usize) -> (b: usize)
    requires
        fits(v@),
    ensures
        b == line_col_target(v@, target_line as nat, target_col as int),
        b <= byte_len(v@),
{
    let mut line_left: usize = target_line;
    let mut col_left: usize = target_col;
    let mut b: usize = 0;
    let mut i: usize = 0;
    proof {
        assert(v@.skip(0) =~= v@);
        assert(v@.take(0) =~= Seq::<char>::empty());
        lemma_line_col_target_bounded(v@, target_line as nat, target_col as int);
    }
    while i < v.len()
        invariant
            i <= v.len(),
            fits(v@),
            b == byte_offset(v@, i as int),
            b <= byte_len(v@),
            line_col_target(v@, target_line as nat, target_col as int) == b + line_col_target(
                v@.skip(i as int),
                line_left as nat,
                col_left as int,
            ),
        ensures
            line_col_target(v@, target_line as nat, target_col as int) == b,
            b <= byte_len(v@),
        decreases v.len() - i,
    {
        let ch = v[i];
        proof {
            let t = v@.skip(i as int);
            assert(t.drop_first() =~= v@.skip(i as int + 1));
            assert(t[0] == ch);
            lemma_byte_offset_step(v@, i as int);
            lemma_byte_offset_bounded(v@, i as int + 1);
            if line_left == 0 && col_left != 0 && ch != '\n' {
                assert(line_col_target(t, 0, col_left as int) == utf8_len(ch) + line_col_target(
                    t.drop_first(),
                    0,
                    col_left - disp_w(ch),
                ));
                assert(line_col_target(t.drop_first(), 0, col_left - disp_w(ch))
                    == line_col_target(t.drop_first(), 0, if disp_w(ch) >= col_left {
                    0
                } else {
                    col_left - disp_w(ch)
                })) by {
                    lemma_clt_nonpos(t.drop_first(), col_left - disp_w(ch));
                }
            }
        }
        if line_left == 0 {
            if col_left == 0 || ch == '\n' {
                break;
            }
            let w = char_display_width(ch);
            if w >= col_left {
                col_left = 0;
            } else {
                col_left = col_left - w;
            }
            b = b + utf8_len_of(ch);
        } else if ch == '\n' {
            line_left = line_left - 1;
            b = b + 1;
        } else {
            b = b + utf8_len_of(ch);
        }
        i = i + 1;
    }
    b
}

fn line_width_of(v: &Vec<char>, line: usize) -> (w: usize)
    requires
        v.len() <= usize::MAX / 4,
    ensures
        w == line_width(v@, line as nat),
{
    let mut left: usize = line;
    let mut w: usize = 0;
    let mut i: usize = 0;
    proof {
        assert(v@.skip(0) =~= v@);
    }
    while i < v.len()
        invariant
            i <= v.len() <= usize::MAX / 4,
            w <= 4 * i,
            line_width(v@, line as nat) == w + line_width(v@.skip(i as int), left as nat),
        ensures
            line_width(v@, line as nat) == w,
        decreases v.len() - i,
    {
        let ch = v[i];
        proof {
            assert(v@.skip(i as int).drop_first() =~= v@.skip(i as int + 1));
            assert(v@.skip(i as int)[0] == ch);
        }
        if ch == '\n' {
            if left == 0 {
                break;
            }
            left = left - 1;
        } else if left == 0 {
            w = w + char_display_width(ch);
        }
        i = i + 1;
    }
    w
}

fn newline_count_of(v: &Vec<char>) -> (n: usize)
    ensures
        n == newline_count(v@),
        n <= v.len(),
{
    let mut n: usize = 0;
    let mut i: usize = 0;
    proof {
        assert(v@.skip(0) =~= v@);
    }
    while i < v.len()
        invariant
            i <= v.len(),
            n <= i,
            newline_count(v@) == n + newline_count(v@.skip(i as int)),
        decreases v.len() - i,
    {
        proof {
            assert(v@.skip(i as int)[0] == v@[i as int]);
        }
        proof {
            assert(v@.skip(i as int).drop_first() =~= v@.skip(i as int + 1));
        }
        if v[i] == '\n' {
            n = n + 1;
        }
        i = i + 1;
    }
    n
}

/// Moves the cursor to the start of its line.
pub fn composer_move_home(c: &mut Composer)
    requires
        fits(old(c).text@),
    ensures
        final(c).text@ == old(c).text@,
        final(c).cleared_by_interrupt == old(c).cleared_by_interrupt,
        final(c).cursor == line_col_target(
            old(c).text@,
            line_col(old(c).text@.take(cursor_index(*old(c)) as int)).0,
            0,
        ),
{
    let v = chars_of(c.text.as_str());
    let k = char_pos_of(&v, c.cursor);
    proof {
        lemma_char_pos_bounded(v@, c.cursor as int);
    }
    let (line, _col) = line_col_of(&v, k);
    c.cursor = cursor_from_line_col_of(&v, line, 0);
}

/// Moves the cursor to the end of its line.
pub fn composer_move_end(c: &mut Composer)
    requires
        fits(old(c).text@),
        old(c).text@.len() <= usize::MAX / 4,
    ensures
        final(c).text@ == old(c).text@,
        final(c).cleared_by_interrupt == old(c).cleared_by_interrupt,
        ({
            let line = line_col(old(c).text@.take(cursor_index(*old(c)) as int)).0;
            final(c).cursor == line_col_target(
                old(c).text@,
                line,
                line_width(old(c).text@, line) as int,
            )
        }),
{
    let v = chars_of(c.text.as_str());
    let k = char_pos_of(&v, c.cursor);
    proof {
        lemma_char_pos_bounded(v@, c.cursor as int);
    }
    let (line, _col) = line_col_of(&v, k);
    let max_col = line_width_of(&v, line);
    c.cursor = cursor_from_line_col_of(&v, line, max_col);
}

/// Moves the cursor to the same column of the previous line.
pub fn composer_move_up(c: &mut Composer)
    requires
        fits(old(c).text@),
    ensures
        final(c).text@ == old(c).text@,
        final(c).cleared_by_interrupt == old(c).cleared_by_interrupt,
        ({
            let lc = line_col(old(c).text@.take(cursor_index(*old(c)) as int));
            if lc.0 == 0 {
                final(c).cursor == old(c).cursor
            } else {
                final(c).cursor == line_col_target(
                    old(c).text@,
                    (lc.0 - 1) as nat,
                    lc.1 as int,
                )
            }
        }),
{
    let v = chars_of(c.text.as_str());
    let k = char_pos_of(&v, c.cursor);
    proof {
        lemma_char_pos_bounded(v@, c.cursor as int);
    }
    let (line, col) = line_col_of(&v, k);
    if line == 0 {
        return;
    }
    c.cursor = cursor_from_line_col_of(&v, line - 1, col);
}

/// Moves the cursor to the same column of the next line.
pub fn composer_move_down(c: &mut Composer)
    requires
        fits(old(c).text@),
    ensures
        final(c).text@ == old(c).text@,
        final(c).cleared_by_interrupt == old(c).cleared_by_interrupt,
        ({
            let lc = line_col(old(c).text@.take(cursor_index(*old(c)) as int));
            if lc.0 + 1 >= newline_count(old(c).text@) + 1 {
                final(c).cursor == old(c).cursor
            } else {
                final(c).cursor == line_col_target(
                    old(c).text@,
                    (lc.0 + 1) as nat,
                    lc.1 as int,
                )
            }
        }),
{
    let v = chars_of(c.text.as_str());
    let k = char_pos_of(&v, c.cursor);
    proof {
        lemma_char_pos_bounded(v@, c.cursor as int);
        lemma_line_col_bounded(v@.take(k as int));
    }
    let (line, col) = line_col_of(&v, k);
    let lines = newline_count_of(&v) + 1;
    if line + 1 >= lines {
        return;
    }
    c.cursor = cursor_from_line_col_of(&v, line + 1, col);
}

// ── Words and lines ─────────────────────────────────────────────────────────

/// Index just past the last whitespace character of `t` (0 when none).
pub open spec fn after_last_ws(t: Seq<char>) -> nat
    decreases t.len(),
{
    if t.len() == 0 {
        0
    } else if is_ws(t.last()) {
        t.len()
    } else {
        after_last_ws(t.drop_last())
    }
}

/// Index just past the last newline of `t` (0 when none).
pub open spec fn after_last_nl(t: Seq<char>) -> nat
    decreases t.len(),
{
    if t.len() == 0 {
        0
    } else if t.last() == '\n' {
        t.len()
    } else {
        after_last_nl(t.drop_last())
    }
}

/// Number of leading characters of `t` that are not whitespace.
pub open spec fn lead_non_ws(t: Seq<char>) -> nat
    decreases t.len(),
{
    if t.len() > 0 && !is_ws(t[0]) {
        1 + lead_non_ws(t.drop_first())
    } else {
        0
    }
}

/// Index of the first newline of `t`, or its length.
pub open spec fn first_nl(t: Seq<char>) -> nat
    decreases t.len(),
{
    if t.len() == 0 || t[0] == '\n' {
        0
    } else {
        1 + first_nl(t.drop_first())
    }
}

proof fn lemma_after_last_bounded(t: Seq<char>)
    ensures
        after_last_ws(t) <= t.len(),
        after_last_nl(t) <= t.len(),
    decreases t.len(),
{
    if t.len() > 0 {
        lemma_after_last_bounded(t.drop_last());
    }
}

pub proof fn lemma_lead_bounded(t: Seq<char>)
    ensures
        lead_non_ws(t) <= t.len(),
        first_nl(t) <= t.len(),
    decreases t.len(),
{
    if t.len() > 0 {
        lemma_lead_bounded(t.drop_first());
    }
}

fn after_last_of(v: &Vec<char>, n: usize, newline: bool) -> (r: usize)
    requires
        n <= v.len(),
    ensures
        r == (if newline {
            after_last_nl(v@.take(n as int))
        } else {
            after_last_ws(v@.take(n as int))
        }),
        r <= n,
{
    let mut i: usize = n;
    while i > 0
        invariant
            i <= n <= v.len(),
            (if newline {
                after_last_nl(v@.take(n as int)) == after_last_nl(v@.take(i as int))
            } else {
                after_last_ws(v@.take(n as int)) == after_last_ws(v@.take(i as int))
            }),
        decreases i,
    {
        let ch = v[i - 1];
        proof {
            assert(v@.take(i as int).drop_last() =~= v@.take(i - 1));
            assert(v@.take(i as int).last() == ch);
        }
        let hit = if newline {
            ch == '\n'
        } else {
            is_ws_exec(ch)
        };
        if hit {
            return i;
        }
        i = i - 1;
    }
    proof {
        assert(v@.take(0) =~= Seq::<char>::empty());
    }
    0
}

/// Moves the cursor left past whitespace and then past the word before it.
pub fn composer_word_left(c: &mut Composer)
    requires
        composer_ok(*old(c)),
    ensures
        final(c).text@ == old(c).text@,
        final(c).cleared_by_interrupt == old(c).cleared_by_interrupt,
        final(c).cursor == byte_offset(
            old(c).text@,
            after_last_ws(trim_end(old(c).text@.take(cursor_index(*old(c)) as int))) as int,
        ),
{
    let v = chars_of(c.text.as_str());
    let k = char_pos_of(&v, c.cursor);
    proof {
        lemma_cursor_pos(v@, c.cursor as int);
    }
    let before = sub_chars(&v, 0, k);
    let t = trim_end_chars(&before);
    proof {
        lemma_trail_ws_bounded(before@);
        assert(t@.take(t@.len() as int) =~= t@);
    }
    let p = after_last_of(&t, t.len(), false);
    c.cursor = byte_offset_of(&v, p);
}

/// Moves the cursor right past the current word and the whitespace after it.
pub fn composer_word_right(c: &mut Composer)
    requires
        composer_ok(*old(c)),
    ensures
        final(c).text@ == old(c).text@,
        final(c).cleared_by_interrupt == old(c).cleared_by_interrupt,
        ({
            let k = cursor_index(*old(c)) as int;
            let after = old(c).text@.skip(k);
            let a = lead_non_ws(after) as int;
            final(c).cursor == byte_offset(old(c).text@, k + a + lead_ws(after.skip(a)))
        }),
{
    let v = chars_of(c.text.as_str());
    let k = char_pos_of(&v, c.cursor);
    proof {
        lemma_cursor_pos(v@, c.cursor as int);
    }
    let a_end = skip_non_ws(&v, k);
    let i = skip_ws(&v, a_end);
    proof {
        assert(v@.skip(k as int).skip(a_end - k) =~= v@.skip(a_end as int));
    }
    c.cursor = byte_offset_of(&v, i);
}

pub(crate) fn skip_non_ws(v: &Vec<char>, k: usize) -> (i: usize)
    requires
        k <= v.len(),
    ensures
        k <= i <= v.len(),
        i - k == lead_non_ws(v@.skip(k as int)),
{
    let mut i = k;
    while i < v.len() && !is_ws_exec(v[i])
        invariant
            k <= i <= v.len(),
            lead_non_ws(v@.skip(k as int)) == (i - k) + lead_non_ws(v@.skip(i as int)),
        decreases v.len() - i,
    {
        assert(v@.skip(i as int).drop_first() =~= v@.skip(i as int + 1));
        assert(v@.skip(i as int)[0] == v@[i as int]);
        i = i + 1;
    }
    i
}

fn skip_to_newline(v: &Vec<char>, k: usize) -> (i: usize)
    requires
        k <= v.len(),
    ensures
        k <= i <= v.len(),
        i - k == first_nl(v@.skip(k as int)),
{
    let mut i = k;
    while i < v.len() && v[i] != '\n'
        invariant
            k <= i <= v.len(),
            first_nl(v@.skip(k as int)) == (i - k) + first_nl(v@.skip(i as int)),
        decreases v.len() - i,
    {
        assert(v@.skip(i as int).drop_first() =~= v@.skip(i as int + 1));
        assert(v@.skip(i as int)[0] == v@[i as int]);
        i = i + 1;
    }
    i
}

pub(crate) fn skip_ws(v: &Vec<char>, k: usize) -> (i: usize)
    requires
        k <= v.len(),
    ensures
        k <= i <= v.len(),
        i - k == lead_ws(v@.skip(k as int)),
{
    let mut i = k;
    while i < v.len() && is_ws_exec(v[i])
        invariant
            k <= i <= v.len(),
            lead_ws(v@.skip(k as int)) == (i - k) + lead_ws(v@.skip(i as int)),
        decreases v.len() - i,
    {
        assert(v@.skip(i as int).drop_first() =~= v@.skip(i as int + 1));
        assert(v@.skip(i as int)[0] == v@[i as int]);
        i = i + 1;
    }
    i
}

/// Deletes from the cursor to the end of its line (the newline stays).
pub fn composer_kill_line_forward(c: &mut Composer)
    requires
        composer_ok(*old(c)),
    ensures
        final(c).cursor == old(c).cursor,
        final(c).cleared_by_interrupt == old(c).cleared_by_interrupt,
        ({
            let k = cursor_index(*old(c)) as int;
            let s = old(c).text@;
            final(c).text@ == s.take(k) + s.skip(k + first_nl(s.skip(k)))
        }),
{
    let v = chars_of(c.text.as_str());
    let k = char_pos_of(&v, c.cursor);
    proof {
        lemma_cursor_pos(v@, c.cursor as int);
    }
    let i = skip_to_newline(&v, k);
    let mut nv = sub_chars(&v, 0, k);
    let tail = sub_chars(&v, i, v.len());
    push_all(&mut nv, &tail);
    c.text = string_of(nv.as_slice());
}

/// Deletes from the start of the cursor's line to the cursor, and moves the
/// cursor there.
pub fn composer_kill_line_backward(c: &mut Composer)
    requires
        composer_ok(*old(c)),
    ensures
        final(c).cleared_by_interrupt == old(c).cleared_by_interrupt,
        ({
            let k = cursor_index(*old(c)) as int;
            let s = old(c).text@;
            let start = after_last_nl(s.take(k)) as int;
            if k > start {
                &&& final(c).text@ == s.take(start) + s.skip(k)
                &&& final(c).cursor == byte_offset(s, start)
            } else {
                final(c).text@ == s && final(c).cursor == old(c).cursor
            }
        }),
{
    let v = chars_of(c.text.as_str());
    let k = char_pos_of(&v, c.cursor);
    proof {
        lemma_cursor_pos(v@, c.cursor as int);
    }
    let start = after_last_of(&v, k, true);
    if k > start {
        let mut nv = sub_chars(&v, 0, start);
        let tail = sub_chars(&v, k, v.len());
        push_all(&mut nv, &tail);
        c.cursor = byte_offset_of(&v, start);
        c.text = string_of(nv.as_slice());
    }
}

} // verus!
