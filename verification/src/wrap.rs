//! Greedy word wrapping of composer text, and the cursor's visual position
//! under the same wrapping.
use vstd::prelude::*;
use crate::text::{
    byte_len, char_pos, char_pos_of, chars_of, fits, lemma_char_pos_bounded, lemma_char_pos_past_end,
    string_of,
};
use crate::width::{char_wrap_width, wrap_w};

verus! {

broadcast use vstd::seq_lib::group_seq_properties;

/// A character that separates words: space, tab or newline.
pub open spec fn is_gap(c: char) -> bool {
    c == ' ' || c == '\t' || c == '\n'
}

/// Column width of `c` when wrapping and when placing the cursor: its
/// display width, a control character (and a tab) counting 1 column.
pub open spec fn col_w(c: char) -> nat {
    wrap_w(c)
}

/// Width of the word (maximal run of non-gap characters) starting at `i`.
pub open spec fn word_width(s: Seq<char>, i: int) -> nat
    decreases s.len() - i,
{
    if i < 0 || i >= s.len() || is_gap(s[i]) {
        0
    } else {
        col_w(s[i]) + word_width(s, i + 1)
    }
}

/// Character `i` starts a word.
pub open spec fn word_start(s: Seq<char>, i: int) -> bool {
    i == 0 || is_gap(s[i - 1])
}

/// Wrapping state: finished lines, the line being filled, and its column.
pub type WrapState = (Seq<Seq<char>>, Seq<char>, nat);

/// One step of the wrapper on character `i`. A newline ends the line. A space
/// or tab that does not fit in the rest of the line starts a new one; it is
/// placed and ends its line once the column reaches `width`. A word
/// that fits in a line but not in the rest of this one starts a new line;
/// within a word, a character that does not fit starts a new line.
pub open spec fn wrap_step(
    s: Seq<char>,
    i: int,
    width: nat,
    st: WrapState,
) -> WrapState {
    let (lines, cur, col) = st;
    let c = s[i];
    let w = col_w(c);
    if c == '\n' {
        (lines.push(cur), Seq::<char>::empty(), 0)
    } else if c == ' ' || c == '\t' {
        let pre: WrapState = if col > 0 && col + w > width {
            (lines.push(cur), Seq::<char>::empty(), 0)
        } else {
            (lines, cur, col)
        };
        let (l1, c1, k1) = pre;
        if k1 + w >= width {
            (l1.push(c1.push(c)), Seq::<char>::empty(), 0)
        } else {
            (l1, c1.push(c), k1 + w)
        }
    } else {
        let ww = word_width(s, i);
        let pre: WrapState = if word_start(s, i) && ww <= width && col > 0 && col + ww > width {
            (lines.push(cur), Seq::<char>::empty(), 0)
        } else {
            (lines, cur, col)
        };
        let (l1, c1, k1) = pre;
        if k1 > 0 && k1 + w > width {
            (l1.push(c1), seq![c], w)
        } else {
            (l1, c1.push(c), k1 + w)
        }
    }
}

/// State of the wrapper after the first `n` characters.
pub open spec fn wrap_run(s: Seq<char>, width: nat, n: nat) -> WrapState
    decreases n,
{
    if n == 0 || n > s.len() {
        (Seq::<Seq<char>>::empty(), Seq::<char>::empty(), 0)
    } else {
        wrap_step(s, n - 1, width, wrap_run(s, width, (n - 1) as nat))
    }
}

/// The lines of `s` wrapped at `width` columns (at least 1).
pub open spec fn wrapped_lines(s: Seq<char>, width: nat) -> Seq<Seq<char>> {
    let st = wrap_run(s, if width == 0 {
        1
    } else {
        width
    }, s.len());
    st.0.push(st.1)
}

/// Number of visual lines of `s` wrapped at `width` columns.
pub open spec fn wrapped_line_count(s: Seq<char>, width: nat) -> nat {
    if s.len() == 0 {
        1
    } else {
        wrap_run(s, if width == 0 {
            1
        } else {
            width
        }, s.len()).0.len() + 1
    }
}

/// Concatenation of lines.
pub open spec fn concat_lines(ls: Seq<Seq<char>>) -> Seq<char>
    decreases ls.len(),
{
    if ls.len() == 0 {
        Seq::<char>::empty()
    } else {
        concat_lines(ls.drop_last()) + ls.last()
    }
}

/// `s` without its newline characters.
pub open spec fn without_newlines(s: Seq<char>) -> Seq<char> {
    s.filter(|c: char| c != '\n')
}

/// The line count that `composer_wrapped_line_count` reports is the number of
/// lines that `word_wrap_text` produces for the same text and width.
pub proof fn law_wrapped_line_count_matches_wrap(s: Seq<char>, width: nat)
    ensures
        wrapped_line_count(s, width) == wrapped_lines(s, width).len(),
{
}

proof fn lemma_run_concat(s: Seq<char>, width: nat, n: nat)
    requires
        n <= s.len(),
    ensures
        ({
            let st = wrap_run(s, width, n);
            concat_lines(st.0) + st.1 == without_newlines(s.take(n as int))
        }),
    decreases n,
{
    if n == 0 {
        assert(s.take(0) =~= Seq::<char>::empty());
        assert(without_newlines(Seq::<char>::empty()) =~= Seq::<char>::empty());
        assert(concat_lines(Seq::<Seq<char>>::empty()) + Seq::<char>::empty() =~= Seq::<
            char,
        >::empty());
    } else {
        let m = (n - 1) as nat;
        lemma_run_concat(s, width, m);
        let prev = wrap_run(s, width, m);
        let st = wrap_run(s, width, n);
        let c = s[m as int];
        assert(s.take(n as int) =~= s.take(m as int).push(c));
        s.take(m as int).lemma_filter_push(c, |c: char| c != '\n');
        let (lines, cur, col) = prev;
        if c == '\n' {
            assert(st.0.drop_last() =~= lines);
        } else if c == ' ' || c == '\t' {
            let w = col_w(c);
            if col > 0 && col + w > width {
                let l1 = lines.push(cur);
                assert(l1.drop_last() =~= lines);
                assert(concat_lines(l1) == concat_lines(lines) + cur);
                if w >= width {
                    assert(st.0.drop_last() =~= l1);
                    assert(concat_lines(st.0) == concat_lines(l1) + seq![c]);
                }
            } else if col + w >= width {
                assert(st.0.drop_last() =~= lines);
            }
        } else {
            let ww = word_width(s, m as int);
            if word_start(s, m as int) && ww <= width && col > 0 && col + ww > width {
                let l1 = lines.push(cur);
                assert(l1.drop_last() =~= lines);
                assert(concat_lines(l1) == concat_lines(lines) + cur);
                if col_w(c) > width {
                    assert(st.0.drop_last() =~= l1);
                }
            } else {
                if col > 0 && col + col_w(c) > width {
                    assert(st.0.drop_last() =~= lines);
                }
            }
        }
    }
}

/// Wrapping only breaks lines: the wrapped lines, concatenated, are the text
/// with its newlines removed.
pub proof fn law_wrap_keeps_text(s: Seq<char>, width: nat)
    ensures
        concat_lines(wrapped_lines(s, width)) == without_newlines(s),
{
    let w = if width == 0 {
        1
    } else {
        width
    };
    lemma_run_concat(s, w, s.len());
    let st = wrap_run(s, w, s.len());
    assert(st.0.push(st.1).drop_last() =~= st.0);
    assert(s.take(s.len() as int) =~= s);
}

/// Columns that `l` takes (the sum of its characters' widths).
pub open spec fn line_width(l: Seq<char>) -> nat
    decreases l.len(),
{
    if l.len() == 0 {
        0
    } else {
        line_width(l.drop_last()) + col_w(l.last())
    }
}

/// Number of newlines in `s`.
pub open spec fn newlines_in(s: Seq<char>) -> nat {
    s.filter(|c: char| c == '\n').len()
}

proof fn lemma_run_fits(s: Seq<char>, width: nat, n: nat)
    requires
        n <= s.len(),
        width >= 1,
        forall|i: int| 0 <= i < s.len() && s[i] != '\n' ==> col_w(#[trigger] s[i]) <= width,
    ensures
        ({
            let st = wrap_run(s, width, n);
            &&& forall|i: int| 0 <= i < st.0.len() ==> line_width(#[trigger] st.0[i]) <= width
            &&& line_width(st.1) == st.2
            &&& st.2 <= width
        }),
    decreases n,
{
    if n == 0 {
        assert(line_width(Seq::<char>::empty()) == 0);
    } else {
        let m = (n - 1) as nat;
        lemma_run_fits(s, width, m);
        let (lines, cur, col) = wrap_run(s, width, m);
        let st = wrap_run(s, width, n);
        let c = s[m as int];
        let w = col_w(c);
        assert(line_width(Seq::<char>::empty()) == 0);
        assert(line_width(seq![c]) == w) by {
            assert(seq![c].drop_last() =~= Seq::<char>::empty());
        }
        assert(forall|l: Seq<char>, x: char| #[trigger] line_width(l.push(x)) == line_width(l) + col_w(x)) by {
            assert forall|l: Seq<char>, x: char| #[trigger] line_width(l.push(x)) == line_width(l) + col_w(x) by {
                assert(l.push(x).drop_last() =~= l);
            }
        }
        if c == '\n' {
            assert forall|i: int| 0 <= i < st.0.len() implies line_width(#[trigger] st.0[i]) <= width by {
                if i < lines.len() {
                    assert(st.0[i] == lines[i]);
                }
            }
        } else if c == ' ' || c == '\t' {
            let pre: WrapState = if col > 0 && col + w > width {
                (lines.push(cur), Seq::<char>::empty(), 0)
            } else {
                (lines, cur, col)
            };
            let (l1, c1, k1) = pre;
            assert(forall|i: int| 0 <= i < l1.len() ==> line_width(#[trigger] l1[i]) <= width) by {
                assert forall|i: int| 0 <= i < l1.len() implies line_width(#[trigger] l1[i]) <= width by {
                    if i < lines.len() {
                        assert(l1[i] == lines[i]);
                    }
                }
            }
            assert(k1 + w <= width);
            assert forall|i: int| 0 <= i < st.0.len() implies line_width(#[trigger] st.0[i]) <= width by {
                if i < l1.len() {
                    assert(st.0[i] == l1[i]);
                }
            }
        } else {
            let ww = word_width(s, m as int);
            let pre: WrapState = if word_start(s, m as int) && ww <= width && col > 0 && col + ww > width {
                (lines.push(cur), Seq::<char>::empty(), 0)
            } else {
                (lines, cur, col)
            };
            let (l1, c1, k1) = pre;
            assert(forall|i: int| 0 <= i < l1.len() ==> line_width(#[trigger] l1[i]) <= width) by {
                assert forall|i: int| 0 <= i < l1.len() implies line_width(#[trigger] l1[i]) <= width by {
                    if i < lines.len() {
                        assert(l1[i] == lines[i]);
                    }
                }
            }
            assert forall|i: int| 0 <= i < st.0.len() implies line_width(#[trigger] st.0[i]) <= width by {
                if i < l1.len() {
                    assert(st.0[i] == l1[i]);
                }
            }
        }
    }
}

/// Word wrapping keeps every line within the width: when no character is
/// wider than `width` columns, no wrapped line is either.
pub proof fn law_wrapped_lines_fit(s: Seq<char>, width: nat)
    requires
        width >= 1,
        forall|i: int| 0 <= i < s.len() && s[i] != '\n' ==> col_w(#[trigger] s[i]) <= width,
    ensures
        forall|i: int|
            0 <= i < wrapped_lines(s, width).len() ==> line_width(#[trigger] wrapped_lines(s, width)[i])
                <= width,
{
    lemma_run_fits(s, width, s.len());
    let st = wrap_run(s, width, s.len());
    assert forall|i: int| 0 <= i < wrapped_lines(s, width).len() implies line_width(
        #[trigger] wrapped_lines(s, width)[i],
    ) <= width by {
        if i < st.0.len() {
            assert(wrapped_lines(s, width)[i] == st.0[i]);
        }
    }
}

proof fn lemma_run_newlines(s: Seq<char>, width: nat, n: nat)
    requires
        n <= s.len(),
    ensures
        ({
            let st = wrap_run(s, width, n);
            &&& forall|i: int| 0 <= i < st.0.len() ==> !(#[trigger] st.0[i]).contains('\n')
            &&& !st.1.contains('\n')
            &&& st.0.len() >= newlines_in(s.take(n as int))
        }),
    decreases n,
{
    if n == 0 {
        assert(s.take(0) =~= Seq::<char>::empty());
        assert(Seq::<char>::empty().filter(|c: char| c == '\n') =~= Seq::<char>::empty());
    } else {
        let m = (n - 1) as nat;
        lemma_run_newlines(s, width, m);
        let (lines, cur, col) = wrap_run(s, width, m);
        let st = wrap_run(s, width, n);
        let c = s[m as int];
        assert(s.take(n as int) =~= s.take(m as int).push(c));
        s.take(m as int).lemma_filter_push(c, |c: char| c == '\n');
        assert forall|l: Seq<char>| !l.contains('\n') && c != '\n' implies !(#[trigger] l.push(c)).contains('\n') by {
            if l.push(c).contains('\n') {
                let j = choose|j: int| 0 <= j < l.push(c).len() && l.push(c)[j] == '\n';
                if j < l.len() {
                    assert(l[j] == '\n');
                }
            }
        }
        assert(!seq![c].contains('\n') || c == '\n');
        assert(!Seq::<char>::empty().contains('\n'));
        assert forall|i: int| 0 <= i < st.0.len() implies !(#[trigger] st.0[i]).contains('\n') by {
            if i < lines.len() {
                assert(st.0[i] == lines[i]);
            } else if c != '\n' && c != ' ' && c != '\t' {
                let ww = word_width(s, m as int);
                if word_start(s, m as int) && ww <= width && col > 0 && col + ww > width {
                    if i == lines.len() {
                        assert(st.0[i] == cur);
                    }
                }
            }
        }
    }
}

/// Wrapped lines hold no newline, and each newline of the text ends a
/// line: there are at least as many lines as newlines, plus one.
pub proof fn law_wrapped_lines_split_at_newlines(s: Seq<char>, width: nat)
    ensures
        forall|i: int| 0 <= i < wrapped_lines(s, width).len() ==> !(#[trigger] wrapped_lines(s, width)[i]).contains(
            '\n',
        ),
        wrapped_lines(s, width).len() >= newlines_in(s) + 1,
{
    let w = if width == 0 {
        1
    } else {
        width
    };
    lemma_run_newlines(s, w, s.len());
    let st = wrap_run(s, w, s.len());
    assert(s.take(s.len() as int) =~= s);
    assert forall|i: int| 0 <= i < wrapped_lines(s, width).len() implies !(
    #[trigger] wrapped_lines(s, width)[i]).contains('\n') by {
        if i < st.0.len() {
            assert(wrapped_lines(s, width)[i] == st.0[i]);
        } else {
            assert(wrapped_lines(s, width)[i] == st.1);
        }
    }
}

/// The cursor at the end of the text sits on the last wrapped line: its row
/// (see `composer_cursor_visual`) plus one is the wrapped line count.
pub proof fn law_cursor_at_end_on_last_line(s: Seq<char>, width: nat)
    ensures
        wrap_run(s, if width == 0 {
            1
        } else {
            width
        }, char_pos(s, byte_len(s) as int)).0.len() + 1 == wrapped_line_count(s, width),
        wrapped_line_count(s, width) == wrapped_lines(s, width).len(),
{
    lemma_char_pos_past_end(s, byte_len(s) as int);
}

// ── Execution ───────────────────────────────────────────────────────────────

fn col_w_exec(c: char) -> (w: usize)
    ensures
        w == col_w(c),
        w <= 4,
{
    char_wrap_width(c)
}

fn is_gap_exec(c: char) -> (r: bool)
    ensures
        r == is_gap(c),
{
    c == ' ' || c == '\t' || c == '\n'
}

/// The width of the word at `i` when it is at most `width`.
fn word_fit(v: &Vec<char>, i: usize, width: usize) -> (r: Option<usize>)
    requires
        i <= v.len(),
    ensures
        match r {
            Some(n) => n == word_width(v@, i as int) && n <= width,
            None => word_width(v@, i as int) > width,
        },
{
    let mut acc: usize = 0;
    let mut j = i;
    while j < v.len() && !is_gap_exec(v[j])
        invariant
            i <= j <= v.len(),
            acc <= width,
            word_width(v@, i as int) == acc + word_width(v@, j as int),
        decreases v.len() - j,
    {
        let w = col_w_exec(v[j]);
        if w > width - acc {
            return None;
        }
        acc = acc + w;
        j = j + 1;
    }
    Some(acc)
}

/// Runs the wrapper over the first `n` characters.
fn wrap_prefix(v: &Vec<char>, width: usize, n: usize) -> (r: (
    Vec<String>,
    Vec<char>,
    usize,
))
    requires
        n <= v.len(),
        width >= 1,
    ensures
        ({
            let st = wrap_run(v@, width as nat, n as nat);
            &&& r.0@.map_values(|l: String| l@) == st.0
            &&& r.1@ == st.1
            &&& r.2 == st.2
        }),
{
    let mut lines: Vec<String> = Vec::new();
    let mut cur: Vec<char> = Vec::new();
    let mut col: usize = 0;
    let mut i: usize = 0;
    while i < n
        invariant
            i <= n <= v.len(),
            width >= 1,
            col <= width || col <= 4,
            ({
                let st = wrap_run(v@, width as nat, i as nat);
                &&& lines@.map_values(|l: String| l@) == st.0
                &&& cur@ == st.1
                &&& col == st.2
            }),
        decreases n - i,
    {
        let c = v[i];
        let w = col_w_exec(c);
        let ghost old_lines = lines@;
        if c == '\n' {
            let line = string_of(cur.as_slice());
            lines.push(line);
            cur = Vec::new();
            col = 0;
        } else if c == ' ' || c == '\t' {
            if col > 0 && (col > width || w > width - col) {
                let line = string_of(cur.as_slice());
                lines.push(line);
                cur = Vec::new();
                col = 0;
            }
            let reset = col >= width || w >= width - col;
            cur.push(c);
            if reset {
                let line = string_of(cur.as_slice());
                lines.push(line);
                cur = Vec::new();
                col = 0;
            } else {
                col = col + w;
            }
        } else {
            let starts = i == 0 || is_gap_exec(v[i - 1]);
            if starts && col > 0 {
                match word_fit(v, i, width) {
                    Some(ww) => {
                        if col > width - ww {
                            let line = string_of(cur.as_slice());
                            lines.push(line);
                            cur = Vec::new();
                            col = 0;
                        }
                    },
                    None => {},
                }
            }
            if col > 0 && (col > width || w > width - col) {
                let line = string_of(cur.as_slice());
                lines.push(line);
                cur = Vec::new();
                cur.push(c);
                col = w;
            } else {
                cur.push(c);
                col = col + w;
            }
        }
        proof {
            assert(lines@.map_values(|l: String| l@) =~= wrap_run(
                v@,
                width as nat,
                (i + 1) as nat,
            ).0);
        }
        i = i + 1;
    }
    (lines, cur, col)
}

/// Word-wraps `text` into lines of at most `width` columns (`width` 0 counts
/// as 1). Newlines end lines and are dropped; see `wrap_step`.
pub fn word_wrap_text(text: &str, width: usize) -> (r: Vec<String>)
    ensures
        r@.map_values(|l: String| l@) == wrapped_lines(text@, width as nat),
{
    let w = if width == 0 {
        1
    } else {
        width
    };
    let v = chars_of(text);
    let (mut lines, cur, _col) = wrap_prefix(&v, w, v.len());
    let last = string_of(cur.as_slice());
    lines.push(last);
    proof {
        assert(lines@.map_values(|l: String| l@) =~= wrapped_lines(text@, width as nat));
    }
    lines
}

/// Number of visual lines that `text` takes when word-wrapped at `width`.
pub fn composer_wrapped_line_count(text: &str, width: usize) -> (r: usize)
    requires
        fits(text@),
    ensures
        r == wrapped_line_count(text@, width as nat),
{
    let v = chars_of(text);
    if v.len() == 0 {
        return 1;
    }
    let w = if width == 0 {
        1
    } else {
        width
    };
    let (lines, _cur, _col) = wrap_prefix(&v, w, v.len());
    proof {
        assert(lines@.map_values(|l: String| l@).len() == lines@.len());
        lemma_run_lines_bounded(v@, w as nat, v@.len());
    }
    lines.len() + 1
}

proof fn lemma_run_lines_bounded(s: Seq<char>, width: nat, n: nat)
    requires
        n <= s.len(),
    ensures
        wrap_run(s, width, n).0.len() + (if wrap_run(s, width, n).2 > 0 {
            1int
        } else {
            0int
        }) <= n,
    decreases n,
{
    if n > 0 {
        lemma_run_lines_bounded(s, width, (n - 1) as nat);
    }
}

/// Visual (row, column) of the cursor in the composer text wrapped at
/// `width` (0 counts as 1), placed by the same steps and the same character
/// widths as `word_wrap_text`.
pub fn composer_cursor_visual(text: &str, cursor: usize, width: u16) -> (r: (usize, usize))
    ensures
        ({
            let w: nat = if width == 0 {
                1
            } else {
                width as nat
            };
            let st = wrap_run(text@, w, char_pos(text@, cursor as int));
            r.0 == st.0.len() && r.1 == st.2
        }),
{
    let w: usize = if width == 0 {
        1
    } else {
        width as usize
    };
    let v = chars_of(text);
    let k = char_pos_of(&v, cursor);
    proof {
        lemma_char_pos_bounded(v@, cursor as int);
    }
    let (lines, _cur, col) = wrap_prefix(&v, w, k);
    proof {
        assert(lines@.map_values(|l: String| l@).len() == lines@.len());
    }
    (lines.len(), col)
}


proof fn lemma_word_stays(s: Seq<char>, width: nat, i: int, j: int)
    requires
        width >= 1,
        0 <= i < j <= s.len(),
        word_start(s, i),
        word_width(s, i) <= width,
        forall|k: int| i <= k < j ==> !is_gap(#[trigger] s[k]),
    ensures
        wrap_run(s, width, j as nat).2 + word_width(s, j) <= width,
        wrap_run(s, width, j as nat).0.len() == wrap_run(s, width, (i + 1) as nat).0.len(),
    decreases j - i,
{
    assert(!is_gap(s[i]));
    if j == i + 1 {
        let st = wrap_run(s, width, i as nat);
        assert(wrap_run(s, width, j as nat) == wrap_step(s, i, width, st));
        assert(word_width(s, i) == col_w(s[i]) + word_width(s, i + 1));
    } else {
        lemma_word_stays(s, width, i, j - 1);
        let st = wrap_run(s, width, (j - 1) as nat);
        assert(wrap_run(s, width, j as nat) == wrap_step(s, j - 1, width, st));
        assert(!is_gap(s[j - 1]));
        assert(!is_gap(s[j - 2]));
        assert(!word_start(s, j - 1));
        assert(word_width(s, j - 1) == col_w(s[j - 1]) + word_width(s, j));
    }
}

/// A word (a maximal run of characters other than space, tab and newline)
/// no wider than the wrap width is never split: once its first character
/// is placed, no line ends before its last one.
pub proof fn law_short_word_not_split(s: Seq<char>, width: nat, i: int, j: int)
    requires
        width >= 1,
        0 <= i <= j < s.len(),
        word_start(s, i),
        word_width(s, i) <= width,
        forall|k: int| i <= k <= j ==> !is_gap(#[trigger] s[k]),
    ensures
        wrap_run(s, width, (j + 1) as nat).0.len() == wrap_run(s, width, (i + 1) as nat).0.len(),
{
    lemma_word_stays(s, width, i, j + 1);
}

} // verus!
