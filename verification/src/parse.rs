//! Building blocks for parsing text: lines, whitespace-separated words,
//! splitting at a pattern, and decimal integers as std's `FromStr` reads
//! them.
use vstd::prelude::*;
use crate::composer::{lead_non_ws, lemma_lead_bounded, skip_non_ws};
use crate::text::{
    find_from, first_occurrence, lead_ws, lemma_lead_ws_bounded, occurs_at, sub_chars, trim_start,
    trim_start_chars,
};

verus! {

broadcast use vstd::seq_lib::group_seq_properties;

// ── Lines ───────────────────────────────────────────────────────────────────

/// Index of the first `\n` of `s`, or its length.
pub open spec fn nl_index(s: Seq<char>) -> nat
    decreases s.len(),
{
    if s.len() == 0 || s[0] == '\n' {
        0
    } else {
        1 + nl_index(s.drop_first())
    }
}

/// `l` without one trailing `\r`.
pub open spec fn strip_cr(l: Seq<char>) -> Seq<char> {
    if l.len() > 0 && l.last() == '\r' {
        l.drop_last()
    } else {
        l
    }
}

/// The lines of `s` as std's `str::lines` gives them: split at `\n`, a
/// `\r` before the `\n` dropped, no empty line after a final `\n`.
pub open spec fn text_lines(s: Seq<char>) -> Seq<Seq<char>>
    decreases s.len(),
{
    if s.len() == 0 {
        Seq::empty()
    } else {
        let i = nl_index(s);
        if i >= s.len() {
            seq![s]
        } else {
            proof {
                lemma_nl_index_bounded(s);
            }
            seq![strip_cr(s.take(i as int))] + text_lines(s.skip(i + 1 as int))
        }
    }
}

pub proof fn lemma_nl_index_bounded(s: Seq<char>)
    ensures
        nl_index(s) <= s.len(),
        nl_index(s) < s.len() ==> s[nl_index(s) as int] == '\n',
        forall|j: int| 0 <= j < nl_index(s) ==> s[j] != '\n',
    decreases s.len(),
{
    if s.len() > 0 && s[0] != '\n' {
        lemma_nl_index_bounded(s.drop_first());
        assert forall|j: int| 0 <= j < nl_index(s) implies s[j] != '\n' by {
            if j > 0 {
                assert(s[j] == s.drop_first()[j - 1]);
            }
        }
    }
}

/// Index of the first newline at or after `from`.
fn nl_from(v: &Vec<char>, from: usize) -> (i: usize)
    requires
        from <= v.len(),
    ensures
        from <= i <= v.len(),
        i - from == nl_index(v@.skip(from as int)),
{
    let mut i = from;
    while i < v.len() && v[i] != '\n'
        invariant
            from <= i <= v.len(),
            nl_index(v@.skip(from as int)) == (i - from) + nl_index(v@.skip(i as int)),
        decreases v.len() - i,
    {
        assert(v@.skip(i as int).drop_first() =~= v@.skip(i as int + 1));
        assert(v@.skip(i as int)[0] == v@[i as int]);
        i = i + 1;
    }
    proof {
        if i < v.len() {
            assert(v@.skip(i as int)[0] == v@[i as int]);
        }
    }
    i
}

/// The lines of `v` (see `text_lines`).
pub fn lines_of(v: &Vec<char>) -> (r: Vec<Vec<char>>)
    ensures
        r@.map_values(|l: Vec<char>| l@) == text_lines(v@),
{
    let mut r: Vec<Vec<char>> = Vec::new();
    let mut start: usize = 0;
    proof {
        assert(v@.skip(0) =~= v@);
    }
    while start < v.len()
        invariant
            start <= v.len(),
            text_lines(v@) == r@.map_values(|l: Vec<char>| l@) + text_lines(
                v@.skip(start as int),
            ),
        decreases v.len() - start,
    {
        let ghost t = v@.skip(start as int);
        let e = nl_from(v, start);
        let mut line = sub_chars(v, start, e);
        if e < v.len() && line.len() > 0 && line[line.len() - 1] == '\r' {
            line.pop();
        }
        let ghost prev = r@.map_values(|l: Vec<char>| l@);
        if e >= v.len() {
            proof {
                assert(line@ =~= t);
            }
            r.push(line);
            proof {
                assert(r@.map_values(|l: Vec<char>| l@) =~= prev.push(t));
                assert(text_lines(t) =~= seq![t]);
                assert(text_lines(v@) =~= r@.map_values(|l: Vec<char>| l@) + text_lines(
                    v@.skip(v.len() as int),
                ));
            }
            start = v.len();
        } else {
            proof {
                assert(t.take(e - start) =~= v@.subrange(start as int, e as int));
                assert(line@ == strip_cr(t.take(e - start)));
                assert(t.skip(e - start + 1) =~= v@.skip(e + 1));
            }
            r.push(line);
            proof {
                assert(r@.map_values(|l: Vec<char>| l@) =~= prev.push(
                    strip_cr(t.take(e - start)),
                ));
                assert(text_lines(t) == seq![strip_cr(t.take(e - start))] + text_lines(
                    v@.skip(e + 1),
                ));
                assert(prev + text_lines(t) =~= r@.map_values(|l: Vec<char>| l@) + text_lines(
                    v@.skip(e + 1),
                ));
            }
            start = e + 1;
        }
    }
    proof {
        assert(v@.skip(start as int).len() == 0);
        assert(r@.map_values(|l: Vec<char>| l@) + text_lines(v@.skip(start as int))
            =~= r@.map_values(|l: Vec<char>| l@));
    }
    r
}

// ── Words ───────────────────────────────────────────────────────────────────

/// The whitespace-separated words of `s`, as std's `split_whitespace`
/// gives them.
pub open spec fn words(s: Seq<char>) -> Seq<Seq<char>>
    decreases s.len(),
{
    let t = trim_start(s);
    if t.len() == 0 {
        Seq::empty()
    } else {
        proof {
            lemma_lead_ws_bounded(s);
            lemma_word_progress(t);
        }
        seq![t.take(lead_non_ws(t) as int)] + words(t.skip(lead_non_ws(t) as int))
    }
}

pub proof fn lemma_word_progress(t: Seq<char>)
    ensures
        lead_non_ws(t) <= t.len(),
        t.len() > 0 && !crate::text::is_ws(t[0]) ==> lead_non_ws(t) > 0,
{
    lemma_lead_bounded(t);
}

/// The words of `v` (see `words`).
pub fn words_of(v: &Vec<char>) -> (r: Vec<Vec<char>>)
    ensures
        r@.map_values(|w: Vec<char>| w@) == words(v@),
    decreases v.len(),
{
    let t = trim_start_chars(v);
    proof {
        lemma_lead_ws_bounded(v@);
    }
    if t.len() == 0 {
        return Vec::new();
    }
    proof {
        crate::text::lemma_lead_ws_not_ws(v@);
        assert(t@[0] == v@[lead_ws(v@) as int]);
        lemma_word_progress(t@);
        assert(t@.skip(0) =~= t@);
    }
    let e = skip_non_ws(&t, 0);
    let w = sub_chars(&t, 0, e);
    let rest = sub_chars(&t, e, t.len());
    let tail = words_of(&rest);
    let mut r = tail;
    let ghost tv = r@;
    r.insert(0, w);
    proof {
        assert(r@.map_values(|x: Vec<char>| x@) =~= seq![w@] + tv.map_values(|x: Vec<char>| x@));
        assert(r@.map_values(|x: Vec<char>| x@) =~= words(v@));
    }
    r
}

// ── Splitting at a pattern ──────────────────────────────────────────────────

/// `s` split around the first occurrence of `pat` (std's `split_once`).
pub open spec fn split_once(s: Seq<char>, pat: Seq<char>) -> Option<(Seq<char>, Seq<char>)> {
    match first_occurrence(s, pat) {
        Some(i) => Some((s.take(i), s.skip(i + pat.len()))),
        None => None,
    }
}

pub fn split_once_of(s: &Vec<char>, pat: &Vec<char>) -> (r: Option<(Vec<char>, Vec<char>)>)
    ensures
        match split_once(s@, pat@) {
            Some((a, b)) => r matches Some(p) && p.0@ == a && p.1@ == b,
            None => r is None,
        },
{
    match find_from(s, pat, 0) {
        Some(i) => {
            proof {
                let c = choose|k: int|
                    occurs_at(s@, pat@, k) && forall|j: int|
                        0 <= j < k ==> !occurs_at(s@, pat@, j);
                assert(occurs_at(s@, pat@, i as int));
                assert(!(c < i));
                assert(!(i < c));
                assert(i + pat@.len() <= s@.len());
            }
            assert(occurs_at(s@, pat@, i as int));
            assert(i + pat.len() <= s.len());
            let end = i + pat.len();
            Some((sub_chars(s, 0, i), sub_chars(s, end, s.len())))
        },
        None => None,
    }
}

/// The part of `s` before its first `c` (std's `split(c).next()`).
pub open spec fn before_char(s: Seq<char>, c: char) -> Seq<char>
    decreases s.len(),
{
    if s.len() == 0 || s[0] == c {
        Seq::empty()
    } else {
        seq![s[0]] + before_char(s.drop_first(), c)
    }
}

pub fn before_char_of(s: &Vec<char>, c: char) -> (r: Vec<char>)
    ensures
        r@ == before_char(s@, c),
{
    let mut i: usize = 0;
    proof {
        assert(s@.skip(0) =~= s@);
    }
    while i < s.len() && s[i] != c
        invariant
            i <= s.len(),
            before_char(s@, c) == s@.take(i as int) + before_char(s@.skip(i as int), c),
        decreases s.len() - i,
    {
        proof {
            assert(s@.skip(i as int).drop_first() =~= s@.skip(i as int + 1));
            assert(s@.skip(i as int)[0] == s@[i as int]);
            assert(s@.take(i as int + 1) =~= s@.take(i as int) + seq![s@[i as int]]);
        }
        i = i + 1;
    }
    proof {
        if i < s.len() {
            assert(s@.skip(i as int)[0] == s@[i as int]);
        }
        assert(s@.take(i as int) + before_char(s@.skip(i as int), c) =~= s@.take(i as int));
    }
    sub_chars(s, 0, i)
}

// ── Integers ────────────────────────────────────────────────────────────────

pub open spec fn is_digit(c: char) -> bool {
    '0' <= c && c <= '9'
}

pub open spec fn all_digits(s: Seq<char>) -> bool {
    forall|i: int| 0 <= i < s.len() ==> is_digit(#[trigger] s[i])
}

/// Value of the decimal digits `s`.
pub open spec fn digits_value(s: Seq<char>) -> nat
    decreases s.len(),
{
    if s.len() == 0 {
        0
    } else {
        10 * digits_value(s.drop_last()) + ((s.last() as u32) - 0x30) as nat
    }
}

/// An unsigned integer no larger than `max` as std's `FromStr` reads it: an
/// optional `+`, then at least one digit.
pub open spec fn parse_unsigned(s: Seq<char>, max: nat) -> Option<nat> {
    let d = if s.len() > 0 && s[0] == '+' {
        s.drop_first()
    } else {
        s
    };
    if d.len() > 0 && all_digits(d) && digits_value(d) <= max {
        Some(digits_value(d))
    } else {
        None
    }
}

/// A signed integer in `[-max - 1, max]` as std's `FromStr` reads it: an
/// optional sign, then at least one digit.
pub open spec fn parse_signed(s: Seq<char>, max: nat) -> Option<int> {
    if s.len() > 0 && s[0] == '-' {
        let d = s.drop_first();
        if d.len() > 0 && all_digits(d) && digits_value(d) <= max + 1 {
            Some(-(digits_value(d) as int))
        } else {
            None
        }
    } else {
        match parse_unsigned(s, max) {
            Some(v) => Some(v as int),
            None => None,
        }
    }
}

proof fn lemma_digits_value_grows(s: Seq<char>, k: int)
    requires
        0 <= k <= s.len(),
        all_digits(s),
    ensures
        digits_value(s.take(k)) <= digits_value(s),
    decreases s.len() - k,
{
    if k < s.len() {
        lemma_digits_value_grows(s, k + 1);
        assert(s.take(k + 1).drop_last() =~= s.take(k));
        assert(is_digit(s[k]));
    } else {
        assert(s.take(k) =~= s);
    }
}

/// Reads the digits of `v` from index `from` as a number up to `max`.
fn digits_from(v: &Vec<char>, from: usize, max: u64) -> (r: Option<u64>)
    requires
        from <= v.len(),
    ensures
        ({
            let d = v@.skip(from as int);
            match r {
                Some(n) => d.len() > 0 && all_digits(d) && n == digits_value(d) && n <= max,
                None => !(d.len() > 0 && all_digits(d) && digits_value(d) <= max),
            }
        }),
{
    let ghost d = v@.skip(from as int);
    if from >= v.len() {
        return None;
    }
    let mut n: u64 = 0;
    let mut i = from;
    proof {
        assert(d.take(0) =~= Seq::<char>::empty());
    }
    while i < v.len()
        invariant
            from <= i <= v.len(),
            d == v@.skip(from as int),
            all_digits(d.take(i - from)),
            n == digits_value(d.take(i - from)),
            n <= max,
        decreases v.len() - i,
    {
        let c = v[i];
        assert(d[i - from] == c);
        if !('0' <= c && c <= '9') {
            proof {
                assert(!all_digits(d)) by {
                    assert(!is_digit(d[i - from]));
                }
            }
            return None;
        }
        let dv = (c as u32 - 0x30) as u64;
        assert(d.take(i - from + 1).drop_last() =~= d.take(i - from));
        assert(d.take(i - from + 1).last() == c);
        if dv > max || n > (max - dv) / 10 {
            proof {
                assert(digits_value(d.take(i - from + 1)) > max) by (nonlinear_arith)
                    requires
                        digits_value(d.take(i - from + 1)) == 10 * n + dv,
                        dv > max || n > (max - dv) / 10,
                        dv <= 9,
                ;
                if all_digits(d) {
                    lemma_digits_value_grows(d, i - from + 1);
                }
            }
            return None;
        }
        proof {
            assert(10 * n + dv <= max) by (nonlinear_arith)
                requires
                    n <= (max - dv) / 10,
                    dv <= max,
            ;
        }
        n = n * 10 + dv;
        i = i + 1;
    }
    proof {
        assert(d.take(i - from) =~= d);
    }
    Some(n)
}

/// Parses an unsigned integer up to `max` (see `parse_unsigned`).
pub fn parse_unsigned_of(v: &Vec<char>, max: u64) -> (r: Option<u64>)
    ensures
        match parse_unsigned(v@, max as nat) {
            Some(n) => r == Some(n as u64),
            None => r is None,
        },
{
    if v.len() > 0 && v[0] == '+' {
        proof {
            assert(v@.drop_first() =~= v@.skip(1));
        }
        digits_from(v, 1, max)
    } else {
        proof {
            assert(v@.skip(0) =~= v@);
        }
        digits_from(v, 0, max)
    }
}

/// Parses a signed integer in `[-max - 1, max]` (see `parse_signed`).
pub fn parse_signed_of(v: &Vec<char>, max: u64) -> (r: Option<(bool, u64)>)
    requires
        max < u64::MAX,
    ensures
        match parse_signed(v@, max as nat) {
            Some(n) => r matches Some(p) && (if p.0 {
                n == -(p.1 as int)
            } else {
                n == p.1 as int
            }),
            None => r is None,
        },
{
    if v.len() > 0 && v[0] == '-' {
        proof {
            assert(v@.drop_first() =~= v@.skip(1));
        }
        match digits_from(v, 1, max + 1) {
            Some(n) => Some((true, n)),
            None => None,
        }
    } else {
        match parse_unsigned_of(v, max) {
            Some(n) => Some((false, n)),
            None => None,
        }
    }
}

} // verus!
