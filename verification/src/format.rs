//! Short human-readable renderings: elapsed times, token counts, ages,
//! middle-truncated labels and control-free tool output lines.
use vstd::prelude::*;
use std::time::Duration;
use crate::text::{chars_of, string_of, push_all, sub_chars, decimal, decimal_of};

verus! {

broadcast use vstd::seq_lib::group_seq_properties;

// ── Elapsed time ────────────────────────────────────────────────────────────

/// `30s`, `2m` or `1m 12s` for a duration of `secs` whole seconds.
pub open spec fn elapsed_text(secs: nat) -> Seq<char> {
    let mins = secs / 60;
    let rem = secs % 60;
    if mins == 0 {
        decimal(secs).push('s')
    } else if rem == 0 {
        decimal(mins).push('m')
    } else {
        decimal(mins) + seq!['m', ' '] + decimal(rem).push('s')
    }
}

/// Renders `secs` whole seconds as `elapsed_text` says.
pub fn format_elapsed_secs(secs: u64) -> (r: String)
    ensures
        r@ == elapsed_text(secs as nat),
{
    let mins = secs / 60;
    let rem = secs % 60;
    let mut v: Vec<char>;
    if mins == 0 {
        v = decimal_of(secs);
        v.push('s');
    } else if rem == 0 {
        v = decimal_of(mins);
        v.push('m');
    } else {
        v = decimal_of(mins);
        v.push('m');
        v.push(' ');
        let r = decimal_of(rem);
        push_all(&mut v, &r);
        v.push('s');
        proof {
            assert(v@ =~= decimal(mins as nat) + seq!['m', ' '] + decimal(rem as nat).push('s'));
        }
    }
    string_of(v.as_slice())
}

/// The whole seconds that `d` holds, as std's `Duration::as_secs` gives
/// them (a function of `d` alone).
pub uninterp spec fn duration_whole_secs(d: Duration) -> u64;

/// Calls std's `Duration::as_secs`. The result is the named value.
#[verifier::external_body]
fn duration_secs(d: Duration) -> (s: u64)
    ensures
        s == duration_whole_secs(d),
{
    d.as_secs()
}

/// Renders the whole seconds of `d` as `elapsed_text` says.
pub fn format_elapsed(d: Duration) -> (r: String)
    ensures
        r@ == elapsed_text(duration_whole_secs(d) as nat),
{
    let secs = duration_secs(d);
    format_elapsed_secs(secs)
}

// ── Token counts ────────────────────────────────────────────────────────────

/// Digits `ds` with a comma before each group of three, counted from the
/// right (`19674` → `19,674`).
pub open spec fn group_thousands(ds: Seq<char>) -> Seq<char>
    decreases ds.len(),
{
    if ds.len() <= 3 {
        ds
    } else {
        group_thousands(ds.take(ds.len() - 3)).push(',') + ds.skip(ds.len() - 3)
    }
}

fn group_thousands_of(v: &Vec<char>) -> (r: Vec<char>)
    ensures
        r@ == group_thousands(v@),
    decreases v.len(),
{
    let n = v.len();
    if n <= 3 {
        return sub_chars(v, 0, n);
    }
    let head = sub_chars(v, 0, n - 3);
    let tail = sub_chars(v, n - 3, n);
    let mut r = group_thousands_of(&head);
    r.push(',');
    push_all(&mut r, &tail);
    proof {
        assert(v@.subrange(0, n as int) =~= v@);
    }
    r
}

/// `n` in decimal with thousands separators.
pub fn format_tokens(n: u64) -> (r: String)
    ensures
        r@ == group_thousands(decimal(n as nat)),
{
    let ds = decimal_of(n);
    let g = group_thousands_of(&ds);
    string_of(g.as_slice())
}

// ── Ages ────────────────────────────────────────────────────────────────────

/// `now`, `42s`, `5m`, `3h` or `2d` for an age of `delta_ms` milliseconds
/// (a negative age counts as none).
pub open spec fn age_text(delta_ms: int) -> Seq<char> {
    let secs: nat = if delta_ms <= 0 { 0 } else { (delta_ms / 1000) as nat };
    let mins = secs / 60;
    let hours = mins / 60;
    let days = hours / 24;
    if secs < 10 {
        seq!['n', 'o', 'w']
    } else if secs < 60 {
        decimal(secs).push('s')
    } else if mins < 60 {
        decimal(mins).push('m')
    } else if hours < 24 {
        decimal(hours).push('h')
    } else {
        decimal(days).push('d')
    }
}

/// How long ago `updated_at_unix_ms` was, seen at `now_unix_ms`.
pub fn format_age(updated_at_unix_ms: i64, now_unix_ms: i64) -> (r: String)
    requires
        i64::MIN <= now_unix_ms - updated_at_unix_ms <= i64::MAX,
    ensures
        r@ == age_text(now_unix_ms - updated_at_unix_ms),
{
    let delta: i64 = now_unix_ms - updated_at_unix_ms;
    let d: u64 = if delta <= 0 { 0 } else { delta as u64 };
    let secs = d / 1000;
    let mins = secs / 60;
    let hours = mins / 60;
    let days = hours / 24;
    let mut v: Vec<char>;
    if secs < 10 {
        v = Vec::new();
        v.push('n');
        v.push('o');
        v.push('w');
    } else if secs < 60 {
        v = decimal_of(secs);
        v.push('s');
    } else if mins < 60 {
        v = decimal_of(mins);
        v.push('m');
    } else if hours < 24 {
        v = decimal_of(hours);
        v.push('h');
    } else {
        v = decimal_of(days);
        v.push('d');
    }
    proof {
        assert(v@ =~= age_text(now_unix_ms - updated_at_unix_ms));
    }
    string_of(v.as_slice())
}

// ── Truncation ──────────────────────────────────────────────────────────────

/// `text` cut to `max` characters by replacing its middle with `…`: the
/// first half of the kept characters, the ellipsis, then the rest from the
/// end.
pub open spec fn ellipsize(text: Seq<char>, max: nat) -> Seq<char> {
    if text.len() <= max {
        text
    } else if max <= 1 {
        seq!['…']
    } else {
        let keep = (max - 1) as nat;
        let head = keep / 2;
        let tail = (keep - head) as nat;
        text.take(head as int).push('…') + text.skip(text.len() - tail)
    }
}

pub fn truncate_with_ellipsis(text: &str, max_chars: usize) -> (r: String)
    ensures
        r@ == ellipsize(text@, max_chars as nat),
{
    let v = chars_of(text);
    let n = v.len();
    if n <= max_chars {
        return string_of(v.as_slice());
    }
    if max_chars <= 1 {
        let mut e: Vec<char> = Vec::new();
        e.push('…');
        proof {
            assert(e@ =~= seq!['…']);
        }
        return string_of(e.as_slice());
    }
    let keep = max_chars - 1;
    let head = keep / 2;
    let tail = keep - head;
    let mut r = sub_chars(&v, 0, head);
    r.push('…');
    let suffix = sub_chars(&v, n - tail, n);
    push_all(&mut r, &suffix);
    proof {
        assert(r@ =~= v@.take(head as int).push('…') + v@.skip(n - tail));
    }
    string_of(r.as_slice())
}

// ── Control-free output lines ───────────────────────────────────────────────

/// A control character (Unicode category Cc, std's `char::is_control`).
pub open spec fn is_cc(c: char) -> bool {
    (c as u32) <= 0x1F || (0x7F <= (c as u32) && (c as u32) <= 0x9F)
}

pub open spec fn ascii_alpha(c: char) -> bool {
    ('a' <= c && c <= 'z') || ('A' <= c && c <= 'Z')
}

/// Where an escape sequence whose parameters start at `i` ends: just past
/// its first ASCII letter, or at the end of `s`.
pub open spec fn csi_stop(s: Seq<char>, i: int) -> int
    decreases s.len() - i,
{
    if i >= s.len() {
        s.len() as int
    } else if ascii_alpha(s[i]) {
        i + 1
    } else {
        csi_stop(s, i + 1)
    }
}

pub proof fn lemma_csi_stop_bounds(s: Seq<char>, i: int)
    requires
        i <= s.len(),
    ensures
        i <= csi_stop(s, i) <= s.len(),
    decreases s.len() - i,
{
    if i < s.len() && !ascii_alpha(s[i]) {
        lemma_csi_stop_bounds(s, i + 1);
    }
}

/// `s` from position `i` on with ANSI escape sequences (`ESC [ … letter`),
/// lone escapes and control characters other than tab removed.
pub open spec fn sanitized_from(s: Seq<char>, i: int) -> Seq<char>
    decreases s.len() - i,
{
    if i < 0 || i >= s.len() {
        Seq::empty()
    } else if s[i] == '\x1b' {
        if i + 1 < s.len() && s[i + 1] == '[' {
            proof {
                lemma_csi_stop_bounds(s, i + 2);
            }
            sanitized_from(s, csi_stop(s, i + 2))
        } else {
            sanitized_from(s, i + 1)
        }
    } else if is_cc(s[i]) && s[i] != '\t' {
        sanitized_from(s, i + 1)
    } else {
        seq![s[i]] + sanitized_from(s, i + 1)
    }
}

pub open spec fn sanitized(s: Seq<char>) -> Seq<char> {
    sanitized_from(s, 0)
}

/// No control character other than a tab (so no escape either).
pub open spec fn control_free(s: Seq<char>) -> bool {
    forall|j: int| 0 <= j < s.len() ==> !(is_cc(#[trigger] s[j]) && s[j] != '\t')
}

proof fn lemma_sanitized_from_control_free(s: Seq<char>, i: int)
    ensures
        control_free(sanitized_from(s, i)),
    decreases s.len() - i,
{
    if 0 <= i < s.len() {
        if s[i] == '\x1b' {
            if i + 1 < s.len() && s[i + 1] == '[' {
                lemma_csi_stop_bounds(s, i + 2);
                lemma_sanitized_from_control_free(s, csi_stop(s, i + 2));
            } else {
                lemma_sanitized_from_control_free(s, i + 1);
            }
        } else {
            lemma_sanitized_from_control_free(s, i + 1);
            let rest = sanitized_from(s, i + 1);
            if !(is_cc(s[i]) && s[i] != '\t') {
                assert forall|j: int| 0 <= j < (seq![s[i]] + rest).len() implies !(is_cc(
                    #[trigger] (seq![s[i]] + rest)[j],
                ) && (seq![s[i]] + rest)[j] != '\t') by {
                    if j > 0 {
                        assert((seq![s[i]] + rest)[j] == rest[j - 1]);
                    }
                }
            }
        }
    }
}

proof fn lemma_sanitized_from_keeps(s: Seq<char>, i: int)
    requires
        0 <= i <= s.len(),
        control_free(s),
    ensures
        sanitized_from(s, i) == s.skip(i),
    decreases s.len() - i,
{
    if i < s.len() {
        assert(!(is_cc(s[i]) && s[i] != '\t'));
        assert(s[i] != '\x1b');
        lemma_sanitized_from_keeps(s, i + 1);
        assert(s.skip(i) =~= seq![s[i]] + s.skip(i + 1));
    } else {
        assert(s.skip(i) =~= Seq::<char>::empty());
    }
}

/// Sanitized output holds no control character other than a tab (so no
/// escape), and sanitizing it again changes nothing.
pub proof fn law_sanitized_is_control_free(s: Seq<char>)
    ensures
        forall|j: int| 0 <= j < sanitized(s).len() ==> #[trigger] sanitized(s)[j] != '\x1b',
        control_free(sanitized(s)),
        sanitized(sanitized(s)) == sanitized(s),
{
    lemma_sanitized_from_control_free(s, 0);
    let t = sanitized(s);
    assert forall|j: int| 0 <= j < t.len() implies #[trigger] t[j] != '\x1b' by {
        assert(!(is_cc(t[j]) && t[j] != '\t'));
    }
    lemma_sanitized_from_keeps(t, 0);
    assert(t.skip(0) =~= t);
}

fn is_cc_exec(c: char) -> (r: bool)
    ensures
        r == is_cc(c),
{
    let u = c as u32;
    u <= 0x1F || (0x7F <= u && u <= 0x9F)
}

fn csi_stop_of(v: &Vec<char>, i: usize) -> (r: usize)
    requires
        i <= v.len(),
    ensures
        r == csi_stop(v@, i as int),
{
    let mut j = i;
    while j < v.len()
        invariant
            i <= j <= v.len(),
            csi_stop(v@, j as int) == csi_stop(v@, i as int),
        decreases v.len() - j,
    {
        let c = v[j];
        if ('a' <= c && c <= 'z') || ('A' <= c && c <= 'Z') {
            return j + 1;
        }
        j = j + 1;
    }
    j
}

/// `line` without ANSI escape sequences and control characters (tab kept).
pub fn sanitize_output_line(line: &str) -> (r: String)
    ensures
        r@ == sanitized(line@),
{
    let v = chars_of(line);
    let mut out: Vec<char> = Vec::new();
    let mut i: usize = 0;
    while i < v.len()
        invariant
            i <= v.len(),
            out@ + sanitized_from(v@, i as int) == sanitized(v@),
        decreases v.len() - i,
    {
        let c = v[i];
        if c == '\x1b' {
            if i + 1 < v.len() && v[i + 1] == '[' {
                proof {
                    lemma_csi_stop_bounds(v@, i + 2);
                }
                i = csi_stop_of(&v, i + 2);
            } else {
                i = i + 1;
            }
        } else if is_cc_exec(c) && c != '\t' {
            i = i + 1;
        } else {
            proof {
                assert(out@.push(c) + sanitized_from(v@, i + 1) =~= out@ + sanitized_from(v@, i as int));
            }
            out.push(c);
            i = i + 1;
        }
    }
    proof {
        assert(out@ + sanitized_from(v@, i as int) =~= out@);
    }
    string_of(out.as_slice())
}

} // verus!
