//! Reading patches and diff output: hunk headers, patch targets, stat
//! lines, exit codes and `git diff --shortstat` summaries.
use vstd::prelude::*;
use crate::parse::{all_digits, before_char, before_char_of, is_digit, lines_of, parse_signed, parse_signed_of, parse_unsigned, parse_unsigned_of, split_once, split_once_of, text_lines, words, words_of};
use crate::text::{byte_len, chars_of, eq_str, has_prefix, has_prefix_exec, string_of, sub_chars, trim, trim_chars};

verus! {

broadcast use vstd::seq_lib::group_seq_properties;

// ── Small helpers ───────────────────────────────────────────────────────────

/// `s` without the prefix `p` when it has it (std's `strip_prefix`).
pub open spec fn strip_prefix(s: Seq<char>, p: Seq<char>) -> Option<Seq<char>> {
    if has_prefix(s, p) {
        Some(s.skip(p.len() as int))
    } else {
        None
    }
}

pub fn strip_prefix_of(s: &Vec<char>, p: &str) -> (r: Option<Vec<char>>)
    ensures
        match strip_prefix(s@, p@) {
            Some(t) => r matches Some(v) && v@ == t,
            None => r is None,
        },
{
    let pv = chars_of(p);
    if has_prefix_exec(s, &pv) {
        Some(sub_chars(s, pv.len(), s.len()))
    } else {
        None
    }
}

/// `s` with every leading repetition of `p` removed (std's
/// `trim_start_matches` with a string pattern).
pub open spec fn strip_all_prefix(s: Seq<char>, p: Seq<char>) -> Seq<char>
    decreases s.len(),
{
    if p.len() > 0 && has_prefix(s, p) {
        strip_all_prefix(s.skip(p.len() as int), p)
    } else {
        s
    }
}

pub fn strip_all_prefix_of(s: &Vec<char>, p: &str) -> (r: Vec<char>)
    ensures
        r@ == strip_all_prefix(s@, p@),
{
    let pv = chars_of(p);
    let mut i: usize = 0;
    proof {
        assert(s@.skip(0) =~= s@);
    }
    while pv.len() > 0 && i <= s.len() && has_prefix_exec(&sub_chars(s, i, s.len()), &pv)
        invariant
            i <= s.len(),
            strip_all_prefix(s@, pv@) == strip_all_prefix(s@.skip(i as int), pv@),
        decreases s.len() - i,
    {
        proof {
            assert(s@.skip(i as int).skip(pv.len() as int) =~= s@.skip(i + pv.len()));
        }
        i = i + pv.len();
    }
    sub_chars(s, i, s.len())
}

/// `s` without its leading `c` characters (std's `trim_start_matches(c)`).
pub open spec fn strip_leading(s: Seq<char>, c: char) -> Seq<char>
    decreases s.len(),
{
    if s.len() > 0 && s[0] == c {
        strip_leading(s.drop_first(), c)
    } else {
        s
    }
}

pub fn strip_leading_of(s: &Vec<char>, c: char) -> (r: Vec<char>)
    ensures
        r@ == strip_leading(s@, c),
{
    let mut i: usize = 0;
    proof {
        assert(s@.skip(0) =~= s@);
    }
    while i < s.len() && s[i] == c
        invariant
            i <= s.len(),
            strip_leading(s@, c) == strip_leading(s@.skip(i as int), c),
        decreases s.len() - i,
    {
        assert(s@.skip(i as int).drop_first() =~= s@.skip(i as int + 1));
        assert(s@.skip(i as int)[0] == s@[i as int]);
        i = i + 1;
    }
    proof {
        if i < s.len() {
            assert(s@.skip(i as int)[0] == s@[i as int]);
        }
    }
    sub_chars(s, i, s.len())
}

// ── Stat lines ──────────────────────────────────────────────────────────────

/// A token like `+22` or `-18`: a sign, then only digits.
pub open spec fn stat_token(p: Seq<char>) -> bool {
    p.len() > 0 && (p[0] == '+' || p[0] == '-') && all_digits(p.drop_first())
}

/// A diff stat line such as `+22 -18`: one to four words, each a stat token.
pub open spec fn stat_line(s: Seq<char>) -> bool {
    let ps = words(s);
    ps.len() > 0 && ps.len() <= 4 && forall|i: int| 0 <= i < ps.len() ==> stat_token(#[trigger] ps[i])
}

fn stat_token_of(p: &Vec<char>) -> (r: bool)
    ensures
        r == stat_token(p@),
{
    if p.len() == 0 || !(p[0] == '+' || p[0] == '-') {
        return false;
    }
    let mut i: usize = 1;
    while i < p.len()
        invariant
            1 <= i <= p.len(),
            forall|j: int| 1 <= j < i ==> is_digit(#[trigger] p@[j]),
        decreases p.len() - i,
    {
        if !('0' <= p[i] && p[i] <= '9') {
            proof {
                assert(!is_digit(p@.drop_first()[i - 1]));
            }
            return false;
        }
        i = i + 1;
    }
    proof {
        assert forall|j: int| 0 <= j < p@.drop_first().len() implies is_digit(
            #[trigger] p@.drop_first()[j],
        ) by {
            assert(p@.drop_first()[j] == p@[j + 1]);
        }
    }
    true
}

/// Whether `s` is a diff stat line like `+22 -18`.
pub fn is_stat_line(s: &str) -> (r: bool)
    ensures
        r == stat_line(s@),
{
    let ps = words_of(&chars_of(s));
    if ps.len() == 0 || ps.len() > 4 {
        return false;
    }
    let mut i: usize = 0;
    while i < ps.len()
        invariant
            i <= ps.len(),
            ps@.map_values(|w: Vec<char>| w@) == words(s@),
            forall|j: int| 0 <= j < i ==> stat_token(#[trigger] words(s@)[j]),
        decreases ps.len() - i,
    {
        assert(ps@.map_values(|w: Vec<char>| w@)[i as int] == ps@[i as int]@);
        if !stat_token_of(&ps[i]) {
            return false;
        }
        i = i + 1;
    }
    true
}

// ── Hunk headers ────────────────────────────────────────────────────────────

/// The number at the start of `x` up to its first comma, or 0.
pub open spec fn hunk_num(x: Seq<char>) -> nat {
    match parse_unsigned(before_char(x, ','), usize::MAX as nat) {
        Some(v) => v,
        None => 0,
    }
}

/// (old start, new start) after reading `tokens`: a `-N,M` token sets the
/// old start, a `+N,M` token the new one; later tokens win.
pub open spec fn hunk_fold(tokens: Seq<Seq<char>>) -> (nat, nat)
    decreases tokens.len(),
{
    if tokens.len() == 0 {
        (0, 0)
    } else {
        let (o, n) = hunk_fold(tokens.drop_last());
        let t = tokens.last();
        if t.len() > 0 && t[0] == '-' {
            (hunk_num(t.drop_first()), n)
        } else if t.len() > 0 && t[0] == '+' {
            (o, hunk_num(t.drop_first()))
        } else {
            (o, n)
        }
    }
}

/// A unified diff hunk header `@@ -a,b +c,d @@` read as the 0-based
/// (new start, old start); `None` when neither start is positive.
pub open spec fn hunk_header(h: Seq<char>) -> Option<(nat, nat)> {
    let (o, n) = hunk_fold(words(strip_leading(h, '@')));
    if o > 0 || n > 0 {
        Some((if n > 0 {
            (n - 1) as nat
        } else {
            0
        }, if o > 0 {
            (o - 1) as nat
        } else {
            0
        }))
    } else {
        None
    }
}

fn hunk_num_of(x: &Vec<char>) -> (r: usize)
    ensures
        r == hunk_num(x@),
{
    let head = before_char_of(x, ',');
    match parse_unsigned_of(&head, usize::MAX as u64) {
        Some(v) => v as usize,
        None => 0,
    }
}

/// Parses a unified diff hunk header into 0-based (new start, old start).
#[verifier::rlimit(30)]
pub fn parse_hunk_header(header: &str) -> (r: Option<(usize, usize)>)
    ensures
        match hunk_header(header@) {
            Some((n, o)) => r == Some((n as usize, o as usize)),
            None => r is None,
        },
{
    let v = chars_of(header);
    let stripped = strip_leading_of(&v, '@');
    let t = trim_chars(&stripped);
    let tokens = words_of(&stripped);
    let mut old_start: usize = 0;
    let mut new_start: usize = 0;
    let mut i: usize = 0;
    let ghost ws = words(strip_leading(header@, '@'));
    proof {
        assert(ws.take(0) =~= Seq::<Seq<char>>::empty());
    }
    while i < tokens.len()
        invariant
            i <= tokens.len(),
            tokens@.map_values(|w: Vec<char>| w@) == ws,
            (old_start as nat, new_start as nat) == hunk_fold(ws.take(i as int)),
        decreases tokens.len() - i,
    {
        let tok = &tokens[i];
        proof {
            assert(ws[i as int] == tok@);
            assert(ws.take(i as int + 1).drop_last() =~= ws.take(i as int));
            assert(ws.take(i as int + 1).last() == tok@);
        }
        if tok.len() > 0 && tok[0] == '-' {
            let rest = sub_chars(tok, 1, tok.len());
            proof {
                assert(rest@ =~= tok@.drop_first());
            }
            old_start = hunk_num_of(&rest);
        } else if tok.len() > 0 && tok[0] == '+' {
            let rest = sub_chars(tok, 1, tok.len());
            proof {
                assert(rest@ =~= tok@.drop_first());
            }
            new_start = hunk_num_of(&rest);
        }
        i = i + 1;
    }
    proof {
        assert(ws.take(tokens.len() as int) =~= ws);
    }
    if old_start > 0 || new_start > 0 {
        let n = if new_start > 0 {
            new_start - 1
        } else {
            0
        };
        let o = if old_start > 0 {
            old_start - 1
        } else {
            0
        };
        Some((n, o))
    } else {
        None
    }
}

/// A unified hunk header `@@ -a,b +c,d @@` read as its 1-based (old start,
/// new start), each the number before any comma.
pub open spec fn unified_hunk_starts(line: Seq<char>) -> Option<(nat, nat)> {
    match strip_prefix(line, "@@ -"@) {
        None => None,
        Some(rest) => match split_once(rest, " +"@) {
            None => None,
            Some((old_part, after_old)) => match split_once(after_old, " @@"@) {
                None => None,
                Some((new_part, _)) => match (
                    parse_unsigned(before_char(old_part, ','), usize::MAX as nat),
                    parse_unsigned(before_char(new_part, ','), usize::MAX as nat),
                ) {
                    (Some(o), Some(n)) => Some((o, n)),
                    _ => None,
                },
            },
        },
    }
}

/// Parses a unified hunk header into its 1-based (old start, new start).
pub fn parse_unified_hunk_starts(line: &str) -> (r: Option<(usize, usize)>)
    ensures
        match unified_hunk_starts(line@) {
            Some((o, n)) => r == Some((o as usize, n as usize)),
            None => r is None,
        },
{
    let v = chars_of(line);
    let rest = strip_prefix_of(&v, "@@ -")?;
    let (old_part, after_old) = split_once_of(&rest, &chars_of(" +"))?;
    let (new_part, _tail) = split_once_of(&after_old, &chars_of(" @@"))?;
    let o = parse_unsigned_of(&before_char_of(&old_part, ','), usize::MAX as u64)?;
    let n = parse_unsigned_of(&before_char_of(&new_part, ','), usize::MAX as u64)?;
    Some((o as usize, n as usize))
}

// ── Patch targets ───────────────────────────────────────────────────────────

/// The file a patch line names, if it is a `+++ ` header (after trimming
/// and dropping `b/` prefixes; not `/dev/null`) or a Codex
/// `*** Update File: ` / `*** Add File: ` header.
pub open spec fn patch_line_target(line: Seq<char>) -> Option<Seq<char>> {
    let plus = match strip_prefix(line, "+++ "@) {
        Some(p) => {
            let t = strip_all_prefix(trim(p), "b/"@);
            if t.len() > 0 && t != "/dev/null"@ {
                Some(t)
            } else {
                None
            }
        },
        None => None,
    };
    if plus is Some {
        plus
    } else {
        match strip_prefix(line, "*** Update File: "@) {
            Some(p) if trim(p).len() > 0 => Some(trim(p)),
            _ => match strip_prefix(line, "*** Add File: "@) {
                Some(p) if trim(p).len() > 0 => Some(trim(p)),
                _ => None,
            },
        }
    }
}

/// The first file that a line of the patch names.
pub open spec fn patch_target(lines: Seq<Seq<char>>) -> Option<Seq<char>>
    decreases lines.len(),
{
    if lines.len() == 0 {
        None
    } else {
        match patch_line_target(lines[0]) {
            Some(t) => Some(t),
            None => patch_target(lines.drop_first()),
        }
    }
}

fn patch_line_target_of(line: &Vec<char>) -> (r: Option<Vec<char>>)
    ensures
        match patch_line_target(line@) {
            Some(t) => r matches Some(v) && v@ == t,
            None => r is None,
        },
{
    if let Some(p) = strip_prefix_of(line, "+++ ") {
        let t = strip_all_prefix_of(&trim_chars(&p), "b/");
        if t.len() > 0 && !eq_str(&t, "/dev/null") {
            return Some(t);
        }
    }
    if let Some(p) = strip_prefix_of(line, "*** Update File: ") {
        let t = trim_chars(&p);
        if t.len() > 0 {
            return Some(t);
        }
    }
    if let Some(p) = strip_prefix_of(line, "*** Add File: ") {
        let t = trim_chars(&p);
        if t.len() > 0 {
            return Some(t);
        }
    }
    None
}

/// The file that a patch (unified or Codex format) changes first.
pub fn extract_patch_target(patch_text: &str) -> (r: Option<String>)
    ensures
        match patch_target(text_lines(patch_text@)) {
            Some(t) => r matches Some(s) && s@ == t,
            None => r is None,
        },
{
    let lines = lines_of(&chars_of(patch_text));
    let ghost ls = text_lines(patch_text@);
    let mut i: usize = 0;
    proof {
        assert(ls.skip(0) =~= ls);
    }
    while i < lines.len()
        invariant
            i <= lines.len(),
            lines@.map_values(|l: Vec<char>| l@) == ls,
            ls == text_lines(patch_text@),
            patch_target(ls) == patch_target(ls.skip(i as int)),
        decreases lines.len() - i,
    {
        proof {
            assert(ls[i as int] == lines@[i as int]@);
            assert(ls.skip(i as int)[0] == ls[i as int]);
            assert(ls.skip(i as int).drop_first() =~= ls.skip(i as int + 1));
        }
        let found = patch_line_target_of(&lines[i]);
        match found {
            Some(target) => {
                proof {
                    assert(ls.skip(i as int).len() > 0);
                    assert(patch_line_target(ls.skip(i as int)[0]) == Some(target@));
                    assert(patch_target(ls.skip(i as int)) == Some(target@));
                }
                let out = string_of(target.as_slice());
                assert(out@ == target@);
                return Some(out);
            },
            None => {
                proof {
                    assert(ls.skip(i as int).len() > 0);
                    assert(patch_line_target(ls.skip(i as int)[0]) is None);
                }
            },
        }
        i = i + 1;
    }
    proof {
        assert(ls.skip(i as int).len() == 0);
    }
    None
}

/// The path of a unified diff `+++ ` header line (trimmed, `b/` prefixes
/// dropped; not `/dev/null`).
pub open spec fn header_path(line: Seq<char>) -> Option<Seq<char>> {
    match strip_prefix(line, "+++ "@) {
        Some(p) => {
            let t = trim(p);
            if t != "/dev/null"@ && t.len() > 0 {
                Some(strip_all_prefix(t, "b/"@))
            } else {
                None
            }
        },
        None => None,
    }
}

pub fn patch_file_path_from_header(line: &str) -> (r: Option<String>)
    ensures
        match header_path(line@) {
            Some(t) => r matches Some(s) && s@ == t,
            None => r is None,
        },
{
    let v = chars_of(line);
    if let Some(p) = strip_prefix_of(&v, "+++ ") {
        let t = trim_chars(&p);
        if !eq_str(&t, "/dev/null") && t.len() > 0 {
            let s = strip_all_prefix_of(&t, "b/");
            return Some(string_of(s.as_slice()));
        }
    }
    None
}

/// The extension of the file `path` names, as `std::path::Path::extension`
/// finds it.
pub uninterp spec fn path_extension(path: Seq<char>) -> Option<Seq<char>>;

/// Calls `std::path::Path::extension` on `path` (and `OsStr::to_str`). The
/// result is the named value.
#[verifier::external_body]
fn path_extension_of(path: &str) -> (r: Option<String>)
    ensures
        match r {
            Some(s) => path_extension(path@) == Some(s@),
            None => path_extension(path@) is None,
        },
{
    let ext = std::path::Path::new(path).extension()?;
    Some(ext.to_str()?.to_string())
}

/// The extension of `path`, or the empty string.
pub fn file_ext(path: &str) -> (r: String)
    ensures
        r@ == match path_extension(path@) {
            Some(e) => e,
            None => Seq::<char>::empty(),
        },
{
    match path_extension_of(path) {
        Some(e) => e,
        None => String::new(),
    }
}

// ── Exit codes ──────────────────────────────────────────────────────────────

/// The exit code that tool output reports on its first line,
/// `exit_code=N`.
pub open spec fn exit_code(output: Seq<char>) -> Option<int> {
    let ls = text_lines(output);
    if ls.len() == 0 {
        None
    } else {
        match strip_prefix(ls[0], "exit_code="@) {
            Some(code) => parse_signed(trim(code), i32::MAX as nat),
            None => None,
        }
    }
}

pub fn parse_exit_code(output: &str) -> (r: Option<i32>)
    ensures
        match exit_code(output@) {
            Some(c) => r == Some(c as i32),
            None => r is None,
        },
{
    let ls = lines_of(&chars_of(output));
    if ls.len() == 0 {
        return None;
    }
    proof {
        assert(ls@.map_values(|l: Vec<char>| l@)[0] == ls@[0]@);
    }
    let code = strip_prefix_of(&ls[0], "exit_code=")?;
    let t = trim_chars(&code);
    match parse_signed_of(&t, i32::MAX as u64) {
        Some((neg, n)) => {
            if neg {
                if n == 2147483648 {
                    Some(i32::MIN)
                } else {
                    Some(-(n as i32))
                }
            } else {
                Some(n as i32)
            }
        },
        None => None,
    }
}

// ── git diff --shortstat ────────────────────────────────────────────────────

/// Cached result of `git diff --shortstat HEAD`.
#[derive(Debug, Clone, Copy, PartialEq, Eq)]
pub struct GitStat {
    pub files: u32,
    pub insertions: u32,
    pub deletions: u32,
}

/// What follows the last character of `s` that is not an ASCII digit
/// (std's `rsplit_once` on that predicate); `None` when all are digits.
pub open spec fn after_last_non_digit(s: Seq<char>) -> Option<Seq<char>>
    decreases s.len(),
{
    if s.len() == 0 {
        None
    } else if !is_digit(s.last()) {
        Some(Seq::empty())
    } else {
        match after_last_non_digit(s.drop_last()) {
            Some(t) => Some(t.push(s.last())),
            None => None,
        }
    }
}

/// The count printed before `word` in a shortstat line, or 0.
pub open spec fn count_before(text: Seq<char>, word: Seq<char>) -> nat {
    match crate::text::first_occurrence(text, word) {
        Some(pos) => match after_last_non_digit(trim(text.take(pos))) {
            Some(n) => match parse_unsigned(n, u32::MAX as nat) {
                Some(v) => v,
                None => 0,
            },
            None => 0,
        },
        None => 0,
    }
}

/// A `git diff --shortstat` line read as (files, insertions, deletions);
/// the file count is required, the others default to 0.
pub open spec fn shortstat(text: Seq<char>) -> Option<(nat, nat, nat)> {
    if text.len() == 0 {
        None
    } else {
        match split_once(text, " file"@) {
            Some((n, _)) => match parse_unsigned(trim(n), u32::MAX as nat) {
                Some(files) => Some(
                    (files, count_before(text, "insertion"@), count_before(text, "deletion"@)),
                ),
                None => None,
            },
            None => None,
        }
    }
}

proof fn lemma_after_digits(s: Seq<char>, i: int)
    requires
        0 <= i <= s.len(),
        forall|j: int| i <= j < s.len() ==> is_digit(#[trigger] s[j]),
    ensures
        after_last_non_digit(s) == match after_last_non_digit(s.take(i)) {
            Some(t) => Some(t + s.skip(i)),
            None => None::<Seq<char>>,
        },
    decreases s.len() - i,
{
    if i < s.len() {
        lemma_after_digits(s, i + 1);
        let p = s.take(i + 1);
        assert(p.drop_last() =~= s.take(i));
        assert(p.last() == s[i]);
        match after_last_non_digit(s.take(i)) {
            Some(t) => {
                assert(t.push(s[i]) + s.skip(i + 1) =~= t + s.skip(i));
            },
            None => {},
        }
    } else {
        assert(s.take(i) =~= s);
        match after_last_non_digit(s) {
            Some(t) => {
                assert(t + s.skip(i) =~= t);
            },
            None => {},
        }
    }
}

fn after_last_non_digit_of(s: &Vec<char>) -> (r: Option<Vec<char>>)
    ensures
        match after_last_non_digit(s@) {
            Some(t) => r matches Some(v) && v@ == t,
            None => r is None,
        },
{
    let mut i = s.len();
    while i > 0 && '0' <= s[i - 1] && s[i - 1] <= '9'
        invariant
            i <= s.len(),
            forall|j: int| i <= j < s.len() ==> is_digit(#[trigger] s@[j]),
        decreases i,
    {
        i = i - 1;
    }
    proof {
        lemma_after_digits(s@, i as int);
    }
    if i == 0 {
        proof {
            assert(s@.take(0) =~= Seq::<char>::empty());
        }
        return None;
    }
    proof {
        assert(s@.take(i as int).last() == s@[i - 1]);
        assert(Seq::<char>::empty() + s@.skip(i as int) =~= s@.skip(i as int));
    }
    Some(sub_chars(s, i, s.len()))
}

fn count_before_of(text: &Vec<char>, word: &str) -> (r: u32)
    ensures
        r == count_before(text@, word@),
{
    let wv = chars_of(word);
    match crate::text::find_seq(text, &wv) {
        Some(pos) => {
            let head = trim_chars(&sub_chars(text, 0, pos));
            match after_last_non_digit_of(&head) {
                Some(n) => match parse_unsigned_of(&n, u32::MAX as u64) {
                    Some(v) => v as u32,
                    None => 0,
                },
                None => 0,
            }
        },
        None => 0,
    }
}

/// Parses a `git diff --shortstat` line such as
/// `15 files changed, 406 insertions(+), 269 deletions(-)`.
pub fn parse_git_shortstat(text: &str) -> (r: Option<GitStat>)
    ensures
        match shortstat(text@) {
            Some((f, i, d)) => r == Some(
                GitStat { files: f as u32, insertions: i as u32, deletions: d as u32 },
            ),
            None => r is None,
        },
{
    let v = chars_of(text);
    if v.len() == 0 {
        return None;
    }
    let (n, _rest) = split_once_of(&v, &chars_of(" file"))?;
    let files = parse_unsigned_of(&trim_chars(&n), u32::MAX as u64)?;
    let insertions = count_before_of(&v, "insertion");
    let deletions = count_before_of(&v, "deletion");
    Some(GitStat { files: files as u32, insertions, deletions })
}

// ── Codex hunks ─────────────────────────────────────────────────────────────

/// A line that ends the current hunk: a `*** ` header, an `@@` marker, or
/// a `+++ ` / `--- ` file header (after leading whitespace).
pub open spec fn hunk_end(raw: Seq<char>) -> bool {
    let t = crate::text::trim_start(raw);
    has_prefix(t, "*** "@) || has_prefix(t, "@@ "@) || t == "@@"@ || has_prefix(t, "+++ "@)
        || has_prefix(t, "--- "@)
}

/// The "before" text of a Codex hunk starting at line `start`: its `-` and
/// context lines, each without its first character.
pub open spec fn hunk_before_lines(lines: Seq<Seq<char>>) -> Seq<Seq<char>>
    decreases lines.len(),
{
    if lines.len() == 0 || hunk_end(lines[0]) {
        Seq::empty()
    } else {
        let raw = lines[0];
        let rest = hunk_before_lines(lines.drop_first());
        if raw.len() > 0 && (raw[0] == '-' || raw[0] == ' ') {
            seq![raw.drop_first()] + rest
        } else {
            rest
        }
    }
}

/// A character that the search for a distinctive line ignores: ASCII
/// punctuation of code, or whitespace.
pub open spec fn filler_char(c: char) -> bool {
    "{}();,[]<>/*+-=|&^%#@!~`'\""@.contains(c) || crate::text::is_ws(c)
}

/// A line worth searching for: at least 4 bytes once trimmed, and not only
/// filler characters.
pub open spec fn distinctive(l: Seq<char>) -> bool {
    let t = trim(l);
    byte_len(t) >= 4 && exists|i: int| 0 <= i < t.len() && !filler_char(#[trigger] t[i])
}

/// Index of the first distinctive line.
pub open spec fn first_distinctive(ls: Seq<Seq<char>>) -> Option<nat>
    decreases ls.len(),
{
    if ls.len() == 0 {
        None
    } else if distinctive(ls[0]) {
        Some(0)
    } else {
        match first_distinctive(ls.drop_first()) {
            Some(i) => Some(i + 1),
            None => None,
        }
    }
}

/// Index of the first line of `file` that equals `needle` once both are
/// trimmed.
pub open spec fn first_trimmed_match(file: Seq<Seq<char>>, needle: Seq<char>) -> Option<nat>
    decreases file.len(),
{
    if file.len() == 0 {
        None
    } else if trim(file[0]) == needle {
        Some(0)
    } else {
        match first_trimmed_match(file.drop_first(), needle) {
            Some(i) => Some(i + 1),
            None => None,
        }
    }
}

/// The 0-based line offset of a Codex hunk (bare `@@`) that starts at line
/// `start` of the patch, found by locating its first distinctive "before"
/// line in the file's text; `None` when there is none or it is not found.
pub open spec fn codex_hunk_offset(lines: Seq<Seq<char>>, start: int, file: Seq<char>) -> Option<nat> {
    let before = hunk_before_lines(lines.skip(start));
    match first_distinctive(before) {
        None => None,
        Some(ni) => match first_trimmed_match(text_lines(file), trim(before[ni as int])) {
            Some(fi) => Some(if fi >= ni {
                (fi - ni) as nat
            } else {
                0
            }),
            None => None,
        },
    }
}

fn is_filler(c: char) -> (r: bool)
    ensures
        r == filler_char(c),
{
    let set = chars_of("{}();,[]<>/*+-=|&^%#@!~`'\"");
    let mut i: usize = 0;
    while i < set.len()
        invariant
            i <= set.len(),
            set@ == "{}();,[]<>/*+-=|&^%#@!~`'\""@,
            forall|j: int| 0 <= j < i ==> set@[j] != c,
        decreases set.len() - i,
    {
        if set[i] == c {
            return true;
        }
        i = i + 1;
    }
    crate::text::is_ws_exec(c)
}

fn distinctive_of(l: &Vec<char>) -> (r: bool)
    ensures
        r == distinctive(l@),
{
    let t = trim_chars(l);
    if crate::failure::byte_len_below(&t, 4) {
        return false;
    }
    let mut i: usize = 0;
    while i < t.len()
        invariant
            i <= t.len(),
            t@ == trim(l@),
            byte_len(t@) >= 4,
            forall|j: int| 0 <= j < i ==> filler_char(#[trigger] t@[j]),
        decreases t.len() - i,
    {
        if !is_filler(t[i]) {
            assert(!filler_char(t@[i as int]));
            assert(0 <= i < t@.len());
            return true;
        }
        i = i + 1;
    }
    false
}

/// Finds the line offset of a Codex hunk in the file's current text
/// (`file_contents` is what reading the file gave).
pub fn find_codex_hunk_offset(patch_lines: &Vec<String>, start_idx: usize, file_contents: &str) -> (r: Option<usize>)
    requires
        start_idx <= patch_lines.len(),
    ensures
        match codex_hunk_offset(patch_lines@.map_values(|l: String| l@), start_idx as int, file_contents@) {
            Some(n) => n < usize::MAX && r == Some(n as usize),
            None => r is None,
        },
{
    let ghost ls = patch_lines@.map_values(|l: String| l@);
    // The hunk's "before" lines.
    let mut before: Vec<Vec<char>> = Vec::new();
    let mut i = start_idx;
    proof {
        assert(ls.skip(start_idx as int) =~= ls.skip(i as int));
    }
    while i < patch_lines.len()
        invariant
            start_idx <= i <= patch_lines.len(),
            ls == patch_lines@.map_values(|l: String| l@),
            hunk_before_lines(ls.skip(start_idx as int)) == before@.map_values(|l: Vec<char>| l@)
                + hunk_before_lines(ls.skip(i as int)),
        ensures
            i < patch_lines.len() ==> hunk_before_lines(ls.skip(i as int)) == Seq::<Seq<char>>::empty(),
            hunk_before_lines(ls.skip(start_idx as int)) == before@.map_values(|l: Vec<char>| l@)
                + hunk_before_lines(ls.skip(i as int)),
            ls == patch_lines@.map_values(|l: String| l@),
            i <= patch_lines.len(),
        decreases patch_lines.len() - i,
    {
        let raw = chars_of(patch_lines[i].as_str());
        proof {
            assert(ls.skip(i as int)[0] == raw@);
            assert(ls.skip(i as int).drop_first() =~= ls.skip(i as int + 1));
        }
        let t = crate::text::trim_start_chars(&raw);
        let end = has_prefix_exec(&t, &chars_of("*** ")) || has_prefix_exec(&t, &chars_of("@@ "))
            || eq_str(&t, "@@") || has_prefix_exec(&t, &chars_of("+++ ")) || has_prefix_exec(
            &t,
            &chars_of("--- "),
        );
        if end {
            proof {
                assert(hunk_end(raw@));
                assert(hunk_before_lines(ls.skip(i as int)) =~= Seq::<Seq<char>>::empty());
            }
            break;
        }
        if raw.len() > 0 && (raw[0] == '-' || raw[0] == ' ') {
            let line = sub_chars(&raw, 1, raw.len());
            proof {
                assert(line@ =~= raw@.drop_first());
            }
            let ghost prev = before@.map_values(|l: Vec<char>| l@);
            before.push(line);
            proof {
                assert(before@.map_values(|l: Vec<char>| l@) =~= prev.push(raw@.drop_first()));
                assert(prev + hunk_before_lines(ls.skip(i as int)) =~= before@.map_values(
                    |l: Vec<char>| l@,
                ) + hunk_before_lines(ls.skip(i as int + 1)));
            }
        }
        i = i + 1;
    }
    proof {
        if i < patch_lines.len() {
            assert(hunk_before_lines(ls.skip(i as int)) =~= Seq::<Seq<char>>::empty());
        } else {
            assert(ls.skip(i as int).len() == 0);
        }
        assert(before@.map_values(|l: Vec<char>| l@) + Seq::<Seq<char>>::empty() =~= before@.map_values(
            |l: Vec<char>| l@,
        ));
    }
    let ghost bs = before@.map_values(|l: Vec<char>| l@);
    // The first distinctive "before" line.
    let mut ni: usize = 0;
    proof {
        assert(bs.skip(0) =~= bs);
    }
    while ni < before.len() && !distinctive_of(&before[ni])
        invariant
            ni <= before.len(),
            bs == before@.map_values(|l: Vec<char>| l@),
            first_distinctive(bs) == match first_distinctive(bs.skip(ni as int)) {
                Some(j) => Some((j + ni) as nat),
                None => None::<nat>,
            },
        decreases before.len() - ni,
    {
        proof {
            assert(bs.skip(ni as int)[0] == before@[ni as int]@);
            assert(bs.skip(ni as int).drop_first() =~= bs.skip(ni as int + 1));
        }
        ni = ni + 1;
    }
    if ni >= before.len() {
        proof {
            assert(bs.skip(ni as int).len() == 0);
        }
        return None;
    }
    proof {
        assert(bs.skip(ni as int)[0] == before@[ni as int]@);
        assert(distinctive(bs[ni as int]));
        assert(first_distinctive(bs.skip(ni as int)) == Some(0nat));
        assert(first_distinctive(bs) == Some(ni as nat));
    }
    let needle = trim_chars(&before[ni]);
    let file_lines = lines_of(&chars_of(file_contents));
    let ghost fl = text_lines(file_contents@);
    let mut fi: usize = 0;
    proof {
        assert(fl.skip(0) =~= fl);
    }
    while fi < file_lines.len()
        invariant
            fi <= file_lines.len(),
            fl == file_lines@.map_values(|l: Vec<char>| l@),
            ni < before@.len(),
            bs == before@.map_values(|l: Vec<char>| l@),
            first_distinctive(bs) == Some(ni as nat),
            bs == hunk_before_lines(ls.skip(start_idx as int)),
            needle@ == trim(bs[ni as int]),
            ls == patch_lines@.map_values(|l: String| l@),
            fl == text_lines(file_contents@),
            first_trimmed_match(fl, needle@) == match first_trimmed_match(fl.skip(fi as int), needle@) {
                Some(j) => Some((j + fi) as nat),
                None => None::<nat>,
            },
        decreases file_lines.len() - fi,
    {
        proof {
            assert(fl.skip(fi as int)[0] == file_lines@[fi as int]@);
            assert(fl.skip(fi as int).drop_first() =~= fl.skip(fi as int + 1));
        }
        let t = trim_chars(&file_lines[fi]);
        if crate::text::eq_chars(&t, &needle) {
            let off = if fi >= ni {
                fi - ni
            } else {
                0
            };
            proof {
                assert(fl.skip(fi as int).len() > 0);
                assert(first_trimmed_match(fl.skip(fi as int), needle@) == Some(0nat));
                assert(first_trimmed_match(fl, needle@) == Some(fi as nat));
                assert(first_distinctive(bs) == Some(ni as nat));
                assert(bs == hunk_before_lines(ls.skip(start_idx as int)));
                assert(needle@ == trim(bs[ni as int]));
            }
            return Some(off);
        }
        fi = fi + 1;
    }
    proof {
        assert(fl.skip(fi as int).len() == 0);
    }
    None
}

} // verus!
