//! The diff that an edit tool reports after its summary: splitting the
//! output, the header (file and `+N -M` stat), and the numbered rows.
use vstd::prelude::*;
use crate::diff::{hunk_header, is_stat_line, parse_hunk_header, stat_line};
use crate::parse::{lines_of, split_once, split_once_of, text_lines, words, words_of};
use crate::text::{chars_of, contains_exec, decimal, decimal_of, has_prefix, has_prefix_exec, push_all, string_of, sub_chars, trim, trim_chars};

verus! {

broadcast use vstd::seq_lib::group_seq_properties;

/// The marker between an edit's summary and its diff.
pub open spec fn diff_marker() -> Seq<char> {
    seq!['\n', '@', '@', 'd', 'i', 'f', 'f', '\n']
}

fn diff_marker_of() -> (r: Vec<char>)
    ensures
        r@ == diff_marker(),
{
    let mut m: Vec<char> = Vec::new();
    m.push('\n');
    m.push('@');
    m.push('@');
    m.push('d');
    m.push('i');
    m.push('f');
    m.push('f');
    m.push('\n');
    proof {
        assert(m@ =~= diff_marker());
    }
    m
}

/// The summary (trimmed) and the diff body of an edit's output, when it
/// holds a diff.
pub open spec fn diff_parts(output: Seq<char>) -> Option<(Seq<char>, Seq<char>)> {
    match split_once(output, diff_marker()) {
        Some((summary, body)) => Some((trim(summary), body)),
        None => None,
    }
}

pub fn split_diff_output(output: &str) -> (r: Option<(String, String)>)
    ensures
        match diff_parts(output@) {
            Some((s, b)) => r matches Some(x) && x.0@ == s && x.1@ == b,
            None => r is None,
        },
{
    match split_once_of(&chars_of(output), &diff_marker_of()) {
        Some((summary, body)) => Some((string_of(trim_chars(&summary).as_slice()), string_of(body.as_slice()))),
        None => None,
    }
}

/// The description and stat lines of a summary: among its non-blank lines
/// (trimmed), the last stat line (`+N -M`) and the last other line.
pub open spec fn header_lines(ls: Seq<Seq<char>>) -> (Seq<char>, Seq<char>)
    decreases ls.len(),
{
    if ls.len() == 0 {
        (Seq::empty(), Seq::empty())
    } else {
        let (desc, stat) = header_lines(ls.drop_last());
        let t = trim(ls.last());
        if t.len() == 0 {
            (desc, stat)
        } else if stat_line(t) {
            (desc, t)
        } else {
            (t, stat)
        }
    }
}

pub fn diff_header_lines(summary: &str) -> (r: (String, String))
    ensures
        (r.0@, r.1@) == header_lines(text_lines(summary@)),
{
    let ls = lines_of(&chars_of(summary));
    let ghost lv = ls@.map_values(|l: Vec<char>| l@);
    let mut desc: Vec<char> = Vec::new();
    let mut stat: Vec<char> = Vec::new();
    let mut i: usize = 0;
    while i < ls.len()
        invariant
            i <= ls.len(),
            lv == ls@.map_values(|l: Vec<char>| l@),
            (desc@, stat@) == header_lines(lv.take(i as int)),
        decreases ls.len() - i,
    {
        proof {
            assert(lv.take(i + 1).drop_last() =~= lv.take(i as int));
            assert(lv.take(i + 1).last() == ls@[i as int]@);
        }
        let t = trim_chars(&ls[i]);
        if t.len() > 0 {
            let ts = string_of(t.as_slice());
            if is_stat_line(ts.as_str()) {
                stat = t;
            } else {
                desc = t;
            }
        }
        i = i + 1;
    }
    proof {
        assert(lv.take(ls.len() as int) =~= lv);
    }
    (string_of(desc.as_slice()), string_of(stat.as_slice()))
}

/// The text after the last `.` of `w` (all of `w` without a dot).
pub open spec fn after_last_dot(w: Seq<char>) -> Seq<char>
    decreases w.len(),
{
    if w.len() == 0 {
        w
    } else if w.last() == '.' {
        Seq::empty()
    } else {
        after_last_dot(w.drop_last()).push(w.last())
    }
}

/// The extension used to highlight a diff: of the last word of the
/// description that holds a `/`, the part after its last dot; empty when
/// there is no such word.
pub open spec fn highlight_ext(desc: Seq<char>) -> Seq<char> {
    match crate::tool_text::last_path_word(words(desc)) {
        Some(w) => after_last_dot(w),
        None => Seq::empty(),
    }
}

fn after_last_dot_of(w: &Vec<char>) -> (r: Vec<char>)
    ensures
        r@ == after_last_dot(w@),
{
    let mut k = w.len();
    while k > 0 && w[k - 1] != '.'
        invariant
            k <= w.len(),
            after_last_dot(w@) == after_last_dot(w@.take(k as int)) + w@.skip(k as int),
        decreases k,
    {
        proof {
            assert(w@.take(k as int).drop_last() =~= w@.take(k - 1));
            assert(w@.take(k as int).last() == w@[k - 1]);
            assert(after_last_dot(w@.take(k - 1)).push(w@[k - 1]) + w@.skip(k as int) =~= after_last_dot(
                w@.take(k - 1),
            ) + w@.skip(k - 1));
        }
        k = k - 1;
    }
    proof {
        if k > 0 {
            assert(w@.take(k as int).last() == '.');
            assert(after_last_dot(w@.take(k as int)) =~= Seq::<char>::empty());
        } else {
            assert(w@.take(0) =~= Seq::<char>::empty());
        }
        assert(Seq::<char>::empty() + w@.skip(k as int) =~= w@.skip(k as int));
    }
    sub_chars(w, k, w.len())
}

pub fn diff_highlight_ext(desc: &str) -> (r: String)
    ensures
        r@ == highlight_ext(desc@),
{
    let ws = words_of(&chars_of(desc));
    let ghost wv = ws@.map_values(|w: Vec<char>| w@);
    let slash = chars_of("/");
    proof {
        reveal_strlit("/");
        assert(wv.take(ws.len() as int) =~= wv);
    }
    let mut k = ws.len();
    while k > 0
        invariant
            k <= ws.len(),
            wv == ws@.map_values(|w: Vec<char>| w@),
            wv == words(desc@),
            slash@ == seq!['/'],
            crate::tool_text::last_path_word(wv) == crate::tool_text::last_path_word(wv.take(k as int)),
        decreases k,
    {
        proof {
            assert(wv.take(k as int).drop_last() =~= wv.take(k - 1));
            assert(wv.take(k as int).last() == ws@[k - 1]@);
        }
        if contains_exec(&ws[k - 1], &slash) {
            return string_of(after_last_dot_of(&ws[k - 1]).as_slice());
        }
        k = k - 1;
    }
    proof {
        assert(wv.take(0) =~= Seq::<Seq<char>>::empty());
    }
    String::new()
}

// ── Rows ────────────────────────────────────────────────────────────────────

/// A row of the rendered diff.
#[derive(Debug)]
pub enum DiffRow {
    /// Between hunks.
    Separator,
    /// An added line, with its number in the new file.
    Added { number: usize, text: String },
    /// A removed line, with its number in the old file.
    Removed { number: usize, text: String },
    /// A context line (as it stands in the diff), with its new number.
    Context { number: usize, text: String },
}

pub enum RowSpec {
    Separator,
    Added(nat, Seq<char>),
    Removed(nat, Seq<char>),
    Context(nat, Seq<char>),
}

impl View for DiffRow {
    type V = RowSpec;

    open spec fn view(&self) -> RowSpec {
        match self {
            DiffRow::Separator => RowSpec::Separator,
            DiffRow::Added { number, text } => RowSpec::Added(*number as nat, text@),
            DiffRow::Removed { number, text } => RowSpec::Removed(*number as nat, text@),
            DiffRow::Context { number, text } => RowSpec::Context(*number as nat, text@),
        }
    }
}

pub open spec fn rows_view(v: Seq<DiffRow>) -> Seq<RowSpec> {
    v.map_values(|r: DiffRow| r@)
}

/// One diff line read with the new and old line counters at `add` and
/// `del`: its row (if any) and the counters after it. A hunk header (`@@`)
/// resets the counters and separates; `+++` / `---` file headers are
/// skipped; an added line advances the new count, a removed line the old,
/// a context line both.
pub open spec fn row_step(l: Seq<char>, add: nat, del: nat) -> (Option<RowSpec>, nat, nat) {
    if has_prefix(l, "@@"@) {
        match hunk_header(l) {
            Some((n, o)) => (Some(RowSpec::Separator), n, o),
            None => (Some(RowSpec::Separator), add, del),
        }
    } else if has_prefix(l, "+++"@) || has_prefix(l, "---"@) {
        (None, add, del)
    } else if l.len() > 0 && l[0] == '+' {
        (Some(RowSpec::Added(add + 1, l.drop_first())), add + 1, del)
    } else if l.len() > 0 && l[0] == '-' {
        (Some(RowSpec::Removed(del + 1, l.drop_first())), add, del + 1)
    } else {
        (Some(RowSpec::Context(add + 1, l)), add + 1, del + 1)
    }
}

pub open spec fn opt_row(r: Option<RowSpec>) -> Seq<RowSpec> {
    match r {
        Some(x) => seq![x],
        None => Seq::empty(),
    }
}

/// The rows of diff lines `ls` from `i` on.
pub open spec fn rows_from(ls: Seq<Seq<char>>, i: int, add: nat, del: nat) -> Seq<RowSpec>
    decreases ls.len() - i,
{
    if i < 0 || i >= ls.len() {
        Seq::empty()
    } else {
        let st = row_step(ls[i], add, del);
        opt_row(st.0) + rows_from(ls, i + 1, st.1, st.2)
    }
}

/// No line counter of `rows_from` passes `usize::MAX`.
pub open spec fn rows_fit(ls: Seq<Seq<char>>, i: int, add: nat, del: nat) -> bool
    decreases ls.len() - i,
{
    if i < 0 || i >= ls.len() {
        true
    } else {
        let st = row_step(ls[i], add, del);
        st.1 <= usize::MAX && st.2 <= usize::MAX && rows_fit(ls, i + 1, st.1, st.2)
    }
}

pub open spec fn opt_row_view(r: Option<DiffRow>) -> Option<RowSpec> {
    match r {
        Some(x) => Some(x@),
        None => None,
    }
}

fn row_step_of(l: &Vec<char>, add: usize, del: usize) -> (r: (Option<DiffRow>, usize, usize))
    requires
        row_step(l@, add as nat, del as nat).1 <= usize::MAX,
        row_step(l@, add as nat, del as nat).2 <= usize::MAX,
    ensures
        (opt_row_view(r.0), r.1 as nat, r.2 as nat) == row_step(l@, add as nat, del as nat),
{
    if has_prefix_exec(l, &chars_of("@@")) {
        let ls_i = string_of(l.as_slice());
        match parse_hunk_header(ls_i.as_str()) {
            Some((a, d)) => (Some(DiffRow::Separator), a, d),
            None => (Some(DiffRow::Separator), add, del),
        }
    } else if has_prefix_exec(l, &chars_of("+++")) || has_prefix_exec(l, &chars_of("---")) {
        (None, add, del)
    } else if l.len() > 0 && l[0] == '+' {
        proof {
            assert(l@.subrange(1, l@.len() as int) =~= l@.drop_first());
        }
        (Some(DiffRow::Added { number: add + 1, text: string_of(sub_chars(l, 1, l.len()).as_slice()) }), add + 1, del)
    } else if l.len() > 0 && l[0] == '-' {
        proof {
            assert(l@.subrange(1, l@.len() as int) =~= l@.drop_first());
        }
        (Some(DiffRow::Removed { number: del + 1, text: string_of(sub_chars(l, 1, l.len()).as_slice()) }), add, del + 1)
    } else {
        (Some(DiffRow::Context { number: add + 1, text: string_of(l.as_slice()) }), add + 1, del + 1)
    }
}

proof fn lemma_hunk_fold_bounded(tokens: Seq<Seq<char>>)
    ensures
        crate::diff::hunk_fold(tokens).0 <= usize::MAX,
        crate::diff::hunk_fold(tokens).1 <= usize::MAX,
    decreases tokens.len(),
{
    if tokens.len() > 0 {
        lemma_hunk_fold_bounded(tokens.drop_last());
    }
}

proof fn lemma_hunk_header_bounded(h: Seq<char>)
    ensures
        hunk_header(h) matches Some((n, o)) ==> n <= usize::MAX && o <= usize::MAX,
{
    lemma_hunk_fold_bounded(words(crate::diff::strip_leading(h, '@')));
}

fn row_counters_of(l: &Vec<char>, add: usize, del: usize) -> (r: Option<(usize, usize)>)
    ensures
        ({
            let st = row_step(l@, add as nat, del as nat);
            match r {
                Some((a, d)) => a as nat == st.1 && d as nat == st.2,
                None => !(st.1 <= usize::MAX && st.2 <= usize::MAX),
            }
        }),
{
    if has_prefix_exec(l, &chars_of("@@")) {
        let ls_i = string_of(l.as_slice());
        proof {
            lemma_hunk_header_bounded(l@);
        }
        match parse_hunk_header(ls_i.as_str()) {
            Some((a, d)) => Some((a, d)),
            None => Some((add, del)),
        }
    } else if has_prefix_exec(l, &chars_of("+++")) || has_prefix_exec(l, &chars_of("---")) {
        Some((add, del))
    } else if l.len() > 0 && l[0] == '+' {
        if add == usize::MAX {
            None
        } else {
            Some((add + 1, del))
        }
    } else if l.len() > 0 && l[0] == '-' {
        if del == usize::MAX {
            None
        } else {
            Some((add, del + 1))
        }
    } else if add == usize::MAX || del == usize::MAX {
        None
    } else {
        Some((add + 1, del + 1))
    }
}

/// Whether the line counters of `body`'s rows stay within `usize`.
pub fn diff_rows_fit(body: &str) -> (r: bool)
    ensures
        r == rows_fit(text_lines(body@), 0, 0, 0),
{
    let ls = lines_of(&chars_of(body));
    let ghost lv = ls@.map_values(|l: Vec<char>| l@);
    let mut add: usize = 0;
    let mut del: usize = 0;
    let mut i: usize = 0;
    while i < ls.len()
        invariant
            i <= ls.len(),
            lv == ls@.map_values(|l: Vec<char>| l@),
            lv == text_lines(body@),
            rows_fit(lv, 0, 0, 0) == rows_fit(lv, i as int, add as nat, del as nat),
        decreases ls.len() - i,
    {
        proof {
            assert(lv[i as int] == ls@[i as int]@);
        }
        match row_counters_of(&ls[i], add, del) {
            Some((a, d)) => {
                add = a;
                del = d;
            },
            None => {
                return false;
            },
        }
        i = i + 1;
    }
    true
}

/// The rows of the diff body `body`.
pub fn diff_rows(body: &str) -> (r: Vec<DiffRow>)
    requires
        rows_fit(text_lines(body@), 0, 0, 0),
    ensures
        rows_view(r@) == rows_from(text_lines(body@), 0, 0, 0),
{
    let ls = lines_of(&chars_of(body));
    let ghost lv = ls@.map_values(|l: Vec<char>| l@);
    let mut out: Vec<DiffRow> = Vec::new();
    let mut add: usize = 0;
    let mut del: usize = 0;
    let mut i: usize = 0;
    proof {
        assert(rows_view(out@) + rows_from(lv, 0, 0, 0) =~= rows_from(lv, 0, 0, 0));
    }
    while i < ls.len()
        invariant
            i <= ls.len(),
            lv == ls@.map_values(|l: Vec<char>| l@),
            lv == text_lines(body@),
            rows_fit(lv, i as int, add as nat, del as nat),
            rows_view(out@) + rows_from(lv, i as int, add as nat, del as nat) == rows_from(lv, 0, 0, 0),
        decreases ls.len() - i,
    {
        proof {
            assert(lv[i as int] == ls@[i as int]@);
        }
        let ghost before = rows_view(out@);
        let ghost st = row_step(lv[i as int], add as nat, del as nat);
        let (row, a, d) = row_step_of(&ls[i], add, del);
        match row {
            Some(x) => {
                out.push(x);
                proof {
                    assert(rows_view(out@) =~= before + opt_row(st.0));
                }
            },
            None => {
                proof {
                    assert(rows_view(out@) =~= before + opt_row(st.0));
                }
            },
        }
        proof {
            assert(before + opt_row(st.0) + rows_from(lv, i + 1, st.1, st.2) =~= before + (opt_row(st.0)
                + rows_from(lv, i + 1, st.1, st.2)));
        }
        add = a;
        del = d;
        i = i + 1;
    }
    proof {
        assert(rows_view(out@) + Seq::<RowSpec>::empty() =~= rows_view(out@));
    }
    out
}

/// The line number column: the number right-aligned in two columns, then
/// a space.
pub open spec fn gutter(n: nat) -> Seq<char> {
    (if decimal(n).len() < 2 {
        seq![' ']
    } else {
        Seq::empty()
    }) + decimal(n) + seq![' ']
}

pub fn diff_gutter(n: usize) -> (r: String)
    ensures
        r@ == gutter(n as nat),
{
    let d = decimal_of(n as u64);
    let mut v: Vec<char> = Vec::new();
    if d.len() < 2 {
        v.push(' ');
    }
    push_all(&mut v, &d);
    v.push(' ');
    proof {
        if d@.len() < 2 {
            assert(v@ =~= seq![' '] + decimal(n as nat) + seq![' ']);
        } else {
            assert(v@ =~= Seq::<char>::empty() + decimal(n as nat) + seq![' ']);
        }
    }
    string_of(v.as_slice())
}

// ── Edit previews ───────────────────────────────────────────────────────────

/// Number of leading lines that `a` and `b` share.
pub open spec fn common_prefix_lines(a: Seq<Seq<char>>, b: Seq<Seq<char>>) -> nat
    decreases a.len(),
{
    if a.len() == 0 || b.len() == 0 || a[0] != b[0] {
        0
    } else {
        1 + common_prefix_lines(a.drop_first(), b.drop_first())
    }
}

/// Number of trailing lines that `a` and `b` share, at most `max`.
pub open spec fn common_suffix_lines(a: Seq<Seq<char>>, b: Seq<Seq<char>>, max: nat) -> nat
    decreases a.len(),
{
    if max == 0 || a.len() == 0 || b.len() == 0 || a.last() != b.last() {
        0
    } else {
        1 + common_suffix_lines(a.drop_last(), b.drop_last(), (max - 1) as nat)
    }
}

proof fn lemma_prefix_bounded(a: Seq<Seq<char>>, b: Seq<Seq<char>>)
    ensures
        common_prefix_lines(a, b) <= a.len(),
        common_prefix_lines(a, b) <= b.len(),
    decreases a.len(),
{
    if !(a.len() == 0 || b.len() == 0 || a[0] != b[0]) {
        lemma_prefix_bounded(a.drop_first(), b.drop_first());
    }
}

proof fn lemma_suffix_bounded(a: Seq<Seq<char>>, b: Seq<Seq<char>>, max: nat)
    ensures
        common_suffix_lines(a, b, max) <= max,
    decreases a.len(),
{
    if !(max == 0 || a.len() == 0 || b.len() == 0 || a.last() != b.last()) {
        lemma_suffix_bounded(a.drop_last(), b.drop_last(), (max - 1) as nat);
    }
}

/// What the preview of an edit shows, counted in lines: the unchanged
/// lines hidden above, the context before the change (from which line,
/// how many), the removed and added lines (how many exist and how many
/// are shown), the context after and the unchanged lines hidden below.
/// At most 50 rows are spent before the trailing context.
#[derive(Debug, Clone, Copy, PartialEq, Eq, Structural)]
pub struct EditPlan {
    pub prefix: usize,
    pub suffix: usize,
    pub hidden_above: usize,
    pub context_before: usize,
    pub removed: usize,
    pub removed_shown: usize,
    pub added: usize,
    pub added_shown: usize,
    pub context_after: usize,
    pub hidden_below: usize,
}

pub open spec fn min_n(a: nat, b: nat) -> nat {
    if a <= b { a } else { b }
}

pub open spec fn room(used: nat) -> nat {
    if used >= 50 { 0 } else { (50 - used) as nat }
}

/// The plan for an edit whose old and new texts share `prefix` leading and
/// `suffix` trailing lines, with `old_len` and `new_len` lines in all.
pub open spec fn plan_of(prefix: nat, suffix: nat, old_len: nat, new_len: nat) -> EditPlan {
    let above: nat = if prefix >= 2 { (prefix - 2) as nat } else { 0 };
    let d0: nat = if above > 0 { 1 } else { 0 };
    let ctx_before = min_n((prefix - above) as nat, room(d0));
    let d1 = d0 + ctx_before;
    let removed = (old_len - suffix - prefix) as nat;
    let removed_shown = min_n(removed, room(d1));
    let d2 = d1 + removed_shown + if removed > removed_shown { 1nat } else { 0nat };
    let added = (new_len - suffix - prefix) as nat;
    let added_shown = min_n(added, room(d2));
    let d3 = d2 + added_shown + if added > added_shown { 1nat } else { 0nat };
    let after = min_n(min_n(suffix, 2), room(d3));
    EditPlan {
        prefix: prefix as usize,
        suffix: suffix as usize,
        hidden_above: above as usize,
        context_before: ctx_before as usize,
        removed: removed as usize,
        removed_shown: removed_shown as usize,
        added: added as usize,
        added_shown: added_shown as usize,
        context_after: after as usize,
        hidden_below: (suffix - after) as usize,
    }
}

/// The number of trailing lines that may be shared without overlapping
/// the shared leading lines.
pub open spec fn suffix_room(old: Seq<Seq<char>>, new: Seq<Seq<char>>) -> nat {
    (min_n(old.len(), new.len()) - common_prefix_lines(old, new)) as nat
}

/// The plan for an edit from `old` lines to `new` lines.
pub open spec fn edit_plan_spec(old: Seq<Seq<char>>, new: Seq<Seq<char>>) -> EditPlan {
    plan_of(
        common_prefix_lines(old, new),
        common_suffix_lines(old, new, suffix_room(old, new)),
        old.len(),
        new.len(),
    )
}

pub open spec fn strings_view(v: Seq<String>) -> Seq<Seq<char>> {
    v.map_values(|s: String| s@)
}

fn same_line(a: &String, b: &String) -> (r: bool)
    ensures
        r == (a@ == b@),
{
    crate::text::eq_chars(&chars_of(a.as_str()), &chars_of(b.as_str()))
}

fn min_us(a: usize, b: usize) -> (r: usize)
    ensures
        r == min_n(a as nat, b as nat),
{
    if a <= b {
        a
    } else {
        b
    }
}

fn shared_prefix(old: &Vec<String>, new: &Vec<String>) -> (p: usize)
    ensures
        p == common_prefix_lines(strings_view(old@), strings_view(new@)),
{
    let ghost ov = strings_view(old@);
    let ghost nv = strings_view(new@);
    let mut p: usize = 0;
    proof {
        assert(ov.skip(0) =~= ov);
        assert(nv.skip(0) =~= nv);
    }
    while p < old.len() && p < new.len() && same_line(&old[p], &new[p])
        invariant
            p <= old.len(),
            p <= new.len(),
            ov == strings_view(old@),
            nv == strings_view(new@),
            common_prefix_lines(ov, nv) == p + common_prefix_lines(ov.skip(p as int), nv.skip(p as int)),
        decreases old.len() - p,
    {
        proof {
            assert(ov.skip(p as int).drop_first() =~= ov.skip(p + 1));
            assert(nv.skip(p as int).drop_first() =~= nv.skip(p + 1));
            assert(ov.skip(p as int)[0] == old@[p as int]@);
            assert(nv.skip(p as int)[0] == new@[p as int]@);
        }
        p = p + 1;
    }
    proof {
        if p < old.len() && p < new.len() {
            assert(ov.skip(p as int)[0] == old@[p as int]@);
            assert(nv.skip(p as int)[0] == new@[p as int]@);
        }
        assert(common_prefix_lines(ov.skip(p as int), nv.skip(p as int)) == 0);
    }
    p
}

fn shared_suffix(old: &Vec<String>, new: &Vec<String>, max_s: usize) -> (s: usize)
    requires
        max_s <= old.len(),
        max_s <= new.len(),
    ensures
        s == common_suffix_lines(strings_view(old@), strings_view(new@), max_s as nat),
        s <= max_s,
{
    let ghost ov = strings_view(old@);
    let ghost nv = strings_view(new@);
    let mut s: usize = 0;
    proof {
        assert(ov.take(ov.len() as int) =~= ov);
        assert(nv.take(nv.len() as int) =~= nv);
    }
    while s < max_s && same_line(&old[old.len() - 1 - s], &new[new.len() - 1 - s])
        invariant
            s <= max_s,
            max_s <= old.len(),
            max_s <= new.len(),
            ov == strings_view(old@),
            nv == strings_view(new@),
            common_suffix_lines(ov, nv, max_s as nat) == s + common_suffix_lines(
                ov.take(old.len() - s),
                nv.take(new.len() - s),
                (max_s - s) as nat,
            ),
        decreases max_s - s,
    {
        proof {
            assert(ov.take(old.len() - s).drop_last() =~= ov.take(old.len() - s - 1));
            assert(nv.take(new.len() - s).drop_last() =~= nv.take(new.len() - s - 1));
            assert(ov.take(old.len() - s).last() == old@[old.len() - 1 - s]@);
            assert(nv.take(new.len() - s).last() == new@[new.len() - 1 - s]@);
        }
        s = s + 1;
    }
    proof {
        if s < max_s {
            assert(ov.take(old.len() - s).last() == old@[old.len() - 1 - s]@);
            assert(nv.take(new.len() - s).last() == new@[new.len() - 1 - s]@);
        }
        assert(common_suffix_lines(ov.take(old.len() - s), nv.take(new.len() - s), (max_s - s) as nat) == 0);
    }
    s
}

fn room_us(used: usize) -> (r: usize)
    ensures
        r == room(used as nat),
{
    if used >= 50 {
        0
    } else {
        50 - used
    }
}

/// The plan for shared counts `p` and `s` of an edit between texts of
/// `old_len` and `new_len` lines.
pub fn plan_from_counts(p: usize, s: usize, old_len: usize, new_len: usize) -> (r: EditPlan)
    requires
        p + s <= old_len,
        p + s <= new_len,
    ensures
        r == plan_of(p as nat, s as nat, old_len as nat, new_len as nat),
{
    let above = p.saturating_sub(2);
    let d0: usize = if above > 0 {
        1
    } else {
        0
    };
    let ctx_before = min_us(p - above, room_us(d0));
    let d1 = d0 + ctx_before;
    let removed = old_len - s - p;
    let removed_shown = min_us(removed, room_us(d1));
    let d2 = d1 + removed_shown + if removed > removed_shown {
        1
    } else {
        0
    };
    let added = new_len - s - p;
    let added_shown = min_us(added, room_us(d2));
    let d3 = d2 + added_shown + if added > added_shown {
        1
    } else {
        0
    };
    let after = min_us(min_us(s, 2), room_us(d3));
    EditPlan {
        prefix: p,
        suffix: s,
        hidden_above: above,
        context_before: ctx_before,
        removed,
        removed_shown,
        added,
        added_shown,
        context_after: after,
        hidden_below: s - after,
    }
}

/// The preview plan for an edit that replaces lines `old` with `new`.
pub fn edit_preview_plan(old: &Vec<String>, new: &Vec<String>) -> (r: EditPlan)
    ensures
        r == edit_plan_spec(strings_view(old@), strings_view(new@)),
{
    let p = shared_prefix(old, new);
    proof {
        lemma_prefix_bounded(strings_view(old@), strings_view(new@));
    }
    let max_s = min_us(old.len(), new.len()) - p;
    let s = shared_suffix(old, new, max_s);
    plan_from_counts(p, s, old.len(), new.len())
}

/// The preview never shows more removed or added lines than the edit has,
/// shows at most two lines of trailing context, shows and hides no more
/// leading lines than the texts share, and its counts add up to the
/// lengths of the old and new texts.
pub proof fn law_edit_plan_within_budget(old: Seq<Seq<char>>, new: Seq<Seq<char>>)
    requires
        old.len() <= usize::MAX,
        new.len() <= usize::MAX,
    ensures
        ({
            let p = edit_plan_spec(old, new);
            &&& p.removed_shown <= p.removed
            &&& p.added_shown <= p.added
            &&& p.context_after <= 2
            &&& p.hidden_above + p.context_before <= p.prefix
            &&& p.hidden_below + p.context_after == p.suffix
            &&& p.prefix + p.suffix + p.removed == old.len()
            &&& p.prefix + p.suffix + p.added == new.len()
        }),
{
    lemma_prefix_bounded(old, new);
    lemma_suffix_bounded(old, new, suffix_room(old, new));
}

} // verus!
