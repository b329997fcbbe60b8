//! The preview shown above a tool approval prompt: what a write, an edit,
//! a multi-edit, a patch or a command would do, as rows of text. Rows are
//! padded to the pane's width when they are drawn.
use vstd::prelude::*;
use crate::parse::{lines_of, text_lines};
use crate::text::{
    byte_len, byte_offset, chars_of, decimal, decimal_of, find_seq, first_occurrence, lemma_byte_offset_full,
    has_prefix, has_prefix_exec, lemma_byte_offset_mono, lemma_byte_offset_step, push_all, string_of, sub_chars, trim,
    trim_chars, trim_start, trim_start_chars, utf8_len_of, lower_chars, lower_seq,
};
use crate::tool_text::{cap_chars, cap_chars_of, opt_view};
use crate::approval::{tilde, tilde_path, ToolApprovalRequest};
use crate::failure::{to_lowercase_of, unicode_lowercase};
use crate::json::{json_object_list, json_object_list_of, json_str_field, json_string_field, triple_view};
use crate::diff::{
    codex_hunk_offset, find_codex_hunk_offset, first_trimmed_match, header_path, parse_unified_hunk_starts,
    patch_file_path_from_header, strip_prefix, strip_prefix_of, unified_hunk_starts,
};
use crate::tool_diff::{edit_plan_spec, edit_preview_plan, law_edit_plan_within_budget, strings_view};

verus! {

broadcast use vstd::seq_lib::group_seq_properties;

/// How a preview row is drawn.
#[derive(Debug, Clone, Copy, PartialEq, Eq, Structural)]
pub enum PreviewKind {
    /// A file header.
    Header,
    /// An unchanged line.
    Context,
    Added,
    Removed,
    /// A muted note (`… N unchanged lines above`, `edit #N`, `… line N`).
    Note,
    /// A note about added lines.
    AddedNote,
    /// A note about removed lines.
    RemovedNote,
    /// The command that a tool would run.
    Command,
}

/// A row of a preview.
#[derive(Debug)]
pub struct PreviewRow {
    pub kind: PreviewKind,
    pub text: String,
}

pub type RowView = (PreviewKind, Seq<char>);

impl View for PreviewRow {
    type V = RowView;

    open spec fn view(&self) -> RowView {
        (self.kind, self.text@)
    }
}

pub open spec fn rows_view(v: Seq<PreviewRow>) -> Seq<RowView> {
    v.map_values(|r: PreviewRow| r@)
}

// ── Pieces of rows ──────────────────────────────────────────────────────────

pub open spec fn spaces(n: nat) -> Seq<char> {
    Seq::new(n, |i: int| ' ')
}

/// `n` right-aligned in `w` columns.
pub open spec fn pad_num(n: nat, w: nat) -> Seq<char> {
    let d = decimal(n);
    if d.len() < w {
        spaces((w - d.len()) as nat) + d
    } else {
        d
    }
}

/// A code line as a preview shows it: longer than `w` bytes, it is cut to
/// `w` characters and marked `…`.
pub open spec fn code_cut(text: Seq<char>, w: nat) -> Seq<char> {
    if byte_len(text) <= w {
        text
    } else {
        cap_chars(text, w).push('…')
    }
}

/// A numbered code row: two spaces, the number in three columns, a space,
/// the mark (`+ `, `- ` or two spaces) and the code.
pub open spec fn numbered(n: nat, mark: Seq<char>, code: Seq<char>) -> Seq<char> {
    "  "@ + pad_num(n, 3) + seq![' '] + mark + code
}

/// A note row `     … <count><what>`.
pub open spec fn note(count: nat, what: Seq<char>) -> Seq<char> {
    "     … "@ + decimal(count) + what
}

fn spaces_of(n: usize) -> (r: Vec<char>)
    ensures
        r@ == spaces(n as nat),
{
    let mut v: Vec<char> = Vec::new();
    let mut i: usize = 0;
    while i < n
        invariant
            i <= n,
            v@ == spaces(i as nat),
        decreases n - i,
    {
        v.push(' ');
        i = i + 1;
        proof {
            assert(v@ =~= spaces(i as nat));
        }
    }
    v
}

fn pad_num_of(n: usize, w: usize) -> (r: Vec<char>)
    ensures
        r@ == pad_num(n as nat, w as nat),
{
    let d = decimal_of(n as u64);
    if d.len() < w {
        let mut v = spaces_of(w - d.len());
        push_all(&mut v, &d);
        v
    } else {
        d
    }
}

/// Whether `v` takes at most `limit` bytes in UTF-8.
fn byte_len_at_most(v: &Vec<char>, limit: usize) -> (r: bool)
    ensures
        r == (byte_len(v@) <= limit),
{
    let mut acc: usize = 0;
    let mut i: usize = 0;
    while i < v.len()
        invariant
            i <= v.len(),
            acc == byte_offset(v@, i as int),
            acc <= limit,
        decreases v.len() - i,
    {
        proof {
            lemma_byte_offset_step(v@, i as int);
        }
        let u = utf8_len_of(v[i]);
        if u > limit - acc {
            proof {
                lemma_byte_offset_mono(v@, i + 1, v.len() as int);
                lemma_byte_offset_full(v@);
            }
            return false;
        }
        acc = acc + u;
        i = i + 1;
    }
    proof {
        lemma_byte_offset_full(v@);
    }
    true
}

fn code_cut_of(text: &Vec<char>, w: usize) -> (r: Vec<char>)
    ensures
        r@ == code_cut(text@, w as nat),
{
    if byte_len_at_most(text, w) {
        proof {
            assert(text@.subrange(0, text@.len() as int) =~= text@);
        }
        crate::text::sub_chars(text, 0, text.len())
    } else {
        let mut c = cap_chars_of(text, w);
        c.push('…');
        c
    }
}

fn numbered_of(n: usize, mark: &str, code: &Vec<char>) -> (r: String)
    ensures
        r@ == numbered(n as nat, mark@, code@),
{
    let mut v = chars_of("  ");
    push_all(&mut v, &pad_num_of(n, 3));
    v.push(' ');
    push_all(&mut v, &chars_of(mark));
    push_all(&mut v, code);
    proof {
        assert(v@ =~= numbered(n as nat, mark@, code@));
    }
    string_of(v.as_slice())
}

fn note_of(count: usize, what: &str) -> (r: String)
    ensures
        r@ == note(count as nat, what@),
{
    let mut v = chars_of("     … ");
    push_all(&mut v, &decimal_of(count as u64));
    push_all(&mut v, &chars_of(what));
    string_of(v.as_slice())
}

fn push_row(out: &mut Vec<PreviewRow>, kind: PreviewKind, text: String)
    ensures
        rows_view(final(out)@) == rows_view(old(out)@).push((kind, text@)),
{
    out.push(PreviewRow { kind, text });
    proof {
        assert(rows_view(out@) =~= rows_view(old(out)@).push((kind, text@)));
    }
}

// ── A new file ──────────────────────────────────────────────────────────────

/// Lines of a new file shown at most.
pub const WRITE_PREVIEW_LINES: usize = 30;

pub open spec fn min_nat(a: nat, b: nat) -> nat {
    if a <= b {
        a
    } else {
        b
    }
}

/// The rows for `lines` from `i` on (up to `n`), numbered from `i + 1`,
/// each marked `mark` and cut to `w`.
pub open spec fn numbered_rows(lines: Seq<Seq<char>>, kind: PreviewKind, mark: Seq<char>, n: nat, w: nat) -> Seq<RowView> {
    Seq::new(n, |i: int| (kind, numbered((i + 1) as nat, mark, code_cut(lines[i], w))))
}

/// The preview of writing `content` to a new file shown as `path`: a
/// header with the line count, the first 30 lines numbered, and how many
/// more there are.
pub open spec fn write_rows(path: Seq<char>, content: Seq<char>, w: nat) -> Seq<RowView> {
    let ls = text_lines(content);
    let n = ls.len();
    seq![(PreviewKind::Header, "  new file: "@ + path + "  (+"@ + decimal(n) + ")"@)]
        + numbered_rows(ls, PreviewKind::Added, "+ "@, min_nat(n, 30), w)
        + if n > 30 {
        seq![(PreviewKind::AddedNote, note((n - 30) as nat, " more lines"@))]
    } else {
        Seq::empty()
    }
}

pub fn write_preview(path: &str, content: &str, width: usize) -> (r: Vec<PreviewRow>)
    ensures
        rows_view(r@) == write_rows(path@, content@, width as nat),
{
    let ls = lines_of(&chars_of(content));
    let ghost lv = ls@.map_values(|l: Vec<char>| l@);
    let n = ls.len();
    let mut out: Vec<PreviewRow> = Vec::new();
    let mut h = chars_of("  new file: ");
    push_all(&mut h, &chars_of(path));
    push_all(&mut h, &chars_of("  (+"));
    push_all(&mut h, &decimal_of(n as u64));
    push_all(&mut h, &chars_of(")"));
    push_row(&mut out, PreviewKind::Header, string_of(h.as_slice()));
    let shown = if n <= WRITE_PREVIEW_LINES {
        n
    } else {
        WRITE_PREVIEW_LINES
    };
    let ghost head = rows_view(out@);
    let mut i: usize = 0;
    while i < shown
        invariant
            i <= shown <= n,
            n == ls@.len(),
            lv == ls@.map_values(|l: Vec<char>| l@),
            lv == text_lines(content@),
            rows_view(out@) == head + numbered_rows(lv, PreviewKind::Added, "+ "@, i as nat, width as nat),
        decreases shown - i,
    {
        let t = numbered_of(i + 1, "+ ", &code_cut_of(&ls[i], width));
        push_row(&mut out, PreviewKind::Added, t);
        i = i + 1;
        proof {
            assert(numbered_rows(lv, PreviewKind::Added, "+ "@, i as nat, width as nat) =~= numbered_rows(
                lv,
                PreviewKind::Added,
                "+ "@,
                (i - 1) as nat,
                width as nat,
            ).push((PreviewKind::Added, numbered(i as nat, "+ "@, code_cut(lv[i - 1], width as nat)))));
        }
    }
    if n > WRITE_PREVIEW_LINES {
        push_row(&mut out, PreviewKind::AddedNote, note_of(n - WRITE_PREVIEW_LINES, " more lines"));
    }
    proof {
        assert(rows_view(out@) =~= write_rows(path@, content@, width as nat));
    }
    out
}

// ── A command ───────────────────────────────────────────────────────────────

/// The preview of a command: `  $ ` and its first 80 characters; nothing
/// for an empty command.
pub open spec fn command_rows(cmd: Seq<char>) -> Seq<RowView> {
    if cmd.len() == 0 {
        Seq::empty()
    } else {
        seq![(PreviewKind::Command, "  $ "@ + cap_chars(cmd, 80))]
    }
}

pub fn command_preview(cmd: &str) -> (r: Vec<PreviewRow>)
    ensures
        rows_view(r@) == command_rows(cmd@),
{
    let c = chars_of(cmd);
    let mut out: Vec<PreviewRow> = Vec::new();
    if c.len() > 0 {
        let mut v = chars_of("  $ ");
        push_all(&mut v, &cap_chars_of(&c, 80));
        push_row(&mut out, PreviewKind::Command, string_of(v.as_slice()));
    }
    proof {
        assert(rows_view(out@) =~= command_rows(cmd@));
    }
    out
}

// ── Several edits of one file ───────────────────────────────────────────────

/// Edits shown at most, and lines shown at most of each side of an edit.
pub const MULTIEDIT_MAX_EDITS: usize = 6;
pub const MULTIEDIT_MAX_LINES: usize = 6;

/// One side of an edit: its first six lines marked `mark`, then how many
/// more there are.
pub open spec fn side_rows(text: Seq<char>, kind: PreviewKind, mark: Seq<char>, more: PreviewKind, what: Seq<char>, w: nat) -> Seq<RowView> {
    let ls = text_lines(text);
    Seq::new(min_nat(ls.len(), 6), |i: int| (kind, "  "@ + mark + code_cut(ls[i], w))) + if ls.len() > 6 {
        seq![(more, note((ls.len() - 6) as nat, what))]
    } else {
        Seq::empty()
    }
}

/// The rows of edit number `k` (from zero): its heading, the removed
/// text and the added text.
pub open spec fn edit_block(k: nat, e: (Seq<char>, Seq<char>, bool), w: nat) -> Seq<RowView> {
    seq![(PreviewKind::Note, "  edit #"@ + decimal(k + 1) + if e.2 { " (replace_all)"@ } else { Seq::empty() })]
        + side_rows(e.0, PreviewKind::Removed, "- "@, PreviewKind::RemovedNote, " more removed lines"@, w)
        + side_rows(e.1, PreviewKind::Added, "+ "@, PreviewKind::AddedNote, " more added lines"@, w)
}

/// The rows of the first `n` edits.
pub open spec fn edit_blocks(es: Seq<(Seq<char>, Seq<char>, bool)>, n: nat, w: nat) -> Seq<RowView>
    decreases n,
{
    if n == 0 {
        Seq::empty()
    } else {
        edit_blocks(es, (n - 1) as nat, w) + edit_block((n - 1) as nat, es[n - 1], w)
    }
}

/// The preview of edits `es` (old text, new text, replace all) of the file
/// shown as `path`: the file, the first six edits, and how many more.
pub open spec fn multiedit_rows(path: Seq<char>, es: Seq<(Seq<char>, Seq<char>, bool)>, w: nat) -> Seq<RowView> {
    seq![(PreviewKind::Header, "  file: "@ + path)] + edit_blocks(es, min_nat(es.len(), 6), w) + if es.len() > 6 {
        seq![(PreviewKind::Note, note((es.len() - 6) as nat, " more edit blocks"@))]
    } else {
        Seq::empty()
    }
}

pub open spec fn edits_view(es: Seq<(String, String, bool)>) -> Seq<(Seq<char>, Seq<char>, bool)> {
    es.map_values(|e: (String, String, bool)| (e.0@, e.1@, e.2))
}

fn push_side(
    out: &mut Vec<PreviewRow>,
    text: &str,
    kind: PreviewKind,
    mark: &str,
    more: PreviewKind,
    what: &str,
    w: usize,
)
    ensures
        rows_view(final(out)@) == rows_view(old(out)@) + side_rows(text@, kind, mark@, more, what@, w as nat),
{
    let ls = lines_of(&chars_of(text));
    let ghost lv = ls@.map_values(|l: Vec<char>| l@);
    let ghost start = rows_view(out@);
    let n = ls.len();
    let shown = if n <= MULTIEDIT_MAX_LINES {
        n
    } else {
        MULTIEDIT_MAX_LINES
    };
    let mut i: usize = 0;
    while i < shown
        invariant
            i <= shown <= n,
            n == ls@.len(),
            lv == ls@.map_values(|l: Vec<char>| l@),
            lv == text_lines(text@),
            rows_view(out@) == start + Seq::new(i as nat, |j: int| (kind, "  "@ + mark@ + code_cut(lv[j], w as nat))),
        decreases shown - i,
    {
        let mut v = chars_of("  ");
        push_all(&mut v, &chars_of(mark));
        push_all(&mut v, &code_cut_of(&ls[i], w));
        push_row(out, kind, string_of(v.as_slice()));
        i = i + 1;
        proof {
            assert(Seq::new(i as nat, |j: int| (kind, "  "@ + mark@ + code_cut(lv[j], w as nat))) =~= Seq::new(
                (i - 1) as nat,
                |j: int| (kind, "  "@ + mark@ + code_cut(lv[j], w as nat)),
            ).push((kind, "  "@ + mark@ + code_cut(lv[i - 1], w as nat))));
        }
    }
    if n > MULTIEDIT_MAX_LINES {
        push_row(out, more, note_of(n - MULTIEDIT_MAX_LINES, what));
    }
    proof {
        assert(rows_view(out@) =~= start + side_rows(text@, kind, mark@, more, what@, w as nat));
    }
}

fn push_edit_block(out: &mut Vec<PreviewRow>, k: usize, e: &(String, String, bool), w: usize)
    requires
        k < usize::MAX,
    ensures
        rows_view(final(out)@) == rows_view(old(out)@) + edit_block(k as nat, (e.0@, e.1@, e.2), w as nat),
{
    let ghost start = rows_view(out@);
    let mut h = chars_of("  edit #");
    push_all(&mut h, &decimal_of((k + 1) as u64));
    if e.2 {
        push_all(&mut h, &chars_of(" (replace_all)"));
    }
    proof {
        assert(h@ =~= "  edit #"@ + decimal(k as nat + 1) + if e.2 { " (replace_all)"@ } else { Seq::empty() });
    }
    push_row(out, PreviewKind::Note, string_of(h.as_slice()));
    push_side(out, e.0.as_str(), PreviewKind::Removed, "- ", PreviewKind::RemovedNote, " more removed lines", w);
    push_side(out, e.1.as_str(), PreviewKind::Added, "+ ", PreviewKind::AddedNote, " more added lines", w);
    proof {
        assert(rows_view(out@) =~= start + edit_block(k as nat, (e.0@, e.1@, e.2), w as nat));
    }
}

pub fn multiedit_preview(path: &str, edits: &Vec<(String, String, bool)>, width: usize) -> (r: Vec<PreviewRow>)
    ensures
        rows_view(r@) == multiedit_rows(path@, edits_view(edits@), width as nat),
{
    let ghost es = edits_view(edits@);
    let mut out: Vec<PreviewRow> = Vec::new();
    let mut h = chars_of("  file: ");
    push_all(&mut h, &chars_of(path));
    push_row(&mut out, PreviewKind::Header, string_of(h.as_slice()));
    let ghost head = rows_view(out@);
    let n = edits.len();
    let shown = if n <= MULTIEDIT_MAX_EDITS {
        n
    } else {
        MULTIEDIT_MAX_EDITS
    };
    let mut k: usize = 0;
    while k < shown
        invariant
            k <= shown <= n,
            n == edits@.len(),
            shown <= 6,
            es == edits_view(edits@),
            rows_view(out@) == head + edit_blocks(es, k as nat, width as nat),
        decreases shown - k,
    {
        let ghost before = rows_view(out@);
        push_edit_block(&mut out, k, &edits[k], width);
        proof {
            assert(es[k as int] == (edits@[k as int].0@, edits@[k as int].1@, edits@[k as int].2));
            assert(head + edit_blocks(es, k as nat, width as nat) + edit_block(k as nat, es[k as int], width as nat)
                =~= head + edit_blocks(es, (k + 1) as nat, width as nat));
        }
        k = k + 1;
    }
    if n > MULTIEDIT_MAX_EDITS {
        push_row(&mut out, PreviewKind::Note, note_of(n - MULTIEDIT_MAX_EDITS, " more edit blocks"));
    }
    proof {
        assert(rows_view(out@) =~= multiedit_rows(path@, es, width as nat));
    }
    out
}

// ── An edit ─────────────────────────────────────────────────────────────────

/// Rows for `lines[from..from + count]`, numbered from `first`.
pub open spec fn line_rows(lines: Seq<Seq<char>>, from: nat, count: nat, first: nat, kind: PreviewKind, mark: Seq<char>, w: nat) -> Seq<RowView> {
    Seq::new(count, |i: int| (kind, numbered((first + i) as nat, mark, code_cut(lines[from + i], w))))
}

/// A note row when `count` is not zero.
pub open spec fn note_if(kind: PreviewKind, count: nat, what: Seq<char>) -> Seq<RowView> {
    if count > 0 {
        seq![(kind, note(count, what))]
    } else {
        Seq::empty()
    }
}

/// The preview of an edit from lines `old` to lines `new` whose first line
/// is line `start` of the file: unchanged lines hidden above, two lines of
/// context, the removed and the added lines (within the plan's budget, each
/// with how many more there are), two lines of context after and the
/// unchanged lines hidden below.
pub open spec fn edit_rows(old: Seq<Seq<char>>, new: Seq<Seq<char>>, start: nat, w: nat) -> Seq<RowView> {
    let p = edit_plan_spec(old, new);
    let above = p.hidden_above as nat;
    let prefix = p.prefix as nat;
    let tail = (old.len() - p.suffix) as nat;
    note_if(PreviewKind::Note, above, " unchanged lines above"@)
        + line_rows(old, above, p.context_before as nat, start + above, PreviewKind::Context, "  "@, w)
        + line_rows(old, prefix, p.removed_shown as nat, start + prefix, PreviewKind::Removed, "- "@, w)
        + note_if(PreviewKind::RemovedNote, (p.removed - p.removed_shown) as nat, " more deleted lines"@)
        + line_rows(new, prefix, p.added_shown as nat, start + prefix, PreviewKind::Added, "+ "@, w)
        + note_if(PreviewKind::AddedNote, (p.added - p.added_shown) as nat, " more added lines"@)
        + line_rows(old, tail, p.context_after as nat, start + tail, PreviewKind::Context, "  "@, w)
        + note_if(PreviewKind::Note, (p.suffix - p.context_after) as nat, " unchanged lines below"@)
}

fn strings_of_lines(ls: &Vec<Vec<char>>) -> (r: Vec<String>)
    ensures
        strings_view(r@) == ls@.map_values(|l: Vec<char>| l@),
{
    let mut r: Vec<String> = Vec::new();
    let mut i: usize = 0;
    while i < ls.len()
        invariant
            i <= ls.len(),
            strings_view(r@) == ls@.take(i as int).map_values(|l: Vec<char>| l@),
        decreases ls.len() - i,
    {
        r.push(string_of(ls[i].as_slice()));
        proof {
            assert(ls@.take(i + 1).map_values(|l: Vec<char>| l@) =~= ls@.take(i as int).map_values(
                |l: Vec<char>| l@,
            ).push(ls@[i as int]@));
            assert(strings_view(r@) =~= strings_view(r@.drop_last()).push(r@.last()@));
        }
        i = i + 1;
    }
    proof {
        assert(ls@.take(ls.len() as int) =~= ls@);
    }
    r
}

/// Pushes rows for `lines[from..from + count]`, numbered from `first`.
fn push_numbered(
    out: &mut Vec<PreviewRow>,
    lines: &Vec<Vec<char>>,
    from: usize,
    count: usize,
    first: usize,
    kind: PreviewKind,
    mark: &str,
    w: usize,
)
    requires
        from + count <= lines.len(),
        first + count <= usize::MAX,
    ensures
        rows_view(final(out)@) == rows_view(old(out)@) + line_rows(
            lines@.map_values(|l: Vec<char>| l@),
            from as nat,
            count as nat,
            first as nat,
            kind,
            mark@,
            w as nat,
        ),
{
    let ghost start = rows_view(out@);
    let mut i: usize = 0;
    while i < count
        invariant
            i <= count,
            from + count <= lines.len(),
            first + count <= usize::MAX,
            rows_view(out@) == start + Seq::new(
                i as nat,
                |j: int| (kind, numbered((first + j) as nat, mark@, code_cut(lines@[from + j]@, w as nat))),
            ),
        decreases count - i,
    {
        let t = numbered_of(first + i, mark, &code_cut_of(&lines[from + i], w));
        push_row(out, kind, t);
        proof {
            assert(Seq::new(
                (i + 1) as nat,
                |j: int| (kind, numbered((first + j) as nat, mark@, code_cut(lines@[from + j]@, w as nat))),
            ) =~= Seq::new(
                i as nat,
                |j: int| (kind, numbered((first + j) as nat, mark@, code_cut(lines@[from + j]@, w as nat))),
            ).push((kind, numbered((first + i) as nat, mark@, code_cut(lines@[from + i]@, w as nat)))));
        }
        i = i + 1;
    }
    proof {
        assert(Seq::new(
            count as nat,
            |j: int| (kind, numbered((first + j) as nat, mark@, code_cut(lines@[from + j]@, w as nat))),
        ) =~= line_rows(lines@.map_values(|l: Vec<char>| l@), from as nat, count as nat, first as nat, kind, mark@, w as nat));
    }
}

fn push_note_if(out: &mut Vec<PreviewRow>, kind: PreviewKind, count: usize, what: &str)
    ensures
        rows_view(final(out)@) == rows_view(old(out)@) + note_if(kind, count as nat, what@),
{
    if count > 0 {
        push_row(out, kind, note_of(count, what));
    }
    proof {
        assert(rows_view(out@) =~= rows_view(old(out)@) + note_if(kind, count as nat, what@));
    }
}

/// The preview of replacing `old` by `new` where `old` starts at line
/// `start_line` of the file.
#[verifier::rlimit(30)]
pub fn edit_preview(old: &str, new: &str, start_line: usize, width: usize) -> (r: Vec<PreviewRow>)
    requires
        start_line + text_lines(old@).len() <= usize::MAX,
        start_line + text_lines(new@).len() <= usize::MAX,
    ensures
        rows_view(r@) == edit_rows(text_lines(old@), text_lines(new@), start_line as nat, width as nat),
{
    let ol = lines_of(&chars_of(old));
    let nl = lines_of(&chars_of(new));
    let ghost ov = ol@.map_values(|l: Vec<char>| l@);
    let ghost nv = nl@.map_values(|l: Vec<char>| l@);
    let p = edit_preview_plan(&strings_of_lines(&ol), &strings_of_lines(&nl));
    proof {
        law_edit_plan_within_budget(ov, nv);
        assert(p == edit_plan_spec(ov, nv));
    }
    let mut out: Vec<PreviewRow> = Vec::new();
    push_note_if(&mut out, PreviewKind::Note, p.hidden_above, " unchanged lines above");
    push_numbered(&mut out, &ol, p.hidden_above, p.context_before, start_line + p.hidden_above, PreviewKind::Context, "  ", width);
    push_numbered(&mut out, &ol, p.prefix, p.removed_shown, start_line + p.prefix, PreviewKind::Removed, "- ", width);
    push_note_if(&mut out, PreviewKind::RemovedNote, p.removed - p.removed_shown, " more deleted lines");
    push_numbered(&mut out, &nl, p.prefix, p.added_shown, start_line + p.prefix, PreviewKind::Added, "+ ", width);
    push_note_if(&mut out, PreviewKind::AddedNote, p.added - p.added_shown, " more added lines");
    let tail = ol.len() - p.suffix;
    push_numbered(&mut out, &ol, tail, p.context_after, start_line + tail, PreviewKind::Context, "  ", width);
    push_note_if(&mut out, PreviewKind::Note, p.suffix - p.context_after, " unchanged lines below");
    out
}

// ── Where an edit starts ────────────────────────────────────────────────────

/// A character that the search for a distinctive line of an edit ignores.
pub open spec fn edit_filler(c: char) -> bool {
    "{}();,[]<>/*+-=|&^%#@!~`"@.contains(c) || crate::text::is_ws(c)
}

/// A line of an edit worth searching for: at least 6 bytes once trimmed,
/// and not only filler characters.
pub open spec fn edit_distinctive(l: Seq<char>) -> bool {
    let t = trim(l);
    byte_len(t) >= 6 && exists|i: int| 0 <= i < t.len() && !edit_filler(#[trigger] t[i])
}

/// Index of the first distinctive line of an edit.
pub open spec fn first_edit_distinctive(ls: Seq<Seq<char>>) -> Option<nat>
    decreases ls.len(),
{
    if ls.len() == 0 {
        None
    } else if edit_distinctive(ls[0]) {
        Some(0)
    } else {
        match first_edit_distinctive(ls.drop_first()) {
            Some(i) => Some(i + 1),
            None => None,
        }
    }
}

/// The line (from 1) at which the text `needle` starts in a file whose text
/// is `contents` (`None` when there is no file to read): where it first
/// occurs; else, where the first distinctive line of `needle` occurs
/// (compared trimmed), less its place in `needle`; else 1.
pub open spec fn text_start_line(contents: Option<Seq<char>>, needle: Seq<char>) -> nat {
    if needle.len() == 0 {
        1
    } else {
        match contents {
            None => 1,
            Some(c) => match first_occurrence(c, needle) {
                Some(k) => text_lines(c.take(k)).len() + 1,
                None => fuzzy_start_line(c, needle),
            },
        }
    }
}

/// Where the first distinctive line of `needle` occurs in `c` (compared
/// trimmed), less its place in `needle`, from 1; else 1.
pub open spec fn fuzzy_start_line(c: Seq<char>, needle: Seq<char>) -> nat {
    let nl = text_lines(needle);
    match first_edit_distinctive(nl) {
        None => 1,
        Some(ni) => match first_trimmed_match(text_lines(c), trim(nl[ni as int])) {
            Some(fi) => (if fi >= ni { (fi - ni) as nat } else { 0 }) + 1,
            None => 1,
        },
    }
}

proof fn lemma_first_edit_distinctive_bounded(ls: Seq<Seq<char>>)
    ensures
        first_edit_distinctive(ls) matches Some(i) ==> i < ls.len(),
    decreases ls.len(),
{
    if ls.len() > 0 && !edit_distinctive(ls[0]) {
        lemma_first_edit_distinctive_bounded(ls.drop_first());
    }
}

proof fn lemma_first_trimmed_match_bounded(ls: Seq<Seq<char>>, needle: Seq<char>)
    ensures
        first_trimmed_match(ls, needle) matches Some(i) ==> i < ls.len(),
    decreases ls.len(),
{
    if ls.len() > 0 && trim(ls[0]) != needle {
        lemma_first_trimmed_match_bounded(ls.drop_first(), needle);
    }
}

/// A text has no more lines than characters.
pub proof fn lemma_text_lines_len(s: Seq<char>)
    ensures
        text_lines(s).len() <= s.len(),
    decreases s.len(),
{
    if s.len() > 0 {
        crate::parse::lemma_nl_index_bounded(s);
        let i = crate::parse::nl_index(s);
        if i < s.len() {
            lemma_text_lines_len(s.skip(i + 1 as int));
        }
    }
}

fn is_edit_filler(c: char) -> (r: bool)
    ensures
        r == edit_filler(c),
{
    let set = chars_of("{}();,[]<>/*+-=|&^%#@!~`");
    let mut i: usize = 0;
    while i < set.len()
        invariant
            i <= set.len(),
            set@ == "{}();,[]<>/*+-=|&^%#@!~`"@,
            forall|j: int| 0 <= j < i ==> set@[j] != c,
        decreases set.len() - i,
    {
        if set[i] == c {
            return true;
        }
        i = i + 1;
    }
    crate::text::is_ws_exec(c)
}

fn edit_distinctive_of(l: &Vec<char>) -> (r: bool)
    ensures
        r == edit_distinctive(l@),
{
    let t = trim_chars(l);
    if byte_len_at_most(&t, 5) {
        return false;
    }
    let mut i: usize = 0;
    while i < t.len()
        invariant
            i <= t.len(),
            t@ == trim(l@),
            byte_len(t@) >= 6,
            forall|j: int| 0 <= j < i ==> edit_filler(#[trigger] t@[j]),
        decreases t.len() - i,
    {
        if !is_edit_filler(t[i]) {
            assert(!edit_filler(t@[i as int]));
            return true;
        }
        i = i + 1;
    }
    false
}

/// Index of the first of `ls` whose trimmed text is `needle`.
fn first_trimmed_match_of(ls: &Vec<Vec<char>>, needle: &Vec<char>) -> (r: Option<usize>)
    ensures
        match first_trimmed_match(ls@.map_values(|l: Vec<char>| l@), needle@) {
            Some(i) => r == Some(i as usize),
            None => r is None,
        },
{
    let ghost lv = ls@.map_values(|l: Vec<char>| l@);
    let mut i: usize = 0;
    proof {
        assert(lv.skip(0) =~= lv);
    }
    while i < ls.len()
        invariant
            i <= ls.len(),
            lv == ls@.map_values(|l: Vec<char>| l@),
            first_trimmed_match(lv, needle@) == match first_trimmed_match(lv.skip(i as int), needle@) {
                Some(j) => Some((j + i) as nat),
                None => None::<nat>,
            },
        decreases ls.len() - i,
    {
        proof {
            assert(lv.skip(i as int)[0] == ls@[i as int]@);
            assert(lv.skip(i as int).drop_first() =~= lv.skip(i as int + 1));
        }
        if crate::text::eq_chars(&trim_chars(&ls[i]), needle) {
            return Some(i);
        }
        i = i + 1;
    }
    proof {
        assert(lv.skip(i as int).len() == 0);
    }
    None
}

fn first_edit_distinctive_of(ls: &Vec<Vec<char>>) -> (r: Option<usize>)
    ensures
        match first_edit_distinctive(ls@.map_values(|l: Vec<char>| l@)) {
            Some(i) => r == Some(i as usize),
            None => r is None,
        },
{
    let ghost lv = ls@.map_values(|l: Vec<char>| l@);
    let mut i: usize = 0;
    proof {
        assert(lv.skip(0) =~= lv);
    }
    while i < ls.len()
        invariant
            i <= ls.len(),
            lv == ls@.map_values(|l: Vec<char>| l@),
            first_edit_distinctive(lv) == match first_edit_distinctive(lv.skip(i as int)) {
                Some(j) => Some((j + i) as nat),
                None => None::<nat>,
            },
        decreases ls.len() - i,
    {
        proof {
            assert(lv.skip(i as int)[0] == ls@[i as int]@);
            assert(lv.skip(i as int).drop_first() =~= lv.skip(i as int + 1));
        }
        if edit_distinctive_of(&ls[i]) {
            return Some(i);
        }
        i = i + 1;
    }
    proof {
        assert(lv.skip(i as int).len() == 0);
    }
    None
}

/// The line at which `needle` starts in the file whose text is `contents`
/// (see `text_start_line`).
pub fn find_text_start_line(contents: Option<&str>, needle: &str) -> (r: usize)
    ensures
        r == text_start_line(opt_view(contents), needle@),
{
    let nv = chars_of(needle);
    if nv.len() == 0 {
        return 1;
    }
    match contents {
        Some(c) => start_line_in(&chars_of(c), &nv),
        None => 1,
    }
}

fn start_line_in(c: &Vec<char>, nv: &Vec<char>) -> (r: usize)
    requires
        nv.len() > 0,
    ensures
        r == match first_occurrence(c@, nv@) {
            Some(k) => text_lines(c@.take(k)).len() + 1,
            None => fuzzy_start_line(c@, nv@),
        },
{
    match find_seq(c, nv) {
        Some(k) => {
            assert(k + nv.len() <= c.len());
            lines_before(c, k)
        },
        None => fuzzy_start_of(c, nv),
    }
}

/// The line (from 1) of character `k` of `c`.
fn lines_before(c: &Vec<char>, k: usize) -> (r: usize)
    requires
        k < c.len(),
    ensures
        r == text_lines(c@.take(k as int)).len() + 1,
{
    let before = lines_of(&sub_chars(c, 0, k));
    proof {
        assert(c@.subrange(0, k as int) =~= c@.take(k as int));
        lemma_text_lines_len(c@.take(k as int));
    }
    before.len() + 1
}

fn fuzzy_start_of(c: &Vec<char>, nv: &Vec<char>) -> (r: usize)
    ensures
        r == fuzzy_start_line(c@, nv@),
{
    let nl = lines_of(nv);
    let ghost nlv = nl@.map_values(|l: Vec<char>| l@);
    proof {
        lemma_first_edit_distinctive_bounded(nlv);
    }
    let ni = match first_edit_distinctive_of(&nl) {
        Some(i) => i,
        None => {
            return 1;
        },
    };
    let target = trim_chars(&nl[ni]);
    let fl = lines_of(c);
    let ghost flv = fl@.map_values(|l: Vec<char>| l@);
    proof {
        assert(nlv == text_lines(nv@));
        assert(flv == text_lines(c@));
        assert(first_edit_distinctive(nlv) == Some(ni as nat));
        assert(nlv[ni as int] == nl@[ni as int]@);
        assert(target@ == trim(text_lines(nv@)[ni as int]));
        lemma_first_trimmed_match_bounded(flv, target@);
    }
    match first_trimmed_match_of(&fl, &target) {
        Some(fi) => {
            assert(first_trimmed_match(flv, target@) == Some(fi as nat));
            assert(fi < flv.len());
            assert(flv.len() == fl.len());
            let off = if fi >= ni {
                fi - ni
            } else {
                0
            };
            off + 1
        },
        None => 1,
    }
}

// ── A patch ─────────────────────────────────────────────────────────────────

/// Rows of a patch preview shown at most.
pub const PATCH_MAX_ROWS: usize = 120;

/// `s` without trailing `\r`s.
pub open spec fn trim_cr_end(s: Seq<char>) -> Seq<char>
    decreases s.len(),
{
    if s.len() > 0 && s.last() == '\r' {
        trim_cr_end(s.drop_last())
    } else {
        s
    }
}

/// The file of a Codex `*** Update File:` or `*** Add File:` header.
pub open spec fn codex_file(t: Seq<char>) -> Option<Seq<char>> {
    match strip_prefix(t, "*** Update File: "@) {
        Some(p) => Some(trim(p)),
        None => match strip_prefix(t, "*** Add File: "@) {
            Some(p) => Some(trim(p)),
            None => None,
        },
    }
}

/// The file that a patch line names as the one it changes next.
pub open spec fn patch_header_file(t: Seq<char>) -> Option<Seq<char>> {
    match header_path(t) {
        Some(p) => Some(p),
        None => codex_file(t),
    }
}

/// The text of file `path` among the files that could be read (the first
/// entry for a path counts).
pub open spec fn file_text(files: Seq<(Seq<char>, Seq<char>)>, path: Seq<char>) -> Option<Seq<char>>
    decreases files.len(),
{
    if files.len() == 0 {
        None
    } else if files[0].0 == path {
        Some(files[0].1)
    } else {
        file_text(files.drop_first(), path)
    }
}

/// Where the Codex hunk after line `idx` starts in file `file`.
pub open spec fn codex_offset_at(lines: Seq<Seq<char>>, idx: int, file: Seq<char>, files: Seq<(Seq<char>, Seq<char>)>) -> Option<nat> {
    if file.len() == 0 {
        None
    } else {
        match file_text(files, file) {
            Some(text) => codex_hunk_offset(lines, idx + 1, text),
            None => None,
        }
    }
}

/// The file being patched and the counters of new and old line numbers.
pub type PatchState = (Seq<char>, nat, nat);

/// The row of patch line `idx` and the state after it: fences, `*** ` and
/// `--- ` lines and "no newline" markers show nothing; a file header shows
/// the file and restarts the counters; a hunk header shows where it starts
/// (a bare Codex `@@` only when it is found in the file); `+`, `-` and
/// context lines are numbered.
pub open spec fn patch_step(lines: Seq<Seq<char>>, idx: int, st: PatchState, files: Seq<(Seq<char>, Seq<char>)>) -> (Option<RowView>, PatchState) {
    let raw = trim_cr_end(lines[idx]);
    let t = trim_start(raw);
    if has_prefix(t, "```"@) {
        (None, st)
    } else if patch_header_file(t) is Some {
        let p = patch_header_file(t)->0;
        (Some((PreviewKind::Header, "  file: "@ + p)), (p, 0, 0))
    } else if has_prefix(t, "*** "@) || has_prefix(t, "--- "@) {
        (None, st)
    } else if t == "@@"@ {
        match codex_offset_at(lines, idx, st.0, files) {
            Some(o) => (Some((PreviewKind::Note, "     … line "@ + decimal(o + 1))), (st.0, o, o)),
            None => (None, st),
        }
    } else if unified_hunk_starts(t) is Some {
        let (o, n) = unified_hunk_starts(t)->0;
        (
            Some((PreviewKind::Note, "     … line "@ + decimal(n))),
            (st.0, if n > 0 { (n - 1) as nat } else { 0 }, if o > 0 { (o - 1) as nat } else { 0 }),
        )
    } else if has_prefix(t, "\\ No newline"@) {
        (None, st)
    } else if raw.len() > 0 && raw[0] == '+' {
        (Some((PreviewKind::Added, numbered(st.1 + 1, "+ "@, raw.drop_first()))), (st.0, st.1 + 1, st.2))
    } else if raw.len() > 0 && raw[0] == '-' {
        (Some((PreviewKind::Removed, numbered(st.2 + 1, "- "@, raw.drop_first()))), (st.0, st.1, st.2 + 1))
    } else if raw.len() > 0 && raw[0] == ' ' {
        (Some((PreviewKind::Context, numbered(st.1 + 1, "  "@, raw.drop_first()))), (st.0, st.1 + 1, st.2 + 1))
    } else {
        (None, st)
    }
}

pub open spec fn opt_rows(r: Option<RowView>) -> Seq<RowView> {
    match r {
        Some(x) => seq![x],
        None => Seq::empty(),
    }
}

/// The rows of patch lines from `idx` on, `rendered` rows having been
/// shown: past 120 rows, how many lines are left.
pub open spec fn patch_rows_from(lines: Seq<Seq<char>>, idx: int, st: PatchState, rendered: nat, files: Seq<(Seq<char>, Seq<char>)>) -> Seq<RowView>
    decreases lines.len() - idx,
{
    if idx < 0 || idx >= lines.len() {
        Seq::empty()
    } else if rendered >= 120 {
        seq![(PreviewKind::Note, note((lines.len() - rendered) as nat, " more patch lines"@))]
    } else {
        let (r, st2) = patch_step(lines, idx, st, files);
        opt_rows(r) + patch_rows_from(lines, idx + 1, st2, rendered + if r is Some { 1nat } else { 0nat }, files)
    }
}

/// No number in the rows from `idx` on passes `usize::MAX`.
pub open spec fn patch_fits_from(lines: Seq<Seq<char>>, idx: int, st: PatchState, rendered: nat, files: Seq<(Seq<char>, Seq<char>)>) -> bool
    decreases lines.len() - idx,
{
    if idx < 0 || idx >= lines.len() || rendered >= 120 {
        true
    } else {
        let (r, st2) = patch_step(lines, idx, st, files);
        &&& patch_step_fits(lines, idx, st, files)
        &&& patch_fits_from(lines, idx + 1, st2, rendered + if r is Some { 1nat } else { 0nat }, files)
    }
}

/// The preview of the patch `patch` (unified or Codex format), reading
/// the files it names from `files`.
pub open spec fn patch_rows(patch: Seq<char>, files: Seq<(Seq<char>, Seq<char>)>) -> Seq<RowView> {
    if trim(patch).len() == 0 {
        Seq::empty()
    } else {
        patch_rows_from(text_lines(patch), 0, (Seq::empty(), 0, 0), 0, files)
    }
}

pub open spec fn patch_fits(patch: Seq<char>, files: Seq<(Seq<char>, Seq<char>)>) -> bool {
    trim(patch).len() == 0 || patch_fits_from(text_lines(patch), 0, (Seq::empty(), 0, 0), 0, files)
}

pub open spec fn files_view(files: Seq<(String, String)>) -> Seq<(Seq<char>, Seq<char>)> {
    files.map_values(|f: (String, String)| (f.0@, f.1@))
}

fn trim_cr_end_of(s: &Vec<char>) -> (r: Vec<char>)
    ensures
        r@ == trim_cr_end(s@),
{
    let mut k = s.len();
    while k > 0 && s[k - 1] == '\r'
        invariant
            k <= s.len(),
            trim_cr_end(s@) == trim_cr_end(s@.take(k as int)),
        decreases k,
    {
        proof {
            assert(s@.take(k as int).drop_last() =~= s@.take(k - 1));
        }
        k = k - 1;
    }
    proof {
        if k > 0 {
            assert(s@.take(k as int).last() == s@[k - 1]);
        }
    }
    sub_chars(s, 0, k)
}

fn codex_file_of(t: &Vec<char>) -> (r: Option<Vec<char>>)
    ensures
        match codex_file(t@) {
            Some(p) => r matches Some(v) && v@ == p,
            None => r is None,
        },
{
    match strip_prefix_of(t, "*** Update File: ") {
        Some(p) => Some(trim_chars(&p)),
        None => match strip_prefix_of(t, "*** Add File: ") {
            Some(p) => Some(trim_chars(&p)),
            None => None,
        },
    }
}

fn patch_header_file_of(t: &Vec<char>) -> (r: Option<Vec<char>>)
    ensures
        match patch_header_file(t@) {
            Some(p) => r matches Some(v) && v@ == p,
            None => r is None,
        },
{
    match patch_file_path_from_header(string_of(t.as_slice()).as_str()) {
        Some(p) => Some(chars_of(p.as_str())),
        None => codex_file_of(t),
    }
}

fn file_text_of<'a>(files: &'a Vec<(String, String)>, path: &Vec<char>) -> (r: Option<&'a str>)
    ensures
        match file_text(files_view(files@), path@) {
            Some(t) => r matches Some(x) && x@ == t,
            None => r is None,
        },
{
    let ghost fv = files_view(files@);
    let mut i: usize = 0;
    proof {
        assert(fv.skip(0) =~= fv);
    }
    while i < files.len()
        invariant
            i <= files.len(),
            fv == files_view(files@),
            file_text(fv, path@) == file_text(fv.skip(i as int), path@),
        decreases files.len() - i,
    {
        proof {
            assert(fv.skip(i as int)[0] == (files@[i as int].0@, files@[i as int].1@));
            assert(fv.skip(i as int).drop_first() =~= fv.skip(i as int + 1));
        }
        if crate::text::eq_chars(&chars_of(files[i].0.as_str()), path) {
            return Some(files[i].1.as_str());
        }
        i = i + 1;
    }
    None
}

fn codex_offset_of(lines: &Vec<String>, idx: usize, file: &Vec<char>, files: &Vec<(String, String)>) -> (r: Option<usize>)
    requires
        idx < lines.len(),
    ensures
        match codex_offset_at(strings_view(lines@), idx as int, file@, files_view(files@)) {
            Some(o) => o < usize::MAX && r == Some(o as usize),
            None => r is None,
        },
{
    if file.len() == 0 {
        return None;
    }
    match file_text_of(files, file) {
        Some(text) => {
            proof {
                assert(lines@.map_values(|l: String| l@) =~= strings_view(lines@));
            }
            find_codex_hunk_offset(lines, idx + 1, text)
        },
        None => None,
    }
}

/// Whether the numbers of patch line `idx`'s row and state fit a `usize`.
pub open spec fn patch_step_fits(lines: Seq<Seq<char>>, idx: int, st: PatchState, files: Seq<(Seq<char>, Seq<char>)>) -> bool {
    let st2 = patch_step(lines, idx, st, files).1;
    &&& st2.1 <= usize::MAX
    &&& st2.2 <= usize::MAX
}

pub open spec fn opt_row_view(r: Option<PreviewRow>) -> Option<RowView> {
    match r {
        Some(x) => Some(x@),
        None => None,
    }
}

fn row(kind: PreviewKind, text: Vec<char>) -> (r: Option<PreviewRow>)
    ensures
        opt_row_view(r) == Some((kind, text@)),
{
    Some(PreviewRow { kind, text: string_of(text.as_slice()) })
}

fn line_note(n: usize) -> (r: Vec<char>)
    ensures
        r@ == "     … line "@ + decimal(n as nat),
{
    let mut v = chars_of("     … line ");
    push_all(&mut v, &decimal_of(n as u64));
    v
}

/// Patch line `idx` read: its row, the new file when it names one, and the
/// new counters; `None` when a number would pass `usize::MAX`.
#[verifier::rlimit(40)]
fn patch_step_of(
    lines: &Vec<String>,
    idx: usize,
    file: &Vec<char>,
    add: usize,
    del: usize,
    files: &Vec<(String, String)>,
) -> (r: Option<(Option<PreviewRow>, Option<Vec<char>>, usize, usize)>)
    requires
        idx < lines.len(),
    ensures
        ({
            let lv = strings_view(lines@);
            let fv = files_view(files@);
            let st = (file@, add as nat, del as nat);
            let step = patch_step(lv, idx as int, st, fv);
            match r {
                Some((row, nf, a, d)) => {
                    &&& patch_step_fits(lv, idx as int, st, fv)
                    &&& opt_row_view(row) == step.0
                    &&& step.1 == (
                        match nf {
                            Some(f) => f@,
                            None => file@,
                        },
                        a as nat,
                        d as nat,
                    )
                },
                None => !patch_step_fits(lv, idx as int, st, fv),
            }
        }),
{
    let ghost lv = strings_view(lines@);
    let raw = trim_cr_end_of(&chars_of(lines[idx].as_str()));
    let t = trim_start_chars(&raw);
    proof {
        assert(lv[idx as int] == lines@[idx as int]@);
    }
    if has_prefix_exec(&t, &chars_of("```")) {
        return Some((None, None, add, del));
    }
    if let Some(p) = patch_header_file_of(&t) {
        let mut h = chars_of("  file: ");
        push_all(&mut h, &p);
        return Some((row(PreviewKind::Header, h), Some(p), 0, 0));
    }
    if has_prefix_exec(&t, &chars_of("*** ")) || has_prefix_exec(&t, &chars_of("--- ")) {
        return Some((None, None, add, del));
    }
    if crate::text::eq_str(&t, "@@") {
        match codex_offset_of(lines, idx, file, files) {
            Some(o) => {
                return Some((row(PreviewKind::Note, line_note(o + 1)), None, o, o));
            },
            None => {
                return Some((None, None, add, del));
            },
        }
    }
    if let Some((o, n)) = parse_unified_hunk_starts(string_of(t.as_slice()).as_str()) {
        return Some((row(PreviewKind::Note, line_note(n)), None, n.saturating_sub(1), o.saturating_sub(1)));
    }
    if has_prefix_exec(&t, &chars_of("\\ No newline")) {
        return Some((None, None, add, del));
    }
    patch_code_step(&raw, add, del)
}

/// A `+`, `-` or context line of a patch.
fn patch_code_step(raw: &Vec<char>, add: usize, del: usize) -> (r: Option<(Option<PreviewRow>, Option<Vec<char>>, usize, usize)>)
    ensures
        match r {
            Some((row, nf, a, d)) => nf is None && if raw@.len() > 0 && raw@[0] == '+' {
                &&& add < usize::MAX
                &&& opt_row_view(row) == Some((PreviewKind::Added, numbered((add + 1) as nat, "+ "@, raw@.drop_first())))
                &&& a == add + 1 && d == del
            } else if raw@.len() > 0 && raw@[0] == '-' {
                &&& del < usize::MAX
                &&& opt_row_view(row) == Some((PreviewKind::Removed, numbered((del + 1) as nat, "- "@, raw@.drop_first())))
                &&& a == add && d == del + 1
            } else if raw@.len() > 0 && raw@[0] == ' ' {
                &&& add < usize::MAX && del < usize::MAX
                &&& opt_row_view(row) == Some((PreviewKind::Context, numbered((add + 1) as nat, "  "@, raw@.drop_first())))
                &&& a == add + 1 && d == del + 1
            } else {
                row is None && a == add && d == del
            },
            None => raw@.len() > 0 && (raw@[0] == '+' && add == usize::MAX || raw@[0] == '-' && del == usize::MAX
                || raw@[0] == ' ' && (add == usize::MAX || del == usize::MAX)),
        },
{
    if raw.len() == 0 {
        return Some((None, None, add, del));
    }
    let code = sub_chars(raw, 1, raw.len());
    proof {
        assert(code@ =~= raw@.drop_first());
    }
    if raw[0] == '+' {
        if add == usize::MAX {
            return None;
        }
        Some((Some(PreviewRow { kind: PreviewKind::Added, text: numbered_of(add + 1, "+ ", &code) }), None, add + 1, del))
    } else if raw[0] == '-' {
        if del == usize::MAX {
            return None;
        }
        Some((Some(PreviewRow { kind: PreviewKind::Removed, text: numbered_of(del + 1, "- ", &code) }), None, add, del + 1))
    } else if raw[0] == ' ' {
        if add == usize::MAX || del == usize::MAX {
            return None;
        }
        Some((Some(PreviewRow { kind: PreviewKind::Context, text: numbered_of(add + 1, "  ", &code) }), None, add + 1, del + 1))
    } else {
        Some((None, None, add, del))
    }
}

/// The preview of the patch `patch_text`, reading the files it names from
/// `files` (path and text of each file that could be read); `None` when a
/// line number would pass `usize::MAX`.
#[verifier::spinoff_prover]
#[verifier::rlimit(100)]
pub fn patch_preview(patch_text: &str, files: &Vec<(String, String)>) -> (r: Option<Vec<PreviewRow>>)
    ensures
        match r {
            Some(rows) => patch_fits(patch_text@, files_view(files@)) && rows_view(rows@) == patch_rows(
                patch_text@,
                files_view(files@),
            ),
            None => !patch_fits(patch_text@, files_view(files@)),
        },
{
    let pv = chars_of(patch_text);
    if trim_chars(&pv).len() == 0 {
        let out: Vec<PreviewRow> = Vec::new();
        proof {
            assert(rows_view(out@) =~= Seq::<RowView>::empty());
        }
        return Some(out);
    }
    let lines = strings_of_lines(&lines_of(&pv));
    let ghost lv = strings_view(lines@);
    let ghost fv = files_view(files@);
    let mut out: Vec<PreviewRow> = Vec::new();
    let mut file: Vec<char> = Vec::new();
    let mut add: usize = 0;
    let mut del: usize = 0;
    let mut rendered: usize = 0;
    let mut i: usize = 0;
    proof {
        assert(file@ =~= Seq::<char>::empty());
        assert(rows_view(out@) + patch_rows_from(lv, 0, (file@, 0, 0), 0, fv) =~= patch_rows(patch_text@, fv));
    }
    while i < lines.len() && rendered < PATCH_MAX_ROWS
        invariant
            i <= lines.len(),
            rendered <= i,
            lv == strings_view(lines@),
            lv == text_lines(patch_text@),
            fv == files_view(files@),
            trim(patch_text@).len() != 0,
            rows_view(out@) + patch_rows_from(lv, i as int, (file@, add as nat, del as nat), rendered as nat, fv)
                == patch_rows(patch_text@, fv),
            patch_fits(patch_text@, fv) == patch_fits_from(lv, i as int, (file@, add as nat, del as nat), rendered as nat, fv),
        decreases lines.len() - i,
    {
        let ghost before = rows_view(out@);
        let ghost st = (file@, add as nat, del as nat);
        match patch_step_of(&lines, i, &file, add, del, files) {
            None => {
                return None;
            },
            Some((row, nf, a, d)) => {
                let ghost step = patch_step(lv, i as int, st, fv);
                match row {
                    Some(x) => {
                        out.push(x);
                        rendered = rendered + 1;
                    },
                    None => {},
                }
                match nf {
                    Some(f) => {
                        file = f;
                    },
                    None => {},
                }
                add = a;
                del = d;
                proof {
                    assert(rows_view(out@) =~= before + opt_rows(step.0));
                    assert(before + opt_rows(step.0) + patch_rows_from(lv, i + 1, step.1, rendered as nat, fv)
                        =~= before + (opt_rows(step.0) + patch_rows_from(lv, i + 1, step.1, rendered as nat, fv)));
                }
            },
        }
        i = i + 1;
    }
    if i < lines.len() {
        push_row(&mut out, PreviewKind::Note, note_of(lines.len() - rendered, " more patch lines"));
    }
    proof {
        assert(rows_view(out@) =~= patch_rows(patch_text@, fv));
    }
    Some(out)
}

// ── The preview of a request ────────────────────────────────────────────────

/// The first non-empty string among the arguments under `keys`, in order;
/// empty when there is none.
pub open spec fn arg_str(args: Seq<char>, keys: Seq<Seq<char>>) -> Seq<char>
    decreases keys.len(),
{
    if keys.len() == 0 {
        Seq::empty()
    } else {
        match json_string_field(args, keys[0]) {
            Some(v) => if v.len() > 0 {
                v
            } else {
                arg_str(args, keys.drop_first())
            },
            None => arg_str(args, keys.drop_first()),
        }
    }
}

/// The `path` argument, or `default` when there is no such string.
pub open spec fn path_or(args: Seq<char>, default: Seq<char>) -> Seq<char> {
    match json_string_field(args, "path"@) {
        Some(p) => p,
        None => default,
    }
}

pub open spec fn edit_of(e: (Option<Seq<char>>, Option<Seq<char>>, Option<bool>)) -> (Seq<char>, Seq<char>, bool) {
    (
        match e.0 {
            Some(t) => t,
            None => Seq::empty(),
        },
        match e.1 {
            Some(t) => t,
            None => Seq::empty(),
        },
        match e.2 {
            Some(b) => b,
            None => false,
        },
    )
}

/// The edits of a multi-edit request (a missing text is empty, a missing
/// flag false); none when `edits` holds no array.
pub open spec fn edit_list(args: Seq<char>) -> Seq<(Seq<char>, Seq<char>, bool)> {
    match json_object_list(args, "edits"@, "old_string"@, "new_string"@, "replace_all"@) {
        Some(es) => es.map_values(|e: (Option<Seq<char>>, Option<Seq<char>>, Option<bool>)| edit_of(e)),
        None => Seq::empty(),
    }
}

/// The text of the file that an edit request names, if it could be read.
pub open spec fn edited_file_text(args: Seq<char>, files: Seq<(Seq<char>, Seq<char>)>) -> Option<Seq<char>> {
    match json_string_field(args, "path"@) {
        Some(p) => file_text(files, p),
        None => None,
    }
}

pub open spec fn edit_old_keys() -> Seq<Seq<char>> {
    seq!["from"@, "old_str"@, "old_string"@, "old"@]
}

pub open spec fn edit_new_keys() -> Seq<Seq<char>> {
    seq!["to"@, "new_str"@, "new_string"@, "new"@]
}

/// The preview of a request to run tool `tool` with permission
/// `permission` and JSON arguments `args`, `w` columns wide, with `home`
/// shown as `~` and `files` the texts of the files it names: a patch for
/// `apply_patch`, the edits for `multiedit`, else by the permission (Unicode
/// lower-cased) an edit, a new file, or the command. `None` when a line
/// number would pass `usize::MAX`.
pub open spec fn preview_spec(
    tool: Seq<char>,
    permission: Seq<char>,
    args: Seq<char>,
    w: nat,
    home: Option<Seq<char>>,
    files: Seq<(Seq<char>, Seq<char>)>,
) -> Option<Seq<RowView>> {
    let t = lower_seq(tool);
    let perm = unicode_lowercase(permission);
    if t == "apply_patch"@ {
        let pt = arg_str(args, seq!["patch_text"@, "patch"@]);
        if patch_fits(pt, files) {
            Some(patch_rows(pt, files))
        } else {
            None
        }
    } else if t == "multiedit"@ {
        Some(multiedit_rows(tilde(path_or(args, "<unknown>"@), home), edit_list(args), w))
    } else if perm == "edit"@ {
        let old = arg_str(args, edit_old_keys());
        let new = arg_str(args, edit_new_keys());
        let start = text_start_line(edited_file_text(args, files), old);
        if start + text_lines(old).len() <= usize::MAX && start + text_lines(new).len() <= usize::MAX {
            Some(edit_rows(text_lines(old), text_lines(new), start, w))
        } else {
            None
        }
    } else if perm == "write"@ {
        Some(write_rows(tilde(path_or(args, "new file"@), home), arg_str(args, seq!["contents"@, "content"@, "code"@]), w))
    } else {
        Some(command_rows(arg_str(args, seq!["command"@, "cmd"@])))
    }
}

fn arg_str_of(args: &str, keys: &Vec<&str>) -> (r: Vec<char>)
    ensures
        r@ == arg_str(args@, keys@.map_values(|k: &str| k@)),
{
    let ghost kv = keys@.map_values(|k: &str| k@);
    let mut i: usize = 0;
    proof {
        assert(kv.skip(0) =~= kv);
    }
    while i < keys.len()
        invariant
            i <= keys.len(),
            kv == keys@.map_values(|k: &str| k@),
            arg_str(args@, kv) == arg_str(args@, kv.skip(i as int)),
        decreases keys.len() - i,
    {
        proof {
            assert(kv.skip(i as int)[0] == keys@[i as int]@);
            assert(kv.skip(i as int).drop_first() =~= kv.skip(i as int + 1));
        }
        match json_str_field(args, keys[i]) {
            Some(v) => {
                let c = chars_of(v.as_str());
                if c.len() > 0 {
                    return c;
                }
            },
            None => {},
        }
        i = i + 1;
    }
    proof {
        assert(kv.skip(i as int).len() == 0);
    }
    Vec::new()
}

fn keys2(a: &'static str, b: &'static str) -> (r: Vec<&'static str>)
    ensures
        r@.map_values(|k: &str| k@) == seq![a@, b@],
{
    let mut v: Vec<&'static str> = Vec::new();
    v.push(a);
    v.push(b);
    proof {
        assert(v@.map_values(|k: &str| k@) =~= seq![a@, b@]);
    }
    v
}

fn keys3(a: &'static str, b: &'static str, c: &'static str) -> (r: Vec<&'static str>)
    ensures
        r@.map_values(|k: &str| k@) == seq![a@, b@, c@],
{
    let mut v: Vec<&'static str> = Vec::new();
    v.push(a);
    v.push(b);
    v.push(c);
    proof {
        assert(v@.map_values(|k: &str| k@) =~= seq![a@, b@, c@]);
    }
    v
}

fn keys4(a: &'static str, b: &'static str, c: &'static str, d: &'static str) -> (r: Vec<&'static str>)
    ensures
        r@.map_values(|k: &str| k@) == seq![a@, b@, c@, d@],
{
    let mut v: Vec<&'static str> = Vec::new();
    v.push(a);
    v.push(b);
    v.push(c);
    v.push(d);
    proof {
        assert(v@.map_values(|k: &str| k@) =~= seq![a@, b@, c@, d@]);
    }
    v
}

fn path_or_of(args: &str, default: &str) -> (r: Vec<char>)
    ensures
        r@ == path_or(args@, default@),
{
    match json_str_field(args, "path") {
        Some(p) => chars_of(p.as_str()),
        None => chars_of(default),
    }
}

fn edit_list_of(args: &str) -> (r: Vec<(String, String, bool)>)
    ensures
        edits_view(r@) == edit_list(args@),
{
    let raw = match json_object_list_of(args, "edits", "old_string", "new_string", "replace_all") {
        Some(v) => v,
        None => {
            let out: Vec<(String, String, bool)> = Vec::new();
            proof {
                assert(edits_view(out@) =~= edit_list(args@));
            }
            return out;
        },
    };
    let ghost rv = raw@.map_values(|e: (Option<String>, Option<String>, Option<bool>)| triple_view(e));
    let mut out: Vec<(String, String, bool)> = Vec::new();
    let mut i: usize = 0;
    while i < raw.len()
        invariant
            i <= raw.len(),
            rv == raw@.map_values(|e: (Option<String>, Option<String>, Option<bool>)| triple_view(e)),
            edits_view(out@) == rv.take(i as int).map_values(
                |e: (Option<Seq<char>>, Option<Seq<char>>, Option<bool>)| edit_of(e),
            ),
        decreases raw.len() - i,
    {
        let e = &raw[i];
        let a = match &e.0 {
            Some(t) => string_of(chars_of(t.as_str()).as_slice()),
            None => String::new(),
        };
        let b = match &e.1 {
            Some(t) => string_of(chars_of(t.as_str()).as_slice()),
            None => String::new(),
        };
        let f = match e.2 {
            Some(x) => x,
            None => false,
        };
        let ghost prev = edits_view(out@);
        proof {
            assert(rv[i as int] == triple_view(raw@[i as int]));
            assert((a@, b@, f) == edit_of(rv[i as int]));
        }
        out.push((a, b, f));
        proof {
            assert(edits_view(out@) =~= prev.push((a@, b@, f)));
            assert(rv.take(i + 1) =~= rv.take(i as int).push(rv[i as int]));
            assert(edits_view(out@) =~= rv.take(i + 1).map_values(
                |e: (Option<Seq<char>>, Option<Seq<char>>, Option<bool>)| edit_of(e),
            ));
        }
        i = i + 1;
    }
    proof {
        assert(rv.take(raw.len() as int) =~= rv);
    }
    out
}

fn edit_request_preview(args: &str, width: usize, files: &Vec<(String, String)>) -> (r: Option<Vec<PreviewRow>>)
    ensures
        ({
            let old = arg_str(args@, edit_old_keys());
            let new = arg_str(args@, edit_new_keys());
            let start = text_start_line(edited_file_text(args@, files_view(files@)), old);
            if start + text_lines(old).len() <= usize::MAX && start + text_lines(new).len() <= usize::MAX {
                r matches Some(v) && rows_view(v@) == edit_rows(text_lines(old), text_lines(new), start, width as nat)
            } else {
                r is None
            }
        }),
{
    let old = string_of(arg_str_of(args, &keys4("from", "old_str", "old_string", "old")).as_slice());
    let new = string_of(arg_str_of(args, &keys4("to", "new_str", "new_string", "new")).as_slice());
    let contents = match json_str_field(args, "path") {
        Some(p) => file_text_of(files, &chars_of(p.as_str())),
        None => None,
    };
    let start = find_text_start_line(contents, old.as_str());
    let on = lines_of(&chars_of(old.as_str())).len();
    let nn = lines_of(&chars_of(new.as_str())).len();
    if start > usize::MAX - on || start > usize::MAX - nn {
        return None;
    }
    Some(edit_preview(old.as_str(), new.as_str(), start, width))
}

/// The preview shown above the approval prompt for `req`, `width` columns
/// wide, with `home` shown as `~`; `files` holds the path and text of each
/// file named by the request that could be read (see
/// `preview_files_needed`). `None` when a line number would pass
/// `usize::MAX`.
pub fn approval_preview(
    req: &ToolApprovalRequest,
    width: usize,
    home: Option<&str>,
    files: &Vec<(String, String)>,
) -> (r: Option<Vec<PreviewRow>>)
    ensures
        match preview_spec(req.tool@, req.permission@, req.arguments@, width as nat, opt_view(home), files_view(files@)) {
            Some(rows) => r matches Some(v) && rows_view(v@) == rows,
            None => r is None,
        },
{
    let args = req.arguments.as_str();
    let tool = lower_chars(&chars_of(req.tool.as_str()));
    let perm = chars_of(to_lowercase_of(req.permission.as_str()).as_str());
    if crate::text::eq_str(&tool, "apply_patch") {
        let pt = string_of(arg_str_of(args, &keys2("patch_text", "patch")).as_slice());
        return patch_preview(pt.as_str(), files);
    }
    if crate::text::eq_str(&tool, "multiedit") {
        let p = tilde_path(string_of(path_or_of(args, "<unknown>").as_slice()).as_str(), home);
        return Some(multiedit_preview(p.as_str(), &edit_list_of(args), width));
    }
    if crate::text::eq_str(&perm, "edit") {
        return edit_request_preview(args, width, files);
    }
    if crate::text::eq_str(&perm, "write") {
        let p = tilde_path(string_of(path_or_of(args, "new file").as_slice()).as_str(), home);
        let content = string_of(arg_str_of(args, &keys3("contents", "content", "code")).as_slice());
        return Some(write_preview(p.as_str(), content.as_str(), width));
    }
    let cmd = string_of(arg_str_of(args, &keys2("command", "cmd")).as_slice());
    Some(command_preview(cmd.as_str()))
}

/// The files that the header lines of patch lines `lines` name, in order.
pub open spec fn header_files(lines: Seq<Seq<char>>) -> Seq<Seq<char>>
    decreases lines.len(),
{
    if lines.len() == 0 {
        Seq::empty()
    } else {
        let t = trim_start(trim_cr_end(lines.last()));
        let rest = header_files(lines.drop_last());
        if !has_prefix(t, "```"@) && patch_header_file(t) is Some {
            rest.push(patch_header_file(t)->0)
        } else {
            rest
        }
    }
}

/// The files (relative to the workspace) whose text the preview of a
/// request reads: those a patch names, or the file an edit changes.
pub open spec fn files_needed(tool: Seq<char>, permission: Seq<char>, args: Seq<char>) -> Seq<Seq<char>> {
    let t = lower_seq(tool);
    if t == "apply_patch"@ {
        header_files(text_lines(arg_str(args, seq!["patch_text"@, "patch"@])))
    } else if t == "multiedit"@ {
        Seq::empty()
    } else if unicode_lowercase(permission) == "edit"@ {
        match json_string_field(args, "path"@) {
            Some(p) => seq![p],
            None => Seq::empty(),
        }
    } else {
        Seq::empty()
    }
}

/// The files to read before `approval_preview` is asked for `req`.
pub fn preview_files_needed(req: &ToolApprovalRequest) -> (r: Vec<String>)
    ensures
        strings_view(r@) == files_needed(req.tool@, req.permission@, req.arguments@),
{
    let args = req.arguments.as_str();
    let tool = lower_chars(&chars_of(req.tool.as_str()));
    let mut out: Vec<String> = Vec::new();
    if crate::text::eq_str(&tool, "apply_patch") {
        let pt = arg_str_of(args, &keys2("patch_text", "patch"));
        let ls = lines_of(&pt);
        let ghost lv = ls@.map_values(|l: Vec<char>| l@);
        let mut i: usize = 0;
        while i < ls.len()
            invariant
                i <= ls.len(),
                lv == ls@.map_values(|l: Vec<char>| l@),
                strings_view(out@) == header_files(lv.take(i as int)),
            decreases ls.len() - i,
        {
            let t = trim_start_chars(&trim_cr_end_of(&ls[i]));
            proof {
                assert(lv.take(i + 1).drop_last() =~= lv.take(i as int));
                assert(lv.take(i + 1).last() == ls@[i as int]@);
            }
            if !has_prefix_exec(&t, &chars_of("```")) {
                match patch_header_file_of(&t) {
                    Some(p) => {
                        let ghost prev = strings_view(out@);
                        out.push(string_of(p.as_slice()));
                        proof {
                            assert(strings_view(out@) =~= prev.push(p@));
                        }
                    },
                    None => {},
                }
            }
            i = i + 1;
        }
        proof {
            assert(lv.take(ls.len() as int) =~= lv);
        }
        return out;
    }
    if crate::text::eq_str(&tool, "multiedit") {
        proof {
            assert(strings_view(out@) =~= Seq::<Seq<char>>::empty());
        }
        return out;
    }
    let perm = chars_of(to_lowercase_of(req.permission.as_str()).as_str());
    if crate::text::eq_str(&perm, "edit") {
        match json_str_field(args, "path") {
            Some(p) => {
                out.push(p);
            },
            None => {},
        }
    }
    proof {
        assert(strings_view(out@) =~= files_needed(req.tool@, req.permission@, req.arguments@));
    }
    out
}

// ── What a preview promises ─────────────────────────────────────────────────

/// A new file's preview shows at most 30 of its lines: with the header and
/// the count of the rest, at most 32 rows.
pub proof fn law_write_preview_bounded(path: Seq<char>, content: Seq<char>, w: nat)
    ensures
        write_rows(path, content, w).len() <= 32,
        write_rows(path, content, w).len() <= text_lines(content).len() + 1,
{
}

/// A command's preview is at most one row.
pub proof fn law_command_preview_single_row(cmd: Seq<char>)
    ensures
        command_rows(cmd).len() <= 1,
{
}

proof fn lemma_patch_rows_from_bounded(
    lines: Seq<Seq<char>>,
    idx: int,
    st: PatchState,
    rendered: nat,
    files: Seq<(Seq<char>, Seq<char>)>,
)
    requires
        0 <= idx,
        rendered <= 120,
    ensures
        patch_rows_from(lines, idx, st, rendered, files).len() <= 121 - rendered,
    decreases lines.len() - idx,
{
    if idx < lines.len() && rendered < 120 {
        let (r, st2) = patch_step(lines, idx, st, files);
        lemma_patch_rows_from_bounded(lines, idx + 1, st2, rendered + if r is Some { 1nat } else { 0nat }, files);
    }
}

/// A patch's preview shows at most 120 rows of the patch, and one more
/// saying how many lines are left.
pub proof fn law_patch_preview_bounded(patch: Seq<char>, files: Seq<(Seq<char>, Seq<char>)>)
    ensures
        patch_rows(patch, files).len() <= 121,
{
    if trim(patch).len() != 0 {
        lemma_patch_rows_from_bounded(text_lines(patch), 0, (Seq::empty(), 0, 0), 0, files);
    }
}

proof fn lemma_edit_blocks_bounded(es: Seq<(Seq<char>, Seq<char>, bool)>, n: nat, w: nat)
    ensures
        edit_blocks(es, n, w).len() <= 15 * n,
    decreases n,
{
    if n > 0 {
        lemma_edit_blocks_bounded(es, (n - 1) as nat, w);
    }
}

/// A multi-edit's preview shows at most six edits of at most six lines a
/// side: with the headers and counts, at most 92 rows.
pub proof fn law_multiedit_preview_bounded(path: Seq<char>, es: Seq<(Seq<char>, Seq<char>, bool)>, w: nat)
    ensures
        multiedit_rows(path, es, w).len() <= 92,
{
    lemma_edit_blocks_bounded(es, min_nat(es.len(), 6), w);
}

} // verus!
