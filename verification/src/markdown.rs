//! A small markdown renderer for assistant messages: headings, code fences,
//! bullet and numbered lists, rules, and inline bold, italic and code.
use vstd::prelude::*;
use crate::diff::{strip_leading, strip_leading_of, strip_prefix, strip_prefix_of};
use crate::failure::byte_len_below;
use crate::parse::{lines_of, parse_unsigned, parse_unsigned_of, split_once, split_once_of, text_lines};
use crate::text::{is_ws, lead_ws, trail_ws, byte_len, chars_of, decimal, decimal_of, push_all, string_of, sub_chars, trim, trim_chars, trim_end, trim_end_chars};

verus! {

broadcast use vstd::seq_lib::group_seq_properties;

/// Colours of the theme that the renderer uses.
#[derive(Debug, Clone, Copy, PartialEq, Eq, Structural)]
pub enum Tone {
    /// The terminal's own colour.
    Default,
    Border,
    Text,
    TextDim,
    Accent,
    Muted,
    Success,
    Secondary,
    Warning,
    Error,
    /// Provider labels and informational notes.
    Info,
    /// Token counts.
    Tokens,
}

/// The look of a span: colour and modifiers.
#[derive(Debug, Clone, Copy, PartialEq, Eq, Structural)]
pub struct SpanStyle {
    pub fg: Tone,
    pub bold: bool,
    pub italic: bool,
    pub dim: bool,
}

/// A run of text with one look.
#[derive(Debug)]
pub struct StyledSpan {
    pub style: SpanStyle,
    pub text: String,
}

pub type SpanView = (SpanStyle, Seq<char>);

impl View for StyledSpan {
    type V = SpanView;

    open spec fn view(&self) -> SpanView {
        (self.style, self.text@)
    }
}

pub open spec fn spans_view(v: Seq<StyledSpan>) -> Seq<SpanView> {
    v.map_values(|s: StyledSpan| s@)
}

pub open spec fn plain_style() -> SpanStyle {
    SpanStyle { fg: Tone::Default, bold: false, italic: false, dim: false }
}

pub open spec fn tone(fg: Tone) -> SpanStyle {
    SpanStyle { fg, bold: false, italic: false, dim: false }
}

pub open spec fn code_style() -> SpanStyle {
    SpanStyle { fg: Tone::TextDim, bold: true, italic: false, dim: false }
}

/// `over` laid on `s`: its colour when it has one, and both modifiers.
pub open spec fn patch(s: SpanStyle, over: SpanStyle) -> SpanStyle {
    SpanStyle {
        fg: if over.fg != Tone::Default {
            over.fg
        } else {
            s.fg
        },
        bold: s.bold || over.bold,
        italic: s.italic || over.italic,
        dim: s.dim || over.dim,
    }
}

fn patch_of(s: SpanStyle, over: SpanStyle) -> (r: SpanStyle)
    ensures
        r == patch(s, over),
{
    SpanStyle {
        fg: if over.fg != Tone::Default {
            over.fg
        } else {
            s.fg
        },
        bold: s.bold || over.bold,
        italic: s.italic || over.italic,
        dim: s.dim || over.dim,
    }
}

// ── Inline markup ───────────────────────────────────────────────────────────

/// Index of the first `c` at or after `j`, or the length.
pub open spec fn find_char(s: Seq<char>, j: int, c: char) -> int
    decreases s.len() - j,
{
    if j < 0 || j >= s.len() {
        s.len() as int
    } else if s[j] == c {
        j
    } else {
        find_char(s, j + 1, c)
    }
}

pub proof fn lemma_find_char(s: Seq<char>, j: int, c: char)
    requires
        0 <= j <= s.len(),
    ensures
        j <= find_char(s, j, c) <= s.len(),
        forall|t: int| j <= t < find_char(s, j, c) ==> s[t] != c,
        find_char(s, j, c) < s.len() ==> s[find_char(s, j, c)] == c,
    decreases s.len() - j,
{
    if j < s.len() && s[j] != c {
        lemma_find_char(s, j + 1, c);
    }
}

/// The first position `k`, scanning from `k0`, where `c` follows `c`
/// within the text that starts at `j`.
pub open spec fn double_close(s: Seq<char>, j: int, k0: int, c: char) -> Option<int>
    decreases s.len() - k0,
{
    if k0 < 0 || k0 >= s.len() {
        None
    } else if s[k0] == c && k0 - 1 >= j && s[k0 - 1] == c {
        Some(k0)
    } else {
        double_close(s, j, k0 + 1, c)
    }
}

pub proof fn lemma_double_close(s: Seq<char>, j: int, k0: int, c: char)
    requires
        0 <= k0,
    ensures
        double_close(s, j, k0, c) matches Some(k) ==> k0 <= k < s.len() && k - 1 >= j,
    decreases s.len() - k0,
{
    if 0 <= k0 < s.len() && !(s[k0] == c && k0 - 1 >= j && s[k0 - 1] == c) {
        lemma_double_close(s, j, k0 + 1, c);
    }
}

pub open spec fn flush(buf: Seq<char>, base: SpanStyle) -> Seq<SpanView> {
    if buf.len() == 0 {
        Seq::empty()
    } else {
        seq![(base, buf)]
    }
}

pub open spec fn span_if(style: SpanStyle, t: Seq<char>) -> Seq<SpanView> {
    if t.len() == 0 {
        Seq::empty()
    } else {
        seq![(style, t)]
    }
}

/// The spans of `s` from position `i` on, with `buf` the plain text read
/// but not yet emitted: `` `code` ``; `**bold**` or `__bold__`; `*italic*`
/// or `_italic_`; an unclosed bold or italic marker is kept as text, an
/// unclosed code span runs to the end.
pub open spec fn inline_from(s: Seq<char>, i: int, buf: Seq<char>, base: SpanStyle) -> Seq<SpanView>
    decreases s.len() - i,
{
    if i < 0 || i >= s.len() {
        flush(buf, base)
    } else {
        let c = s[i];
        if c == '`' {
            proof {
                lemma_find_char(s, i + 1, '`');
            }
            let j = find_char(s, i + 1, '`');
            let next = if j < s.len() {
                j + 1
            } else {
                s.len() as int
            };
            flush(buf, base) + span_if(code_style(), s.subrange(i + 1, j)) + inline_from(
                s,
                next,
                Seq::empty(),
                base,
            )
        } else if (c == '*' || c == '_') && i + 1 < s.len() && s[i + 1] == c {
            proof {
                lemma_double_close(s, i + 2, i + 2, c);
            }
            match double_close(s, i + 2, i + 2, c) {
                Some(k) => flush(buf, base) + span_if(
                    SpanStyle { bold: true, ..base },
                    s.subrange(i + 2, k - 1),
                ) + inline_from(s, k + 1, Seq::empty(), base),
                None => flush(buf, base) + seq![(base, seq![c, c] + s.subrange(i + 2, s.len() as int))],
            }
        } else if c == '*' || c == '_' {
            proof {
                lemma_find_char(s, i + 1, c);
            }
            let k = find_char(s, i + 1, c);
            if k < s.len() {
                flush(buf, base) + span_if(SpanStyle { italic: true, ..base }, s.subrange(i + 1, k))
                    + inline_from(s, k + 1, Seq::empty(), base)
            } else {
                flush(buf, base) + seq![(base, seq![c] + s.subrange(i + 1, s.len() as int))]
            }
        } else {
            inline_from(s, i + 1, buf.push(c), base)
        }
    }
}

pub open spec fn inline_spans(s: Seq<char>, base: SpanStyle) -> Seq<SpanView> {
    inline_from(s, 0, Seq::empty(), base)
}

fn find_char_of(v: &Vec<char>, j: usize, c: char) -> (r: usize)
    requires
        j <= v.len(),
    ensures
        r == find_char(v@, j as int, c),
{
    let mut k = j;
    while k < v.len() && v[k] != c
        invariant
            j <= k <= v.len(),
            find_char(v@, k as int, c) == find_char(v@, j as int, c),
        decreases v.len() - k,
    {
        k = k + 1;
    }
    k
}

fn double_close_of(v: &Vec<char>, j: usize, c: char) -> (r: Option<usize>)
    requires
        j <= v.len(),
    ensures
        match double_close(v@, j as int, j as int, c) {
            Some(k) => r == Some(k as usize),
            None => r is None,
        },
{
    let mut k = j;
    while k < v.len()
        invariant
            j <= k <= v.len(),
            double_close(v@, j as int, k as int, c) == double_close(v@, j as int, j as int, c),
        decreases v.len() - k,
    {
        if v[k] == c && k >= j + 1 && v[k - 1] == c {
            return Some(k);
        }
        k = k + 1;
    }
    None
}

fn push_span(out: &mut Vec<StyledSpan>, style: SpanStyle, t: &Vec<char>)
    ensures
        spans_view(final(out)@) == spans_view(old(out)@) + span_if(style, t@),
{
    if t.len() > 0 {
        out.push(StyledSpan { style, text: string_of(t.as_slice()) });
        proof {
            assert(spans_view(out@) =~= spans_view(old(out)@) + span_if(style, t@));
        }
    } else {
        proof {
            assert(spans_view(out@) =~= spans_view(old(out)@) + span_if(style, t@));
        }
    }
}

fn code_style_of() -> (r: SpanStyle)
    ensures
        r == code_style(),
{
    SpanStyle { fg: Tone::TextDim, bold: true, italic: false, dim: false }
}

/// The relation that each step of the inline scanner keeps: the spans
/// emitted plus the spans still to come do not change.
pub open spec fn inline_kept(
    s: Seq<char>,
    base: SpanStyle,
    out0: Seq<SpanView>,
    i0: int,
    buf0: Seq<char>,
    out1: Seq<SpanView>,
    i1: int,
    buf1: Seq<char>,
) -> bool {
    out1 + inline_from(s, i1, buf1, base) == out0 + inline_from(s, i0, buf0, base)
}

fn step_code(s: &Vec<char>, i: usize, base: SpanStyle, out: &mut Vec<StyledSpan>, buf: &mut Vec<char>) -> (r: usize)
    requires
        i < s.len(),
        s@[i as int] == '`',
    ensures
        i < r <= s.len(),
        inline_kept(s@, base, spans_view(old(out)@), i as int, old(buf)@, spans_view(final(out)@), r as int, final(buf)@),
{
    proof {
        lemma_find_char(s@, i + 1, '`');
    }
    let ghost before = spans_view(out@);
    let ghost b0 = buf@;
    let j = find_char_of(s, i + 1, '`');
    push_span(out, base, buf);
    let code = sub_chars(s, i + 1, j);
    push_span(out, code_style_of(), &code);
    *buf = Vec::new();
    let next = if j < s.len() {
        j + 1
    } else {
        s.len()
    };
    proof {
        let rest = inline_from(s@, next as int, Seq::empty(), base);
        assert(buf@ =~= Seq::<char>::empty());
        assert(before + flush(b0, base) + span_if(code_style(), code@) + rest =~= before + (flush(
            b0,
            base,
        ) + span_if(code_style(), code@) + rest));
    }
    next
}

fn step_bold(s: &Vec<char>, i: usize, base: SpanStyle, out: &mut Vec<StyledSpan>, buf: &mut Vec<char>) -> (r: usize)
    requires
        i + 1 < s.len(),
        s@[i as int] == '*' || s@[i as int] == '_',
        s@[i + 1] == s@[i as int],
    ensures
        i < r <= s.len(),
        inline_kept(s@, base, spans_view(old(out)@), i as int, old(buf)@, spans_view(final(out)@), r as int, final(buf)@),
{
    let c = s[i];
    proof {
        lemma_double_close(s@, i + 2, i + 2, c);
    }
    let ghost before = spans_view(out@);
    let ghost b0 = buf@;
    match double_close_of(s, i + 2, c) {
        Some(k) => {
            push_span(out, base, buf);
            let bold = sub_chars(s, i + 2, k - 1);
            push_span(out, SpanStyle { bold: true, ..base }, &bold);
            *buf = Vec::new();
            proof {
                let rest = inline_from(s@, k + 1, Seq::empty(), base);
                assert(buf@ =~= Seq::<char>::empty());
                assert(before + flush(b0, base) + span_if(SpanStyle { bold: true, ..base }, bold@) + rest
                    =~= before + (flush(b0, base) + span_if(SpanStyle { bold: true, ..base }, bold@)
                    + rest));
            }
            k + 1
        },
        None => {
            push_span(out, base, buf);
            let mut lit: Vec<char> = Vec::new();
            lit.push(c);
            lit.push(c);
            push_all(&mut lit, &sub_chars(s, i + 2, s.len()));
            *buf = lit;
            proof {
                assert(buf@ =~= seq![c, c] + s@.subrange(i + 2, s@.len() as int));
                assert(flush(buf@, base) =~= seq![(base, buf@)]);
                assert(before + flush(b0, base) + seq![(base, buf@)] =~= before + (flush(b0, base)
                    + seq![(base, buf@)]));
            }
            s.len()
        },
    }
}

fn step_italic(s: &Vec<char>, i: usize, base: SpanStyle, out: &mut Vec<StyledSpan>, buf: &mut Vec<char>) -> (r: usize)
    requires
        i < s.len(),
        s@[i as int] == '*' || s@[i as int] == '_',
        !(i + 1 < s.len() && s@[i + 1] == s@[i as int]),
    ensures
        i < r <= s.len(),
        inline_kept(s@, base, spans_view(old(out)@), i as int, old(buf)@, spans_view(final(out)@), r as int, final(buf)@),
{
    let c = s[i];
    proof {
        lemma_find_char(s@, i + 1, c);
    }
    let ghost before = spans_view(out@);
    let ghost b0 = buf@;
    let k = find_char_of(s, i + 1, c);
    if k < s.len() {
        push_span(out, base, buf);
        let it = sub_chars(s, i + 1, k);
        push_span(out, SpanStyle { italic: true, ..base }, &it);
        *buf = Vec::new();
        proof {
            let rest = inline_from(s@, k + 1, Seq::empty(), base);
            assert(buf@ =~= Seq::<char>::empty());
            assert(before + flush(b0, base) + span_if(SpanStyle { italic: true, ..base }, it@) + rest
                =~= before + (flush(b0, base) + span_if(SpanStyle { italic: true, ..base }, it@) + rest));
        }
        k + 1
    } else {
        push_span(out, base, buf);
        let mut lit: Vec<char> = Vec::new();
        lit.push(c);
        push_all(&mut lit, &sub_chars(s, i + 1, s.len()));
        *buf = lit;
        proof {
            assert(buf@ =~= seq![c] + s@.subrange(i + 1, s@.len() as int));
            assert(flush(buf@, base) =~= seq![(base, buf@)]);
            assert(before + flush(b0, base) + seq![(base, buf@)] =~= before + (flush(b0, base) + seq![
                (base, buf@),
            ]));
        }
        s.len()
    }
}

/// The spans of inline markup `text`, plain text in style `base`.
pub fn parse_inline_with_base(text: &str, base: SpanStyle) -> (r: Vec<StyledSpan>)
    ensures
        spans_view(r@) == inline_spans(text@, base),
{
    let s = chars_of(text);
    let mut out: Vec<StyledSpan> = Vec::new();
    let mut buf: Vec<char> = Vec::new();
    let mut i: usize = 0;
    proof {
        assert(spans_view(out@) + inline_from(s@, 0, buf@, base) =~= inline_spans(s@, base));
    }
    while i < s.len()
        invariant
            i <= s.len(),
            s@ == text@,
            spans_view(out@) + inline_from(s@, i as int, buf@, base) == inline_spans(s@, base),
        decreases s.len() - i,
    {
        let c = s[i];
        if c == '`' {
            i = step_code(&s, i, base, &mut out, &mut buf);
        } else if (c == '*' || c == '_') && i + 1 < s.len() && s[i + 1] == c {
            i = step_bold(&s, i, base, &mut out, &mut buf);
        } else if c == '*' || c == '_' {
            i = step_italic(&s, i, base, &mut out, &mut buf);
        } else {
            proof {
                assert(inline_from(s@, i as int, buf@, base) == inline_from(s@, i + 1, buf@.push(c), base));
            }
            buf.push(c);
            i = i + 1;
        }
    }
    let ghost before = spans_view(out@);
    push_span(&mut out, base, &buf);
    proof {
        assert(flush(buf@, base) == span_if(base, buf@));
    }
    out
}

/// The spans of inline markup `text`, plain text unstyled.
pub fn parse_inline(text: &str) -> (r: Vec<StyledSpan>)
    ensures
        spans_view(r@) == inline_spans(text@, plain_style()),
{
    parse_inline_with_base(text, SpanStyle { fg: Tone::Default, bold: false, italic: false, dim: false })
}

pub open spec fn bold_style() -> SpanStyle {
    SpanStyle { bold: true, ..plain_style() }
}

/// The spans of inline markup `text`, plain text in bold.
pub fn parse_inline_bold(text: &str) -> (r: Vec<StyledSpan>)
    ensures
        spans_view(r@) == inline_spans(text@, bold_style()),
{
    parse_inline_with_base(text, SpanStyle { fg: Tone::Default, bold: true, italic: false, dim: false })
}

// ── Lists ───────────────────────────────────────────────────────────────────

/// The number of leading spaces of `s`, and the rest.
pub fn leading_spaces(s: &str) -> (r: (usize, String))
    ensures
        r.1@ == strip_leading(s@, ' '),
        r.0 + r.1@.len() == s@.len(),
{
    let v = chars_of(s);
    let rest = strip_leading_of(&v, ' ');
    proof {
        lemma_strip_leading_len(v@, ' ');
    }
    (v.len() - rest.len(), string_of(rest.as_slice()))
}

pub proof fn lemma_strip_leading_len(s: Seq<char>, c: char)
    ensures
        strip_leading(s, c).len() <= s.len(),
        strip_leading(s, c) == s.skip(s.len() - strip_leading(s, c).len()),
    decreases s.len(),
{
    if s.len() > 0 && s[0] == c {
        lemma_strip_leading_len(s.drop_first(), c);
        assert(s.drop_first().skip(s.drop_first().len() - strip_leading(s, c).len()) =~= s.skip(
            s.len() - strip_leading(s, c).len(),
        ));
    } else {
        assert(s.skip(0) =~= s);
    }
}

/// A numbered item `N. text`: the number before the first `". "` (one to
/// four bytes, as `u32` reads it) and the text after it.
pub open spec fn numbered_item(s: Seq<char>) -> Option<(nat, Seq<char>)> {
    match split_once(s, ". "@) {
        Some((num, item)) => if num.len() == 0 || byte_len(num) > 4 {
            None
        } else {
            match parse_unsigned(num, u32::MAX as nat) {
                Some(n) => Some((n, item)),
                None => None,
            }
        },
        None => None,
    }
}

pub fn try_numbered_list(s: &str) -> (r: Option<(u32, String)>)
    ensures
        match numbered_item(s@) {
            Some((n, item)) => r matches Some(x) && x.0 == n && x.1@ == item,
            None => r is None,
        },
{
    let v = chars_of(s);
    match split_once_of(&v, &chars_of(". ")) {
        Some((num, item)) => {
            if num.len() == 0 || !byte_len_below(&num, 5) {
                return None;
            }
            match parse_unsigned_of(&num, u32::MAX as u64) {
                Some(n) => Some((n as u32, string_of(item.as_slice()))),
                None => None,
            }
        },
        None => None,
    }
}

// ── Blocks ──────────────────────────────────────────────────────────────────

/// A rendered line: spans, or a line of a fenced code block (drawn with
/// the block's language highlighting).
#[derive(Debug)]
pub enum MdLine {
    Spans(Vec<StyledSpan>),
    Code { lang: String, text: String },
}

pub enum MdLineSpec {
    Spans(Seq<SpanView>),
    Code(Seq<char>, Seq<char>),
}

impl View for MdLine {
    type V = MdLineSpec;

    open spec fn view(&self) -> MdLineSpec {
        match self {
            MdLine::Spans(v) => MdLineSpec::Spans(spans_view(v@)),
            MdLine::Code { lang, text } => MdLineSpec::Code(lang@, text@),
        }
    }
}

pub open spec fn repeat(c: char, n: nat) -> Seq<char> {
    Seq::new(n, |i: int| c)
}

pub open spec fn rule(n: nat) -> Seq<SpanView> {
    seq![(tone(Tone::Border), repeat('─', n))]
}

pub open spec fn restyle(spans: Seq<SpanView>, style: SpanStyle) -> Seq<SpanView> {
    spans.map_values(|sp: SpanView| (patch(sp.0, style), sp.1))
}

pub open spec fn all_are(s: Seq<char>, c: char) -> bool {
    forall|i: int| 0 <= i < s.len() ==> s[i] == c
}

/// The text of a bullet item (`- `, `* ` or `+ `).
pub open spec fn bullet_item(rest: Seq<char>) -> Option<Seq<char>> {
    match strip_prefix(rest, "- "@) {
        Some(t) => Some(t),
        None => match strip_prefix(rest, "* "@) {
            Some(t) => Some(t),
            None => strip_prefix(rest, "+ "@),
        },
    }
}

pub open spec fn accent_bold() -> SpanStyle {
    SpanStyle { fg: Tone::Accent, bold: true, italic: false, dim: false }
}

/// The spans of a line outside code blocks (trailing whitespace already
/// removed): a rule for three or more `-` or `=`; headings `#`, `##`,
/// `###`; bullet and numbered items (indent kept); a blank line; else a
/// paragraph.
pub open spec fn block_spans(st: Seq<char>) -> Seq<SpanView> {
    let ind = (st.len() - strip_leading(st, ' ').len()) as nat;
    let rest = strip_leading(st, ' ');
    if st.len() >= 3 && (all_are(st, '-') || all_are(st, '=')) {
        rule(if st.len() <= 80 { st.len() } else { 80 })
    } else if strip_prefix(st, "### "@) is Some {
        restyle(inline_spans(strip_prefix(st, "### "@)->0, plain_style()), SpanStyle { fg: Tone::Accent, bold: false, italic: false, dim: true })
    } else if strip_prefix(st, "## "@) is Some {
        restyle(inline_spans(strip_prefix(st, "## "@)->0, plain_style()), accent_bold())
    } else if strip_prefix(st, "# "@) is Some {
        restyle(inline_spans(strip_prefix(st, "# "@)->0, SpanStyle { bold: true, ..plain_style() }), accent_bold())
    } else if bullet_item(rest) is Some {
        seq![(plain_style(), repeat(' ', ind)), (tone(Tone::Accent), "• "@)] + inline_spans(
            bullet_item(rest)->0,
            plain_style(),
        )
    } else if numbered_item(rest) is Some {
        seq![(plain_style(), repeat(' ', ind)), (accent_bold(), decimal((numbered_item(rest)->0).0) + ". "@)]
            + inline_spans((numbered_item(rest)->0).1, plain_style())
    } else if st.len() == 0 {
        seq![(plain_style(), Seq::<char>::empty())]
    } else {
        inline_spans(st, plain_style())
    }
}

/// One source line rendered, with the code-block state after it.
pub open spec fn md_step(raw: Seq<char>, in_code: bool, lang: Seq<char>) -> (MdLineSpec, bool, Seq<char>) {
    let st = trim_end(raw);
    match strip_prefix(st, "```"@) {
        Some(fence) => if in_code {
            (MdLineSpec::Spans(rule(40)), false, Seq::empty())
        } else {
            let l = trim(fence);
            (
                MdLineSpec::Spans(
                    seq![
                        (tone(Tone::Border), "─── "@),
                        (SpanStyle { fg: Tone::Text, bold: true, italic: false, dim: false }, if l.len() == 0 { "code"@ } else { l }),
                        (tone(Tone::Border), " ───"@),
                    ],
                ),
                true,
                l,
            )
        },
        None => if in_code {
            (MdLineSpec::Code(lang, st), true, lang)
        } else {
            (MdLineSpec::Spans(block_spans(st)), false, lang)
        },
    }
}

/// The rendering of lines `ls` from `i` on, in the given code-block state;
/// an unclosed code block is closed with a rule.
pub open spec fn md_from(ls: Seq<Seq<char>>, i: int, in_code: bool, lang: Seq<char>) -> Seq<MdLineSpec>
    decreases ls.len() - i,
{
    if i < 0 || i >= ls.len() {
        if in_code {
            seq![MdLineSpec::Spans(rule(40))]
        } else {
            Seq::empty()
        }
    } else {
        let step = md_step(ls[i], in_code, lang);
        seq![step.0] + md_from(ls, i + 1, step.1, step.2)
    }
}

pub open spec fn markdown_lines(text: Seq<char>) -> Seq<MdLineSpec> {
    md_from(text_lines(text), 0, false, Seq::empty())
}

fn repeat_of(c: char, n: usize) -> (r: Vec<char>)
    ensures
        r@ == repeat(c, n as nat),
{
    let mut v: Vec<char> = Vec::new();
    let mut i: usize = 0;
    while i < n
        invariant
            i <= n,
            v@ == repeat(c, i as nat),
        decreases n - i,
    {
        v.push(c);
        proof {
            assert(v@ =~= repeat(c, (i + 1) as nat));
        }
        i = i + 1;
    }
    v
}

fn span(style: SpanStyle, t: Vec<char>) -> (r: StyledSpan)
    ensures
        r@ == (style, t@),
{
    StyledSpan { style, text: string_of(t.as_slice()) }
}

fn rule_of(n: usize) -> (r: Vec<StyledSpan>)
    ensures
        spans_view(r@) == rule(n as nat),
{
    let mut v: Vec<StyledSpan> = Vec::new();
    v.push(span(SpanStyle { fg: Tone::Border, bold: false, italic: false, dim: false }, repeat_of('─', n)));
    proof {
        assert(spans_view(v@) =~= rule(n as nat));
    }
    v
}

fn restyle_of(spans: Vec<StyledSpan>, style: SpanStyle) -> (r: Vec<StyledSpan>)
    ensures
        spans_view(r@) == restyle(spans_view(spans@), style),
{
    let mut out: Vec<StyledSpan> = Vec::new();
    let mut rest = spans;
    let ghost all = spans_view(rest@);
    let mut i: usize = 0;
    proof {
        assert(all.skip(0) =~= all);
        assert(all.len() == rest.len());
    }
    while rest.len() > 0
        invariant
            all.len() <= usize::MAX,
            i + rest.len() == all.len(),
            spans_view(rest@) == all.skip(i as int),
            spans_view(out@) == restyle(all.take(i as int), style),
        decreases rest.len(),
    {
        let ghost before = rest@;
        let sp = rest.remove(0);
        proof {
            assert(spans_view(before)[0] == sp@);
            assert(all.skip(i as int)[0] == all[i as int]);
            assert(spans_view(rest@) =~= spans_view(before).drop_first());
            assert(all.skip(i as int).drop_first() =~= all.skip(i + 1));
        }
        let st = patch_of(sp.style, style);
        let ghost ob = spans_view(out@);
        out.push(StyledSpan { style: st, text: sp.text });
        proof {
            assert(spans_view(out@) =~= ob.push((patch(all[i as int].0, style), all[i as int].1)));
            assert(restyle(all.take(i + 1), style) =~= restyle(all.take(i as int), style).push(
                (patch(all[i as int].0, style), all[i as int].1),
            ));
        }
        i = i + 1;
    }
    proof {
        assert(all.take(i as int) =~= all);
    }
    out
}

fn all_are_of(v: &Vec<char>, c: char) -> (r: bool)
    ensures
        r == all_are(v@, c),
{
    let mut i: usize = 0;
    while i < v.len()
        invariant
            i <= v.len(),
            forall|j: int| 0 <= j < i ==> v@[j] == c,
        decreases v.len() - i,
    {
        if v[i] != c {
            return false;
        }
        i = i + 1;
    }
    true
}

fn bullet_item_of(rest: &Vec<char>) -> (r: Option<Vec<char>>)
    ensures
        match bullet_item(rest@) {
            Some(t) => r matches Some(x) && x@ == t,
            None => r is None,
        },
{
    match strip_prefix_of(rest, "- ") {
        Some(t) => Some(t),
        None => match strip_prefix_of(rest, "* ") {
            Some(t) => Some(t),
            None => strip_prefix_of(rest, "+ "),
        },
    }
}

fn append_spans(out: &mut Vec<StyledSpan>, more: Vec<StyledSpan>)
    ensures
        spans_view(final(out)@) == spans_view(old(out)@) + spans_view(more@),
{
    let mut rest = more;
    let ghost all = spans_view(rest@);
    let ghost start = spans_view(out@);
    let mut i: usize = 0;
    proof {
        assert(all.skip(0) =~= all);
        assert(all.len() == rest.len());
    }
    while rest.len() > 0
        invariant
            all.len() <= usize::MAX,
            i + rest.len() == all.len(),
            spans_view(rest@) == all.skip(i as int),
            spans_view(out@) == start + all.take(i as int),
        decreases rest.len(),
    {
        let ghost before = rest@;
        let sp = rest.remove(0);
        proof {
            assert(spans_view(before)[0] == sp@);
            assert(all.skip(i as int)[0] == all[i as int]);
            assert(spans_view(rest@) =~= spans_view(before).drop_first());
            assert(all.skip(i as int).drop_first() =~= all.skip(i + 1));
        }
        let ghost ob = spans_view(out@);
        out.push(sp);
        proof {
            assert(spans_view(out@) =~= ob.push(all[i as int]));
            assert(all.take(i + 1) =~= all.take(i as int).push(all[i as int]));
        }
        i = i + 1;
    }
    proof {
        assert(all.take(i as int) =~= all);
    }
}

fn plain_of() -> (r: SpanStyle)
    ensures
        r == plain_style(),
{
    SpanStyle { fg: Tone::Default, bold: false, italic: false, dim: false }
}

fn heading_of(st: &Vec<char>) -> (r: Option<Vec<StyledSpan>>)
    ensures
        !(st@.len() >= 3 && (all_are(st@, '-') || all_are(st@, '='))) ==> match r {
            Some(v) => spans_view(v@) == block_spans(st@),
            None => strip_prefix(st@, "### "@) is None && strip_prefix(st@, "## "@) is None
                && strip_prefix(st@, "# "@) is None,
        },
{
    if st.len() >= 3 && (all_are_of(st, '-') || all_are_of(st, '=')) {
        return None;
    }
    let plain = plain_of();
    if let Some(r) = strip_prefix_of(st, "### ") {
        let spans = parse_inline_with_base(string_of(r.as_slice()).as_str(), plain);
        return Some(restyle_of(spans, SpanStyle { fg: Tone::Accent, bold: false, italic: false, dim: true }));
    }
    if let Some(r) = strip_prefix_of(st, "## ") {
        let spans = parse_inline_with_base(string_of(r.as_slice()).as_str(), plain);
        return Some(restyle_of(spans, SpanStyle { fg: Tone::Accent, bold: true, italic: false, dim: false }));
    }
    if let Some(r) = strip_prefix_of(st, "# ") {
        let spans = parse_inline_with_base(string_of(r.as_slice()).as_str(), SpanStyle { bold: true, ..plain });
        return Some(restyle_of(spans, SpanStyle { fg: Tone::Accent, bold: true, italic: false, dim: false }));
    }
    None
}

#[verifier::rlimit(40)]
fn block_spans_of(st: &Vec<char>) -> (r: Vec<StyledSpan>)
    ensures
        spans_view(r@) == block_spans(st@),
{
    if st.len() >= 3 && (all_are_of(st, '-') || all_are_of(st, '=')) {
        let n = if st.len() <= 80 {
            st.len()
        } else {
            80
        };
        return rule_of(n);
    }
    if let Some(h) = heading_of(st) {
        return h;
    }
    let plain = plain_of();
    let rest = strip_leading_of(st, ' ');
    proof {
        lemma_strip_leading_len(st@, ' ');
    }
    let ind = st.len() - rest.len();
    if let Some(item) = bullet_item_of(&rest) {
        let mut out: Vec<StyledSpan> = Vec::new();
        out.push(span(plain, repeat_of(' ', ind)));
        out.push(span(SpanStyle { fg: Tone::Accent, bold: false, italic: false, dim: false }, chars_of("• ")));
        let ghost head = spans_view(out@);
        append_spans(&mut out, parse_inline_with_base(string_of(item.as_slice()).as_str(), plain));
        proof {
            assert(head =~= seq![(plain_style(), repeat(' ', ind as nat)), (tone(Tone::Accent), "• "@)]);
        }
        return out;
    }
    if let Some((n, item)) = try_numbered_list(string_of(rest.as_slice()).as_str()) {
        let mut out: Vec<StyledSpan> = Vec::new();
        out.push(span(plain, repeat_of(' ', ind)));
        let mut label = decimal_of(n as u64);
        push_all(&mut label, &chars_of(". "));
        out.push(span(SpanStyle { fg: Tone::Accent, bold: true, italic: false, dim: false }, label));
        let ghost head = spans_view(out@);
        append_spans(&mut out, parse_inline_with_base(item.as_str(), plain));
        proof {
            assert(head =~= seq![
                (plain_style(), repeat(' ', ind as nat)),
                (accent_bold(), decimal((numbered_item(rest@)->0).0) + ". "@),
            ]);
        }
        return out;
    }
    if st.len() == 0 {
        let mut out: Vec<StyledSpan> = Vec::new();
        out.push(span(plain, Vec::new()));
        proof {
            assert(spans_view(out@) =~= seq![(plain_style(), Seq::<char>::empty())]);
        }
        return out;
    }
    parse_inline_with_base(string_of(st.as_slice()).as_str(), plain)
}

fn md_step_of(raw: &Vec<char>, in_code: bool, lang: &Vec<char>) -> (r: (MdLine, bool, Vec<char>))
    ensures
        (r.0@, r.1, r.2@) == md_step(raw@, in_code, lang@),
{
    let st = trim_end_chars(raw);
    match strip_prefix_of(&st, "```") {
        Some(fence) => if in_code {
            (MdLine::Spans(rule_of(40)), false, Vec::new())
        } else {
            let l = trim_chars(&fence);
            let label = if l.len() == 0 {
                chars_of("code")
            } else {
                sub_chars(&l, 0, l.len())
            };
            let mut v: Vec<StyledSpan> = Vec::new();
            v.push(span(SpanStyle { fg: Tone::Border, bold: false, italic: false, dim: false }, chars_of("─── ")));
            v.push(span(SpanStyle { fg: Tone::Text, bold: true, italic: false, dim: false }, label));
            v.push(span(SpanStyle { fg: Tone::Border, bold: false, italic: false, dim: false }, chars_of(" ───")));
            proof {
                assert(l@.subrange(0, l@.len() as int) =~= l@);
                assert(spans_view(v@) =~= seq![
                    (tone(Tone::Border), "─── "@),
                    (SpanStyle { fg: Tone::Text, bold: true, italic: false, dim: false }, if l@.len() == 0 { "code"@ } else { l@ }),
                    (tone(Tone::Border), " ───"@),
                ]);
            }
            (MdLine::Spans(v), true, l)
        },
        None => if in_code {
            (
                MdLine::Code {
                    lang: string_of(lang.as_slice()),
                    text: string_of(st.as_slice()),
                },
                true,
                sub_chars(lang, 0, lang.len()),
            )
        } else {
            (MdLine::Spans(block_spans_of(&st)), false, sub_chars(lang, 0, lang.len()))
        },
    }
}

pub open spec fn md_view(v: Seq<MdLine>) -> Seq<MdLineSpec> {
    v.map_values(|l: MdLine| l@)
}

/// Renders the markdown `text` line by line.
pub fn render_markdown(text: &str) -> (r: Vec<MdLine>)
    ensures
        md_view(r@) == markdown_lines(text@),
{
    let ls = lines_of(&chars_of(text));
    let ghost lv = ls@.map_values(|l: Vec<char>| l@);
    let mut out: Vec<MdLine> = Vec::new();
    let mut in_code = false;
    let mut lang: Vec<char> = Vec::new();
    let mut i: usize = 0;
    proof {
        assert(md_view(out@) + md_from(lv, 0, false, lang@) =~= markdown_lines(text@));
    }
    while i < ls.len()
        invariant
            i <= ls.len(),
            lv == ls@.map_values(|l: Vec<char>| l@),
            lv == text_lines(text@),
            md_view(out@) + md_from(lv, i as int, in_code, lang@) == markdown_lines(text@),
        decreases ls.len() - i,
    {
        proof {
            assert(lv[i as int] == ls@[i as int]@);
        }
        let (line, next_code, next_lang) = md_step_of(&ls[i], in_code, &lang);
        let ghost ob = md_view(out@);
        out.push(line);
        proof {
            let step = md_step(lv[i as int], in_code, lang@);
            assert(md_view(out@) =~= ob.push(step.0));
            assert(ob.push(step.0) + md_from(lv, i + 1, step.1, step.2) =~= ob + (seq![step.0] + md_from(
                lv,
                i + 1,
                step.1,
                step.2,
            )));
        }
        in_code = next_code;
        lang = next_lang;
        i = i + 1;
    }
    if in_code {
        let ghost ob = md_view(out@);
        out.push(MdLine::Spans(rule_of(40)));
        proof {
            assert(md_view(out@) =~= ob + seq![MdLineSpec::Spans(rule(40))]);
        }
    } else {
        proof {
            assert(md_view(out@) + Seq::<MdLineSpec>::empty() =~= md_view(out@));
        }
    }
    out
}


proof fn lemma_strip_spaces(ind: nat, rest: Seq<char>)
    requires
        rest.len() > 0,
        rest[0] != ' ',
    ensures
        strip_leading(repeat(' ', ind) + rest, ' ') == rest,
    decreases ind,
{
    let s = repeat(' ', ind) + rest;
    if ind == 0 {
        assert(s =~= rest);
    } else {
        assert(s[0] == ' ');
        assert(s.drop_first() =~= repeat(' ', (ind - 1) as nat) + rest);
        lemma_strip_spaces((ind - 1) as nat, rest);
    }
}

/// No prefix starting with a character other than `s[0]` is a prefix of `s`.
proof fn lemma_no_prefix(s: Seq<char>, p: Seq<char>)
    requires
        s.len() > 0,
        p.len() > 0,
        p[0] != s[0],
    ensures
        strip_prefix(s, p) is None,
{
    if p.len() <= s.len() {
        assert(s.take(p.len() as int)[0] == s[0]);
    }
}

proof fn lemma_bullet_of(marker: char, t: Seq<char>)
    requires
        marker == '-' || marker == '*' || marker == '+',
    ensures
        bullet_item(seq![marker, ' '] + t) == Some(t),
{
    reveal_strlit("- ");
    reveal_strlit("* ");
    reveal_strlit("+ ");
    let rest = seq![marker, ' '] + t;
    assert(rest.take(2) =~= seq![marker, ' ']);
    assert(rest.skip(2) =~= t);
    if marker == '-' {
        assert(seq![marker, ' '] =~= "- "@);
    } else if marker == '*' {
        lemma_no_prefix(rest, "- "@);
        assert(seq![marker, ' '] =~= "* "@);
    } else {
        lemma_no_prefix(rest, "- "@);
        lemma_no_prefix(rest, "* "@);
        assert(seq![marker, ' '] =~= "+ "@);
    }
}

proof fn lemma_block_bullet(ind: nat, marker: char, t: Seq<char>)
    requires
        marker == '-' || marker == '*' || marker == '+',
    ensures
        block_spans(repeat(' ', ind) + seq![marker, ' '] + t)
            == seq![(plain_style(), repeat(' ', ind)), (tone(Tone::Accent), "• "@)] + inline_spans(t, plain_style()),
{
    let rest = seq![marker, ' '] + t;
    let st = repeat(' ', ind) + rest;
    assert(st =~= repeat(' ', ind) + seq![marker, ' '] + t);
    assert(st[ind as int] == marker);
    assert(st[ind as int + 1] == ' ');
    assert(!all_are(st, '-')) by {
        assert(st[ind as int + 1] != '-');
    }
    assert(!all_are(st, '=')) by {
        assert(st[ind as int + 1] != '=');
    }
    assert(st[0] == ' ' || st[0] == marker);
    reveal_strlit("### ");
    reveal_strlit("## ");
    reveal_strlit("# ");
    lemma_no_prefix(st, "### "@);
    lemma_no_prefix(st, "## "@);
    lemma_no_prefix(st, "# "@);
    lemma_strip_spaces(ind, rest);
    assert(st.len() - rest.len() == ind);
    lemma_bullet_of(marker, t);
}

/// A line outside a code block that starts (after any indent) with `- `,
/// `* ` or `+ ` renders as a bullet item: the indent, an accent `• `, then
/// the inline spans of the text after the marker.
pub proof fn law_bullet_line(ind: nat, marker: char, t: Seq<char>, lang: Seq<char>)
    requires
        marker == '-' || marker == '*' || marker == '+',
        t.len() > 0,
        !is_ws(t.last()),
    ensures
        md_step(repeat(' ', ind) + seq![marker, ' '] + t, false, lang) == (
            MdLineSpec::Spans(
                seq![(plain_style(), repeat(' ', ind)), (tone(Tone::Accent), "• "@)] + inline_spans(t, plain_style()),
            ),
            false,
            lang,
        ),
{
    let st = repeat(' ', ind) + seq![marker, ' '] + t;
    assert(st.last() == t.last());
    assert(trail_ws(st) == 0);
    assert(st.take(st.len() as int) =~= st);
    assert(trim_end(st) == st);
    assert(st[0] == ' ' || st[0] == marker);
    reveal_strlit("```");
    lemma_no_prefix(st, "```"@);
    lemma_block_bullet(ind, marker, t);
}

} // verus!
