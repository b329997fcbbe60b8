//! The titles of the chat screen: the transcript's (brand, token counts,
//! the find status) and the composer's (model, provider, length).
use vstd::prelude::*;
use crate::diff::GitStat;
use crate::format::{ellipsize, format_tokens, group_thousands, truncate_with_ellipsis};
use crate::markdown::{SpanStyle, SpanView, StyledSpan, Tone, spans_view};
use crate::text::{chars_of, decimal, decimal_of, push_all, string_of, trim, trim_chars};

verus! {

pub open spec fn look(fg: Tone, bold: bool, dim: bool) -> SpanStyle {
    SpanStyle { fg, bold, italic: false, dim }
}

pub open spec fn gap() -> SpanView {
    (look(Tone::Default, false, false), "  "@)
}

/// The model shown: the session's own, unless it is blank.
pub open spec fn shown_model(session_model: Seq<char>, default_model: Seq<char>) -> Seq<char> {
    if trim(session_model).len() == 0 {
        default_model
    } else {
        session_model
    }
}

/// The composer's title for a terminal `term_w` columns wide: `</>`, the
/// model in brackets (16 characters at most below 30 columns, else 36),
/// the provider in brackets (18 at most, and none below 25 columns), and
/// the composer's length in characters when it holds any.
pub open spec fn composer_title_spans(
    session_model: Seq<char>,
    default_model: Seq<char>,
    provider: Option<Seq<char>>,
    composer: Seq<char>,
    term_w: nat,
) -> Seq<SpanView> {
    let model_max: nat = if term_w < 30 { 16 } else { 36 };
    let head = seq![
        (look(Tone::Default, true, false), "</>"@),
        gap(),
        (look(Tone::Success, true, false), "[model:"@ + ellipsize(shown_model(session_model, default_model), model_max) + "]"@),
    ];
    let with_provider = match provider {
        Some(p) => if term_w >= 25 {
            head + seq![gap(), (look(Tone::Info, true, false), "["@ + ellipsize(p, 18) + "]"@)]
        } else {
            head
        },
        None => head,
    };
    if composer.len() > 0 {
        with_provider + seq![gap(), (look(Tone::Muted, false, true), "["@ + decimal(composer.len()) + "c]"@)]
    } else {
        with_provider
    }
}

fn span(style: SpanStyle, text: String) -> (r: StyledSpan)
    ensures
        r@ == (style, text@),
{
    StyledSpan { style, text }
}

fn gap_span() -> (r: StyledSpan)
    ensures
        r@ == gap(),
{
    span(SpanStyle { fg: Tone::Default, bold: false, italic: false, dim: false }, "  ".to_owned())
}

fn bracketed(open: &str, inner: &Vec<char>, close: &str) -> (r: String)
    ensures
        r@ == open@ + inner@ + close@,
{
    let mut v = chars_of(open);
    push_all(&mut v, inner);
    let c = chars_of(close);
    push_all(&mut v, &c);
    string_of(v.as_slice())
}

/// The spans of the composer's title.
pub fn composer_title(
    session_model: &str,
    default_model: &str,
    provider: Option<&str>,
    composer: &str,
    term_w: u16,
) -> (r: Vec<StyledSpan>)
    ensures
        spans_view(r@) == composer_title_spans(
            session_model@,
            default_model@,
            match provider {
                Some(p) => Some(p@),
                None => None,
            },
            composer@,
            term_w as nat,
        ),
{
    let sm = chars_of(session_model);
    let model = if trim_chars(&sm).len() == 0 { default_model } else { session_model };
    let model_max: usize = if term_w < 30 { 16 } else { 36 };
    let shown = chars_of(truncate_with_ellipsis(model, model_max).as_str());
    let mut out: Vec<StyledSpan> = Vec::new();
    out.push(span(SpanStyle { fg: Tone::Default, bold: true, italic: false, dim: false }, "</>".to_owned()));
    out.push(gap_span());
    out.push(span(SpanStyle { fg: Tone::Success, bold: true, italic: false, dim: false }, bracketed("[model:", &shown, "]")));
    let ghost pv: Option<Seq<char>> = match provider {
        Some(p) => Some(p@),
        None => None,
    };
    proof {
        assert(spans_view(out@) =~= seq![
            (look(Tone::Default, true, false), "</>"@),
            gap(),
            (look(Tone::Success, true, false), "[model:"@ + ellipsize(shown_model(session_model@, default_model@), model_max as nat) + "]"@),
        ]);
    }
    let ghost head = spans_view(out@);
    match provider {
        Some(p) => {
            if term_w >= 25 {
                let pc = chars_of(truncate_with_ellipsis(p, 18).as_str());
                out.push(gap_span());
                out.push(span(SpanStyle { fg: Tone::Info, bold: true, italic: false, dim: false }, bracketed("[", &pc, "]")));
                proof {
                    assert(spans_view(out@) =~= head + seq![gap(), (look(Tone::Info, true, false), "["@ + ellipsize(p@, 18) + "]"@)]);
                }
            }
        },
        None => {},
    }
    let ghost mid = spans_view(out@);
    let cv = chars_of(composer);
    if cv.len() > 0 {
        let n = decimal_of(cv.len() as u64);
        out.push(gap_span());
        out.push(span(SpanStyle { fg: Tone::Muted, bold: false, italic: false, dim: true }, bracketed("[", &n, "c]")));
        proof {
            assert(spans_view(out@) =~= mid + seq![gap(), (look(Tone::Muted, false, true), "["@ + decimal(composer@.len()) + "c]"@)]);
        }
    }
    out
}

/// The start of the transcript's title: the brand, then the total token
/// count when there is one.
pub open spec fn transcript_title_head(total_tokens: nat) -> Seq<SpanView> {
    let brand = seq![(look(Tone::Secondary, true, false), "RustCode"@)];
    if total_tokens > 0 {
        brand + seq![gap(), (look(Tone::Tokens, false, false), group_thousands(decimal(total_tokens)) + " tokens"@)]
    } else {
        brand
    }
}

/// `current + 1`, stopping at `usize::MAX`.
pub open spec fn position(current: nat) -> nat {
    if current < usize::MAX {
        current + 1
    } else {
        current
    }
}

/// The end of the transcript's title: the cached token count when there is
/// one, then `find: <query> (<current + 1>/<matches>)` while a find with a
/// non-blank query is open (the position stops at `usize::MAX`).
pub open spec fn transcript_title_tail(cache_read: nat, find: Option<(Seq<char>, nat, nat)>) -> Seq<SpanView> {
    let cached = if cache_read > 0 {
        seq![gap(), (look(Tone::Muted, false, false), group_thousands(decimal(cache_read)) + " cached"@)]
    } else {
        Seq::empty()
    };
    match find {
        Some((q, current, matches)) => if trim(q).len() > 0 {
            cached + seq![
                gap(),
                (look(Tone::Default, false, true), "find: "@ + q + " ("@ + decimal(position(current)) + "/"@ + decimal(matches) + ")"@),
            ]
        } else {
            cached
        },
        None => cached,
    }
}

fn with_suffix(head: String, suffix: &str) -> (r: String)
    ensures
        r@ == head@ + suffix@,
{
    let mut v = chars_of(head.as_str());
    let s = chars_of(suffix);
    push_all(&mut v, &s);
    string_of(v.as_slice())
}

/// The two ends of the transcript's title; the share of the context
/// window in use, a percentage, goes between them.
pub fn transcript_title(total_tokens: u64, cache_read: u64, find: Option<(&str, usize, usize)>) -> (r: (
    Vec<StyledSpan>,
    Vec<StyledSpan>,
))
    ensures
        spans_view(r.0@) == transcript_title_head(total_tokens as nat),
        spans_view(r.1@) == transcript_title_tail(
            cache_read as nat,
            match find {
                Some((q, c, m)) => Some((q@, c as nat, m as nat)),
                None => None,
            },
        ),
{
    let mut head: Vec<StyledSpan> = Vec::new();
    head.push(span(SpanStyle { fg: Tone::Secondary, bold: true, italic: false, dim: false }, "RustCode".to_owned()));
    if total_tokens > 0 {
        head.push(gap_span());
        head.push(span(SpanStyle { fg: Tone::Tokens, bold: false, italic: false, dim: false }, with_suffix(format_tokens(total_tokens), " tokens")));
    }
    proof {
        assert(spans_view(head@) =~= transcript_title_head(total_tokens as nat));
    }
    let mut tail: Vec<StyledSpan> = Vec::new();
    if cache_read > 0 {
        tail.push(gap_span());
        tail.push(span(SpanStyle { fg: Tone::Muted, bold: false, italic: false, dim: false }, with_suffix(format_tokens(cache_read), " cached")));
    }
    let ghost cached = spans_view(tail@);
    proof {
        assert(cached =~= transcript_title_tail(cache_read as nat, None));
    }
    match find {
        Some((q, current, matches)) => {
            let qv = chars_of(q);
            if trim_chars(&qv).len() > 0 {
                let mut v = chars_of("find: ");
                push_all(&mut v, &qv);
                let open = chars_of(" (");
                push_all(&mut v, &open);
                let a = decimal_of(current.saturating_add(1) as u64);
                push_all(&mut v, &a);
                let slash = chars_of("/");
                push_all(&mut v, &slash);
                let b = decimal_of(matches as u64);
                push_all(&mut v, &b);
                let close = chars_of(")");
                push_all(&mut v, &close);
                tail.push(gap_span());
                tail.push(span(SpanStyle { fg: Tone::Default, bold: false, italic: false, dim: true }, string_of(v.as_slice())));
                proof {
                    assert(spans_view(tail@) =~= cached + seq![
                        gap(),
                        (look(Tone::Default, false, true), "find: "@ + q@ + " ("@ + decimal(position(current as nat)) + "/"@ + decimal(matches as nat) + ")"@),
                    ]);
                }
            }
        },
        None => {},
    }
    (head, tail)
}


/// The right-hand title of the composer for a working tree with changes:
/// `<files> files`, then `+<insertions>` and `-<deletions>` where they are
/// not zero, then a space of padding; nothing when no file changed.
pub open spec fn git_title_spans(files: nat, insertions: nat, deletions: nat) -> Seq<SpanView> {
    if files == 0 {
        Seq::empty()
    } else {
        let head = seq![(look(Tone::Muted, false, false), decimal(files) + " files"@)];
        let with_ins = if insertions > 0 {
            head + seq![(look(Tone::Default, false, false), " "@), (look(Tone::Success, false, false), "+"@ + decimal(insertions))]
        } else {
            head
        };
        let with_del = if deletions > 0 {
            with_ins + seq![(look(Tone::Default, false, false), " "@), (look(Tone::Error, false, false), "-"@ + decimal(deletions))]
        } else {
            with_ins
        };
        with_del.push((look(Tone::Default, false, false), " "@))
    }
}

fn space_span() -> (r: StyledSpan)
    ensures
        r@ == (look(Tone::Default, false, false), " "@),
{
    span(SpanStyle { fg: Tone::Default, bold: false, italic: false, dim: false }, " ".to_owned())
}

/// The spans of the composer's right-hand title for `stat`.
pub fn git_title(stat: &GitStat) -> (r: Vec<StyledSpan>)
    ensures
        spans_view(r@) == git_title_spans(stat.files as nat, stat.insertions as nat, stat.deletions as nat),
{
    let mut out: Vec<StyledSpan> = Vec::new();
    if stat.files == 0 {
        proof {
            assert(spans_view(out@) =~= Seq::<SpanView>::empty());
        }
        return out;
    }
    proof {
        reveal_strlit("");
    }
    let f = decimal_of(stat.files as u64);
    out.push(span(SpanStyle { fg: Tone::Muted, bold: false, italic: false, dim: false }, bracketed("", &f, " files")));
    proof {
        assert(spans_view(out@) =~= seq![(look(Tone::Muted, false, false), decimal(stat.files as nat) + " files"@)]);
    }
    let ghost head = spans_view(out@);
    if stat.insertions > 0 {
        let n = decimal_of(stat.insertions as u64);
        out.push(space_span());
        out.push(span(SpanStyle { fg: Tone::Success, bold: false, italic: false, dim: false }, bracketed("+", &n, "")));
        proof {
            assert(spans_view(out@) =~= head + seq![(look(Tone::Default, false, false), " "@), (look(Tone::Success, false, false), "+"@ + decimal(stat.insertions as nat))]);
        }
    }
    let ghost mid = spans_view(out@);
    if stat.deletions > 0 {
        let n = decimal_of(stat.deletions as u64);
        out.push(space_span());
        out.push(span(SpanStyle { fg: Tone::Error, bold: false, italic: false, dim: false }, bracketed("-", &n, "")));
        proof {
            assert(spans_view(out@) =~= mid + seq![(look(Tone::Default, false, false), " "@), (look(Tone::Error, false, false), "-"@ + decimal(stat.deletions as nat))]);
        }
    }
    let ghost last = spans_view(out@);
    out.push(space_span());
    proof {
        assert(spans_view(out@) =~= last.push((look(Tone::Default, false, false), " "@)));
    }
    out
}

} // verus!
