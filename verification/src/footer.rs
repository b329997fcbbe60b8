//! The two footer lines of the chat screen: the status (running indicator,
//! latest toast, error hint) and the key hints.
use vstd::prelude::*;
use crate::markdown::{spans_view, SpanStyle, SpanView, StyledSpan, Tone};
use crate::toast::ToastVariant;
use crate::text::{chars_of, push_all, string_of};

verus! {

broadcast use vstd::seq_lib::group_seq_properties;

pub open spec fn st(fg: Tone, bold: bool, dim: bool) -> SpanStyle {
    SpanStyle { fg, bold, italic: false, dim }
}

/// The colour of a toast.
pub open spec fn toast_tone(v: ToastVariant) -> Tone {
    match v {
        ToastVariant::Info => Tone::Accent,
        ToastVariant::Success => Tone::Success,
        ToastVariant::Warning => Tone::Secondary,
        ToastVariant::Error => Tone::Error,
    }
}

/// The spinner frame and dots shown at time `ms` while a turn runs.
pub open spec fn spinner(ms: nat) -> Seq<char> {
    let frames = seq!['◐', '◓', '◑', '◒'];
    let dots = seq!["   "@, ".  "@, ".. "@, "..."@];
    seq![' ', frames[(ms / 120 % 4) as int]] + " running"@ + dots[(ms / 300 % 4) as int]
}

/// The status line: the running indicator (while running), the latest
/// toast in its colour (empty without one), and the error hint.
pub open spec fn status_spans(running: bool, toast: Option<(Seq<char>, ToastVariant)>, has_error: bool, ms: nat) -> Seq<SpanView> {
    let run = if running {
        seq![(st(Tone::Accent, true, false), spinner(ms))]
    } else {
        Seq::empty()
    };
    let msg = match toast {
        Some((m, v)) => (st(toast_tone(v), false, false), m),
        None => (st(Tone::Default, false, false), Seq::empty()),
    };
    let hint = if has_error {
        (st(Tone::Warning, true, false), "  Ctrl+E:details"@)
    } else {
        (st(Tone::Default, false, false), Seq::empty())
    };
    run + seq![msg, hint]
}

pub open spec fn key(t: Seq<char>) -> SpanView {
    (st(Tone::Accent, true, false), t)
}

pub open spec fn muted(t: Seq<char>) -> SpanView {
    (st(Tone::Muted, false, false), t)
}

pub open spec fn faint(t: Seq<char>) -> SpanView {
    (st(Tone::Muted, false, true), t)
}

/// The hints line: the full list of shortcuts when the composer starts a
/// query, the short list otherwise; the activity shortcuts depend on
/// whether that pane is hidden, the error shortcut on whether there is an
/// error.
pub open spec fn hint_spans(query: bool, activity_hidden: bool, has_error: bool) -> Seq<SpanView> {
    if query {
        seq![
            (st(Tone::Default, false, false), " "@),
            key("Ctrl+P"@), muted(":cmds  "@),
            key("Ctrl+N"@), muted(":new  "@),
            key("Ctrl+Q"@), muted(":sessions  "@),
            key("Ctrl+C"@), muted(":cancel  "@),
        ] + (if !activity_hidden {
            seq![key("Alt+Tab"@), muted(":switch focus  "@), key("Ctrl+W"@), muted(":toggle activity  "@)]
        } else {
            Seq::empty()
        }) + seq![
            key("/"@),
            muted(if has_error { ":cmd  Ctrl+E:error"@ } else { ":cmd"@ }),
            faint("  Ctrl+O:toggle tools"@),
        ]
    } else {
        seq![muted(" Ctrl+P"@), muted(" cmds"@), muted("   /"@), muted(" cmd"@), faint("   ? bindings"@)]
            + (if activity_hidden {
            seq![faint("   Ctrl+W"@), faint(" open activity"@)]
        } else {
            seq![muted("   Alt+Tab"@), muted(" switch focus"@), muted("   Ctrl+W"@), muted(" toggle activity"@)]
        }) + seq![
            if has_error {
                (st(Tone::Warning, true, false), "  Ctrl+E:error"@)
            } else {
                (st(Tone::Default, false, false), Seq::empty())
            },
        ]
    }
}

fn sp(out: &mut Vec<StyledSpan>, fg: Tone, bold: bool, dim: bool, t: &str)
    ensures
        spans_view(final(out)@) == spans_view(old(out)@).push((st(fg, bold, dim), t@)),
{
    out.push(StyledSpan { style: SpanStyle { fg, bold, italic: false, dim }, text: t.to_owned() });
    proof {
        assert(spans_view(out@) =~= spans_view(old(out)@).push((st(fg, bold, dim), t@)));
    }
}

fn spinner_of(ms: u64) -> (r: String)
    ensures
        r@ == spinner(ms as nat),
{
    let f = ms / 120 % 4;
    let d = ms / 300 % 4;
    let frame = if f == 0 {
        '◐'
    } else if f == 1 {
        '◓'
    } else if f == 2 {
        '◑'
    } else {
        '◒'
    };
    let dots = if d == 0 {
        "   "
    } else if d == 1 {
        ".  "
    } else if d == 2 {
        ".. "
    } else {
        "..."
    };
    let mut v: Vec<char> = Vec::new();
    v.push(' ');
    v.push(frame);
    push_all(&mut v, &chars_of(" running"));
    push_all(&mut v, &chars_of(dots));
    proof {
        let frames = seq!['◐', '◓', '◑', '◒'];
        let dl = seq!["   "@, ".  "@, ".. "@, "..."@];
        assert(frames[f as int] == frame);
        assert(dl[d as int] == dots@);
        assert(v@ =~= seq![' ', frame] + " running"@ + dots@);
    }
    string_of(v.as_slice())
}

fn status_of(is_running: bool, latest_toast: Option<(String, ToastVariant)>, has_error: bool, now_ms: u64) -> (r: Vec<StyledSpan>)
    ensures
        spans_view(r@) == status_spans(is_running, match latest_toast {
            Some((m, v)) => Some((m@, v)),
            None => None,
        }, has_error, now_ms as nat),
{
    let ghost tv: Option<(Seq<char>, ToastVariant)> = match &latest_toast {
        Some((m, v)) => Some((m@, *v)),
        None => None,
    };
    let mut status: Vec<StyledSpan> = Vec::new();
    if is_running {
        let text = spinner_of(now_ms);
        status.push(StyledSpan { style: SpanStyle { fg: Tone::Accent, bold: true, italic: false, dim: false }, text });
    }
    let ghost s0 = spans_view(status@);
    proof {
        if is_running {
            assert(s0 =~= seq![(st(Tone::Accent, true, false), spinner(now_ms as nat))]);
        } else {
            assert(s0 =~= Seq::<SpanView>::empty());
        }
    }
    match latest_toast {
        Some((m, v)) => {
            let fg = match v {
                ToastVariant::Info => Tone::Accent,
                ToastVariant::Success => Tone::Success,
                ToastVariant::Warning => Tone::Secondary,
                ToastVariant::Error => Tone::Error,
            };
            let ghost ob = spans_view(status@);
            status.push(StyledSpan { style: SpanStyle { fg, bold: false, italic: false, dim: false }, text: m });
            proof {
                assert(spans_view(status@) =~= ob.push((st(toast_tone(v), false, false), (tv->0).0)));
            }
        },
        None => sp(&mut status, Tone::Default, false, false, ""),
    }
    let ghost s1 = spans_view(status@);
    if has_error {
        sp(&mut status, Tone::Warning, true, false, "  Ctrl+E:details");
    } else {
        sp(&mut status, Tone::Default, false, false, "");
    }
    proof {
        assert(""@ =~= Seq::<char>::empty()) by {
            reveal_strlit("");
        }
        assert(spans_view(status@) =~= status_spans(is_running, tv, has_error, now_ms as nat));
    }
    status
}

fn hints_query(activity_hidden: bool, has_error: bool) -> (r: Vec<StyledSpan>)
    ensures
        spans_view(r@) == hint_spans(true, activity_hidden, has_error),
{
    let mut hints: Vec<StyledSpan> = Vec::new();
    sp(&mut hints, Tone::Default, false, false, " ");
    sp(&mut hints, Tone::Accent, true, false, "Ctrl+P");
    sp(&mut hints, Tone::Muted, false, false, ":cmds  ");
    sp(&mut hints, Tone::Accent, true, false, "Ctrl+N");
    sp(&mut hints, Tone::Muted, false, false, ":new  ");
    sp(&mut hints, Tone::Accent, true, false, "Ctrl+Q");
    sp(&mut hints, Tone::Muted, false, false, ":sessions  ");
    sp(&mut hints, Tone::Accent, true, false, "Ctrl+C");
    sp(&mut hints, Tone::Muted, false, false, ":cancel  ");
    let ghost h0 = spans_view(hints@);
    proof {
        assert(h0 =~= seq![
            (st(Tone::Default, false, false), " "@),
            key("Ctrl+P"@), muted(":cmds  "@),
            key("Ctrl+N"@), muted(":new  "@),
            key("Ctrl+Q"@), muted(":sessions  "@),
            key("Ctrl+C"@), muted(":cancel  "@),
        ]);
    }
    if !activity_hidden {
        sp(&mut hints, Tone::Accent, true, false, "Alt+Tab");
        sp(&mut hints, Tone::Muted, false, false, ":switch focus  ");
        sp(&mut hints, Tone::Accent, true, false, "Ctrl+W");
        sp(&mut hints, Tone::Muted, false, false, ":toggle activity  ");
    }
    let ghost h1 = spans_view(hints@);
    proof {
        if !activity_hidden {
            assert(h1 =~= h0 + seq![key("Alt+Tab"@), muted(":switch focus  "@), key("Ctrl+W"@), muted(":toggle activity  "@)]);
        } else {
            assert(h1 =~= h0 + Seq::<SpanView>::empty());
        }
    }
    sp(&mut hints, Tone::Accent, true, false, "/");
    if has_error {
        sp(&mut hints, Tone::Muted, false, false, ":cmd  Ctrl+E:error");
    } else {
        sp(&mut hints, Tone::Muted, false, false, ":cmd");
    }
    sp(&mut hints, Tone::Muted, false, true, "  Ctrl+O:toggle tools");
    proof {
        assert(spans_view(hints@) =~= h1 + seq![
            key("/"@),
            muted(if has_error { ":cmd  Ctrl+E:error"@ } else { ":cmd"@ }),
            faint("  Ctrl+O:toggle tools"@),
        ]);
    }
    hints
}

fn hints_plain(activity_hidden: bool, has_error: bool) -> (r: Vec<StyledSpan>)
    ensures
        spans_view(r@) == hint_spans(false, activity_hidden, has_error),
{
    let mut hints: Vec<StyledSpan> = Vec::new();
    sp(&mut hints, Tone::Muted, false, false, " Ctrl+P");
    sp(&mut hints, Tone::Muted, false, false, " cmds");
    sp(&mut hints, Tone::Muted, false, false, "   /");
    sp(&mut hints, Tone::Muted, false, false, " cmd");
    sp(&mut hints, Tone::Muted, false, true, "   ? bindings");
    let ghost h0 = spans_view(hints@);
    proof {
        assert(h0 =~= seq![muted(" Ctrl+P"@), muted(" cmds"@), muted("   /"@), muted(" cmd"@), faint("   ? bindings"@)]);
    }
    if activity_hidden {
        sp(&mut hints, Tone::Muted, false, true, "   Ctrl+W");
        sp(&mut hints, Tone::Muted, false, true, " open activity");
    } else {
        sp(&mut hints, Tone::Muted, false, false, "   Alt+Tab");
        sp(&mut hints, Tone::Muted, false, false, " switch focus");
        sp(&mut hints, Tone::Muted, false, false, "   Ctrl+W");
        sp(&mut hints, Tone::Muted, false, false, " toggle activity");
    }
    let ghost h1 = spans_view(hints@);
    proof {
        if activity_hidden {
            assert(h1 =~= h0 + seq![faint("   Ctrl+W"@), faint(" open activity"@)]);
        } else {
            assert(h1 =~= h0 + seq![muted("   Alt+Tab"@), muted(" switch focus"@), muted("   Ctrl+W"@), muted(" toggle activity"@)]);
        }
    }
    if has_error {
        sp(&mut hints, Tone::Warning, true, false, "  Ctrl+E:error");
    } else {
        sp(&mut hints, Tone::Default, false, false, "");
    }
    proof {
        assert(""@ =~= Seq::<char>::empty()) by {
            reveal_strlit("");
        }
        assert(spans_view(hints@) =~= h1 + seq![
            if has_error {
                (st(Tone::Warning, true, false), "  Ctrl+E:error"@)
            } else {
                (st(Tone::Default, false, false), Seq::empty())
            },
        ]);
    }
    hints
}

/// The footer's status and hints lines (as spans), at time `now_ms`.
pub fn build_footer_lines(
    is_running: bool,
    latest_toast: Option<(String, ToastVariant)>,
    composer_starts_with_query: bool,
    activity_hidden: bool,
    has_error: bool,
    now_ms: u64,
) -> (r: (Vec<StyledSpan>, Vec<StyledSpan>))
    ensures
        spans_view(r.0@) == status_spans(is_running, match latest_toast {
            Some((m, v)) => Some((m@, v)),
            None => None,
        }, has_error, now_ms as nat),
        spans_view(r.1@) == hint_spans(composer_starts_with_query, activity_hidden, has_error),
{
    let status = status_of(is_running, latest_toast, has_error, now_ms);
    let hints = if composer_starts_with_query {
        hints_query(activity_hidden, has_error)
    } else {
        hints_plain(activity_hidden, has_error)
    };
    (status, hints)
}

} // verus!
