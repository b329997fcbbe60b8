//! Entries of the activity pane: engine events with a title, a one-line
//! summary and the lines of their details view.
use vstd::prelude::*;
use crate::json::{json_pretty, json_pretty_of, json_string_field, json_str_field};
use crate::parse::{lines_of, text_lines};
use crate::text::{chars_of, decimal, decimal_of, push_all, string_of, sub_chars, trim, trim_chars};
use crate::parse::split_once;
use crate::parse::split_once_of;
use crate::tool_text::{cap_chars, cap_chars_of, cap_marked, cap_marked_of, first_nonblank, first_nonblank_of, path_arg, path_arg_of, replace_all, replace_chars};

verus! {

broadcast use vstd::seq_lib::group_seq_properties;

/// One entry of the activity pane.
#[derive(Debug)]
pub enum ActivityItem {
    CommandAccepted { name: String },
    ToolCall { id: String, name: String, arguments: String },
    ToolResult { id: String, name: String, ok: bool, output: String },
    OutputChunk { text: String },
    ReasoningChunk { text: String },
    Warning { message: String },
    /// A failure; `raw_detail` is the full error for the details view.
    Failure { message: String, raw_detail: Option<String> },
    /// A model call retried after a transient failure.
    RetryAttempt { attempt: u32, max_retries: u32, delay_secs: u64, reason: String },
    Completed,
}

/// `ActivityItem` with its texts as character sequences.
pub enum ActivitySpec {
    CommandAccepted(Seq<char>),
    ToolCall(Seq<char>, Seq<char>, Seq<char>),
    ToolResult(Seq<char>, Seq<char>, bool, Seq<char>),
    OutputChunk(Seq<char>),
    ReasoningChunk(Seq<char>),
    Warning(Seq<char>),
    Failure(Seq<char>, Option<Seq<char>>),
    RetryAttempt(u32, u32, u64, Seq<char>),
    Completed,
}

impl View for ActivityItem {
    type V = ActivitySpec;

    open spec fn view(&self) -> ActivitySpec {
        match self {
            ActivityItem::CommandAccepted { name } => ActivitySpec::CommandAccepted(name@),
            ActivityItem::ToolCall { id, name, arguments } => ActivitySpec::ToolCall(
                id@,
                name@,
                arguments@,
            ),
            ActivityItem::ToolResult { id, name, ok, output } => ActivitySpec::ToolResult(
                id@,
                name@,
                *ok,
                output@,
            ),
            ActivityItem::OutputChunk { text } => ActivitySpec::OutputChunk(text@),
            ActivityItem::ReasoningChunk { text } => ActivitySpec::ReasoningChunk(text@),
            ActivityItem::Warning { message } => ActivitySpec::Warning(message@),
            ActivityItem::Failure { message, raw_detail } => ActivitySpec::Failure(
                message@,
                match raw_detail {
                    Some(r) => Some(r@),
                    None => None,
                },
            ),
            ActivityItem::RetryAttempt { attempt, max_retries, delay_secs, reason } =>
                ActivitySpec::RetryAttempt(*attempt, *max_retries, *delay_secs, reason@),
            ActivityItem::Completed => ActivitySpec::Completed,
        }
    }
}

pub open spec fn bool_text(b: bool) -> Seq<char> {
    if b {
        "true"@
    } else {
        "false"@
    }
}

fn bool_chars(b: bool) -> (r: Vec<char>)
    ensures
        r@ == bool_text(b),
{
    if b {
        chars_of("true")
    } else {
        chars_of("false")
    }
}

/// The heading of an entry.
pub open spec fn title_text(item: ActivitySpec) -> Seq<char> {
    match item {
        ActivitySpec::CommandAccepted(name) => "command: "@ + name,
        ActivitySpec::ToolCall(_, name, _) => "tool: "@ + name,
        ActivitySpec::ToolResult(_, name, ok, _) => "tool result: "@ + name + " ok="@ + bool_text(ok),
        ActivitySpec::OutputChunk(_) => "assistant"@,
        ActivitySpec::ReasoningChunk(_) => "thinking"@,
        ActivitySpec::Warning(_) => "warning"@,
        ActivitySpec::Failure(_, _) => "failure"@,
        ActivitySpec::RetryAttempt(a, m, _, _) => "retry "@ + decimal(a as nat) + seq!['/'] + decimal(
            m as nat,
        ),
        ActivitySpec::Completed => "completed"@,
    }
}

fn cat(a: &str, b: &Vec<char>) -> (r: Vec<char>)
    ensures
        r@ == a@ + b@,
{
    let mut v = chars_of(a);
    push_all(&mut v, b);
    v
}

fn title_chars(item: &ActivityItem) -> (r: Vec<char>)
    ensures
        r@ == title_text(item@),
{
    match item {
        ActivityItem::CommandAccepted { name } => cat("command: ", &chars_of(name.as_str())),
        ActivityItem::ToolCall { name, .. } => cat("tool: ", &chars_of(name.as_str())),
        ActivityItem::ToolResult { name, ok, .. } => {
            let mut v = cat("tool result: ", &chars_of(name.as_str()));
            push_all(&mut v, &chars_of(" ok="));
            push_all(&mut v, &bool_chars(*ok));
            v
        },
        ActivityItem::OutputChunk { .. } => chars_of("assistant"),
        ActivityItem::ReasoningChunk { .. } => chars_of("thinking"),
        ActivityItem::Warning { .. } => chars_of("warning"),
        ActivityItem::Failure { .. } => chars_of("failure"),
        ActivityItem::RetryAttempt { attempt, max_retries, .. } => {
            let mut v = cat("retry ", &decimal_of(*attempt as u64));
            v.push('/');
            push_all(&mut v, &decimal_of(*max_retries as u64));
            proof {
                assert(v@ =~= title_text(item@));
            }
            v
        },
        ActivityItem::Completed => chars_of("completed"),
    }
}

impl ActivityItem {
    /// The entry's heading.
    pub fn title(&self) -> (r: String)
        ensures
            r@ == title_text(self@),
    {
        string_of(title_chars(self).as_slice())
    }
}

// ── Summaries ───────────────────────────────────────────────────────────────

/// At most 140 characters; a longer text is cut and marked `…`.
pub open spec fn cap140(s: Seq<char>) -> Seq<char> {
    if s.len() > 140 {
        s.take(140).push('…')
    } else {
        s
    }
}

/// The prompt quoted in an accepted command's description
/// (`… prompt: "<prompt>" …`), trimmed.
pub open spec fn command_prompt(name: Seq<char>) -> Option<Seq<char>> {
    match split_once(name, "prompt: \""@) {
        Some((_, rest)) => match split_once(rest, "\""@) {
            Some((p, _)) => Some(trim(p)),
            None => None,
        },
        None => None,
    }
}

pub open spec fn one_line(t: Seq<char>) -> Seq<char> {
    replace_all(t, seq!['\n'], seq![' '])
}

/// The one-line summary of an entry.
pub open spec fn summary_text(item: ActivitySpec) -> Seq<char> {
    match item {
        ActivitySpec::CommandAccepted(name) => match command_prompt(name) {
            Some(p) => if p.len() > 70 {
                p.take(70).push('…')
            } else {
                p
            },
            None => cap140(cap_marked(name, 70)),
        },
        ActivitySpec::ToolCall(_, name, args) => {
            let cmd = json_string_field(args, "command"@);
            let query = json_string_field(args, "query"@);
            if path_arg(args) is Some {
                name + "  "@ + path_arg(args)->0
            } else if cmd is Some {
                name + "  "@ + cap_marked(cmd->0, 55)
            } else if query is Some {
                name + "  "@ + cap_chars(query->0, 55)
            } else {
                cap140(name)
            }
        },
        ActivitySpec::ToolResult(_, name, ok, output) => {
            let indicator = if ok {
                seq!['✓']
            } else {
                seq!['✗']
            };
            let snippet = match first_nonblank(text_lines(output)) {
                Some(l) => trim(l),
                None => Seq::empty(),
            };
            if snippet.len() == 0 {
                cap140(name + "  "@ + indicator)
            } else {
                cap140(name + "  "@ + indicator + "  "@ + cap_chars(snippet, 60))
            }
        },
        ActivitySpec::OutputChunk(text) => cap140(one_line(text)),
        ActivitySpec::ReasoningChunk(text) => cap140("thinking: "@ + one_line(text)),
        ActivitySpec::Warning(message) => cap140(message),
        ActivitySpec::Failure(message, _) => cap140(message),
        ActivitySpec::RetryAttempt(a, m, d, reason) => cap140(
            "retrying in "@ + decimal(d as nat) + " ("@ + decimal(a as nat) + seq!['/'] + decimal(
                m as nat,
            ) + "): "@ + reason,
        ),
        ActivitySpec::Completed => "done"@,
    }
}

fn cap140_of(s: Vec<char>) -> (r: String)
    ensures
        r@ == cap140(s@),
{
    if s.len() > 140 {
        let mut t = sub_chars(&s, 0, 140);
        t.push('…');
        string_of(t.as_slice())
    } else {
        string_of(s.as_slice())
    }
}

fn command_prompt_of(name: &Vec<char>) -> (r: Option<Vec<char>>)
    ensures
        match command_prompt(name@) {
            Some(p) => r matches Some(v) && v@ == p,
            None => r is None,
        },
{
    match split_once_of(name, &chars_of("prompt: \"")) {
        Some((_, rest)) => match split_once_of(&rest, &chars_of("\"")) {
            Some((p, _)) => Some(trim_chars(&p)),
            None => None,
        },
        None => None,
    }
}

fn one_line_of(t: &str) -> (r: Vec<char>)
    ensures
        r@ == one_line(t@),
{
    let mut nl: Vec<char> = Vec::new();
    nl.push('\n');
    let mut sp: Vec<char> = Vec::new();
    sp.push(' ');
    proof {
        assert(nl@ =~= seq!['\n']);
        assert(sp@ =~= seq![' ']);
    }
    replace_chars(&chars_of(t), &nl, &sp)
}

fn summary_command(name: &String) -> (r: String)
    ensures
        r@ == summary_text(ActivitySpec::CommandAccepted(name@)),
{
    let n = chars_of(name.as_str());
    match command_prompt_of(&n) {
        Some(p) => if p.len() > 70 {
            let mut t = sub_chars(&p, 0, 70);
            t.push('…');
            string_of(t.as_slice())
        } else {
            string_of(p.as_slice())
        },
        None => {
            let m = cap_marked_of(&n, 70);
            cap140_of(chars_of(m.as_str()))
        },
    }
}

fn summary_tool_call(name: &String, arguments: &String) -> (r: String)
    ensures
        r@ == summary_text(ActivitySpec::ToolCall(Seq::empty(), name@, arguments@)),
{
    if let Some(p) = path_arg_of(arguments.as_str()) {
        let mut v = cat(name.as_str(), &chars_of("  "));
        push_all(&mut v, &chars_of(p.as_str()));
        proof {
            assert(v@ =~= name@ + "  "@ + p@);
        }
        return string_of(v.as_slice());
    }
    if let Some(cmd) = json_str_field(arguments.as_str(), "command") {
        let short = cap_marked_of(&chars_of(cmd.as_str()), 55);
        let mut v = chars_of(name.as_str());
        push_all(&mut v, &chars_of("  "));
        push_all(&mut v, &chars_of(short.as_str()));
        return string_of(v.as_slice());
    }
    if let Some(q) = json_str_field(arguments.as_str(), "query") {
        let short = cap_chars_of(&chars_of(q.as_str()), 55);
        let mut v = chars_of(name.as_str());
        push_all(&mut v, &chars_of("  "));
        push_all(&mut v, &short);
        return string_of(v.as_slice());
    }
    cap140_of(chars_of(name.as_str()))
}

fn summary_tool_result(name: &String, ok: bool, output: &String) -> (r: String)
    ensures
        r@ == summary_text(ActivitySpec::ToolResult(Seq::empty(), name@, ok, output@)),
{
    let mut v = chars_of(name.as_str());
    push_all(&mut v, &chars_of("  "));
    v.push(if ok {
        '✓'
    } else {
        '✗'
    });
    let ls = lines_of(&chars_of(output.as_str()));
    let snippet = match first_nonblank_of(&ls) {
        Some(l) => trim_chars(&l),
        None => Vec::new(),
    };
    if snippet.len() > 0 {
        push_all(&mut v, &chars_of("  "));
        push_all(&mut v, &cap_chars_of(&snippet, 60));
    }
    proof {
        let indicator = if ok {
            seq!['✓']
        } else {
            seq!['✗']
        };
        if snippet.len() > 0 {
            assert(v@ =~= name@ + "  "@ + indicator + "  "@ + cap_chars(snippet@, 60));
        } else {
            assert(v@ =~= name@ + "  "@ + indicator);
        }
    }
    cap140_of(v)
}

impl ActivityItem {
    /// The entry's one-line summary.
    pub fn summary(&self) -> (r: String)
        ensures
            r@ == summary_text(self@),
    {
        match self {
            ActivityItem::CommandAccepted { name } => summary_command(name),
            ActivityItem::ToolCall { name, arguments, .. } => summary_tool_call(name, arguments),
            ActivityItem::ToolResult { name, ok, output, .. } => summary_tool_result(name, *ok, output),
            ActivityItem::OutputChunk { text } => cap140_of(one_line_of(text.as_str())),
            ActivityItem::ReasoningChunk { text } => cap140_of(
                cat("thinking: ", &one_line_of(text.as_str())),
            ),
            ActivityItem::Warning { message } => cap140_of(chars_of(message.as_str())),
            ActivityItem::Failure { message, .. } => cap140_of(chars_of(message.as_str())),
            ActivityItem::RetryAttempt { attempt, max_retries, delay_secs, reason } => {
                let mut v = cat("retrying in ", &decimal_of(*delay_secs));
                push_all(&mut v, &chars_of(" ("));
                push_all(&mut v, &decimal_of(*attempt as u64));
                v.push('/');
                push_all(&mut v, &decimal_of(*max_retries as u64));
                push_all(&mut v, &chars_of("): "));
                push_all(&mut v, &chars_of(reason.as_str()));
                proof {
                    assert(v@ =~= "retrying in "@ + decimal(*delay_secs as nat) + " ("@ + decimal(
                        *attempt as nat,
                    ) + seq!['/'] + decimal(*max_retries as nat) + "): "@ + reason@);
                }
                cap140_of(v)
            },
            ActivityItem::Completed => "done".to_owned(),
        }
    }
}

// ── Details ─────────────────────────────────────────────────────────────────

/// How a line of the details view is drawn.
#[derive(Debug, Clone, Copy, PartialEq, Eq, Structural)]
pub enum LineStyle {
    Plain,
    Bold,
    Dim,
}

/// A line of the details view.
#[derive(Debug)]
pub struct DetailLine {
    pub style: LineStyle,
    pub text: String,
}

impl View for DetailLine {
    type V = (LineStyle, Seq<char>);

    open spec fn view(&self) -> (LineStyle, Seq<char>) {
        (self.style, self.text@)
    }
}

/// At most the first `n` of `ls`.
pub open spec fn first_n<T>(ls: Seq<T>, n: nat) -> Seq<T> {
    if ls.len() <= n {
        ls
    } else {
        ls.take(n as int)
    }
}

pub open spec fn plain(ls: Seq<Seq<char>>) -> Seq<(LineStyle, Seq<char>)> {
    ls.map_values(|l: Seq<char>| (LineStyle::Plain, l))
}

/// The pretty-printed JSON of `text`, or `text` itself when it is not JSON.
pub open spec fn pretty_or_raw(text: Seq<char>) -> Seq<char> {
    match json_pretty(text) {
        Some(p) => p,
        None => text,
    }
}

/// The lines of the details view: the title in bold, a blank line, then
/// what the entry holds (arguments and output pretty-printed when they are
/// JSON), with at most 32 argument lines, 48 output or raw-error lines, 64
/// text lines and 8 failure-message lines.
pub open spec fn details_spec(item: ActivitySpec) -> Seq<(LineStyle, Seq<char>)> {
    let head = seq![(LineStyle::Bold, title_text(item)), (LineStyle::Plain, Seq::<char>::empty())];
    head + match item {
        ActivitySpec::CommandAccepted(name) => seq![(LineStyle::Plain, "name: "@ + name)],
        ActivitySpec::ToolCall(id, name, args) => seq![
            (LineStyle::Plain, "id: "@ + id),
            (LineStyle::Plain, "tool: "@ + name),
            (LineStyle::Plain, Seq::<char>::empty()),
            (LineStyle::Plain, "arguments:"@),
        ] + plain(first_n(text_lines(pretty_or_raw(args)), 32)),
        ActivitySpec::ToolResult(id, name, ok, output) => seq![
            (LineStyle::Plain, "id: "@ + id),
            (LineStyle::Plain, "tool: "@ + name),
            (LineStyle::Plain, "ok: "@ + bool_text(ok)),
            (LineStyle::Plain, Seq::<char>::empty()),
            (LineStyle::Plain, "output:"@),
        ] + plain(first_n(text_lines(pretty_or_raw(output)), 48)),
        ActivitySpec::OutputChunk(t) => plain(first_n(text_lines(t), 64)),
        ActivitySpec::ReasoningChunk(t) => plain(first_n(text_lines(t), 64)),
        ActivitySpec::Warning(m) => plain(first_n(text_lines(m), 64)),
        ActivitySpec::Failure(m, raw) => plain(first_n(text_lines(m), 8)) + match raw {
            Some(r) => seq![
                (LineStyle::Plain, Seq::<char>::empty()),
                (LineStyle::Dim, "Raw error:"@),
            ] + plain(first_n(text_lines(r), 48)),
            None => Seq::empty(),
        },
        ActivitySpec::RetryAttempt(a, m, d, reason) => seq![
            (LineStyle::Plain, "attempt: "@ + decimal(a as nat) + " / "@ + decimal(m as nat)),
            (LineStyle::Plain, "delay: "@ + decimal(d as nat) + seq!['s']),
            (LineStyle::Plain, "reason: "@ + reason),
        ],
        ActivitySpec::Completed => Seq::empty(),
    }
}

pub open spec fn lines_view(v: Seq<DetailLine>) -> Seq<(LineStyle, Seq<char>)> {
    v.map_values(|l: DetailLine| l@)
}

fn push_line(out: &mut Vec<DetailLine>, style: LineStyle, text: Vec<char>)
    ensures
        lines_view(final(out)@) == lines_view(old(out)@).push((style, text@)),
{
    out.push(DetailLine { style, text: string_of(text.as_slice()) });
    proof {
        assert(lines_view(out@) =~= lines_view(old(out)@).push((style, text@)));
    }
}

/// Appends the first `n` lines of `text` as plain lines.
fn push_text_lines(out: &mut Vec<DetailLine>, text: &str, n: usize)
    ensures
        lines_view(final(out)@) == lines_view(old(out)@) + plain(first_n(text_lines(text@), n as nat)),
{
    let ls = lines_of(&chars_of(text));
    let ghost lv = ls@.map_values(|l: Vec<char>| l@);
    let m = if ls.len() < n {
        ls.len()
    } else {
        n
    };
    let ghost start = lines_view(out@);
    let mut i: usize = 0;
    while i < m
        invariant
            i <= m <= ls.len(),
            m == (if ls.len() < n { ls.len() } else { n }),
            lv == ls@.map_values(|l: Vec<char>| l@),
            lv == text_lines(text@),
            lines_view(out@) == start + plain(lv.take(i as int)),
        decreases m - i,
    {
        proof {
            assert(plain(lv.take(i + 1)) =~= plain(lv.take(i as int)).push((LineStyle::Plain, ls@[i as int]@)));
        }
        push_line(out, LineStyle::Plain, sub_chars(&ls[i], 0, ls[i].len()));
        proof {
            assert(ls@[i as int]@.subrange(0, ls@[i as int]@.len() as int) =~= ls@[i as int]@);
        }
        i = i + 1;
    }
    proof {
        assert(lv.take(m as int) =~= first_n(lv, n as nat));
    }
}

fn pretty_or_raw_of(text: &String) -> (r: String)
    ensures
        r@ == pretty_or_raw(text@),
{
    match json_pretty_of(text.as_str()) {
        Some(p) => p,
        None => text.clone(),
    }
}

impl ActivityItem {
    /// The lines of the entry's details view.
    pub fn details_lines(&self) -> (r: Vec<DetailLine>)
        ensures
            lines_view(r@) == details_spec(self@),
    {
        let mut out: Vec<DetailLine> = Vec::new();
        push_line(&mut out, LineStyle::Bold, title_chars(self));
        push_line(&mut out, LineStyle::Plain, Vec::new());
        let ghost head = lines_view(out@);
        assert(head =~= seq![(LineStyle::Bold, title_text(self@)), (LineStyle::Plain, Seq::<char>::empty())]);
        match self {
            ActivityItem::CommandAccepted { name } => {
                push_line(&mut out, LineStyle::Plain, cat("name: ", &chars_of(name.as_str())));
            },
            ActivityItem::ToolCall { id, name, arguments } => {
                push_line(&mut out, LineStyle::Plain, cat("id: ", &chars_of(id.as_str())));
                push_line(&mut out, LineStyle::Plain, cat("tool: ", &chars_of(name.as_str())));
                push_line(&mut out, LineStyle::Plain, Vec::new());
                push_line(&mut out, LineStyle::Plain, chars_of("arguments:"));
                let ghost mid = lines_view(out@);
                let pretty = pretty_or_raw_of(arguments);
                push_text_lines(&mut out, pretty.as_str(), 32);
                proof {
                    let extra = seq![
                        (LineStyle::Plain, "id: "@ + id@),
                        (LineStyle::Plain, "tool: "@ + name@),
                        (LineStyle::Plain, Seq::<char>::empty()),
                        (LineStyle::Plain, "arguments:"@),
                    ];
                    assert(mid =~= head + extra);
                    let tail = plain(first_n(text_lines(pretty_or_raw(arguments@)), 32));
                    assert(head + (extra + tail) =~= (head + extra) + tail);
                }
            },
            ActivityItem::ToolResult { id, name, ok, output } => {
                push_line(&mut out, LineStyle::Plain, cat("id: ", &chars_of(id.as_str())));
                push_line(&mut out, LineStyle::Plain, cat("tool: ", &chars_of(name.as_str())));
                push_line(&mut out, LineStyle::Plain, cat("ok: ", &bool_chars(*ok)));
                push_line(&mut out, LineStyle::Plain, Vec::new());
                push_line(&mut out, LineStyle::Plain, chars_of("output:"));
                let ghost mid = lines_view(out@);
                let pretty = pretty_or_raw_of(output);
                push_text_lines(&mut out, pretty.as_str(), 48);
                proof {
                    let extra = seq![
                        (LineStyle::Plain, "id: "@ + id@),
                        (LineStyle::Plain, "tool: "@ + name@),
                        (LineStyle::Plain, "ok: "@ + bool_text(*ok)),
                        (LineStyle::Plain, Seq::<char>::empty()),
                        (LineStyle::Plain, "output:"@),
                    ];
                    assert(mid =~= head + extra);
                    let tail = plain(first_n(text_lines(pretty_or_raw(output@)), 48));
                    assert(head + (extra + tail) =~= (head + extra) + tail);
                }
            },
            ActivityItem::OutputChunk { text } => push_text_lines(&mut out, text.as_str(), 64),
            ActivityItem::ReasoningChunk { text } => push_text_lines(&mut out, text.as_str(), 64),
            ActivityItem::Warning { message } => push_text_lines(&mut out, message.as_str(), 64),
            ActivityItem::Failure { message, raw_detail } => {
                push_text_lines(&mut out, message.as_str(), 8);
                let ghost mid = lines_view(out@);
                let ghost msg = plain(first_n(text_lines(message@), 8));
                if let Some(raw) = raw_detail {
                    push_line(&mut out, LineStyle::Plain, Vec::new());
                    push_line(&mut out, LineStyle::Dim, chars_of("Raw error:"));
                    let ghost mid2 = lines_view(out@);
                    push_text_lines(&mut out, raw.as_str(), 48);
                    proof {
                        let extra = seq![
                            (LineStyle::Plain, Seq::<char>::empty()),
                            (LineStyle::Dim, "Raw error:"@),
                        ];
                        let tail = plain(first_n(text_lines(raw@), 48));
                        assert(mid2 =~= head + msg + extra);
                        assert(head + (msg + (extra + tail)) =~= head + msg + extra + tail);
                    }
                } else {
                    proof {
                        assert(head + (msg + Seq::empty()) =~= head + msg);
                    }
                }
            },
            ActivityItem::RetryAttempt { attempt, max_retries, delay_secs, reason } => {
                let mut a = cat("attempt: ", &decimal_of(*attempt as u64));
                push_all(&mut a, &chars_of(" / "));
                push_all(&mut a, &decimal_of(*max_retries as u64));
                assert(a@ =~= "attempt: "@ + decimal(*attempt as nat) + " / "@ + decimal(*max_retries as nat));
                push_line(&mut out, LineStyle::Plain, a);
                let mut d = cat("delay: ", &decimal_of(*delay_secs));
                d.push('s');
                assert(d@ =~= "delay: "@ + decimal(*delay_secs as nat) + seq!['s']);
                push_line(&mut out, LineStyle::Plain, d);
                push_line(&mut out, LineStyle::Plain, cat("reason: ", &chars_of(reason.as_str())));
            },
            ActivityItem::Completed => {},
        }
        proof {
            match self {
                ActivityItem::CommandAccepted { .. } => assert(lines_view(out@) =~= details_spec(self@)),
                ActivityItem::ToolCall { .. } => assert(lines_view(out@) =~= details_spec(self@)),
                ActivityItem::ToolResult { .. } => assert(lines_view(out@) =~= details_spec(self@)),
                ActivityItem::OutputChunk { .. } => assert(lines_view(out@) =~= details_spec(self@)),
                ActivityItem::ReasoningChunk { .. } => assert(lines_view(out@) =~= details_spec(self@)),
                ActivityItem::Warning { .. } => assert(lines_view(out@) =~= details_spec(self@)),
                ActivityItem::Failure { .. } => assert(lines_view(out@) =~= details_spec(self@)),
                ActivityItem::RetryAttempt { .. } => assert(lines_view(out@) =~= details_spec(self@)),
                ActivityItem::Completed => assert(lines_view(out@) =~= details_spec(self@)),
            }
        }
        out
    }
}

} // verus!
