//! The live widgets at the foot of the transcript while a turn runs: the
//! plan checklist, the todo list, and the feed (or one-line summary) of the
//! tool calls in flight.
use vstd::prelude::*;
use crate::activity::{ActivityItem, ActivitySpec};
use crate::text::{chars_of, decimal, decimal_of, push_all, string_of};
use crate::tool_text::{cap_chars, cap_chars_of, extract_key_arg, extract_tool_output_text, key_arg, opt_view, output_text, summarize_tool_result};

verus! {

broadcast use vstd::seq_lib::group_seq_properties;

/// The state of a plan step.
#[derive(Debug, Clone, Copy, PartialEq, Eq, Structural)]
pub enum StepStatus {
    Completed,
    InProgress,
    Blocked,
    Pending,
}

/// The state of a todo.
#[derive(Debug, Clone, Copy, PartialEq, Eq, Structural)]
pub enum TodoStatus {
    Completed,
    InProgress,
    Cancelled,
    Pending,
}

/// How a live row is drawn.
#[derive(Debug, Clone, Copy, PartialEq, Eq, Structural)]
pub enum LiveKind {
    /// The plan's title.
    PlanTitle,
    PlanStep(StepStatus),
    /// The todo list's title.
    TodoTitle,
    Todo(TodoStatus),
    Blank,
    /// A tool call still running.
    CallPending,
    CallSucceeded,
    CallFailed,
    /// The summary of a call's result.
    CallOutput,
    Warning,
    Failure,
    /// The one-line summary of the calls.
    Summary,
}

/// A live row.
#[derive(Debug)]
pub struct LiveRow {
    pub kind: LiveKind,
    pub text: String,
}

pub type LiveView = (LiveKind, Seq<char>);

impl View for LiveRow {
    type V = LiveView;

    open spec fn view(&self) -> LiveView {
        (self.kind, self.text@)
    }
}

pub open spec fn live_view(v: Seq<LiveRow>) -> Seq<LiveView> {
    v.map_values(|r: LiveRow| r@)
}

fn push_live(out: &mut Vec<LiveRow>, kind: LiveKind, text: Vec<char>)
    ensures
        live_view(final(out)@) == live_view(old(out)@).push((kind, text@)),
{
    out.push(LiveRow { kind, text: string_of(text.as_slice()) });
    proof {
        assert(live_view(out@) =~= live_view(old(out)@).push((kind, text@)));
    }
}

// ── The plan ────────────────────────────────────────────────────────────────

pub open spec fn step_status(s: Seq<char>) -> StepStatus {
    if s == "completed"@ {
        StepStatus::Completed
    } else if s == "in_progress"@ {
        StepStatus::InProgress
    } else if s == "blocked"@ {
        StepStatus::Blocked
    } else {
        StepStatus::Pending
    }
}

pub open spec fn step_icon(s: StepStatus) -> Seq<char> {
    match s {
        StepStatus::Completed => "✅"@,
        StepStatus::InProgress => "🔄"@,
        StepStatus::Blocked => "🚫"@,
        StepStatus::Pending => "⬜"@,
    }
}

/// Row `i` of the plan: `  <icon> <i+1>. <description>`.
pub open spec fn step_row(i: nat, step: (Seq<char>, Seq<char>)) -> LiveView {
    let st = step_status(step.1);
    (LiveKind::PlanStep(st), "  "@ + step_icon(st) + " "@ + decimal(i + 1) + ". "@ + step.0)
}

/// The plan checklist: the title, each step numbered with its status, and
/// a blank row; nothing without a title or without steps.
pub open spec fn plan_rows(title: Option<Seq<char>>, steps: Seq<(Seq<char>, Seq<char>)>) -> Seq<LiveView> {
    if title is None || steps.len() == 0 {
        Seq::empty()
    } else {
        seq![(LiveKind::PlanTitle, "📋 "@ + title->0)] + Seq::new(steps.len(), |i: int| step_row(i as nat, steps[i]))
            + seq![(LiveKind::Blank, Seq::<char>::empty())]
    }
}

pub open spec fn pairs_view(v: Seq<(String, String)>) -> Seq<(Seq<char>, Seq<char>)> {
    v.map_values(|p: (String, String)| (p.0@, p.1@))
}

fn step_status_of(s: &str) -> (r: StepStatus)
    ensures
        r == step_status(s@),
{
    let v = chars_of(s);
    if crate::text::eq_str(&v, "completed") {
        StepStatus::Completed
    } else if crate::text::eq_str(&v, "in_progress") {
        StepStatus::InProgress
    } else if crate::text::eq_str(&v, "blocked") {
        StepStatus::Blocked
    } else {
        StepStatus::Pending
    }
}

fn step_icon_of(s: StepStatus) -> (r: &'static str)
    ensures
        r@ == step_icon(s),
{
    match s {
        StepStatus::Completed => "✅",
        StepStatus::InProgress => "🔄",
        StepStatus::Blocked => "🚫",
        StepStatus::Pending => "⬜",
    }
}

/// The rows of the plan `title` with steps (description, status).
pub fn plan_lines(title: Option<&str>, steps: &Vec<(String, String)>) -> (r: Vec<LiveRow>)
    ensures
        live_view(r@) == plan_rows(opt_view(title), pairs_view(steps@)),
{
    let mut out: Vec<LiveRow> = Vec::new();
    let t = match title {
        Some(t) => t,
        None => {
            proof {
                assert(live_view(out@) =~= Seq::<LiveView>::empty());
            }
            return out;
        },
    };
    if steps.len() == 0 {
        proof {
            assert(live_view(out@) =~= Seq::<LiveView>::empty());
        }
        return out;
    }
    let ghost sv = pairs_view(steps@);
    let mut h = chars_of("📋 ");
    push_all(&mut h, &chars_of(t));
    push_live(&mut out, LiveKind::PlanTitle, h);
    let ghost head = live_view(out@);
    let mut i: usize = 0;
    while i < steps.len()
        invariant
            i <= steps.len(),
            sv == pairs_view(steps@),
            live_view(out@) == head + Seq::new(i as nat, |k: int| step_row(k as nat, sv[k])),
        decreases steps.len() - i,
    {
        let st = step_status_of(steps[i].1.as_str());
        let mut v = chars_of("  ");
        push_all(&mut v, &chars_of(step_icon_of(st)));
        push_all(&mut v, &chars_of(" "));
        push_all(&mut v, &decimal_of((i + 1) as u64));
        push_all(&mut v, &chars_of(". "));
        push_all(&mut v, &chars_of(steps[i].0.as_str()));
        proof {
            assert(sv[i as int] == (steps@[i as int].0@, steps@[i as int].1@));
            assert(v@ =~= step_row(i as nat, sv[i as int]).1);
        }
        push_live(&mut out, LiveKind::PlanStep(st), v);
        proof {
            assert(Seq::new((i + 1) as nat, |k: int| step_row(k as nat, sv[k])) =~= Seq::new(
                i as nat,
                |k: int| step_row(k as nat, sv[k]),
            ).push(step_row(i as nat, sv[i as int])));
        }
        i = i + 1;
    }
    push_live(&mut out, LiveKind::Blank, Vec::new());
    proof {
        assert(live_view(out@) =~= plan_rows(opt_view(title), sv));
    }
    out
}

// ── The todo list ───────────────────────────────────────────────────────────

pub open spec fn todo_status(s: Seq<char>) -> TodoStatus {
    if s == "completed"@ {
        TodoStatus::Completed
    } else if s == "in_progress"@ {
        TodoStatus::InProgress
    } else if s == "cancelled"@ {
        TodoStatus::Cancelled
    } else {
        TodoStatus::Pending
    }
}

pub open spec fn todo_icon(s: TodoStatus) -> Seq<char> {
    match s {
        TodoStatus::Completed => "✓"@,
        TodoStatus::InProgress => "◐"@,
        TodoStatus::Cancelled => "✗"@,
        TodoStatus::Pending => "○"@,
    }
}

pub open spec fn priority_label(p: Seq<char>) -> Seq<char> {
    if p == "high"@ {
        " [HIGH]"@
    } else if p == "medium"@ {
        " [MED]"@
    } else {
        ""@
    }
}

/// A todo row: `  <icon> <content>` and its priority label.
pub open spec fn todo_row(t: (Seq<char>, Seq<char>, Seq<char>)) -> LiveView {
    let st = todo_status(t.1);
    (LiveKind::Todo(st), "  "@ + todo_icon(st) + " "@ + t.0 + priority_label(t.2))
}

/// The todo list: its title, each todo (content, status, priority) and a
/// blank row; nothing without todos.
pub open spec fn todo_rows(todos: Seq<(Seq<char>, Seq<char>, Seq<char>)>) -> Seq<LiveView> {
    if todos.len() == 0 {
        Seq::empty()
    } else {
        seq![(LiveKind::TodoTitle, "📝 Todo List"@)] + Seq::new(todos.len(), |i: int| todo_row(todos[i]))
            + seq![(LiveKind::Blank, Seq::<char>::empty())]
    }
}

pub open spec fn triples_view(v: Seq<(String, String, String)>) -> Seq<(Seq<char>, Seq<char>, Seq<char>)> {
    v.map_values(|t: (String, String, String)| (t.0@, t.1@, t.2@))
}

fn todo_row_of(t: &(String, String, String)) -> (r: (TodoStatus, Vec<char>))
    ensures
        (LiveKind::Todo(r.0), r.1@) == todo_row((t.0@, t.1@, t.2@)),
{
    let sv = chars_of(t.1.as_str());
    let st = if crate::text::eq_str(&sv, "completed") {
        TodoStatus::Completed
    } else if crate::text::eq_str(&sv, "in_progress") {
        TodoStatus::InProgress
    } else if crate::text::eq_str(&sv, "cancelled") {
        TodoStatus::Cancelled
    } else {
        TodoStatus::Pending
    };
    let icon = match st {
        TodoStatus::Completed => "✓",
        TodoStatus::InProgress => "◐",
        TodoStatus::Cancelled => "✗",
        TodoStatus::Pending => "○",
    };
    let pv = chars_of(t.2.as_str());
    let label = if crate::text::eq_str(&pv, "high") {
        " [HIGH]"
    } else if crate::text::eq_str(&pv, "medium") {
        " [MED]"
    } else {
        ""
    };
    let mut v = chars_of("  ");
    push_all(&mut v, &chars_of(icon));
    push_all(&mut v, &chars_of(" "));
    push_all(&mut v, &chars_of(t.0.as_str()));
    push_all(&mut v, &chars_of(label));
    proof {
        assert(v@ =~= todo_row((t.0@, t.1@, t.2@)).1);
    }
    (st, v)
}

/// The rows of the todo list `todos` (content, status, priority).
pub fn todo_lines(todos: &Vec<(String, String, String)>) -> (r: Vec<LiveRow>)
    ensures
        live_view(r@) == todo_rows(triples_view(todos@)),
{
    let mut out: Vec<LiveRow> = Vec::new();
    if todos.len() == 0 {
        proof {
            assert(live_view(out@) =~= Seq::<LiveView>::empty());
        }
        return out;
    }
    let ghost tv = triples_view(todos@);
    push_live(&mut out, LiveKind::TodoTitle, chars_of("📝 Todo List"));
    let ghost head = live_view(out@);
    let mut i: usize = 0;
    while i < todos.len()
        invariant
            i <= todos.len(),
            tv == triples_view(todos@),
            live_view(out@) == head + Seq::new(i as nat, |k: int| todo_row(tv[k])),
        decreases todos.len() - i,
    {
        let (st, v) = todo_row_of(&todos[i]);
        proof {
            assert(tv[i as int] == (todos@[i as int].0@, todos@[i as int].1@, todos@[i as int].2@));
        }
        push_live(&mut out, LiveKind::Todo(st), v);
        proof {
            assert(Seq::new((i + 1) as nat, |k: int| todo_row(tv[k])) =~= Seq::new(i as nat, |k: int| todo_row(tv[k])).push(
                todo_row(tv[i as int]),
            ));
        }
        i = i + 1;
    }
    push_live(&mut out, LiveKind::Blank, Vec::new());
    proof {
        assert(live_view(out@) =~= todo_rows(tv));
    }
    out
}

// ── The tool calls in flight ────────────────────────────────────────────────

/// Upper case of `c`, as std's `char::to_uppercase` gives it.
pub uninterp spec fn unicode_upper(c: char) -> Seq<char>;

/// std's `char::to_uppercase`, collected into a string. The result is the
/// named value; nothing more is claimed of Unicode case mapping.
#[verifier::external_body]
pub(crate) fn char_to_upper(c: char) -> (r: String)
    ensures
        r@ == unicode_upper(c),
{
    c.to_uppercase().to_string()
}

pub open spec fn items_view(v: Seq<ActivityItem>) -> Seq<ActivitySpec> {
    v.map_values(|i: ActivityItem| i@)
}

/// The tool calls among `items` (name, arguments), in order.
pub open spec fn tool_calls(items: Seq<ActivitySpec>) -> Seq<(Seq<char>, Seq<char>)>
    decreases items.len(),
{
    if items.len() == 0 {
        Seq::empty()
    } else {
        let rest = tool_calls(items.drop_last());
        match items.last() {
            ActivitySpec::ToolCall(_, name, args) => rest.push((name, args)),
            _ => rest,
        }
    }
}

/// The frame of the summary's marker at time `ms`.
pub open spec fn tri_frame(ms: nat) -> char {
    seq!['▶', '▸', '▹', '▻'][(ms / 120 % 4) as int]
}

/// A call's heading: its name with its key argument in brackets.
pub open spec fn call_label(name: Seq<char>, args: Seq<char>, home: Option<Seq<char>>) -> Seq<char> {
    let k = key_arg(name, args, home);
    if k.len() == 0 {
        name
    } else {
        name + "("@ + k + ")"@
    }
}

/// The one-line summary of the calls so far: the latest call and how many
/// came before it; none without calls.
pub open spec fn live_summary(items: Seq<ActivitySpec>, ms: nat, home: Option<Seq<char>>) -> Option<Seq<char>> {
    let calls = tool_calls(items);
    if calls.len() == 0 {
        None
    } else {
        Some(
            "  "@ + seq![tri_frame(ms)] + " "@ + call_label(calls.last().0, calls.last().1, home) + crate::transcript::more_text(
                calls.len(),
            ) + "  (ctrl+o to expand)"@,
        )
    }
}

fn call_label_of(name: &str, args: &str, home: Option<&str>) -> (r: Vec<char>)
    ensures
        r@ == call_label(name@, args@, opt_view(home)),
{
    let k = chars_of(extract_key_arg(name, args, home).as_str());
    let mut v = chars_of(name);
    if k.len() > 0 {
        push_all(&mut v, &chars_of("("));
        push_all(&mut v, &k);
        push_all(&mut v, &chars_of(")"));
    }
    v
}

fn tri_frame_of(ms: u64) -> (r: char)
    ensures
        r == tri_frame(ms as nat),
{
    let k = ms / 120 % 4;
    if k == 0 {
        '▶'
    } else if k == 1 {
        '▸'
    } else if k == 2 {
        '▹'
    } else {
        '▻'
    }
}

/// The summary line of the tool calls in `items` at time `ms`.
pub fn live_summary_line(items: &Vec<ActivityItem>, ms: u64, home: Option<&str>) -> (r: Option<String>)
    ensures
        match live_summary(items_view(items@), ms as nat, opt_view(home)) {
            Some(t) => r matches Some(s) && s@ == t,
            None => r is None,
        },
{
    let ghost iv = items_view(items@);
    let mut count: usize = 0;
    let mut last: Option<usize> = None;
    let mut i: usize = 0;
    proof {
        assert(iv.take(0) =~= Seq::<ActivitySpec>::empty());
    }
    while i < items.len()
        invariant
            i <= items.len(),
            iv == items_view(items@),
            count == tool_calls(iv.take(i as int)).len(),
            count <= i,
            match last {
                Some(j) => j < i && count > 0 && (items@[j as int] matches ActivityItem::ToolCall { name, arguments, .. }
                    && tool_calls(iv.take(i as int)).last() == (name@, arguments@)),
                None => count == 0,
            },
        decreases items.len() - i,
    {
        proof {
            assert(iv.take(i + 1).drop_last() =~= iv.take(i as int));
            assert(iv.take(i + 1).last() == items@[i as int]@);
        }
        if let ActivityItem::ToolCall { .. } = &items[i] {
            count = count + 1;
            last = Some(i);
        }
        i = i + 1;
    }
    proof {
        assert(iv.take(items.len() as int) =~= iv);
    }
    match last {
        None => None,
        Some(j) => match &items[j] {
            ActivityItem::ToolCall { name, arguments, .. } => {
                let mut v = chars_of("  ");
                v.push(tri_frame_of(ms));
                push_all(&mut v, &chars_of(" "));
                push_all(&mut v, &call_label_of(name.as_str(), arguments.as_str(), home));
                push_all(&mut v, &crate::transcript::more_text_of(count));
                push_all(&mut v, &chars_of("  (ctrl+o to expand)"));
                proof {
                    let calls = tool_calls(iv);
                    assert(v@ =~= "  "@ + seq![tri_frame(ms as nat)] + " "@ + call_label(calls.last().0, calls.last().1, opt_view(home))
                        + crate::transcript::more_text(calls.len()) + "  (ctrl+o to expand)"@);
                }
                Some(string_of(v.as_slice()))
            },
            _ => None,
        },
    }
}

/// The result reported last for call `id` among `items` (ok, output).
pub open spec fn last_result(items: Seq<ActivitySpec>, id: Seq<char>) -> Option<(bool, Seq<char>)>
    decreases items.len(),
{
    if items.len() == 0 {
        None
    } else {
        match items.last() {
            ActivitySpec::ToolResult(rid, _, ok, out) => if rid == id {
                Some((ok, out))
            } else {
                last_result(items.drop_last(), id)
            },
            _ => last_result(items.drop_last(), id),
        }
    }
}

/// The entries that the feed shows: calls, warnings and failures.
pub open spec fn feed_items(items: Seq<ActivitySpec>) -> Seq<ActivitySpec>
    decreases items.len(),
{
    if items.len() == 0 {
        Seq::empty()
    } else {
        let rest = feed_items(items.drop_last());
        match items.last() {
            ActivitySpec::ToolCall(_, _, _) | ActivitySpec::Warning(_) | ActivitySpec::Failure(_, _) => rest.push(
                items.last(),
            ),
            _ => rest,
        }
    }
}

/// The spinner frame of a running call at time `ms`.
pub open spec fn spin_frame(ms: nat) -> char {
    seq!['⠋', '⠙', '⠸', '⠴', '⠦', '⠇'][(ms / 100 % 6) as int]
}

/// `name` with its first character in upper case.
pub open spec fn capitalized(name: Seq<char>) -> Seq<char> {
    if name.len() == 0 {
        name
    } else {
        unicode_upper(name[0]) + name.drop_first()
    }
}

/// The rows of one feed entry, given all entries (to find a call's result):
/// a call's heading (spinner while running, a dot once done) and the
/// summary of its result; a warning or failure cut to 70 characters.
pub open spec fn entry_rows(item: ActivitySpec, all: Seq<ActivitySpec>, ms: nat, home: Option<Seq<char>>) -> Seq<LiveView> {
    match item {
        ActivitySpec::ToolCall(id, name, args) => {
            let res = last_result(all, id);
            let k = key_arg(name, args, home);
            let header = if k.len() == 0 {
                capitalized(name)
            } else {
                capitalized(name) + "("@ + k + ")"@
            };
            match res {
                None => seq![(LiveKind::CallPending, seq![spin_frame(ms), ' '] + header)],
                Some((ok, out)) => {
                    let sum = crate::tool_text::summary_text(name, output_text(out), ok, home);
                    seq![(if ok { LiveKind::CallSucceeded } else { LiveKind::CallFailed }, "● "@ + header)] + if sum.len() > 0 {
                        seq![(LiveKind::CallOutput, "└  "@ + sum)]
                    } else {
                        Seq::empty()
                    }
                },
            }
        },
        ActivitySpec::Warning(m) => seq![(LiveKind::Warning, "⚠ "@ + cap_chars(m, 70))],
        ActivitySpec::Failure(m, _) => seq![(LiveKind::Failure, "✗ "@ + cap_chars(m, 70))],
        _ => Seq::empty(),
    }
}

/// The rows of entries `shown[0..n]`.
pub open spec fn entries_rows(shown: Seq<ActivitySpec>, n: nat, all: Seq<ActivitySpec>, ms: nat, home: Option<Seq<char>>) -> Seq<LiveView>
    decreases n,
{
    if n == 0 || n > shown.len() {
        Seq::empty()
    } else {
        entries_rows(shown, (n - 1) as nat, all, ms, home) + entry_rows(shown[n - 1], all, ms, home)
    }
}

/// The live feed: the last eight calls, warnings and failures.
pub open spec fn live_rows(items: Seq<ActivitySpec>, ms: nat, home: Option<Seq<char>>) -> Seq<LiveView> {
    let shown = crate::toast::keep_last(feed_items(items), 8);
    entries_rows(shown, shown.len(), items, ms, home)
}

fn last_result_of<'a>(items: &'a Vec<ActivityItem>, id: &str) -> (r: Option<(bool, &'a str)>)
    ensures
        match last_result(items_view(items@), id@) {
            Some((ok, out)) => r matches Some((b, o)) && b == ok && o@ == out,
            None => r is None,
        },
{
    let ghost iv = items_view(items@);
    let idv = chars_of(id);
    let mut k = items.len();
    proof {
        assert(iv.take(k as int) =~= iv);
    }
    while k > 0
        invariant
            k <= items.len(),
            iv == items_view(items@),
            idv@ == id@,
            last_result(iv, id@) == last_result(iv.take(k as int), id@),
        decreases k,
    {
        proof {
            assert(iv.take(k as int).drop_last() =~= iv.take(k - 1));
            assert(iv.take(k as int).last() == items@[k - 1]@);
        }
        if let ActivityItem::ToolResult { id: rid, ok, output, .. } = &items[k - 1] {
            if crate::text::eq_chars(&chars_of(rid.as_str()), &idv) {
                return Some((*ok, output.as_str()));
            }
        }
        k = k - 1;
    }
    None
}

fn spin_frame_of(ms: u64) -> (r: char)
    ensures
        r == spin_frame(ms as nat),
{
    let k = ms / 100 % 6;
    if k == 0 {
        '⠋'
    } else if k == 1 {
        '⠙'
    } else if k == 2 {
        '⠸'
    } else if k == 3 {
        '⠴'
    } else if k == 4 {
        '⠦'
    } else {
        '⠇'
    }
}

fn capitalized_of(name: &str) -> (r: Vec<char>)
    ensures
        r@ == capitalized(name@),
{
    let v = chars_of(name);
    if v.len() == 0 {
        return v;
    }
    let mut out = chars_of(char_to_upper(v[0]).as_str());
    push_all(&mut out, &crate::text::sub_chars(&v, 1, v.len()));
    proof {
        assert(v@.subrange(1, v@.len() as int) =~= v@.drop_first());
    }
    out
}

fn push_entry_rows(out: &mut Vec<LiveRow>, item: &ActivityItem, all: &Vec<ActivityItem>, ms: u64, home: Option<&str>)
    ensures
        live_view(final(out)@) == live_view(old(out)@) + entry_rows(item@, items_view(all@), ms as nat, opt_view(home)),
{
    let ghost start = live_view(out@);
    match item {
        ActivityItem::ToolCall { id, name, arguments } => {
            let res = last_result_of(all, id.as_str());
            let k = chars_of(extract_key_arg(name.as_str(), arguments.as_str(), home).as_str());
            let mut header = capitalized_of(name.as_str());
            if k.len() > 0 {
                push_all(&mut header, &chars_of("("));
                push_all(&mut header, &k);
                push_all(&mut header, &chars_of(")"));
            }
            proof {
                let kk = key_arg(name@, arguments@, opt_view(home));
                assert(header@ == (if kk.len() == 0 {
                    capitalized(name@)
                } else {
                    capitalized(name@) + "("@ + kk + ")"@
                }));
            }
            match res {
                None => {
                    let mut v: Vec<char> = Vec::new();
                    v.push(spin_frame_of(ms));
                    v.push(' ');
                    push_all(&mut v, &header);
                    proof {
                        assert(v@ =~= seq![spin_frame(ms as nat), ' '] + header@);
                    }
                    push_live(out, LiveKind::CallPending, v);
                },
                Some((ok, output)) => {
                    let mut v = chars_of("● ");
                    push_all(&mut v, &header);
                    push_live(out, if ok {
                        LiveKind::CallSucceeded
                    } else {
                        LiveKind::CallFailed
                    }, v);
                    let decoded = extract_tool_output_text(output);
                    let sum = chars_of(summarize_tool_result(name.as_str(), decoded.as_str(), ok, home).as_str());
                    if sum.len() > 0 {
                        let mut s2 = chars_of("└  ");
                        push_all(&mut s2, &sum);
                        push_live(out, LiveKind::CallOutput, s2);
                    }
                },
            }
        },
        ActivityItem::Warning { message } => {
            let mut v = chars_of("⚠ ");
            push_all(&mut v, &cap_chars_of(&chars_of(message.as_str()), 70));
            push_live(out, LiveKind::Warning, v);
        },
        ActivityItem::Failure { message, .. } => {
            let mut v = chars_of("✗ ");
            push_all(&mut v, &cap_chars_of(&chars_of(message.as_str()), 70));
            push_live(out, LiveKind::Failure, v);
        },
        _ => {},
    }
    proof {
        assert(live_view(out@) =~= start + entry_rows(item@, items_view(all@), ms as nat, opt_view(home)));
    }
}

/// Entries to show in the feed at most.
pub const LIVE_FEED_ITEMS: usize = 8;

fn is_feed_item(item: &ActivityItem) -> (r: bool)
    ensures
        r == (item@ is ToolCall || item@ is Warning || item@ is Failure),
{
    match item {
        ActivityItem::ToolCall { .. } | ActivityItem::Warning { .. } | ActivityItem::Failure { .. } => true,
        _ => false,
    }
}

/// The live feed of `items` at time `ms`.
pub fn live_activity_lines(items: &Vec<ActivityItem>, ms: u64, home: Option<&str>) -> (r: Vec<LiveRow>)
    ensures
        live_view(r@) == live_rows(items_view(items@), ms as nat, opt_view(home)),
{
    let ghost iv = items_view(items@);
    // Indices of the entries the feed shows.
    let mut idx: Vec<usize> = Vec::new();
    let ghost mut fs: Seq<ActivitySpec> = Seq::empty();
    let mut i: usize = 0;
    proof {
        assert(iv.take(0) =~= Seq::<ActivitySpec>::empty());
    }
    while i < items.len()
        invariant
            i <= items.len(),
            iv == items_view(items@),
            fs == feed_items(iv.take(i as int)),
            idx@.len() == fs.len(),
            forall|k: int| 0 <= k < idx@.len() ==> idx@[k] < i,
            forall|k: int| 0 <= k < idx@.len() ==> #[trigger] fs[k] == iv[idx@[k] as int],
        decreases items.len() - i,
    {
        proof {
            assert(iv.take(i + 1).drop_last() =~= iv.take(i as int));
            assert(iv.take(i + 1).last() == iv[i as int]);
            assert(iv[i as int] == items@[i as int]@);
        }
        if is_feed_item(&items[i]) {
            idx.push(i);
            proof {
                assert(feed_items(iv.take(i + 1)) == fs.push(iv[i as int]));
                fs = fs.push(iv[i as int]);
            }
        } else {
            proof {
                assert(feed_items(iv.take(i + 1)) == fs);
            }
        }
        i = i + 1;
    }
    proof {
        assert(iv.take(items.len() as int) =~= iv);
    }
    let ghost fi = feed_items(iv);
    let n = idx.len();
    let from = if n > LIVE_FEED_ITEMS {
        n - LIVE_FEED_ITEMS
    } else {
        0
    };
    let ghost shown = crate::toast::keep_last(fi, 8);
    proof {
        assert(shown =~= fi.skip(from as int));
    }
    let mut out: Vec<LiveRow> = Vec::new();
    let mut j: usize = from;
    while j < n
        invariant
            from <= j <= n,
            n == idx@.len(),
            n == fi.len(),
            iv == items_view(items@),
            fi == feed_items(iv),
            shown == fi.skip(from as int),
            forall|k: int| 0 <= k < idx@.len() ==> idx@[k] < items@.len(),
            forall|k: int| 0 <= k < idx@.len() ==> #[trigger] fi[k] == iv[idx@[k] as int],
            live_view(out@) == entries_rows(shown, (j - from) as nat, iv, ms as nat, opt_view(home)),
        decreases n - j,
    {
        let item = &items[idx[j]];
        proof {
            assert(fi[j as int] == iv[idx@[j as int] as int]);
            assert(shown[(j - from) as int] == fi[j as int]);
            assert(item@ == iv[idx@[j as int] as int]);
        }
        let ghost before = live_view(out@);
        push_entry_rows(&mut out, item, items, ms, opt_home(home));
        proof {
            assert(entries_rows(shown, (j + 1 - from) as nat, iv, ms as nat, opt_view(home)) == before + entry_rows(
                shown[(j - from) as int],
                iv,
                ms as nat,
                opt_view(home),
            ));
        }
        j = j + 1;
    }
    out
}

fn opt_home(home: Option<&str>) -> (r: Option<&str>)
    ensures
        opt_view(r) == opt_view(home),
{
    home
}

proof fn lemma_entries_rows_bounded(shown: Seq<ActivitySpec>, n: nat, all: Seq<ActivitySpec>, ms: nat, home: Option<Seq<char>>)
    ensures
        entries_rows(shown, n, all, ms, home).len() <= 2 * n,
    decreases n,
{
    if n > 0 && n <= shown.len() {
        lemma_entries_rows_bounded(shown, (n - 1) as nat, all, ms, home);
    }
}

/// The live feed shows at most eight entries of at most two rows each.
pub proof fn law_live_feed_bounded(items: Seq<ActivitySpec>, ms: nat, home: Option<Seq<char>>)
    ensures
        live_rows(items, ms, home).len() <= 16,
{
    let shown = crate::toast::keep_last(feed_items(items), 8);
    lemma_entries_rows_bounded(shown, shown.len(), items, ms, home);
}

} // verus!
