//! Session messages and the text helpers that build the transcript from
//! them.
use vstd::prelude::*;
use crate::toast::{Notice, ToastVariant};
use crate::text::{chars_of, contains_exec, contains_seq, decimal, decimal_of, eq_chars, push_all, string_of};
use crate::tool_text::{
    editing_tool, extract_key_arg, is_editing_tool, key_arg, opt_view, parse_tool_payload, tool_payload,
};

verus! {

broadcast use vstd::seq_lib::group_seq_properties;

/// Who wrote a message.
#[derive(Debug, Clone, Copy, PartialEq, Eq, Structural)]
pub enum MessageRole {
    System,
    User,
    Assistant,
    Tool,
}

/// A tool call made by the assistant; `arguments` is JSON text.
pub struct ToolCall {
    pub id: String,
    pub name: String,
    pub arguments: String,
}

/// A message of a session. `content_text` is the content when it is a
/// string (tool results hold the JSON text of their payload).
pub struct StoredMessage {
    pub role: MessageRole,
    pub content_text: Option<String>,
    pub tool_name: Option<String>,
    pub tool_call_id: Option<String>,
    pub tool_calls: Vec<ToolCall>,
}

// ── How the transcript is laid out ──────────────────────────────────────────

/// A part of the transcript, naming messages by their index.
#[derive(Debug)]
pub enum TranscriptBlock {
    /// A user or assistant message.
    Message(usize),
    /// A run of tool results shown one by one.
    ToolDetails(Vec<usize>),
    /// A run of tool results folded into one summary line (with the diffs
    /// of its edits).
    ToolSummary(Vec<usize>),
    /// A run of tool results of which only the diffs of edits are shown.
    EditDiffs(Vec<usize>),
}

pub enum BlockSpec {
    Message(nat),
    ToolDetails(Seq<nat>),
    ToolSummary(Seq<nat>),
    EditDiffs(Seq<nat>),
}

pub open spec fn nats(v: Seq<usize>) -> Seq<nat> {
    v.map_values(|i: usize| i as nat)
}

impl View for TranscriptBlock {
    type V = BlockSpec;

    open spec fn view(&self) -> BlockSpec {
        match self {
            TranscriptBlock::Message(i) => BlockSpec::Message(*i as nat),
            TranscriptBlock::ToolDetails(v) => BlockSpec::ToolDetails(nats(v@)),
            TranscriptBlock::ToolSummary(v) => BlockSpec::ToolSummary(nats(v@)),
            TranscriptBlock::EditDiffs(v) => BlockSpec::EditDiffs(nats(v@)),
        }
    }
}

pub open spec fn blocks_view(v: Seq<TranscriptBlock>) -> Seq<BlockSpec> {
    v.map_values(|b: TranscriptBlock| b@)
}

/// Index of the last tool result among `roles`.
pub open spec fn last_tool(roles: Seq<MessageRole>) -> Option<nat>
    decreases roles.len(),
{
    if roles.len() == 0 {
        None
    } else if roles.last() == MessageRole::Tool {
        Some((roles.len() - 1) as nat)
    } else {
        last_tool(roles.drop_last())
    }
}

/// The state of the layout after reading a prefix of the messages: the
/// blocks so far, the pending run of tool results, whether that run holds
/// the last tool result, and whether the summary line was shown.
pub type PlanState = (Seq<BlockSpec>, Seq<nat>, bool, bool);

/// How a run of tool results is shown: one by one with details on; else
/// the run holding the last tool result is summarised (once), the others
/// show only their diffs.
pub open spec fn flush_run(run: Seq<nat>, details: bool, summarise: bool) -> BlockSpec {
    if details {
        BlockSpec::ToolDetails(run)
    } else if summarise {
        BlockSpec::ToolSummary(run)
    } else {
        BlockSpec::EditDiffs(run)
    }
}

/// One message read.
pub open spec fn plan_step(st: PlanState, i: nat, role: MessageRole, last: Option<nat>, details: bool) -> PlanState {
    let (blocks, run, has_last, shown) = st;
    if role == MessageRole::System {
        st
    } else if role == MessageRole::Tool {
        (blocks, run.push(i), has_last || last == Some(i), shown)
    } else if run.len() > 0 {
        let summarise = !details && has_last && !shown;
        (blocks.push(flush_run(run, details, summarise)).push(BlockSpec::Message(i)), Seq::empty(), false,
            shown || summarise)
    } else {
        (blocks.push(BlockSpec::Message(i)), run, has_last, shown)
    }
}

pub open spec fn plan_prefix(roles: Seq<MessageRole>, n: nat, details: bool) -> PlanState
    decreases n,
{
    if n == 0 || n > roles.len() {
        (Seq::empty(), Seq::empty(), false, false)
    } else {
        plan_step(plan_prefix(roles, (n - 1) as nat, details), (n - 1) as nat, roles[n - 1], last_tool(roles), details)
    }
}

/// The blocks of a transcript of messages with roles `roles`; system
/// messages are not shown, and a trailing run of tool results is shown as
/// the others are (summarised if no summary was shown yet).
pub open spec fn transcript_plan(roles: Seq<MessageRole>, details: bool) -> Seq<BlockSpec> {
    let (blocks, run, _, shown) = plan_prefix(roles, roles.len(), details);
    if run.len() == 0 {
        blocks
    } else {
        blocks.push(flush_run(run, details, !details && !shown))
    }
}

fn last_tool_of(roles: &Vec<MessageRole>) -> (r: Option<usize>)
    ensures
        match r {
            Some(j) => last_tool(roles@) == Some(j as nat),
            None => last_tool(roles@) is None,
        },
{
    let mut k = roles.len();
    while k > 0
        invariant
            k <= roles.len(),
            last_tool(roles@) == last_tool(roles@.take(k as int)),
        decreases k,
    {
        proof {
            assert(roles@.take(k as int).drop_last() =~= roles@.take(k - 1));
            assert(roles@.take(k as int).last() == roles@[k - 1]);
        }
        if roles[k - 1] == MessageRole::Tool {
            return Some(k - 1);
        }
        k = k - 1;
    }
    proof {
        assert(roles@.take(0) =~= Seq::<MessageRole>::empty());
    }
    None
}

fn flush_run_of(run: Vec<usize>, details: bool, summarise: bool) -> (r: TranscriptBlock)
    ensures
        r@ == flush_run(nats(run@), details, summarise),
{
    if details {
        TranscriptBlock::ToolDetails(run)
    } else if summarise {
        TranscriptBlock::ToolSummary(run)
    } else {
        TranscriptBlock::EditDiffs(run)
    }
}

/// The blocks of the transcript for messages with roles `roles`, with tool
/// details on or off.
pub fn plan_transcript(roles: &Vec<MessageRole>, tool_details: bool) -> (r: Vec<TranscriptBlock>)
    ensures
        blocks_view(r@) == transcript_plan(roles@, tool_details),
{
    let last = last_tool_of(roles);
    let ghost lastv = last_tool(roles@);
    let mut blocks: Vec<TranscriptBlock> = Vec::new();
    let mut run: Vec<usize> = Vec::new();
    let mut has_last = false;
    let mut shown = false;
    let mut i: usize = 0;
    proof {
        assert(blocks_view(blocks@) =~= Seq::<BlockSpec>::empty());
        assert(nats(run@) =~= Seq::<nat>::empty());
    }
    while i < roles.len()
        invariant
            i <= roles.len(),
            match last {
                Some(j) => lastv == Some(j as nat),
                None => lastv is None,
            },
            lastv == last_tool(roles@),
            (blocks_view(blocks@), nats(run@), has_last, shown) == plan_prefix(roles@, i as nat, tool_details),
            forall|j: int| 0 <= j < run@.len() ==> run@[j] < i,
        decreases roles.len() - i,
    {
        let role = roles[i];
        let ghost bv = blocks_view(blocks@);
        let ghost rv = nats(run@);
        proof {
            assert(plan_prefix(roles@, (i + 1) as nat, tool_details) == plan_step(
                plan_prefix(roles@, i as nat, tool_details),
                i as nat,
                roles@[i as int],
                lastv,
                tool_details,
            ));
            assert((last == Some(i)) == (lastv == Some(i as nat)));
        }
        if role == MessageRole::System {
        } else if role == MessageRole::Tool {
            run.push(i);
            if last == Some(i) {
                has_last = true;
            }
            proof {
                assert(nats(run@) =~= rv.push(i as nat));
            }
        } else if run.len() > 0 {
            let summarise = !tool_details && has_last && !shown;
            let mut taken: Vec<usize> = Vec::new();
            std::mem::swap(&mut taken, &mut run);
            blocks.push(flush_run_of(taken, tool_details, summarise));
            blocks.push(TranscriptBlock::Message(i));
            has_last = false;
            shown = shown || summarise;
            proof {
                assert(blocks_view(blocks@) =~= bv.push(flush_run(rv, tool_details, summarise)).push(
                    BlockSpec::Message(i as nat),
                ));
                assert(nats(run@) =~= Seq::<nat>::empty());
            }
        } else {
            blocks.push(TranscriptBlock::Message(i));
            proof {
                assert(blocks_view(blocks@) =~= bv.push(BlockSpec::Message(i as nat)));
            }
        }
        i = i + 1;
    }
    if run.len() > 0 {
        let ghost bv = blocks_view(blocks@);
        let ghost rv = nats(run@);
        blocks.push(flush_run_of(run, tool_details, !tool_details && !shown));
        proof {
            assert(blocks_view(blocks@) =~= bv.push(flush_run(rv, tool_details, !tool_details && !shown)));
        }
    }
    blocks
}

pub open spec fn count_summaries(bs: Seq<BlockSpec>) -> nat
    decreases bs.len(),
{
    if bs.len() == 0 {
        0
    } else {
        count_summaries(bs.drop_last()) + if bs.last() is ToolSummary {
            1nat
        } else {
            0nat
        }
    }
}

proof fn lemma_summaries_tracked(roles: Seq<MessageRole>, n: nat, details: bool)
    ensures
        count_summaries(plan_prefix(roles, n, details).0) == if plan_prefix(roles, n, details).3 {
            1nat
        } else {
            0nat
        },
    decreases n,
{
    if n == 0 || n > roles.len() {
        assert(plan_prefix(roles, n, details).0 =~= Seq::<BlockSpec>::empty());
    } else {
        let prev = plan_prefix(roles, (n - 1) as nat, details);
        lemma_summaries_tracked(roles, (n - 1) as nat, details);
        let (blocks, run, has_last, shown) = prev;
        let role = roles[n - 1];
        assert(plan_prefix(roles, n, details) == plan_step(prev, (n - 1) as nat, role, last_tool(roles), details));
        if role != MessageRole::System && role != MessageRole::Tool && run.len() > 0 {
            let summarise = !details && has_last && !shown;
            let b1 = blocks.push(flush_run(run, details, summarise));
            let b2 = b1.push(BlockSpec::Message((n - 1) as nat));
            assert(b2.drop_last() =~= b1);
            assert(b1.drop_last() =~= blocks);
            assert(count_summaries(b2) == count_summaries(b1));
            assert(count_summaries(b1) == count_summaries(blocks) + if summarise { 1nat } else { 0nat });
        } else if role != MessageRole::System && role != MessageRole::Tool {
            let b1 = blocks.push(BlockSpec::Message((n - 1) as nat));
            assert(b1.drop_last() =~= blocks);
        }
    }
}

/// With tool details off, at most one run of tool results is folded into
/// a summary line (the run that holds the last tool result); with details
/// on, none is.
pub proof fn law_at_most_one_summary(roles: Seq<MessageRole>, details: bool)
    ensures
        count_summaries(transcript_plan(roles, details)) <= 1,
        details ==> count_summaries(transcript_plan(roles, details)) == 0,
{
    lemma_summaries_tracked(roles, roles.len(), details);
    let (blocks, run, _, shown) = plan_prefix(roles, roles.len(), details);
    if run.len() > 0 {
        let b1 = blocks.push(flush_run(run, details, !details && !shown));
        assert(b1.drop_last() =~= blocks);
    }
    if details {
        lemma_no_summaries_with_details(roles, roles.len());
    }
}

proof fn lemma_no_summaries_with_details(roles: Seq<MessageRole>, n: nat)
    ensures
        !plan_prefix(roles, n, true).3,
    decreases n,
{
    if n > 0 && n <= roles.len() {
        lemma_no_summaries_with_details(roles, (n - 1) as nat);
    }
}

/// Whether a tool result's diff is shown: an edit that succeeded and whose
/// output holds a diff (`"\n@@diff\n"`).
pub open spec fn shows_diff(tool: Seq<char>, content: Seq<char>) -> bool {
    editing_tool(tool) && match tool_payload(content) {
        Some((ok, _, output)) => ok && contains_seq(output, seq!['\n', '@', '@', 'd', 'i', 'f', 'f', '\n']),
        None => false,
    }
}

pub fn tool_result_shows_diff(tool: &str, content: &str) -> (r: bool)
    ensures
        r == shows_diff(tool@, content@),
{
    if !is_editing_tool(tool) {
        return false;
    }
    match parse_tool_payload(content) {
        Some((ok, _, output)) => {
            let mut marker: Vec<char> = Vec::new();
            marker.push('\n');
            marker.push('@');
            marker.push('@');
            marker.push('d');
            marker.push('i');
            marker.push('f');
            marker.push('f');
            marker.push('\n');
            proof {
                assert(marker@ =~= seq!['\n', '@', '@', 'd', 'i', 'f', 'f', '\n']);
            }
            ok && contains_exec(&chars_of(output.as_str()), &marker)
        },
        None => false,
    }
}

/// Whether a tool result reports a failure (`ok` false).
pub open spec fn failed_result(content: Seq<char>) -> bool {
    match tool_payload(content) {
        Some((ok, _, _)) => !ok,
        None => false,
    }
}

pub fn tool_result_failed(content: &str) -> (r: bool)
    ensures
        r == failed_result(content@),
{
    match parse_tool_payload(content) {
        Some((ok, _, _)) => !ok,
        None => false,
    }
}

/// `name`, with `(key_arg)` after it when there is a key argument.
pub open spec fn summary_label(name: Seq<char>, key_arg: Seq<char>) -> Seq<char> {
    if key_arg.len() == 0 {
        name
    } else {
        name + seq!['('] + key_arg + seq![')']
    }
}

/// `  +N more tool use(s)` for the `N` results before the latest.
pub open spec fn more_text(total: nat) -> Seq<char> {
    let prior = if total > 0 { (total - 1) as nat } else { 0 };
    if prior > 0 {
        "  +"@ + decimal(prior) + " more tool use"@ + if prior == 1 {
            Seq::<char>::empty()
        } else {
            seq!['s']
        }
    } else {
        Seq::empty()
    }
}

/// `  N ✗` for `N` failed results.
pub open spec fn failures_text(failures: nat) -> Seq<char> {
    if failures > 0 {
        "  "@ + decimal(failures) + " ✗"@
    } else {
        Seq::empty()
    }
}

/// The folded summary line of a run of `total` tool results, the latest
/// being `name` with key argument `key_arg`, `failures` of them failed.
pub open spec fn summary_line(name: Seq<char>, key_arg: Seq<char>, total: nat, failures: nat) -> Seq<char> {
    "  ▶ "@ + summary_label(name, key_arg) + more_text(total) + failures_text(failures)
        + "  (ctrl+o to expand)"@
}

fn summary_label_of(name: &str, key_arg: &str) -> (r: Vec<char>)
    ensures
        r@ == summary_label(name@, key_arg@),
{
    let mut label = chars_of(name);
    let k = chars_of(key_arg);
    if k.len() > 0 {
        label.push('(');
        push_all(&mut label, &k);
        label.push(')');
        proof {
            assert(label@ =~= name@ + seq!['('] + key_arg@ + seq![')']);
        }
    }
    label
}

pub(crate) fn more_text_of(total: usize) -> (r: Vec<char>)
    ensures
        r@ == more_text(total as nat),
{
    let prior = total.saturating_sub(1);
    let mut v: Vec<char> = Vec::new();
    if prior > 0 {
        v = chars_of("  +");
        push_all(&mut v, &decimal_of(prior as u64));
        push_all(&mut v, &chars_of(" more tool use"));
        let ghost base = v@;
        if prior != 1 {
            v.push('s');
        }
        proof {
            if prior == 1 {
                assert(v@ =~= base + Seq::<char>::empty());
            } else {
                assert(v@ =~= base + seq!['s']);
            }
        }
    }
    v
}

fn failures_text_of(failures: usize) -> (r: Vec<char>)
    ensures
        r@ == failures_text(failures as nat),
{
    let mut v: Vec<char> = Vec::new();
    if failures > 0 {
        v = chars_of("  ");
        push_all(&mut v, &decimal_of(failures as u64));
        push_all(&mut v, &chars_of(" ✗"));
    }
    v
}

pub fn combined_summary_line(name: &str, key_arg: &str, total: usize, failures: usize) -> (r: String)
    ensures
        r@ == summary_line(name@, key_arg@, total as nat, failures as nat),
{
    let mut v = chars_of("  ▶ ");
    push_all(&mut v, &summary_label_of(name, key_arg));
    push_all(&mut v, &more_text_of(total));
    push_all(&mut v, &failures_text_of(failures));
    push_all(&mut v, &chars_of("  (ctrl+o to expand)"));
    string_of(v.as_slice())
}

// ── Searching the transcript ────────────────────────────────────────────────

/// The scroll offset (lines up from the bottom) that brings line
/// `line_idx` of `total` into a viewport `viewport_h` rows high (two of
/// them borders), two lines below its top where possible.
pub open spec fn jump_scroll(line_idx: nat, viewport_h: nat, total: nat) -> nat {
    let vh: nat = if viewport_h >= 3 { (viewport_h - 2) as nat } else { 1 };
    if total <= vh {
        0
    } else {
        let max_scroll = (total - vh) as nat;
        let top: nat = if line_idx >= 2 { (line_idx - 2) as nat } else { 0 };
        let top2 = if top < max_scroll { top } else { max_scroll };
        (max_scroll - top2) as nat
    }
}

pub fn jump_transcript_scroll(line_idx: usize, viewport_h: u16, total_lines: usize) -> (r: usize)
    ensures
        r == jump_scroll(line_idx as nat, viewport_h as nat, total_lines as nat),
{
    let vh0 = viewport_h.saturating_sub(2);
    let vh: usize = if vh0 < 1 {
        1
    } else {
        vh0 as usize
    };
    if total_lines <= vh {
        return 0;
    }
    let max_scroll = total_lines - vh;
    let top = line_idx.saturating_sub(2);
    let top2 = if top < max_scroll {
        top
    } else {
        max_scroll
    };
    max_scroll - top2
}

/// After a jump the line is on screen: the window of the viewport (from
/// `total - vh - scroll` to `total - scroll`) holds it, when the viewport
/// has at least three rows inside its borders.
pub proof fn law_jump_shows_line(line_idx: nat, viewport_h: nat, total: nat)
    requires
        viewport_h >= 5,
        line_idx < total,
    ensures
        ({
            let vh = (viewport_h - 2) as nat;
            let scroll = jump_scroll(line_idx, viewport_h, total);
            total <= vh || (total - vh - scroll <= line_idx && line_idx < total - scroll)
        }),
{
}

/// The match after `current` (wrapping) among `n` matches.
pub open spec fn next_match(current: nat, n: nat) -> nat {
    let base = if current < n { current } else { (n - 1) as nat };
    (base + 1) % n
}

/// The match before `current` (wrapping) among `n` matches.
pub open spec fn prev_match(current: nat, n: nat) -> nat {
    let base = if current < n { current } else { (n - 1) as nat };
    if base == 0 {
        (n - 1) as nat
    } else {
        (base - 1) as nat
    }
}

pub fn find_next_index(current: usize, n: usize) -> (r: usize)
    requires
        n > 0,
    ensures
        r == next_match(current as nat, n as nat),
        r < n,
{
    let base = if current < n {
        current
    } else {
        n - 1
    };
    (base + 1) % n
}

pub fn find_prev_index(current: usize, n: usize) -> (r: usize)
    requires
        n > 0,
    ensures
        r == prev_match(current as nat, n as nat),
        r < n,
{
    let base = if current < n {
        current
    } else {
        n - 1
    };
    if base == 0 {
        n - 1
    } else {
        base - 1
    }
}

/// Going to the next match and back to the previous one returns to the
/// same match, and so does the other order.
pub proof fn law_next_prev_inverse(current: nat, n: nat)
    requires
        current < n,
    ensures
        prev_match(next_match(current, n), n) == current,
        next_match(prev_match(current, n), n) == current,
{
    if current + 1 < n {
        assert((current + 1) % n == current + 1) by (nonlinear_arith)
            requires
                current + 1 < n,
        ;
    } else {
        assert((current + 1) % n == 0) by (nonlinear_arith)
            requires
                current + 1 == n,
        ;
    }
    if current > 0 {
        assert(current % n == current) by (nonlinear_arith)
            requires
                current < n,
        ;
    } else {
        assert(((n - 1) as nat + 1) % n == 0) by (nonlinear_arith)
            requires
                n > 0,
        ;
    }
}

/// The text shown when the search lands on match `current` of `n`.
pub fn match_notice(current: usize, n: usize) -> (r: String)
    requires
        current < usize::MAX,
    ensures
        r@ == "match "@ + decimal(current as nat + 1) + seq!['/'] + decimal(n as nat),
{
    let mut v = chars_of("match ");
    push_all(&mut v, &decimal_of((current + 1) as u64));
    v.push('/');
    push_all(&mut v, &decimal_of(n as u64));
    proof {
        assert(v@ =~= "match "@ + decimal(current as nat + 1) + seq!['/'] + decimal(n as nat));
    }
    string_of(v.as_slice())
}

/// What "next match" (`forward`) or "previous match" does.
#[derive(Debug, Clone, Copy, PartialEq, Eq, Structural)]
pub enum FindStep {
    /// No search is active.
    NoSearch,
    /// The query matches nothing (any remembered matches are dropped).
    NoMatches,
    /// Go to match `current`, on transcript line `line`.
    Jump { current: usize, line: usize },
}

/// With a search `active` on match `current` and its `matches` (line
/// indices) found anew, the step to the next or previous match, wrapping.
pub fn find_step(active: bool, current: usize, matches: &Vec<usize>, forward: bool) -> (r: FindStep)
    ensures
        !active ==> r == FindStep::NoSearch,
        active && matches@.len() == 0 ==> r == FindStep::NoMatches,
        active && matches@.len() > 0 ==> {
            let c = if forward {
                next_match(current as nat, matches@.len())
            } else {
                prev_match(current as nat, matches@.len())
            };
            r == FindStep::Jump { current: c as usize, line: matches@[c as int] }
        },
{
    if !active {
        return FindStep::NoSearch;
    }
    if matches.len() == 0 {
        return FindStep::NoMatches;
    }
    let c = if forward {
        find_next_index(current, matches.len())
    } else {
        find_prev_index(current, matches.len())
    };
    FindStep::Jump { current: c, line: matches[c] }
}

/// The notice of a find step among `total` matches (for two seconds).
pub fn find_notice(step: FindStep, total: usize) -> (r: Notice)
    requires
        step matches FindStep::Jump { current, .. } ==> current < total,
    ensures
        r.ttl_ms == 2000,
        match step {
            FindStep::NoSearch => r.variant == ToastVariant::Warning && r.message@ == "no active search"@,
            FindStep::NoMatches => r.variant == ToastVariant::Warning && r.message@ == "no matches"@,
            FindStep::Jump { current, .. } => r.variant == ToastVariant::Info && r.message@ == "match "@
                + decimal(current as nat + 1) + seq!['/'] + decimal(total as nat),
        },
{
    match step {
        FindStep::NoSearch => Notice { variant: ToastVariant::Warning, message: "no active search".to_owned(), ttl_ms: 2000 },
        FindStep::NoMatches => Notice { variant: ToastVariant::Warning, message: "no matches".to_owned(), ttl_ms: 2000 },
        FindStep::Jump { current, .. } => Notice {
            variant: ToastVariant::Info,
            message: match_notice(current, total),
            ttl_ms: 2000,
        },
    }
}

/// How a transcript line is marked while searching.
#[derive(Debug, Clone, Copy, PartialEq, Eq, Structural)]
pub enum FindMark {
    Plain,
    /// A match.
    Match,
    /// The match the search is on.
    Current,
}

/// Line `idx` is marked when the (trimmed) query is not blank and it is
/// one of the matches; the current match is marked apart.
pub fn find_mark(query_blank: bool, matches: &Vec<usize>, current: usize, idx: usize) -> (r: FindMark)
    ensures
        r == (if query_blank || matches@.len() == 0 || !matches@.contains(idx) {
            FindMark::Plain
        } else if current < matches@.len() && matches@[current as int] == idx {
            FindMark::Current
        } else {
            FindMark::Match
        }),
{
    if query_blank || matches.len() == 0 {
        return FindMark::Plain;
    }
    let mut found = false;
    let mut j: usize = 0;
    while j < matches.len()
        invariant
            j <= matches.len(),
            found == (exists|t: int| 0 <= t < j && matches@[t] == idx),
        decreases matches.len() - j,
    {
        if matches[j] == idx {
            found = true;
        }
        j = j + 1;
    }
    if !found {
        return FindMark::Plain;
    }
    proof {
        let t = choose|t: int| 0 <= t < matches@.len() && matches@[t] == idx;
        assert(matches@.contains(idx));
    }
    if current < matches.len() && matches[current] == idx {
        FindMark::Current
    } else {
        FindMark::Match
    }
}


// ── The summary line of a batch of tool results ────────────────────────────

/// The arguments of the last tool call with id `id` among the calls `calls`.
pub open spec fn last_call_args(calls: Seq<ToolCall>, id: Seq<char>) -> Option<Seq<char>>
    decreases calls.len(),
{
    if calls.len() == 0 {
        None
    } else if calls.last().id@ == id {
        Some(calls.last().arguments@)
    } else {
        last_call_args(calls.drop_last(), id)
    }
}

/// The arguments recorded for call `id`: those of the latest assistant call
/// with that id (a later call with the same id replaces an earlier one).
pub open spec fn call_arguments(ms: Seq<StoredMessage>, id: Seq<char>) -> Option<Seq<char>>
    decreases ms.len(),
{
    if ms.len() == 0 {
        None
    } else {
        let here = if ms.last().role == MessageRole::Assistant {
            last_call_args(ms.last().tool_calls@, id)
        } else {
            None
        };
        match here {
            Some(a) => Some(a),
            None => call_arguments(ms.drop_last(), id),
        }
    }
}

/// The text content of a message (empty when it is not a string).
pub open spec fn content_of(m: StoredMessage) -> Seq<char> {
    match m.content_text {
        Some(t) => t@,
        None => Seq::empty(),
    }
}

/// How many results of the batch (indices into `ms`) report a failure.
pub open spec fn batch_failures(ms: Seq<StoredMessage>, batch: Seq<usize>) -> nat
    decreases batch.len(),
{
    if batch.len() == 0 {
        0
    } else {
        batch_failures(ms, batch.drop_last()) + if failed_result(content_of(ms[batch.last() as int])) {
            1nat
        } else {
            0nat
        }
    }
}

/// The tool named by the latest result of a batch (`tool` when unnamed).
pub open spec fn result_tool_name(m: StoredMessage) -> Seq<char> {
    match m.tool_name {
        Some(n) => n@,
        None => "tool"@,
    }
}

/// The key argument of a result's call, read from the recorded arguments.
pub open spec fn result_key_arg(ms: Seq<StoredMessage>, m: StoredMessage, home: Option<Seq<char>>) -> Seq<char> {
    match m.tool_call_id {
        Some(id) => match call_arguments(ms, id@) {
            Some(a) => key_arg(result_tool_name(m), a, home),
            None => Seq::empty(),
        },
        None => Seq::empty(),
    }
}

/// The folded line of a batch of tool results: its latest result's tool and
/// key argument, how many results came before it, and how many failed.
pub open spec fn batch_summary_spec(ms: Seq<StoredMessage>, batch: Seq<usize>, home: Option<Seq<char>>) -> Seq<char> {
    let latest = ms[batch.last() as int];
    summary_line(
        result_tool_name(latest),
        result_key_arg(ms, latest, home),
        batch.len(),
        batch_failures(ms, batch),
    )
}

fn last_call_args_of(calls: &Vec<ToolCall>, id: &Vec<char>) -> (r: Option<String>)
    ensures
        match last_call_args(calls@, id@) {
            Some(a) => r matches Some(x) && x@ == a,
            None => r is None,
        },
{
    let mut i = calls.len();
    proof {
        assert(calls@.take(i as int) =~= calls@);
    }
    while i > 0
        invariant
            i <= calls.len(),
            last_call_args(calls@, id@) == last_call_args(calls@.take(i as int), id@),
        decreases i,
    {
        proof {
            assert(calls@.take(i as int).drop_last() =~= calls@.take(i - 1));
            assert(calls@.take(i as int).last() == calls@[i - 1]);
        }
        let c = &calls[i - 1];
        if eq_chars(&chars_of(c.id.as_str()), id) {
            return Some(string_of(chars_of(c.arguments.as_str()).as_slice()));
        }
        i = i - 1;
    }
    None
}

fn call_arguments_of(ms: &Vec<StoredMessage>, id: &Vec<char>) -> (r: Option<String>)
    ensures
        match call_arguments(ms@, id@) {
            Some(a) => r matches Some(x) && x@ == a,
            None => r is None,
        },
{
    let mut i = ms.len();
    proof {
        assert(ms@.take(i as int) =~= ms@);
    }
    while i > 0
        invariant
            i <= ms.len(),
            call_arguments(ms@, id@) == call_arguments(ms@.take(i as int), id@),
        decreases i,
    {
        proof {
            assert(ms@.take(i as int).drop_last() =~= ms@.take(i - 1));
            assert(ms@.take(i as int).last() == ms@[i - 1]);
        }
        let m = &ms[i - 1];
        if m.role == MessageRole::Assistant {
            if let Some(a) = last_call_args_of(&m.tool_calls, id) {
                return Some(a);
            }
        }
        i = i - 1;
    }
    None
}

/// The folded summary line of a batch of tool results (`batch` holds their
/// indices into `messages`, oldest first).
pub fn tool_batch_summary(messages: &Vec<StoredMessage>, batch: &Vec<usize>, home: Option<&str>) -> (r: String)
    requires
        batch@.len() > 0,
        forall|i: int| 0 <= i < batch@.len() ==> #[trigger] batch@[i] < messages@.len(),
    ensures
        r@ == batch_summary_spec(messages@, batch@, opt_view(home)),
{
    let mut failures: usize = 0;
    let mut i: usize = 0;
    while i < batch.len()
        invariant
            i <= batch.len(),
            forall|j: int| 0 <= j < batch@.len() ==> #[trigger] batch@[j] < messages@.len(),
            failures == batch_failures(messages@, batch@.take(i as int)),
            failures <= i,
        decreases batch.len() - i,
    {
        proof {
            assert(batch@.take(i as int + 1).drop_last() =~= batch@.take(i as int));
            assert(batch@.take(i as int + 1).last() == batch@[i as int]);
        }
        let m = &messages[batch[i]];
        let failed = match &m.content_text {
            Some(t) => tool_result_failed(t.as_str()),
            None => tool_result_failed(""),
        };
        proof {
            reveal_strlit("");
            assert(""@ =~= Seq::<char>::empty());
        }
        if failed {
            failures = failures + 1;
        }
        i = i + 1;
    }
    proof {
        assert(batch@.take(batch.len() as int) =~= batch@);
    }
    let latest = &messages[batch[batch.len() - 1]];
    let name = match &latest.tool_name {
        Some(n) => string_of(chars_of(n.as_str()).as_slice()),
        None => "tool".to_owned(),
    };
    let key = match &latest.tool_call_id {
        Some(id) => match call_arguments_of(messages, &chars_of(id.as_str())) {
            Some(a) => extract_key_arg(name.as_str(), a.as_str(), home),
            None => String::new(),
        },
        None => String::new(),
    };
    combined_summary_line(name.as_str(), key.as_str(), batch.len(), failures)
}

} // verus!
