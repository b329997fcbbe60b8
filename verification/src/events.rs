//! What the chat does with engine events: the streamed text it keeps, the
//! activity feed, how tool requests are routed by approval mode, and the
//! title given to an untitled session.
use vstd::prelude::*;
use std::collections::VecDeque;
use crate::toast::keep_last;
use crate::activity::ActivityItem;
use crate::approval::ApprovalMode;
use crate::text::{byte_len, byte_offset, chars_of, decimal, decimal_of, fits, lemma_byte_offset_step, lemma_byte_offset_bounded, push_all, string_of, sub_chars, trim, trim_chars, utf8_len_of};
use crate::tool_text::{replace_all, replace_chars};
use crate::transcript::{MessageRole, StoredMessage};

verus! {

broadcast use vstd::seq_lib::group_seq_properties;

// ── Streamed text ───────────────────────────────────────────────────────────

/// Streamed text is kept to 64 KiB: past that only the last 48 KiB stay
/// (from the first character boundary at or after the cut).
pub const STREAM_LIMIT: usize = 65536;
pub const STREAM_KEEP: usize = 49152;

/// The first character index `k >= from` whose byte offset is at least
/// `target`, or the length.
pub open spec fn boundary_from(s: Seq<char>, k: int, target: int) -> int
    decreases s.len() - k,
{
    if k < 0 || k >= s.len() || byte_offset(s, k) >= target {
        k
    } else {
        boundary_from(s, k + 1, target)
    }
}

/// `s` cut to the streaming limit.
pub open spec fn capped(s: Seq<char>) -> Seq<char> {
    if byte_len(s) > STREAM_LIMIT {
        s.skip(boundary_from(s, 0, byte_len(s) - STREAM_KEEP))
    } else {
        s
    }
}

proof fn lemma_boundary_from_bounds(s: Seq<char>, k: int, target: int)
    requires
        0 <= k <= s.len(),
    ensures
        k <= boundary_from(s, k, target) <= s.len(),
    decreases s.len() - k,
{
    if k < s.len() && byte_offset(s, k) < target {
        lemma_boundary_from_bounds(s, k + 1, target);
    }
}

/// Appends streamed `text` to `buf`, keeping it within the limit.
pub fn append_capped(buf: &mut String, text: &str)
    requires
        fits(old(buf)@ + text@),
    ensures
        final(buf)@ == capped(old(buf)@ + text@),
{
    let mut s = chars_of(buf.as_str());
    push_all(&mut s, &chars_of(text));
    let total = crate::text::byte_len_of(&s);
    if total <= STREAM_LIMIT {
        *buf = string_of(s.as_slice());
        return;
    }
    let target = total - STREAM_KEEP;
    let mut k: usize = 0;
    let mut acc: usize = 0;
    while k < s.len() && acc < target
        invariant
            k <= s.len(),
            acc == byte_offset(s@, k as int),
            total == byte_len(s@),
            target == total - STREAM_KEEP,
            boundary_from(s@, k as int, target as int) == boundary_from(s@, 0, target as int),
        decreases s.len() - k,
    {
        proof {
            lemma_byte_offset_step(s@, k as int);
            lemma_byte_offset_bounded(s@, k + 1);
        }
        acc = acc + utf8_len_of(s[k]);
        k = k + 1;
    }
    proof {
        lemma_boundary_from_bounds(s@, 0, target as int);
    }
    let rest = sub_chars(&s, k, s.len());
    *buf = string_of(rest.as_slice());
}

// ── The activity feed ───────────────────────────────────────────────────────

/// Most entries the activity pane keeps.
pub const ACTIVITY_LIMIT: usize = 200;

/// The activity pane: its entries and the selected one.
pub struct ActivityFeed {
    pub items: VecDeque<ActivityItem>,
    pub selected: usize,
}

/// The selection after an event: `len` entries before, `pushed` whether
/// one was added, `focused` whether the pane has the keyboard. Entries
/// beyond the limit are dropped from the front (the selection moves with
/// them); the selection follows the newest entry unless the pane has the
/// keyboard and the selection was not on the last entry.
pub open spec fn feed_after(len: nat, selected: nat, pushed: bool, focused: bool) -> (nat, nat) {
    let was_at_tail = selected + 1 >= len;
    let follow = !focused || was_at_tail;
    let len1 = if pushed { len + 1 } else { len };
    let drops: nat = if len1 > ACTIVITY_LIMIT { (len1 - ACTIVITY_LIMIT) as nat } else { 0 };
    let len2 = (len1 - drops) as nat;
    let sel1: nat = if selected >= drops { (selected - drops) as nat } else { 0 };
    let sel2: nat = if (follow && len2 > 0) || sel1 >= len2 {
        if len2 > 0 { (len2 - 1) as nat } else { 0 }
    } else {
        sel1
    };
    (len2, sel2)
}

impl ActivityFeed {
    pub fn new() -> (r: Self)
        ensures
            r.items@.len() == 0,
            r.selected == 0,
    {
        ActivityFeed { items: VecDeque::new(), selected: 0 }
    }

    /// Records the entry an event produced (if any): it is added last, and
    /// the oldest entries beyond the limit are dropped.
    pub fn record(&mut self, item: Option<ActivityItem>, focused: bool)
        requires
            old(self).items@.len() <= ACTIVITY_LIMIT,
        ensures
            final(self).items@ == keep_last(
                match item {
                    Some(x) => old(self).items@.push(x),
                    None => old(self).items@,
                },
                ACTIVITY_LIMIT as nat,
            ),
            (final(self).items@.len() as nat, final(self).selected as nat) == feed_after(
                old(self).items@.len() as nat,
                old(self).selected as nat,
                item is Some,
                focused,
            ),
            final(self).items@.len() <= ACTIVITY_LIMIT,
    {
        let len = self.items.len();
        let was_at_tail = self.selected >= len.saturating_sub(1);
        let follow = !focused || was_at_tail;
        let pushed = item.is_some();
        if let Some(it) = item {
            self.items.push_back(it);
        }
        let ghost s1 = self.items@;
        let ghost sel0 = self.selected;
        let ghost mut drops: nat = 0;
        assert(s1.len() == old(self).items@.len() + if pushed { 1nat } else { 0nat });
        assert(s1.skip(0) =~= s1);
        while self.items.len() > ACTIVITY_LIMIT
            invariant
                self.items@ == s1.skip(drops as int),
                drops <= s1.len(),
                drops > 0 ==> self.items@.len() >= ACTIVITY_LIMIT,
                s1.len() == old(self).items@.len() + if pushed { 1nat } else { 0nat },
                sel0 == old(self).selected,
                old(self).items@.len() <= ACTIVITY_LIMIT,
                s1.len() <= ACTIVITY_LIMIT + 1,
                drops <= 1,
                self.selected == if sel0 >= drops { (sel0 - drops) as nat } else { 0 },
            decreases self.items@.len(),
        {
            let _ = self.items.pop_front();
            if self.selected > 0 {
                self.selected = self.selected - 1;
            }
            proof {
                assert(s1.skip(drops as int).subrange(1, s1.skip(drops as int).len() as int) =~= s1.skip(
                    drops as int + 1,
                ));
                drops = drops + 1;
            }
        }
        proof {
            if drops == 0 {
                assert(s1.len() <= ACTIVITY_LIMIT);
            } else {
                assert(s1.len() - ACTIVITY_LIMIT == 1);
            }
        }
        let n = self.items.len();
        if (follow && n > 0) || self.selected >= n {
            self.selected = n.saturating_sub(1);
        }
    }
}

/// The feed never holds more than its limit, and the selection is on an
/// entry whenever there is one.
pub proof fn law_feed_bounded(len: nat, selected: nat, pushed: bool, focused: bool)
    requires
        len <= ACTIVITY_LIMIT,
    ensures
        feed_after(len, selected, pushed, focused).0 <= ACTIVITY_LIMIT,
        feed_after(len, selected, pushed, focused).0 > 0 ==> feed_after(len, selected, pushed, focused).1
            < feed_after(len, selected, pushed, focused).0,
{
}

// ── Routing tool requests ───────────────────────────────────────────────────

/// What happens to a tool request when it arrives.
#[derive(Debug, Clone, Copy, PartialEq, Eq, Structural)]
pub enum RequestRouting {
    /// Approved at once.
    Approve,
    /// Denied at once (plan mode).
    Deny,
    /// Shown to the user to answer.
    Ask,
}

/// Yolo approves everything, plan denies everything, accept-edits asks
/// only for commands, normal asks for everything.
pub fn route_approval_request(mode: ApprovalMode, is_command: bool) -> (r: RequestRouting)
    ensures
        r == match mode {
            ApprovalMode::Yolo => RequestRouting::Approve,
            ApprovalMode::Plan => RequestRouting::Deny,
            ApprovalMode::AcceptEdits => if is_command {
                RequestRouting::Ask
            } else {
                RequestRouting::Approve
            },
            ApprovalMode::Normal => RequestRouting::Ask,
        },
{
    match mode {
        ApprovalMode::Yolo => RequestRouting::Approve,
        ApprovalMode::Plan => RequestRouting::Deny,
        ApprovalMode::AcceptEdits => if is_command {
            RequestRouting::Ask
        } else {
            RequestRouting::Approve
        },
        ApprovalMode::Normal => RequestRouting::Ask,
    }
}

/// The notice of a retried model call, and how many seconds it is shown
/// (the delay, at least three).
pub fn retry_notice(attempt: u32, max_retries: u32, delay_secs: u64, reason: &str) -> (r: (String, u64))
    ensures
        r.0@ == "Retrying ("@ + decimal(attempt as nat) + seq!['/'] + decimal(max_retries as nat) + ") in "@
            + decimal(delay_secs as nat) + "s: "@ + reason@,
        r.1 == if delay_secs > 3 { delay_secs } else { 3 },
{
    let mut v = chars_of("Retrying (");
    push_all(&mut v, &decimal_of(attempt as u64));
    v.push('/');
    push_all(&mut v, &decimal_of(max_retries as u64));
    push_all(&mut v, &chars_of(") in "));
    push_all(&mut v, &decimal_of(delay_secs));
    push_all(&mut v, &chars_of("s: "));
    push_all(&mut v, &chars_of(reason));
    proof {
        assert(v@ =~= "Retrying ("@ + decimal(attempt as nat) + seq!['/'] + decimal(max_retries as nat)
            + ") in "@ + decimal(delay_secs as nat) + "s: "@ + reason@);
    }
    (string_of(v.as_slice()), if delay_secs > 3 {
        delay_secs
    } else {
        3
    })
}

// ── Naming a new session ────────────────────────────────────────────────────

/// Index of the last `' '` of `s`.
pub open spec fn last_space(s: Seq<char>) -> Option<nat>
    decreases s.len(),
{
    if s.len() == 0 {
        None
    } else if s.last() == ' ' {
        Some((s.len() - 1) as nat)
    } else {
        last_space(s.drop_last())
    }
}

/// The title made from a first prompt: trimmed, newlines as spaces; past
/// 50 characters cut at the last space of the first 50 (or at 50) and
/// marked `…`; none for a blank prompt.
pub open spec fn title_from(text: Seq<char>) -> Option<Seq<char>> {
    let clean = replace_all(trim(text), seq!['\n'], seq![' ']);
    if clean.len() == 0 {
        None
    } else if clean.len() > 50 {
        let short = clean.take(50);
        match last_space(short) {
            Some(pos) => Some(short.take(pos as int).push('…')),
            None => Some(short.push('…')),
        }
    } else {
        Some(clean)
    }
}

/// The title for an untitled session: from the text of its first user
/// message (none when that message has no text).
pub open spec fn auto_title_spec(msgs: Seq<(MessageRole, Option<Seq<char>>)>) -> Option<Seq<char>>
    decreases msgs.len(),
{
    if msgs.len() == 0 {
        None
    } else if msgs[0].0 == MessageRole::User {
        match msgs[0].1 {
            Some(t) => title_from(t),
            None => None,
        }
    } else {
        auto_title_spec(msgs.drop_first())
    }
}

pub open spec fn role_texts(msgs: Seq<StoredMessage>) -> Seq<(MessageRole, Option<Seq<char>>)> {
    msgs.map_values(|m: StoredMessage| (m.role, match m.content_text {
        Some(t) => Some(t@),
        None => None,
    }))
}

fn last_space_of(v: &Vec<char>) -> (r: Option<usize>)
    ensures
        match r {
            Some(j) => j < v.len() && last_space(v@) == Some(j as nat),
            None => last_space(v@) is None,
        },
{
    let mut k = v.len();
    while k > 0
        invariant
            k <= v.len(),
            last_space(v@) == last_space(v@.take(k as int)),
        decreases k,
    {
        proof {
            assert(v@.take(k as int).drop_last() =~= v@.take(k - 1));
            assert(v@.take(k as int).last() == v@[k - 1]);
        }
        if v[k - 1] == ' ' {
            return Some(k - 1);
        }
        k = k - 1;
    }
    proof {
        assert(v@.take(0) =~= Seq::<char>::empty());
    }
    None
}

pub fn title_from_prompt(text: &str) -> (r: Option<String>)
    ensures
        match title_from(text@) {
            Some(t) => r matches Some(s) && s@ == t,
            None => r is None,
        },
{
    let mut nl: Vec<char> = Vec::new();
    nl.push('\n');
    let mut sp: Vec<char> = Vec::new();
    sp.push(' ');
    proof {
        assert(nl@ =~= seq!['\n']);
        assert(sp@ =~= seq![' ']);
    }
    let clean = replace_chars(&trim_chars(&chars_of(text)), &nl, &sp);
    if clean.len() == 0 {
        return None;
    }
    if clean.len() > 50 {
        let short = sub_chars(&clean, 0, 50);
        let mut out = match last_space_of(&short) {
            Some(pos) => sub_chars(&short, 0, pos),
            None => sub_chars(&short, 0, 50),
        };
        out.push('…');
        proof {
            assert(short@ =~= clean@.take(50));
            assert(short@.subrange(0, 50) =~= short@);
        }
        return Some(string_of(out.as_slice()));
    }
    Some(string_of(clean.as_slice()))
}

/// The title for an untitled session with messages `messages`.
pub fn auto_session_title(messages: &Vec<StoredMessage>) -> (r: Option<String>)
    ensures
        match auto_title_spec(role_texts(messages@)) {
            Some(t) => r matches Some(s) && s@ == t,
            None => r is None,
        },
{
    let ghost mv = role_texts(messages@);
    let mut i: usize = 0;
    proof {
        assert(mv.skip(0) =~= mv);
    }
    while i < messages.len()
        invariant
            i <= messages.len(),
            mv == role_texts(messages@),
            auto_title_spec(mv) == auto_title_spec(mv.skip(i as int)),
        decreases messages.len() - i,
    {
        proof {
            assert(mv.skip(i as int).drop_first() =~= mv.skip(i + 1));
            assert(mv.skip(i as int)[0] == mv[i as int]);
        }
        if messages[i].role == MessageRole::User {
            return match &messages[i].content_text {
                Some(t) => title_from_prompt(t.as_str()),
                None => None,
            };
        }
        i = i + 1;
    }
    None
}

} // verus!
