//! Prompt history: recalling earlier prompts into the composer with
//! Alt+Up/Alt+Down, and building the history from a session's messages.
use vstd::prelude::*;
use crate::composer::{composer_set, Composer};
use crate::text::{byte_len, chars_of, fits, string_of, trim, trim_chars, eq_chars};
use crate::transcript::{MessageRole, StoredMessage};

verus! {

broadcast use vstd::seq_lib::group_seq_properties;

/// Earlier prompts, the entry being shown (if any), and the composer text
/// that was there before browsing started.
pub struct PromptHistory {
    pub entries: Vec<String>,
    pub cursor: Option<usize>,
    pub draft: String,
}

/// Abstract history: entries, cursor, draft.
pub type HistoryModel = (Seq<Seq<char>>, Option<nat>, Seq<char>);

pub open spec fn history_model(h: PromptHistory) -> HistoryModel {
    (h.entries@.map_values(|e: String| e@), match h.cursor {
        Some(i) => Some(i as nat),
        None => None,
    }, h.draft@)
}

/// All entries and the draft fit in memory.
pub open spec fn history_fits(h: PromptHistory) -> bool {
    &&& fits(h.draft@)
    &&& forall|i: int| 0 <= i < h.entries@.len() ==> fits(#[trigger] h.entries@[i]@)
}

/// Alt+Up: the history and composer text after stepping to the previous
/// entry. From the composer (no entry shown) it goes to the newest entry and
/// keeps the composer text as the draft.
pub open spec fn after_prev(h: HistoryModel, text: Seq<char>) -> (HistoryModel, Seq<char>) {
    let (entries, cursor, draft) = h;
    if entries.len() == 0 {
        (h, text)
    } else {
        let next: nat = match cursor {
            None => (entries.len() - 1) as nat,
            Some(i) => if i == 0 {
                0
            } else {
                (i - 1) as nat
            },
        };
        let new_draft = if cursor is None {
            text
        } else {
            draft
        };
        ((entries, Some(next), new_draft), if next < entries.len() {
            entries[next as int]
        } else {
            text
        })
    }
}

/// Alt+Down: the history and composer text after stepping to the next
/// entry; past the newest entry the draft comes back.
pub open spec fn after_next(h: HistoryModel, text: Seq<char>) -> (HistoryModel, Seq<char>) {
    let (entries, cursor, draft) = h;
    match cursor {
        None => (h, text),
        Some(i) => if i + 1 >= entries.len() {
            ((entries, None, draft), draft)
        } else {
            ((entries, Some((i + 1) as nat), draft), entries[i + 1 as int])
        },
    }
}

/// Steps to the previous history entry (Alt+Up).
pub fn history_prev(h: &mut PromptHistory, c: &mut Composer)
    requires
        history_fits(*old(h)),
        fits(old(c).text@),
    ensures
        history_fits(*final(h)),
        ({
            let (m, t) = after_prev(history_model(*old(h)), old(c).text@);
            &&& history_model(*final(h)) == m
            &&& final(c).text@ == t
            &&& (m.1 matches Some(k) && k < m.0.len()) ==> final(c).cursor == byte_len(t)
                && !final(c).cleared_by_interrupt
            &&& !(m.1 matches Some(k) && k < m.0.len()) ==> final(c).cursor == old(c).cursor
                && final(c).cleared_by_interrupt == old(c).cleared_by_interrupt
        }),
        final(c).text@ == old(c).text@ ==> fits(final(c).text@),
{
    if h.entries.len() == 0 {
        return;
    }
    let next = match h.cursor {
        None => {
            h.draft = string_of(chars_of(c.text.as_str()).as_slice());
            h.entries.len() - 1
        },
        Some(0) => 0,
        Some(idx) => idx - 1,
    };
    h.cursor = Some(next);
    if next < h.entries.len() {
        let v = string_of(chars_of(h.entries[next].as_str()).as_slice());
        proof {
            assert(fits(h.entries@[next as int]@));
        }
        composer_set(c, v);
    }
    proof {
        assert(history_model(*h).0 =~= history_model(*old(h)).0);
    }
}

/// Steps to the next history entry (Alt+Down), or back to the draft.
pub fn history_next(h: &mut PromptHistory, c: &mut Composer)
    requires
        history_fits(*old(h)),
    ensures
        history_fits(*final(h)),
        ({
            let (m, t) = after_next(history_model(*old(h)), old(c).text@);
            &&& history_model(*final(h)) == m
            &&& final(c).text@ == t
            &&& old(h).cursor is Some ==> final(c).cursor == byte_len(t)
                && !final(c).cleared_by_interrupt
            &&& old(h).cursor is None ==> final(c).cursor == old(c).cursor
                && final(c).cleared_by_interrupt == old(c).cleared_by_interrupt
        }),
{
    let idx = match h.cursor {
        None => {
            return;
        },
        Some(i) => i,
    };
    if idx >= h.entries.len() || idx + 1 >= h.entries.len() {
        h.cursor = None;
        let d = string_of(chars_of(h.draft.as_str()).as_slice());
        composer_set(c, d);
        return;
    }
    let next = idx + 1;
    h.cursor = Some(next);
    let v = string_of(chars_of(h.entries[next].as_str()).as_slice());
    proof {
        assert(fits(h.entries@[next as int]@));
    }
    composer_set(c, v);
    proof {
        assert(history_model(*h).0 =~= history_model(*old(h)).0);
    }
}

/// Browsing one entry back and then one forward gives back what was being
/// typed, and leaves the history where it was.
pub proof fn law_prev_then_next_restores(entries: Seq<Seq<char>>, draft: Seq<char>, text: Seq<char>)
    requires
        entries.len() > 0,
    ensures
        ({
            let (m1, t1) = after_prev((entries, None, draft), text);
            let (m2, t2) = after_next(m1, t1);
            t2 == text && m2.1 is None && m2.0 == entries
        }),
{
}

// ── Building the history ────────────────────────────────────────────────────

/// The user prompts of `ms`, trimmed, without empty ones and without a
/// prompt equal to the one just before it.
pub open spec fn prompt_fold(ms: Seq<StoredMessage>) -> Seq<Seq<char>>
    decreases ms.len(),
{
    if ms.len() == 0 {
        Seq::empty()
    } else {
        let out = prompt_fold(ms.drop_last());
        let m = ms.last();
        if m.role != MessageRole::User || m.content_text is None {
            out
        } else {
            let t = trim(m.content_text.unwrap()@);
            if t.len() == 0 || (out.len() > 0 && out.last() == t) {
                out
            } else {
                out.push(t)
            }
        }
    }
}

/// The prompt history of a session: its last 200 distinct user prompts.
pub open spec fn prompt_history(ms: Seq<StoredMessage>) -> Seq<Seq<char>> {
    let out = prompt_fold(ms);
    if out.len() > 200 {
        out.skip(out.len() - 200)
    } else {
        out
    }
}

/// Builds the prompt history from a session's messages.
pub fn build_prompt_history(messages: &Vec<StoredMessage>) -> (r: Vec<String>)
    ensures
        r@.map_values(|e: String| e@) == prompt_history(messages@),
{
    let mut out: Vec<Vec<char>> = Vec::new();
    let mut i: usize = 0;
    while i < messages.len()
        invariant
            i <= messages.len(),
            out@.map_values(|e: Vec<char>| e@) == prompt_fold(messages@.take(i as int)),
        decreases messages.len() - i,
    {
        let m = &messages[i];
        proof {
            assert(messages@.take(i as int + 1).drop_last() =~= messages@.take(i as int));
            assert(messages@.take(i as int + 1).last() == m);
        }
        let ghost before = out@.map_values(|e: Vec<char>| e@);
        if m.role == MessageRole::User {
            match &m.content_text {
                Some(text) => {
                    let t = trim_chars(&chars_of(text.as_str()));
                    if t.len() > 0 {
                        let dup = out.len() > 0 && eq_chars(&out[out.len() - 1], &t);
                        if !dup {
                            out.push(t);
                            proof {
                                assert(out@.map_values(|e: Vec<char>| e@) =~= before.push(t@));
                            }
                        }
                    }
                },
                None => {},
            }
        }
        i = i + 1;
    }
    proof {
        assert(messages@.take(messages.len() as int) =~= messages@);
    }
    let n = out.len();
    let start = if n > 200 {
        n - 200
    } else {
        0
    };
    let mut r: Vec<String> = Vec::new();
    let mut j = start;
    while j < n
        invariant
            start <= j <= n == out.len(),
            r@.map_values(|e: String| e@) == out@.map_values(|e: Vec<char>| e@).subrange(
                start as int,
                j as int,
            ),
        decreases n - j,
    {
        let ghost prev = r@.map_values(|e: String| e@);
        let line = string_of(out[j].as_slice());
        assert(line@ == out@[j as int]@);
        r.push(line);
        proof {
            assert(r@.map_values(|e: String| e@) =~= prev.push(out@[j as int]@));
            assert(out@.map_values(|e: Vec<char>| e@).subrange(start as int, j + 1) =~= out@.map_values(
                |e: Vec<char>| e@,
            ).subrange(start as int, j as int).push(out@[j as int]@));
        }
        j = j + 1;
    }
    proof {
        assert(r@.map_values(|e: String| e@) =~= prompt_history(messages@));
    }
    r
}

} // verus!
