//! The lines at the foot of the transcript: the waiting indicator while the
//! model thinks, the time the last run took, and the failure that ended it.
use vstd::prelude::*;
use std::collections::VecDeque;
use std::time::Duration;
use crate::activity::{ActivityItem, ActivitySpec};
use crate::format::{
    control_free, duration_whole_secs, elapsed_text, format_elapsed, law_sanitized_is_control_free,
    sanitize_output_line, sanitized,
};
use crate::text::{chars_of, push_all, string_of, sub_chars, trim, trim_chars};

verus! {

broadcast use vstd::seq_lib::group_seq_properties;

/// The frame of the waiting indicator at `ms` milliseconds: one of four,
/// each shown for 150 ms.
pub open spec fn spinner_frame(ms: nat) -> char {
    let k = (ms / 150) % 4;
    if k == 0 {
        '◐'
    } else if k == 1 {
        '◓'
    } else if k == 2 {
        '◑'
    } else {
        '◒'
    }
}

/// The waiting indicator's text: the frame, then `thinking…`, with a hint
/// on how to show the thinking when it is hidden.
pub open spec fn thinking_text(ms: nat, show_reasoning: bool) -> Seq<char> {
    seq![spinner_frame(ms), ' '] + if show_reasoning {
        "thinking…"@
    } else {
        "thinking… [ctrl+o to show]"@
    }
}

/// The text of the waiting indicator at `ms` milliseconds.
pub fn thinking_line(ms: u64, show_reasoning: bool) -> (r: String)
    ensures
        r@ == thinking_text(ms as nat, show_reasoning),
{
    let k = (ms / 150) % 4;
    let frame = if k == 0 {
        '◐'
    } else if k == 1 {
        '◓'
    } else if k == 2 {
        '◑'
    } else {
        '◒'
    };
    let mut v: Vec<char> = Vec::new();
    v.push(frame);
    v.push(' ');
    let hint = if show_reasoning {
        chars_of("thinking…")
    } else {
        chars_of("thinking… [ctrl+o to show]")
    };
    push_all(&mut v, &hint);
    proof {
        assert(v@ =~= thinking_text(ms as nat, show_reasoning));
    }
    string_of(v.as_slice())
}

/// The line after a finished run that took `elapsed`.
pub fn done_line(elapsed: Duration) -> (r: String)
    ensures
        r@ == "* done in "@ + elapsed_text(duration_whole_secs(elapsed) as nat),
{
    let mut v = chars_of("* done in ");
    let e = chars_of(format_elapsed(elapsed).as_str());
    push_all(&mut v, &e);
    string_of(v.as_slice())
}

/// The message of the newest failure among `items`.
pub open spec fn last_failure(items: Seq<ActivitySpec>) -> Option<Seq<char>>
    decreases items.len(),
{
    if items.len() == 0 {
        None
    } else {
        match items.last() {
            ActivitySpec::Failure(m, _) => Some(m),
            _ => last_failure(items.drop_last()),
        }
    }
}

/// At most the first `n` characters of `s`.
pub open spec fn first_chars(s: Seq<char>, n: nat) -> Seq<char> {
    if s.len() <= n {
        s
    } else {
        s.take(n as int)
    }
}

/// The failure line for `message`: `✗ ` and its first 200 characters with
/// escape sequences and control characters removed; none when that is
/// blank.
pub open spec fn failure_text(message: Seq<char>) -> Option<Seq<char>> {
    let clean = first_chars(sanitized(message), 200);
    if trim(clean).len() == 0 {
        None
    } else {
        Some("✗ "@ + clean)
    }
}

/// The failure line for `message`.
pub fn failure_line(message: &str) -> (r: Option<String>)
    ensures
        match r {
            Some(s) => failure_text(message@) == Some(s@),
            None => failure_text(message@) is None,
        },
{
    let s = chars_of(sanitize_output_line(message).as_str());
    let clean = if s.len() <= 200 {
        s
    } else {
        sub_chars(&s, 0, 200)
    };
    proof {
        assert(clean@ =~= first_chars(sanitized(message@), 200));
    }
    if trim_chars(&clean).len() == 0 {
        None
    } else {
        let mut v = chars_of("✗ ");
        push_all(&mut v, &clean);
        Some(string_of(v.as_slice()))
    }
}

pub open spec fn items_view(items: Seq<ActivityItem>) -> Seq<ActivitySpec> {
    items.map_values(|i: ActivityItem| i@)
}

/// The failure line shown once no run is going: that of the newest
/// failure in the activity `items`, if any.
pub open spec fn run_failure_text(running: bool, items: Seq<ActivitySpec>) -> Option<Seq<char>> {
    if running {
        None
    } else {
        match last_failure(items) {
            Some(m) => failure_text(m),
            None => None,
        }
    }
}

/// The failure line at the foot of the transcript.
pub fn run_failure_line(running: bool, items: &VecDeque<ActivityItem>) -> (r: Option<String>)
    ensures
        match r {
            Some(s) => run_failure_text(running, items_view(items@)) == Some(s@),
            None => run_failure_text(running, items_view(items@)) is None,
        },
{
    if running {
        return None;
    }
    let ghost iv = items_view(items@);
    let mut k: usize = items.len();
    proof {
        assert(iv.take(items@.len() as int) =~= iv);
    }
    while k > 0
        invariant
            !running,
            k <= items@.len(),
            iv == items_view(items@),
            last_failure(iv) == last_failure(iv.take(k as int)),
        decreases k,
    {
        proof {
            assert(iv.take(k as int).drop_last() =~= iv.take(k - 1));
            assert(iv.take(k as int).last() == items@[k - 1]@);
        }
        match &items[k - 1] {
            ActivityItem::Failure { message, .. } => {
                proof {
                    assert(iv.take(k as int).len() > 0);
                    assert(last_failure(iv.take(k as int)) == Some(message@));
                }
                return failure_line(message.as_str());
            },
            _ => {},
        }
        k = k - 1;
    }
    proof {
        assert(iv.take(0) =~= Seq::<ActivitySpec>::empty());
    }
    None
}


/// A failure line is at most 202 characters (the mark, a space and 200
/// characters of the message) and holds no control character but tabs.
pub proof fn law_failure_line_clean(message: Seq<char>)
    ensures
        match failure_text(message) {
            Some(t) => t.len() <= 202 && control_free(t),
            None => true,
        },
{
    law_sanitized_is_control_free(message);
    reveal_strlit("✗ ");
    let clean = first_chars(sanitized(message), 200);
    match failure_text(message) {
        Some(t) => {
            assert(t =~= "✗ "@ + clean);
            assert forall|j: int| 0 <= j < t.len() implies !(crate::format::is_cc(#[trigger] t[j]) && t[j] != '\t') by {
                if j >= 2 {
                    assert(t[j] == clean[j - 2]);
                    assert(clean[j - 2] == sanitized(message)[j - 2]);
                } else {
                    assert(t[j] == '✗' || t[j] == ' ');
                }
            }
        },
        None => {},
    }
}

} // verus!
