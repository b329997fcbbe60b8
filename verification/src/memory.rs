//! Keys of the memory viewer and of the confirmation that clears all
//! memories, and the notices they raise. Reading and writing the memory
//! store itself is left to the caller.
use vstd::prelude::*;
use crate::keys::{Key, KeyPress};
use crate::toast::{Notice, ToastVariant};
use crate::parse::{lines_of, text_lines};
use crate::text::{chars_of, push_all, string_of};

verus! {

broadcast use vstd::seq_lib::group_seq_properties;

/// Lines moved by PageUp and PageDown in the memory viewer.
pub const MEMORY_PAGE: usize = 20;

/// What a key does in the memory viewer.
#[derive(Debug, Clone, Copy, PartialEq, Eq, Structural)]
pub enum MemoryStep {
    /// Esc: close the viewer.
    Close,
    /// Stay open, scrolled to this line.
    Scroll(usize),
    /// `t`: turn memory on (`true`) or off, and stay open where it was.
    Toggle(bool),
}

/// The last line the viewer can scroll to.
pub open spec fn last_line(total_lines: nat) -> nat {
    if total_lines > 0 { (total_lines - 1) as nat } else { 0 }
}

/// `a + b`, but no more than `cap`.
pub open spec fn forward(a: nat, b: nat, cap: nat) -> nat {
    if a + b < cap { a + b } else { cap }
}

/// `a - b`, but no less than zero.
pub open spec fn back(a: nat, b: nat) -> nat {
    if a >= b { (a - b) as nat } else { 0 }
}

/// The viewer's response to `kp` at line `scroll` of `total_lines`:
/// Up/`k` and Down/`j` move a line, PageUp and PageDown move twenty, Home/`g`
/// and End/`G` jump to the first and last line (moving down never goes past
/// the last line), `t` flips `enabled`, Esc closes; other keys change nothing.
pub open spec fn memory_viewer_spec(kp: KeyPress, scroll: nat, total_lines: nat, enabled: bool) -> MemoryStep {
    let last = last_line(total_lines);
    match kp.key {
        Key::Esc => MemoryStep::Close,
        Key::Up | Key::Char('k') => MemoryStep::Scroll(back(scroll, 1) as usize),
        Key::Down | Key::Char('j') => MemoryStep::Scroll(forward(scroll, 1, last) as usize),
        Key::PageUp => MemoryStep::Scroll(back(scroll, MEMORY_PAGE as nat) as usize),
        Key::PageDown => MemoryStep::Scroll(forward(scroll, MEMORY_PAGE as nat, last) as usize),
        Key::Home | Key::Char('g') => MemoryStep::Scroll(0),
        Key::End | Key::Char('G') => MemoryStep::Scroll(last as usize),
        Key::Char('t') => MemoryStep::Toggle(!enabled),
        _ => MemoryStep::Scroll(scroll as usize),
    }
}

/// Scrolling the memory viewer keeps it within its lines: from a line no
/// later than the last, every key leaves it on a line no later than the last.
pub proof fn law_memory_scroll_in_range(kp: KeyPress, scroll: nat, total_lines: nat, enabled: bool)
    requires
        scroll <= last_line(total_lines),
        last_line(total_lines) <= usize::MAX,
    ensures
        memory_viewer_spec(kp, scroll, total_lines, enabled) matches MemoryStep::Scroll(s) ==> s <= last_line(
            total_lines,
        ),
{
}

/// `a + b` capped at `cap`, computed without overflow.
fn forward_exec(a: usize, b: usize, cap: usize) -> (r: usize)
    ensures
        r == forward(a as nat, b as nat, cap as nat),
{
    if a < cap && cap - a > b {
        a + b
    } else {
        cap
    }
}

pub fn memory_viewer_key(kp: KeyPress, scroll: usize, total_lines: usize, enabled: bool) -> (r: MemoryStep)
    ensures
        r == memory_viewer_spec(kp, scroll as nat, total_lines as nat, enabled),
{
    let last = total_lines.saturating_sub(1);
    match kp.key {
        Key::Esc => MemoryStep::Close,
        Key::Up => MemoryStep::Scroll(scroll.saturating_sub(1)),
        Key::Down => MemoryStep::Scroll(forward_exec(scroll, 1, last)),
        Key::PageUp => MemoryStep::Scroll(scroll.saturating_sub(MEMORY_PAGE)),
        Key::PageDown => MemoryStep::Scroll(forward_exec(scroll, MEMORY_PAGE, last)),
        Key::Home => MemoryStep::Scroll(0),
        Key::End => MemoryStep::Scroll(last),
        Key::Char(c) => if c == 'k' {
            MemoryStep::Scroll(scroll.saturating_sub(1))
        } else if c == 'j' {
            MemoryStep::Scroll(forward_exec(scroll, 1, last))
        } else if c == 'g' {
            MemoryStep::Scroll(0)
        } else if c == 'G' {
            MemoryStep::Scroll(last)
        } else if c == 't' {
            MemoryStep::Toggle(!enabled)
        } else {
            MemoryStep::Scroll(scroll)
        },
        _ => MemoryStep::Scroll(scroll),
    }
}

/// The notice after memory is turned on or off.
pub fn memory_toggle_notice(enabled: bool) -> (r: Notice)
    ensures
        r.ttl_ms == 3000,
        enabled ==> r.variant == ToastVariant::Success && r.message@ == "memory: enabled"@,
        !enabled ==> r.variant == ToastVariant::Warning && r.message@ == "memory: disabled"@,
{
    if enabled {
        Notice { variant: ToastVariant::Success, message: "memory: enabled".to_owned(), ttl_ms: 3000 }
    } else {
        Notice { variant: ToastVariant::Warning, message: "memory: disabled".to_owned(), ttl_ms: 3000 }
    }
}

/// What a key does in the dialog that asks before clearing all memories.
#[derive(Debug, Clone, Copy, PartialEq, Eq, Structural)]
pub enum ClearStep {
    /// Esc or `n`: close without clearing.
    Close,
    /// `y`: clear everything and close.
    Clear,
    /// Any other key: keep asking.
    Keep,
}

pub open spec fn memory_clear_spec(kp: KeyPress) -> ClearStep {
    match kp.key {
        Key::Esc | Key::Char('n') => ClearStep::Close,
        Key::Char('y') => ClearStep::Clear,
        _ => ClearStep::Keep,
    }
}

pub fn memory_clear_key(kp: KeyPress) -> (r: ClearStep)
    ensures
        r == memory_clear_spec(kp),
{
    match kp.key {
        Key::Esc => ClearStep::Close,
        Key::Char(c) => if c == 'n' {
            ClearStep::Close
        } else if c == 'y' {
            ClearStep::Clear
        } else {
            ClearStep::Keep
        },
        _ => ClearStep::Keep,
    }
}

/// The notice after an attempt to clear all memories: `None` when there is
/// no memory store, otherwise what clearing it gave (an error's text).
pub fn memory_clear_notice(outcome: &Option<Result<(), String>>) -> (r: Notice)
    ensures
        match outcome {
            None => r.variant == ToastVariant::Warning && r.message@ == "memory storage unavailable"@
                && r.ttl_ms == 3000,
            Some(Ok(())) => r.variant == ToastVariant::Success && r.message@ == "all memories cleared"@
                && r.ttl_ms == 3000,
            Some(Err(e)) => r.variant == ToastVariant::Error && r.message@
                == "failed to clear memories: "@ + e@ && r.ttl_ms == 4000,
        },
{
    match outcome {
        None => Notice {
            variant: ToastVariant::Warning,
            message: "memory storage unavailable".to_owned(),
            ttl_ms: 3000,
        },
        Some(Ok(())) => Notice {
            variant: ToastVariant::Success,
            message: "all memories cleared".to_owned(),
            ttl_ms: 3000,
        },
        Some(Err(e)) => {
            let mut v = chars_of("failed to clear memories: ");
            push_all(&mut v, &chars_of(e.as_str()));
            Notice { variant: ToastVariant::Error, message: string_of(v.as_slice()), ttl_ms: 4000 }
        },
    }
}


/// The notice of `/memory on` (`enable`) or `/memory off`: `None` when there
/// is no memory store, otherwise what switching gave (an error's text).
pub fn memory_switch_notice(enable: bool, outcome: &Option<Result<(), String>>) -> (r: Notice)
    ensures
        match outcome {
            None => r.variant == ToastVariant::Warning && r.message@ == "memory storage unavailable"@
                && r.ttl_ms == 3000,
            Some(Ok(())) => r.ttl_ms == 3000 && if enable {
                r.variant == ToastVariant::Success && r.message@ == "memory: enabled"@
            } else {
                r.variant == ToastVariant::Warning && r.message@ == "memory: disabled"@
            },
            Some(Err(e)) => r.variant == ToastVariant::Error && r.message@ == "failed: "@ + e@ && r.ttl_ms
                == 4000,
        },
{
    match outcome {
        None => Notice {
            variant: ToastVariant::Warning,
            message: "memory storage unavailable".to_owned(),
            ttl_ms: 3000,
        },
        Some(Ok(())) => memory_toggle_notice(enable),
        Some(Err(e)) => Notice {
            variant: ToastVariant::Error,
            message: crate::text::concat2("failed: ", e.as_str()),
            ttl_ms: 4000,
        },
    }
}

/// What the memory viewer shows: the stored summary, or a note when there is
/// none yet (`Some(None)`) or no memory store at all (`None`).
pub open spec fn viewer_text(summary: Option<Option<Seq<char>>>) -> Seq<char> {
    match summary {
        None => "Memory storage unavailable (HOME not set)."@,
        Some(None) => "No memory summary yet.\n\nComplete a session to start building memories."@,
        Some(Some(c)) => c,
    }
}

/// The viewer's text and its number of lines (as std's `lines` counts them).
pub fn memory_viewer_text(summary: Option<Option<String>>) -> (r: (String, usize))
    ensures
        r.0@ == viewer_text(match summary {
            None => None,
            Some(None) => Some(None),
            Some(Some(c)) => Some(Some(c@)),
        }),
        r.1 == text_lines(r.0@).len(),
{
    let content = match summary {
        None => "Memory storage unavailable (HOME not set).".to_owned(),
        Some(None) => "No memory summary yet.\n\nComplete a session to start building memories.".to_owned(),
        Some(Some(c)) => c,
    };
    let lines = lines_of(&chars_of(content.as_str()));
    proof {
        assert(lines@.map_values(|l: Vec<char>| l@).len() == lines@.len());
    }
    let n = lines.len();
    (content, n)
}

} // verus!
