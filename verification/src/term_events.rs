//! Terminal input as the main loop sees it: which terminal events reach it,
//! how mouse events move the chat screen, and how draw requests are spaced.
use vstd::prelude::*;
use crate::keys::{ChatFocus, KeyPress};

verus! {

/// Whether a key event is a press, an auto-repeat or a release.
#[derive(Debug, Clone, Copy, PartialEq, Eq, Structural)]
pub enum KeyKind {
    Press,
    Repeat,
    Release,
}

/// What a mouse event did.
#[derive(Debug, Clone, Copy, PartialEq, Eq, Structural)]
pub enum MouseKind {
    ScrollUp,
    ScrollDown,
    /// A button went down.
    Down,
    /// Up, drag, move or horizontal scroll.
    Other,
}

/// A mouse event and the cell it happened in.
#[derive(Debug, Clone, Copy, PartialEq, Eq, Structural)]
pub struct MouseInput {
    pub kind: MouseKind,
    pub column: u16,
    pub row: u16,
}

/// An event read from the terminal.
#[derive(Debug)]
pub enum TermEvent {
    Key(KeyPress, KeyKind),
    Paste(String),
    Mouse(MouseInput),
    Resize(u16, u16),
    FocusGained,
    FocusLost,
}

/// An event for the main loop.
#[derive(Debug)]
pub enum TuiEvent {
    /// A key press (presses and repeats only).
    Key(KeyPress),
    /// Bracketed-paste text.
    Paste(String),
    Mouse(MouseInput),
    /// A frame should be drawn.
    Draw,
}

/// Key presses and repeats, pastes and mouse events go through; a resize
/// asks for a frame; key releases and focus changes are dropped.
pub fn map_crossterm_event(event: TermEvent) -> (r: Option<TuiEvent>)
    ensures
        match event {
            TermEvent::Key(kp, kind) => if kind == KeyKind::Release {
                r is None
            } else {
                r matches Some(TuiEvent::Key(k)) && k == kp
            },
            TermEvent::Paste(text) => r matches Some(TuiEvent::Paste(t)) && t@ == text@,
            TermEvent::Mouse(m) => r matches Some(TuiEvent::Mouse(n)) && n == m,
            TermEvent::Resize(_, _) => r matches Some(TuiEvent::Draw),
            TermEvent::FocusGained | TermEvent::FocusLost => r is None,
        },
{
    match event {
        TermEvent::Key(kp, kind) => {
            if kind == KeyKind::Press || kind == KeyKind::Repeat {
                Some(TuiEvent::Key(kp))
            } else {
                None
            }
        },
        TermEvent::Paste(text) => Some(TuiEvent::Paste(text)),
        TermEvent::Mouse(m) => Some(TuiEvent::Mouse(m)),
        TermEvent::Resize(_, _) => Some(TuiEvent::Draw),
        TermEvent::FocusGained | TermEvent::FocusLost => None,
    }
}

// ── Mouse on the chat screen ────────────────────────────────────────────────

/// Rows that one wheel step scrolls.
pub const WHEEL_ROWS: usize = 3;

/// The transcript scroll (rows up from the bottom, at most `max`) after a
/// wheel event.
pub open spec fn wheel_scroll(kind: MouseKind, scroll: nat, max: nat) -> nat {
    let clamped: nat = if scroll <= max { scroll } else { max };
    match kind {
        MouseKind::ScrollUp => if max == 0 {
            0
        } else if clamped + 3 <= max {
            (clamped + 3) as nat
        } else {
            max
        },
        MouseKind::ScrollDown => {
            let from: nat = if max > 0 { clamped } else { scroll };
            if from >= 3 { (from - 3) as nat } else { 0 }
        },
        _ => scroll,
    }
}

/// The focus after a click in column `column` of a screen `width` cells
/// wide: the activity pane takes the right 28% when it is shown.
pub open spec fn click_focus(kind: MouseKind, column: nat, width: nat, hidden: bool, focus: ChatFocus) -> ChatFocus {
    if kind == MouseKind::Down && !hidden {
        if column >= width * 72 / 100 {
            ChatFocus::Activity
        } else {
            ChatFocus::Composer
        }
    } else {
        focus
    }
}

/// A mouse event on the chat screen: the wheel scrolls the transcript by
/// three rows, and a click picks the pane under the pointer.
pub fn mouse_step(
    m: MouseInput,
    area_width: u16,
    activity_hidden: bool,
    focus: ChatFocus,
    scroll: usize,
    max_scroll: usize,
) -> (r: (usize, ChatFocus))
    requires
        m.kind == MouseKind::Down && !activity_hidden ==> area_width * 72 <= u16::MAX,
    ensures
        r.0 == wheel_scroll(m.kind, scroll as nat, max_scroll as nat),
        r.1 == click_focus(m.kind, m.column as nat, area_width as nat, activity_hidden, focus),
{
    let clamped = if scroll <= max_scroll {
        scroll
    } else {
        max_scroll
    };
    match m.kind {
        MouseKind::ScrollUp => {
            let s = if max_scroll == 0 {
                0
            } else {
                let up = clamped.saturating_add(WHEEL_ROWS);
                if up <= max_scroll {
                    up
                } else {
                    max_scroll
                }
            };
            (s, focus)
        },
        MouseKind::ScrollDown => {
            let from = if max_scroll > 0 {
                clamped
            } else {
                scroll
            };
            (from.saturating_sub(WHEEL_ROWS), focus)
        },
        MouseKind::Down => {
            if activity_hidden {
                (scroll, focus)
            } else {
                let activity_x = area_width * 72 / 100;
                if m.column >= activity_x {
                    (scroll, ChatFocus::Activity)
                } else {
                    (scroll, ChatFocus::Composer)
                }
            }
        },
        MouseKind::Other => (scroll, focus),
    }
}

// ── Frame pacing ────────────────────────────────────────────────────────────

/// The shortest time between two frames, in microseconds (about 120 frames
/// a second).
pub const MIN_FRAME_INTERVAL_MICROS: u64 = 8333;

/// How long the scheduler waits before drawing, `elapsed_micros` after the
/// last frame: whatever is left of the minimum interval.
pub fn frame_delay_micros(elapsed_micros: u64) -> (r: u64)
    ensures
        r == if elapsed_micros < MIN_FRAME_INTERVAL_MICROS {
            MIN_FRAME_INTERVAL_MICROS - elapsed_micros
        } else {
            0
        },
        elapsed_micros + r >= MIN_FRAME_INTERVAL_MICROS,
{
    if elapsed_micros < MIN_FRAME_INTERVAL_MICROS {
        MIN_FRAME_INTERVAL_MICROS - elapsed_micros
    } else {
        0
    }
}

} // verus!
