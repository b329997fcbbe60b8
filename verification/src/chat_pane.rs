//! The chat screen's own state under the keyboard: which pane has the
//! focus, whether the activity pane and its details view are shown, and the
//! composer; and how the actions that stay within it change it.
use vstd::prelude::*;
use crate::composer::{composer_insert_str, composer_ok, cursor_index, Composer};
use crate::keys::{next_focus, ChatFocus, ChatKeyAction};
use crate::text::{byte_len, byte_offset, lemma_byte_len_concat, lemma_utf8_len_pos, string_of};

verus! {

/// The chat screen's focus, panes and composer.
pub struct ChatPane {
    pub focus: ChatFocus,
    pub activity_hidden: bool,
    pub details_open: bool,
    pub composer: Composer,
    /// The full text of a large paste that the composer shows as a summary.
    pub paste_buffer: Option<String>,
}

/// There is room in memory for one more character after `s`.
pub open spec fn room_for_char(s: Seq<char>) -> bool {
    byte_len(s) + 4 <= usize::MAX && s.len() + 1 <= usize::MAX / 4
}

/// The text that `a` types into the composer, if it types any.
pub open spec fn typed_text(a: ChatKeyAction) -> Option<Seq<char>> {
    match a {
        ChatKeyAction::InsertNewline => Some(seq!['\n']),
        ChatKeyAction::TypeChar(c) => Some(seq![c]),
        ChatKeyAction::StartSlashCommand => Some(seq!['/']),
        _ => None,
    }
}

/// The actions that change nothing but the pane.
pub open spec fn pane_handles(a: ChatKeyAction) -> bool {
    ||| a is CycleFocus
    ||| a is ToggleActivityPanel
    ||| a is CloseDetails
    ||| a is OpenDetails
    ||| typed_text(a) is Some
}

/// The focus after `a`: Alt+Tab cycles it, hiding the activity pane
/// moves it back to the composer, and `/` typed outside the composer
/// moves it there.
pub open spec fn focus_after(focus: ChatFocus, hidden: bool, a: ChatKeyAction) -> ChatFocus {
    match a {
        ChatKeyAction::CycleFocus => match focus {
            ChatFocus::Composer => if hidden {
                ChatFocus::Composer
            } else {
                ChatFocus::Activity
            },
            ChatFocus::Activity => ChatFocus::Composer,
        },
        ChatKeyAction::ToggleActivityPanel => if !hidden && focus == ChatFocus::Activity {
            ChatFocus::Composer
        } else {
            focus
        },
        ChatKeyAction::StartSlashCommand => ChatFocus::Composer,
        _ => focus,
    }
}

fn typed_string(a: ChatKeyAction) -> (r: Option<String>)
    ensures
        match typed_text(a) {
            Some(t) => r is Some && r->0@ == t,
            None => r is None,
        },
{
    let c = match a {
        ChatKeyAction::InsertNewline => '\n',
        ChatKeyAction::TypeChar(c) => c,
        ChatKeyAction::StartSlashCommand => '/',
        _ => {
            return None;
        },
    };
    let mut v: Vec<char> = Vec::new();
    v.push(c);
    proof {
        assert(v@ =~= seq![c]);
    }
    Some(string_of(v.as_slice()))
}

/// Applies `action` where it only changes the pane, and says whether it
/// did: the focus moves as `focus_after` says, Ctrl+W shows or hides the
/// activity pane, the details view opens and closes, and typed text goes in
/// at the cursor (a typed character also drops a pending large paste).
/// Every other action leaves the pane as it was.
pub fn apply_pane_action(pane: &mut ChatPane, action: ChatKeyAction) -> (handled: bool)
    requires
        composer_ok(old(pane).composer),
        room_for_char(old(pane).composer.text@),
    ensures
        handled == pane_handles(action),
        final(pane).focus == focus_after(old(pane).focus, old(pane).activity_hidden, action),
        final(pane).activity_hidden == if action is ToggleActivityPanel {
            !old(pane).activity_hidden
        } else {
            old(pane).activity_hidden
        },
        final(pane).details_open == match action {
            ChatKeyAction::CloseDetails => false,
            ChatKeyAction::OpenDetails => true,
            _ => old(pane).details_open,
        },
        match typed_text(action) {
            Some(t) => {
                let k = cursor_index(old(pane).composer) as int;
                let s = old(pane).composer.text@;
                &&& final(pane).composer.text@ == s.take(k) + t + s.skip(k)
                &&& final(pane).composer.cursor == byte_offset(final(pane).composer.text@, k + 1)
                &&& !final(pane).composer.cleared_by_interrupt
                &&& composer_ok(final(pane).composer)
            },
            None => final(pane).composer == old(pane).composer,
        },
        final(pane).paste_buffer == if action is TypeChar {
            None
        } else {
            old(pane).paste_buffer
        },
{
    match action {
        ChatKeyAction::CycleFocus => {
            pane.focus = next_focus(pane.focus, pane.activity_hidden);
            true
        },
        ChatKeyAction::ToggleActivityPanel => {
            pane.activity_hidden = !pane.activity_hidden;
            if pane.activity_hidden && pane.focus == ChatFocus::Activity {
                pane.focus = ChatFocus::Composer;
            }
            true
        },
        ChatKeyAction::CloseDetails => {
            pane.details_open = false;
            true
        },
        ChatKeyAction::OpenDetails => {
            pane.details_open = true;
            true
        },
        _ => {
            match typed_string(action) {
                Some(t) => {
                    proof {
                        let s = pane.composer.text@;
                        lemma_byte_len_concat(s, t@);
                        lemma_utf8_len_pos(t@[0]);
                        assert(t@.len() == 1);
                        assert(t@ =~= seq![t@[0]]);
                        crate::text::lemma_byte_len_single(t@[0]);
                    }
                    if action == ChatKeyAction::StartSlashCommand {
                        pane.focus = ChatFocus::Composer;
                    }
                    if let ChatKeyAction::TypeChar(_) = action {
                        pane.paste_buffer = None;
                    }
                    composer_insert_str(&mut pane.composer, t.as_str());
                    proof {
                        let s = old(pane).composer.text@;
                        let k = cursor_index(old(pane).composer) as int;
                        let n = pane.composer.text@;
                        crate::text::lemma_cursor_pos(s, old(pane).composer.cursor as int);
                        crate::text::lemma_byte_offset_bounded(n, k + 1);
                        assert(n.len() == s.len() + 1);
                        lemma_byte_len_concat(s.take(k) + t@, s.skip(k));
                        lemma_byte_len_concat(s.take(k), t@);
                        lemma_byte_len_concat(s.take(k), s.skip(k));
                        assert(s =~= s.take(k) + s.skip(k));
                        crate::text::lemma_offset_of_boundary(n, k + 1);
                    }
                    true
                },
                None => false,
            }
        },
    }
}

} // verus!
