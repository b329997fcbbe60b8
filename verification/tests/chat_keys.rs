use rustcode_tui::approval::move_selection;
use rustcode_tui::chat_pane::{apply_pane_action, ChatPane};
use rustcode_tui::composer::Composer;
use rustcode_tui::keys::{
    approval_key_action, chat_key_action, enter_outcome, interrupt_step, next_focus, page_down,
    page_up, route_key, select_next, select_prev, sessions_key_action, ApprovalKeyAction,
    ChatFocus, ChatKeyAction, ChatKeyContext, EnterOutcome, InterruptOutcome, Key, KeyPress,
    KeyRoute, SessionsKeyAction, SlashStep,
};
use rustcode_tui::ApprovalResponse;

fn key(key: Key, ctrl: bool, alt: bool, shift: bool) -> KeyPress {
    KeyPress { key, ctrl, alt, shift }
}

fn ctx(focus: ChatFocus) -> ChatKeyContext {
    ChatKeyContext {
        slash_help_open: false,
        slash_selected_has_args: None,
        focus,
        details_open: false,
        activity_empty: true,
        running: false,
    }
}

fn pane(text: &str) -> ChatPane {
    ChatPane {
        focus: ChatFocus::Composer,
        activity_hidden: true,
        details_open: false,
        composer: Composer { text: text.to_string(), cursor: text.len(), cleared_by_interrupt: false },
        paste_buffer: None,
    }
}

/// Whether a key pressed on the chat screen, with nothing open over it and
/// no turn running, ends the session: only an interrupt can, and only when
/// it lands on an armed exit.
fn ends_session(kp: KeyPress, focus: ChatFocus, armed: bool) -> bool {
    if route_key(kp, false, false, false, false, true) != KeyRoute::Chat {
        return false;
    }
    let outcome = chat_key_action(kp, ctx(focus));
    outcome.action == ChatKeyAction::Interrupt && interrupt_step(false, armed).0 == InterruptOutcome::Exit
}

/// Feeds one key to the pane the way the chat screen does; returns whether
/// the pane itself handled the key.
fn press(p: &mut ChatPane, kp: KeyPress) -> bool {
    let outcome = chat_key_action(kp, ctx(p.focus));
    apply_pane_action(p, outcome.action)
}

#[test]
fn alt_tab_cycles_focus_in_chat() {
    let mut state = pane("");

    // Alt+Tab with activity_hidden=true: focus stays at Composer (no-op)
    assert!(!ends_session(key(Key::Tab, false, true, false), state.focus, true));
    assert!(press(&mut state, key(Key::Tab, false, true, false)));
    assert_eq!(state.focus, ChatFocus::Composer);

    // Alt+Tab with activity visible: should move to Activity
    state.activity_hidden = false;
    assert!(!ends_session(key(Key::Tab, false, true, false), state.focus, true));
    assert!(press(&mut state, key(Key::Tab, false, true, false)));
    assert_eq!(state.focus, ChatFocus::Activity);
}

#[test]
fn tab_does_not_change_focus_in_chat() {
    let mut state = pane("");
    assert!(!ends_session(key(Key::Tab, false, false, false), state.focus, true));
    let outcome = chat_key_action(key(Key::Tab, false, false, false), ctx(state.focus));
    assert_eq!(outcome.action, ChatKeyAction::Nothing);
    assert!(!apply_pane_action(&mut state, outcome.action));
    assert_eq!(state.focus, ChatFocus::Composer);
}

#[test]
fn shift_enter_inserts_newline_in_composer() {
    let mut state = pane("hello");
    assert!(!ends_session(key(Key::Enter, false, false, true), state.focus, true));
    assert!(press(&mut state, key(Key::Enter, false, false, true)));
    assert_eq!(state.composer.text, "hello\n");
    assert_eq!(state.composer.cursor, state.composer.text.len());
}

#[test]
fn typing_inserts_at_cursor_and_drops_pending_paste() {
    let mut state = pane("ac");
    state.composer.cursor = 1;
    state.paste_buffer = Some("big".to_string());
    assert!(press(&mut state, key(Key::Char('b'), false, false, false)));
    assert_eq!(state.composer.text, "abc");
    assert_eq!(state.composer.cursor, 2);
    assert_eq!(state.paste_buffer, None);
}

#[test]
fn slash_from_activity_moves_to_composer() {
    let mut state = pane("x");
    state.activity_hidden = false;
    state.focus = ChatFocus::Activity;
    let outcome = chat_key_action(key(Key::Char('/'), false, false, false), ctx(ChatFocus::Activity));
    assert_eq!(outcome.action, ChatKeyAction::StartSlashCommand);
    assert!(apply_pane_action(&mut state, outcome.action));
    assert_eq!(state.focus, ChatFocus::Composer);
    assert_eq!(state.composer.text, "x/");
}

#[test]
fn hiding_activity_returns_focus_to_composer() {
    let mut state = pane("");
    state.activity_hidden = false;
    state.focus = ChatFocus::Activity;
    assert!(press(&mut state, key(Key::Char('w'), true, false, false)));
    assert!(state.activity_hidden);
    assert_eq!(state.focus, ChatFocus::Composer);
    assert!(press(&mut state, key(Key::Char('W'), true, false, false)));
    assert!(!state.activity_hidden);
    assert_eq!(state.focus, ChatFocus::Composer);
}

#[test]
fn other_actions_leave_the_pane_alone() {
    let mut state = pane("abc");
    assert!(!apply_pane_action(&mut state, ChatKeyAction::OpenPalette));
    assert_eq!(state.composer.text, "abc");
    assert_eq!(state.focus, ChatFocus::Composer);
}

#[test]
fn next_focus_cycles_only_when_shown() {
    assert_eq!(next_focus(ChatFocus::Composer, true), ChatFocus::Composer);
    assert_eq!(next_focus(ChatFocus::Composer, false), ChatFocus::Activity);
    assert_eq!(next_focus(ChatFocus::Activity, false), ChatFocus::Composer);
    assert_eq!(next_focus(ChatFocus::Activity, true), ChatFocus::Composer);
}

#[test]
fn double_interrupt_exits_idle_and_cancels_running() {
    let (first, armed) = interrupt_step(false, false);
    assert_eq!(first, InterruptOutcome::ArmExit);
    assert_eq!(interrupt_step(false, armed).0, InterruptOutcome::Exit);
    let (first, armed) = interrupt_step(true, false);
    assert_eq!(first, InterruptOutcome::ArmCancel);
    assert_eq!(interrupt_step(true, armed), (InterruptOutcome::ForceCancel, false));
}

#[test]
fn paging_stays_within_bounds() {
    assert_eq!(page_up(0, 0), 0);
    assert_eq!(page_up(3, 7), 7);
    assert_eq!(page_up(100, 20), 20);
    assert_eq!(page_up(1, 20), 6);
    assert_eq!(page_down(100, 20), 15);
    assert_eq!(page_down(3, 20), 0);
    assert_eq!(select_next(2, 3), 2);
    assert_eq!(select_next(0, 3), 1);
    assert_eq!(select_next(0, 0), 0);
    assert_eq!(select_prev(0), 0);
    assert_eq!(select_prev(4), 3);
}

#[test]
fn ctrl_shortcuts_map_to_actions() {
    let c = ctx(ChatFocus::Composer);
    assert_eq!(chat_key_action(key(Key::Char('p'), true, false, false), c).action, ChatKeyAction::OpenPalette);
    assert_eq!(chat_key_action(key(Key::Char('C'), true, false, false), c).action, ChatKeyAction::Interrupt);
    assert!(!chat_key_action(key(Key::Char('c'), true, false, false), c).clear_interrupt);
    assert!(chat_key_action(key(Key::Char('p'), true, false, false), c).clear_interrupt);
    assert_eq!(chat_key_action(key(Key::Char('k'), true, false, false), c).action, ChatKeyAction::KillLineForward);
    let a = ctx(ChatFocus::Activity);
    assert_eq!(chat_key_action(key(Key::Char('k'), true, false, false), a).action, ChatKeyAction::Nothing);
    assert_eq!(chat_key_action(key(Key::BackTab, false, false, true), c).action, ChatKeyAction::CycleApprovalMode);
}

#[test]
fn slash_popup_takes_navigation_keys() {
    let mut c = ctx(ChatFocus::Composer);
    c.slash_help_open = true;
    let up = chat_key_action(key(Key::Up, false, false, false), c);
    assert_eq!(up.slash, SlashStep::SelectPrev);
    assert_eq!(up.action, ChatKeyAction::Nothing);
    c.slash_selected_has_args = Some(true);
    let enter = chat_key_action(key(Key::Enter, false, false, false), c);
    assert_eq!(enter.slash, SlashStep::Complete);
    assert_eq!(enter.action, ChatKeyAction::Nothing);
    c.slash_selected_has_args = Some(false);
    let enter = chat_key_action(key(Key::Enter, false, false, false), c);
    assert_eq!(enter.slash, SlashStep::Complete);
    assert_eq!(enter.action, ChatKeyAction::SubmitComposer);
}

#[test]
fn enter_decides_what_to_send() {
    assert_eq!(enter_outcome(None, "  hi  ", false), EnterOutcome::Submit("hi".to_string()));
    assert_eq!(enter_outcome(None, " /help", false), EnterOutcome::SlashCommand("/help".to_string()));
    assert_eq!(enter_outcome(None, "   ", true), EnterOutcome::ShowError);
    assert_eq!(enter_outcome(None, "", false), EnterOutcome::Nothing);
    assert_eq!(enter_outcome(Some(" full paste "), "[x]", false), EnterOutcome::Submit(" full paste ".to_string()));
}

#[test]
fn keys_are_routed_by_what_is_open() {
    let k = key(Key::Char('a'), false, false, false);
    assert_eq!(route_key(k, true, true, true, true, true), KeyRoute::Swallow);
    assert_eq!(route_key(key(Key::Esc, false, false, false), true, false, false, false, true), KeyRoute::CloseHelp);
    assert_eq!(route_key(k, false, true, true, false, true), KeyRoute::Modal);
    assert_eq!(route_key(k, false, false, true, false, true), KeyRoute::Approval);
    assert_eq!(route_key(key(Key::Char('e'), true, false, false), false, false, false, true, true), KeyRoute::ShowErrorDetail);
    assert_eq!(route_key(k, false, false, false, false, true), KeyRoute::Chat);
    assert_eq!(route_key(k, false, false, false, false, false), KeyRoute::Sessions);
}

#[test]
fn approval_keys_move_and_answer() {
    assert_eq!(approval_key_action(Key::Up, 0, 3, false), ApprovalKeyAction::Nothing);
    assert_eq!(approval_key_action(Key::Down, 0, 3, false), ApprovalKeyAction::Select(1));
    assert_eq!(approval_key_action(Key::Right, 2, 3, false), ApprovalKeyAction::Nothing);
    assert_eq!(approval_key_action(Key::Enter, 0, 3, false), ApprovalKeyAction::Answer(ApprovalResponse::AllowOnce));
    assert_eq!(approval_key_action(Key::Esc, 1, 3, false), ApprovalKeyAction::Deny);
    assert_eq!(move_selection(2, true, 3), 2);
}

#[test]
fn session_list_keys() {
    assert_eq!(sessions_key_action(key(Key::Char('x'), false, false, false), true, false), SessionsKeyAction::PushFilterChar('x'));
    assert_eq!(sessions_key_action(key(Key::Esc, false, false, false), true, true), SessionsKeyAction::ExitFilter);
    assert_eq!(sessions_key_action(key(Key::Esc, false, false, false), true, false), SessionsKeyAction::ClearFilter);
    assert_eq!(sessions_key_action(key(Key::Char('n'), true, false, false), false, true), SessionsKeyAction::NewSession);
    assert_eq!(sessions_key_action(key(Key::Char('/'), false, false, false), false, true), SessionsKeyAction::StartFilter);
}

#[test]
fn armed_interrupt_ends_the_session() {
    let ctrl_c = key(Key::Char('c'), true, false, false);
    assert!(!ends_session(ctrl_c, ChatFocus::Composer, false));
    assert!(ends_session(ctrl_c, ChatFocus::Composer, true));
}
