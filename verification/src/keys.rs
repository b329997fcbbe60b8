//! Key handling decisions: which action a key press asks for on each screen,
//! given the state that the decision reads. The caller performs the action.
use vstd::prelude::*;
use crate::text::concat3;
use crate::toast::{Notice, ToastVariant};

verus! {

/// The key of a key press.
#[derive(Debug, Clone, Copy, PartialEq, Eq, Structural)]
pub enum Key {
    Char(char),
    Enter,
    Esc,
    Tab,
    BackTab,
    Up,
    Down,
    Left,
    Right,
    Home,
    End,
    PageUp,
    PageDown,
    Backspace,
    Delete,
    Other,
}

/// A key press with its modifiers.
#[derive(Debug, Clone, Copy, PartialEq, Eq, Structural)]
pub struct KeyPress {
    pub key: Key,
    pub ctrl: bool,
    pub alt: bool,
    pub shift: bool,
}

/// `k` is the letter `lower` in either case.
pub open spec fn is_letter(k: Key, lower: char) -> bool {
    k == Key::Char(lower) || k == Key::Char(((lower as u32) - 32) as char)
}

fn letter(k: Key, lower: char, upper: char) -> (r: bool)
    requires
        'a' <= lower <= 'z',
        upper as u32 == lower as u32 - 32,
    ensures
        r == is_letter(k, lower),
{
    k == Key::Char(lower) || k == Key::Char(upper)
}

// ── Focus ───────────────────────────────────────────────────────────────────

/// Which pane of the chat screen has the keyboard.
#[derive(Debug, Clone, Copy, PartialEq, Eq, Structural)]
pub enum ChatFocus {
    Composer,
    Activity,
}

/// Alt+Tab moves between the composer and the activity pane; while the
/// pane is hidden the composer keeps the focus.
pub fn next_focus(focus: ChatFocus, activity_hidden: bool) -> (r: ChatFocus)
    ensures
        r == (match focus {
            ChatFocus::Composer => if activity_hidden {
                ChatFocus::Composer
            } else {
                ChatFocus::Activity
            },
            ChatFocus::Activity => ChatFocus::Composer,
        }),
{
    match focus {
        ChatFocus::Composer => if activity_hidden {
            ChatFocus::Composer
        } else {
            ChatFocus::Activity
        },
        ChatFocus::Activity => ChatFocus::Composer,
    }
}

// ── Interrupts ──────────────────────────────────────────────────────────────

/// What a press of Ctrl+C or Esc does.
#[derive(Debug, Clone, Copy, PartialEq, Eq, Structural)]
pub enum InterruptOutcome {
    /// Cancel the running turn at once.
    ForceCancel,
    /// Arm: the next press force-cancels.
    ArmCancel,
    /// Clear the composer (when not empty) and arm: the next press exits.
    ArmExit,
    /// Leave the application.
    Exit,
}

/// The outcome of an interrupt key while a turn is `running`, given
/// whether the previous key was also an interrupt (`armed`); with the new
/// value of `armed`.
pub open spec fn interrupt_spec(running: bool, armed: bool) -> (InterruptOutcome, bool) {
    if running {
        if armed {
            (InterruptOutcome::ForceCancel, false)
        } else {
            (InterruptOutcome::ArmCancel, true)
        }
    } else if armed {
        (InterruptOutcome::Exit, armed)
    } else {
        (InterruptOutcome::ArmExit, true)
    }
}

pub fn interrupt_step(running: bool, armed: bool) -> (r: (InterruptOutcome, bool))
    ensures
        r == interrupt_spec(running, armed),
{
    if running {
        if armed {
            (InterruptOutcome::ForceCancel, false)
        } else {
            (InterruptOutcome::ArmCancel, true)
        }
    } else if armed {
        (InterruptOutcome::Exit, armed)
    } else {
        (InterruptOutcome::ArmExit, true)
    }
}

/// The notice of an interrupt press (`key_name` names the key): a forced
/// cancel says so (a warning, two seconds); arming says what a second press
/// of the key does (three seconds); leaving says nothing.
pub fn interrupt_notice(outcome: InterruptOutcome, key_name: &str) -> (r: Option<Notice>)
    ensures
        match outcome {
            InterruptOutcome::ForceCancel => r matches Some(n) && n.variant == ToastVariant::Warning
                && n.message@ == "force cancelled"@ && n.ttl_ms == 2000,
            InterruptOutcome::ArmCancel => r matches Some(n) && n.variant == ToastVariant::Info
                && n.message@ == "press "@ + key_name@ + " again to force cancel"@ && n.ttl_ms == 3000,
            InterruptOutcome::ArmExit => r matches Some(n) && n.variant == ToastVariant::Info
                && n.message@ == "press "@ + key_name@ + " again to exit"@ && n.ttl_ms == 3000,
            InterruptOutcome::Exit => r is None,
        },
{
    match outcome {
        InterruptOutcome::ForceCancel => Some(
            Notice { variant: ToastVariant::Warning, message: "force cancelled".to_owned(), ttl_ms: 2000 },
        ),
        InterruptOutcome::ArmCancel => Some(
            Notice {
                variant: ToastVariant::Info,
                message: concat3("press ", key_name, " again to force cancel"),
                ttl_ms: 3000,
            },
        ),
        InterruptOutcome::ArmExit => Some(
            Notice { variant: ToastVariant::Info, message: concat3("press ", key_name, " again to exit"), ttl_ms: 3000 },
        ),
        InterruptOutcome::Exit => None,
    }
}

/// Two interrupt presses in a row leave an idle chat, and cancel a running
/// turn; one press never does either.
pub proof fn law_double_interrupt(running: bool)
    ensures
        interrupt_spec(running, false).0 != InterruptOutcome::Exit,
        interrupt_spec(running, false).0 != InterruptOutcome::ForceCancel,
        interrupt_spec(running, interrupt_spec(running, false).1).0 == (if running {
            InterruptOutcome::ForceCancel
        } else {
            InterruptOutcome::Exit
        }),
{
}

// ── Scrolling and selection ─────────────────────────────────────────────────

/// Page Up: five lines further back, within `0..=max`.
pub open spec fn page_up_spec(scroll: nat, max: nat) -> nat {
    if max == 0 {
        0
    } else {
        let s = if scroll < max {
            scroll
        } else {
            max
        };
        if s + 5 < max {
            s + 5
        } else {
            max
        }
    }
}

/// Page Down: five lines nearer the end, not below zero.
pub open spec fn page_down_spec(scroll: nat, max: nat) -> nat {
    let s = if scroll < max {
        scroll
    } else {
        max
    };
    if s >= 5 {
        (s - 5) as nat
    } else {
        0
    }
}

pub fn page_up(scroll: usize, max: usize) -> (r: usize)
    ensures
        r == page_up_spec(scroll as nat, max as nat),
{
    if max == 0 {
        0
    } else {
        let s = if scroll < max {
            scroll
        } else {
            max
        };
        let up = s.saturating_add(5);
        if up < max {
            up
        } else {
            max
        }
    }
}

pub fn page_down(scroll: usize, max: usize) -> (r: usize)
    ensures
        r == page_down_spec(scroll as nat, max as nat),
{
    let s = if scroll < max {
        scroll
    } else {
        max
    };
    s.saturating_sub(5)
}

/// Paging keeps the scroll offset within `0..=max`, and a page up followed
/// by a page down from a position at least five lines from both ends comes
/// back to it.
pub proof fn law_paging_bounded(scroll: nat, max: nat)
    ensures
        page_up_spec(scroll, max) <= max,
        page_down_spec(scroll, max) <= max,
        5 <= scroll && scroll + 5 <= max ==> page_down_spec(page_up_spec(scroll, max), max)
            == scroll,
{
}

/// The next entry of a list of `len` entries (the last stays selected).
pub open spec fn select_next_spec(selected: nat, len: nat) -> nat {
    if len == 0 {
        selected
    } else if selected + 1 < len {
        selected + 1
    } else {
        (len - 1) as nat
    }
}

pub fn select_next(selected: usize, len: usize) -> (r: usize)
    ensures
        r == select_next_spec(selected as nat, len as nat),
{
    if len == 0 {
        selected
    } else if selected < len - 1 {
        selected + 1
    } else {
        len - 1
    }
}

/// The previous entry (the first stays selected).
pub fn select_prev(selected: usize) -> (r: usize)
    ensures
        r == (if selected > 0 {
            selected - 1
        } else {
            0
        }),
{
    selected.saturating_sub(1)
}

// ── The chat screen ─────────────────────────────────────────────────────────

/// What the chat screen reads to decide on a key.
#[derive(Debug, Clone, Copy, PartialEq, Eq, Structural)]
pub struct ChatKeyContext {
    /// The slash-command popup is open.
    pub slash_help_open: bool,
    /// Whether the command selected in the popup takes an argument (`None`
    /// when nothing is selected).
    pub slash_selected_has_args: Option<bool>,
    pub focus: ChatFocus,
    pub details_open: bool,
    pub activity_empty: bool,
    pub running: bool,
}

/// What the key does to the slash-command popup first.
#[derive(Debug, Clone, Copy, PartialEq, Eq, Structural)]
pub enum SlashStep {
    Keep,
    SelectPrev,
    SelectNext,
    /// Complete the composer with the selected command.
    Complete,
    Close,
}

/// What a key asks of the chat screen.
#[derive(Debug, Clone, Copy, PartialEq, Eq, Structural)]
pub enum ChatKeyAction {
    Nothing,
    CycleFocus,
    CycleApprovalMode,
    /// Ctrl+C or Esc: see `interrupt_step`.
    Interrupt,
    OpenPalette,
    NewSession,
    ForkSession,
    FileSearch,
    ToggleSkills,
    Feedback,
    SwitchModel,
    ManageProviders,
    KillLineForward,
    KillLineBackward,
    ToggleToolDetails,
    WordLeft,
    WordRight,
    RefreshTranscript,
    ToSessions,
    ToggleActivityPanel,
    CloseDetails,
    HistoryPrev,
    HistoryNext,
    InsertNewline,
    TypeChar(char),
    OpenHelp,
    /// `/` outside the composer: focus the composer and type `/`.
    StartSlashCommand,
    PageUp,
    PageDown,
    SelectNextActivity,
    SelectPrevActivity,
    ComposerDown,
    ComposerUp,
    Backspace,
    Delete,
    MoveLeft,
    MoveRight,
    MoveHome,
    MoveEnd,
    OpenDetails,
    /// Enter in the composer while idle: see `enter_outcome`.
    SubmitComposer,
}

/// The decision of the chat screen on `kp`: the popup step, the action,
/// and whether the "pressed once" interrupt flag is cleared.
#[derive(Debug, Clone, Copy, PartialEq, Eq, Structural)]
pub struct ChatKeyOutcome {
    pub slash: SlashStep,
    pub action: ChatKeyAction,
    pub clear_interrupt: bool,
}

/// Shortcuts with Ctrl held (they work in either pane).
pub open spec fn ctrl_action(k: Key, focus: ChatFocus) -> Option<ChatKeyAction> {
    if is_letter(k, 'c') {
        Some(ChatKeyAction::Interrupt)
    } else if is_letter(k, 'p') {
        Some(ChatKeyAction::OpenPalette)
    } else if is_letter(k, 'n') {
        Some(ChatKeyAction::NewSession)
    } else if is_letter(k, 'f') {
        Some(ChatKeyAction::ForkSession)
    } else if is_letter(k, 't') {
        Some(ChatKeyAction::FileSearch)
    } else if is_letter(k, 's') {
        Some(ChatKeyAction::ToggleSkills)
    } else if is_letter(k, 'b') {
        Some(ChatKeyAction::Feedback)
    } else if is_letter(k, 'm') {
        Some(ChatKeyAction::SwitchModel)
    } else if is_letter(k, 'a') {
        Some(ChatKeyAction::ManageProviders)
    } else if is_letter(k, 'k') && focus == ChatFocus::Composer {
        Some(ChatKeyAction::KillLineForward)
    } else if is_letter(k, 'u') && focus == ChatFocus::Composer {
        Some(ChatKeyAction::KillLineBackward)
    } else if is_letter(k, 'o') {
        Some(ChatKeyAction::ToggleToolDetails)
    } else if k == Key::Left && focus == ChatFocus::Composer {
        Some(ChatKeyAction::WordLeft)
    } else if k == Key::Right && focus == ChatFocus::Composer {
        Some(ChatKeyAction::WordRight)
    } else if is_letter(k, 'r') {
        Some(ChatKeyAction::RefreshTranscript)
    } else if is_letter(k, 'q') {
        Some(ChatKeyAction::ToSessions)
    } else if is_letter(k, 'w') {
        Some(ChatKeyAction::ToggleActivityPanel)
    } else {
        None
    }
}

/// Plain keys, after the shortcuts and the composer's typing.
pub open spec fn plain_action(k: Key, ctx: ChatKeyContext) -> ChatKeyAction {
    let composer = ctx.focus == ChatFocus::Composer;
    match k {
        Key::Char(c) => if c == '?' {
            ChatKeyAction::OpenHelp
        } else if c == '/' && !composer {
            ChatKeyAction::StartSlashCommand
        } else {
            ChatKeyAction::Nothing
        },
        Key::Esc => ChatKeyAction::Interrupt,
        Key::PageUp => ChatKeyAction::PageUp,
        Key::PageDown => ChatKeyAction::PageDown,
        Key::Down => if composer {
            ChatKeyAction::ComposerDown
        } else {
            ChatKeyAction::SelectNextActivity
        },
        Key::Up => if composer {
            ChatKeyAction::ComposerUp
        } else {
            ChatKeyAction::SelectPrevActivity
        },
        Key::Backspace => if composer {
            ChatKeyAction::Backspace
        } else {
            ChatKeyAction::Nothing
        },
        Key::Delete => if composer {
            ChatKeyAction::Delete
        } else {
            ChatKeyAction::Nothing
        },
        Key::Left => if composer {
            ChatKeyAction::MoveLeft
        } else {
            ChatKeyAction::Nothing
        },
        Key::Right => if composer {
            ChatKeyAction::MoveRight
        } else {
            ChatKeyAction::Nothing
        },
        Key::Home => if composer {
            ChatKeyAction::MoveHome
        } else {
            ChatKeyAction::Nothing
        },
        Key::End => if composer {
            ChatKeyAction::MoveEnd
        } else {
            ChatKeyAction::Nothing
        },
        Key::Enter => if !composer {
            if ctx.activity_empty {
                ChatKeyAction::Nothing
            } else {
                ChatKeyAction::OpenDetails
            }
        } else if ctx.running {
            ChatKeyAction::Nothing
        } else {
            ChatKeyAction::SubmitComposer
        },
        _ => ChatKeyAction::Nothing,
    }
}

/// The chat screen's decision once the popup has had the key.
pub open spec fn main_action(kp: KeyPress, ctx: ChatKeyContext) -> (ChatKeyAction, bool) {
    let k = kp.key;
    let composer = ctx.focus == ChatFocus::Composer;
    let interrupt_key = (kp.ctrl && is_letter(k, 'c')) || k == Key::Esc;
    let clear = !interrupt_key;
    if kp.alt && k == Key::Tab {
        (ChatKeyAction::CycleFocus, false)
    } else if k == Key::BackTab {
        (ChatKeyAction::CycleApprovalMode, false)
    } else if kp.ctrl && ctrl_action(k, ctx.focus) is Some {
        (ctrl_action(k, ctx.focus)->0, clear)
    } else if ctx.details_open {
        if k == Key::Esc || k == Key::Enter {
            (ChatKeyAction::CloseDetails, clear)
        } else {
            (ChatKeyAction::Nothing, clear)
        }
    } else if composer && kp.alt && k == Key::Up {
        (ChatKeyAction::HistoryPrev, clear)
    } else if composer && kp.alt && k == Key::Down {
        (ChatKeyAction::HistoryNext, clear)
    } else if composer && k == Key::Enter && kp.shift {
        (ChatKeyAction::InsertNewline, clear)
    } else if composer && !kp.ctrl && !kp.alt && k is Char {
        (ChatKeyAction::TypeChar(k->Char_0), clear)
    } else {
        (plain_action(k, ctx), clear)
    }
}

/// The chat screen's decision on `kp`. With the popup open (and neither
/// Ctrl nor Alt held) Up, Down, Tab and Esc only act on the popup; Enter
/// completes a command that takes an argument, and otherwise completes
/// (or, with nothing selected, closes the popup) and goes on as Enter.
pub open spec fn chat_key_spec(kp: KeyPress, ctx: ChatKeyContext) -> ChatKeyOutcome {
    let rest = main_action(kp, ctx);
    let go_on = |slash: SlashStep| ChatKeyOutcome { slash, action: rest.0, clear_interrupt: rest.1 };
    let only = |slash: SlashStep| ChatKeyOutcome {
        slash,
        action: ChatKeyAction::Nothing,
        clear_interrupt: false,
    };
    if ctx.slash_help_open && !kp.ctrl && !kp.alt {
        match kp.key {
            Key::Up => only(SlashStep::SelectPrev),
            Key::Down => only(SlashStep::SelectNext),
            Key::Tab => only(SlashStep::Complete),
            Key::Esc => only(SlashStep::Close),
            Key::Enter => match ctx.slash_selected_has_args {
                Some(true) => only(SlashStep::Complete),
                Some(false) => go_on(SlashStep::Complete),
                None => go_on(SlashStep::Close),
            },
            _ => go_on(SlashStep::Keep),
        }
    } else {
        go_on(SlashStep::Keep)
    }
}

fn ctrl_action_of(k: Key, focus: ChatFocus) -> (r: Option<ChatKeyAction>)
    ensures
        r == ctrl_action(k, focus),
{
    let composer = focus == ChatFocus::Composer;
    if letter(k, 'c', 'C') {
        Some(ChatKeyAction::Interrupt)
    } else if letter(k, 'p', 'P') {
        Some(ChatKeyAction::OpenPalette)
    } else if letter(k, 'n', 'N') {
        Some(ChatKeyAction::NewSession)
    } else if letter(k, 'f', 'F') {
        Some(ChatKeyAction::ForkSession)
    } else if letter(k, 't', 'T') {
        Some(ChatKeyAction::FileSearch)
    } else if letter(k, 's', 'S') {
        Some(ChatKeyAction::ToggleSkills)
    } else if letter(k, 'b', 'B') {
        Some(ChatKeyAction::Feedback)
    } else if letter(k, 'm', 'M') {
        Some(ChatKeyAction::SwitchModel)
    } else if letter(k, 'a', 'A') {
        Some(ChatKeyAction::ManageProviders)
    } else if letter(k, 'k', 'K') && composer {
        Some(ChatKeyAction::KillLineForward)
    } else if letter(k, 'u', 'U') && composer {
        Some(ChatKeyAction::KillLineBackward)
    } else if letter(k, 'o', 'O') {
        Some(ChatKeyAction::ToggleToolDetails)
    } else if k == Key::Left && composer {
        Some(ChatKeyAction::WordLeft)
    } else if k == Key::Right && composer {
        Some(ChatKeyAction::WordRight)
    } else if letter(k, 'r', 'R') {
        Some(ChatKeyAction::RefreshTranscript)
    } else if letter(k, 'q', 'Q') {
        Some(ChatKeyAction::ToSessions)
    } else if letter(k, 'w', 'W') {
        Some(ChatKeyAction::ToggleActivityPanel)
    } else {
        None
    }
}

fn plain_action_of(k: Key, ctx: ChatKeyContext) -> (r: ChatKeyAction)
    ensures
        r == plain_action(k, ctx),
{
    let composer = ctx.focus == ChatFocus::Composer;
    match k {
        Key::Char(c) => if c == '?' {
            ChatKeyAction::OpenHelp
        } else if c == '/' && !composer {
            ChatKeyAction::StartSlashCommand
        } else {
            ChatKeyAction::Nothing
        },
        Key::Esc => ChatKeyAction::Interrupt,
        Key::PageUp => ChatKeyAction::PageUp,
        Key::PageDown => ChatKeyAction::PageDown,
        Key::Down => if composer {
            ChatKeyAction::ComposerDown
        } else {
            ChatKeyAction::SelectNextActivity
        },
        Key::Up => if composer {
            ChatKeyAction::ComposerUp
        } else {
            ChatKeyAction::SelectPrevActivity
        },
        Key::Backspace => if composer {
            ChatKeyAction::Backspace
        } else {
            ChatKeyAction::Nothing
        },
        Key::Delete => if composer {
            ChatKeyAction::Delete
        } else {
            ChatKeyAction::Nothing
        },
        Key::Left => if composer {
            ChatKeyAction::MoveLeft
        } else {
            ChatKeyAction::Nothing
        },
        Key::Right => if composer {
            ChatKeyAction::MoveRight
        } else {
            ChatKeyAction::Nothing
        },
        Key::Home => if composer {
            ChatKeyAction::MoveHome
        } else {
            ChatKeyAction::Nothing
        },
        Key::End => if composer {
            ChatKeyAction::MoveEnd
        } else {
            ChatKeyAction::Nothing
        },
        Key::Enter => if !composer {
            if ctx.activity_empty {
                ChatKeyAction::Nothing
            } else {
                ChatKeyAction::OpenDetails
            }
        } else if ctx.running {
            ChatKeyAction::Nothing
        } else {
            ChatKeyAction::SubmitComposer
        },
        _ => ChatKeyAction::Nothing,
    }
}

fn main_action_of(kp: KeyPress, ctx: ChatKeyContext) -> (r: (ChatKeyAction, bool))
    ensures
        r == main_action(kp, ctx),
{
    let k = kp.key;
    let composer = ctx.focus == ChatFocus::Composer;
    let interrupt_key = (kp.ctrl && letter(k, 'c', 'C')) || k == Key::Esc;
    let clear = !interrupt_key;
    if kp.alt && k == Key::Tab {
        return (ChatKeyAction::CycleFocus, false);
    }
    if k == Key::BackTab {
        return (ChatKeyAction::CycleApprovalMode, false);
    }
    if kp.ctrl {
        if let Some(a) = ctrl_action_of(k, ctx.focus) {
            return (a, clear);
        }
    }
    if ctx.details_open {
        if k == Key::Esc || k == Key::Enter {
            return (ChatKeyAction::CloseDetails, clear);
        }
        return (ChatKeyAction::Nothing, clear);
    }
    if composer && kp.alt && k == Key::Up {
        return (ChatKeyAction::HistoryPrev, clear);
    }
    if composer && kp.alt && k == Key::Down {
        return (ChatKeyAction::HistoryNext, clear);
    }
    if composer && k == Key::Enter && kp.shift {
        return (ChatKeyAction::InsertNewline, clear);
    }
    if composer && !kp.ctrl && !kp.alt {
        if let Key::Char(c) = k {
            return (ChatKeyAction::TypeChar(c), clear);
        }
    }
    (plain_action_of(k, ctx), clear)
}

/// The chat screen's decision on the key press `kp` in context `ctx`.
pub fn chat_key_action(kp: KeyPress, ctx: ChatKeyContext) -> (r: ChatKeyOutcome)
    ensures
        r == chat_key_spec(kp, ctx),
{
    let rest = main_action_of(kp, ctx);
    let go_on = ChatKeyOutcome { slash: SlashStep::Keep, action: rest.0, clear_interrupt: rest.1 };
    if ctx.slash_help_open && !kp.ctrl && !kp.alt {
        let only = ChatKeyOutcome {
            slash: SlashStep::Keep,
            action: ChatKeyAction::Nothing,
            clear_interrupt: false,
        };
        match kp.key {
            Key::Up => ChatKeyOutcome { slash: SlashStep::SelectPrev, ..only },
            Key::Down => ChatKeyOutcome { slash: SlashStep::SelectNext, ..only },
            Key::Tab => ChatKeyOutcome { slash: SlashStep::Complete, ..only },
            Key::Esc => ChatKeyOutcome { slash: SlashStep::Close, ..only },
            Key::Enter => match ctx.slash_selected_has_args {
                Some(true) => ChatKeyOutcome { slash: SlashStep::Complete, ..only },
                Some(false) => ChatKeyOutcome { slash: SlashStep::Complete, ..go_on },
                None => ChatKeyOutcome { slash: SlashStep::Close, ..go_on },
            },
            _ => go_on,
        }
    } else {
        go_on
    }
}

/// What Enter in the composer does with the prompt.
#[derive(Debug, PartialEq, Eq)]
pub enum EnterOutcome {
    /// Nothing to send and no error to show.
    Nothing,
    /// Nothing to send: show the last error in full.
    ShowError,
    /// Run the slash command line.
    SlashCommand(String),
    /// Send the prompt to the agent.
    Submit(String),
}

/// `EnterOutcome` with the prompt as a character sequence.
pub enum EnterSpec {
    Nothing,
    ShowError,
    SlashCommand(Seq<char>),
    Submit(Seq<char>),
}

impl View for EnterOutcome {
    type V = EnterSpec;

    open spec fn view(&self) -> EnterSpec {
        match self {
            EnterOutcome::Nothing => EnterSpec::Nothing,
            EnterOutcome::ShowError => EnterSpec::ShowError,
            EnterOutcome::SlashCommand(s) => EnterSpec::SlashCommand(s@),
            EnterOutcome::Submit(s) => EnterSpec::Submit(s@),
        }
    }
}

/// The prompt of an Enter: the held large paste if any, else the composer
/// trimmed. Empty: show the error if there is one; starting with `/`: a
/// slash command; else sent.
pub open spec fn enter_spec(paste: Option<Seq<char>>, composer: Seq<char>, has_status: bool) -> EnterSpec {
    let prompt = match paste {
        Some(p) => p,
        None => crate::text::trim(composer),
    };
    if prompt.len() == 0 {
        if has_status {
            EnterSpec::ShowError
        } else {
            EnterSpec::Nothing
        }
    } else if prompt[0] == '/' {
        EnterSpec::SlashCommand(prompt)
    } else {
        EnterSpec::Submit(prompt)
    }
}

/// What Enter in the idle composer does, given the held large paste, the
/// composer text and whether an error is shown.
pub fn enter_outcome(paste: Option<&str>, composer: &str, has_status: bool) -> (r: EnterOutcome)
    ensures
        r@ == enter_spec(crate::tool_text::opt_view(paste), composer@, has_status),
{
    let prompt = match paste {
        Some(p) => crate::text::chars_of(p),
        None => crate::text::trim_chars(&crate::text::chars_of(composer)),
    };
    if prompt.len() == 0 {
        if has_status {
            EnterOutcome::ShowError
        } else {
            EnterOutcome::Nothing
        }
    } else if prompt[0] == '/' {
        EnterOutcome::SlashCommand(crate::text::string_of(prompt.as_slice()))
    } else {
        EnterOutcome::Submit(crate::text::string_of(prompt.as_slice()))
    }
}

// ── Routing ─────────────────────────────────────────────────────────────────

/// Which handler a key goes to.
#[derive(Debug, Clone, Copy, PartialEq, Eq, Structural)]
pub enum KeyRoute {
    /// The help overlay is open: Esc or `?` closes it.
    CloseHelp,
    /// The help overlay is open and the key does nothing.
    Swallow,
    /// A modal dialog (other than the slash-command popup) has the key.
    Modal,
    /// A tool approval prompt has the key.
    Approval,
    /// Ctrl+E with an error shown: open the error in full.
    ShowErrorDetail,
    Sessions,
    Chat,
}

/// The order in which handlers get a key: the help overlay, a modal, a
/// pending approval, Ctrl+E, then the current screen.
pub open spec fn route_spec(
    kp: KeyPress,
    help_open: bool,
    modal_open: bool,
    approval_pending: bool,
    has_status: bool,
    on_chat: bool,
) -> KeyRoute {
    if help_open {
        if kp.key == Key::Esc || kp.key == Key::Char('?') {
            KeyRoute::CloseHelp
        } else {
            KeyRoute::Swallow
        }
    } else if modal_open {
        KeyRoute::Modal
    } else if approval_pending {
        KeyRoute::Approval
    } else if kp.ctrl && is_letter(kp.key, 'e') && has_status {
        KeyRoute::ShowErrorDetail
    } else if on_chat {
        KeyRoute::Chat
    } else {
        KeyRoute::Sessions
    }
}

pub fn route_key(
    kp: KeyPress,
    help_open: bool,
    modal_open: bool,
    approval_pending: bool,
    has_status: bool,
    on_chat: bool,
) -> (r: KeyRoute)
    ensures
        r == route_spec(kp, help_open, modal_open, approval_pending, has_status, on_chat),
{
    if help_open {
        if kp.key == Key::Esc || kp.key == Key::Char('?') {
            KeyRoute::CloseHelp
        } else {
            KeyRoute::Swallow
        }
    } else if modal_open {
        KeyRoute::Modal
    } else if approval_pending {
        KeyRoute::Approval
    } else if kp.ctrl && letter(kp.key, 'e', 'E') && has_status {
        KeyRoute::ShowErrorDetail
    } else if on_chat {
        KeyRoute::Chat
    } else {
        KeyRoute::Sessions
    }
}

// ── The approval prompt ─────────────────────────────────────────────────────

/// What a key does to a pending approval prompt.
#[derive(Debug, Clone, Copy, PartialEq, Eq, Structural)]
pub enum ApprovalKeyAction {
    Nothing,
    /// Move the highlight to option `0`.
    Select(usize),
    /// Answer with the highlighted option.
    Answer(crate::ApprovalResponse),
    /// Esc: deny.
    Deny,
    /// Shift+Tab: switch to the next approval mode.
    CycleMode,
}

/// Left/Up and Right/Down move the highlight within the options, Enter
/// answers with the highlighted option, Esc denies, Shift+Tab changes mode.
pub open spec fn approval_key_spec(k: Key, selection: nat, options: nat, is_command: bool) -> ApprovalKeyAction {
    if k == Key::Left || k == Key::Up {
        if selection > 0 {
            ApprovalKeyAction::Select((selection - 1) as usize)
        } else {
            ApprovalKeyAction::Nothing
        }
    } else if k == Key::Right || k == Key::Down {
        if selection + 1 < options {
            ApprovalKeyAction::Select((selection + 1) as usize)
        } else {
            ApprovalKeyAction::Nothing
        }
    } else if k == Key::Enter {
        ApprovalKeyAction::Answer(crate::approval::selection_response(selection, is_command))
    } else if k == Key::Esc {
        ApprovalKeyAction::Deny
    } else if k == Key::BackTab {
        ApprovalKeyAction::CycleMode
    } else {
        ApprovalKeyAction::Nothing
    }
}

pub fn approval_key_action(k: Key, selection: usize, options_count: usize, is_command: bool) -> (r: ApprovalKeyAction)
    ensures
        r == approval_key_spec(k, selection as nat, options_count as nat, is_command),
{
    if k == Key::Left || k == Key::Up {
        if selection > 0 {
            ApprovalKeyAction::Select(selection - 1)
        } else {
            ApprovalKeyAction::Nothing
        }
    } else if k == Key::Right || k == Key::Down {
        if options_count > 0 && selection < options_count - 1 {
            ApprovalKeyAction::Select(selection + 1)
        } else {
            ApprovalKeyAction::Nothing
        }
    } else if k == Key::Enter {
        ApprovalKeyAction::Answer(crate::approval::response_for_selection(selection, is_command))
    } else if k == Key::Esc {
        ApprovalKeyAction::Deny
    } else if k == Key::BackTab {
        ApprovalKeyAction::CycleMode
    } else {
        ApprovalKeyAction::Nothing
    }
}

/// The highlight of the approval prompt never leaves its options.
pub proof fn law_approval_highlight_in_range(k: Key, selection: nat, options: nat, is_command: bool)
    requires
        selection < options,
    ensures
        approval_key_spec(k, selection, options, is_command) matches ApprovalKeyAction::Select(s)
            ==> s < options,
{
}

// ── The session list ────────────────────────────────────────────────────────

/// What a key asks of the session list.
#[derive(Debug, Clone, Copy, PartialEq, Eq, Structural)]
pub enum SessionsKeyAction {
    Nothing,
    /// Leave the (empty) filter.
    ExitFilter,
    /// Empty the filter and select the first session.
    ClearFilter,
    PopFilterChar,
    PushFilterChar(char),
    /// Open the selected session; `leave_filter` also ends filtering.
    OpenSelected { leave_filter: bool },
    SelectNext,
    SelectPrev,
    PageDown,
    PageUp,
    SelectFirst,
    SelectLast,
    OpenPalette,
    NewSession,
    RenameSession,
    DeleteSession,
    Refresh,
    Quit,
    OpenHelp,
    StartFilter,
}

/// While filtering, characters go into the filter; otherwise Ctrl
/// shortcuts, `q`/Esc to quit, `?`, `/` and the movement keys.
pub open spec fn sessions_key_spec(kp: KeyPress, filter_active: bool, filter_empty: bool) -> SessionsKeyAction {
    let k = kp.key;
    if filter_active {
        match k {
            Key::Esc => if filter_empty {
                SessionsKeyAction::ExitFilter
            } else {
                SessionsKeyAction::ClearFilter
            },
            Key::Backspace => SessionsKeyAction::PopFilterChar,
            Key::Enter => SessionsKeyAction::OpenSelected { leave_filter: true },
            Key::Down => SessionsKeyAction::SelectNext,
            Key::Up => SessionsKeyAction::SelectPrev,
            Key::Char(c) => if !kp.ctrl && !kp.alt {
                SessionsKeyAction::PushFilterChar(c)
            } else {
                SessionsKeyAction::Nothing
            },
            _ => SessionsKeyAction::Nothing,
        }
    } else if kp.ctrl && is_letter(k, 'p') {
        SessionsKeyAction::OpenPalette
    } else if kp.ctrl && is_letter(k, 'n') {
        SessionsKeyAction::NewSession
    } else if kp.ctrl && is_letter(k, 'e') {
        SessionsKeyAction::RenameSession
    } else if kp.ctrl && is_letter(k, 'd') {
        SessionsKeyAction::DeleteSession
    } else if kp.ctrl && is_letter(k, 'r') {
        SessionsKeyAction::Refresh
    } else if !kp.ctrl && (is_letter(k, 'q') || k == Key::Esc) {
        SessionsKeyAction::Quit
    } else {
        match k {
            Key::Char(c) => if c == '?' {
                SessionsKeyAction::OpenHelp
            } else if c == '/' {
                SessionsKeyAction::StartFilter
            } else {
                SessionsKeyAction::Nothing
            },
            Key::Down => SessionsKeyAction::SelectNext,
            Key::Up => SessionsKeyAction::SelectPrev,
            Key::PageDown => SessionsKeyAction::PageDown,
            Key::PageUp => SessionsKeyAction::PageUp,
            Key::Home => SessionsKeyAction::SelectFirst,
            Key::End => SessionsKeyAction::SelectLast,
            Key::Enter => SessionsKeyAction::OpenSelected { leave_filter: false },
            _ => SessionsKeyAction::Nothing,
        }
    }
}

pub fn sessions_key_action(kp: KeyPress, filter_active: bool, filter_empty: bool) -> (r: SessionsKeyAction)
    ensures
        r == sessions_key_spec(kp, filter_active, filter_empty),
{
    let k = kp.key;
    if filter_active {
        return match k {
            Key::Esc => if filter_empty {
                SessionsKeyAction::ExitFilter
            } else {
                SessionsKeyAction::ClearFilter
            },
            Key::Backspace => SessionsKeyAction::PopFilterChar,
            Key::Enter => SessionsKeyAction::OpenSelected { leave_filter: true },
            Key::Down => SessionsKeyAction::SelectNext,
            Key::Up => SessionsKeyAction::SelectPrev,
            Key::Char(c) => if !kp.ctrl && !kp.alt {
                SessionsKeyAction::PushFilterChar(c)
            } else {
                SessionsKeyAction::Nothing
            },
            _ => SessionsKeyAction::Nothing,
        };
    }
    if kp.ctrl && letter(k, 'p', 'P') {
        SessionsKeyAction::OpenPalette
    } else if kp.ctrl && letter(k, 'n', 'N') {
        SessionsKeyAction::NewSession
    } else if kp.ctrl && letter(k, 'e', 'E') {
        SessionsKeyAction::RenameSession
    } else if kp.ctrl && letter(k, 'd', 'D') {
        SessionsKeyAction::DeleteSession
    } else if kp.ctrl && letter(k, 'r', 'R') {
        SessionsKeyAction::Refresh
    } else if !kp.ctrl && (letter(k, 'q', 'Q') || k == Key::Esc) {
        SessionsKeyAction::Quit
    } else {
        match k {
            Key::Char(c) => if c == '?' {
                SessionsKeyAction::OpenHelp
            } else if c == '/' {
                SessionsKeyAction::StartFilter
            } else {
                SessionsKeyAction::Nothing
            },
            Key::Down => SessionsKeyAction::SelectNext,
            Key::Up => SessionsKeyAction::SelectPrev,
            Key::PageDown => SessionsKeyAction::PageDown,
            Key::PageUp => SessionsKeyAction::PageUp,
            Key::Home => SessionsKeyAction::SelectFirst,
            Key::End => SessionsKeyAction::SelectLast,
            Key::Enter => SessionsKeyAction::OpenSelected { leave_filter: false },
            _ => SessionsKeyAction::Nothing,
        }
    }
}

/// The selected row after a movement of the session list with `len` rows.
pub open spec fn move_spec(action: SessionsKeyAction, selected: nat, len: nat) -> nat {
    let last: nat = if len > 0 {
        (len - 1) as nat
    } else {
        0
    };
    match action {
        SessionsKeyAction::SelectNext => select_next_spec(selected, len),
        SessionsKeyAction::SelectPrev => if selected > 0 {
            (selected - 1) as nat
        } else {
            0
        },
        SessionsKeyAction::PageDown => if len == 0 {
            selected
        } else if selected + 10 < last {
            selected + 10
        } else {
            last
        },
        SessionsKeyAction::PageUp => if selected >= 10 {
            (selected - 10) as nat
        } else {
            0
        },
        SessionsKeyAction::SelectFirst => 0,
        SessionsKeyAction::SelectLast => last,
        _ => selected,
    }
}

pub fn move_selection_in_list(action: SessionsKeyAction, selected: usize, len: usize) -> (r: usize)
    ensures
        r == move_spec(action, selected as nat, len as nat),
{
    let last = len.saturating_sub(1);
    match action {
        SessionsKeyAction::SelectNext => select_next(selected, len),
        SessionsKeyAction::SelectPrev => selected.saturating_sub(1),
        SessionsKeyAction::PageDown => if len == 0 {
            selected
        } else if selected < last && last - selected > 10 {
            selected + 10
        } else {
            last
        },
        SessionsKeyAction::PageUp => selected.saturating_sub(10),
        SessionsKeyAction::SelectFirst => 0,
        SessionsKeyAction::SelectLast => last,
        _ => selected,
    }
}

/// Moving through a non-empty list from a selected row keeps the
/// selection on a row.
pub proof fn law_selection_stays_in_list(action: SessionsKeyAction, selected: nat, len: nat)
    requires
        selected < len,
    ensures
        move_spec(action, selected, len) < len,
{
}

} // verus!
