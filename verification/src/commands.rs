//! What a palette command does. The decision depends only on the screen the
//! command runs on and a few flags of the open session; carrying it out
//! (talking to the session store, scanning files, reading the memory store)
//! is left to the caller, which reports back through the notices here.
use vstd::prelude::*;
use crate::composer::{composer_clear, Composer};
use crate::events::ActivityFeed;
use crate::keys::ChatFocus;
use crate::palette::CommandId;
use crate::transcript::StoredMessage;
use crate::DraftSession;
use crate::toast::{Notice, ToastVariant};

verus! {

/// What the command depends on.
#[derive(Debug, Clone, Copy, PartialEq, Eq, Structural)]
pub struct CommandContext {
    /// A session is open (the chat screen), rather than the sessions list.
    pub in_chat: bool,
    /// On the sessions list, a session is highlighted.
    pub session_selected: bool,
    /// The open session shows tool details.
    pub tool_details: bool,
    /// The open session shows the model's thinking.
    pub show_reasoning: bool,
    /// A run is in progress in the open session.
    pub running: bool,
}

/// The outcome of a command.
#[derive(Debug, Clone, Copy, PartialEq, Eq, Structural)]
pub enum CommandPlan {
    OpenHelp,
    ShowSessions,
    /// Start a new, unsaved session in the current directory.
    CreateSession,
    /// Fork the open session.
    ForkSession,
    /// Ask for a new title of the open or highlighted session.
    OpenRename,
    /// Ask before deleting the open or highlighted session.
    OpenDeleteConfirm,
    RefreshSessions,
    RefreshTranscript,
    /// Show (`true`) or hide tool details, tool output and thinking together.
    SetDetails(bool),
    /// Show (`true`) or hide the model's thinking.
    SetThinking(bool),
    OpenFileSearch,
    OpenSearch,
    /// Show or hide the activity panel of the open session.
    ToggleActivity,
    /// Stop the run in progress.
    CancelRun,
    OpenSkills,
    OpenFeedback,
    OpenModelPicker,
    OpenProviderManager,
    OpenMemoryViewer,
    /// The command needs an open session and there is none.
    NeedSession,
    /// Quitting is done with the `q` key; say so.
    QuitHint,
    /// Nothing to do.
    Nothing,
}

/// The commands that act on the open session and need one.
pub open spec fn needs_session(id: CommandId) -> bool {
    id == CommandId::ForkSession || id == CommandId::ToggleTools || id == CommandId::ToggleReasoning
        || id == CommandId::Search
}

pub open spec fn plan_spec(id: CommandId, ctx: CommandContext) -> CommandPlan {
    if needs_session(id) && !ctx.in_chat {
        CommandPlan::NeedSession
    } else {
        match id {
            CommandId::Help => CommandPlan::OpenHelp,
            CommandId::Sessions => CommandPlan::ShowSessions,
            CommandId::NewSession => CommandPlan::CreateSession,
            CommandId::ForkSession => CommandPlan::ForkSession,
            CommandId::RenameSession => if ctx.in_chat || ctx.session_selected {
                CommandPlan::OpenRename
            } else {
                CommandPlan::Nothing
            },
            CommandId::DeleteSession => if ctx.in_chat || ctx.session_selected {
                CommandPlan::OpenDeleteConfirm
            } else {
                CommandPlan::Nothing
            },
            CommandId::Refresh => if ctx.in_chat {
                CommandPlan::RefreshTranscript
            } else {
                CommandPlan::RefreshSessions
            },
            CommandId::ToggleTools => CommandPlan::SetDetails(!ctx.tool_details),
            CommandId::ToggleReasoning => CommandPlan::SetThinking(!ctx.show_reasoning),
            CommandId::Search => CommandPlan::OpenSearch,
            CommandId::FileSearch => CommandPlan::OpenFileSearch,
            CommandId::ToggleActivity => if ctx.in_chat {
                CommandPlan::ToggleActivity
            } else {
                CommandPlan::Nothing
            },
            CommandId::CancelRun => if ctx.in_chat && ctx.running {
                CommandPlan::CancelRun
            } else {
                CommandPlan::Nothing
            },
            CommandId::Quit => CommandPlan::QuitHint,
            CommandId::ToggleSkills => CommandPlan::OpenSkills,
            CommandId::Feedback => CommandPlan::OpenFeedback,
            CommandId::SwitchModel => CommandPlan::OpenModelPicker,
            CommandId::ManageProviders => CommandPlan::OpenProviderManager,
            CommandId::ViewMemory => CommandPlan::OpenMemoryViewer,
        }
    }
}

/// What command `id` does in `ctx`: commands on the open session ask for
/// one when there is none; renaming and deleting need an open or
/// highlighted session; the toggles flip the open session's flags.
pub fn plan_command(id: CommandId, ctx: CommandContext) -> (r: CommandPlan)
    ensures
        r == plan_spec(id, ctx),
{
    match id {
        CommandId::Help => CommandPlan::OpenHelp,
        CommandId::Sessions => CommandPlan::ShowSessions,
        CommandId::NewSession => CommandPlan::CreateSession,
        CommandId::ForkSession => if ctx.in_chat {
            CommandPlan::ForkSession
        } else {
            CommandPlan::NeedSession
        },
        CommandId::RenameSession => if ctx.in_chat || ctx.session_selected {
            CommandPlan::OpenRename
        } else {
            CommandPlan::Nothing
        },
        CommandId::DeleteSession => if ctx.in_chat || ctx.session_selected {
            CommandPlan::OpenDeleteConfirm
        } else {
            CommandPlan::Nothing
        },
        CommandId::Refresh => if ctx.in_chat {
            CommandPlan::RefreshTranscript
        } else {
            CommandPlan::RefreshSessions
        },
        CommandId::ToggleTools => if ctx.in_chat {
            CommandPlan::SetDetails(!ctx.tool_details)
        } else {
            CommandPlan::NeedSession
        },
        CommandId::ToggleReasoning => if ctx.in_chat {
            CommandPlan::SetThinking(!ctx.show_reasoning)
        } else {
            CommandPlan::NeedSession
        },
        CommandId::Search => if ctx.in_chat {
            CommandPlan::OpenSearch
        } else {
            CommandPlan::NeedSession
        },
        CommandId::FileSearch => CommandPlan::OpenFileSearch,
        CommandId::ToggleActivity => if ctx.in_chat {
            CommandPlan::ToggleActivity
        } else {
            CommandPlan::Nothing
        },
        CommandId::CancelRun => if ctx.in_chat && ctx.running {
            CommandPlan::CancelRun
        } else {
            CommandPlan::Nothing
        },
        CommandId::Quit => CommandPlan::QuitHint,
        CommandId::ToggleSkills => CommandPlan::OpenSkills,
        CommandId::Feedback => CommandPlan::OpenFeedback,
        CommandId::SwitchModel => CommandPlan::OpenModelPicker,
        CommandId::ManageProviders => CommandPlan::OpenProviderManager,
        CommandId::ViewMemory => CommandPlan::OpenMemoryViewer,
    }
}

/// The notice a plan raises once it is carried out, if it raises one by
/// itself (forking, renaming and the like report what the session store
/// answered instead).
pub open spec fn plan_notice_spec(plan: CommandPlan) -> Option<(ToastVariant, Seq<char>, u64)> {
    match plan {
        CommandPlan::CreateSession => Some((ToastVariant::Success, "new session (saved on first message)"@, 2000)),
        CommandPlan::RefreshSessions => Some((ToastVariant::Info, "refreshed sessions"@, 2000)),
        CommandPlan::RefreshTranscript => Some((ToastVariant::Info, "refreshed transcript"@, 2000)),
        CommandPlan::SetDetails(true) => Some((ToastVariant::Info, "details: expanded"@, 2000)),
        CommandPlan::SetDetails(false) => Some((ToastVariant::Info, "details: collapsed"@, 2000)),
        CommandPlan::SetThinking(true) => Some((ToastVariant::Info, "thinking: visible"@, 2000)),
        CommandPlan::SetThinking(false) => Some((ToastVariant::Info, "thinking: hidden"@, 2000)),
        CommandPlan::CancelRun => Some((ToastVariant::Warning, "force cancelled"@, 2000)),
        CommandPlan::NeedSession => Some((ToastVariant::Warning, "open a session first"@, 3000)),
        CommandPlan::QuitHint => Some((ToastVariant::Info, "press q to quit"@, 2000)),
        _ => None,
    }
}

fn notice(variant: ToastVariant, message: &str, ttl_ms: u64) -> (r: Notice)
    ensures
        r.variant == variant,
        r.message@ == message@,
        r.ttl_ms == ttl_ms,
{
    Notice { variant, message: message.to_owned(), ttl_ms }
}

pub fn plan_notice(plan: CommandPlan) -> (r: Option<Notice>)
    ensures
        match plan_notice_spec(plan) {
            Some((v, m, t)) => r matches Some(n) && n.variant == v && n.message@ == m && n.ttl_ms == t,
            None => r is None,
        },
{
    match plan {
        CommandPlan::CreateSession => Some(notice(ToastVariant::Success, "new session (saved on first message)", 2000)),
        CommandPlan::RefreshSessions => Some(notice(ToastVariant::Info, "refreshed sessions", 2000)),
        CommandPlan::RefreshTranscript => Some(notice(ToastVariant::Info, "refreshed transcript", 2000)),
        CommandPlan::SetDetails(expand) => if expand {
            Some(notice(ToastVariant::Info, "details: expanded", 2000))
        } else {
            Some(notice(ToastVariant::Info, "details: collapsed", 2000))
        },
        CommandPlan::SetThinking(visible) => if visible {
            Some(notice(ToastVariant::Info, "thinking: visible", 2000))
        } else {
            Some(notice(ToastVariant::Info, "thinking: hidden", 2000))
        },
        CommandPlan::CancelRun => Some(notice(ToastVariant::Warning, "force cancelled", 2000)),
        CommandPlan::NeedSession => Some(notice(ToastVariant::Warning, "open a session first", 3000)),
        CommandPlan::QuitHint => Some(notice(ToastVariant::Info, "press q to quit", 2000)),
        _ => None,
    }
}


// ── What the plans do to the chat screen ────────────────────────────────────

/// The chat screen of one session.
pub struct ChatScreen {
    pub session: DraftSession,
    pub messages: Vec<StoredMessage>,
    /// Rows scrolled up from the bottom of the transcript.
    pub scroll: usize,
    pub live_assistant: String,
    pub live_reasoning: String,
    pub show_reasoning: bool,
    pub composer: Composer,
    pub paste_buffer: Option<String>,
    pub focus: ChatFocus,
    pub activity: ActivityFeed,
    pub details_open: bool,
    pub activity_hidden: bool,
    pub tool_details: bool,
    pub output_details: bool,
    /// A turn is running.
    pub running: bool,
    pub pending_prompt: Option<String>,
    pub total_input_tokens: u64,
    pub total_output_tokens: u64,
    pub last_total_tokens: u64,
}

/// A chat screen in its first state: no messages, nothing streamed or
/// running, an empty composer with the keyboard, an empty and hidden
/// activity pane, details and thinking off, scrolled to the bottom, no token
/// use.
pub open spec fn fresh_chat(c: ChatScreen) -> bool {
    &&& c.messages@.len() == 0
    &&& c.scroll == 0
    &&& c.live_assistant@.len() == 0
    &&& c.live_reasoning@.len() == 0
    &&& !c.show_reasoning
    &&& c.composer.text@.len() == 0
    &&& c.composer.cursor == 0
    &&& !c.composer.cleared_by_interrupt
    &&& c.paste_buffer is None
    &&& c.focus == ChatFocus::Composer
    &&& c.activity.items@.len() == 0
    &&& c.activity.selected == 0
    &&& !c.details_open
    &&& c.activity_hidden
    &&& !c.tool_details
    &&& !c.output_details
    &&& !c.running
    &&& c.pending_prompt is None
    &&& c.total_input_tokens == 0
    &&& c.total_output_tokens == 0
    &&& c.last_total_tokens == 0
}

/// `CreateSession`: the chat screen of the new draft `session`.
pub fn open_new_chat(session: DraftSession) -> (r: ChatScreen)
    ensures
        r.session == session,
        fresh_chat(r),
{
    ChatScreen {
        session,
        messages: Vec::new(),
        scroll: 0,
        live_assistant: String::new(),
        live_reasoning: String::new(),
        show_reasoning: false,
        composer: Composer { text: String::new(), cursor: 0, cleared_by_interrupt: false },
        paste_buffer: None,
        focus: ChatFocus::Composer,
        activity: ActivityFeed::new(),
        details_open: false,
        activity_hidden: true,
        tool_details: false,
        output_details: false,
        running: false,
        pending_prompt: None,
        total_input_tokens: 0,
        total_output_tokens: 0,
        last_total_tokens: 0,
    }
}

/// `ForkSession`, once the session store made the fork: the screen shows
/// the fork and its messages, scrolled to the bottom, with an empty
/// composer that has the keyboard, no activity, details off and nothing
/// running; the pane's visibility, thinking and token counts stay.
pub fn show_fork(c: &mut ChatScreen, forked: DraftSession, messages: Vec<StoredMessage>)
    ensures
        final(c).session == forked,
        final(c).messages@ == messages@,
        final(c).scroll == 0,
        final(c).live_assistant@.len() == 0,
        final(c).composer.text@.len() == 0,
        final(c).composer.cursor == 0,
        final(c).composer.cleared_by_interrupt == old(c).composer.cleared_by_interrupt,
        final(c).focus == ChatFocus::Composer,
        final(c).activity.items@.len() == 0,
        final(c).activity.selected == 0,
        !final(c).details_open,
        !final(c).tool_details,
        !final(c).output_details,
        !final(c).running,
        final(c).activity_hidden == old(c).activity_hidden,
        final(c).show_reasoning == old(c).show_reasoning,
        final(c).live_reasoning@ == old(c).live_reasoning@,
        final(c).pending_prompt == old(c).pending_prompt,
        final(c).total_input_tokens == old(c).total_input_tokens,
        final(c).total_output_tokens == old(c).total_output_tokens,
        final(c).last_total_tokens == old(c).last_total_tokens,
{
    c.session = forked;
    c.messages = messages;
    c.scroll = 0;
    c.live_assistant = String::new();
    composer_clear(&mut c.composer);
    c.focus = ChatFocus::Composer;
    c.activity = ActivityFeed::new();
    c.details_open = false;
    c.tool_details = false;
    c.output_details = false;
    c.running = false;
}

/// `SetDetails(expand)`: tool details, tool output and thinking shown or
/// hidden together; nothing else changes.
pub fn set_details(c: &mut ChatScreen, expand: bool)
    ensures
        final(c).tool_details == expand,
        final(c).output_details == expand,
        final(c).show_reasoning == expand,
        final(c).messages@ == old(c).messages@,
        final(c).composer.text@ == old(c).composer.text@,
        final(c).composer.cursor == old(c).composer.cursor,
        final(c).focus == old(c).focus,
        final(c).scroll == old(c).scroll,
{
    c.tool_details = expand;
    c.output_details = expand;
    c.show_reasoning = expand;
}

/// Clearing the context, once the session store dropped the messages: no
/// messages, nothing streamed, no activity, scrolled to the bottom, no
/// token use; the composer, focus and pane settings stay.
pub fn clear_context(c: &mut ChatScreen)
    ensures
        final(c).messages@.len() == 0,
        final(c).live_assistant@.len() == 0,
        final(c).live_reasoning@.len() == 0,
        final(c).activity.items@.len() == 0,
        final(c).activity.selected == 0,
        final(c).scroll == 0,
        final(c).total_input_tokens == 0,
        final(c).total_output_tokens == 0,
        final(c).last_total_tokens == 0,
        final(c).session == old(c).session,
        final(c).composer.text@ == old(c).composer.text@,
        final(c).composer.cursor == old(c).composer.cursor,
        final(c).focus == old(c).focus,
        final(c).activity_hidden == old(c).activity_hidden,
        final(c).tool_details == old(c).tool_details,
        final(c).running == old(c).running,
{
    c.messages = Vec::new();
    c.live_assistant = String::new();
    c.live_reasoning = String::new();
    c.activity = ActivityFeed::new();
    c.scroll = 0;
    c.total_input_tokens = 0;
    c.total_output_tokens = 0;
    c.last_total_tokens = 0;
}

} // verus!
