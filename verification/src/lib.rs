//! Verified core of an interactive terminal front end for a coding agent:
//! composer editing, word wrapping, large pastes, the tool-approval policy,
//! transcript helpers, filters and parsers.
use vstd::prelude::*;

pub mod text;
pub mod width;
pub mod composer;
pub mod wrap;
pub mod paste;
pub mod json;
pub mod approval;
pub mod transcript;
pub mod history;
pub mod filters;
pub mod parse;
pub mod diff;
pub mod format;
pub mod tool_text;
pub mod failure;
pub mod slash;
pub mod keys;
pub mod palette;
pub mod sessions;
pub mod activity;
pub mod toast;
pub mod modals;
pub mod watcher;
pub mod providers;
pub mod markdown;
pub mod events;
pub mod footer;
pub mod tool_diff;
pub mod chat_pane;
pub mod term_events;
pub mod preview;
pub mod screen_diff;
pub mod live;
pub mod memory;
pub mod models;
pub mod layout;
pub mod commands;
pub mod files;
pub mod oauth;
pub mod skills;
pub mod chat_title;
pub mod transcript_tail;

verus! {

broadcast use vstd::seq_lib::group_seq_properties;

/// How a prompt typed in the composer is run.
#[derive(Debug, Clone, Copy, PartialEq, Eq, Structural)]
pub enum InteractiveSubmitMode {
    Agent,
    Run,
}

/// Errors of the terminal front end.
#[derive(Debug, PartialEq, Eq)]
pub enum TuiError {
    ChannelClosed,
    Io(String),
    State(String),
}

impl TuiError {
    /// The error's message: "ui channel closed", "io error: …" or
    /// "state error: …" with the detail.
    pub fn message(&self) -> (r: String)
        ensures
            r@ == match self {
                TuiError::ChannelClosed => "ui channel closed"@,
                TuiError::Io(d) => "io error: "@ + d@,
                TuiError::State(d) => "state error: "@ + d@,
            },
    {
        match self {
            TuiError::ChannelClosed => "ui channel closed".to_owned(),
            TuiError::Io(d) => crate::text::concat2("io error: ", d.as_str()),
            TuiError::State(d) => crate::text::concat2("state error: ", d.as_str()),
        }
    }
}

/// The user's answer to a tool approval request.
#[derive(Debug, Clone, Copy, PartialEq, Eq, Structural)]
pub enum ApprovalResponse {
    AllowOnce,
    AllowAllCommands,
    AllowAllToolsAutopilot,
    Deny,
}

/// A session id of a session not yet saved: it starts with `draft-`.
pub open spec fn draft_session_id(id: Seq<char>) -> bool {
    crate::text::has_prefix(id, "draft-"@)
}

/// Whether `session_id` names an unsaved draft session.
pub fn is_draft_session_id(session_id: &str) -> (r: bool)
    ensures
        r == draft_session_id(session_id@),
{
    let v = crate::text::chars_of(session_id);
    let p = crate::text::chars_of("draft-");
    crate::text::has_prefix_exec(&v, &p)
}

/// The id of a draft session started at `now_unix_ms`: `draft-` and the
/// time in decimal.
pub fn new_draft_session_id(now_unix_ms: i64) -> (r: String)
    ensures
        r@ == "draft-"@ + crate::tool_text::signed_decimal(now_unix_ms as int),
{
    let mut v = crate::text::chars_of("draft-");
    let d = crate::tool_text::signed_decimal_of_i64(now_unix_ms);
    crate::text::push_all(&mut v, &d);
    crate::text::string_of(v.as_slice())
}

/// A session that exists only in the chat screen until its first prompt
/// saves it.
#[derive(Debug)]
pub struct DraftSession {
    pub id: String,
    pub title: Option<String>,
    pub created_at_unix_ms: i64,
    pub updated_at_unix_ms: i64,
    pub parent_id: Option<String>,
    pub cwd: String,
    pub workspace_root: String,
    pub model: String,
    pub total_input_tokens: u64,
    pub total_output_tokens: u64,
}

/// A new draft session started at `now_unix_ms` in `cwd` (paths as their
/// display text): its id is `draft-` and the time, it was created and
/// updated then, it has no parent and no token use yet.
pub fn new_draft_session(
    title: Option<String>,
    cwd: String,
    workspace_root: String,
    model: String,
    now_unix_ms: i64,
) -> (r: DraftSession)
    ensures
        r.id@ == "draft-"@ + crate::tool_text::signed_decimal(now_unix_ms as int),
        draft_session_id(r.id@),
        r.title == title,
        r.created_at_unix_ms == now_unix_ms,
        r.updated_at_unix_ms == now_unix_ms,
        r.parent_id is None,
        r.cwd == cwd,
        r.workspace_root == workspace_root,
        r.model == model,
        r.total_input_tokens == 0,
        r.total_output_tokens == 0,
{
    proof {
        law_new_drafts_are_drafts(now_unix_ms);
    }
    DraftSession {
        id: new_draft_session_id(now_unix_ms),
        title,
        created_at_unix_ms: now_unix_ms,
        updated_at_unix_ms: now_unix_ms,
        parent_id: None,
        cwd,
        workspace_root,
        model,
        total_input_tokens: 0,
        total_output_tokens: 0,
    }
}

/// Every id that `new_draft_session_id` makes is recognised as a draft.
pub proof fn law_new_drafts_are_drafts(now_unix_ms: i64)
    ensures
        draft_session_id("draft-"@ + crate::tool_text::signed_decimal(now_unix_ms as int)),
{
    let p = "draft-"@;
    let s = p + crate::tool_text::signed_decimal(now_unix_ms as int);
    assert(s.take(p.len() as int) =~= p);
}

#[verifier::external_type_specification]
#[verifier::external_body]
pub struct ExPathBuf(std::path::PathBuf);

/// What a new session is created with.
#[derive(Debug)]
pub struct CreateSessionOptions {
    pub title: Option<String>,
    pub parent_id: Option<String>,
    pub cwd: std::path::PathBuf,
    pub workspace_root: std::path::PathBuf,
    pub model: String,
}

/// An input to the headless UI loop: an engine event (by its id), a terminal
/// resize, or the request to stop.
#[derive(Debug, Clone, Copy, PartialEq, Eq, Structural)]
pub enum UiInput {
    Domain { event_id: u64 },
    Resize { width: u16, height: u16 },
    Shutdown,
}

/// What the headless UI loop saw before it stopped.
#[derive(Debug, Clone, Copy, PartialEq, Eq, Structural)]
pub struct UiSummary {
    pub events_processed: usize,
    pub resize_events: usize,
    pub shutdown_received: bool,
}

/// Number of engine events and of resizes among `inputs`.
pub open spec fn count_domain(inputs: Seq<UiInput>) -> nat
    decreases inputs.len(),
{
    if inputs.len() == 0 {
        0
    } else {
        count_domain(inputs.drop_last()) + (if inputs.last() is Domain {
            1nat
        } else {
            0nat
        })
    }
}

pub open spec fn count_resize(inputs: Seq<UiInput>) -> nat
    decreases inputs.len(),
{
    if inputs.len() == 0 {
        0
    } else {
        count_resize(inputs.drop_last()) + (if inputs.last() is Resize {
            1nat
        } else {
            0nat
        })
    }
}

/// Index of the first shutdown among `inputs`, if any.
pub open spec fn first_shutdown(inputs: Seq<UiInput>) -> Option<nat>
    decreases inputs.len(),
{
    if inputs.len() == 0 {
        None
    } else if inputs[0] is Shutdown {
        Some(0)
    } else {
        match first_shutdown(inputs.drop_first()) {
            Some(i) => Some(i + 1),
            None => None,
        }
    }
}

/// The summary after one more input, and whether the loop stops.
pub fn ui_step(summary: UiSummary, input: UiInput) -> (r: (UiSummary, bool))
    requires
        summary.events_processed < usize::MAX,
        summary.resize_events < usize::MAX,
    ensures
        r.1 == (input is Shutdown),
        r.0.events_processed == summary.events_processed + (if input is Domain {
            1int
        } else {
            0
        }),
        r.0.resize_events == summary.resize_events + (if input is Resize {
            1int
        } else {
            0
        }),
        r.0.shutdown_received == (summary.shutdown_received || input is Shutdown),
{
    match input {
        UiInput::Domain { .. } => (
            UiSummary { events_processed: summary.events_processed + 1, ..summary },
            false,
        ),
        UiInput::Resize { .. } => (
            UiSummary { resize_events: summary.resize_events + 1, ..summary },
            false,
        ),
        UiInput::Shutdown => (UiSummary { shutdown_received: true, ..summary }, true),
    }
}

/// Runs the UI loop over `inputs` in order: counts engine events and resizes
/// up to the first shutdown; without a shutdown the input channel closed
/// early, which is an error.
pub fn ui_run(inputs: &Vec<UiInput>) -> (r: Result<UiSummary, TuiError>)
    ensures
        match first_shutdown(inputs@) {
            Some(i) => r == Ok::<UiSummary, TuiError>(
                UiSummary {
                    events_processed: count_domain(inputs@.take(i as int)) as usize,
                    resize_events: count_resize(inputs@.take(i as int)) as usize,
                    shutdown_received: true,
                },
            ),
            None => r == Err::<UiSummary, TuiError>(TuiError::ChannelClosed),
        },
{
    let mut summary = UiSummary { events_processed: 0, resize_events: 0, shutdown_received: false };
    let mut i: usize = 0;
    proof {
        assert(inputs@.take(0) =~= Seq::<UiInput>::empty());
        assert(inputs@.skip(0) =~= inputs@);
    }
    while i < inputs.len()
        invariant
            i <= inputs.len(),
            summary.events_processed == count_domain(inputs@.take(i as int)),
            summary.resize_events == count_resize(inputs@.take(i as int)),
            summary.events_processed <= i,
            summary.resize_events <= i,
            !summary.shutdown_received,
            first_shutdown(inputs@) == match first_shutdown(inputs@.skip(i as int)) {
                Some(j) => Some((j + i) as nat),
                None => None::<nat>,
            },
        decreases inputs.len() - i,
    {
        let input = inputs[i];
        proof {
            assert(inputs@.skip(i as int)[0] == input);
            assert(inputs@.skip(i as int).drop_first() =~= inputs@.skip(i as int + 1));
            assert(inputs@.take(i as int + 1).drop_last() =~= inputs@.take(i as int));
            assert(inputs@.take(i as int + 1).last() == input);
        }
        let (next, stop) = ui_step(summary, input);
        if stop {
            return Ok(next);
        }
        summary = next;
        i = i + 1;
    }
    proof {
        assert(inputs@.skip(i as int).len() == 0);
    }
    Err(TuiError::ChannelClosed)
}

} // verus!
