//! Tool approval: which requests are let through without asking, what the
//! user's answer does to that policy, and the options the approval prompt
//! offers.
use vstd::prelude::*;
use crate::ApprovalResponse;
use crate::toast::{Notice, ToastVariant};
use crate::json::{json_str_field, json_string_field};
use crate::text::{
    chars_of, concat2, concat3, eq_str, has_prefix, has_prefix_exec, lower_chars, lower_seq, string_of,
    sub_chars,
};

verus! {

broadcast use vstd::seq_lib::group_seq_properties;

/// A request from the engine to run a tool. `arguments` is the JSON text of
/// the tool's arguments.
pub struct ToolApprovalRequest {
    pub tool: String,
    pub permission: String,
    pub pattern: String,
    pub arguments: String,
    pub reason: String,
}

/// The permission (ASCII case-insensitively) is one of `exec`, `bash`,
/// `pty_exec`: a command permission.
pub open spec fn command_permission(p: Seq<char>) -> bool {
    let l = lower_seq(p);
    l == "exec"@ || l == "bash"@ || l == "pty_exec"@
}

/// Whether `permission` asks to run a command.
pub fn is_command_permission(permission: &str) -> (r: bool)
    ensures
        r == command_permission(permission@),
{
    let p = chars_of(permission);
    let l = lower_chars(&p);
    eq_str(&l, "exec") || eq_str(&l, "bash") || eq_str(&l, "pty_exec")
}

/// Whether `permission` asks to run a command (used by the approval prompt).
pub fn approval_is_command_permission(permission: &str) -> (r: bool)
    ensures
        r == command_permission(permission@),
{
    is_command_permission(permission)
}

/// Standing answers that let requests through without asking.
#[derive(Clone, Copy, Debug, Default, PartialEq, Eq, Structural)]
pub struct ApprovalPolicy {
    pub allow_all_commands: bool,
    pub allow_all_tools_autopilot: bool,
}

/// A request with `permission` is let through by `policy`.
pub open spec fn policy_allows(policy: ApprovalPolicy, permission: Seq<char>) -> bool {
    policy.allow_all_tools_autopilot || (command_permission(permission)
        && policy.allow_all_commands)
}

/// The policy after the user answered `response` to a request with
/// `permission`.
pub open spec fn policy_after(
    policy: ApprovalPolicy,
    permission: Seq<char>,
    response: ApprovalResponse,
) -> ApprovalPolicy {
    match response {
        ApprovalResponse::AllowAllCommands => if command_permission(permission) {
            ApprovalPolicy { allow_all_commands: true, ..policy }
        } else {
            policy
        },
        ApprovalResponse::AllowAllToolsAutopilot => ApprovalPolicy {
            allow_all_tools_autopilot: true,
            ..policy
        },
        _ => policy,
    }
}

impl ApprovalPolicy {
    /// A policy that asks about every request.
    pub fn new() -> (p: Self)
        ensures
            !p.allow_all_commands && !p.allow_all_tools_autopilot,
    {
        ApprovalPolicy { allow_all_commands: false, allow_all_tools_autopilot: false }
    }

    /// Whether a request with `permission` goes through without asking.
    pub fn allows(&self, permission: &str) -> (r: bool)
        ensures
            r == policy_allows(*self, permission@),
    {
        self.allow_all_tools_autopilot || (is_command_permission(permission)
            && self.allow_all_commands)
    }

    /// Records the user's answer to a request with `permission`, and returns
    /// whether the request is approved.
    pub fn apply_response(&mut self, permission: &str, response: ApprovalResponse) -> (r: bool)
        ensures
            r == (response != ApprovalResponse::Deny),
            *final(self) == policy_after(*old(self), permission@, response),
    {
        match response {
            ApprovalResponse::AllowOnce => true,
            ApprovalResponse::AllowAllCommands => {
                if is_command_permission(permission) {
                    self.allow_all_commands = true;
                }
                true
            },
            ApprovalResponse::AllowAllToolsAutopilot => {
                self.allow_all_tools_autopilot = true;
                true
            },
            ApprovalResponse::Deny => false,
        }
    }
}

/// An answer never takes back a standing permission: whatever was let
/// through before is let through after.
pub proof fn law_policy_monotone(
    policy: ApprovalPolicy,
    permission: Seq<char>,
    response: ApprovalResponse,
    other: Seq<char>,
)
    ensures
        policy_allows(policy, other) ==> policy_allows(
            policy_after(policy, permission, response),
            other,
        ),
{
}

/// After "approve all tools", every request goes through.
pub proof fn law_autopilot_allows_everything(
    policy: ApprovalPolicy,
    permission: Seq<char>,
    other: Seq<char>,
)
    ensures
        policy_allows(
            policy_after(policy, permission, ApprovalResponse::AllowAllToolsAutopilot),
            other,
        ),
{
}

/// After "allow all" on a command request, every command request goes
/// through; a non-command request is not let through by that answer alone.
pub proof fn law_allow_all_commands(policy: ApprovalPolicy, permission: Seq<char>, other: Seq<char>)
    requires
        command_permission(permission),
    ensures
        command_permission(other) ==> policy_allows(
            policy_after(policy, permission, ApprovalResponse::AllowAllCommands),
            other,
        ),
        !command_permission(other) ==> (policy_allows(
            policy_after(policy, permission, ApprovalResponse::AllowAllCommands),
            other,
        ) == policy_allows(policy, other)),
{
}

/// A new policy lets nothing through; "approve once" and "deny" leave the
/// policy as it was.
pub proof fn law_fresh_and_one_off_answers(policy: ApprovalPolicy, permission: Seq<char>)
    ensures
        !policy_allows(ApprovalPolicy { allow_all_commands: false, allow_all_tools_autopilot: false }, permission),
        policy_after(policy, permission, ApprovalResponse::AllowOnce) == policy,
        policy_after(policy, permission, ApprovalResponse::Deny) == policy,
{
}

// ── The approval prompt ─────────────────────────────────────────────────────

/// Label of the prompt option that gives `response` for `tool`.
pub open spec fn option_label(response: ApprovalResponse, tool: Seq<char>) -> Seq<char> {
    match response {
        ApprovalResponse::AllowOnce => "Approve once ["@ + tool + "]"@,
        ApprovalResponse::AllowAllCommands => "Allow all edits"@,
        ApprovalResponse::AllowAllToolsAutopilot => "Approve all tools (auto-pilot mode)"@,
        ApprovalResponse::Deny => "Deny"@,
    }
}

/// The options, in order: approve once, "allow all" for command requests,
/// approve all tools, deny.
pub open spec fn option_responses(command: bool) -> Seq<ApprovalResponse> {
    if command {
        seq![
            ApprovalResponse::AllowOnce,
            ApprovalResponse::AllowAllCommands,
            ApprovalResponse::AllowAllToolsAutopilot,
            ApprovalResponse::Deny,
        ]
    } else {
        seq![
            ApprovalResponse::AllowOnce,
            ApprovalResponse::AllowAllToolsAutopilot,
            ApprovalResponse::Deny,
        ]
    }
}

/// The labels of the approval prompt for `req`.
pub fn approval_option_labels(req: &ToolApprovalRequest) -> (r: Vec<String>)
    ensures
        r@.len() == option_responses(command_permission(req.permission@)).len(),
        forall|i: int|
            0 <= i < r@.len() ==> #[trigger] r@[i]@ == option_label(
                option_responses(command_permission(req.permission@))[i],
                req.tool@,
            ),
{
    let mut options: Vec<String> = Vec::new();
    options.push(concat3("Approve once [", req.tool.as_str(), "]"));
    let cmd = approval_is_command_permission(req.permission.as_str());
    if cmd {
        options.push(string_of(chars_of("Allow all edits").as_slice()));
    }
    options.push(string_of(chars_of("Approve all tools (auto-pilot mode)").as_slice()));
    options.push(string_of(chars_of("Deny").as_slice()));
    proof {
        let rs = option_responses(cmd);
        if cmd {
            assert(options@[1]@ == option_label(rs[1], req.tool@));
            assert(options@[2]@ == option_label(rs[2], req.tool@));
            assert(options@[3]@ == option_label(rs[3], req.tool@));
        } else {
            assert(options@[1]@ == option_label(rs[1], req.tool@));
            assert(options@[2]@ == option_label(rs[2], req.tool@));
        }
        assert(options@[0]@ == option_label(rs[0], req.tool@));
    }
    options
}

/// Number of options of the approval prompt for `req`.
pub fn approval_options_count(req: &ToolApprovalRequest) -> (n: usize)
    ensures
        n == option_responses(command_permission(req.permission@)).len(),
        n == (if command_permission(req.permission@) {
            4usize
        } else {
            3usize
        }),
{
    approval_option_labels(req).len()
}

/// The answer that confirming option `selection` gives.
pub open spec fn selection_response(selection: nat, command: bool) -> ApprovalResponse {
    if selection == 0 {
        ApprovalResponse::AllowOnce
    } else if selection == 1 && command {
        ApprovalResponse::AllowAllCommands
    } else if selection == 1 {
        ApprovalResponse::AllowAllToolsAutopilot
    } else if selection == 2 && command {
        ApprovalResponse::AllowAllToolsAutopilot
    } else {
        ApprovalResponse::Deny
    }
}

/// The answer that Enter on option `selection` of the prompt gives.
pub fn response_for_selection(selection: usize, is_command: bool) -> (r: ApprovalResponse)
    ensures
        r == selection_response(selection as nat, is_command),
{
    if selection == 0 {
        ApprovalResponse::AllowOnce
    } else if selection == 1 && is_command {
        ApprovalResponse::AllowAllCommands
    } else if selection == 1 {
        ApprovalResponse::AllowAllToolsAutopilot
    } else if selection == 2 && is_command {
        ApprovalResponse::AllowAllToolsAutopilot
    } else {
        ApprovalResponse::Deny
    }
}

/// Confirming an option gives the answer that the option's label names; a
/// selection past the last option denies.
pub proof fn law_selection_matches_labels(selection: nat, command: bool)
    ensures
        selection < option_responses(command).len() ==> selection_response(selection, command)
            == option_responses(command)[selection as int],
        selection >= option_responses(command).len() ==> selection_response(selection, command)
            == ApprovalResponse::Deny,
{
}

/// The selection after an arrow key: left/up moves back, right/down moves
/// forward, neither leaves the options.
pub fn move_selection(selection: usize, forward: bool, options_count: usize) -> (r: usize)
    ensures
        forward ==> r == (if selection + 1 < options_count {
            selection + 1
        } else {
            selection as int
        }),
        !forward ==> r == (if selection > 0 {
            selection - 1
        } else {
            0
        }),
{
    if forward {
        if selection < usize::MAX && selection + 1 < options_count {
            selection + 1
        } else {
            selection
        }
    } else if selection > 0 {
        selection - 1
    } else {
        0
    }
}

/// The notice shown after the user answers a request for `tool`.
pub open spec fn response_notice(response: ApprovalResponse, tool: Seq<char>) -> Seq<char> {
    match response {
        ApprovalResponse::AllowOnce => "approved once ["@ + tool + "]"@,
        ApprovalResponse::AllowAllCommands => "allowed all edits"@,
        ApprovalResponse::AllowAllToolsAutopilot => "approved all tools (auto-pilot mode)"@,
        ApprovalResponse::Deny => "denied ["@ + tool + "]"@,
    }
}

pub fn approval_response_notice(response: ApprovalResponse, tool: &str) -> (r: String)
    ensures
        r@ == response_notice(response, tool@),
{
    match response {
        ApprovalResponse::AllowOnce => concat3("approved once [", tool, "]"),
        ApprovalResponse::AllowAllCommands => string_of(chars_of("allowed all edits").as_slice()),
        ApprovalResponse::AllowAllToolsAutopilot => string_of(
            chars_of("approved all tools (auto-pilot mode)").as_slice(),
        ),
        ApprovalResponse::Deny => concat3("denied [", tool, "]"),
    }
}

// ── Approval modes ──────────────────────────────────────────────────────────

/// How the session answers tool requests.
#[derive(Clone, Copy, Debug, PartialEq, Eq, Structural)]
pub enum ApprovalMode {
    Normal,
    AcceptEdits,
    Plan,
    Yolo,
}

/// What becomes of a pending request when the mode changes.
#[derive(Clone, Copy, Debug, PartialEq, Eq, Structural)]
pub enum PendingResolution {
    /// Approved once and recorded in the transcript.
    Approve,
    /// Denied.
    Deny,
    /// Left for the user to answer.
    Keep,
}

/// Switching to `mode` resolves a pending request: "yolo" approves any,
/// "accept edits" approves all but commands, "plan" denies, "normal" leaves
/// it pending.
pub fn pending_resolution(mode: ApprovalMode, is_command: bool) -> (r: PendingResolution)
    ensures
        r == match mode {
            ApprovalMode::Yolo => PendingResolution::Approve,
            ApprovalMode::AcceptEdits => if is_command {
                PendingResolution::Keep
            } else {
                PendingResolution::Approve
            },
            ApprovalMode::Plan => PendingResolution::Deny,
            ApprovalMode::Normal => PendingResolution::Keep,
        },
{
    match mode {
        ApprovalMode::Yolo => PendingResolution::Approve,
        ApprovalMode::AcceptEdits => if is_command {
            PendingResolution::Keep
        } else {
            PendingResolution::Approve
        },
        ApprovalMode::Plan => PendingResolution::Deny,
        ApprovalMode::Normal => PendingResolution::Keep,
    }
}

/// How the notice of a mode change is coloured: a warning for the modes
/// that approve on their own, information otherwise.
pub fn mode_notice_variant(mode: ApprovalMode) -> (r: ToastVariant)
    ensures
        r == (if mode == ApprovalMode::Yolo || mode == ApprovalMode::AcceptEdits {
            ToastVariant::Warning
        } else {
            ToastVariant::Info
        }),
{
    match mode {
        ApprovalMode::Yolo => ToastVariant::Warning,
        ApprovalMode::AcceptEdits => ToastVariant::Warning,
        ApprovalMode::Plan => ToastVariant::Info,
        ApprovalMode::Normal => ToastVariant::Info,
    }
}

/// The notice when switching to plan mode denies the pending request.
pub fn plan_denied_notice() -> (r: Notice)
    ensures
        r.variant == ToastVariant::Info,
        r.message@ == "Plan mode — tool denied"@,
        r.ttl_ms == 2000,
{
    Notice { variant: ToastVariant::Info, message: "Plan mode — tool denied".to_owned(), ttl_ms: 2000 }
}

/// Switching the mode to match an answer: "approve all tools" turns on yolo
/// mode, "allow all" accept-edits mode; other answers keep the mode.
pub fn mode_for_response(response: ApprovalResponse) -> (r: Option<ApprovalMode>)
    ensures
        r == match response {
            ApprovalResponse::AllowAllToolsAutopilot => Some(ApprovalMode::Yolo),
            ApprovalResponse::AllowAllCommands => Some(ApprovalMode::AcceptEdits),
            _ => None::<ApprovalMode>,
        },
{
    match response {
        ApprovalResponse::AllowAllToolsAutopilot => Some(ApprovalMode::Yolo),
        ApprovalResponse::AllowAllCommands => Some(ApprovalMode::AcceptEdits),
        _ => None,
    }
}

// ── Titles ──────────────────────────────────────────────────────────────────

/// `path` with a leading home directory written `~`.
pub open spec fn tilde(path: Seq<char>, home: Option<Seq<char>>) -> Seq<char> {
    match home {
        Some(h) => if has_prefix(path, h) {
            "~"@ + path.skip(h.len() as int)
        } else {
            path
        },
        None => path,
    }
}

/// Replaces a leading `home` (the `HOME` directory, when known) by `~`.
pub fn tilde_path(path: &str, home: Option<&str>) -> (r: String)
    ensures
        r@ == tilde(path@, match home {
            Some(h) => Some(h@),
            None => None,
        }),
{
    let p = chars_of(path);
    match home {
        Some(h) => {
            let hv = chars_of(h);
            if has_prefix_exec(&p, &hv) {
                let rest = sub_chars(&p, hv.len(), p.len());
                let rest_s = string_of(rest.as_slice());
                concat2("~", rest_s.as_str())
            } else {
                string_of(p.as_slice())
            }
        },
        None => string_of(p.as_slice()),
    }
}

/// Title of the approval prompt: the path for writes and edits, "Run
/// command" for exec, else the tool's name. The path is the `path` argument,
/// or the request's pattern.
pub open spec fn action_title(req: ToolApprovalRequest, home: Option<Seq<char>>) -> Seq<char> {
    let perm = lower_seq(req.permission@);
    let raw = match json_string_field(req.arguments@, "path"@) {
        Some(p) => p,
        None => req.pattern@,
    };
    if perm == "write"@ || perm == "edit"@ {
        "Write / edit:  "@ + tilde(raw, home)
    } else if perm == "exec"@ {
        "Run command"@
    } else {
        req.tool@
    }
}

/// The title of the approval prompt for `req`.
///
/// The permission is compared after ASCII lower-casing: the only characters
/// whose Unicode lower case is an ASCII letter of "write", "edit" or "exec"
/// are the ASCII upper-case letters, so this agrees with full lower-casing.
pub fn approval_action_title(req: &ToolApprovalRequest, home: Option<&str>) -> (r: String)
    ensures
        r@ == action_title(*req, match home {
            Some(h) => Some(h@),
            None => None,
        }),
{
    let pv = chars_of(req.permission.as_str());
    let perm = lower_chars(&pv);
    let raw = match json_str_field(req.arguments.as_str(), "path") {
        Some(p) => p,
        None => string_of(chars_of(req.pattern.as_str()).as_slice()),
    };
    if eq_str(&perm, "write") || eq_str(&perm, "edit") {
        let t = tilde_path(raw.as_str(), home);
        concat2("Write / edit:  ", t.as_str())
    } else if eq_str(&perm, "exec") {
        string_of(chars_of("Run command").as_slice())
    } else {
        string_of(chars_of(req.tool.as_str()).as_slice())
    }
}

} // verus!
