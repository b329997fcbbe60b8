use rustcode_tui::approval::{
    approval_action_title, approval_option_labels, approval_options_count,
    approval_response_notice, is_command_permission, move_selection, pending_resolution,
    response_for_selection, tilde_path, ApprovalMode, ApprovalPolicy, PendingResolution,
    ToolApprovalRequest,
};
use rustcode_tui::ApprovalResponse;

#[test]
fn approval_policy_classifies_command_permissions() {
    assert!(is_command_permission("exec"));
    assert!(is_command_permission("bash"));
    assert!(is_command_permission("pty_exec"));
    assert!(!is_command_permission("write"));
}

#[test]
fn command_permission_ignores_ascii_case() {
    assert!(is_command_permission("BASH"));
    assert!(is_command_permission("Pty_Exec"));
    assert!(!is_command_permission("bash "));
}

fn req(tool: &str, permission: &str, pattern: &str, arguments: &str) -> ToolApprovalRequest {
    ToolApprovalRequest {
        tool: tool.to_string(),
        permission: permission.to_string(),
        pattern: pattern.to_string(),
        arguments: arguments.to_string(),
        reason: String::new(),
    }
}

#[test]
fn policy_learns_from_answers() {
    let mut p = ApprovalPolicy::new();
    assert!(!p.allows("bash"));
    assert!(p.apply_response("write", ApprovalResponse::AllowAllCommands));
    assert!(!p.allows("bash"));
    assert!(p.apply_response("bash", ApprovalResponse::AllowAllCommands));
    assert!(p.allows("exec"));
    assert!(!p.allows("write"));
    assert!(!p.apply_response("write", ApprovalResponse::Deny));
    assert!(p.apply_response("write", ApprovalResponse::AllowAllToolsAutopilot));
    assert!(p.allows("write"));
}

#[test]
fn labels_for_command_and_other_requests() {
    let bash = req("bash", "bash", "echo hi", "{\"command\":\"echo hi\"}");
    let labels = approval_option_labels(&bash);
    assert_eq!(
        labels,
        vec![
            "Approve once [bash]".to_string(),
            "Allow all edits".to_string(),
            "Approve all tools (auto-pilot mode)".to_string(),
            "Deny".to_string()
        ]
    );
    assert_eq!(approval_options_count(&bash), 4);
    let write = req("write", "write", "README.md", "{\"path\":\"README.md\"}");
    assert_eq!(approval_options_count(&write), 3);
    assert_eq!(approval_option_labels(&write)[1], "Approve all tools (auto-pilot mode)");
}

#[test]
fn selection_maps_to_responses() {
    assert_eq!(response_for_selection(0, true), ApprovalResponse::AllowOnce);
    assert_eq!(response_for_selection(1, true), ApprovalResponse::AllowAllCommands);
    assert_eq!(response_for_selection(2, true), ApprovalResponse::AllowAllToolsAutopilot);
    assert_eq!(response_for_selection(3, true), ApprovalResponse::Deny);
    assert_eq!(response_for_selection(1, false), ApprovalResponse::AllowAllToolsAutopilot);
    assert_eq!(response_for_selection(2, false), ApprovalResponse::Deny);
    assert_eq!(move_selection(0, false, 3), 0);
    assert_eq!(move_selection(2, true, 3), 2);
    assert_eq!(move_selection(1, true, 3), 2);
}

#[test]
fn notices_and_mode_resolution() {
    assert_eq!(approval_response_notice(ApprovalResponse::AllowOnce, "read"), "approved once [read]");
    assert_eq!(approval_response_notice(ApprovalResponse::Deny, "read"), "denied [read]");
    assert_eq!(pending_resolution(ApprovalMode::AcceptEdits, true), PendingResolution::Keep);
    assert_eq!(pending_resolution(ApprovalMode::AcceptEdits, false), PendingResolution::Approve);
    assert_eq!(pending_resolution(ApprovalMode::Plan, false), PendingResolution::Deny);
    assert_eq!(pending_resolution(ApprovalMode::Yolo, true), PendingResolution::Approve);
}

#[test]
fn action_titles() {
    let write = req("write", "WRITE", "fallback.rs", "{\"path\":\"/home/u/src/main.rs\"}");
    assert_eq!(approval_action_title(&write, Some("/home/u")), "Write / edit:  ~/src/main.rs");
    let edit = req("edit", "edit", "fallback.rs", "{}");
    assert_eq!(approval_action_title(&edit, None), "Write / edit:  fallback.rs");
    let exec = req("bash", "exec", "ls", "{}");
    assert_eq!(approval_action_title(&exec, None), "Run command");
    let read = req("read", "read", "x", "{}");
    assert_eq!(approval_action_title(&read, None), "read");
    assert_eq!(tilde_path("/etc/hosts", Some("/home/u")), "/etc/hosts");
}
