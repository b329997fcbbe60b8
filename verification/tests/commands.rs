use rustcode_tui::commands::{
    clear_context, open_new_chat, plan_command, plan_notice, set_details, show_fork, CommandContext,
    CommandPlan,
};
use rustcode_tui::keys::ChatFocus;
use rustcode_tui::new_draft_session;
use rustcode_tui::keys::{interrupt_notice, InterruptOutcome};
use rustcode_tui::palette::CommandId;
use rustcode_tui::skills::{find_skill, skill_injection, skill_notice, skills_notice, SkillEntry};
use rustcode_tui::slash::{parse_slash_command, slash_refusal, SlashCommand};
use rustcode_tui::toast::ToastVariant;

fn chat() -> CommandContext {
    CommandContext {
        in_chat: true,
        session_selected: false,
        tool_details: false,
        show_reasoning: true,
        running: false,
    }
}

fn list(selected: bool) -> CommandContext {
    CommandContext { in_chat: false, session_selected: selected, ..chat() }
}

#[test]
fn session_commands_need_an_open_session() {
    for id in [CommandId::ForkSession, CommandId::ToggleTools, CommandId::ToggleReasoning, CommandId::Search] {
        assert_eq!(plan_command(id, list(true)), CommandPlan::NeedSession);
    }
    let n = plan_notice(CommandPlan::NeedSession).expect("a notice");
    assert_eq!(n.variant, ToastVariant::Warning);
    assert_eq!(n.message, "open a session first");
    assert_eq!(n.ttl_ms, 3000);
}

#[test]
fn toggles_flip_the_open_session_flags() {
    assert_eq!(plan_command(CommandId::ToggleTools, chat()), CommandPlan::SetDetails(true));
    assert_eq!(plan_command(CommandId::ToggleReasoning, chat()), CommandPlan::SetThinking(false));
    assert_eq!(plan_notice(CommandPlan::SetDetails(true)).unwrap().message, "details: expanded");
    assert_eq!(plan_notice(CommandPlan::SetDetails(false)).unwrap().message, "details: collapsed");
    assert_eq!(plan_notice(CommandPlan::SetThinking(true)).unwrap().message, "thinking: visible");
    assert_eq!(plan_notice(CommandPlan::SetThinking(false)).unwrap().message, "thinking: hidden");
}

#[test]
fn rename_and_delete_need_a_session_to_act_on() {
    assert_eq!(plan_command(CommandId::RenameSession, list(false)), CommandPlan::Nothing);
    assert_eq!(plan_command(CommandId::RenameSession, list(true)), CommandPlan::OpenRename);
    assert_eq!(plan_command(CommandId::DeleteSession, chat()), CommandPlan::OpenDeleteConfirm);
    assert_eq!(plan_command(CommandId::DeleteSession, list(false)), CommandPlan::Nothing);
}

#[test]
fn refresh_cancel_and_quit_depend_on_the_screen() {
    assert_eq!(plan_command(CommandId::Refresh, chat()), CommandPlan::RefreshTranscript);
    assert_eq!(plan_command(CommandId::Refresh, list(false)), CommandPlan::RefreshSessions);
    assert_eq!(plan_command(CommandId::CancelRun, chat()), CommandPlan::Nothing);
    let running = CommandContext { running: true, ..chat() };
    assert_eq!(plan_command(CommandId::CancelRun, running), CommandPlan::CancelRun);
    assert_eq!(plan_notice(CommandPlan::CancelRun).unwrap().message, "force cancelled");
    assert_eq!(plan_command(CommandId::ToggleActivity, list(true)), CommandPlan::Nothing);
    assert_eq!(plan_command(CommandId::Quit, chat()), CommandPlan::QuitHint);
    assert_eq!(plan_notice(CommandPlan::QuitHint).unwrap().message, "press q to quit");
    assert_eq!(plan_command(CommandId::SwitchModel, list(false)), CommandPlan::OpenModelPicker);
    assert!(plan_notice(CommandPlan::OpenHelp).is_none());
    let created = plan_notice(plan_command(CommandId::NewSession, list(false))).unwrap();
    assert_eq!(created.variant, ToastVariant::Success);
    assert_eq!(created.message, "new session (saved on first message)");
    assert_eq!(created.ttl_ms, 2000);
}

fn skill(name: &str, description: &str, content: &str, enabled: bool) -> SkillEntry {
    SkillEntry {
        name: name.to_string(),
        description: description.to_string(),
        content: content.to_string(),
        enabled,
    }
}

#[test]
fn skills_are_listed_found_and_injected() {
    let none: Vec<SkillEntry> = Vec::new();
    let n = skills_notice(&none);
    assert_eq!(n.message, "no skills loaded — add .md files to ~/.config/rustcode/skills/");
    assert_eq!(n.ttl_ms, 5000);
    let skills = vec![
        skill("review", "Review a diff", "  Look closely.\n", true),
        skill("off", "Disabled one", "x", false),
        skill("plan", "Plan first", "Think.", true),
    ];
    let n = skills_notice(&skills);
    assert_eq!(n.variant, ToastVariant::Info);
    assert_eq!(n.message, "skills:\n  review — Review a diff\n  plan — Plan first");
    assert_eq!(n.ttl_ms, 6000);
    assert_eq!(find_skill(&skills, "plan"), Some(2));
    assert_eq!(find_skill(&skills, "off"), None);
    assert_eq!(find_skill(&skills, "nope"), None);
    assert_eq!(skill_injection(&skills[0]), "[skill: review]\nLook closely.\n\n");
    let n = skill_notice(Some(&skills[0]), "review");
    assert_eq!((n.variant, n.message.as_str()), (ToastVariant::Success, "injected skill: review"));
    let n = skill_notice(None, "nope");
    assert_eq!((n.variant, n.message.as_str()), (ToastVariant::Warning, "skill not found: nope"));
}

#[test]
fn slash_commands_refused_with_a_warning() {
    let n = slash_refusal(&SlashCommand::NewSession, true).unwrap();
    assert_eq!(n.message, "cannot create session while running");
    assert!(slash_refusal(&SlashCommand::NewSession, false).is_none());
    let n = slash_refusal(&SlashCommand::ForkSession, true).unwrap();
    assert_eq!(n.message, "cannot fork session while running");
    let n = slash_refusal(&SlashCommand::RenameUsage, false).unwrap();
    assert_eq!(n.message, "usage: /rename <title>");
    let n = slash_refusal(&parse_slash_command("/frobnicate now"), false).unwrap();
    assert_eq!((n.variant, n.message.as_str(), n.ttl_ms), (ToastVariant::Warning, "unknown command: /frobnicate now", 3000));
    assert!(slash_refusal(&SlashCommand::Help, true).is_none());
}

#[test]
fn interrupt_presses_explain_the_next_one() {
    let n = interrupt_notice(InterruptOutcome::ArmExit, "Ctrl+C").unwrap();
    assert_eq!((n.variant, n.message.as_str(), n.ttl_ms), (ToastVariant::Info, "press Ctrl+C again to exit", 3000));
    let n = interrupt_notice(InterruptOutcome::ArmCancel, "Esc").unwrap();
    assert_eq!(n.message, "press Esc again to force cancel");
    let n = interrupt_notice(InterruptOutcome::ForceCancel, "Esc").unwrap();
    assert_eq!((n.variant, n.message.as_str(), n.ttl_ms), (ToastVariant::Warning, "force cancelled", 2000));
    assert!(interrupt_notice(InterruptOutcome::Exit, "Esc").is_none());
}

#[test]
fn command_plans_applied_to_the_chat_screen() {
    let d = new_draft_session(None, "/w".to_string(), "/w".to_string(), "m".to_string(), 7);
    let mut c = open_new_chat(d);
    assert_eq!(c.session.id, "draft-7");
    assert!(c.messages.is_empty() && c.composer.text.is_empty() && !c.running);
    assert_eq!(c.focus, ChatFocus::Composer);
    assert!(c.activity_hidden && !c.tool_details);
    set_details(&mut c, true);
    assert!(c.tool_details && c.output_details && c.show_reasoning);
    c.composer.text = "draft".to_string();
    c.composer.cursor = 5;
    c.scroll = 9;
    c.total_input_tokens = 100;
    c.focus = ChatFocus::Activity;
    let fork = new_draft_session(Some("f".to_string()), "/w".to_string(), "/w".to_string(), "m".to_string(), 8);
    show_fork(&mut c, fork, Vec::new());
    assert_eq!(c.session.id, "draft-8");
    assert_eq!((c.composer.text.as_str(), c.composer.cursor, c.scroll), ("", 0, 0));
    assert_eq!(c.focus, ChatFocus::Composer);
    assert!(!c.tool_details && !c.output_details);
    assert_eq!(c.total_input_tokens, 100);
    c.live_assistant = "partial".to_string();
    clear_context(&mut c);
    assert_eq!((c.total_input_tokens, c.live_assistant.as_str()), (0, ""));
}
