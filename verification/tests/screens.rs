use rustcode_tui::keys::{Key, KeyPress};
use rustcode_tui::modals::{rename_input_key, RenameStep};
use rustcode_tui::palette::{
    build_command_items, compute_palette_view, parse_palette_query, CommandId, PaletteQuery,
};
use rustcode_tui::providers::{
    api_key_saved_notice, back_to_methods,
    api_key_hint, api_key_title, connect_title, masked_key, provider_list_view, provider_row_text,
    ProviderEntry,
    api_key_input_key, build_provider_entries, filter_provider_entries, method_label_detail,
    method_select_key, provider_catalog, provider_connect_methods, provider_display_name,
    provider_env_hint, ApiKeyStep, AuthMethod, ConnectMethod, MethodStep,
};
use rustcode_tui::sessions::{
    chat_layout, transcript_scroll_top, ChatLayout,
    compute_sessions_view, lookup_notice, session_row_text, sessions_placeholder, sessions_status_text, lookup_outcome, lookup_query, sessions_desired_height,
    sort_sessions, transcript_area_height, SessionInfo, SessionLookup,
};
use rustcode_tui::models::provider_label;
use rustcode_tui::slash::{
    filter_slash_commands, parse_slash_command, slash_commands, slash_completion,
    slash_popup_query, slash_selected_has_args, SlashCommand,
};
use rustcode_tui::toast::{drain_toasts, push_toast, Toast, ToastVariant, MAX_TOASTS};

fn kp(key: Key) -> KeyPress {
    KeyPress { key, ctrl: false, alt: false, shift: false }
}

#[test]
fn slash_commands_parse() {
    assert_eq!(parse_slash_command("/"), SlashCommand::OpenPalette);
    assert_eq!(parse_slash_command(" /help "), SlashCommand::Help);
    assert_eq!(parse_slash_command("/?"), SlashCommand::Help);
    assert_eq!(parse_slash_command("/home"), SlashCommand::ToSessions);
    assert_eq!(parse_slash_command("/resume"), SlashCommand::ToSessions);
    assert_eq!(parse_slash_command("/rename  New title "), SlashCommand::Rename { title: "New title".to_string() });
    assert_eq!(parse_slash_command("/rename"), SlashCommand::RenameDialog);
    assert_eq!(parse_slash_command("/resume s-42"), SlashCommand::OpenSession { id: "s-42".to_string() });
    assert_eq!(parse_slash_command("/skill review"), SlashCommand::InjectSkill { name: "review".to_string() });
    assert_eq!(parse_slash_command("/skill list"), SlashCommand::ListSkills);
    assert_eq!(parse_slash_command("/memory off"), SlashCommand::MemoryOff);
    assert_eq!(parse_slash_command("/tools"), SlashCommand::ToggleToolDetails);
    assert_eq!(parse_slash_command("/reasoning"), SlashCommand::ToggleThinking);
    assert_eq!(parse_slash_command("/auth"), SlashCommand::ManageProviders);
    assert_eq!(parse_slash_command("/bogus x"), SlashCommand::Unknown { raw: "/bogus x".to_string() });
}

#[test]
fn slash_popup_filters_and_completes() {
    assert_eq!(slash_commands().len(), 17);
    assert_eq!(filter_slash_commands("").len(), 17);
    let mem = filter_slash_commands("MEM");
    assert_eq!(mem.len(), 4);
    assert!(mem.iter().all(|(c, _)| c.starts_with("/memory")));
    let ren = filter_slash_commands("ren");
    assert_eq!(ren[0].0, "/rename <title>");
    assert_eq!(slash_completion("ren", 0), Some("/rename ".to_string()));
    assert_eq!(slash_completion("hel", 0), Some("/help".to_string()));
    assert_eq!(slash_completion("zzz", 0), None);
    assert_eq!(slash_selected_has_args("find", 0), Some(true));
    assert_eq!(slash_selected_has_args("help", 0), Some(false));
    assert_eq!(slash_selected_has_args("help", 3), None);
    assert_eq!(slash_popup_query("/mo"), Some("mo".to_string()));
    assert_eq!(slash_popup_query("/a\nb"), None);
    assert_eq!(slash_popup_query("hi"), None);
}

#[test]
fn palette_items_depend_on_context() {
    let items = build_command_items(true, false, false);
    assert_eq!(items.len(), 17);
    let cancel = items.iter().find(|i| i.id == CommandId::CancelRun).unwrap();
    assert!(!cancel.enabled);
    assert_eq!(cancel.disabled_reason.as_deref(), Some("Nothing is running"));
    let running = build_command_items(true, true, false);
    let new = running.iter().find(|i| i.id == CommandId::NewSession).unwrap();
    assert!(!new.enabled);
    let titles: Vec<&str> = items.iter().map(|i| i.title.as_str()).collect();
    let mut sorted = titles.clone();
    sorted.sort();
    assert_eq!(titles, sorted);
}

#[test]
fn palette_search_and_typed_commands() {
    let items = build_command_items(false, false, false);
    let view = compute_palette_view(&items, "session");
    assert!(!view.is_empty());
    assert!(view.iter().all(|&i| {
        let t = format!("{} {}", items[i].title, items[i].detail).to_lowercase();
        t.contains("session")
    }));
    assert_eq!(compute_palette_view(&items, "").len(), items.len());
    assert_eq!(parse_palette_query(""), PaletteQuery::NotACommand);
    assert_eq!(parse_palette_query("HELP"), PaletteQuery::Help);
    assert_eq!(parse_palette_query("new"), PaletteQuery::Run(CommandId::NewSession));
    assert_eq!(parse_palette_query("find foo bar"), PaletteQuery::Search { query: "foo bar".to_string() });
    assert_eq!(parse_palette_query("open"), PaletteQuery::SessionUsage);
    assert_eq!(parse_palette_query("rename"), PaletteQuery::RenameUsage);
    assert_eq!(
        parse_palette_query("rename s-1 Better name"),
        PaletteQuery::Rename { target: Some("s-1".to_string()), title: "Better name".to_string() }
    );
    assert_eq!(
        parse_palette_query("rename Better name"),
        PaletteQuery::Rename { target: None, title: "Better name".to_string() }
    );
    assert_eq!(parse_palette_query("delete"), PaletteQuery::Delete { target: None });
    assert_eq!(parse_palette_query("whatever"), PaletteQuery::NotACommand);
}

fn session(id: &str, title: Option<&str>, branch: &str, at: i64) -> SessionInfo {
    SessionInfo {
        id: id.to_string(),
        title: title.map(|t| t.to_string()),
        branch: branch.to_string(),
        updated_at_unix_ms: at,
    }
}

#[test]
fn sessions_sort_newest_first_and_stably() {
    let mut s = vec![
        session("a", None, "", 1),
        session("b", None, "", 3),
        session("c", None, "", 1),
        session("d", None, "", 2),
    ];
    sort_sessions(&mut s);
    let ids: Vec<&str> = s.iter().map(|x| x.id.as_str()).collect();
    assert_eq!(ids, vec!["b", "d", "a", "c"]);
}

#[test]
fn sessions_filter_on_id_title_and_branch() {
    let s = vec![
        session("s-1", Some("Fix Parser"), "main", 1),
        session("s-2", None, " feature/x ", 1),
        session("s-3", Some("Other"), "dev", 1),
    ];
    assert_eq!(compute_sessions_view(&s, "  "), vec![0, 1, 2]);
    assert_eq!(compute_sessions_view(&s, "parser"), vec![0]);
    assert_eq!(compute_sessions_view(&s, "FEATURE"), vec![1]);
    assert_eq!(compute_sessions_view(&s, "s-"), vec![0, 1, 2]);
    assert_eq!(compute_sessions_view(&s, "nothing"), Vec::<usize>::new());
}

#[test]
fn screen_heights() {
    assert_eq!(sessions_desired_height(0, false, 0), 8);
    assert_eq!(sessions_desired_height(1, false, 40), 8);
    assert_eq!(sessions_desired_height(10, true, 40), 18);
    assert_eq!(sessions_desired_height(100, false, 40), 40);
    assert_eq!(transcript_area_height(0), 1);
    assert_eq!(transcript_area_height(30), 23);
}

#[test]
fn toasts_keep_six_newest_and_expire() {
    let mut t: Vec<Toast> = Vec::new();
    push_toast(&mut t, ToastVariant::Info, "   ", 1000, 0);
    assert!(t.is_empty());
    for i in 0..8u64 {
        push_toast(&mut t, ToastVariant::Info, &format!("m{i}"), 1000 + i, 0);
    }
    assert_eq!(t.len(), MAX_TOASTS);
    assert_eq!(t[0].message, "m2");
    assert_eq!(t[5].message, "m7");
    assert_eq!(t[5].expires_at_ms, 1007);
    drain_toasts(&mut t, 1004);
    let left: Vec<&str> = t.iter().map(|x| x.message.as_str()).collect();
    assert_eq!(left, vec!["m5", "m6", "m7"]);
}

#[test]
fn rename_field_edits_by_character() {
    assert_eq!(rename_input_key("ab", 1, kp(Key::Char('x'))), RenameStep::Edit { input: "axb".to_string(), cursor: 2 });
    assert_eq!(rename_input_key("ab", 2, kp(Key::Backspace)), RenameStep::Edit { input: "a".to_string(), cursor: 1 });
    assert_eq!(rename_input_key("ab", 0, kp(Key::Backspace)), RenameStep::Edit { input: "ab".to_string(), cursor: 0 });
    assert_eq!(rename_input_key("ab", 2, kp(Key::Right)), RenameStep::Edit { input: "ab".to_string(), cursor: 2 });
    assert_eq!(rename_input_key("ab", 0, kp(Key::Left)), RenameStep::Edit { input: "ab".to_string(), cursor: 0 });
    assert_eq!(rename_input_key("  ", 0, kp(Key::Enter)), RenameStep::Submit { title: None });
    assert_eq!(rename_input_key(" t ", 0, kp(Key::Enter)), RenameStep::Submit { title: Some(" t ".to_string()) });
    assert_eq!(rename_input_key("t", 0, kp(Key::Esc)), RenameStep::Cancel);
}

#[test]
fn provider_catalog_and_lookup() {
    let cat = provider_catalog();
    assert_eq!(cat.len(), 16);
    assert_eq!(provider_display_name("groq"), "Groq");
    assert_eq!(provider_display_name("mystery"), "mystery");
    assert_eq!(provider_env_hint("xai"), Some("XAI_API_KEY".to_string()));
    assert_eq!(provider_env_hint("ollama"), None);
}

#[test]
fn provider_list_puts_connected_first() {
    let entries = build_provider_entries(&vec!["xai".to_string(), "groq".to_string()]);
    assert_eq!(entries.len(), 16);
    assert_eq!(entries[0].provider_id, "groq");
    assert_eq!(entries[1].provider_id, "xai");
    assert!(entries[0].connected && entries[1].connected);
    assert!(!entries[2].connected);
    assert_eq!(entries[2].provider_id, "azure");
    let view = filter_provider_entries(&entries, "GIT");
    let ids: Vec<&str> = view.iter().map(|&i| entries[i].provider_id.as_str()).collect();
    assert_eq!(ids, vec!["github-copilot", "github-copilot-enterprise", "gitlab"]);
}

#[test]
fn provider_connect_choices() {
    let m = provider_connect_methods(&vec![AuthMethod::OAuthBrowser, AuthMethod::ApiKey, AuthMethod::OAuthDeviceCode], true);
    assert_eq!(m, vec![ConnectMethod::ApiKey, ConnectMethod::OAuthDeviceCode, ConnectMethod::Disconnect]);
    assert_eq!(provider_connect_methods(&vec![], false), vec![ConnectMethod::ApiKey]);
    assert_eq!(
        provider_connect_methods(&vec![AuthMethod::OAuthDeviceCode], true),
        vec![ConnectMethod::OAuthDeviceCode, ConnectMethod::ApiKey, ConnectMethod::Disconnect]
    );
    assert_eq!(method_label_detail(ConnectMethod::ApiKey), ("API Key", "paste a key directly"));
    assert_eq!(method_select_key(Key::Enter, 1, &m), MethodStep::Choose(ConnectMethod::OAuthDeviceCode));
    assert_eq!(method_select_key(Key::Down, 2, &m), MethodStep::Select(2));
    assert_eq!(method_select_key(Key::Up, 0, &m), MethodStep::Select(0));
    assert_eq!(method_select_key(Key::Esc, 0, &m), MethodStep::BackToList);
    assert_eq!(method_select_key(Key::Enter, 5, &m), MethodStep::Keep);
    assert_eq!(api_key_input_key(" sk-1 ", 0, kp(Key::Enter)), ApiKeyStep::Save("sk-1".to_string()));
    assert_eq!(api_key_input_key("", 0, kp(Key::Enter)), ApiKeyStep::Empty);
    assert_eq!(api_key_input_key("", 0, kp(Key::Esc)), ApiKeyStep::Back);
}

#[test]
fn session_lookup_by_query() {
    assert_eq!(lookup_query("   "), None);
    assert_eq!(lookup_query("  abc "), Some("abc".to_string()));
    assert_eq!(lookup_outcome(&vec![]), SessionLookup::NotFound);
    assert_eq!(lookup_outcome(&vec![4]), SessionLookup::Open(4));
    assert_eq!(lookup_outcome(&vec![1, 2, 3]), SessionLookup::ShowMatches(3));
    let n = lookup_notice(SessionLookup::ShowMatches(3), "fix").unwrap();
    assert_eq!((n.variant, n.message.as_str(), n.ttl_ms), (ToastVariant::Info, "3 sessions matched \"fix\"", 3000));
    let n = lookup_notice(SessionLookup::NotFound, "zzz").unwrap();
    assert_eq!((n.variant, n.message.as_str(), n.ttl_ms), (ToastVariant::Error, "session not found: zzz", 4000));
    let n = lookup_notice(SessionLookup::Usage, "").unwrap();
    assert_eq!((n.variant, n.message.as_str()), (ToastVariant::Warning, "usage: /sessions <id|query>"));
    assert!(lookup_notice(SessionLookup::Open(0), "x").is_none());
}

#[test]
fn session_list_rows_and_status() {
    assert_eq!(session_row_text(false, Some("  Fix bug "), "s-1", "2m ago"), "  Fix bug  s-1  2m ago");
    assert_eq!(session_row_text(true, Some("   "), "s-2", "1h ago"), "⑂ s-2  1h ago");
    assert_eq!(session_row_text(false, None, "s-3", "now"), "  s-3  now");
    assert_eq!(sessions_placeholder("  "), "(no sessions yet - press n to create one)");
    assert_eq!(sessions_placeholder("zz"), "(no matches)");
    assert_eq!(sessions_status_text(true, "", Some("hi")), " filter: ");
    assert_eq!(sessions_status_text(true, "ab", None), " filter: ab");
    assert_eq!(sessions_status_text(false, "ab", Some("hi")), " filter:ab");
    assert_eq!(sessions_status_text(false, "", Some("saved")), " saved");
    assert_eq!(sessions_status_text(false, "", None), "");
}

#[test]
fn provider_manager_text() {
    let entries = vec![
        ProviderEntry { provider_id: "openai".to_string(), display_name: "OpenAI".to_string(), connected: true },
        ProviderEntry { provider_id: "groq".to_string(), display_name: "Groq".to_string(), connected: false },
    ];
    assert_eq!(provider_row_text(&entries[0]), "[+] OpenAI  (openai)");
    let v = provider_list_view(&entries, &vec![1, 0, 7], 9);
    assert_eq!(v.title, "Providers (3/2)");
    assert_eq!(v.rows, vec!["[ ] Groq  (groq)", "[+] OpenAI  (openai)"]);
    assert_eq!(v.highlighted, Some(2));
    let v = provider_list_view(&entries, &vec![], 0);
    assert_eq!(v.title, "Providers (0/2)");
    assert_eq!(v.rows, vec!["(no matches)"]);
    assert_eq!(v.highlighted, None);
    assert_eq!(api_key_hint(Some("GROQ_API_KEY")), "Paste your API key below, or export GROQ_API_KEY in your shell.");
    assert_eq!(api_key_hint(None), "Paste your API key below.");
    assert_eq!(masked_key("sk-é1"), "*****");
    assert_eq!(connect_title("Groq"), "Connect: Groq");
    assert_eq!(api_key_title("Groq"), "API key — Groq");
}

#[test]
fn chat_screen_layout_and_labels() {
    assert_eq!(
        chat_layout(100, 40, false, 1, None),
        ChatLayout { activity_shown: true, composer_inner_width: 70, transcript_height: 31, bottom_height: 5 }
    );
    assert_eq!(
        chat_layout(50, 40, false, 1, None),
        ChatLayout { activity_shown: false, composer_inner_width: 48, transcript_height: 31, bottom_height: 5 }
    );
    assert_eq!(chat_layout(100, 40, true, 1, Some(4)).bottom_height, 7);
    let small = chat_layout(100, 10, true, 8, None);
    assert_eq!((small.transcript_height, small.bottom_height), (3, 3));
    assert_eq!(chat_layout(100, 3, true, 1, None).transcript_height, 1);
    assert_eq!(transcript_scroll_top(100, 30, 0), (70, 70));
    assert_eq!(transcript_scroll_top(100, 30, 500), (70, 0));
    assert_eq!(transcript_scroll_top(10, 30, 4), (0, 0));
    assert_eq!(provider_label("  groq ", "openai/gpt"), Some("Groq".to_string()));
    assert_eq!(provider_label("", "openrouter/x"), Some("Openrouter".to_string()));
    assert_eq!(provider_label("", "OpenAI/gpt-4o"), Some("OpenAI".to_string()));
    assert_eq!(provider_label(" ", "NULL"), None);
    assert_eq!(provider_label("", ""), None);
}

#[test]
fn api_key_field_back_and_save_notices() {
    let back = back_to_methods("groq", &vec![AuthMethod::OAuthDeviceCode]);
    assert_eq!(back.provider_id, "groq");
    assert_eq!(back.display_name, provider_display_name("groq"));
    assert_eq!(back.methods, vec![ConnectMethod::OAuthDeviceCode, ConnectMethod::ApiKey]);
    assert_eq!(back.selected, 0);
    let n = api_key_saved_notice("Groq", &Ok(()));
    assert_eq!((n.variant, n.message.as_str(), n.ttl_ms), (ToastVariant::Success, "Groq connected!", 4000));
    let n = api_key_saved_notice("Groq", &Err("denied".to_string()));
    assert_eq!((n.variant, n.message.as_str(), n.ttl_ms), (ToastVariant::Error, "failed to save key: denied", 5000));
}
