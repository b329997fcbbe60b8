use rustcode_tui::keys::{Key, KeyPress};
use rustcode_tui::modals::{
    model_row_text, search_status, skill_row_text,
    apply_palette_step, PaletteState,
    feedback_notice, file_inserted_notice,
    delete_confirm_key, feedback_entry, feedback_key, file_mention, palette_choice, picker_key,
    search_key, skill_list_key, ConfirmStep, FeedbackForm, FeedbackOutcome, PaletteChoice,
    PickerStep, SearchStep, SkillListStep,
};
use rustcode_tui::palette::{
    build_command_items, compute_palette_view, missing_target_notice, palette_usage_notice, parse_palette_query, CommandId,
};
use rustcode_tui::providers::{api_key_notice, ApiKeyStep};
use rustcode_tui::toast::ToastVariant;

fn kp(key: Key) -> KeyPress {
    KeyPress { key, ctrl: false, alt: false, shift: false }
}

#[test]
fn feedback_form_rates_edits_and_submits() {
    let mut form = FeedbackForm { rating: None, comment: String::new(), comment_active: false };
    assert_eq!(feedback_key(&mut form, kp(Key::Enter)), FeedbackOutcome::NeedRating);
    assert_eq!(feedback_key(&mut form, kp(Key::Char('u'))), FeedbackOutcome::Stay);
    assert_eq!(form.rating, Some(true));
    assert_eq!(feedback_key(&mut form, kp(Key::Right)), FeedbackOutcome::Stay);
    assert_eq!(form.rating, Some(false));
    assert_eq!(feedback_key(&mut form, kp(Key::Tab)), FeedbackOutcome::Stay);
    assert!(form.comment_active);
    feedback_key(&mut form, kp(Key::Char('o')));
    feedback_key(&mut form, kp(Key::Char('k')));
    feedback_key(&mut form, kp(Key::Char('!')));
    feedback_key(&mut form, kp(Key::Backspace));
    assert_eq!(form.comment, "ok");
    assert_eq!(feedback_key(&mut form, kp(Key::Esc)), FeedbackOutcome::Stay);
    assert!(!form.comment_active);
    assert_eq!(feedback_key(&mut form, kp(Key::Enter)), FeedbackOutcome::Submit(false));
    let mut fresh = FeedbackForm { rating: None, comment: String::new(), comment_active: false };
    assert_eq!(feedback_key(&mut fresh, kp(Key::Esc)), FeedbackOutcome::Close);
}

#[test]
fn feedback_entries_are_escaped_json() {
    assert_eq!(
        feedback_entry(17, true, "  say \"hi\" \\ "),
        "{\"ts\":17,\"rating\":\"up\",\"comment\":\"say \\\"hi\\\" \\\\\"}"
    );
    assert_eq!(feedback_entry(0, false, ""), "{\"ts\":0,\"rating\":\"down\",\"comment\":\"\"}");
}

#[test]
fn confirm_and_skill_keys() {
    assert_eq!(delete_confirm_key(Key::Char('y')), ConfirmStep::Confirm);
    assert_eq!(delete_confirm_key(Key::Char('n')), ConfirmStep::Cancel);
    assert_eq!(delete_confirm_key(Key::Esc), ConfirmStep::Cancel);
    assert_eq!(delete_confirm_key(Key::Char('Y')), ConfirmStep::Keep);
    assert_eq!(skill_list_key(Key::Down, 0, 0), SkillListStep::Close);
    assert_eq!(skill_list_key(Key::Down, 1, 2), SkillListStep::Select(1));
    assert_eq!(skill_list_key(Key::Char(' '), 1, 2), SkillListStep::Toggle(1));
    assert_eq!(skill_list_key(Key::Enter, 5, 2), SkillListStep::Keep);
}

#[test]
fn picker_keys_stay_in_list() {
    assert_eq!(picker_key(kp(Key::PageDown), 0, 5), PickerStep::Select(4));
    assert_eq!(picker_key(kp(Key::PageDown), 0, 50), PickerStep::Select(10));
    assert_eq!(picker_key(kp(Key::PageUp), 3, 50), PickerStep::Select(0));
    assert_eq!(picker_key(kp(Key::Down), 4, 5), PickerStep::Select(4));
    assert_eq!(picker_key(kp(Key::Char('q')), 0, 5), PickerStep::PushQuery('q'));
    let ctrl_q = KeyPress { key: Key::Char('q'), ctrl: true, alt: false, shift: false };
    assert_eq!(picker_key(ctrl_q, 0, 5), PickerStep::Keep);
    assert_eq!(picker_key(kp(Key::Backspace), 0, 5), PickerStep::PopQuery);
    assert_eq!(picker_key(kp(Key::Enter), 0, 5), PickerStep::Choose);
    assert_eq!(picker_key(kp(Key::Esc), 0, 5), PickerStep::Close);
}

#[test]
fn palette_choices() {
    let items = build_command_items(false, false, false);
    let all: Vec<usize> = (0..items.len()).collect();
    assert_eq!(palette_choice(&items, &all, items.len()), PaletteChoice::NoSelection);
    let cancel = items.iter().position(|i| i.id == CommandId::CancelRun).unwrap();
    assert_eq!(
        palette_choice(&items, &vec![cancel], 0),
        PaletteChoice::Disabled("Open a session first".to_string())
    );
    let help = items.iter().position(|i| i.id == CommandId::Help).unwrap();
    assert_eq!(palette_choice(&items, &vec![help], 0), PaletteChoice::Run(CommandId::Help));
    assert_eq!(palette_choice(&items, &vec![999], 0), PaletteChoice::Stale);
}

#[test]
fn file_mentions() {
    assert_eq!(file_mention("src/main.rs"), "@src/main.rs");
}

#[test]
fn search_modal_keys() {
    assert_eq!(search_key(kp(Key::Char('a'))), SearchStep::PushQuery('a'));
    assert_eq!(search_key(kp(Key::Char('n'))), SearchStep::Next);
    assert_eq!(search_key(kp(Key::Char('N'))), SearchStep::Prev);
    assert_eq!(search_key(kp(Key::Enter)), SearchStep::Next);
    assert_eq!(search_key(kp(Key::Up)), SearchStep::Prev);
    assert_eq!(search_key(kp(Key::Esc)), SearchStep::Close);
    assert_eq!(search_key(kp(Key::Backspace)), SearchStep::PopQuery);
}

#[test]
fn modal_and_palette_notices() {
    let n = feedback_notice(FeedbackOutcome::NeedRating).unwrap();
    assert_eq!((n.variant, n.message.as_str(), n.ttl_ms), (ToastVariant::Warning, "select a rating first: u = thumbs up, d = thumbs down", 3000));
    let n = feedback_notice(FeedbackOutcome::Submit(true)).unwrap();
    assert_eq!((n.variant, n.message.as_str()), (ToastVariant::Success, "feedback recorded — thank you!"));
    assert!(feedback_notice(FeedbackOutcome::Stay).is_none());
    let n = file_inserted_notice("src/main.rs");
    assert_eq!((n.variant, n.message.as_str(), n.ttl_ms), (ToastVariant::Info, "inserted: src/main.rs", 2000));

    let n = palette_usage_notice(&parse_palette_query("open")).unwrap();
    assert_eq!(n.message, "usage: session <id>");
    let n = palette_usage_notice(&parse_palette_query("rename")).unwrap();
    assert_eq!(n.message, "usage: rename <title>");
    assert!(palette_usage_notice(&parse_palette_query("help")).is_none());
    assert_eq!(missing_target_notice(true).message, "usage: delete <session_id>");
    assert_eq!(missing_target_notice(false).message, "no session selected");

    let n = api_key_notice(&ApiKeyStep::Empty).unwrap();
    assert_eq!((n.variant, n.message.as_str(), n.ttl_ms), (ToastVariant::Warning, "API key must not be empty", 3000));
    assert!(api_key_notice(&ApiKeyStep::Back).is_none());
}

#[test]
fn palette_steps_change_query_view_and_highlight() {
    let items = build_command_items(true, false, false);
    let mut p = PaletteState { query: String::new(), view: compute_palette_view(&items, ""), selected: 3 };
    apply_palette_step(&mut p, &items, PickerStep::PushQuery('f'));
    assert_eq!(p.query, "f");
    assert_eq!(p.selected, 0);
    assert_eq!(p.view, compute_palette_view(&items, "f"));
    apply_palette_step(&mut p, &items, PickerStep::Select(1));
    assert_eq!(p.selected, 1);
    apply_palette_step(&mut p, &items, PickerStep::PopQuery);
    assert_eq!(p.query, "");
    assert_eq!(p.view, compute_palette_view(&items, ""));
    assert_eq!(p.selected, 1);
    p.selected = 500;
    apply_palette_step(&mut p, &items, PickerStep::PopQuery);
    assert_eq!(p.selected, p.view.len() - 1);
    apply_palette_step(&mut p, &items, PickerStep::Close);
    assert_eq!(p.query, "");
}

#[test]
fn modal_rows_and_status_text() {
    assert_eq!(model_row_text("openai/gpt-4o", "gpt-4o"), (true, "[*] openai       gpt-4o".to_string()));
    assert_eq!(model_row_text("openai/gpt-4o", "openai/gpt-4o"), (true, "[*] openai       gpt-4o".to_string()));
    assert_eq!(model_row_text("gpt-4o", "openai/gpt-4o"), (true, "[*]              gpt-4o".to_string()));
    assert_eq!(model_row_text("groq/llama", "openai/gpt-4o"), (false, "[ ] groq         llama".to_string()));
    assert_eq!(model_row_text("averyveryverylongprov/m", "x"), (false, "[ ] averyveryverylongprov m".to_string()));
    assert_eq!(search_status("  ", 0, 3), "Type to search");
    assert_eq!(search_status("x", 0, 0), "No matches");
    assert_eq!(search_status("x", 1, 3), "Match 2/3");
    assert_eq!(skill_row_text("plan", "Plan first", true), "[x] plan  — Plan first");
    assert_eq!(skill_row_text("off", "", false), "[ ] off");
}

#[test]
fn file_list_title_counts_shown_and_found() {
    assert_eq!(rustcode_tui::modals::file_list_title(3, 120), "Files (3/120)");
    assert_eq!(rustcode_tui::modals::file_list_title(0, 0), "Files (0/0)");
}

#[test]
fn delete_confirmation_names_the_session() {
    let lines = rustcode_tui::modals::delete_confirm_lines("s-1", "Refactor");
    assert_eq!(
        lines,
        vec![
            "This will delete the session from disk.",
            "",
            "id: s-1",
            "title: Refactor",
            "",
            "y: delete    n/Esc: cancel",
        ]
    );
}
