use rustcode_tui::approval::{mode_for_response, mode_notice_variant, plan_denied_notice, ApprovalMode};
use rustcode_tui::toast::ToastVariant;
use rustcode_tui::composer::{
    composer_backspace, composer_clear, composer_cursor_from_line_col, composer_delete,
    composer_insert_str, composer_kill_line_backward, composer_kill_line_forward,
    composer_line_col, composer_move_down, composer_move_end, composer_move_home,
    composer_move_left, composer_move_right, composer_move_up, composer_word_left,
    composer_word_right, Composer,
};
use rustcode_tui::history::{build_prompt_history, history_next, history_prev, PromptHistory};
use rustcode_tui::keys::{move_selection_in_list, SessionsKeyAction};
use rustcode_tui::sessions::chat_desired_height;
use rustcode_tui::transcript::{MessageRole, StoredMessage};
use rustcode_tui::wrap::{composer_cursor_visual, composer_wrapped_line_count, word_wrap_text};
use rustcode_tui::ApprovalResponse;

fn composer(text: &str, cursor: usize) -> Composer {
    Composer { text: text.to_string(), cursor, cleared_by_interrupt: false }
}

#[test]
fn composer_moves_by_characters_not_bytes() {
    let mut c = composer("héllo", 6);
    composer_move_left(&mut c);
    assert_eq!(c.cursor, 5);
    c.cursor = 3;
    composer_move_left(&mut c);
    assert_eq!(c.cursor, 1);
    composer_move_right(&mut c);
    assert_eq!(c.cursor, 3);
    c.cursor = 6;
    composer_move_right(&mut c);
    assert_eq!(c.cursor, 6);
}

#[test]
fn composer_edits_at_the_cursor() {
    let mut c = composer("héllo", 3);
    composer_backspace(&mut c);
    assert_eq!((c.text.as_str(), c.cursor), ("hllo", 1));
    composer_delete(&mut c);
    assert_eq!((c.text.as_str(), c.cursor), ("hlo", 1));
    composer_insert_str(&mut c, "ab");
    assert_eq!((c.text.as_str(), c.cursor), ("hablo", 3));
    c.cursor = 0;
    composer_backspace(&mut c);
    assert_eq!((c.text.as_str(), c.cursor), ("hablo", 0));
    c.cursor = 5;
    composer_delete(&mut c);
    assert_eq!(c.text, "hablo");
    composer_clear(&mut c);
    assert_eq!((c.text.as_str(), c.cursor), ("", 0));
}

#[test]
fn composer_moves_between_lines() {
    let mut c = composer("ab\ncdef", 5);
    composer_move_home(&mut c);
    assert_eq!(c.cursor, 3);
    composer_move_end(&mut c);
    assert_eq!(c.cursor, 7);
    c.cursor = 5;
    composer_move_up(&mut c);
    assert_eq!(c.cursor, 2);
    c.cursor = 1;
    composer_move_down(&mut c);
    assert_eq!(c.cursor, 4);
    composer_move_down(&mut c);
    assert_eq!(c.cursor, 4);
    assert_eq!(composer_line_col("ab\ncd", 4), (1, 1));
    assert_eq!(composer_cursor_from_line_col("ab\ncd", 1, 1), 4);
}

#[test]
fn composer_moves_by_words_and_kills_lines() {
    let mut c = composer("foo bar baz", 11);
    composer_word_left(&mut c);
    assert_eq!(c.cursor, 8);
    composer_word_left(&mut c);
    assert_eq!(c.cursor, 4);
    c.cursor = 0;
    composer_word_right(&mut c);
    assert_eq!(c.cursor, 4);

    let mut c = composer("ab\ncd", 1);
    composer_kill_line_forward(&mut c);
    assert_eq!((c.text.as_str(), c.cursor), ("a\ncd", 1));
    let mut c = composer("ab\ncd", 4);
    composer_kill_line_backward(&mut c);
    assert_eq!((c.text.as_str(), c.cursor), ("ab\nd", 3));
}

#[test]
fn prompt_history_recalls_entries_and_restores_the_draft() {
    let mut h = PromptHistory {
        entries: vec!["one".to_string(), "two".to_string()],
        cursor: None,
        draft: String::new(),
    };
    let mut c = composer("draft", 5);
    history_prev(&mut h, &mut c);
    assert_eq!((c.text.as_str(), c.cursor, h.cursor), ("two", 3, Some(1)));
    history_prev(&mut h, &mut c);
    assert_eq!((c.text.as_str(), h.cursor), ("one", Some(0)));
    history_prev(&mut h, &mut c);
    assert_eq!((c.text.as_str(), h.cursor), ("one", Some(0)));
    history_next(&mut h, &mut c);
    assert_eq!((c.text.as_str(), h.cursor), ("two", Some(1)));
    history_next(&mut h, &mut c);
    assert_eq!((c.text.as_str(), c.cursor, h.cursor), ("draft", 5, None));
}

fn message(role: MessageRole, text: &str) -> StoredMessage {
    StoredMessage {
        role,
        content_text: Some(text.to_string()),
        tool_name: None,
        tool_call_id: None,
        tool_calls: Vec::new(),
    }
}

#[test]
fn prompt_history_keeps_trimmed_user_prompts_without_repeats() {
    let messages = vec![
        message(MessageRole::User, "  hi  "),
        message(MessageRole::Assistant, "x"),
        message(MessageRole::User, "hi"),
        message(MessageRole::User, "there"),
        message(MessageRole::User, "   "),
        message(MessageRole::User, "hi"),
    ];
    assert_eq!(build_prompt_history(&messages), vec!["hi", "there", "hi"]);
}

#[test]
fn list_selection_moves_within_the_list() {
    assert_eq!(move_selection_in_list(SessionsKeyAction::SelectNext, 0, 3), 1);
    assert_eq!(move_selection_in_list(SessionsKeyAction::SelectNext, 2, 3), 2);
    assert_eq!(move_selection_in_list(SessionsKeyAction::SelectPrev, 0, 3), 0);
    assert_eq!(move_selection_in_list(SessionsKeyAction::PageDown, 0, 30), 10);
    assert_eq!(move_selection_in_list(SessionsKeyAction::PageDown, 25, 30), 29);
    assert_eq!(move_selection_in_list(SessionsKeyAction::PageUp, 5, 30), 0);
}

#[test]
fn chat_height_sums_its_boxes_within_the_terminal() {
    assert_eq!(chat_desired_height(0, 100, true, "", None, &vec![]), 8);
    assert_eq!(chat_desired_height(40, 100, true, "hi", None, &vec![10, 10]), 25);
    assert_eq!(chat_desired_height(40, 100, true, "hi", Some(4), &vec![10, 10]), 27);
    assert_eq!(chat_desired_height(12, 100, true, "hi", None, &vec![10; 50]), 12);
}

#[test]
fn cursor_position_on_screen_in_a_short_composer() {
    assert_eq!(composer_cursor_visual("ab", 0, 10), (0, 0));
    assert_eq!(composer_cursor_visual("abc", 2, 10), (0, 2));
}

#[test]
fn answers_that_change_the_approval_mode() {
    assert_eq!(mode_for_response(ApprovalResponse::AllowAllToolsAutopilot), Some(ApprovalMode::Yolo));
    assert_eq!(mode_for_response(ApprovalResponse::AllowAllCommands), Some(ApprovalMode::AcceptEdits));
    assert_eq!(mode_for_response(ApprovalResponse::AllowOnce), None);
    assert_eq!(mode_for_response(ApprovalResponse::Deny), None);
}

#[test]
fn mode_change_notices() {
    assert_eq!(mode_notice_variant(ApprovalMode::Yolo), ToastVariant::Warning);
    assert_eq!(mode_notice_variant(ApprovalMode::AcceptEdits), ToastVariant::Warning);
    assert_eq!(mode_notice_variant(ApprovalMode::Plan), ToastVariant::Info);
    assert_eq!(mode_notice_variant(ApprovalMode::Normal), ToastVariant::Info);
    let n = plan_denied_notice();
    assert_eq!((n.variant, n.message.as_str(), n.ttl_ms), (ToastVariant::Info, "Plan mode — tool denied", 2000));
}

#[test]
fn wrapping_keeps_lines_within_the_width() {
    assert_eq!(word_wrap_text("a ", 1), vec!["a", " ", ""]);
    assert_eq!(word_wrap_text("ab cd", 3), vec!["ab ", "cd"]);
    assert_eq!(word_wrap_text("abc d", 3), vec!["abc", " d"]);
    assert_eq!(word_wrap_text("x\ny", 5), vec!["x", "y"]);
}

#[test]
fn cursor_at_the_end_is_on_the_last_wrapped_line() {
    for (text, width) in [("\t\t", 4u16), ("a ", 1), ("hello world foo", 5), ("ab\ncd ef", 3), ("", 4)] {
        let (row, _) = composer_cursor_visual(text, text.len(), width);
        assert_eq!(row + 1, word_wrap_text(text, width as usize).len(), "{text:?}");
        assert_eq!(row + 1, composer_wrapped_line_count(text, width as usize), "{text:?}");
    }
}

#[test]
fn line_and_column_lead_back_to_the_cursor() {
    let text = "ab\ncdé\n\nxyz";
    let mut b = 0;
    while b <= text.len() {
        if text.is_char_boundary(b) {
            let (line, col) = composer_line_col(text, b);
            assert_eq!(composer_cursor_from_line_col(text, line, col), b, "cursor {b}");
        }
        b += 1;
    }
}
