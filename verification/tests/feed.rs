use rustcode_tui::activity::{ActivityItem, LineStyle};
use rustcode_tui::approval::ApprovalMode;
use rustcode_tui::events::{
    append_capped, auto_session_title, retry_notice, route_approval_request, title_from_prompt,
    ActivityFeed, RequestRouting, STREAM_KEEP, STREAM_LIMIT,
};
use rustcode_tui::footer::build_footer_lines;
use rustcode_tui::markdown::Tone;
use rustcode_tui::toast::ToastVariant;
use rustcode_tui::tool_diff::{
    diff_gutter, diff_header_lines, diff_highlight_ext, diff_rows, diff_rows_fit,
    edit_preview_plan, split_diff_output, DiffRow,
};
use rustcode_tui::transcript::{
    find_notice, find_step, FindStep,
    combined_summary_line, find_mark, find_next_index, find_prev_index, jump_transcript_scroll,
    match_notice, plan_transcript, tool_batch_summary, ToolCall, tool_result_failed, tool_result_shows_diff, FindMark,
    MessageRole, StoredMessage, TranscriptBlock,
};

fn tool_call(args: &str) -> ActivityItem {
    ActivityItem::ToolCall { id: "tc-1".to_string(), name: "read".to_string(), arguments: args.to_string() }
}

#[test]
fn tool_call_details_show_arguments() {
    let item = tool_call("{\"path\":\"README.md\"}");
    let lines = item.details_lines();
    assert_eq!(lines[0].text, "tool: read");
    assert_eq!(lines[0].style, LineStyle::Bold);
    assert!(lines.iter().any(|l| l.text == "arguments:"));
    assert!(lines.iter().any(|l| l.text.contains("README.md")));
    assert_eq!(lines[2].text, "id: tc-1");
}

#[test]
fn activity_titles_and_summaries() {
    let item = tool_call("{\"path\":\"src/a.rs\"}");
    assert_eq!(item.title(), "tool: read");
    assert_eq!(item.summary(), "read  src/a.rs");
    let res = ActivityItem::ToolResult { id: "x".to_string(), name: "bash".to_string(), ok: false, output: "\n  boom  \nmore".to_string() };
    assert_eq!(res.title(), "tool result: bash ok=false");
    assert_eq!(res.summary(), "bash  ✗  boom");
    let retry = ActivityItem::RetryAttempt { attempt: 2, max_retries: 5, delay_secs: 4, reason: "busy".to_string() };
    assert_eq!(retry.title(), "retry 2/5");
    assert_eq!(retry.summary(), "retrying in 4 (2/5): busy");
    assert_eq!(ActivityItem::Completed.summary(), "done");
    let chunk = ActivityItem::OutputChunk { text: "a\nb".to_string() };
    assert_eq!(chunk.summary(), "a b");
    let long = ActivityItem::Warning { message: "w".repeat(150) };
    assert_eq!(long.summary().chars().count(), 141);
}

#[test]
fn failure_details_include_raw_error() {
    let f = ActivityItem::Failure { message: "bad".to_string(), raw_detail: Some("raw1\nraw2".to_string()) };
    let lines = f.details_lines();
    let texts: Vec<&str> = lines.iter().map(|l| l.text.as_str()).collect();
    assert_eq!(texts, vec!["failure", "", "bad", "", "Raw error:", "raw1", "raw2"]);
    assert_eq!(lines[4].style, LineStyle::Dim);
}

#[test]
fn feed_is_capped_and_follows_the_tail() {
    let mut feed = ActivityFeed::new();
    for _ in 0..205 {
        feed.record(Some(ActivityItem::Completed), false);
    }
    assert_eq!(feed.items.len(), 200);
    assert_eq!(feed.selected, 199);
    feed.selected = 10;
    feed.record(Some(ActivityItem::Completed), true);
    assert_eq!(feed.selected, 9);
    feed.record(None, true);
    assert_eq!(feed.items.len(), 200);
}

#[test]
fn streamed_text_is_capped() {
    let mut buf = String::new();
    append_capped(&mut buf, "hello");
    assert_eq!(buf, "hello");
    let big = "x".repeat(STREAM_LIMIT);
    append_capped(&mut buf, &big);
    assert_eq!(buf.len(), STREAM_KEEP);
}

#[test]
fn requests_are_routed_by_mode() {
    assert_eq!(route_approval_request(ApprovalMode::Yolo, true), RequestRouting::Approve);
    assert_eq!(route_approval_request(ApprovalMode::Plan, false), RequestRouting::Deny);
    assert_eq!(route_approval_request(ApprovalMode::AcceptEdits, true), RequestRouting::Ask);
    assert_eq!(route_approval_request(ApprovalMode::AcceptEdits, false), RequestRouting::Approve);
    assert_eq!(route_approval_request(ApprovalMode::Normal, false), RequestRouting::Ask);
}

#[test]
fn retry_notices() {
    assert_eq!(retry_notice(1, 3, 2, "busy"), ("Retrying (1/3) in 2s: busy".to_string(), 3));
    assert_eq!(retry_notice(2, 3, 10, "x").1, 10);
}

#[test]
fn session_titles_from_first_prompt() {
    assert_eq!(title_from_prompt("  fix\nthe bug "), Some("fix the bug".to_string()));
    assert_eq!(title_from_prompt("   "), None);
    let long = "word ".repeat(20);
    let t = title_from_prompt(&long).unwrap();
    assert!(t.ends_with('…'));
    assert!(t.chars().count() <= 51);
    assert_eq!(t, format!("{}…", "word ".repeat(9) + "word"));
    let msgs = vec![
        StoredMessage { role: MessageRole::System, content_text: Some("sys".to_string()), tool_name: None, tool_call_id: None, tool_calls: Vec::new() },
        StoredMessage { role: MessageRole::User, content_text: Some("hello there".to_string()), tool_name: None, tool_call_id: None, tool_calls: Vec::new() },
    ];
    assert_eq!(auto_session_title(&msgs), Some("hello there".to_string()));
}

#[test]
fn footer_lines() {
    let (status, hints) = build_footer_lines(false, Some(("saved".to_string(), ToastVariant::Success)), false, true, true, 0);
    assert_eq!(status.len(), 2);
    assert_eq!(status[0].text, "saved");
    assert_eq!(status[0].style.fg, Tone::Success);
    assert_eq!(status[1].text, "  Ctrl+E:details");
    assert!(hints.iter().any(|s| s.text == " open activity"));
    let (status, _) = build_footer_lines(true, None, false, false, false, 0);
    assert_eq!(status[0].text, " ◐ running   ");
    let (status, _) = build_footer_lines(true, None, false, false, false, 360);
    assert_eq!(status[0].text, " ◒ running.  ");
    let (_, hints) = build_footer_lines(false, None, true, false, false, 0);
    assert!(hints.iter().any(|s| s.text == "Alt+Tab"));
}

#[test]
fn transcript_layout_summarises_last_tool_run() {
    let roles = vec![
        MessageRole::User,
        MessageRole::Tool,
        MessageRole::Assistant,
        MessageRole::Tool,
        MessageRole::Tool,
        MessageRole::Assistant,
        MessageRole::System,
    ];
    let blocks = plan_transcript(&roles, false);
    assert_eq!(blocks.len(), 5);
    assert!(matches!(&blocks[0], TranscriptBlock::Message(0)));
    assert!(matches!(&blocks[1], TranscriptBlock::EditDiffs(v) if v == &vec![1]));
    assert!(matches!(&blocks[3], TranscriptBlock::ToolSummary(v) if v == &vec![3, 4]));
    assert!(matches!(&blocks[4], TranscriptBlock::Message(5)));
    let detailed = plan_transcript(&roles, true);
    assert!(matches!(&detailed[3], TranscriptBlock::ToolDetails(v) if v == &vec![3, 4]));
}

#[test]
fn tool_result_flags() {
    let ok_diff = "{\"ok\":true,\"truncated\":false,\"output\":\"Edited a.rs\\n@@diff\\n+x\"}";
    assert!(tool_result_shows_diff("edit", ok_diff));
    assert!(!tool_result_shows_diff("read", ok_diff));
    assert!(!tool_result_failed(ok_diff));
    assert!(tool_result_failed("{\"ok\":false,\"truncated\":false}"));
    assert!(!tool_result_failed("not json"));
}

#[test]
fn summary_lines() {
    assert_eq!(combined_summary_line("read", "a.rs", 1, 0), "  ▶ read(a.rs)  (ctrl+o to expand)");
    assert_eq!(combined_summary_line("bash", "", 3, 2), "  ▶ bash  +2 more tool uses  2 ✗  (ctrl+o to expand)");
    assert_eq!(combined_summary_line("x", "", 2, 0), "  ▶ x  +1 more tool use  (ctrl+o to expand)");
}

#[test]
fn search_navigation() {
    assert_eq!(find_next_index(2, 3), 0);
    assert_eq!(find_prev_index(0, 3), 2);
    assert_eq!(find_next_index(9, 3), 0);
    assert_eq!(find_prev_index(find_next_index(1, 4), 4), 1);
    assert_eq!(match_notice(0, 4), "match 1/4");
    assert_eq!(jump_transcript_scroll(5, 10, 5), 0);
    assert_eq!(jump_transcript_scroll(0, 10, 100), 92);
    assert_eq!(jump_transcript_scroll(50, 10, 100), 44);
    let m = vec![3, 7];
    assert_eq!(find_mark(false, &m, 1, 7), FindMark::Current);
    assert_eq!(find_mark(false, &m, 1, 3), FindMark::Match);
    assert_eq!(find_mark(true, &m, 1, 7), FindMark::Plain);
    assert_eq!(find_mark(false, &m, 1, 4), FindMark::Plain);
}

#[test]
fn diff_output_parts() {
    assert_eq!(
        split_diff_output(" Edited x \n@@diff\n+a\n"),
        Some(("Edited x".to_string(), "+a\n".to_string()))
    );
    assert_eq!(split_diff_output("no diff"), None);
    assert_eq!(diff_header_lines("Edited src/a.rs\n+3 -1\n"), ("Edited src/a.rs".to_string(), "+3 -1".to_string()));
    assert_eq!(diff_highlight_ext("Edited src/lib.rs ok"), "rs");
    assert_eq!(diff_highlight_ext("nothing"), "");
    assert_eq!(diff_gutter(7), " 7 ");
    assert_eq!(diff_gutter(123), "123 ");
}

#[test]
fn diff_rows_number_lines() {
    let body = "--- a/x\n+++ b/x\n@@ -10,2 +20,3 @@\n ctx\n-old\n+new\n+more\n";
    assert!(diff_rows_fit(body));
    let rows = diff_rows(body);
    assert_eq!(rows.len(), 5);
    assert!(matches!(rows[0], DiffRow::Separator));
    assert!(matches!(&rows[1], DiffRow::Context { number: 20, text } if text == " ctx"));
    assert!(matches!(&rows[2], DiffRow::Removed { number: 11, text } if text == "old"));
    assert!(matches!(&rows[3], DiffRow::Added { number: 21, text } if text == "new"));
    assert!(matches!(&rows[4], DiffRow::Added { number: 22, .. }));
}

fn lines(v: &[&str]) -> Vec<String> {
    v.iter().map(|s| s.to_string()).collect()
}

#[test]
fn edit_preview_plans() {
    let old = lines(&["a", "b", "c", "d", "e", "f"]);
    let new = lines(&["a", "b", "c", "X", "Y", "e", "f"]);
    let p = edit_preview_plan(&old, &new);
    assert_eq!((p.prefix, p.suffix), (3, 2));
    assert_eq!((p.hidden_above, p.context_before), (1, 2));
    assert_eq!((p.removed, p.removed_shown), (1, 1));
    assert_eq!((p.added, p.added_shown), (2, 2));
    assert_eq!((p.context_after, p.hidden_below), (2, 0));
    let same = edit_preview_plan(&old, &old);
    assert_eq!((same.prefix, same.suffix, same.removed, same.added), (6, 0, 0, 0));
    let big_old: Vec<String> = (0..80).map(|i| format!("o{i}")).collect();
    let big_new: Vec<String> = (0..5).map(|i| format!("n{i}")).collect();
    let b = edit_preview_plan(&big_old, &big_new);
    assert_eq!((b.removed, b.removed_shown), (80, 50));
    assert_eq!((b.added, b.added_shown), (5, 0));
}

#[test]
fn find_steps_wrap_and_say_where_they_are() {
    let matches = vec![3, 9, 14];
    assert_eq!(find_step(false, 0, &matches, true), FindStep::NoSearch);
    assert_eq!(find_step(true, 0, &vec![], true), FindStep::NoMatches);
    assert_eq!(find_step(true, 0, &matches, true), FindStep::Jump { current: 1, line: 9 });
    assert_eq!(find_step(true, 2, &matches, true), FindStep::Jump { current: 0, line: 3 });
    assert_eq!(find_step(true, 0, &matches, false), FindStep::Jump { current: 2, line: 14 });
    assert_eq!(find_step(true, 7, &matches, false), FindStep::Jump { current: 1, line: 9 });
    let n = find_notice(FindStep::Jump { current: 1, line: 9 }, 3);
    assert_eq!((n.message.as_str(), n.ttl_ms), ("match 2/3", 2000));
    assert_eq!(find_notice(FindStep::NoSearch, 0).message, "no active search");
    assert_eq!(find_notice(FindStep::NoMatches, 0).message, "no matches");
}

#[test]
fn feed_keeps_the_newest_entries_in_order() {
    let mut feed = ActivityFeed::new();
    for i in 0..203 {
        feed.record(Some(ActivityItem::OutputChunk { text: format!("t{i}") }), false);
    }
    assert_eq!(feed.items.len(), 200);
    match (&feed.items[0], &feed.items[199]) {
        (ActivityItem::OutputChunk { text: first }, ActivityItem::OutputChunk { text: last }) => {
            assert_eq!(first, "t3");
            assert_eq!(last, "t202");
        }
        _ => panic!("unexpected entries"),
    }
}

fn tool_result(name: &str, id: &str, content: &str) -> StoredMessage {
    StoredMessage {
        role: MessageRole::Tool,
        content_text: Some(content.to_string()),
        tool_name: Some(name.to_string()),
        tool_call_id: Some(id.to_string()),
        tool_calls: Vec::new(),
    }
}

#[test]
fn batch_summary_names_the_latest_call_and_counts_failures() {
    let call = |id: &str, name: &str, args: &str| ToolCall {
        id: id.to_string(),
        name: name.to_string(),
        arguments: args.to_string(),
    };
    let assistant = StoredMessage {
        role: MessageRole::Assistant,
        content_text: Some("working".to_string()),
        tool_name: None,
        tool_call_id: None,
        tool_calls: vec![
            call("c1", "read", "{\"path\":\"a.rs\"}"),
            call("c2", "bash", "{\"command\":\"cargo test\"}"),
        ],
    };
    let messages = vec![
        assistant,
        tool_result("read", "c1", "{\"ok\":false,\"truncated\":false}"),
        tool_result("bash", "c2", "{\"ok\":true,\"truncated\":false,\"output\":\"fine\"}"),
    ];
    assert_eq!(
        tool_batch_summary(&messages, &vec![1, 2], None),
        "  ▶ bash(cargo test)  +1 more tool use  1 ✗  (ctrl+o to expand)"
    );
    assert_eq!(tool_batch_summary(&messages, &vec![1], None), "  ▶ read(a.rs)  1 ✗  (ctrl+o to expand)");
    let unnamed = vec![StoredMessage {
        role: MessageRole::Tool,
        content_text: None,
        tool_name: None,
        tool_call_id: None,
        tool_calls: Vec::new(),
    }];
    assert_eq!(tool_batch_summary(&unnamed, &vec![0], None), "  ▶ tool  (ctrl+o to expand)");
}
