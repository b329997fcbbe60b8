use rustcode_tui::activity::ActivityItem;
use rustcode_tui::live::{
    live_activity_lines, live_summary_line, plan_lines, todo_lines, LiveKind, StepStatus,
    TodoStatus,
};

fn call(id: &str, name: &str, args: &str) -> ActivityItem {
    ActivityItem::ToolCall { id: id.to_string(), name: name.to_string(), arguments: args.to_string() }
}

fn result(id: &str, name: &str, ok: bool, output: &str) -> ActivityItem {
    ActivityItem::ToolResult { id: id.to_string(), name: name.to_string(), ok, output: output.to_string() }
}

#[test]
fn plan_checklist() {
    let steps = vec![
        ("write code".to_string(), "completed".to_string()),
        ("test it".to_string(), "in_progress".to_string()),
        ("ship".to_string(), "later".to_string()),
    ];
    let rows = plan_lines(Some("Release"), &steps);
    let texts: Vec<&str> = rows.iter().map(|r| r.text.as_str()).collect();
    assert_eq!(texts, vec!["📋 Release", "  ✅ 1. write code", "  🔄 2. test it", "  ⬜ 3. ship", ""]);
    assert_eq!(rows[1].kind, LiveKind::PlanStep(StepStatus::Completed));
    assert_eq!(rows[3].kind, LiveKind::PlanStep(StepStatus::Pending));
    assert!(plan_lines(None, &steps).is_empty());
    assert!(plan_lines(Some("x"), &Vec::new()).is_empty());
}

#[test]
fn todo_list_rows() {
    let todos = vec![
        ("a".to_string(), "completed".to_string(), "high".to_string()),
        ("b".to_string(), "cancelled".to_string(), "medium".to_string()),
        ("c".to_string(), "pending".to_string(), "low".to_string()),
    ];
    let rows = todo_lines(&todos);
    let texts: Vec<&str> = rows.iter().map(|r| r.text.as_str()).collect();
    assert_eq!(texts, vec!["📝 Todo List", "  ✓ a [HIGH]", "  ✗ b [MED]", "  ○ c", ""]);
    assert_eq!(rows[2].kind, LiveKind::Todo(TodoStatus::Cancelled));
    assert!(todo_lines(&Vec::new()).is_empty());
}

#[test]
fn summary_names_the_latest_call() {
    let items = vec![
        call("1", "read", "{\"path\":\"a.rs\"}"),
        ActivityItem::Completed,
        call("2", "bash", "{\"command\":\"ls\"}"),
        call("3", "grep", "{}"),
    ];
    assert_eq!(
        live_summary_line(&items, 0, None),
        Some("  ▶ grep  +2 more tool uses  (ctrl+o to expand)".to_string())
    );
    let one = vec![call("1", "read", "{\"path\":\"a.rs\"}")];
    assert_eq!(
        live_summary_line(&one, 130, None),
        Some("  ▸ read(a.rs)  (ctrl+o to expand)".to_string())
    );
    assert_eq!(live_summary_line(&vec![ActivityItem::Completed], 0, None), None);
}

#[test]
fn feed_shows_calls_with_their_results() {
    let items = vec![
        call("1", "read", "{\"path\":\"a.rs\"}"),
        result("1", "read", true, "{\"ok\":true,\"output\":\"x\\ny\"}"),
        call("2", "bash", "{\"command\":\"make\"}"),
        ActivityItem::Warning { message: "w".repeat(80) },
        ActivityItem::Failure { message: "bad".to_string(), raw_detail: None },
    ];
    let rows = live_activity_lines(&items, 0, None);
    let texts: Vec<&str> = rows.iter().map(|r| r.text.as_str()).collect();
    let warn = format!("⚠ {}", "w".repeat(70));
    assert_eq!(texts, vec!["● Read(a.rs)", "└  Read 2 lines", "⠋ Bash(make)", warn.as_str(), "✗ bad"]);
    assert_eq!(rows[0].kind, LiveKind::CallSucceeded);
    assert_eq!(rows[2].kind, LiveKind::CallPending);
}

#[test]
fn feed_keeps_the_last_eight_entries() {
    let items: Vec<ActivityItem> = (0..12).map(|i| call(&i.to_string(), "x", "{}")).collect();
    let rows = live_activity_lines(&items, 100, None);
    assert_eq!(rows.len(), 8);
    assert!(rows.iter().all(|r| r.text == "⠙ X"));
}

#[test]
fn failed_results_are_marked() {
    let items = vec![call("9", "edit", "{}"), result("9", "edit", false, "plain failure")];
    let rows = live_activity_lines(&items, 0, None);
    assert_eq!(rows[0].kind, LiveKind::CallFailed);
    assert_eq!(rows[1].text, "└  plain failure");
}
