use rustcode_tui::format::{
    format_age, format_elapsed, format_elapsed_secs, format_tokens, sanitize_output_line,
    truncate_with_ellipsis,
};
use rustcode_tui::failure::{classify_failure, clean_failure_message};
use rustcode_tui::tool_text::{
    extract_filename, extract_key_arg, key_arg_from_fields, extract_tool_output_text, is_editing_tool,
    parse_tool_payload, summarize_tool_result, tilde_path_in_line,
};
use std::time::Duration;

fn json_object(pairs: &[(&str, serde_json::Value)]) -> String {
    let mut m = serde_json::Map::new();
    for (k, v) in pairs {
        m.insert(k.to_string(), v.clone());
    }
    serde_json::Value::Object(m).to_string()
}

fn s(v: &str) -> serde_json::Value {
    serde_json::Value::String(v.to_string())
}

#[test]
fn extract_key_arg_for_apply_patch_prefers_target_file() {
    let args = json_object(&[(
        "patch_text",
        s("*** Begin Patch\n*** Update File: crates/rustcode-memories/src/phase1.rs\n@@\n-old\n+new\n*** End Patch\n"),
    )]);
    let key = extract_key_arg("apply_patch", &args, None);
    assert_eq!(key, "crates/rustcode-memories/src/phase1.rs");
}

#[test]
fn key_arg_picks_path_then_command_then_query() {
    let args = json_object(&[("path", s("src/a.rs")), ("command", s("ls"))]);
    assert_eq!(extract_key_arg("read", &args, None), "src/a.rs");
    let args = json_object(&[("command", s("cargo test"))]);
    assert_eq!(extract_key_arg("bash", &args, None), "cargo test");
    let args = json_object(&[("pattern", s("fn main"))]);
    assert_eq!(extract_key_arg("grep", &args, None), "fn main");
    let args = json_object(&[("content", s("big")), ("name", s("x"))]);
    assert_eq!(extract_key_arg("other", &args, None), "x");
    assert_eq!(extract_key_arg("read", "not json", None), "");
    let args = json_object(&[("patch_text", s("no headers"))]);
    assert_eq!(extract_key_arg("APPLY_PATCH", &args, None), "patch");
}

#[test]
fn key_arg_shortens_long_paths() {
    let long = "a/".repeat(40);
    let args = json_object(&[("path", s(&long))]);
    let key = extract_key_arg("read", &args, None);
    assert_eq!(key.chars().count(), 61);
    assert!(key.ends_with('…'));
    let long_cmd = "x".repeat(70);
    let args = json_object(&[("command", s(&long_cmd))]);
    assert_eq!(extract_key_arg("bash", &args, None), format!("{}…", "x".repeat(55)));
}

#[test]
fn key_arg_replaces_home_in_patch_targets() {
    let args = json_object(&[("patch", s("+++ b//home/me/p.rs\n"))]);
    assert_eq!(extract_key_arg("apply_patch", &args, Some("/home/me")), "~/p.rs");
}

#[test]
fn editing_tools_ignore_case() {
    assert!(is_editing_tool("Write"));
    assert!(is_editing_tool("apply_patch"));
    assert!(is_editing_tool("MULTIEDIT"));
    assert!(!is_editing_tool("read"));
}

#[test]
fn tool_summaries_count_lines() {
    assert_eq!(summarize_tool_result("read", "a\n\nb\n", true, None), "Read 2 lines");
    assert_eq!(summarize_tool_result("Read", "a", true, None), "Read 1 line");
    assert_eq!(summarize_tool_result("glob", "x", true, None), "Found 1 file");
    assert_eq!(summarize_tool_result("grep", "", true, None), "Found 0 matches");
    assert_eq!(summarize_tool_result("bash", "exit_code=2\nboom", false, None), "Command exited 2");
    assert_eq!(summarize_tool_result("bash", "done", true, None), "Command completed");
    assert_eq!(summarize_tool_result("bash", "done", false, None), "Command failed");
    assert_eq!(summarize_tool_result("edit", "\n  \n", false, None), "Update failed");
    assert_eq!(summarize_tool_result("edit", "", true, None), "Update applied");
    assert_eq!(summarize_tool_result("other", "", false, None), "Failed");
    assert_eq!(summarize_tool_result("other", " ", true, None), "Done");
}

#[test]
fn tool_summary_cleans_first_line() {
    assert_eq!(
        summarize_tool_result("write", "\nWrote /home/u/x.rs\u{1b}[0m\n", true, Some("/home/u")),
        "Wrote ~/x.rs"
    );
    let long = "y".repeat(120);
    assert_eq!(summarize_tool_result("other", &long, true, None).chars().count(), 96);
}

#[test]
fn tool_payload_fields() {
    let raw = json_object(&[
        ("ok", serde_json::Value::Bool(true)),
        ("truncated", serde_json::Value::Bool(false)),
        ("output", s("tool output")),
    ]);
    assert_eq!(parse_tool_payload(&raw), Some((true, false, "tool output".to_string())));
    let raw = json_object(&[("ok", serde_json::Value::Bool(false)), ("truncated", s("x"))]);
    assert_eq!(parse_tool_payload(&raw), Some((false, false, String::new())));
    let raw = json_object(&[("ok", serde_json::Value::Bool(true))]);
    assert_eq!(parse_tool_payload(&raw), None);
    assert_eq!(parse_tool_payload("{]"), None);
    assert_eq!(extract_tool_output_text(&json_object(&[("output", s("hi"))])), "hi");
    assert_eq!(extract_tool_output_text("plain"), "plain");
}

#[test]
fn filenames_and_home() {
    assert_eq!(extract_filename("file: /home/u/a.txt", Some("/home/u")), "~/a.txt");
    assert_eq!(extract_filename("wrote to src/main.rs ok", None), "src/main.rs");
    assert_eq!(extract_filename("nothing here", None), "nothing here");
    assert_eq!(tilde_path_in_line("cd /home/u && ls /home/u/x", Some("/home/u")), "cd ~ && ls ~/x");
    assert_eq!(tilde_path_in_line("cd /tmp", None), "cd /tmp");
}

#[test]
fn elapsed_and_token_formats() {
    assert_eq!(format_elapsed_secs(30), "30s");
    assert_eq!(format_elapsed_secs(60), "1m");
    assert_eq!(format_elapsed_secs(72), "1m 12s");
    assert_eq!(format_elapsed(Duration::from_millis(125_900)), "2m 5s");
    assert_eq!(format_tokens(999), "999");
    assert_eq!(format_tokens(1234567), "1,234,567");
    assert_eq!(format_tokens(0), "0");
}

#[test]
fn ages_and_truncation() {
    assert_eq!(format_age(0, 1_000), "now");
    assert_eq!(format_age(0, 42_000), "42s");
    assert_eq!(format_age(10_000, 0), "now");
    assert_eq!(format_age(0, 5 * 60_000), "5m");
    assert_eq!(format_age(0, 3 * 3_600_000), "3h");
    assert_eq!(format_age(0, 2 * 86_400_000), "2d");
    assert_eq!(truncate_with_ellipsis("hello", 10), "hello");
    assert_eq!(truncate_with_ellipsis("hello world", 5), "he…ld");
    assert_eq!(truncate_with_ellipsis("hello", 1), "…");
}

#[test]
fn output_lines_lose_escapes_and_controls() {
    assert_eq!(sanitize_output_line("\u{1b}[31mred\u{1b}[0m\tok\r"), "red\tok");
    assert_eq!(sanitize_output_line("a\u{1b}b"), "ab");
}

#[test]
fn failures_are_classified() {
    assert_eq!(
        clean_failure_message("provider error (x): HTTP 429"),
        "Rate limit or usage quota reached — please wait before retrying"
    );
    assert_eq!(
        clean_failure_message("AuthFailed: bad key"),
        "Authentication failed — connect your provider in /providers (Ctrl+A)"
    );
    assert_eq!(
        clean_failure_message("ContextOverflow"),
        "Context limit exceeded — use /compact or send a shorter message"
    );
    assert_eq!(
        clean_failure_message("Connection refused"),
        "Connection lost — check your network and try again"
    );
    assert_eq!(clean_failure_message("provider error (x): weird body "), "Request failed: weird body");
    assert_eq!(clean_failure_message("plain"), "plain");
    let long = "z".repeat(130);
    assert_eq!(clean_failure_message(&long), format!("{}…", "z".repeat(120)));
    assert_eq!(
        classify_failure("Service Unavailable", "service unavailable"),
        "Provider temporarily unavailable — please try again"
    );
}

#[test]
fn sanitized_output_is_control_free_and_stable() {
    let once = sanitize_output_line("\x1b[31mred\x1b[0m\tok\r");
    assert_eq!(once, "red\tok");
    assert_eq!(sanitize_output_line(&once), once);
    let odd = sanitize_output_line("a\x1bb\x07c\u{85}d\x1b[");
    assert!(odd.chars().all(|c| !c.is_control() || c == '\t'));
    assert_eq!(sanitize_output_line(&odd), odd);
}

#[test]
fn key_argument_from_read_values() {
    let entries = vec![("contents".to_string(), Some("body".to_string())), ("mode".to_string(), Some("fast".to_string()))];
    assert_eq!(key_arg_from_fields("write", &entries, &None, &Some("a.rs".to_string()), &None, &None, None), "a.rs");
    assert_eq!(key_arg_from_fields("bash", &entries, &None, &None, &Some("ls".to_string()), &None, None), "ls");
    assert_eq!(key_arg_from_fields("grep", &entries, &None, &None, &None, &Some("todo".to_string()), None), "todo");
    assert_eq!(key_arg_from_fields("other", &entries, &None, &None, &None, &None, None), "fast");
    assert_eq!(key_arg_from_fields("apply_patch", &entries, &Some("no header".to_string()), &None, &None, &None, None), "patch");
}
