use std::collections::VecDeque;
use std::time::Duration;

use rustcode_tui::activity::ActivityItem;
use rustcode_tui::chat_title::{composer_title, git_title, transcript_title};
use rustcode_tui::diff::GitStat;
use rustcode_tui::markdown::{StyledSpan, Tone};
use rustcode_tui::palette::{build_command_items, compute_palette_view, palette_rows};
use rustcode_tui::transcript_tail::{done_line, failure_line, run_failure_line, thinking_line};

fn texts(spans: &[StyledSpan]) -> Vec<String> {
    spans.iter().map(|s| s.text.clone()).collect()
}

#[test]
fn palette_rows_show_title_gap_and_detail() {
    let items = build_command_items(false, false, false);
    let view = compute_palette_view(&items, "");
    let (rows, highlight) = palette_rows(&items, &view, 1000);
    assert_eq!(rows.len(), view.len());
    let first = &items[view[0]];
    assert_eq!(texts(&rows[0].spans), vec![first.title.clone(), "  ".to_string(), first.detail.clone()]);
    assert!(rows[0].spans[0].style.bold);
    assert!(rows[0].spans[2].style.dim);
    assert_eq!(highlight, Some(view.len() - 1));
}

#[test]
fn palette_rows_for_an_empty_view_say_no_matches() {
    let items = build_command_items(false, false, false);
    let (rows, highlight) = palette_rows(&items, &Vec::new(), 3);
    assert_eq!(rows.len(), 1);
    assert_eq!(texts(&rows[0].spans), vec!["(no matches)".to_string()]);
    assert_eq!(highlight, None);
}

#[test]
fn palette_rows_skip_indices_past_the_entries() {
    let items = build_command_items(false, false, false);
    let view = vec![0, items.len() + 5, 1];
    let (rows, highlight) = palette_rows(&items, &view, 1);
    assert_eq!(rows.len(), 2);
    assert_eq!(rows[1].spans[0].text, items[1].title);
    assert_eq!(highlight, Some(1));
}

#[test]
fn composer_title_names_model_provider_and_length() {
    let spans = composer_title("", "openai/gpt-4o", Some("OpenAI"), "hey", 80);
    assert_eq!(
        texts(&spans),
        vec!["</>", "  ", "[model:openai/gpt-4o]", "  ", "[OpenAI]", "  ", "[3c]"]
    );
    assert_eq!(spans[2].style.fg, Tone::Success);
    assert_eq!(spans[4].style.fg, Tone::Info);
    assert!(spans[6].style.dim);
}

#[test]
fn composer_title_on_a_narrow_terminal_drops_the_provider() {
    let spans = composer_title("a-very-long-model-name-indeed", "x", Some("OpenAI"), "", 20);
    assert_eq!(texts(&spans), vec!["</>", "  ", "[model:a-very-…e-indeed]"]);
}

#[test]
fn transcript_title_counts_tokens_and_shows_find() {
    let (head, tail) = transcript_title(12345, 2000, Some(("foo", 0, 3)));
    assert_eq!(texts(&head), vec!["RustCode", "  ", "12,345 tokens"]);
    assert_eq!(head[2].style.fg, Tone::Tokens);
    assert_eq!(texts(&tail), vec!["  ", "2,000 cached", "  ", "find: foo (1/3)"]);
    let (head, tail) = transcript_title(0, 0, Some(("  ", 0, 0)));
    assert_eq!(texts(&head), vec!["RustCode"]);
    assert!(tail.is_empty());
}

#[test]
fn thinking_line_turns_every_150_ms() {
    assert_eq!(thinking_line(0, true), "◐ thinking…");
    assert_eq!(thinking_line(150, false), "◓ thinking… [ctrl+o to show]");
    assert_eq!(thinking_line(450, true), "◒ thinking…");
    assert_eq!(thinking_line(600, true), "◐ thinking…");
}

#[test]
fn done_line_gives_the_run_time() {
    assert_eq!(done_line(Duration::from_secs(75)), "* done in 1m 15s");
    assert_eq!(done_line(Duration::from_millis(4200)), "* done in 4s");
}

#[test]
fn failure_line_cleans_and_caps_the_message() {
    assert_eq!(failure_line("\x1b[31mboom\x1b[0m"), Some("✗ boom".to_string()));
    assert_eq!(failure_line("  \x07 "), None);
    let long = "x".repeat(300);
    assert_eq!(failure_line(&long).unwrap().chars().count(), 202);
}

#[test]
fn run_failure_line_uses_the_newest_failure_once_idle() {
    let mut items = VecDeque::new();
    items.push_back(ActivityItem::Failure { message: "first".to_string(), raw_detail: None });
    items.push_back(ActivityItem::Failure { message: "second".to_string(), raw_detail: None });
    items.push_back(ActivityItem::Completed);
    assert_eq!(run_failure_line(false, &items), Some("✗ second".to_string()));
    assert_eq!(run_failure_line(true, &items), None);
    assert_eq!(run_failure_line(false, &VecDeque::new()), None);
}

#[test]
fn git_title_lists_files_and_changed_lines() {
    let spans = git_title(&GitStat { files: 3, insertions: 10, deletions: 0 });
    assert_eq!(texts(&spans), vec!["3 files", " ", "+10", " "]);
    assert_eq!(spans[2].style.fg, Tone::Success);
    let spans = git_title(&GitStat { files: 1, insertions: 2, deletions: 7 });
    assert_eq!(texts(&spans), vec!["1 files", " ", "+2", " ", "-7", " "]);
    assert_eq!(spans[4].style.fg, Tone::Error);
    assert!(git_title(&GitStat { files: 0, insertions: 5, deletions: 5 }).is_empty());
}
