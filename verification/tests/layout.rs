use rustcode_tui::files::{scan_continues, skip_entry, sort_paths};
use rustcode_tui::layout::{centered_rect, slash_popup_rect};
use rustcode_tui::screen_diff::Rect;

fn rect(x: u16, y: u16, width: u16, height: u16) -> Rect {
    Rect { x, y, width, height }
}

#[test]
fn centered_rect_takes_its_share_and_centres_it() {
    assert_eq!(centered_rect(60, 50, rect(0, 0, 100, 40)), rect(20, 10, 60, 20));
    assert_eq!(centered_rect(60, 50, rect(10, 2, 100, 40)), rect(30, 12, 60, 20));
}

#[test]
fn centered_rect_keeps_a_usable_minimum_inside_small_screens() {
    assert_eq!(centered_rect(60, 50, rect(5, 5, 10, 3)), rect(5, 5, 10, 3));
    assert_eq!(centered_rect(10, 10, rect(0, 0, 100, 40)), rect(40, 17, 20, 5));
    assert_eq!(centered_rect(200, 200, rect(0, 0, 30, 8)), rect(0, 0, 30, 8));
    assert_eq!(centered_rect(50, 50, rect(0, 0, 0, 0)), rect(0, 0, 0, 0));
}

#[test]
fn slash_popup_sits_above_the_composer() {
    assert_eq!(slash_popup_rect(rect(0, 0, 80, 24), 3), rect(1, 11, 40, 5));
    assert_eq!(slash_popup_rect(rect(0, 0, 80, 24), 50), rect(1, 4, 40, 12));
    assert_eq!(slash_popup_rect(rect(0, 0, 80, 24), 0), rect(1, 13, 40, 3));
    assert_eq!(slash_popup_rect(rect(0, 0, 30, 6), 5), rect(1, 0, 20, 4));
}

#[test]
fn workspace_scan_skips_hidden_and_noise_directories() {
    assert!(skip_entry(".git", true));
    assert!(skip_entry(".hidden", true));
    assert!(skip_entry("node_modules", true));
    assert!(skip_entry("target", true));
    assert!(!skip_entry("src", true));
    assert!(!skip_entry(".rustcode.md", true));
    assert!(!skip_entry(".env", false));
    assert!(!skip_entry("target", false));
    assert!(scan_continues(8, 1999));
    assert!(!scan_continues(9, 0));
    assert!(!scan_continues(0, 2000));
}

#[test]
fn scanned_paths_come_back_in_string_order() {
    let paths: Vec<String> = ["src/b.rs", "README.md", "src/a.rs", "Cargo.toml", "src", "src/a.rs"]
        .iter()
        .map(|s| s.to_string())
        .collect();
    let mut expected = paths.clone();
    expected.sort_unstable();
    assert_eq!(sort_paths(&paths), expected);
    assert_eq!(sort_paths(&Vec::new()), Vec::<String>::new());
}
