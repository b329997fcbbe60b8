use rustcode_tui::filters::{compute_find_matches, filter_files, filter_models, filter_pairs};

#[test]
fn filter_files_empty_query_returns_first_200() {
    let entries: Vec<String> = (0..300).map(|i| format!("file_{i}.rs")).collect();
    let result = filter_files(&entries, "");
    assert_eq!(result.len(), 200);
    assert_eq!(result[0], 0);
}

#[test]
fn filter_files_matches_substring() {
    let entries = vec![
        "src/main.rs".to_string(),
        "src/lib.rs".to_string(),
        "README.md".to_string(),
    ];
    let result = filter_files(&entries, "lib");
    assert_eq!(result, vec![1]);
}

#[test]
fn filter_files_case_insensitive() {
    let entries = vec!["Cargo.toml".to_string(), "cargo.lock".to_string()];
    let result = filter_files(&entries, "CARGO");
    assert_eq!(result.len(), 2);
}

#[test]
fn filter_files_caps_matches_at_200_and_trims_query() {
    let entries: Vec<String> = (0..250).map(|i| format!("dir/x{i}.rs")).collect();
    let result = filter_files(&entries, "  X  ");
    assert_eq!(result.len(), 200);
    assert_eq!(result[199], 199);
}

#[test]
fn filter_models_blank_query_keeps_all() {
    let entries = vec!["acme/fast-1".to_string(), "vendor/big-model".to_string()];
    assert_eq!(filter_models(&entries, "   "), vec![0, 1]);
    assert_eq!(filter_models(&entries, "BIG"), vec![1]);
    assert_eq!(filter_models(&entries, "zzz"), Vec::<usize>::new());
}

#[test]
fn find_matches_are_case_insensitive_and_empty_for_blank_query() {
    let lines = vec!["Hello world".to_string(), "nothing".to_string(), "WORLD peace".to_string()];
    assert_eq!(compute_find_matches(&lines, "world"), vec![0, 2]);
    assert!(compute_find_matches(&lines, "  ").is_empty());
}

#[test]
fn filter_pairs_joins_with_tab() {
    let items = vec![
        ("Help".to_string(), "Show keybindings".to_string()),
        ("Quit".to_string(), "Exit the app".to_string()),
    ];
    assert_eq!(filter_pairs(&items, "exit"), vec![1]);
    assert_eq!(filter_pairs(&items, "help\tshow"), vec![0]);
    assert_eq!(filter_pairs(&items, ""), vec![0, 1]);
}
