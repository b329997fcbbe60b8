use rustcode_tui::diff::{
    extract_patch_target, file_ext, find_codex_hunk_offset, is_stat_line, parse_exit_code,
    parse_git_shortstat, parse_hunk_header, parse_unified_hunk_starts,
    patch_file_path_from_header, GitStat,
};

#[test]
fn extract_patch_target_supports_unified_and_codex_headers() {
    let unified = "--- a/src/main.rs\n+++ b/src/main.rs\n@@ -1 +1 @@\n-old\n+new\n";
    let codex = "*** Begin Patch\n*** Update File: src/lib.rs\n@@\n-old\n+new\n*** End Patch\n";
    assert_eq!(extract_patch_target(unified), Some("src/main.rs".to_string()));
    assert_eq!(extract_patch_target(codex), Some("src/lib.rs".to_string()));
}

#[test]
fn parse_hunk_header_extracts_old_and_new_starts() {
    let parsed = parse_hunk_header("@@ -284,7 +284,6 @@").expect("hunk should parse");
    assert_eq!(parsed, (283, 283));
}

#[test]
fn hunk_headers_edge_cases() {
    assert_eq!(parse_hunk_header("@@ -0,0 +0,0 @@"), None);
    assert_eq!(parse_hunk_header("@@ -1 +10,2 @@"), Some((9, 0)));
    assert_eq!(parse_unified_hunk_starts("@@ -10,5 +12,7 @@"), Some((10, 12)));
    assert_eq!(parse_unified_hunk_starts("@@ -x +1 @@"), None);
    assert_eq!(parse_unified_hunk_starts("@@"), None);
}

#[test]
fn patch_targets_skip_dev_null() {
    assert_eq!(extract_patch_target("+++ /dev/null\n*** Add File: new.rs\n"), Some("new.rs".to_string()));
    assert_eq!(extract_patch_target("no headers here"), None);
    assert_eq!(patch_file_path_from_header("+++ b/x.rs"), Some("x.rs".to_string()));
    assert_eq!(patch_file_path_from_header("+++ /dev/null"), None);
    assert_eq!(patch_file_path_from_header("--- a/x.rs"), None);
}

#[test]
fn stat_lines() {
    assert!(is_stat_line("+22 -18"));
    assert!(is_stat_line("  +1  "));
    assert!(!is_stat_line("result = a - 5"));
    assert!(!is_stat_line(""));
    assert!(!is_stat_line("+1 +2 +3 +4 +5"));
}

#[test]
fn exit_codes() {
    assert_eq!(parse_exit_code("exit_code=0\nok"), Some(0));
    assert_eq!(parse_exit_code("exit_code= -2 \n"), Some(-2));
    assert_eq!(parse_exit_code("exit_code=-2147483648"), Some(i32::MIN));
    assert_eq!(parse_exit_code("exit_code=2147483648"), None);
    assert_eq!(parse_exit_code("output\nexit_code=1"), None);
}

#[test]
fn shortstat_lines() {
    assert_eq!(
        parse_git_shortstat("15 files changed, 406 insertions(+), 269 deletions(-)"),
        Some(GitStat { files: 15, insertions: 406, deletions: 269 })
    );
    assert_eq!(
        parse_git_shortstat("1 file changed, 1 insertion(+)"),
        Some(GitStat { files: 1, insertions: 1, deletions: 0 })
    );
    assert_eq!(parse_git_shortstat(""), None);
    assert_eq!(parse_git_shortstat("nothing"), None);
}

#[test]
fn file_extensions() {
    assert_eq!(file_ext("src/main.rs"), "rs");
    assert_eq!(file_ext("Makefile"), "");
    assert_eq!(file_ext(".bashrc"), "");
}

#[test]
fn codex_hunk_offsets() {
    let patch: Vec<String> = ["*** Update File: a.rs", "@@", " fn main() {", "-    old();", "+    new();", "*** End Patch"]
        .iter()
        .map(|s| s.to_string())
        .collect();
    let file = "// header\n\nfn main() {\n    old();\n}\n";
    assert_eq!(find_codex_hunk_offset(&patch, 2, file), Some(2));
    assert_eq!(find_codex_hunk_offset(&patch, 2, "nothing"), None);
    assert_eq!(find_codex_hunk_offset(&patch, 5, file), None);
}
