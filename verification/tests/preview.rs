use rustcode_tui::approval::ToolApprovalRequest;
use rustcode_tui::preview::{
    approval_preview, command_preview, edit_preview, find_text_start_line, multiedit_preview,
    patch_preview, preview_files_needed, write_preview, PreviewKind, PreviewRow,
};

fn json_object(pairs: Vec<(&str, serde_json::Value)>) -> String {
    let mut m = serde_json::Map::new();
    for (k, v) in pairs {
        m.insert(k.to_string(), v);
    }
    serde_json::Value::Object(m).to_string()
}

fn s(v: &str) -> serde_json::Value {
    serde_json::Value::String(v.to_string())
}

fn req(tool: &str, permission: &str, pattern: &str, arguments: String) -> ToolApprovalRequest {
    ToolApprovalRequest {
        tool: tool.to_string(),
        permission: permission.to_string(),
        pattern: pattern.to_string(),
        arguments,
        reason: String::new(),
    }
}

fn rows_to_text(rows: &[PreviewRow]) -> String {
    let mut out = String::new();
    for r in rows {
        out.push_str(&r.text);
        out.push('\n');
    }
    out
}

fn texts(rows: &[PreviewRow]) -> Vec<&str> {
    rows.iter().map(|r| r.text.as_str()).collect()
}

#[test]
fn approval_preview_shows_apply_patch_diff_lines() {
    let r = req(
        "apply_patch",
        "write",
        "src/main.rs",
        json_object(vec![("patch_text", s("--- a/src/main.rs\n+++ b/src/main.rs\n@@ -1,2 +1,2 @@\n-old\n+new\n"))]),
    );
    let rows = approval_preview(&r, 120, None, &Vec::new()).expect("preview");
    let text = rows_to_text(&rows);
    // @@ hunk header is shown as "… line N" separator
    assert!(text.contains("… line"), "expected separator in text={text}");
    // same style as write/edit: "  NNN - code" and "  NNN + code"
    assert!(text.contains("- old"), "text={text}");
    assert!(text.contains("+ new"), "text={text}");
    assert!(text.contains("src/main.rs"), "text={text}");
}

#[test]
fn approval_preview_shows_multiedit_blocks() {
    let mut edit = serde_json::Map::new();
    edit.insert("old_string".to_string(), s("foo"));
    edit.insert("new_string".to_string(), s("bar"));
    edit.insert("replace_all".to_string(), serde_json::Value::Bool(false));
    let args = json_object(vec![
        ("path", s("src/lib.rs")),
        ("edits", serde_json::Value::Array(vec![serde_json::Value::Object(edit)])),
    ]);
    let r = req("multiedit", "write", "src/lib.rs", args);
    let rows = approval_preview(&r, 120, None, &Vec::new()).expect("preview");
    let text = rows_to_text(&rows);
    assert!(text.contains("edit #1"), "text={text}");
    assert!(text.contains("- foo"), "text={text}");
    assert!(text.contains("+ bar"), "text={text}");
}

#[test]
fn patch_rows_are_numbered_from_the_hunk() {
    let patch = "--- a/src/main.rs\n+++ b/src/main.rs\n@@ -10,3 +12,3 @@\n ctx\n-old\n+new\n\\ No newline at end of file\n";
    let rows = patch_preview(patch, &Vec::new()).unwrap();
    assert_eq!(
        texts(&rows),
        vec!["  file: src/main.rs", "     … line 12", "   12   ctx", "   11 - old", "   13 + new"]
    );
    assert_eq!(rows[0].kind, PreviewKind::Header);
    assert_eq!(rows[3].kind, PreviewKind::Removed);
    assert_eq!(rows[4].kind, PreviewKind::Added);
    assert!(patch_preview("  \n ", &Vec::new()).unwrap().is_empty());
}

#[test]
fn codex_hunks_are_found_in_the_file() {
    let patch = "*** Begin Patch\n*** Update File: src/lib.rs\n@@\n fn helper() {\n-    old();\n+    new();\n*** End Patch\n";
    let file = "use x;\n\nfn helper() {\n    old();\n}\n".to_string();
    let files = vec![("src/lib.rs".to_string(), file)];
    let rows = patch_preview(patch, &files).unwrap();
    assert_eq!(
        texts(&rows),
        vec!["  file: src/lib.rs", "     … line 3", "    3   fn helper() {", "    4 -     old();", "    4 +     new();"]
    );
    let unread = patch_preview(patch, &Vec::new()).unwrap();
    assert_eq!(texts(&unread)[1], "    1   fn helper() {");
}

#[test]
fn long_patches_are_cut_after_120_rows() {
    let mut patch = String::from("+++ b/a.txt\n");
    for i in 0..200 {
        patch.push_str(&format!("+line {i}\n"));
    }
    let rows = patch_preview(&patch, &Vec::new()).unwrap();
    assert_eq!(rows.len(), 121);
    assert_eq!(rows[120].text, "     … 81 more patch lines");
}

#[test]
fn huge_line_numbers_are_refused() {
    let patch = format!("@@ -1 +{} @@\n+a\n+b\n", usize::MAX);
    assert!(patch_preview(&patch, &Vec::new()).is_none());
    let patch = format!("@@ -1 +{} @@\n+a\n", usize::MAX);
    assert!(patch_preview(&patch, &Vec::new()).is_some());
}

#[test]
fn write_preview_numbers_and_cuts() {
    let rows = write_preview("~/new.rs", "a\nb\n", 120);
    assert_eq!(texts(&rows), vec!["  new file: ~/new.rs  (+2)", "    1 + a", "    2 + b"]);
    let long: String = (0..35).map(|i| format!("l{i}\n")).collect();
    let rows = write_preview("x", &long, 120);
    assert_eq!(rows.len(), 32);
    assert_eq!(rows[31].text, "     … 5 more lines");
    let rows = write_preview("x", "abcdef", 3);
    assert_eq!(rows[1].text, "    1 + abc…");
}

#[test]
fn command_preview_cuts_at_80() {
    assert_eq!(texts(&command_preview("ls -la")), vec!["  $ ls -la"]);
    assert!(command_preview("").is_empty());
    let long = "x".repeat(100);
    assert_eq!(command_preview(&long)[0].text.chars().count(), 84);
}

#[test]
fn multiedit_preview_limits() {
    let edits: Vec<(String, String, bool)> = (0..8)
        .map(|i| (format!("o{i}"), format!("n{i}"), i == 0))
        .collect();
    let rows = multiedit_preview("f.rs", &edits, 120);
    assert_eq!(rows[0].text, "  file: f.rs");
    assert_eq!(rows[1].text, "  edit #1 (replace_all)");
    assert_eq!(rows[2].text, "  - o0");
    assert_eq!(rows[3].text, "  + n0");
    assert_eq!(rows.last().unwrap().text, "     … 2 more edit blocks");
    let big = vec![("1\n2\n3\n4\n5\n6\n7\n8".to_string(), String::new(), false)];
    let rows = multiedit_preview("f", &big, 120);
    assert_eq!(rows[8].text, "     … 2 more removed lines");
}

#[test]
fn edit_preview_shows_context_and_changes() {
    let old = "a\nb\nc\nd\ne\nf";
    let new = "a\nb\nc\nX\ne\nf";
    let rows = edit_preview(old, new, 10, 120);
    assert_eq!(
        texts(&rows),
        vec![
            "     … 1 unchanged lines above",
            "   11   b",
            "   12   c",
            "   13 - d",
            "   13 + X",
            "   14   e",
            "   15   f",
        ]
    );
}

#[test]
fn edit_start_line_is_found() {
    let file = "one\ntwo\nthree\nfour\n";
    assert_eq!(find_text_start_line(Some(file), "three\nfour"), 3);
    assert_eq!(find_text_start_line(Some(file), ""), 1);
    assert_eq!(find_text_start_line(None, "two"), 1);
    let file = "fn a() {}\n    let value = 1;\n";
    assert_eq!(find_text_start_line(Some(file), "}\nlet value = 1;\nzzz"), 1);
    assert_eq!(find_text_start_line(Some("x\ny\nlet value = 1;"), "{\nlet value = 1;"), 2);
}

#[test]
fn edit_requests_read_the_named_file() {
    let args = json_object(vec![("path", s("a.txt")), ("old_string", s("two")), ("new_string", s("2"))]);
    let r = req("edit", "Edit", "a.txt", args);
    assert_eq!(preview_files_needed(&r), vec!["a.txt".to_string()]);
    let files = vec![("a.txt".to_string(), "one\ntwo\n".to_string())];
    let rows = approval_preview(&r, 120, None, &files).unwrap();
    assert_eq!(texts(&rows), vec!["    2 - two", "    2 + 2"]);
}

#[test]
fn write_and_command_requests() {
    let args = json_object(vec![("path", s("/home/u/n.txt")), ("content", s("hi"))]);
    let rows = approval_preview(&req("write", "write", "", args), 120, Some("/home/u"), &Vec::new()).unwrap();
    assert_eq!(texts(&rows), vec!["  new file: ~/n.txt  (+1)", "    1 + hi"]);
    let args = json_object(vec![("cmd", s("make"))]);
    let rows = approval_preview(&req("bash", "bash", "", args), 120, None, &Vec::new()).unwrap();
    assert_eq!(texts(&rows), vec!["  $ make"]);
    assert_eq!(rows[0].kind, PreviewKind::Command);
}

#[test]
fn patch_requests_name_their_files() {
    let args = json_object(vec![(
        "patch",
        s("*** Begin Patch\n*** Update File: a.rs\n@@\n*** Add File: b.rs\n```\n+++ b/c.rs\n"),
    )]);
    let r = req("APPLY_PATCH", "write", "", args);
    assert_eq!(preview_files_needed(&r), vec!["a.rs".to_string(), "b.rs".to_string(), "c.rs".to_string()]);
    let none = req("bash", "exec", "", json_object(vec![("command", s("ls"))]));
    assert!(preview_files_needed(&none).is_empty());
}
