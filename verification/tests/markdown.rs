use rustcode_tui::markdown::{
    leading_spaces, parse_inline, render_markdown, try_numbered_list, MdLine,
    StyledSpan, Tone,
};

fn spans(line: &MdLine) -> &Vec<StyledSpan> {
    match line {
        MdLine::Spans(v) => v,
        MdLine::Code { .. } => panic!("expected a line of spans"),
    }
}

#[test]
fn renders_plain_text() {
    let lines = render_markdown("hello world");
    assert_eq!(lines.len(), 1);
}

#[test]
fn renders_heading() {
    let lines = render_markdown("# Hello");
    assert_eq!(lines.len(), 1);
    let first = spans(&lines[0]);
    assert!(first.iter().any(|span| span.text == "Hello"));
    assert!(!first.iter().any(|span| span.text == "# "));
}

#[test]
fn renders_code_block() {
    let lines = render_markdown("```rust\nlet x = 1;\n```");
    // fence-open + code line + fence-close = 3 lines
    assert_eq!(lines.len(), 3);
}

#[test]
fn renders_bullet_list() {
    let lines = render_markdown("- item one\n- item two");
    assert_eq!(lines.len(), 2);
    assert!(spans(&lines[0])[1].text == "• ");
}

#[test]
fn renders_blank_line() {
    let lines = render_markdown("a\n\nb");
    assert_eq!(lines.len(), 3);
}

#[test]
fn parse_inline_bold() {
    let spans = parse_inline("hello **world** end");
    assert!(spans.len() >= 3);
}

#[test]
fn parse_inline_code() {
    let spans = parse_inline("use `cargo test`");
    assert!(spans.iter().any(|s| s.style.fg == Tone::TextDim));
}

#[test]
fn numbered_list() {
    let lines = render_markdown("1. first\n2. second");
    assert_eq!(lines.len(), 2);
}

#[test]
fn inline_markup_splits_into_styled_runs() {
    let spans = parse_inline("a **b** _c_ `d`");
    let texts: Vec<&str> = spans.iter().map(|s| s.text.as_str()).collect();
    assert_eq!(texts, vec!["a ", "b", " ", "c", " ", "d"]);
    assert!(spans[1].style.bold);
    assert!(spans[3].style.italic);
    assert_eq!(spans[5].style.fg, Tone::TextDim);
    assert!(!spans[0].style.bold && !spans[0].style.italic);
}

#[test]
fn unclosed_markers_stay_literal() {
    let spans = parse_inline("2 * 3 and `open");
    let all: String = spans.iter().map(|s| s.text.as_str()).collect();
    assert_eq!(all, "2 * 3 and `open");
}

#[test]
fn bold_base_makes_plain_text_bold() {
    let spans = rustcode_tui::markdown::parse_inline_bold("title");
    assert_eq!(spans.len(), 1);
    assert!(spans[0].style.bold);
}

#[test]
fn heading_levels_are_accented() {
    let lines = render_markdown("## Two\n### Three");
    assert_eq!(lines.len(), 2);
    assert!(spans(&lines[0]).iter().all(|s| s.style.fg == Tone::Accent && s.style.bold));
    assert!(spans(&lines[1]).iter().all(|s| s.style.fg == Tone::Accent && s.style.dim));
}

#[test]
fn rules_cap_at_eighty_cells() {
    let long = "-".repeat(100);
    let lines = render_markdown(&long);
    assert_eq!(lines.len(), 1);
    assert_eq!(spans(&lines[0])[0].text.chars().count(), 80);
    let short = render_markdown("===");
    assert_eq!(spans(&short[0])[0].text, "───");
}

#[test]
fn code_lines_keep_their_language() {
    let lines = render_markdown("```py\nprint(1)\n```");
    match &lines[1] {
        MdLine::Code { lang, text } => {
            assert_eq!(lang, "py");
            assert_eq!(text, "print(1)");
        }
        MdLine::Spans(_) => panic!("expected a code line"),
    }
    let label = spans(&lines[0]);
    assert_eq!(label[1].text, "py");
}

#[test]
fn unterminated_code_block_is_closed() {
    let lines = render_markdown("```\nx");
    assert_eq!(lines.len(), 3);
    assert_eq!(spans(&lines[0])[1].text, "code");
    assert_eq!(spans(&lines[2])[0].text.chars().count(), 40);
}

#[test]
fn numbered_items_keep_number_and_indent() {
    let lines = render_markdown("  12. twelve");
    let s = spans(&lines[0]);
    assert_eq!(s[0].text, "  ");
    assert_eq!(s[1].text, "12. ");
    assert_eq!(s[2].text, "twelve");
}

#[test]
fn numbered_list_parser_edges() {
    assert_eq!(try_numbered_list("3. go"), Some((3, "go".to_string())));
    assert_eq!(try_numbered_list("3.go"), None);
    assert_eq!(try_numbered_list("a. go"), None);
    assert_eq!(try_numbered_list(". go"), None);
}

#[test]
fn leading_spaces_counts_indent() {
    assert_eq!(leading_spaces("   x y"), (3, "x y".to_string()));
    assert_eq!(leading_spaces("x"), (0, "x".to_string()));
}
