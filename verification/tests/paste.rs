use rustcode_tui::composer::Composer;
use rustcode_tui::paste::{
    common_prefix_len, common_suffix_len, composer_paste, consume_large_paste_summary_with_backspace,
    consume_large_paste_summary_with_delete, large_paste_summary_span,
};

#[test]
fn backspace_removes_large_paste_summary_in_one_keypress() {
    let mut composer = "prefix [sss +93330 words pasted]".to_string();
    let mut cursor = composer.len();
    let mut paste_buffer = Some("prefix this is a very large pasted message".to_string());

    let consumed =
        consume_large_paste_summary_with_backspace(&mut composer, &mut cursor, &mut paste_buffer);

    assert!(consumed);
    assert_eq!(composer, "prefix ");
    assert_eq!(cursor, "prefix ".len());
    assert!(paste_buffer.is_none());
}

#[test]
fn delete_at_summary_start_removes_it() {
    let mut composer = "ab[x +3 words pasted]cd".to_string();
    let mut cursor = 2;
    let mut paste_buffer = Some("abone two three fourcd".to_string());
    assert!(consume_large_paste_summary_with_delete(&mut composer, &mut cursor, &mut paste_buffer));
    assert_eq!(composer, "abcd");
    assert_eq!(cursor, 2);
    assert!(paste_buffer.is_none());
}

#[test]
fn backspace_outside_summary_is_not_consumed() {
    let mut composer = "ab[x +3 words pasted]cd".to_string();
    let mut cursor = 1;
    let mut paste_buffer = Some("abone two three fourcd".to_string());
    assert!(!consume_large_paste_summary_with_backspace(&mut composer, &mut cursor, &mut paste_buffer));
    assert_eq!(composer, "ab[x +3 words pasted]cd");
    assert_eq!(cursor, 1);
    assert!(paste_buffer.is_some());
}

#[test]
fn no_buffer_no_consume() {
    let mut composer = "hello".to_string();
    let mut cursor = 5;
    let mut paste_buffer: Option<String> = None;
    assert!(!consume_large_paste_summary_with_backspace(&mut composer, &mut cursor, &mut paste_buffer));
    assert_eq!(composer, "hello");
}

#[test]
fn prefix_and_suffix_lengths_count_bytes() {
    assert_eq!(common_prefix_len("héllo", "hélp"), "hél".len());
    assert_eq!(common_suffix_len("xxabc", "yyabc", 2), 3);
    assert_eq!(large_paste_summary_span("a[s]b", "axyzb"), Some((1, 4)));
    assert_eq!(large_paste_summary_span("same", "same"), None);
}

fn words(n: usize) -> String {
    (0..n).map(|i| format!("w{i}")).collect::<Vec<_>>().join(" ")
}

#[test]
fn large_paste_shows_summary_and_backspace_undoes_it() {
    let mut c = Composer { text: "before after".to_string(), cursor: 7, cleared_by_interrupt: false };
    let mut buffer = None;
    let text = words(40);
    composer_paste(&mut c, &mut buffer, &text);
    assert_eq!(c.text, "before [w0 w1 +38 words pasted]after");
    assert_eq!(c.cursor, "before [w0 w1 +38 words pasted]".len());
    assert_eq!(buffer.as_deref(), Some(format!("before {text}after").as_str()));
    let mut text_now = c.text.clone();
    let mut cursor_now = c.cursor;
    assert!(consume_large_paste_summary_with_backspace(&mut text_now, &mut cursor_now, &mut buffer));
    assert_eq!(text_now, "before after");
    assert_eq!(cursor_now, 7);
}

#[test]
fn small_paste_is_inserted_with_normalized_newlines() {
    let mut c = Composer { text: "ab".to_string(), cursor: 1, cleared_by_interrupt: true };
    let mut buffer = Some("old".to_string());
    composer_paste(&mut c, &mut buffer, "x\r\ny\rz");
    assert_eq!(c.text, "ax\ny\nzb");
    assert_eq!(c.cursor, 6);
    assert!(buffer.is_none());
    assert!(!c.cleared_by_interrupt);
}
