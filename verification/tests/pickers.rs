use rustcode_tui::keys::{Key, KeyPress};
use rustcode_tui::memory::{
    memory_clear_key, memory_clear_notice, memory_switch_notice, memory_toggle_notice,
    memory_viewer_key, memory_viewer_text, ClearStep, MemoryStep,
};
use rustcode_tui::models::{build_model_entries, model_choice};
use rustcode_tui::toast::ToastVariant;

fn kp(key: Key) -> KeyPress {
    KeyPress { key, ctrl: false, alt: false, shift: false }
}

fn strings(v: &[&str]) -> Vec<String> {
    v.iter().map(|s| s.to_string()).collect()
}

#[test]
fn memory_viewer_scrolls_within_its_lines() {
    assert_eq!(memory_viewer_key(kp(Key::Down), 3, 10, true), MemoryStep::Scroll(4));
    assert_eq!(memory_viewer_key(kp(Key::Char('j')), 9, 10, true), MemoryStep::Scroll(9));
    assert_eq!(memory_viewer_key(kp(Key::Up), 0, 10, true), MemoryStep::Scroll(0));
    assert_eq!(memory_viewer_key(kp(Key::Char('k')), 4, 10, true), MemoryStep::Scroll(3));
    assert_eq!(memory_viewer_key(kp(Key::PageDown), 5, 10, true), MemoryStep::Scroll(9));
    assert_eq!(memory_viewer_key(kp(Key::PageDown), 5, 100, true), MemoryStep::Scroll(25));
    assert_eq!(memory_viewer_key(kp(Key::PageUp), 5, 100, true), MemoryStep::Scroll(0));
    assert_eq!(memory_viewer_key(kp(Key::PageUp), 45, 100, true), MemoryStep::Scroll(25));
    assert_eq!(memory_viewer_key(kp(Key::Char('G')), 5, 100, true), MemoryStep::Scroll(99));
    assert_eq!(memory_viewer_key(kp(Key::End), 5, 100, true), MemoryStep::Scroll(99));
    assert_eq!(memory_viewer_key(kp(Key::Char('g')), 5, 100, true), MemoryStep::Scroll(0));
    assert_eq!(memory_viewer_key(kp(Key::Home), 5, 100, true), MemoryStep::Scroll(0));
    assert_eq!(memory_viewer_key(kp(Key::Down), 0, 0, true), MemoryStep::Scroll(0));
    assert_eq!(memory_viewer_key(kp(Key::Char('x')), 7, 100, true), MemoryStep::Scroll(7));
    assert_eq!(memory_viewer_key(kp(Key::Esc), 7, 100, true), MemoryStep::Close);
}

#[test]
fn memory_viewer_toggles_and_says_so() {
    assert_eq!(memory_viewer_key(kp(Key::Char('t')), 2, 10, true), MemoryStep::Toggle(false));
    assert_eq!(memory_viewer_key(kp(Key::Char('t')), 2, 10, false), MemoryStep::Toggle(true));
    let on = memory_toggle_notice(true);
    assert_eq!(on.variant, ToastVariant::Success);
    assert_eq!(on.message, "memory: enabled");
    assert_eq!(on.ttl_ms, 3000);
    let off = memory_toggle_notice(false);
    assert_eq!(off.variant, ToastVariant::Warning);
    assert_eq!(off.message, "memory: disabled");
}

#[test]
fn memory_clear_confirmation_keys_and_notices() {
    assert_eq!(memory_clear_key(kp(Key::Char('y'))), ClearStep::Clear);
    assert_eq!(memory_clear_key(kp(Key::Char('n'))), ClearStep::Close);
    assert_eq!(memory_clear_key(kp(Key::Esc)), ClearStep::Close);
    assert_eq!(memory_clear_key(kp(Key::Char('Y'))), ClearStep::Keep);
    assert_eq!(memory_clear_key(kp(Key::Enter)), ClearStep::Keep);

    let done = memory_clear_notice(&Some(Ok(())));
    assert_eq!(done.variant, ToastVariant::Success);
    assert_eq!(done.message, "all memories cleared");
    assert_eq!(done.ttl_ms, 3000);
    let failed = memory_clear_notice(&Some(Err("disk full".to_string())));
    assert_eq!(failed.variant, ToastVariant::Error);
    assert_eq!(failed.message, "failed to clear memories: disk full");
    assert_eq!(failed.ttl_ms, 4000);
    let missing = memory_clear_notice(&None);
    assert_eq!(missing.variant, ToastVariant::Warning);
    assert_eq!(missing.message, "memory storage unavailable");
}

#[test]
fn model_entries_put_current_provider_then_priority_then_names() {
    let all = strings(&[
        "openai/gpt-4o",
        "zeta/x",
        "groq/llama",
        "openai/gpt-3.5",
        "mistral/large",
        "alpha/a",
    ]);
    let priority = strings(&["openai", "groq", "mistral"]);
    let r = build_model_entries(&all, &Vec::new(), "groq/llama", &priority);
    assert_eq!(
        r,
        strings(&[
            "groq/llama",
            "openai/gpt-3.5",
            "openai/gpt-4o",
            "mistral/large",
            "alpha/a",
            "zeta/x",
        ])
    );
}

#[test]
fn model_entries_keep_connected_providers_only() {
    let all = strings(&["openai/gpt-4o", "groq/llama", "openai/gpt-3.5", "local"]);
    let priority = strings(&["groq"]);
    let connected = strings(&["openai", "local"]);
    let r = build_model_entries(&all, &connected, "GROQ/llama", &priority);
    assert_eq!(r, strings(&["local", "openai/gpt-3.5", "openai/gpt-4o"]));
    let r = build_model_entries(&all, &connected, "OpenAI/gpt-4o", &priority);
    assert_eq!(r, strings(&["openai/gpt-3.5", "openai/gpt-4o", "local"]));
}

#[test]
fn model_choice_names_model_provider_and_notice() {
    let entries = strings(&["openai/gpt-4o", "plain"]);
    let view = vec![1, 0];
    let c = model_choice(&entries, &view, 1).expect("a model");
    assert_eq!(c.model, "openai/gpt-4o");
    assert_eq!(c.provider.as_deref(), Some("openai"));
    assert_eq!(c.notice, "model: openai/gpt-4o");
    let c = model_choice(&entries, &view, 0).expect("a model");
    assert_eq!(c.model, "plain");
    assert_eq!(c.provider, None);
    assert!(model_choice(&entries, &view, 2).is_none());
    assert!(model_choice(&entries, &vec![5], 0).is_none());
}

#[test]
fn memory_switches_and_viewer_text() {
    let n = memory_switch_notice(true, &Some(Ok(())));
    assert_eq!((n.variant, n.message.as_str(), n.ttl_ms), (ToastVariant::Success, "memory: enabled", 3000));
    let n = memory_switch_notice(false, &Some(Ok(())));
    assert_eq!((n.variant, n.message.as_str()), (ToastVariant::Warning, "memory: disabled"));
    let n = memory_switch_notice(true, &Some(Err("locked".to_string())));
    assert_eq!((n.variant, n.message.as_str(), n.ttl_ms), (ToastVariant::Error, "failed: locked", 4000));
    let n = memory_switch_notice(false, &None);
    assert_eq!(n.message, "memory storage unavailable");

    let (text, lines) = memory_viewer_text(None);
    assert_eq!((text.as_str(), lines), ("Memory storage unavailable (HOME not set).", 1));
    let (text, lines) = memory_viewer_text(Some(None));
    assert_eq!(text, "No memory summary yet.\n\nComplete a session to start building memories.");
    assert_eq!(lines, 3);
    let (text, lines) = memory_viewer_text(Some(Some("a\nb\nc\n".to_string())));
    assert_eq!((text.as_str(), lines), ("a\nb\nc\n", 3));
}
