use rustcode_tui::keys::{ChatFocus, Key, KeyPress};
use rustcode_tui::term_events::{
    frame_delay_micros, map_crossterm_event, mouse_step, KeyKind, MouseInput, MouseKind,
    TermEvent, TuiEvent,
};
use rustcode_tui::watcher::{should_emit, FsEventKind, PendingPaths};

fn plain(key: Key) -> KeyPress {
    KeyPress { key, ctrl: false, alt: false, shift: false }
}

#[test]
fn map_filters_release_events() {
    let release = TermEvent::Key(plain(Key::Char('a')), KeyKind::Release);
    assert!(map_crossterm_event(release).is_none());
}

#[test]
fn map_converts_press_events() {
    let press = TermEvent::Key(plain(Key::Char('a')), KeyKind::Press);
    assert!(matches!(map_crossterm_event(press), Some(TuiEvent::Key(_))));
}

#[test]
fn map_converts_paste() {
    let paste = TermEvent::Paste("hello".to_string());
    assert!(matches!(map_crossterm_event(paste), Some(TuiEvent::Paste(_))));
}

#[test]
fn map_converts_resize_to_draw() {
    let resize = TermEvent::Resize(80, 24);
    assert!(matches!(map_crossterm_event(resize), Some(TuiEvent::Draw)));
}

#[test]
fn map_converts_repeat_events() {
    let repeat = TermEvent::Key(plain(Key::Backspace), KeyKind::Repeat);
    assert!(matches!(map_crossterm_event(repeat), Some(TuiEvent::Key(_))));
}

#[test]
fn map_filters_focus_events() {
    assert!(map_crossterm_event(TermEvent::FocusGained).is_none());
    assert!(map_crossterm_event(TermEvent::FocusLost).is_none());
}

#[test]
fn mapped_events_keep_their_content() {
    match map_crossterm_event(TermEvent::Paste("hello".to_string())) {
        Some(TuiEvent::Paste(t)) => assert_eq!(t, "hello"),
        _ => panic!("expected a paste"),
    }
    let k = KeyPress { key: Key::Char('x'), ctrl: true, alt: false, shift: false };
    match map_crossterm_event(TermEvent::Key(k, KeyKind::Press)) {
        Some(TuiEvent::Key(got)) => assert_eq!(got, k),
        _ => panic!("expected a key"),
    }
    let m = MouseInput { kind: MouseKind::ScrollUp, column: 3, row: 4 };
    match map_crossterm_event(TermEvent::Mouse(m)) {
        Some(TuiEvent::Mouse(got)) => assert_eq!(got, m),
        _ => panic!("expected a mouse event"),
    }
}

#[test]
fn wheel_scrolls_three_rows_within_bounds() {
    let up = MouseInput { kind: MouseKind::ScrollUp, column: 0, row: 0 };
    let down = MouseInput { kind: MouseKind::ScrollDown, column: 0, row: 0 };
    assert_eq!(mouse_step(up, 100, true, ChatFocus::Composer, 0, 10).0, 3);
    assert_eq!(mouse_step(up, 100, true, ChatFocus::Composer, 9, 10).0, 10);
    assert_eq!(mouse_step(up, 100, true, ChatFocus::Composer, 5, 0).0, 0);
    assert_eq!(mouse_step(down, 100, true, ChatFocus::Composer, 20, 10).0, 7);
    assert_eq!(mouse_step(down, 100, true, ChatFocus::Composer, 2, 10).0, 0);
    assert_eq!(mouse_step(down, 100, true, ChatFocus::Composer, 8, 0).0, 5);
}

#[test]
fn click_picks_the_pane_under_the_pointer() {
    let click = |column| MouseInput { kind: MouseKind::Down, column, row: 1 };
    assert_eq!(mouse_step(click(72), 100, false, ChatFocus::Composer, 4, 9), (4, ChatFocus::Activity));
    assert_eq!(mouse_step(click(71), 100, false, ChatFocus::Activity, 4, 9), (4, ChatFocus::Composer));
    assert_eq!(mouse_step(click(90), 100, true, ChatFocus::Composer, 4, 9), (4, ChatFocus::Composer));
}

#[test]
fn frames_are_spaced_by_the_minimum_interval() {
    assert_eq!(frame_delay_micros(0), 8333);
    assert_eq!(frame_delay_micros(8000), 333);
    assert_eq!(frame_delay_micros(8333), 0);
    assert_eq!(frame_delay_micros(50_000), 0);
}

#[test]
fn should_emit_filters_correctly() {
    assert!(should_emit(FsEventKind::Create));
    assert!(should_emit(FsEventKind::Modify));
    assert!(should_emit(FsEventKind::Remove));
    assert!(!should_emit(FsEventKind::Access));
}

#[test]
fn other_watch_events_are_ignored() {
    assert!(!should_emit(FsEventKind::Any));
    assert!(!should_emit(FsEventKind::Other));
}

#[test]
fn pending_paths_hold_each_path_once() {
    let mut p = PendingPaths::new();
    p.insert("a.rs");
    p.insert("b.rs");
    p.insert("a.rs");
    let drained = p.drain();
    assert_eq!(drained, vec!["a.rs".to_string(), "b.rs".to_string()]);
    assert!(p.paths.is_empty());
}

#[test]
fn wheel_on_a_wide_terminal_scrolls() {
    let up = MouseInput { kind: MouseKind::ScrollUp, column: 0, row: 0 };
    assert_eq!(mouse_step(up, 2000, false, ChatFocus::Composer, 0, 10).0, 3);
}
