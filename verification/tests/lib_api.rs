use rustcode_tui::{
    new_draft_session,
    is_draft_session_id, new_draft_session_id, ui_run, ui_step, TuiError, UiInput, UiSummary,
};

#[test]
fn draft_ids() {
    assert!(is_draft_session_id("draft-123"));
    assert!(!is_draft_session_id("s-123"));
    assert!(!is_draft_session_id("draft"));
    assert_eq!(new_draft_session_id(1700000000000), "draft-1700000000000");
    assert_eq!(new_draft_session_id(-5), "draft--5");
    assert!(is_draft_session_id(&new_draft_session_id(42)));
}

#[test]
fn ui_loop_counts_until_shutdown() {
    let inputs = vec![
        UiInput::Domain { event_id: 1 },
        UiInput::Resize { width: 120, height: 40 },
        UiInput::Domain { event_id: 2 },
        UiInput::Shutdown,
        UiInput::Domain { event_id: 3 },
    ];
    let s = ui_run(&inputs).expect("run should succeed");
    assert_eq!(s, UiSummary { events_processed: 2, resize_events: 1, shutdown_received: true });
}

#[test]
fn ui_loop_without_shutdown_fails() {
    let inputs = vec![UiInput::Domain { event_id: 1 }];
    assert_eq!(ui_run(&inputs), Err(TuiError::ChannelClosed));
    assert_eq!(ui_run(&Vec::new()), Err(TuiError::ChannelClosed));
}

#[test]
fn ui_step_stops_on_shutdown() {
    let s0 = UiSummary { events_processed: 0, resize_events: 0, shutdown_received: false };
    let (s1, stop) = ui_step(s0, UiInput::Domain { event_id: 9 });
    assert!(!stop);
    assert_eq!(s1.events_processed, 1);
    let (s2, stop) = ui_step(s1, UiInput::Shutdown);
    assert!(stop);
    assert!(s2.shutdown_received);
}

#[test]
fn tui_errors_say_what_went_wrong() {
    assert_eq!(TuiError::ChannelClosed.message(), "ui channel closed");
    assert_eq!(TuiError::Io("broken pipe".to_string()).message(), "io error: broken pipe");
    assert_eq!(TuiError::State("bad".to_string()).message(), "state error: bad");
}

#[test]
fn new_draft_sessions_start_empty() {
    let d = new_draft_session(None, "/w/a".to_string(), "/w".to_string(), "openai/gpt".to_string(), 42);
    assert_eq!(d.id, "draft-42");
    assert!(is_draft_session_id(&d.id));
    assert_eq!((d.created_at_unix_ms, d.updated_at_unix_ms), (42, 42));
    assert_eq!((d.cwd.as_str(), d.workspace_root.as_str(), d.model.as_str()), ("/w/a", "/w", "openai/gpt"));
    assert!(d.parent_id.is_none() && d.title.is_none());
    assert_eq!((d.total_input_tokens, d.total_output_tokens), (0, 0));
}
