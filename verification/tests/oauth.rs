use rustcode_tui::oauth::{oauth_done_step, oauth_start_step, DoneReport, OAuthScreen, StartReport};
use rustcode_tui::toast::ToastVariant;

fn starting() -> OAuthScreen {
    OAuthScreen::Starting { provider_id: "github".to_string(), display_name: "GitHub Copilot".to_string() }
}

#[test]
fn code_moves_the_manager_to_showing_it() {
    let out = oauth_start_step(
        starting(),
        StartReport::Started {
            provider_id: "github".to_string(),
            verification_uri: "https://example.com/device".to_string(),
            user_code: "ABCD-1234".to_string(),
        },
    );
    assert!(!out.close && !out.keep_listening && !out.stop_done && out.notice.is_none());
    match out.screen {
        OAuthScreen::Pending { provider_id, display_name, verification_uri, user_code } => {
            assert_eq!(provider_id, "github");
            assert_eq!(display_name, "GitHub Copilot");
            assert_eq!(verification_uri, "https://example.com/device");
            assert_eq!(user_code, "ABCD-1234");
        }
        _ => panic!("expected the pending step"),
    }
}

#[test]
fn code_for_a_manager_elsewhere_changes_nothing() {
    let out = oauth_start_step(
        OAuthScreen::Elsewhere,
        StartReport::Started {
            provider_id: "github".to_string(),
            verification_uri: "u".to_string(),
            user_code: "c".to_string(),
        },
    );
    assert!(matches!(out.screen, OAuthScreen::Elsewhere));
    assert!(!out.keep_listening);
}

#[test]
fn failing_to_start_closes_and_stops_waiting() {
    let out = oauth_start_step(starting(), StartReport::Failed("no network".to_string()));
    assert!(out.close && !out.keep_listening && out.stop_done);
    let n = out.notice.expect("a notice");
    assert_eq!(n.variant, ToastVariant::Error);
    assert_eq!(n.message, "OAuth failed to start: no network");
    assert_eq!(n.ttl_ms, 6000);
    let out = oauth_start_step(starting(), StartReport::NotYet);
    assert!(out.keep_listening && !out.close && matches!(out.screen, OAuthScreen::Starting { .. }));
    let out = oauth_start_step(starting(), StartReport::Closed);
    assert!(!out.keep_listening && !out.close && out.notice.is_none());
}

#[test]
fn finishing_reports_connection_or_failure() {
    let out = oauth_done_step(&DoneReport::Saved { provider_id: "github".to_string() });
    assert!(out.close && !out.keep_listening);
    let n = out.notice.unwrap();
    assert_eq!((n.variant, n.message.as_str(), n.ttl_ms), (ToastVariant::Success, "github connected!", 4000));
    let n = oauth_done_step(&DoneReport::SaveFailed("read-only".to_string())).notice.unwrap();
    assert_eq!((n.variant, n.message.as_str(), n.ttl_ms), (ToastVariant::Error, "failed to save credential: read-only", 6000));
    let n = oauth_done_step(&DoneReport::Failed("expired".to_string())).notice.unwrap();
    assert_eq!(n.message, "OAuth authorization failed: expired");
    let out = oauth_done_step(&DoneReport::NotYet);
    assert!(out.keep_listening && !out.close && out.notice.is_none());
    let out = oauth_done_step(&DoneReport::Closed);
    assert!(!out.keep_listening && !out.close && out.notice.is_none());
}
