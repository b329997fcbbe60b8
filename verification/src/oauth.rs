//! The device-code sign-in of the provider manager, as seen by the screen:
//! what each report of the background sign-in changes. The sign-in itself
//! and saving the credential are left to the caller, which reports back.
use vstd::prelude::*;
use crate::text::{chars_of, push_all, string_of};
use crate::toast::{Notice, ToastVariant};

verus! {

/// What the provider manager shows.
pub enum OAuthScreen {
    /// Waiting for the provider to hand out a code.
    Starting { provider_id: String, display_name: String },
    /// Showing the code and where to enter it.
    Pending { provider_id: String, display_name: String, verification_uri: String, user_code: String },
    /// Some other step of the manager.
    Elsewhere,
}

pub enum OAuthScreenView {
    Starting(Seq<char>, Seq<char>),
    Pending(Seq<char>, Seq<char>, Seq<char>, Seq<char>),
    Elsewhere,
}

impl View for OAuthScreen {
    type V = OAuthScreenView;

    open spec fn view(&self) -> OAuthScreenView {
        match self {
            OAuthScreen::Starting { provider_id, display_name } => OAuthScreenView::Starting(
                provider_id@,
                display_name@,
            ),
            OAuthScreen::Pending { provider_id, display_name, verification_uri, user_code } =>
                OAuthScreenView::Pending(provider_id@, display_name@, verification_uri@, user_code@),
            OAuthScreen::Elsewhere => OAuthScreenView::Elsewhere,
        }
    }
}

/// A report on starting the sign-in.
pub enum StartReport {
    /// The provider handed out `user_code`, to be entered at `verification_uri`.
    Started { provider_id: String, verification_uri: String, user_code: String },
    /// Starting failed, with this error.
    Failed(String),
    /// Nothing yet.
    NotYet,
    /// The sign-in stopped reporting.
    Closed,
}

/// A report on finishing the sign-in.
pub enum DoneReport {
    /// The credential for `provider_id` was obtained and saved.
    Saved { provider_id: String },
    /// The credential was obtained but saving it failed, with this error.
    SaveFailed(String),
    /// The sign-in failed, with this error.
    Failed(String),
    NotYet,
    Closed,
}

/// What a report changes.
pub struct OAuthOutcome {
    /// What the manager shows next (when it stays open).
    pub screen: OAuthScreen,
    /// Close the provider manager.
    pub close: bool,
    /// Keep waiting for reports of this kind.
    pub keep_listening: bool,
    /// Also stop waiting for the sign-in to finish.
    pub stop_done: bool,
    pub notice: Option<Notice>,
}

/// What a report on finishing the sign-in changes.
pub struct DoneOutcome {
    /// Close the provider manager.
    pub close: bool,
    /// Keep waiting for the sign-in to finish.
    pub keep_listening: bool,
    pub notice: Option<Notice>,
}

pub open spec fn notice_view(n: Option<Notice>) -> Option<(ToastVariant, Seq<char>, u64)> {
    match n {
        Some(n) => Some((n.variant, n.message@, n.ttl_ms)),
        None => None,
    }
}

fn error_notice(prefix: &str, err: &String, ttl_ms: u64) -> (r: Notice)
    ensures
        r.variant == ToastVariant::Error,
        r.message@ == prefix@ + err@,
        r.ttl_ms == ttl_ms,
{
    let mut v = chars_of(prefix);
    push_all(&mut v, &chars_of(err.as_str()));
    Notice { variant: ToastVariant::Error, message: string_of(v.as_slice()), ttl_ms }
}

/// A report on starting the sign-in: the code moves a waiting manager on to
/// showing it (keeping the provider's display name); a failure closes the
/// manager, says why for six seconds and stops all waiting; once the code
/// has come, or the sign-in stopped reporting, there is nothing more to
/// wait for here.
pub fn oauth_start_step(screen: OAuthScreen, report: StartReport) -> (r: OAuthOutcome)
    ensures
        match report {
            StartReport::Started { provider_id, verification_uri, user_code } => {
                &&& !r.close && !r.keep_listening && !r.stop_done && r.notice is None
                &&& match screen@ {
                    OAuthScreenView::Starting(_, name) => r.screen@ == OAuthScreenView::Pending(
                        provider_id@,
                        name,
                        verification_uri@,
                        user_code@,
                    ),
                    _ => r.screen@ == screen@,
                }
            },
            StartReport::Failed(err) => {
                &&& r.close && !r.keep_listening && r.stop_done
                &&& notice_view(r.notice) == Some((ToastVariant::Error, "OAuth failed to start: "@ + err@, 6000u64))
            },
            StartReport::NotYet => !r.close && r.keep_listening && !r.stop_done && r.notice is None
                && r.screen@ == screen@,
            StartReport::Closed => !r.close && !r.keep_listening && !r.stop_done && r.notice is None
                && r.screen@ == screen@,
        },
{
    match report {
        StartReport::Started { provider_id, verification_uri, user_code } => {
            let next = match screen {
                OAuthScreen::Starting { provider_id: _, display_name } => OAuthScreen::Pending {
                    provider_id,
                    display_name,
                    verification_uri,
                    user_code,
                },
                other => other,
            };
            OAuthOutcome { screen: next, close: false, keep_listening: false, stop_done: false, notice: None }
        },
        StartReport::Failed(err) => OAuthOutcome {
            screen,
            close: true,
            keep_listening: false,
            stop_done: true,
            notice: Some(error_notice("OAuth failed to start: ", &err, 6000)),
        },
        StartReport::NotYet => OAuthOutcome {
            screen,
            close: false,
            keep_listening: true,
            stop_done: false,
            notice: None,
        },
        StartReport::Closed => OAuthOutcome {
            screen,
            close: false,
            keep_listening: false,
            stop_done: false,
            notice: None,
        },
    }
}

/// A report on finishing the sign-in: every outcome but "nothing yet" ends
/// the waiting; a saved credential closes the manager with "… connected!"
/// for four seconds, a failure closes it and says why for six.
pub fn oauth_done_step(report: &DoneReport) -> (r: DoneOutcome)
    ensures
        r.keep_listening == (report is NotYet),
        r.close == (report is Saved || report is SaveFailed || report is Failed),
        match report {
            DoneReport::Saved { provider_id } => notice_view(r.notice) == Some(
                (ToastVariant::Success, provider_id@ + " connected!"@, 4000u64),
            ),
            DoneReport::SaveFailed(err) => notice_view(r.notice) == Some(
                (ToastVariant::Error, "failed to save credential: "@ + err@, 6000u64),
            ),
            DoneReport::Failed(err) => notice_view(r.notice) == Some(
                (ToastVariant::Error, "OAuth authorization failed: "@ + err@, 6000u64),
            ),
            _ => r.notice is None,
        },
{
    let (close, keep, notice) = match report {
        DoneReport::Saved { provider_id } => {
            let mut v = chars_of(provider_id.as_str());
            push_all(&mut v, &chars_of(" connected!"));
            let n = Notice { variant: ToastVariant::Success, message: string_of(v.as_slice()), ttl_ms: 4000 };
            (true, false, Some(n))
        },
        DoneReport::SaveFailed(err) => (true, false, Some(error_notice("failed to save credential: ", err, 6000))),
        DoneReport::Failed(err) => (true, false, Some(error_notice("OAuth authorization failed: ", err, 6000))),
        DoneReport::NotYet => (false, true, None),
        DoneReport::Closed => (false, false, None),
    };
    DoneOutcome { close, keep_listening: keep, notice }
}

} // verus!
