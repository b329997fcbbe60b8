//! Toast notifications: short messages that expire, at most six at a time.
use vstd::prelude::*;
use crate::text::{chars_of, trim, trim_chars};

verus! {

broadcast use vstd::seq_lib::group_seq_properties;

/// How a toast is coloured.
#[derive(Debug, Clone, Copy, PartialEq, Eq, Structural)]
pub enum ToastVariant {
    Info,
    Success,
    Warning,
    Error,
}

/// A toast and the time (milliseconds since the epoch) it disappears.
#[derive(Debug)]
pub struct Toast {
    pub variant: ToastVariant,
    pub message: String,
    pub expires_at_ms: u64,
}

pub type ToastView = (ToastVariant, Seq<char>, u64);

impl View for Toast {
    type V = ToastView;

    open spec fn view(&self) -> ToastView {
        (self.variant, self.message@, self.expires_at_ms)
    }
}

pub open spec fn toasts_view(ts: Seq<Toast>) -> Seq<ToastView> {
    ts.map_values(|t: Toast| t@)
}

/// A notice: how it is coloured, its text, and how long it stays (ms).
pub struct Notice {
    pub variant: ToastVariant,
    pub message: String,
    pub ttl_ms: u64,
}

/// Most toasts shown at once.
pub const MAX_TOASTS: usize = 6;

/// The last `n` of `s` (all of it when shorter).
pub open spec fn keep_last<T>(s: Seq<T>, n: nat) -> Seq<T> {
    if s.len() <= n {
        s
    } else {
        s.skip(s.len() - n)
    }
}

/// The toasts after showing `t`: a blank message is not shown; otherwise
/// it is added last and only the six newest are kept.
pub open spec fn pushed(ts: Seq<ToastView>, t: ToastView) -> Seq<ToastView> {
    if trim(t.1).len() == 0 {
        ts
    } else {
        keep_last(ts.push(t), MAX_TOASTS as nat)
    }
}

/// Shows `message` until `ttl_ms` after `now_ms`.
pub fn push_toast(toasts: &mut Vec<Toast>, variant: ToastVariant, message: &str, ttl_ms: u64, now_ms: u64)
    requires
        now_ms + ttl_ms <= u64::MAX,
    ensures
        toasts_view(final(toasts)@) == pushed(
            toasts_view(old(toasts)@),
            (variant, message@, (now_ms + ttl_ms) as u64),
        ),
{
    if trim_chars(&chars_of(message)).len() == 0 {
        return;
    }
    let ghost start = toasts_view(toasts@);
    toasts.push(Toast { variant, message: message.to_owned(), expires_at_ms: now_ms + ttl_ms });
    let ghost all = start.push((variant, message@, (now_ms + ttl_ms) as u64));
    proof {
        assert(toasts_view(toasts@) =~= all);
        assert(all.skip(0) =~= all);
    }
    let ghost mut dropped: int = 0;
    while toasts.len() > MAX_TOASTS
        invariant
            0 <= dropped <= all.len(),
            toasts_view(toasts@) == all.skip(dropped),
            toasts@.len() + dropped == all.len(),
            dropped == 0 || toasts@.len() >= MAX_TOASTS,
        decreases toasts.len(),
    {
        let ghost before = toasts@;
        toasts.remove(0);
        proof {
            assert(toasts_view(toasts@) =~= toasts_view(before).drop_first());
            assert(all.skip(dropped).drop_first() =~= all.skip(dropped + 1));
            dropped = dropped + 1;
        }
    }
    proof {
        if all.len() > MAX_TOASTS {
            assert(dropped == all.len() - MAX_TOASTS);
        } else {
            assert(dropped == 0);
        }
    }
}

/// The toasts still shown at `now_ms`, in order.
pub open spec fn live(ts: Seq<ToastView>, now_ms: u64) -> Seq<ToastView>
    decreases ts.len(),
{
    if ts.len() == 0 {
        ts
    } else if ts.last().2 > now_ms {
        live(ts.drop_last(), now_ms).push(ts.last())
    } else {
        live(ts.drop_last(), now_ms)
    }
}

/// Drops the toasts that have expired at `now_ms`.
pub fn drain_toasts(toasts: &mut Vec<Toast>, now_ms: u64)
    ensures
        toasts_view(final(toasts)@) == live(toasts_view(old(toasts)@), now_ms),
{
    let ghost start = toasts_view(toasts@);
    let mut kept: Vec<Toast> = Vec::new();
    let mut rest: Vec<Toast> = Vec::new();
    std::mem::swap(&mut rest, toasts);
    let ghost all = toasts_view(rest@);
    let mut i: usize = 0;
    proof {
        assert(all.skip(0) =~= all);
        assert(all.len() == rest.len());
    }
    while rest.len() > 0
        invariant
            start == all,
            all.len() <= usize::MAX,
            i + rest.len() == all.len(),
            toasts_view(rest@) == all.skip(i as int),
            toasts_view(kept@) == live(all.take(i as int), now_ms),
        decreases rest.len(),
    {
        let ghost before = rest@;
        let t = rest.remove(0);
        proof {
            assert(toasts_view(before)[0] == t@);
            assert(all.skip(i as int)[0] == all[i as int]);
            assert(toasts_view(rest@) =~= toasts_view(before).drop_first());
            assert(all.skip(i as int).drop_first() =~= all.skip(i + 1));
            assert(all.take(i + 1).drop_last() =~= all.take(i as int));
            assert(all.take(i + 1).last() == all[i as int]);
        }
        if t.expires_at_ms > now_ms {
            kept.push(t);
            proof {
                assert(toasts_view(kept@) =~= live(all.take(i as int), now_ms).push(all[i as int]));
            }
        }
        i = i + 1;
    }
    proof {
        assert(all.take(i as int) =~= all);
    }
    *toasts = kept;
}

/// At most six toasts are shown, and a toast with a message is shown
/// last, right after it is pushed.
pub proof fn law_toasts_bounded(ts: Seq<ToastView>, t: ToastView)
    requires
        ts.len() <= MAX_TOASTS,
    ensures
        pushed(ts, t).len() <= MAX_TOASTS,
        trim(t.1).len() > 0 ==> pushed(ts, t).last() == t,
{
}

} // verus!
