//! Turning a raw provider or executor error into a short, actionable message
//! for the status line and the toast.
use vstd::prelude::*;
use crate::parse::{split_once, split_once_of};
use crate::text::{byte_len, byte_offset, chars_of, contains_exec, contains_seq, lemma_byte_offset_full, lemma_byte_offset_mono, lemma_byte_offset_step, push_all, string_of, sub_chars, trim, trim_chars, utf8_len_of};

verus! {

broadcast use vstd::seq_lib::group_seq_properties;

/// Unicode lower case of `s`, as std's `str::to_lowercase` computes it.
pub uninterp spec fn unicode_lowercase(s: Seq<char>) -> Seq<char>;

/// std's `str::to_lowercase`. The result is the named value; nothing more
/// is claimed of Unicode case mapping.
#[verifier::external_body]
pub(crate) fn to_lowercase_of(s: &str) -> (r: String)
    ensures
        r@ == unicode_lowercase(s@),
{
    s.to_lowercase()
}

/// `v` occupies fewer than `limit` bytes in UTF-8.
pub fn byte_len_below(v: &Vec<char>, limit: usize) -> (r: bool)
    ensures
        r == (byte_len(v@) < limit),
{
    if limit == 0 {
        return false;
    }
    let mut acc: usize = 0;
    let mut i: usize = 0;
    while i < v.len()
        invariant
            i <= v.len(),
            acc == byte_offset(v@, i as int),
            acc < limit,
        decreases v.len() - i,
    {
        proof {
            lemma_byte_offset_step(v@, i as int);
        }
        let w = utf8_len_of(v[i]);
        if w >= limit - acc {
            proof {
                lemma_byte_offset_mono(v@, i + 1, v.len() as int);
                lemma_byte_offset_full(v@);
            }
            return false;
        }
        acc = acc + w;
        i = i + 1;
    }
    proof {
        lemma_byte_offset_full(v@);
    }
    true
}

pub open spec fn has(lower: Seq<char>, pat: &str) -> bool {
    contains_seq(lower, pat@)
}

fn has_exec(lower: &Vec<char>, pat: &str) -> (r: bool)
    ensures
        r == has(lower@, pat),
{
    contains_exec(lower, &chars_of(pat))
}

/// The message for an error `msg` whose lower case is `lower`: the first
/// matching class (authentication, rate limit, context overflow, provider
/// unavailable, rejected request, no provider, stream or header timeout,
/// lost connection, network) gives a fixed text; else the body after
/// `"): "` when it is short; else `msg` cut to 120 characters.
pub open spec fn failure_text(msg: Seq<char>, lower: Seq<char>) -> Seq<char> {
    if has(lower, "authfailed") || has(lower, "authentication failed") || has(lower, "invalid api key")
        || has(lower, "invalid_api_key") || has(lower, "unauthorized") || has(lower, "api key") || (
    has(lower, "401") && has(lower, "provider")) {
        "Authentication failed — connect your provider in /providers (Ctrl+A)"@
    } else if has(lower, "ratelimit") || has(lower, "rate limit") || has(lower, "too many requests")
        || has(lower, "quota") || has(lower, "429") {
        "Rate limit or usage quota reached — please wait before retrying"@
    } else if has(lower, "contextoverflow") || has(lower, "context limit") || has(
        lower,
        "context_length_exceeded",
    ) || has(lower, "context window") || has(lower, "maximum context") {
        "Context limit exceeded — use /compact or send a shorter message"@
    } else if has(lower, "serviceunavailable") || has(lower, "service unavailable") || has(
        lower,
        "temporarily unavailable",
    ) || has(lower, "overloaded") || has(lower, "internal server error") || has(lower, "500")
        || has(lower, "502") || has(lower, "503") {
        "Provider temporarily unavailable — please try again"@
    } else if has(lower, "invalidrequest") {
        "Request rejected by provider — see activity for details"@
    } else if has(lower, "configuration error") || has(lower, "not set") || has(lower, "api key env")
        || has(lower, "executor not available") || has(lower, "llm init failed") {
        "No provider connected — use /providers (Ctrl+A) to connect one"@
    } else if has(lower, "timed out waiting for provider response chunk") {
        "Stream timed out — model may be slow to respond, try again"@
    } else if has(lower, "timed out waiting for provider response headers") {
        "Connection timed out — provider did not respond, retries exhausted"@
    } else if has(lower, "connection reset") || has(lower, "connection refused") {
        "Connection lost — check your network and try again"@
    } else if has(lower, "network error") || has(lower, "connection") || has(lower, "timed out")
        || has(lower, "transport") {
        "Network error — check your connection and try again"@
    } else {
        fallback_text(msg)
    }
}

/// What follows the first `"): "` of `msg`, trimmed.
pub open spec fn failure_body(msg: Seq<char>) -> Option<Seq<char>> {
    match split_once(msg, "): "@) {
        Some((_, after)) => Some(trim(after)),
        None => None,
    }
}

/// The body after the first `"): "` when it is non-empty and shorter than
/// 120 bytes, prefixed `Request failed: `; else `msg` itself, cut to 120
/// characters with `…`.
pub open spec fn fallback_text(msg: Seq<char>) -> Seq<char> {
    let body = failure_body(msg);
    if body is Some && body->0.len() > 0 && byte_len(body->0) < 120 {
        "Request failed: "@ + body->0
    } else if msg.len() > 120 {
        msg.take(120).push('…')
    } else {
        msg
    }
}

fn failure_body_of(msg: &Vec<char>) -> (r: Option<Vec<char>>)
    ensures
        match r {
            Some(b) => failure_body(msg@) == Some(b@),
            None => failure_body(msg@) is None,
        },
{
    let pat = chars_of("): ");
    match split_once_of(msg, &pat) {
        Some((_, rest)) => Some(trim_chars(&rest)),
        None => None,
    }
}

fn fallback_of(msg: &Vec<char>) -> (r: String)
    ensures
        r@ == fallback_text(msg@),
{
    if let Some(body) = failure_body_of(msg) {
        if body.len() > 0 && byte_len_below(&body, 120) {
            let mut out = chars_of("Request failed: ");
            push_all(&mut out, &body);
            return string_of(out.as_slice());
        }
    }
    if msg.len() > 120 {
        let mut out = sub_chars(msg, 0, 120);
        out.push('…');
        return string_of(out.as_slice());
    }
    proof {
        assert(msg@.subrange(0, msg@.len() as int) =~= msg@);
    }
    string_of(sub_chars(msg, 0, msg.len()).as_slice())
}

/// The short message for error `msg` given its lower case `lower`.
pub fn classify_failure(msg: &str, lower: &str) -> (r: String)
    ensures
        r@ == failure_text(msg@, lower@),
{
    let l = chars_of(lower);
    if has_exec(&l, "authfailed") || has_exec(&l, "authentication failed") || has_exec(
        &l,
        "invalid api key",
    ) || has_exec(&l, "invalid_api_key") || has_exec(&l, "unauthorized") || has_exec(&l, "api key")
        || (has_exec(&l, "401") && has_exec(&l, "provider")) {
        return "Authentication failed — connect your provider in /providers (Ctrl+A)".to_owned();
    }
    if has_exec(&l, "ratelimit") || has_exec(&l, "rate limit") || has_exec(&l, "too many requests")
        || has_exec(&l, "quota") || has_exec(&l, "429") {
        return "Rate limit or usage quota reached — please wait before retrying".to_owned();
    }
    if has_exec(&l, "contextoverflow") || has_exec(&l, "context limit") || has_exec(
        &l,
        "context_length_exceeded",
    ) || has_exec(&l, "context window") || has_exec(&l, "maximum context") {
        return "Context limit exceeded — use /compact or send a shorter message".to_owned();
    }
    if has_exec(&l, "serviceunavailable") || has_exec(&l, "service unavailable") || has_exec(
        &l,
        "temporarily unavailable",
    ) || has_exec(&l, "overloaded") || has_exec(&l, "internal server error") || has_exec(&l, "500")
        || has_exec(&l, "502") || has_exec(&l, "503") {
        return "Provider temporarily unavailable — please try again".to_owned();
    }
    if has_exec(&l, "invalidrequest") {
        return "Request rejected by provider — see activity for details".to_owned();
    }
    if has_exec(&l, "configuration error") || has_exec(&l, "not set") || has_exec(&l, "api key env")
        || has_exec(&l, "executor not available") || has_exec(&l, "llm init failed") {
        return "No provider connected — use /providers (Ctrl+A) to connect one".to_owned();
    }
    if has_exec(&l, "timed out waiting for provider response chunk") {
        return "Stream timed out — model may be slow to respond, try again".to_owned();
    }
    if has_exec(&l, "timed out waiting for provider response headers") {
        return "Connection timed out — provider did not respond, retries exhausted".to_owned();
    }
    if has_exec(&l, "connection reset") || has_exec(&l, "connection refused") {
        return "Connection lost — check your network and try again".to_owned();
    }
    if has_exec(&l, "network error") || has_exec(&l, "connection") || has_exec(&l, "timed out")
        || has_exec(&l, "transport") {
        return "Network error — check your connection and try again".to_owned();
    }
    fallback_of(&chars_of(msg))
}

/// The short message for the raw error `msg`, classified on its Unicode
/// lower case.
pub fn clean_failure_message(msg: &str) -> (r: String)
    ensures
        r@ == failure_text(msg@, unicode_lowercase(msg@)),
{
    let lower = to_lowercase_of(msg);
    classify_failure(msg, lower.as_str())
}

} // verus!
