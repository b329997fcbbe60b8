//! The session list: what a session record holds for the list, filtering
//! it, ordering it newest first, and the heights of the screens.
use vstd::prelude::*;
use crate::filters::{
    idx_view, lemma_match_indices_bounded, match_indices, match_indices_of, min_nat, range_of,
    range_seq,
};
use crate::text::{chars_of, lower_chars, lower_seq, push_all, trim, trim_chars};

verus! {

broadcast use vstd::seq_lib::group_seq_properties;

/// What the session list reads of a stored session.
#[derive(Debug)]
pub struct SessionInfo {
    pub id: String,
    pub title: Option<String>,
    pub branch: String,
    pub updated_at_unix_ms: i64,
}

/// A session as plain values: id, title, branch, last update.
pub type SessionView = (Seq<char>, Option<Seq<char>>, Seq<char>, i64);

impl View for SessionInfo {
    type V = SessionView;

    open spec fn view(&self) -> SessionView {
        (
            self.id@,
            match self.title {
                Some(t) => Some(t@),
                None => None,
            },
            self.branch@,
            self.updated_at_unix_ms,
        )
    }
}

pub open spec fn sessions_view_of(ss: Seq<SessionInfo>) -> Seq<SessionView> {
    ss.map_values(|s: SessionInfo| s@)
}

// ── Filtering ───────────────────────────────────────────────────────────────

/// The text a filter is matched against: id, title and trimmed branch,
/// tab-separated, ASCII lower case.
pub open spec fn session_haystack(s: SessionView) -> Seq<char> {
    let title = match s.1 {
        Some(t) => t,
        None => Seq::empty(),
    };
    lower_seq(s.0 + seq!['\t'] + title + seq!['\t'] + trim(s.2))
}

/// Indices of the sessions whose haystack contains the filter (ASCII
/// lower-cased, as typed); all sessions for a blank filter.
pub open spec fn sessions_filter_view(ss: Seq<SessionView>, filter: Seq<char>) -> Seq<int> {
    if trim(filter).len() == 0 {
        range_seq(ss.len())
    } else {
        match_indices(ss.map_values(|s: SessionView| session_haystack(s)), lower_seq(filter))
    }
}

fn haystack_of(s: &SessionInfo) -> (r: Vec<char>)
    ensures
        r@ == session_haystack(s@),
{
    let mut h = chars_of(s.id.as_str());
    h.push('\t');
    match &s.title {
        Some(t) => push_all(&mut h, &chars_of(t.as_str())),
        None => {},
    }
    h.push('\t');
    push_all(&mut h, &trim_chars(&chars_of(s.branch.as_str())));
    proof {
        let title = match s@.1 {
            Some(t) => t,
            None => Seq::empty(),
        };
        assert(h@ =~= s@.0 + seq!['\t'] + title + seq!['\t'] + trim(s@.2));
    }
    lower_chars(&h)
}

/// The rows of the session list for `filter`.
pub fn compute_sessions_view(sessions: &Vec<SessionInfo>, filter: &str) -> (r: Vec<usize>)
    ensures
        idx_view(r@) == sessions_filter_view(sessions_view_of(sessions@), filter@),
{
    let f = chars_of(filter);
    if trim_chars(&f).len() == 0 {
        let r = range_of(sessions.len(), sessions.len());
        return r;
    }
    let needle = lower_chars(&f);
    let mut hs: Vec<Vec<char>> = Vec::new();
    let mut i: usize = 0;
    let ghost sv = sessions_view_of(sessions@);
    while i < sessions.len()
        invariant
            i <= sessions.len(),
            sv == sessions_view_of(sessions@),
            hs@.map_values(|h: Vec<char>| h@) == sv.take(i as int).map_values(
                |s: SessionView| session_haystack(s),
            ),
        decreases sessions.len() - i,
    {
        let h = haystack_of(&sessions[i]);
        let ghost prev = hs@.map_values(|x: Vec<char>| x@);
        hs.push(h);
        proof {
            assert(hs@.map_values(|x: Vec<char>| x@) =~= prev.push(session_haystack(sv[i as int])));
            assert(sv.take(i + 1).map_values(|s: SessionView| session_haystack(s)) =~= sv.take(
                i as int,
            ).map_values(|s: SessionView| session_haystack(s)).push(session_haystack(sv[i as int])));
        }
        i = i + 1;
    }
    proof {
        assert(sv.take(sessions.len() as int) =~= sv);
        lemma_match_indices_bounded(hs@.map_values(|h: Vec<char>| h@), needle@);
    }
    let r = match_indices_of(&hs, &needle, hs.len());
    proof {
        let m = match_indices(hs@.map_values(|h: Vec<char>| h@), needle@);
        assert(m.take(min_nat(hs@.len(), m.len()) as int) =~= m);
    }
    r
}

// ── Newest first ────────────────────────────────────────────────────────────

/// `perm` lists each index below `n` exactly once.
pub open spec fn is_permutation(perm: Seq<int>, n: nat) -> bool {
    &&& perm.len() == n
    &&& forall|i: int| 0 <= i < n ==> 0 <= #[trigger] perm[i] < n
    &&& forall|i: int, j: int| 0 <= i < j < n ==> perm[i] != perm[j]
}

/// `perm` takes `before` to `after`: `after[i]` is `before[perm[i]]`, the
/// updates do not increase along `after`, and sessions updated at the same
/// time keep their order.
pub open spec fn stable_newest_first(before: Seq<SessionView>, after: Seq<SessionView>, perm: Seq<int>) -> bool {
    &&& is_permutation(perm, before.len())
    &&& after.len() == before.len()
    &&& forall|i: int| 0 <= i < after.len() ==> after[i] == before[#[trigger] perm[i]]
    &&& forall|i: int, j: int| 0 <= i < j < after.len() ==> after[i].3 >= after[j].3
    &&& forall|i: int, j: int|
        0 <= i < j < after.len() && after[i].3 == after[j].3 ==> perm[i] < perm[j]
}

/// `after` is `before` ordered by last update, newest first, with sessions
/// updated at the same time kept in their previous order (a stable sort).
pub open spec fn newest_first(before: Seq<SessionView>, after: Seq<SessionView>) -> bool {
    exists|perm: Seq<int>| stable_newest_first(before, after, perm)
}

fn copy_session(s: &SessionInfo) -> (r: SessionInfo)
    ensures
        r@ == s@,
{
    SessionInfo {
        id: s.id.clone(),
        title: match &s.title {
            Some(t) => Some(t.clone()),
            None => None,
        },
        branch: s.branch.clone(),
        updated_at_unix_ms: s.updated_at_unix_ms,
    }
}

/// First position of `out` whose session is older than `t`, or its length.
fn insertion_point(out: &Vec<SessionInfo>, t: i64) -> (pos: usize)
    ensures
        pos <= out.len(),
        forall|i: int| 0 <= i < pos ==> #[trigger] out@[i].updated_at_unix_ms >= t,
        pos < out.len() ==> out@[pos as int].updated_at_unix_ms < t,
{
    let mut i: usize = 0;
    while i < out.len()
        invariant
            i <= out.len(),
            forall|j: int| 0 <= j < i ==> #[trigger] out@[j].updated_at_unix_ms >= t,
        decreases out.len() - i,
    {
        if out[i].updated_at_unix_ms < t {
            return i;
        }
        i = i + 1;
    }
    i
}

/// Orders the sessions newest first; sessions updated at the same time
/// keep their order.
#[verifier::spinoff_prover]
#[verifier::rlimit(40)]
pub fn sort_sessions(sessions: &mut Vec<SessionInfo>)
    ensures
        newest_first(sessions_view_of(old(sessions)@), sessions_view_of(final(sessions)@)),
{
    let ghost before = sessions_view_of(sessions@);
    let mut out: Vec<SessionInfo> = Vec::new();
    let ghost mut perm: Seq<int> = Seq::empty();
    let mut k: usize = 0;
    while k < sessions.len()
        invariant
            k <= sessions.len(),
            before == sessions_view_of(sessions@),
            out.len() == k,
            perm.len() == k,
            forall|i: int| 0 <= i < k ==> 0 <= #[trigger] perm[i] < k,
            forall|i: int, j: int| 0 <= i < j < k ==> perm[i] != perm[j],
            forall|i: int| 0 <= i < k ==> out@[i]@ == before[#[trigger] perm[i]],
            forall|i: int, j: int|
                0 <= i < j < k ==> out@[i].updated_at_unix_ms >= out@[j].updated_at_unix_ms,
            forall|i: int, j: int|
                0 <= i < j < k && out@[i].updated_at_unix_ms == out@[j].updated_at_unix_ms
                    ==> perm[i] < perm[j],
        decreases sessions.len() - k,
    {
        let s = copy_session(&sessions[k]);
        let t = s.updated_at_unix_ms;
        let pos = insertion_point(&out, t);
        let ghost old_out = out@;
        let ghost old_perm = perm;
        out.insert(pos, s);
        proof {
            perm = old_perm.insert(pos as int, k as int);
            assert forall|i: int| 0 <= i < k + 1 implies out@[i]@ == before[#[trigger] perm[i]] by {
                if i < pos {
                    assert(out@[i] == old_out[i]);
                } else if i == pos {
                } else {
                    assert(out@[i] == old_out[i - 1]);
                }
            }
            assert forall|i: int, j: int|
                0 <= i < j < k + 1 implies out@[i].updated_at_unix_ms >= out@[j].updated_at_unix_ms by {
                if j < pos {
                    assert(out@[i] == old_out[i] && out@[j] == old_out[j]);
                } else if j == pos {
                    assert(out@[i] == old_out[i]);
                } else if i < pos {
                    assert(out@[i] == old_out[i] && out@[j] == old_out[j - 1]);
                } else if i == pos {
                    assert(out@[j] == old_out[j - 1]);
                    if j - 1 > pos {
                        assert(old_out[pos as int].updated_at_unix_ms >= old_out[j - 1].updated_at_unix_ms);
                    }
                } else {
                    assert(out@[i] == old_out[i - 1] && out@[j] == old_out[j - 1]);
                }
            }
            assert forall|i: int, j: int|
                0 <= i < j < k + 1 && out@[i].updated_at_unix_ms == out@[j].updated_at_unix_ms
                    implies perm[i] < perm[j] by {
                if j < pos {
                    assert(out@[i] == old_out[i] && out@[j] == old_out[j]);
                } else if j == pos {
                    assert(perm[j] == k);
                } else if i < pos {
                    assert(out@[i] == old_out[i] && out@[j] == old_out[j - 1]);
                } else if i == pos {
                    assert(out@[j] == old_out[j - 1]);
                    if j - 1 > pos {
                        assert(old_out[pos as int].updated_at_unix_ms >= old_out[j - 1].updated_at_unix_ms);
                    }
                } else {
                    assert(out@[i] == old_out[i - 1] && out@[j] == old_out[j - 1]);
                }
            }
            assert forall|i: int, j: int| 0 <= i < j < k + 1 implies perm[i] != perm[j] by {
                if j < pos {
                } else if j == pos {
                    assert(perm[i] == old_perm[i]);
                } else if i < pos {
                } else if i == pos {
                    assert(perm[j] == old_perm[j - 1]);
                } else {
                }
            }
            assert forall|i: int| 0 <= i < k + 1 implies 0 <= #[trigger] perm[i] < k + 1 by {
                if i < pos {
                    assert(perm[i] == old_perm[i]);
                } else if i > pos {
                    assert(perm[i] == old_perm[i - 1]);
                }
            }
        }
        k = k + 1;
    }
    proof {
        let after = sessions_view_of(out@);
        assert(stable_newest_first(before, after, perm));
    }
    *sessions = out;
}

// ── Heights ─────────────────────────────────────────────────────────────────

pub open spec fn max_int(a: int, b: int) -> int {
    if a >= b {
        a
    } else {
        b
    }
}

pub open spec fn min_int(a: int, b: int) -> int {
    if a <= b {
        a
    } else {
        b
    }
}

/// Rows of the transcript pane: the screen less seven rows, at least one.
pub fn transcript_area_height(screen_height: u16) -> (r: u16)
    ensures
        r == max_int(screen_height - 7, 1),
{
    let h = screen_height.saturating_sub(7);
    if h < 1 {
        1
    } else {
        h
    }
}

/// Height of the session list screen: the rows (two borders, at least
/// five), the search bar when filtering, and a three-row footer, within
/// the terminal. A row count is taken modulo 2^16, as a `u16` holds it.
pub open spec fn sessions_height(view_len: nat, filter_active: bool, term_height: nat) -> int {
    if term_height == 0 {
        8
    } else {
        let list_h = max_int((view_len % 65536 + 2) as int, 5);
        let search_h: int = if filter_active {
            3
        } else {
            0
        };
        min_int(list_h + search_h + 3, term_height as int)
    }
}

pub fn sessions_desired_height(view_len: usize, filter_active: bool, term_height: u16) -> (r: u16)
    requires
        max_int((view_len % 65536 + 2) as int, 5) + (if filter_active {
            3int
        } else {
            0int
        }) + 3 <= u16::MAX,
    ensures
        r == sessions_height(view_len as nat, filter_active, term_height as nat),
{
    if term_height == 0 {
        return 8;
    }
    let rows: u16 = (view_len % 65536) as u16;
    let list_h: u16 = if rows + 2 > 5 {
        rows + 2
    } else {
        5
    };
    let search_h: u16 = if filter_active {
        3
    } else {
        0
    };
    let total = list_h + search_h + 3;
    if total < term_height {
        total
    } else {
        term_height
    }
}

/// Rows that lines of display widths `ws` take when wrapped at `inner`
/// columns (a line wider than `inner` takes `ceil(width / inner)` rows).
pub open spec fn wrapped_rows(ws: Seq<usize>, inner: nat) -> nat
    decreases ws.len(),
{
    if ws.len() == 0 {
        0
    } else {
        let w = ws.last() as nat;
        wrapped_rows(ws.drop_last(), inner) + if w <= inner {
            1
        } else {
            ((w + inner - 1) / inner as int) as nat
        }
    }
}

fn wrapped_rows_of(ws: &Vec<usize>, inner: usize) -> (r: usize)
    requires
        inner >= 1,
        wrapped_rows(ws@, inner as nat) <= usize::MAX,
    ensures
        r == wrapped_rows(ws@, inner as nat),
{
    let mut total: usize = 0;
    let mut i: usize = 0;
    proof {
        lemma_wrapped_rows_prefix(ws@, inner as nat, 0);
    }
    while i < ws.len()
        invariant
            inner >= 1,
            i <= ws.len(),
            wrapped_rows(ws@, inner as nat) <= usize::MAX,
            total == wrapped_rows(ws@.take(i as int), inner as nat),
        decreases ws.len() - i,
    {
        proof {
            assert(ws@.take(i + 1).drop_last() =~= ws@.take(i as int));
            lemma_wrapped_rows_prefix(ws@, inner as nat, i + 1);
        }
        let w = ws[i];
        let rows = if w <= inner {
            1
        } else {
            let q = w / inner;
            if w % inner == 0 {
                q
            } else {
                proof {
                    assert(q < usize::MAX) by (nonlinear_arith)
                        requires
                            inner >= 1,
                            w % inner != 0,
                            q == w / inner,
                            w <= usize::MAX,
                    {
                        assert(inner >= 2);
                    }
                }
                q + 1
            }
        };
        proof {
            if w > inner {
                assert(rows == (w + inner - 1) / inner as int) by (nonlinear_arith)
                    requires
                        inner >= 1,
                        rows == w / inner + if w % inner == 0 {
                            0int
                        } else {
                            1int
                        },
                ;
            }
        }
        total = total + rows;
        i = i + 1;
    }
    proof {
        assert(ws@.take(ws.len() as int) =~= ws@);
    }
    total
}

proof fn lemma_wrapped_rows_prefix(ws: Seq<usize>, inner: nat, k: int)
    requires
        0 <= k <= ws.len(),
    ensures
        wrapped_rows(ws.take(k), inner) <= wrapped_rows(ws, inner),
    decreases ws.len() - k,
{
    if k < ws.len() {
        lemma_wrapped_rows_prefix(ws, inner, k + 1);
        assert(ws.take(k + 1).drop_last() =~= ws.take(k));
    } else {
        assert(ws.take(k) =~= ws);
    }
}

/// Columns inside the composer's borders: 72% of the width (the whole
/// width when the activity pane is hidden) less two, at least one.
pub open spec fn composer_inner_width(width: nat, activity_hidden: bool) -> nat {
    let w = if width == 0 {
        1
    } else {
        width
    };
    let outer: int = if activity_hidden {
        w as int
    } else {
        (w * 72 / 100) as int
    };
    max_int(outer - 2, 1) as nat
}

/// Height of the chat screen: the transcript (its wrapped rows and two
/// borders, at least 40% of the terminal and at least eight rows, and no
/// less than the bottom box), a one-row mode bar, the bottom box (the
/// composer, two borders, at least five rows and at most half the
/// terminal; or the approval options and three rows) and a three-row
/// status bar, within the terminal. Row counts are taken modulo 2^16.
pub open spec fn chat_height(
    term_height: nat,
    composer_rows: nat,
    pending_options: Option<usize>,
    transcript_rows: nat,
) -> int {
    if term_height == 0 {
        8
    } else {
        let composer_h = min_int(max_int((composer_rows % 65536 + 2) as int, 5), term_height as int / 2);
        let bottom_h: int = match pending_options {
            Some(n) => n % 65536 + 3,
            None => composer_h,
        };
        let forty = max_int(term_height as int * 2 / 5, 8);
        let transcript_h = max_int((transcript_rows % 65536 + 2) as int, max_int(forty, bottom_h));
        min_int(transcript_h + 1 + bottom_h + 3, term_height as int)
    }
}

/// The arithmetic of `chat_height` stays within `u16`.
pub open spec fn chat_height_fits(
    term_height: nat,
    composer_rows: nat,
    pending_options: Option<usize>,
    transcript_rows: nat,
) -> bool {
    let composer_h = min_int(max_int((composer_rows % 65536 + 2) as int, 5), term_height as int / 2);
    let bottom_h: int = match pending_options {
        Some(n) => n % 65536 + 3,
        None => composer_h,
    };
    let forty = max_int(term_height as int * 2 / 5, 8);
    let transcript_h = max_int((transcript_rows % 65536 + 2) as int, max_int(forty, bottom_h));
    &&& composer_rows % 65536 + 2 <= u16::MAX
    &&& bottom_h <= u16::MAX
    &&& term_height * 2 <= u16::MAX
    &&& transcript_rows % 65536 + 2 <= u16::MAX
    &&& transcript_h + 1 + bottom_h + 3 <= u16::MAX
}

/// The chat screen's height for a terminal `term_height` rows high and
/// `width` columns wide, with `composer` in the composer, the number of
/// options of a pending approval, and the display widths of the
/// transcript's lines.
pub fn chat_desired_height(
    term_height: u16,
    width: u16,
    activity_hidden: bool,
    composer: &str,
    pending_options: Option<usize>,
    line_widths: &Vec<usize>,
) -> (r: u16)
    requires
        term_height > 0 ==> {
            &&& crate::text::fits(composer@)
            &&& (activity_hidden || (if width == 0 { 1int } else { width as int }) * 72 <= u16::MAX)
            &&& wrapped_rows(line_widths@, max_int((if width == 0 { 1int } else { width as int }) - 2, 1) as nat)
                <= usize::MAX
            &&& chat_height_fits(
                term_height as nat,
                crate::wrap::wrapped_line_count(composer@, composer_inner_width(width as nat, activity_hidden)),
                pending_options,
                wrapped_rows(line_widths@, max_int((if width == 0 { 1int } else { width as int }) - 2, 1) as nat),
            )
        },
    ensures
        r == chat_height(
            term_height as nat,
            crate::wrap::wrapped_line_count(composer@, composer_inner_width(width as nat, activity_hidden)),
            pending_options,
            wrapped_rows(line_widths@, max_int((if width == 0 { 1int } else { width as int }) - 2, 1) as nat),
        ),
{
    if term_height == 0 {
        return 8;
    }
    let w: u16 = if width == 0 {
        1
    } else {
        width
    };
    let outer: u16 = if activity_hidden {
        w
    } else {
        w * 72 / 100
    };
    let inner_c = outer.saturating_sub(2);
    let inner_c: u16 = if inner_c < 1 {
        1
    } else {
        inner_c
    };
    let lines = crate::wrap::composer_wrapped_line_count(composer, inner_c as usize);
    let lines16: u16 = (lines % 65536) as u16;
    let c0: u16 = if lines16 + 2 > 5 {
        lines16 + 2
    } else {
        5
    };
    let half = term_height / 2;
    let composer_h: u16 = if c0 < half {
        c0
    } else {
        half
    };
    let bottom_h: u16 = match pending_options {
        Some(n) => ((n % 65536) as u16) + 3,
        None => composer_h,
    };
    let inner_t = w.saturating_sub(2);
    let inner_t: u16 = if inner_t < 1 {
        1
    } else {
        inner_t
    };
    let rows = wrapped_rows_of(line_widths, inner_t as usize);
    let rows16: u16 = (rows % 65536) as u16;
    let forty0 = term_height * 2 / 5;
    let forty: u16 = if forty0 > 8 {
        forty0
    } else {
        8
    };
    let tmin: u16 = if forty > bottom_h {
        forty
    } else {
        bottom_h
    };
    let transcript_h: u16 = if rows16 + 2 > tmin {
        rows16 + 2
    } else {
        tmin
    };
    let total = transcript_h + 1 + bottom_h + 3;
    if total < term_height {
        total
    } else {
        term_height
    }
}


// ── Opening a session by id or query ────────────────────────────────────────

/// What `/sessions <query>` leads to, once the query named no session id
/// and the sessions matching it (`view`) are known.
#[derive(Debug, Clone, Copy, PartialEq, Eq, Structural)]
pub enum SessionLookup {
    /// The query is blank: explain the usage.
    Usage,
    /// No session matches.
    NotFound,
    /// Exactly one matches: open the session at this index.
    Open(usize),
    /// Several match: show the list filtered by the query, with this many.
    ShowMatches(usize),
}

/// The query of `/sessions <query>`: its argument trimmed, `None` when blank.
pub fn lookup_query(arg: &str) -> (r: Option<String>)
    ensures
        r is None <==> trim(arg@).len() == 0,
        r matches Some(q) ==> q@ == trim(arg@),
{
    let t = trim_chars(&chars_of(arg));
    if t.len() == 0 {
        None
    } else {
        Some(crate::text::string_of(t.as_slice()))
    }
}

/// The outcome of looking up a non-blank query among the sessions, given
/// the indices of the sessions it matches.
pub fn lookup_outcome(view: &Vec<usize>) -> (r: SessionLookup)
    ensures
        view@.len() == 0 ==> r == SessionLookup::NotFound,
        view@.len() == 1 ==> r == SessionLookup::Open(view@[0]),
        view@.len() > 1 ==> r == SessionLookup::ShowMatches(view.len()),
{
    if view.len() == 0 {
        SessionLookup::NotFound
    } else if view.len() == 1 {
        SessionLookup::Open(view[0])
    } else {
        SessionLookup::ShowMatches(view.len())
    }
}

/// The notice of a lookup for `query`: the usage for a blank query, "session
/// not found: …" (an error, four seconds), or how many sessions matched (for
/// three seconds); opening a session raises none.
pub fn lookup_notice(outcome: SessionLookup, query: &str) -> (r: Option<crate::toast::Notice>)
    ensures
        match outcome {
            SessionLookup::Usage => r matches Some(n) && n.variant == crate::toast::ToastVariant::Warning
                && n.message@ == "usage: /sessions <id|query>"@ && n.ttl_ms == 3000,
            SessionLookup::NotFound => r matches Some(n) && n.variant == crate::toast::ToastVariant::Error
                && n.message@ == "session not found: "@ + query@ && n.ttl_ms == 4000,
            SessionLookup::ShowMatches(count) => r matches Some(n) && n.variant
                == crate::toast::ToastVariant::Info && n.message@ == crate::text::decimal(count as nat)
                + " sessions matched \""@ + query@ + "\""@ && n.ttl_ms == 3000,
            SessionLookup::Open(_) => r is None,
        },
{
    match outcome {
        SessionLookup::Usage => Some(crate::toast::Notice {
            variant: crate::toast::ToastVariant::Warning,
            message: "usage: /sessions <id|query>".to_owned(),
            ttl_ms: 3000,
        }),
        SessionLookup::NotFound => Some(crate::toast::Notice {
            variant: crate::toast::ToastVariant::Error,
            message: crate::text::concat2("session not found: ", query),
            ttl_ms: 4000,
        }),
        SessionLookup::ShowMatches(count) => {
            let mut v = crate::text::decimal_of(count as u64);
            push_all(&mut v, &chars_of(" sessions matched \""));
            push_all(&mut v, &chars_of(query));
            push_all(&mut v, &chars_of("\""));
            Some(crate::toast::Notice {
                variant: crate::toast::ToastVariant::Info,
                message: crate::text::string_of(v.as_slice()),
                ttl_ms: 3000,
            })
        },
        SessionLookup::Open(_) => None,
    }
}


// ── What the session list shows ─────────────────────────────────────────────

/// The text of a session's row: a fork mark (or two spaces), the trimmed
/// title and two spaces when there is one, the id, two spaces and the age.
pub open spec fn session_row_spec(forked: bool, title: Option<Seq<char>>, id: Seq<char>, age: Seq<char>) -> Seq<char> {
    let t = match title {
        Some(t) => trim(t),
        None => Seq::empty(),
    };
    (if forked { "⑂ "@ } else { "  "@ }) + (if t.len() > 0 { t + "  "@ } else { Seq::empty() }) + id + "  "@ + age
}

pub fn session_row_text(forked: bool, title: Option<&str>, id: &str, age: &str) -> (r: String)
    ensures
        r@ == session_row_spec(
            forked,
            match title {
                Some(t) => Some(t@),
                None => None,
            },
            id@,
            age@,
        ),
{
    let mut v = if forked {
        chars_of("⑂ ")
    } else {
        chars_of("  ")
    };
    let t = match title {
        Some(t) => trim_chars(&chars_of(t)),
        None => Vec::new(),
    };
    if t.len() > 0 {
        push_all(&mut v, &t);
        push_all(&mut v, &chars_of("  "));
    }
    push_all(&mut v, &chars_of(id));
    push_all(&mut v, &chars_of("  "));
    push_all(&mut v, &chars_of(age));
    crate::text::string_of(v.as_slice())
}

/// What an empty session list says: how to start one, or, under a filter,
/// that nothing matches.
pub fn sessions_placeholder(filter: &str) -> (r: String)
    ensures
        trim(filter@).len() == 0 ==> r@ == "(no sessions yet - press n to create one)"@,
        trim(filter@).len() > 0 ==> r@ == "(no matches)"@,
{
    if trim_chars(&chars_of(filter)).len() == 0 {
        "(no sessions yet - press n to create one)".to_owned()
    } else {
        "(no matches)".to_owned()
    }
}

/// The first status line of the session list: the filter being typed, the
/// filter in force, or the newest toast; empty otherwise.
pub fn sessions_status_text(filter_active: bool, filter: &str, newest_toast: Option<&str>) -> (r: String)
    ensures
        filter_active ==> r@ == " filter: "@ + filter@,
        !filter_active && filter@.len() > 0 ==> r@ == " filter:"@ + filter@,
        !filter_active && filter@.len() == 0 ==> r@ == match newest_toast {
            Some(m) => " "@ + m@,
            None => Seq::<char>::empty(),
        },
{
    if filter_active {
        crate::text::concat2(" filter: ", filter)
    } else if chars_of(filter).len() > 0 {
        crate::text::concat2(" filter:", filter)
    } else {
        match newest_toast {
            Some(m) => crate::text::concat2(" ", m),
            None => String::new(),
        }
    }
}


// ── Laying out the chat screen ──────────────────────────────────────────────

/// How the chat screen divides a terminal `width` by `height` cells.
#[derive(Debug, Clone, Copy, PartialEq, Eq, Structural)]
pub struct ChatLayout {
    /// The activity pane is shown (it is hidden below 60 columns).
    pub activity_shown: bool,
    /// Columns inside the composer's borders.
    pub composer_inner_width: u16,
    /// Rows of the transcript (with its borders).
    pub transcript_height: u16,
    /// Rows of the composer or approval box (with its borders).
    pub bottom_height: u16,
}

/// The chat layout: the activity pane takes 28% of the width unless hidden
/// or the terminal is narrower than 60 columns; the composer box is as tall
/// as its wrapped lines and two borders, at least five rows, or, with an
/// approval pending, its options and three rows; a one-row mode bar and a
/// three-row status bar stay; the box leaves the transcript at least three
/// rows when it can, and the transcript takes the rest (at least one row).
pub open spec fn chat_layout_spec(width: nat, height: nat, hidden: bool, composer_lines: nat, pending_options: Option<nat>) -> (bool, nat, nat, nat) {
    let shown = !hidden && width >= 60;
    let left = if shown { width * 72 / 100 } else { width };
    let inner = if left >= 3 { (left - 2) as nat } else { 1 };
    let box_h: nat = match pending_options {
        Some(n) => n + 3,
        None => if composer_lines + 2 >= 5 { composer_lines + 2 } else { 5 },
    };
    let remaining: nat = if height >= 4 { (height - 4) as nat } else { 0 };
    let room: nat = if remaining >= 3 { (remaining - 3) as nat } else { 0 };
    let bottom = if box_h <= room { box_h } else { room };
    let transcript = if remaining - bottom >= 1 { (remaining - bottom) as nat } else { 1 };
    (shown, inner, transcript, bottom)
}

pub fn chat_layout(width: u16, height: u16, activity_hidden: bool, composer_lines: usize, pending_options: Option<usize>) -> (r: ChatLayout)
    requires
        !activity_hidden && width >= 60 ==> width * 72 <= u16::MAX,
        composer_lines + 2 <= u16::MAX,
        pending_options matches Some(n) ==> n + 3 <= u16::MAX,
    ensures
        ({
            let (shown, inner, transcript, bottom) = chat_layout_spec(
                width as nat,
                height as nat,
                activity_hidden,
                composer_lines as nat,
                match pending_options {
                    Some(n) => Some(n as nat),
                    None => None,
                },
            );
            &&& r.activity_shown == shown
            &&& r.composer_inner_width == inner
            &&& r.transcript_height == transcript
            &&& r.bottom_height == bottom
        }),
{
    let shown = !activity_hidden && width >= 60;
    let left: u16 = if shown {
        assert(width * 72 / 100 <= width) by (nonlinear_arith)
            requires
                width >= 0,
        ;
        ((width as u32) * 72 / 100) as u16
    } else {
        width
    };
    let inner: u16 = if left >= 3 { left - 2 } else { 1 };
    let box_h: u16 = match pending_options {
        Some(n) => (n + 3) as u16,
        None => {
            let c = (composer_lines + 2) as u16;
            if c >= 5 { c } else { 5 }
        },
    };
    let remaining = height.saturating_sub(4);
    let room = remaining.saturating_sub(3);
    let bottom = if box_h <= room { box_h } else { room };
    let transcript = if remaining - bottom >= 1 { remaining - bottom } else { 1 };
    ChatLayout { activity_shown: shown, composer_inner_width: inner, transcript_height: transcript, bottom_height: bottom }
}

/// The transcript's scroll limit and the first row shown, for `rows`
/// wrapped rows in a viewport `inner_height` rows high, scrolled `scroll`
/// rows up from the bottom (at most to the top).
pub fn transcript_scroll_top(rows: usize, inner_height: usize, scroll: usize) -> (r: (usize, usize))
    ensures
        r.0 == (if rows >= inner_height { rows - inner_height } else { 0 }),
        r.1 == r.0 - (if scroll <= r.0 { scroll } else { r.0 }),
{
    let max_scroll = rows.saturating_sub(inner_height);
    let from_bottom = if scroll <= max_scroll { scroll } else { max_scroll };
    (max_scroll, max_scroll - from_bottom)
}

} // verus!
