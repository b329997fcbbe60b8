//! Keys in the modal dialogs: the rename field, the feedback form, the
//! delete confirmation, the skill list, the command palette, the file
//! picker and transcript search.
use vstd::prelude::*;
use crate::keys::{is_letter, select_next, select_next_spec, Key, KeyPress};
use crate::palette::{compute_palette_view, item_texts, CommandId, CommandItem};
use crate::filters::{filter_pairs_view, idx_view};
use crate::toast::{Notice, ToastVariant};
use crate::parse::{before_char, before_char_of, split_once, split_once_of};
use crate::text::{chars_of, decimal, decimal_of, eq_chars, push_all, string_of, trim, trim_chars};
use crate::tool_text::{replace_all, replace_chars};

verus! {

broadcast use vstd::seq_lib::group_seq_properties;

// ── The rename field ────────────────────────────────────────────────────────

/// What a key does in the rename dialog.
#[derive(Debug, PartialEq, Eq)]
pub enum RenameStep {
    /// Esc: close without renaming.
    Cancel,
    /// Enter: rename to `title` (`None` clears the title, for a blank input).
    Submit { title: Option<String> },
    /// The field after the key: its text and cursor (in characters).
    Edit { input: String, cursor: usize },
}

pub enum RenameSpec {
    Cancel,
    Submit(Option<Seq<char>>),
    Edit(Seq<char>, nat),
}

impl View for RenameStep {
    type V = RenameSpec;

    open spec fn view(&self) -> RenameSpec {
        match self {
            RenameStep::Cancel => RenameSpec::Cancel,
            RenameStep::Submit { title } => RenameSpec::Submit(
                match title {
                    Some(t) => Some(t@),
                    None => None,
                },
            ),
            RenameStep::Edit { input, cursor } => RenameSpec::Edit(input@, *cursor as nat),
        }
    }
}

/// The rename field's response to `kp` with text `input` and the cursor
/// before character `cursor`: Left/Right move (within the text), Backspace
/// deletes the character before the cursor, a character (without Ctrl or
/// Alt) is inserted at the cursor (at the end when the cursor is past it).
pub open spec fn rename_spec(input: Seq<char>, cursor: nat, kp: KeyPress) -> RenameSpec {
    match kp.key {
        Key::Esc => RenameSpec::Cancel,
        Key::Enter => RenameSpec::Submit(
            if trim(input).len() == 0 {
                None
            } else {
                Some(input)
            },
        ),
        Key::Left => RenameSpec::Edit(input, if cursor > 0 { (cursor - 1) as nat } else { 0 }),
        Key::Right => RenameSpec::Edit(input, if cursor + 1 < input.len() { cursor + 1 } else { input.len() }),
        Key::Backspace => if cursor > 0 {
            RenameSpec::Edit(
                if cursor - 1 < input.len() {
                    input.remove(cursor - 1)
                } else {
                    input
                },
                (cursor - 1) as nat,
            )
        } else {
            RenameSpec::Edit(input, cursor)
        },
        Key::Char(c) => if !kp.ctrl && !kp.alt {
            RenameSpec::Edit(
                if cursor < input.len() {
                    input.insert(cursor as int, c)
                } else {
                    input.push(c)
                },
                cursor + 1,
            )
        } else {
            RenameSpec::Edit(input, cursor)
        },
        _ => RenameSpec::Edit(input, cursor),
    }
}

pub fn rename_input_key(input: &str, cursor: usize, kp: KeyPress) -> (r: RenameStep)
    requires
        cursor < usize::MAX,
    ensures
        r@ == rename_spec(input@, cursor as nat, kp),
{
    let mut v = chars_of(input);
    match kp.key {
        Key::Esc => RenameStep::Cancel,
        Key::Enter => {
            if trim_chars(&v).len() == 0 {
                RenameStep::Submit { title: None }
            } else {
                RenameStep::Submit { title: Some(input.to_owned()) }
            }
        },
        Key::Left => RenameStep::Edit { input: input.to_owned(), cursor: cursor.saturating_sub(1) },
        Key::Right => {
            let c = if cursor + 1 < v.len() {
                cursor + 1
            } else {
                v.len()
            };
            RenameStep::Edit { input: input.to_owned(), cursor: c }
        },
        Key::Backspace => {
            if cursor > 0 {
                if cursor - 1 < v.len() {
                    v.remove(cursor - 1);
                }
                RenameStep::Edit { input: string_of(v.as_slice()), cursor: cursor - 1 }
            } else {
                RenameStep::Edit { input: input.to_owned(), cursor }
            }
        },
        Key::Char(c) => {
            if !kp.ctrl && !kp.alt {
                if cursor < v.len() {
                    v.insert(cursor, c);
                } else {
                    v.push(c);
                }
                RenameStep::Edit { input: string_of(v.as_slice()), cursor: cursor + 1 }
            } else {
                RenameStep::Edit { input: input.to_owned(), cursor }
            }
        },
        _ => RenameStep::Edit { input: input.to_owned(), cursor },
    }
}

// ── The feedback form ───────────────────────────────────────────────────────

/// The feedback form: a thumbs up (`Some(true)`) or down, a comment, and
/// whether the comment field has the keyboard.
#[derive(Debug)]
pub struct FeedbackForm {
    pub rating: Option<bool>,
    pub comment: String,
    pub comment_active: bool,
}

/// What a key did to the feedback form.
#[derive(Debug, Clone, Copy, PartialEq, Eq, Structural)]
pub enum FeedbackOutcome {
    /// The form stays open.
    Stay,
    /// Enter without a rating: the form stays open and asks for one.
    NeedRating,
    /// Enter with a rating: record it with the comment and close.
    Submit(bool),
    /// Esc on the rating buttons: close without recording.
    Close,
}

/// The form (rating, comment, comment focus) and outcome after `kp`. Tab
/// switches focus and Enter submits from either field; in the comment
/// field Esc leaves it, Backspace and characters edit it; on the buttons
/// `u`, `+` or Left rate up, `d`, `-` or Right rate down, Esc closes.
pub open spec fn feedback_spec(rating: Option<bool>, comment: Seq<char>, active: bool, kp: KeyPress)
    -> (Option<bool>, Seq<char>, bool, FeedbackOutcome) {
    let k = kp.key;
    let active1 = if k == Key::Tab {
        !active
    } else {
        active
    };
    if k == Key::Enter && rating is Some {
        (rating, comment, active1, FeedbackOutcome::Submit(rating->0))
    } else {
        let pre = if k == Key::Enter {
            FeedbackOutcome::NeedRating
        } else {
            FeedbackOutcome::Stay
        };
        if active1 {
            match k {
                Key::Esc => (rating, comment, false, pre),
                Key::Backspace => (rating, if comment.len() > 0 { comment.drop_last() } else { comment }, active1, pre),
                Key::Char(c) => if !kp.ctrl && !kp.alt {
                    (rating, comment.push(c), active1, pre)
                } else {
                    (rating, comment, active1, pre)
                },
                _ => (rating, comment, active1, pre),
            }
        } else if k == Key::Esc {
            (rating, comment, active1, FeedbackOutcome::Close)
        } else if is_letter(k, 'u') || k == Key::Char('+') || k == Key::Left {
            (Some(true), comment, active1, pre)
        } else if is_letter(k, 'd') || k == Key::Char('-') || k == Key::Right {
            (Some(false), comment, active1, pre)
        } else {
            (rating, comment, active1, pre)
        }
    }
}

pub fn feedback_key(form: &mut FeedbackForm, kp: KeyPress) -> (r: FeedbackOutcome)
    ensures
        (final(form).rating, final(form).comment@, final(form).comment_active, r) == feedback_spec(
            old(form).rating,
            old(form).comment@,
            old(form).comment_active,
            kp,
        ),
{
    let k = kp.key;
    if k == Key::Tab {
        form.comment_active = !form.comment_active;
    }
    if k == Key::Enter {
        if let Some(p) = form.rating {
            return FeedbackOutcome::Submit(p);
        }
    }
    let pre = if k == Key::Enter {
        FeedbackOutcome::NeedRating
    } else {
        FeedbackOutcome::Stay
    };
    if form.comment_active {
        match k {
            Key::Esc => {
                form.comment_active = false;
            },
            Key::Backspace => {
                let mut v = chars_of(form.comment.as_str());
                if v.len() > 0 {
                    v.pop();
                }
                form.comment = string_of(v.as_slice());
            },
            Key::Char(c) => {
                if !kp.ctrl && !kp.alt {
                    let mut v = chars_of(form.comment.as_str());
                    v.push(c);
                    form.comment = string_of(v.as_slice());
                }
            },
            _ => {},
        }
        pre
    } else if k == Key::Esc {
        FeedbackOutcome::Close
    } else if k == Key::Char('u') || k == Key::Char('U') || k == Key::Char('+') || k == Key::Left {
        form.rating = Some(true);
        pre
    } else if k == Key::Char('d') || k == Key::Char('D') || k == Key::Char('-') || k == Key::Right {
        form.rating = Some(false);
        pre
    } else {
        pre
    }
}

/// `s` with backslashes and double quotes escaped for a JSON string.
pub open spec fn json_escaped(s: Seq<char>) -> Seq<char> {
    replace_all(replace_all(s, seq!['\\'], seq!['\\', '\\']), seq!['"'], seq!['\\', '"'])
}

/// The line recorded for a rating given at `ts` (seconds since the epoch):
/// `{"ts":…,"rating":"up"|"down","comment":"…"}` with the comment trimmed
/// and escaped.
pub open spec fn feedback_entry_text(ts: u64, positive: bool, comment: Seq<char>) -> Seq<char> {
    "{\"ts\":"@ + decimal(ts as nat) + ",\"rating\":\""@ + (if positive {
        "up"@
    } else {
        "down"@
    }) + "\",\"comment\":\""@ + json_escaped(trim(comment)) + "\"}"@
}

pub fn feedback_entry(ts: u64, is_positive: bool, comment: &str) -> (r: String)
    ensures
        r@ == feedback_entry_text(ts, is_positive, comment@),
{
    let t = trim_chars(&chars_of(comment));
    let mut bs: Vec<char> = Vec::new();
    bs.push('\\');
    let mut bs2: Vec<char> = Vec::new();
    bs2.push('\\');
    bs2.push('\\');
    let mut q: Vec<char> = Vec::new();
    q.push('"');
    let mut q2: Vec<char> = Vec::new();
    q2.push('\\');
    q2.push('"');
    proof {
        assert(bs@ =~= seq!['\\']);
        assert(bs2@ =~= seq!['\\', '\\']);
        assert(q@ =~= seq!['"']);
        assert(q2@ =~= seq!['\\', '"']);
    }
    let e1 = replace_chars(&t, &bs, &bs2);
    let safe = replace_chars(&e1, &q, &q2);
    let mut v = chars_of("{\"ts\":");
    push_all(&mut v, &decimal_of(ts));
    push_all(&mut v, &chars_of(",\"rating\":\""));
    push_all(&mut v, &chars_of(if is_positive {
        "up"
    } else {
        "down"
    }));
    push_all(&mut v, &chars_of("\",\"comment\":\""));
    push_all(&mut v, &safe);
    push_all(&mut v, &chars_of("\"}"));
    string_of(v.as_slice())
}

// ── Confirmation and the skill list ─────────────────────────────────────────

/// What a key does in the delete confirmation.
#[derive(Debug, Clone, Copy, PartialEq, Eq, Structural)]
pub enum ConfirmStep {
    /// Esc or `n`: close without deleting.
    Cancel,
    /// `y`: delete.
    Confirm,
    /// Any other key: keep asking.
    Keep,
}

pub fn delete_confirm_key(k: Key) -> (r: ConfirmStep)
    ensures
        r == (if k == Key::Esc || k == Key::Char('n') {
            ConfirmStep::Cancel
        } else if k == Key::Char('y') {
            ConfirmStep::Confirm
        } else {
            ConfirmStep::Keep
        }),
{
    if k == Key::Esc || k == Key::Char('n') {
        ConfirmStep::Cancel
    } else if k == Key::Char('y') {
        ConfirmStep::Confirm
    } else {
        ConfirmStep::Keep
    }
}

/// What a key does in the skill list.
#[derive(Debug, Clone, Copy, PartialEq, Eq, Structural)]
pub enum SkillListStep {
    Close,
    Select(usize),
    /// Enter or Space: switch the highlighted skill on or off.
    Toggle(usize),
    Keep,
}

pub open spec fn skill_list_spec(k: Key, selected: nat, len: nat) -> SkillListStep {
    if k == Key::Esc || len == 0 {
        SkillListStep::Close
    } else if k == Key::Up {
        SkillListStep::Select(if selected > 0 { (selected - 1) as usize } else { 0 })
    } else if k == Key::Down {
        SkillListStep::Select(select_next_spec(selected, len) as usize)
    } else if (k == Key::Enter || k == Key::Char(' ')) && selected < len {
        SkillListStep::Toggle(selected as usize)
    } else {
        SkillListStep::Keep
    }
}

/// The skill list closes on Esc and when it is empty.
pub fn skill_list_key(k: Key, selected: usize, len: usize) -> (r: SkillListStep)
    ensures
        r == skill_list_spec(k, selected as nat, len as nat),
{
    if k == Key::Esc || len == 0 {
        SkillListStep::Close
    } else if k == Key::Up {
        SkillListStep::Select(selected.saturating_sub(1))
    } else if k == Key::Down {
        SkillListStep::Select(select_next(selected, len))
    } else if (k == Key::Enter || k == Key::Char(' ')) && selected < len {
        SkillListStep::Toggle(selected)
    } else {
        SkillListStep::Keep
    }
}

// ── Picker lists (palette and files) ────────────────────────────────────────

/// What a key does in a filterable picker list.
#[derive(Debug, Clone, Copy, PartialEq, Eq, Structural)]
pub enum PickerStep {
    Close,
    /// Remove the last character of the query (and filter again).
    PopQuery,
    /// Add a character to the query (and filter again).
    PushQuery(char),
    Select(usize),
    /// Enter: act on the highlighted entry.
    Choose,
    Keep,
}

pub open spec fn picker_spec(kp: KeyPress, selected: nat, len: nat) -> PickerStep {
    let last: nat = if len > 0 {
        (len - 1) as nat
    } else {
        0
    };
    match kp.key {
        Key::Esc => PickerStep::Close,
        Key::Backspace => PickerStep::PopQuery,
        Key::Up => PickerStep::Select(if selected > 0 { (selected - 1) as usize } else { 0 }),
        Key::Down => PickerStep::Select(select_next_spec(selected, len) as usize),
        Key::PageUp => PickerStep::Select(if selected >= 10 { (selected - 10) as usize } else { 0 }),
        Key::PageDown => if len == 0 {
            PickerStep::Select(selected as usize)
        } else {
            PickerStep::Select(if selected + 10 < last { (selected + 10) as usize } else { last as usize })
        },
        Key::Enter => PickerStep::Choose,
        Key::Char(c) => if !kp.ctrl && !kp.alt {
            PickerStep::PushQuery(c)
        } else {
            PickerStep::Keep
        },
        _ => PickerStep::Keep,
    }
}

/// Keys of the command palette and the file picker: Esc closes, Backspace
/// and characters edit the query, the arrows and page keys move within the
/// `len` entries shown, Enter chooses.
pub fn picker_key(kp: KeyPress, selected: usize, len: usize) -> (r: PickerStep)
    ensures
        r == picker_spec(kp, selected as nat, len as nat),
{
    let last = len.saturating_sub(1);
    match kp.key {
        Key::Esc => PickerStep::Close,
        Key::Backspace => PickerStep::PopQuery,
        Key::Up => PickerStep::Select(selected.saturating_sub(1)),
        Key::Down => PickerStep::Select(select_next(selected, len)),
        Key::PageUp => PickerStep::Select(selected.saturating_sub(10)),
        Key::PageDown => if len == 0 {
            PickerStep::Select(selected)
        } else if selected < last && last - selected > 10 {
            PickerStep::Select(selected + 10)
        } else {
            PickerStep::Select(last)
        },
        Key::Enter => PickerStep::Choose,
        Key::Char(c) => if !kp.ctrl && !kp.alt {
            PickerStep::PushQuery(c)
        } else {
            PickerStep::Keep
        },
        _ => PickerStep::Keep,
    }
}

/// The command palette while open: its query, the entries it shows (indices
/// into the items) and the highlighted row.
pub struct PaletteState {
    pub query: String,
    pub view: Vec<usize>,
    pub selected: usize,
}

/// Applies a picker step to the palette over `items`: a typed character
/// extends the query, filters again and highlights the first row;
/// Backspace removes the last character, filters again and keeps the
/// highlight within the rows; a move highlights the row it names; the other
/// steps leave the palette as it is.
pub fn apply_palette_step(p: &mut PaletteState, items: &Vec<CommandItem>, step: PickerStep)
    ensures
        match step {
            PickerStep::PushQuery(c) => {
                &&& final(p).query@ == old(p).query@.push(c)
                &&& final(p).selected == 0
                &&& idx_view(final(p).view@) == filter_pairs_view(item_texts(items@), final(p).query@)
            },
            PickerStep::PopQuery => {
                &&& final(p).query@ == (if old(p).query@.len() > 0 {
                    old(p).query@.drop_last()
                } else {
                    old(p).query@
                })
                &&& idx_view(final(p).view@) == filter_pairs_view(item_texts(items@), final(p).query@)
                &&& final(p).selected == (if old(p).selected + 1 <= final(p).view@.len() {
                    old(p).selected as int
                } else if final(p).view@.len() > 0 {
                    final(p).view@.len() - 1
                } else {
                    0
                })
            },
            PickerStep::Select(n) => final(p).query@ == old(p).query@ && final(p).view@ == old(p).view@
                && final(p).selected == n,
            _ => final(p).query@ == old(p).query@ && final(p).view@ == old(p).view@ && final(p).selected
                == old(p).selected,
        },
{
    match step {
        PickerStep::PushQuery(c) => {
            let mut q = chars_of(p.query.as_str());
            q.push(c);
            p.query = string_of(q.as_slice());
            p.view = compute_palette_view(items, p.query.as_str());
            p.selected = 0;
        },
        PickerStep::PopQuery => {
            let mut q = chars_of(p.query.as_str());
            if q.len() > 0 {
                let ghost before = q@;
                q.pop();
                proof {
                    assert(q@ =~= before.drop_last());
                }
            }
            p.query = string_of(q.as_slice());
            p.view = compute_palette_view(items, p.query.as_str());
            let last = p.view.len().saturating_sub(1);
            if p.selected > last {
                p.selected = last;
            }
        },
        PickerStep::Select(n) => {
            p.selected = n;
        },
        _ => {},
    }
}

/// What Enter on the palette's entries does when the query is not a typed
/// command.
#[derive(Debug, PartialEq, Eq)]
pub enum PaletteChoice {
    /// Nothing highlighted: keep the palette open.
    NoSelection,
    /// The highlighted row names no entry: close the palette.
    Stale,
    /// A disabled entry: keep the palette open and say why.
    Disabled(String),
    /// Run the command and close the palette.
    Run(CommandId),
}

/// The palette's choice of row `selected` of `view` over `items`; a
/// disabled entry without a reason says "Disabled".
pub fn palette_choice(items: &Vec<CommandItem>, view: &Vec<usize>, selected: usize) -> (r: PaletteChoice)
    ensures
        selected >= view.len() ==> r == PaletteChoice::NoSelection,
        selected < view.len() && view@[selected as int] >= items.len() ==> r == PaletteChoice::Stale,
        selected < view.len() && view@[selected as int] < items.len() ==> {
            let it = items@[view@[selected as int] as int];
            if it.enabled {
                r == PaletteChoice::Run(it.id)
            } else {
                r matches PaletteChoice::Disabled(reason) && reason@ == match it.disabled_reason {
                    Some(s) => s@,
                    None => "Disabled"@,
                }
            }
        },
{
    if selected >= view.len() {
        return PaletteChoice::NoSelection;
    }
    let idx = view[selected];
    if idx >= items.len() {
        return PaletteChoice::Stale;
    }
    let it = &items[idx];
    if it.enabled {
        PaletteChoice::Run(it.id)
    } else {
        match &it.disabled_reason {
            Some(s) => PaletteChoice::Disabled(s.clone()),
            None => PaletteChoice::Disabled("Disabled".to_owned()),
        }
    }
}

/// The notice of a feedback outcome: asking for a rating first (a warning),
/// or thanks once it is recorded (both for three seconds).
pub fn feedback_notice(outcome: FeedbackOutcome) -> (r: Option<Notice>)
    ensures
        match outcome {
            FeedbackOutcome::NeedRating => r matches Some(n) && n.variant == ToastVariant::Warning
                && n.message@ == "select a rating first: u = thumbs up, d = thumbs down"@ && n.ttl_ms == 3000,
            FeedbackOutcome::Submit(_) => r matches Some(n) && n.variant == ToastVariant::Success
                && n.message@ == "feedback recorded — thank you!"@ && n.ttl_ms == 3000,
            _ => r is None,
        },
{
    match outcome {
        FeedbackOutcome::NeedRating => Some(
            Notice {
                variant: ToastVariant::Warning,
                message: "select a rating first: u = thumbs up, d = thumbs down".to_owned(),
                ttl_ms: 3000,
            },
        ),
        FeedbackOutcome::Submit(_) => Some(
            Notice { variant: ToastVariant::Success, message: "feedback recorded — thank you!".to_owned(), ttl_ms: 3000 },
        ),
        _ => None,
    }
}

/// The notice after the file picker inserted `path` (for two seconds).
pub fn file_inserted_notice(path: &str) -> (r: Notice)
    ensures
        r.variant == ToastVariant::Info,
        r.message@ == "inserted: "@ + path@,
        r.ttl_ms == 2000,
{
    Notice { variant: ToastVariant::Info, message: crate::text::concat2("inserted: ", path), ttl_ms: 2000 }
}

/// The text the file picker inserts for `path`: `@` and the path.
pub fn file_mention(path: &str) -> (r: String)
    ensures
        r@ == seq!['@'] + path@,
{
    let mut v: Vec<char> = Vec::new();
    v.push('@');
    push_all(&mut v, &chars_of(path));
    string_of(v.as_slice())
}

// ── Transcript search ───────────────────────────────────────────────────────

/// What a key does in the transcript search box.
#[derive(Debug, Clone, Copy, PartialEq, Eq, Structural)]
pub enum SearchStep {
    Close,
    Next,
    Prev,
    PopQuery,
    PushQuery(char),
    Keep,
}

/// Esc closes; Enter, `n` and Down go to the next match; `N` and Up to the
/// previous; Backspace and other characters (without Ctrl or Alt) edit
/// the query.
pub open spec fn search_spec(kp: KeyPress) -> SearchStep {
    match kp.key {
        Key::Esc => SearchStep::Close,
        Key::Enter | Key::Down => SearchStep::Next,
        Key::Up => SearchStep::Prev,
        Key::Backspace => SearchStep::PopQuery,
        Key::Char(c) => if c == 'n' {
            SearchStep::Next
        } else if c == 'N' {
            SearchStep::Prev
        } else if !kp.ctrl && !kp.alt {
            SearchStep::PushQuery(c)
        } else {
            SearchStep::Keep
        },
        _ => SearchStep::Keep,
    }
}

pub fn search_key(kp: KeyPress) -> (r: SearchStep)
    ensures
        r == search_spec(kp),
{
    match kp.key {
        Key::Esc => SearchStep::Close,
        Key::Enter | Key::Down => SearchStep::Next,
        Key::Up => SearchStep::Prev,
        Key::Backspace => SearchStep::PopQuery,
        Key::Char(c) => if c == 'n' {
            SearchStep::Next
        } else if c == 'N' {
            SearchStep::Prev
        } else if !kp.ctrl && !kp.alt {
            SearchStep::PushQuery(c)
        } else {
            SearchStep::Keep
        },
        _ => SearchStep::Keep,
    }
}


/// The status line of the search dialog: a prompt while the query is blank,
/// `No matches`, or which match of how many is shown.
pub fn search_status(query: &str, current: usize, matches: usize) -> (r: String)
    ensures
        trim(query@).len() == 0 ==> r@ == "Type to search"@,
        trim(query@).len() > 0 && matches == 0 ==> r@ == "No matches"@,
        trim(query@).len() > 0 && matches > 0 ==> r@ == "Match "@ + decimal(
            if current < usize::MAX { current as nat + 1 } else { current as nat },
        ) + "/"@ + decimal(matches as nat),
{
    if trim_chars(&chars_of(query)).len() == 0 {
        return "Type to search".to_owned();
    }
    if matches == 0 {
        return "No matches".to_owned();
    }
    let shown = current.saturating_add(1);
    let mut v = chars_of("Match ");
    push_all(&mut v, &decimal_of(shown as u64));
    push_all(&mut v, &chars_of("/"));
    push_all(&mut v, &decimal_of(matches as u64));
    string_of(v.as_slice())
}

/// A row of the skill toggle list: `[x]` when enabled (else `[ ]`), a space,
/// the name, and `  — ` with the description when it is not empty.
pub open spec fn skill_row_spec(name: Seq<char>, desc: Seq<char>, enabled: bool) -> Seq<char> {
    (if enabled { "[x] "@ } else { "[ ] "@ }) + name + (if desc.len() == 0 { Seq::empty() } else { "  — "@ + desc })
}

pub fn skill_row_text(name: &str, desc: &str, enabled: bool) -> (r: String)
    ensures
        r@ == skill_row_spec(name@, desc@, enabled),
{
    let mut v = if enabled {
        chars_of("[x] ")
    } else {
        chars_of("[ ] ")
    };
    push_all(&mut v, &chars_of(name));
    let d = chars_of(desc);
    if d.len() > 0 {
        push_all(&mut v, &chars_of("  — "));
        push_all(&mut v, &d);
    }
    string_of(v.as_slice())
}


/// The second `/`-separated part of `s` (std's `split('/').nth(1)`).
pub open spec fn second_part(s: Seq<char>) -> Option<Seq<char>> {
    match split_once(s, "/"@) {
        Some((_, rest)) => Some(before_char(rest, '/')),
        None => None,
    }
}

/// The model picker marks `entry` as the current model when it is the
/// current model, or one of the two is the other's part after the provider.
pub open spec fn is_current_model(entry: Seq<char>, current: Seq<char>) -> bool {
    entry == current || second_part(entry) == Some(current) || second_part(current) == Some(entry)
}

/// `s` padded with spaces to at least `n` characters.
pub open spec fn padded(s: Seq<char>, n: nat) -> Seq<char> {
    if s.len() >= n {
        s
    } else {
        s + Seq::new((n - s.len()) as nat, |_i: int| ' ')
    }
}

/// A row of the model picker: `[*]` for the current model (else `[ ]`), a
/// space, the provider padded to 12 characters, a space and the model id
/// (an id without a `/` has an empty provider).
pub open spec fn model_row_spec(entry: Seq<char>, current: Seq<char>) -> Seq<char> {
    let (provider, model_id) = match split_once(entry, "/"@) {
        Some((p, m)) => (p, m),
        None => (Seq::empty(), entry),
    };
    (if is_current_model(entry, current) { "[*] "@ } else { "[ ] "@ }) + padded(provider, 12) + " "@ + model_id
}

fn second_part_of(s: &Vec<char>) -> (r: Option<Vec<char>>)
    ensures
        match second_part(s@) {
            Some(p) => r matches Some(x) && x@ == p,
            None => r is None,
        },
{
    let slash = chars_of("/");
    match split_once_of(s, &slash) {
        Some((_, rest)) => Some(before_char_of(&rest, '/')),
        None => None,
    }
}

fn eq_opt(a: &Option<Vec<char>>, b: &Vec<char>) -> (r: bool)
    ensures
        r == (a matches Some(x) && x@ == b@),
{
    match a {
        Some(x) => eq_chars(x, b),
        None => false,
    }
}

fn padded_of(p: &Vec<char>, n: usize) -> (r: Vec<char>)
    requires
        n <= 64,
    ensures
        r@ == padded(p@, n as nat),
{
    let mut v = p.clone();
    proof {
        assert(v@ == p@);
    }
    let mut k = p.len();
    if k >= n {
        return v;
    }
    while k < n
        invariant
            p.len() <= k <= n,
            v@ == p@ + Seq::new((k - p.len()) as nat, |_i: int| ' '),
        decreases n - k,
    {
        v.push(' ');
        proof {
            assert(v@ =~= p@ + Seq::new((k + 1 - p.len()) as nat, |_i: int| ' '));
        }
        k = k + 1;
    }
    v
}

fn is_current_of(e: &Vec<char>, c: &Vec<char>) -> (r: bool)
    ensures
        r == is_current_model(e@, c@),
{
    eq_chars(e, c) || eq_opt(&second_part_of(e), c) || eq_opt(&second_part_of(c), e)
}

pub fn model_row_text(entry: &str, current: &str) -> (r: (bool, String))
    ensures
        r.0 == is_current_model(entry@, current@),
        r.1@ == model_row_spec(entry@, current@),
{
    let e = chars_of(entry);
    let c = chars_of(current);
    let cur = is_current_of(&e, &c);
    let slash = chars_of("/");
    let parts = split_once_of(&e, &slash);
    let (provider, model_id) = match parts {
        Some((p, m)) => (p, m),
        None => (Vec::new(), e.clone()),
    };
    let mut v = if cur {
        chars_of("[*] ")
    } else {
        chars_of("[ ] ")
    };
    push_all(&mut v, &padded_of(&provider, 12));
    push_all(&mut v, &chars_of(" "));
    push_all(&mut v, &model_id);
    (cur, string_of(v.as_slice()))
}


/// The title of the file picker's list: how many paths are shown of how
/// many were found.
pub fn file_list_title(shown: usize, total: usize) -> (r: String)
    ensures
        r@ == "Files ("@ + decimal(shown as nat) + "/"@ + decimal(total as nat) + ")"@,
{
    let mut v = chars_of("Files (");
    push_all(&mut v, &decimal_of(shown as u64));
    push_all(&mut v, &chars_of("/"));
    push_all(&mut v, &decimal_of(total as u64));
    push_all(&mut v, &chars_of(")"));
    string_of(v.as_slice())
}

pub open spec fn strings_view(v: Seq<String>) -> Seq<Seq<char>> {
    v.map_values(|s: String| s@)
}

/// The text of the delete confirmation for the session `session_id` titled
/// `title`.
pub open spec fn delete_confirm_spec(session_id: Seq<char>, title: Seq<char>) -> Seq<Seq<char>> {
    seq![
        "This will delete the session from disk."@,
        Seq::empty(),
        "id: "@ + session_id,
        "title: "@ + title,
        Seq::empty(),
        "y: delete    n/Esc: cancel"@,
    ]
}

fn prefixed(p: &str, s: &str) -> (r: String)
    ensures
        r@ == p@ + s@,
{
    let mut v = chars_of(p);
    push_all(&mut v, &chars_of(s));
    string_of(v.as_slice())
}

/// The lines of the delete confirmation.
pub fn delete_confirm_lines(session_id: &str, title: &str) -> (r: Vec<String>)
    ensures
        strings_view(r@) == delete_confirm_spec(session_id@, title@),
{
    let mut out: Vec<String> = Vec::new();
    out.push("This will delete the session from disk.".to_owned());
    out.push(String::new());
    out.push(prefixed("id: ", session_id));
    out.push(prefixed("title: ", title));
    out.push(String::new());
    out.push("y: delete    n/Esc: cancel".to_owned());
    proof {
        assert(strings_view(out@) =~= delete_confirm_spec(session_id@, title@));
    }
    out
}

} // verus!
