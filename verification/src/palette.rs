//! The command palette: its entries, filtering them by a query, and the
//! typed commands (`rename <title>`, `delete <id>`, …) that Enter runs.
use vstd::prelude::*;
use crate::toast::{Notice, ToastVariant};
use crate::filters::{filter_pairs, filter_pairs_view, idx_view};
use crate::parse::{split_once, split_once_of};
use crate::text::{chars_of, eq_str, has_prefix, lower_chars, lower_seq, string_of, trim, trim_chars};
use crate::tool_text::opt_view;
use crate::markdown::{SpanStyle, SpanView, StyledSpan, Tone, spans_view};

verus! {

broadcast use vstd::seq_lib::group_seq_properties;

/// The commands that the palette offers.
#[derive(Debug, Clone, Copy, PartialEq, Eq, Structural)]
pub enum CommandId {
    Help,
    Sessions,
    NewSession,
    ForkSession,
    RenameSession,
    DeleteSession,
    Refresh,
    ToggleTools,
    ToggleReasoning,
    Search,
    FileSearch,
    ToggleActivity,
    CancelRun,
    Quit,
    ToggleSkills,
    Feedback,
    SwitchModel,
    ManageProviders,
    ViewMemory,
}

/// An entry of the palette.
#[derive(Debug)]
pub struct CommandItem {
    pub id: CommandId,
    pub title: String,
    pub detail: String,
    pub enabled: bool,
    pub disabled_reason: Option<String>,
}

/// An entry as plain values: id, title, detail, enabled, reason.
pub type ItemView = (CommandId, Seq<char>, Seq<char>, bool, Option<Seq<char>>);

impl View for CommandItem {
    type V = ItemView;

    open spec fn view(&self) -> ItemView {
        (
            self.id,
            self.title@,
            self.detail@,
            self.enabled,
            match self.disabled_reason {
                Some(r) => Some(r@),
                None => None,
            },
        )
    }
}

pub open spec fn open_first() -> Seq<char> {
    "Open a session first"@
}

pub open spec fn attach_only() -> Seq<char> {
    "Not supported in attach mode"@
}

/// The palette's entries, in title order, for a palette opened in a chat
/// (`in_chat`) whose turn is `running`, in attach mode or not.
pub open spec fn command_items(in_chat: bool, running: bool, attach: bool) -> Seq<ItemView> {
    seq![
        (CommandId::CancelRun, "Cancel run"@, "Cancel the running command  Ctrl+C"@, in_chat && running,
            if !in_chat { Some(open_first()) } else if !running { Some("Nothing is running"@) } else { None }),
        (CommandId::DeleteSession, "Delete session"@, "Delete selected session  /delete"@, !attach,
            if attach { Some(attach_only()) } else { None }),
        (CommandId::Feedback, "Feedback"@, "Rate this session with thumbs up/down (Ctrl+B)"@, true, None),
        (CommandId::FileSearch, "File search"@, "Browse workspace files (Ctrl+T)"@, true, None),
        (CommandId::ForkSession, "Fork session"@, "Fork current session  Ctrl+F"@, in_chat && !running && !attach,
            if !in_chat { Some(open_first()) } else if running { Some("Cannot fork session while running"@) }
            else if attach { Some(attach_only()) } else { None }),
        (CommandId::Help, "Help"@, "Show keybindings and tips  ?"@, true, None),
        (CommandId::ViewMemory, "Memory"@, "View and manage persistent memory  /memory"@, true, None),
        (CommandId::NewSession, "New session"@, "Create a new session  Ctrl+N"@, !running,
            if running { Some("Cannot create session while running"@) } else { None }),
        (CommandId::ManageProviders, "Providers"@, "Connect/disconnect LLM providers (Ctrl+A)"@, true, None),
        (CommandId::Quit, "Quit"@, "Exit the app  Ctrl+C twice"@, true, None),
        (CommandId::Refresh, "Refresh"@, "Reload sessions or transcript  Ctrl+R"@, true, None),
        (CommandId::RenameSession, "Rename session"@, "Edit the session title  /rename <title>"@, !attach,
            if attach { Some(attach_only()) } else { None }),
        (CommandId::Search, "Search transcript"@, "Find in transcript  /find <query>"@, in_chat,
            if !in_chat { Some(open_first()) } else { None }),
        (CommandId::Sessions, "Sessions"@, "Go to session picker  Ctrl+Q"@, true, None),
        (CommandId::ToggleSkills, "Skills"@, "Toggle enabled/disabled skills (Ctrl+S)"@, true, None),
        (CommandId::SwitchModel, "Switch model"@, "Pick a different LLM model for this session (Ctrl+M)"@, true, None),
        (CommandId::ToggleActivity, "Toggle activity panel"@, "Toggle activity panel (Ctrl+W)"@, in_chat,
            if !in_chat { Some(open_first()) } else { None }),
    ]
}

fn item(id: CommandId, title: &str, detail: &str, enabled: bool, reason: Option<&str>) -> (r: CommandItem)
    ensures
        r@ == (id, title@, detail@, enabled, opt_view(reason)),
{
    CommandItem {
        id,
        title: title.to_owned(),
        detail: detail.to_owned(),
        enabled,
        disabled_reason: match reason {
            Some(s) => Some(s.to_owned()),
            None => None,
        },
    }
}

/// The palette's entries, sorted by title.
pub fn build_command_items(in_chat: bool, chat_running: bool, attach_mode: bool) -> (r: Vec<CommandItem>)
    ensures
        r@.map_values(|i: CommandItem| i@) == command_items(in_chat, chat_running, attach_mode),
{
    let open_first_s = "Open a session first";
    let attach_s = "Not supported in attach mode";
    let mut v: Vec<CommandItem> = Vec::new();
    v.push(item(CommandId::CancelRun, "Cancel run", "Cancel the running command  Ctrl+C", in_chat && chat_running,
        if !in_chat { Some(open_first_s) } else if !chat_running { Some("Nothing is running") } else { None }));
    v.push(item(CommandId::DeleteSession, "Delete session", "Delete selected session  /delete", !attach_mode,
        if attach_mode { Some(attach_s) } else { None }));
    v.push(item(CommandId::Feedback, "Feedback", "Rate this session with thumbs up/down (Ctrl+B)", true, None));
    v.push(item(CommandId::FileSearch, "File search", "Browse workspace files (Ctrl+T)", true, None));
    v.push(item(CommandId::ForkSession, "Fork session", "Fork current session  Ctrl+F",
        in_chat && !chat_running && !attach_mode,
        if !in_chat { Some(open_first_s) } else if chat_running { Some("Cannot fork session while running") }
        else if attach_mode { Some(attach_s) } else { None }));
    v.push(item(CommandId::Help, "Help", "Show keybindings and tips  ?", true, None));
    v.push(item(CommandId::ViewMemory, "Memory", "View and manage persistent memory  /memory", true, None));
    v.push(item(CommandId::NewSession, "New session", "Create a new session  Ctrl+N", !chat_running,
        if chat_running { Some("Cannot create session while running") } else { None }));
    v.push(item(CommandId::ManageProviders, "Providers", "Connect/disconnect LLM providers (Ctrl+A)", true, None));
    v.push(item(CommandId::Quit, "Quit", "Exit the app  Ctrl+C twice", true, None));
    v.push(item(CommandId::Refresh, "Refresh", "Reload sessions or transcript  Ctrl+R", true, None));
    v.push(item(CommandId::RenameSession, "Rename session", "Edit the session title  /rename <title>", !attach_mode,
        if attach_mode { Some(attach_s) } else { None }));
    v.push(item(CommandId::Search, "Search transcript", "Find in transcript  /find <query>", in_chat,
        if !in_chat { Some(open_first_s) } else { None }));
    v.push(item(CommandId::Sessions, "Sessions", "Go to session picker  Ctrl+Q", true, None));
    v.push(item(CommandId::ToggleSkills, "Skills", "Toggle enabled/disabled skills (Ctrl+S)", true, None));
    v.push(item(CommandId::SwitchModel, "Switch model", "Pick a different LLM model for this session (Ctrl+M)", true, None));
    v.push(item(CommandId::ToggleActivity, "Toggle activity panel", "Toggle activity panel (Ctrl+W)", in_chat,
        if !in_chat { Some(open_first_s) } else { None }));
    proof {
        assert(v@.map_values(|i: CommandItem| i@) =~= command_items(in_chat, chat_running, attach_mode));
    }
    v
}

/// `a` sorts strictly before `b` in the order of `str`'s `Ord`
/// (character by character; a proper prefix first).
pub open spec fn lex_lt(a: Seq<char>, b: Seq<char>) -> bool
    decreases a.len(),
{
    if b.len() == 0 {
        false
    } else if a.len() == 0 {
        true
    } else if a[0] != b[0] {
        a[0] < b[0]
    } else {
        lex_lt(a.drop_first(), b.drop_first())
    }
}

/// The palette lists its entries in title order, whatever the state it is
/// opened in.
pub proof fn law_palette_in_title_order(in_chat: bool, running: bool, attach: bool)
    ensures
        forall|i: int|
            0 <= i < command_items(in_chat, running, attach).len() - 1 ==> #[trigger] lex_lt(
                command_items(in_chat, running, attach)[i].1,
                command_items(in_chat, running, attach)[i + 1].1,
            ),
{
    let items = command_items(in_chat, running, attach);
    assert(lex_lt("Cancel run"@, "Delete session"@)) by {
        reveal_strlit("Cancel run");
        reveal_strlit("Delete session");
        reveal_with_fuel(lex_lt, 4);
    }
    assert(lex_lt("Delete session"@, "Feedback"@)) by {
        reveal_strlit("Delete session");
        reveal_strlit("Feedback");
        reveal_with_fuel(lex_lt, 4);
    }
    assert(lex_lt("Feedback"@, "File search"@)) by {
        reveal_strlit("Feedback");
        reveal_strlit("File search");
        reveal_with_fuel(lex_lt, 4);
    }
    assert(lex_lt("File search"@, "Fork session"@)) by {
        reveal_strlit("File search");
        reveal_strlit("Fork session");
        reveal_with_fuel(lex_lt, 4);
    }
    assert(lex_lt("Fork session"@, "Help"@)) by {
        reveal_strlit("Fork session");
        reveal_strlit("Help");
        reveal_with_fuel(lex_lt, 4);
    }
    assert(lex_lt("Help"@, "Memory"@)) by {
        reveal_strlit("Help");
        reveal_strlit("Memory");
        reveal_with_fuel(lex_lt, 4);
    }
    assert(lex_lt("Memory"@, "New session"@)) by {
        reveal_strlit("Memory");
        reveal_strlit("New session");
        reveal_with_fuel(lex_lt, 4);
    }
    assert(lex_lt("New session"@, "Providers"@)) by {
        reveal_strlit("New session");
        reveal_strlit("Providers");
        reveal_with_fuel(lex_lt, 4);
    }
    assert(lex_lt("Providers"@, "Quit"@)) by {
        reveal_strlit("Providers");
        reveal_strlit("Quit");
        reveal_with_fuel(lex_lt, 4);
    }
    assert(lex_lt("Quit"@, "Refresh"@)) by {
        reveal_strlit("Quit");
        reveal_strlit("Refresh");
        reveal_with_fuel(lex_lt, 4);
    }
    assert(lex_lt("Refresh"@, "Rename session"@)) by {
        reveal_strlit("Refresh");
        reveal_strlit("Rename session");
        reveal_with_fuel(lex_lt, 4);
    }
    assert(lex_lt("Rename session"@, "Search transcript"@)) by {
        reveal_strlit("Rename session");
        reveal_strlit("Search transcript");
        reveal_with_fuel(lex_lt, 4);
    }
    assert(lex_lt("Search transcript"@, "Sessions"@)) by {
        reveal_strlit("Search transcript");
        reveal_strlit("Sessions");
        reveal_with_fuel(lex_lt, 4);
    }
    assert(lex_lt("Sessions"@, "Skills"@)) by {
        reveal_strlit("Sessions");
        reveal_strlit("Skills");
        reveal_with_fuel(lex_lt, 4);
    }
    assert(lex_lt("Skills"@, "Switch model"@)) by {
        reveal_strlit("Skills");
        reveal_strlit("Switch model");
        reveal_with_fuel(lex_lt, 4);
    }
    assert(lex_lt("Switch model"@, "Toggle activity panel"@)) by {
        reveal_strlit("Switch model");
        reveal_strlit("Toggle activity panel");
        reveal_with_fuel(lex_lt, 4);
    }
    assert forall|i: int| 0 <= i < items.len() - 1 implies #[trigger] lex_lt(items[i].1, items[i + 1].1) by {
        assert(items.len() == 17);
    }
}

// ── Filtering ───────────────────────────────────────────────────────────────

/// The (title, detail) texts of the entries.
pub open spec fn item_texts(items: Seq<CommandItem>) -> Seq<(Seq<char>, Seq<char>)> {
    items.map_values(|i: CommandItem| (i.title@, i.detail@))
}

/// Indices of the entries whose "title<TAB>detail" contains the trimmed
/// query, ASCII case-insensitively; all entries for a blank query.
pub fn compute_palette_view(items: &Vec<CommandItem>, query: &str) -> (r: Vec<usize>)
    ensures
        idx_view(r@) == filter_pairs_view(item_texts(items@), query@),
{
    let mut pairs: Vec<(String, String)> = Vec::new();
    let mut i: usize = 0;
    while i < items.len()
        invariant
            i <= items.len(),
            pairs@.map_values(|p: (String, String)| (p.0@, p.1@)) == item_texts(items@.take(i as int)),
        decreases items.len() - i,
    {
        proof {
            assert(item_texts(items@.take(i + 1)) =~= item_texts(items@.take(i as int)).push(
                (items@[i as int].title@, items@[i as int].detail@),
            ));
        }
        pairs.push((items[i].title.clone(), items[i].detail.clone()));
        proof {
            assert(pairs@.map_values(|p: (String, String)| (p.0@, p.1@)) =~= item_texts(
                items@.take(i + 1),
            ));
        }
        i = i + 1;
    }
    proof {
        assert(items@.take(items.len() as int) =~= items@);
    }
    filter_pairs(&pairs, query)
}

// ── Typed commands ──────────────────────────────────────────────────────────

/// What a query typed in the palette asks for when Enter is pressed.
#[derive(Debug, PartialEq, Eq)]
pub enum PaletteQuery {
    /// Not a typed command: Enter runs the selected entry.
    NotACommand,
    Help,
    ToSessions,
    OpenSession { id: String },
    /// `open` / `session` without an id.
    SessionUsage,
    Run(CommandId),
    Search { query: String },
    /// `rename` without a title.
    RenameUsage,
    /// Rename session `target` (the current one when `None`) to `title`.
    Rename { target: Option<String>, title: String },
    /// Ask to delete session `target` (the current one when `None`).
    Delete { target: Option<String> },
}

/// `PaletteQuery` with its texts as character sequences.
pub enum PaletteSpec {
    NotACommand,
    Help,
    ToSessions,
    OpenSession(Seq<char>),
    SessionUsage,
    Run(CommandId),
    Search(Seq<char>),
    RenameUsage,
    Rename(Option<Seq<char>>, Seq<char>),
    Delete(Option<Seq<char>>),
}

pub open spec fn opt_string_view(o: Option<String>) -> Option<Seq<char>> {
    match o {
        Some(s) => Some(s@),
        None => None,
    }
}

impl View for PaletteQuery {
    type V = PaletteSpec;

    open spec fn view(&self) -> PaletteSpec {
        match self {
            PaletteQuery::NotACommand => PaletteSpec::NotACommand,
            PaletteQuery::Help => PaletteSpec::Help,
            PaletteQuery::ToSessions => PaletteSpec::ToSessions,
            PaletteQuery::OpenSession { id } => PaletteSpec::OpenSession(id@),
            PaletteQuery::SessionUsage => PaletteSpec::SessionUsage,
            PaletteQuery::Run(c) => PaletteSpec::Run(*c),
            PaletteQuery::Search { query } => PaletteSpec::Search(query@),
            PaletteQuery::RenameUsage => PaletteSpec::RenameUsage,
            PaletteQuery::Rename { target, title } => PaletteSpec::Rename(opt_string_view(*target), title@),
            PaletteQuery::Delete { target } => PaletteSpec::Delete(opt_string_view(*target)),
        }
    }
}

/// The verb (first word, as typed) and the rest (trimmed) of a query.
pub open spec fn query_parts(query: Seq<char>) -> (Seq<char>, Seq<char>) {
    let t = trim(query);
    match split_once(t, " "@) {
        Some((a, b)) => (a, trim(b)),
        None => (t, Seq::empty()),
    }
}

/// Verbs that run a palette command directly.
pub open spec fn verb_command(verb: Seq<char>) -> Option<CommandId> {
    if verb == "new"@ {
        Some(CommandId::NewSession)
    } else if verb == "fork"@ {
        Some(CommandId::ForkSession)
    } else if verb == "refresh"@ || verb == "reload"@ {
        Some(CommandId::Refresh)
    } else if verb == "tools"@ {
        Some(CommandId::ToggleTools)
    } else if verb == "thinking"@ || verb == "reasoning"@ {
        Some(CommandId::ToggleReasoning)
    } else if verb == "model"@ || verb == "models"@ {
        Some(CommandId::SwitchModel)
    } else if verb == "providers"@ || verb == "auth"@ || verb == "connect"@ {
        Some(CommandId::ManageProviders)
    } else {
        None
    }
}

/// `rename <id> <title>` names a session when the first word starts with
/// `s` and a title follows; otherwise the whole rest is the title.
pub open spec fn rename_spec(rest: Seq<char>) -> PaletteSpec {
    match split_once(rest, " "@) {
        Some((id, title)) => if has_prefix(id, "s"@) && trim(title).len() > 0 {
            PaletteSpec::Rename(Some(id), trim(title))
        } else {
            PaletteSpec::Rename(None, rest)
        },
        None => PaletteSpec::Rename(None, rest),
    }
}

/// What the palette query `query` asks for. The verb is matched ASCII
/// case-insensitively.
pub open spec fn palette_query(query: Seq<char>) -> PaletteSpec {
    let verb = lower_seq(query_parts(query).0);
    let rest = query_parts(query).1;
    if trim(query).len() == 0 {
        PaletteSpec::NotACommand
    } else if verb == "help"@ {
        PaletteSpec::Help
    } else if verb == "sessions"@ || verb == "home"@ || verb == "resume"@ {
        if rest.len() == 0 {
            PaletteSpec::ToSessions
        } else {
            PaletteSpec::OpenSession(rest)
        }
    } else if verb_command(verb) is Some {
        PaletteSpec::Run(verb_command(verb)->0)
    } else if verb == "search"@ || verb == "find"@ {
        PaletteSpec::Search(rest)
    } else if verb == "open"@ || verb == "session"@ {
        if rest.len() == 0 {
            PaletteSpec::SessionUsage
        } else {
            PaletteSpec::OpenSession(rest)
        }
    } else if verb == "rename"@ {
        if rest.len() == 0 {
            PaletteSpec::RenameUsage
        } else {
            rename_spec(rest)
        }
    } else if verb == "delete"@ {
        PaletteSpec::Delete(
            if rest.len() == 0 {
                None
            } else {
                Some(rest)
            },
        )
    } else {
        PaletteSpec::NotACommand
    }
}

fn query_parts_of(query: &str) -> (r: (Vec<char>, Vec<char>))
    ensures
        (r.0@, r.1@) == query_parts(query@),
{
    let t = trim_chars(&chars_of(query));
    match split_once_of(&t, &chars_of(" ")) {
        Some((a, b)) => (a, trim_chars(&b)),
        None => (t, Vec::new()),
    }
}

fn verb_command_of(verb: &Vec<char>) -> (r: Option<CommandId>)
    ensures
        r == verb_command(verb@),
{
    if eq_str(verb, "new") {
        Some(CommandId::NewSession)
    } else if eq_str(verb, "fork") {
        Some(CommandId::ForkSession)
    } else if eq_str(verb, "refresh") || eq_str(verb, "reload") {
        Some(CommandId::Refresh)
    } else if eq_str(verb, "tools") {
        Some(CommandId::ToggleTools)
    } else if eq_str(verb, "thinking") || eq_str(verb, "reasoning") {
        Some(CommandId::ToggleReasoning)
    } else if eq_str(verb, "model") || eq_str(verb, "models") {
        Some(CommandId::SwitchModel)
    } else if eq_str(verb, "providers") || eq_str(verb, "auth") || eq_str(verb, "connect") {
        Some(CommandId::ManageProviders)
    } else {
        None
    }
}

fn rename_of(rest: &Vec<char>) -> (r: PaletteQuery)
    ensures
        r@ == rename_spec(rest@),
{
    match split_once_of(rest, &chars_of(" ")) {
        Some((id, title)) => {
            let t = trim_chars(&title);
            if crate::text::has_prefix_exec(&id, &chars_of("s")) && t.len() > 0 {
                PaletteQuery::Rename { target: Some(string_of(id.as_slice())), title: string_of(t.as_slice()) }
            } else {
                PaletteQuery::Rename { target: None, title: string_of(rest.as_slice()) }
            }
        },
        None => PaletteQuery::Rename { target: None, title: string_of(rest.as_slice()) },
    }
}

/// Reads the palette query `query`.
pub fn parse_palette_query(query: &str) -> (r: PaletteQuery)
    ensures
        r@ == palette_query(query@),
{
    let (verb0, rest) = query_parts_of(query);
    let verb = lower_chars(&verb0);
    if trim_chars(&chars_of(query)).len() == 0 {
        return PaletteQuery::NotACommand;
    }
    if eq_str(&verb, "help") {
        return PaletteQuery::Help;
    }
    if eq_str(&verb, "sessions") || eq_str(&verb, "home") || eq_str(&verb, "resume") {
        return if rest.len() == 0 {
            PaletteQuery::ToSessions
        } else {
            PaletteQuery::OpenSession { id: string_of(rest.as_slice()) }
        };
    }
    if let Some(c) = verb_command_of(&verb) {
        return PaletteQuery::Run(c);
    }
    if eq_str(&verb, "search") || eq_str(&verb, "find") {
        return PaletteQuery::Search { query: string_of(rest.as_slice()) };
    }
    if eq_str(&verb, "open") || eq_str(&verb, "session") {
        return if rest.len() == 0 {
            PaletteQuery::SessionUsage
        } else {
            PaletteQuery::OpenSession { id: string_of(rest.as_slice()) }
        };
    }
    if eq_str(&verb, "rename") {
        return if rest.len() == 0 {
            PaletteQuery::RenameUsage
        } else {
            rename_of(&rest)
        };
    }
    if eq_str(&verb, "delete") {
        return PaletteQuery::Delete {
            target: if rest.len() == 0 {
                None
            } else {
                Some(string_of(rest.as_slice()))
            },
        };
    }
    PaletteQuery::NotACommand
}


/// The usage a typed palette command shows when it lacks its argument
/// (a warning, three seconds); `None` for the other queries.
pub fn palette_usage_notice(q: &PaletteQuery) -> (r: Option<Notice>)
    ensures
        match q {
            PaletteQuery::SessionUsage => r matches Some(n) && n.variant == ToastVariant::Warning
                && n.message@ == "usage: session <id>"@ && n.ttl_ms == 3000,
            PaletteQuery::RenameUsage => r matches Some(n) && n.variant == ToastVariant::Warning
                && n.message@ == "usage: rename <title>"@ && n.ttl_ms == 3000,
            _ => r is None,
        },
{
    match q {
        PaletteQuery::SessionUsage => Some(
            Notice { variant: ToastVariant::Warning, message: "usage: session <id>".to_owned(), ttl_ms: 3000 },
        ),
        PaletteQuery::RenameUsage => Some(
            Notice { variant: ToastVariant::Warning, message: "usage: rename <title>".to_owned(), ttl_ms: 3000 },
        ),
        _ => None,
    }
}

/// The warning when a typed `rename` or `delete` names no session and none
/// is open or highlighted.
pub fn missing_target_notice(is_delete: bool) -> (r: Notice)
    ensures
        r.variant == ToastVariant::Warning,
        r.ttl_ms == 3000,
        is_delete ==> r.message@ == "usage: delete <session_id>"@,
        !is_delete ==> r.message@ == "no session selected"@,
{
    if is_delete {
        Notice { variant: ToastVariant::Warning, message: "usage: delete <session_id>".to_owned(), ttl_ms: 3000 }
    } else {
        Notice { variant: ToastVariant::Warning, message: "no session selected".to_owned(), ttl_ms: 3000 }
    }
}


// ── The rows shown ──────────────────────────────────────────────────────────

/// One row of the palette list, as spans.
#[derive(Debug)]
pub struct PaletteLine {
    pub spans: Vec<StyledSpan>,
}

pub open spec fn lines_view(v: Seq<PaletteLine>) -> Seq<Seq<SpanView>> {
    v.map_values(|l: PaletteLine| spans_view(l.spans@))
}

/// The look of an entry's title: bold, and dim when it is disabled.
pub open spec fn title_style(enabled: bool) -> SpanStyle {
    SpanStyle { fg: Tone::Default, bold: true, italic: false, dim: !enabled }
}

/// The look of an entry's detail: dim.
pub open spec fn detail_style() -> SpanStyle {
    SpanStyle { fg: Tone::Default, bold: false, italic: false, dim: true }
}

pub open spec fn raw_style() -> SpanStyle {
    SpanStyle { fg: Tone::Default, bold: false, italic: false, dim: false }
}

/// The row of one entry: its title, two spaces, its detail.
pub open spec fn item_line(it: ItemView) -> Seq<SpanView> {
    seq![(title_style(it.3), it.1), (raw_style(), "  "@), (detail_style(), it.2)]
}

/// The rows of the entries that `view` names, in its order; an index past
/// the entries gives no row.
pub open spec fn view_lines(items: Seq<ItemView>, view: Seq<usize>) -> Seq<Seq<SpanView>>
    decreases view.len(),
{
    if view.len() == 0 {
        Seq::empty()
    } else {
        let rest = view_lines(items, view.drop_last());
        if (view.last() as int) < items.len() {
            rest.push(item_line(items[view.last() as int]))
        } else {
            rest
        }
    }
}

/// What the palette list shows: "(no matches)" for an empty view, else the
/// rows of the entries it names.
pub open spec fn palette_lines(items: Seq<ItemView>, view: Seq<usize>) -> Seq<Seq<SpanView>> {
    if view.len() == 0 {
        seq![seq![(raw_style(), "(no matches)"@)]]
    } else {
        view_lines(items, view)
    }
}

/// The highlighted row: none for an empty view, else the selection held
/// to the last row.
pub open spec fn palette_highlight(len: nat, selected: nat) -> Option<nat> {
    if len == 0 {
        None
    } else if selected < len {
        Some(selected)
    } else {
        Some((len - 1) as nat)
    }
}

fn span_of(style: SpanStyle, text: String) -> (r: StyledSpan)
    ensures
        r@ == (style, text@),
{
    StyledSpan { style, text }
}

/// The rows of the palette list for the entries `items` filtered to `view`,
/// with the row to highlight when `selected` is the selection.
pub fn palette_rows(items: &Vec<CommandItem>, view: &Vec<usize>, selected: usize) -> (r: (
    Vec<PaletteLine>,
    Option<usize>,
))
    ensures
        lines_view(r.0@) == palette_lines(items@.map_values(|i: CommandItem| i@), view@),
        match r.1 {
            Some(k) => palette_highlight(view@.len(), selected as nat) == Some(k as nat),
            None => palette_highlight(view@.len(), selected as nat) is None,
        },
{
    let ghost iv = items@.map_values(|i: CommandItem| i@);
    let mut out: Vec<PaletteLine> = Vec::new();
    if view.len() == 0 {
        let mut spans: Vec<StyledSpan> = Vec::new();
        spans.push(span_of(SpanStyle { fg: Tone::Default, bold: false, italic: false, dim: false }, "(no matches)".to_owned()));
        out.push(PaletteLine { spans });
        proof {
            assert(spans_view(out@[0].spans@) =~= seq![(raw_style(), "(no matches)"@)]);
            assert(lines_view(out@) =~= palette_lines(iv, view@));
        }
        return (out, None);
    }
    let mut j: usize = 0;
    while j < view.len()
        invariant
            j <= view.len(),
            iv == items@.map_values(|i: CommandItem| i@),
            lines_view(out@) == view_lines(iv, view@.take(j as int)),
        decreases view.len() - j,
    {
        let idx = view[j];
        proof {
            assert(view@.take(j + 1).drop_last() =~= view@.take(j as int));
        }
        if idx < items.len() {
            let it = &items[idx];
            let mut spans: Vec<StyledSpan> = Vec::new();
            spans.push(span_of(SpanStyle { fg: Tone::Default, bold: true, italic: false, dim: !it.enabled }, it.title.clone()));
            spans.push(span_of(SpanStyle { fg: Tone::Default, bold: false, italic: false, dim: false }, "  ".to_owned()));
            spans.push(span_of(SpanStyle { fg: Tone::Default, bold: false, italic: false, dim: true }, it.detail.clone()));
            let ghost before = out@;
            out.push(PaletteLine { spans });
            proof {
                assert(spans_view(out@.last().spans@) =~= item_line(iv[idx as int]));
                assert(lines_view(out@) =~= lines_view(before).push(item_line(iv[idx as int])));
            }
        }
        j = j + 1;
    }
    proof {
        assert(view@.take(view.len() as int) =~= view@);
    }
    let last = view.len() - 1;
    let k = if selected < last { selected } else { last };
    (out, Some(k))
}


/// When every index of the view names an entry, the view gives one row per
/// index, and the highlighted row is one of them.
pub proof fn law_palette_highlight_on_a_row(items: Seq<ItemView>, view: Seq<usize>, selected: nat)
    requires
        forall|i: int| 0 <= i < view.len() ==> (#[trigger] view[i] as int) < items.len(),
    ensures
        view.len() > 0 ==> palette_lines(items, view).len() == view.len(),
        match palette_highlight(view.len(), selected) {
            Some(k) => k < palette_lines(items, view).len(),
            None => view.len() == 0,
        },
{
    lemma_view_lines_len(items, view);
}

proof fn lemma_view_lines_len(items: Seq<ItemView>, view: Seq<usize>)
    requires
        forall|i: int| 0 <= i < view.len() ==> (#[trigger] view[i] as int) < items.len(),
    ensures
        view_lines(items, view).len() == view.len(),
    decreases view.len(),
{
    if view.len() > 0 {
        let rest = view.drop_last();
        assert forall|i: int| 0 <= i < rest.len() implies (#[trigger] rest[i] as int) < items.len() by {
            assert(rest[i] == view[i]);
        }
        lemma_view_lines_len(items, rest);
        assert((view.last() as int) < items.len()) by {
            assert(view[view.len() - 1] == view.last());
        }
    }
}

} // verus!
