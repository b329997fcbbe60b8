//! The slash commands typed in the composer (`/help`, `/rename <title>`,
//! `/skill <name>`, …): what each line asks for.
use vstd::prelude::*;
use crate::toast::{Notice, ToastVariant};
use crate::diff::{strip_all_prefix, strip_all_prefix_of, strip_leading, strip_leading_of};
use crate::parse::{before_char, split_once, split_once_of};
use crate::keys::{chat_key_spec, ChatKeyAction, ChatKeyContext, Key, KeyPress};
use crate::text::{is_ws, lead_ws, trail_ws};
use crate::parse::{words, words_of};
use crate::text::{
    chars_of, contains_exec, contains_seq, eq_str, has_prefix, has_prefix_exec, lower_chars, lower_seq,
    string_of, trim, trim_chars,
};

verus! {

broadcast use vstd::seq_lib::group_seq_properties;

/// What a slash command line asks for.
#[derive(Debug, PartialEq, Eq)]
pub enum SlashCommand {
    /// A bare `/`: open the command palette.
    OpenPalette,
    Help,
    /// Back to the session list.
    ToSessions,
    ClearComposer,
    DeleteSession,
    /// Open the rename dialog.
    RenameDialog,
    /// Rename the session to `title`.
    Rename { title: String },
    /// `/rename` with an empty title: show the usage.
    RenameUsage,
    Reload,
    ToggleToolDetails,
    ToggleThinking,
    Find,
    CycleMode,
    SwitchModel,
    ManageProviders,
    NewSession,
    ForkSession,
    ListSkills,
    /// Insert the skill called `name` into the composer.
    InjectSkill { name: String },
    MemoryViewer,
    MemoryOn,
    MemoryOff,
    MemoryClear,
    /// Open the session whose id is `id`.
    OpenSession { id: String },
    /// Not a known command; `raw` is the trimmed line.
    Unknown { raw: String },
}

/// `SlashCommand` with its texts as character sequences.
pub enum SlashSpec {
    OpenPalette,
    Help,
    ToSessions,
    ClearComposer,
    DeleteSession,
    RenameDialog,
    Rename(Seq<char>),
    RenameUsage,
    Reload,
    ToggleToolDetails,
    ToggleThinking,
    Find,
    CycleMode,
    SwitchModel,
    ManageProviders,
    NewSession,
    ForkSession,
    ListSkills,
    InjectSkill(Seq<char>),
    MemoryViewer,
    MemoryOn,
    MemoryOff,
    MemoryClear,
    OpenSession(Seq<char>),
    Unknown(Seq<char>),
}

impl View for SlashCommand {
    type V = SlashSpec;

    open spec fn view(&self) -> SlashSpec {
        match self {
            SlashCommand::OpenPalette => SlashSpec::OpenPalette,
            SlashCommand::Help => SlashSpec::Help,
            SlashCommand::ToSessions => SlashSpec::ToSessions,
            SlashCommand::ClearComposer => SlashSpec::ClearComposer,
            SlashCommand::DeleteSession => SlashSpec::DeleteSession,
            SlashCommand::RenameDialog => SlashSpec::RenameDialog,
            SlashCommand::Rename { title } => SlashSpec::Rename(title@),
            SlashCommand::RenameUsage => SlashSpec::RenameUsage,
            SlashCommand::Reload => SlashSpec::Reload,
            SlashCommand::ToggleToolDetails => SlashSpec::ToggleToolDetails,
            SlashCommand::ToggleThinking => SlashSpec::ToggleThinking,
            SlashCommand::Find => SlashSpec::Find,
            SlashCommand::CycleMode => SlashSpec::CycleMode,
            SlashCommand::SwitchModel => SlashSpec::SwitchModel,
            SlashCommand::ManageProviders => SlashSpec::ManageProviders,
            SlashCommand::NewSession => SlashSpec::NewSession,
            SlashCommand::ForkSession => SlashSpec::ForkSession,
            SlashCommand::ListSkills => SlashSpec::ListSkills,
            SlashCommand::InjectSkill { name } => SlashSpec::InjectSkill(name@),
            SlashCommand::MemoryViewer => SlashSpec::MemoryViewer,
            SlashCommand::MemoryOn => SlashSpec::MemoryOn,
            SlashCommand::MemoryOff => SlashSpec::MemoryOff,
            SlashCommand::MemoryClear => SlashSpec::MemoryClear,
            SlashCommand::OpenSession { id } => SlashSpec::OpenSession(id@),
            SlashCommand::Unknown { raw } => SlashSpec::Unknown(raw@),
        }
    }
}

/// The command of a line: the line trimmed, its leading slashes removed,
/// trimmed again.
pub open spec fn command_word(input: Seq<char>) -> Seq<char> {
    trim(strip_leading(trim(input), '/'))
}

/// Commands that navigate or manage the session (checked first).
pub open spec fn session_command(cmd: Seq<char>) -> Option<SlashSpec> {
    if cmd.len() == 0 {
        Some(SlashSpec::OpenPalette)
    } else if cmd == "help"@ || cmd == "?"@ {
        Some(SlashSpec::Help)
    } else if cmd == "sessions"@ || cmd == "home"@ || cmd == "back"@ || cmd == "resume"@ {
        Some(SlashSpec::ToSessions)
    } else if cmd == "clear"@ {
        Some(SlashSpec::ClearComposer)
    } else if cmd == "delete"@ {
        Some(SlashSpec::DeleteSession)
    } else if cmd == "rename"@ {
        Some(SlashSpec::RenameDialog)
    } else if has_prefix(cmd, "rename "@) {
        let title = trim(strip_all_prefix(cmd, "rename"@));
        if title.len() == 0 {
            Some(SlashSpec::RenameUsage)
        } else {
            Some(SlashSpec::Rename(title))
        }
    } else {
        None
    }
}

/// Commands that change what the transcript shows or which model runs.
pub open spec fn view_command(cmd: Seq<char>) -> Option<SlashSpec> {
    if cmd == "reload"@ || cmd == "refresh"@ {
        Some(SlashSpec::Reload)
    } else if cmd == "tools"@ {
        Some(SlashSpec::ToggleToolDetails)
    } else if cmd == "thinking"@ || cmd == "reasoning"@ {
        Some(SlashSpec::ToggleThinking)
    } else if cmd == "find"@ || cmd == "search"@ {
        Some(SlashSpec::Find)
    } else if cmd == "mode"@ {
        Some(SlashSpec::CycleMode)
    } else if cmd == "model"@ {
        Some(SlashSpec::SwitchModel)
    } else if cmd == "providers"@ || cmd == "auth"@ || cmd == "connect"@ {
        Some(SlashSpec::ManageProviders)
    } else if cmd == "new"@ {
        Some(SlashSpec::NewSession)
    } else if cmd == "fork"@ {
        Some(SlashSpec::ForkSession)
    } else {
        None
    }
}

/// What follows the first space of `cmd`, trimmed.
pub open spec fn session_id(cmd: Seq<char>) -> Seq<char> {
    match split_once(cmd, " "@) {
        Some((_, after)) => trim(after),
        None => Seq::empty(),
    }
}

fn session_id_of(cmd: &Vec<char>) -> (r: Vec<char>)
    ensures
        r@ == session_id(cmd@),
{
    match split_once_of(cmd, &chars_of(" ")) {
        Some((_, after)) => trim_chars(&after),
        None => Vec::new(),
    }
}

/// Skill, memory and open-by-id commands (checked last).
pub open spec fn extra_command(cmd: Seq<char>) -> Option<SlashSpec> {
    if cmd == "skill"@ || cmd == "skill list"@ {
        Some(SlashSpec::ListSkills)
    } else if has_prefix(cmd, "skill "@) {
        Some(SlashSpec::InjectSkill(trim(strip_all_prefix(cmd, "skill "@))))
    } else if cmd == "memory"@ {
        Some(SlashSpec::MemoryViewer)
    } else if cmd == "memory on"@ {
        Some(SlashSpec::MemoryOn)
    } else if cmd == "memory off"@ {
        Some(SlashSpec::MemoryOff)
    } else if cmd == "memory clear"@ {
        Some(SlashSpec::MemoryClear)
    } else if has_prefix(cmd, "sessions "@) || has_prefix(cmd, "resume "@) {
        let id = session_id(cmd);
        if id.len() == 0 {
            Some(SlashSpec::ToSessions)
        } else {
            Some(SlashSpec::OpenSession(id))
        }
    } else {
        None
    }
}

/// What the line `input` asks for: the session, view and other commands
/// are tried in that order on its command word; anything else is unknown.
pub open spec fn slash_command(input: Seq<char>) -> SlashSpec {
    let cmd = command_word(input);
    match session_command(cmd) {
        Some(c) => c,
        None => match view_command(cmd) {
            Some(c) => c,
            None => match extra_command(cmd) {
                Some(c) => c,
                None => SlashSpec::Unknown(trim(input)),
            },
        },
    }
}

fn starts(v: &Vec<char>, p: &str) -> (r: bool)
    ensures
        r == has_prefix(v@, p@),
{
    has_prefix_exec(v, &chars_of(p))
}

pub open spec fn opt_cmd_view(r: Option<SlashCommand>) -> Option<SlashSpec> {
    match r {
        Some(c) => Some(c@),
        None => None,
    }
}

fn session_command_of(cmd: &Vec<char>) -> (r: Option<SlashCommand>)
    ensures
        opt_cmd_view(r) == session_command(cmd@),
{
    if cmd.len() == 0 {
        Some(SlashCommand::OpenPalette)
    } else if eq_str(cmd, "help") || eq_str(cmd, "?") {
        Some(SlashCommand::Help)
    } else if eq_str(cmd, "sessions") || eq_str(cmd, "home") || eq_str(cmd, "back") || eq_str(
        cmd,
        "resume",
    ) {
        Some(SlashCommand::ToSessions)
    } else if eq_str(cmd, "clear") {
        Some(SlashCommand::ClearComposer)
    } else if eq_str(cmd, "delete") {
        Some(SlashCommand::DeleteSession)
    } else if eq_str(cmd, "rename") {
        Some(SlashCommand::RenameDialog)
    } else if starts(cmd, "rename ") {
        let title = trim_chars(&strip_all_prefix_of(cmd, "rename"));
        if title.len() == 0 {
            Some(SlashCommand::RenameUsage)
        } else {
            Some(SlashCommand::Rename { title: string_of(title.as_slice()) })
        }
    } else {
        None
    }
}

fn view_command_of(cmd: &Vec<char>) -> (r: Option<SlashCommand>)
    ensures
        opt_cmd_view(r) == view_command(cmd@),
{
    if eq_str(cmd, "reload") || eq_str(cmd, "refresh") {
        Some(SlashCommand::Reload)
    } else if eq_str(cmd, "tools") {
        Some(SlashCommand::ToggleToolDetails)
    } else if eq_str(cmd, "thinking") || eq_str(cmd, "reasoning") {
        Some(SlashCommand::ToggleThinking)
    } else if eq_str(cmd, "find") || eq_str(cmd, "search") {
        Some(SlashCommand::Find)
    } else if eq_str(cmd, "mode") {
        Some(SlashCommand::CycleMode)
    } else if eq_str(cmd, "model") {
        Some(SlashCommand::SwitchModel)
    } else if eq_str(cmd, "providers") || eq_str(cmd, "auth") || eq_str(cmd, "connect") {
        Some(SlashCommand::ManageProviders)
    } else if eq_str(cmd, "new") {
        Some(SlashCommand::NewSession)
    } else if eq_str(cmd, "fork") {
        Some(SlashCommand::ForkSession)
    } else {
        None
    }
}

fn extra_command_of(cmd: &Vec<char>) -> (r: Option<SlashCommand>)
    ensures
        opt_cmd_view(r) == extra_command(cmd@),
{
    if eq_str(cmd, "skill") || eq_str(cmd, "skill list") {
        Some(SlashCommand::ListSkills)
    } else if starts(cmd, "skill ") {
        let name = trim_chars(&strip_all_prefix_of(cmd, "skill "));
        Some(SlashCommand::InjectSkill { name: string_of(name.as_slice()) })
    } else if eq_str(cmd, "memory") {
        Some(SlashCommand::MemoryViewer)
    } else if eq_str(cmd, "memory on") {
        Some(SlashCommand::MemoryOn)
    } else if eq_str(cmd, "memory off") {
        Some(SlashCommand::MemoryOff)
    } else if eq_str(cmd, "memory clear") {
        Some(SlashCommand::MemoryClear)
    } else if starts(cmd, "sessions ") || starts(cmd, "resume ") {
        let id = session_id_of(cmd);
        if id.len() == 0 {
            Some(SlashCommand::ToSessions)
        } else {
            Some(SlashCommand::OpenSession { id: string_of(id.as_slice()) })
        }
    } else {
        None
    }
}

/// Reads the slash command line `input`.
pub fn parse_slash_command(input: &str) -> (r: SlashCommand)
    ensures
        r@ == slash_command(input@),
{
    let raw = trim_chars(&chars_of(input));
    let cmd = trim_chars(&strip_leading_of(&raw, '/'));
    if let Some(c) = session_command_of(&cmd) {
        return c;
    }
    if let Some(c) = view_command_of(&cmd) {
        return c;
    }
    if let Some(c) = extra_command_of(&cmd) {
        return c;
    }
    SlashCommand::Unknown { raw: string_of(raw.as_slice()) }
}

/// The warning with which a slash command is refused, when it is: a new or
/// forked session while a turn runs, `/rename` without a title, and an
/// unknown command (each for three seconds). Other commands go ahead.
pub fn slash_refusal(cmd: &SlashCommand, running: bool) -> (r: Option<Notice>)
    ensures
        match cmd {
            SlashCommand::NewSession => if running {
                r matches Some(n) && n.message@ == "cannot create session while running"@
                    && n.variant == ToastVariant::Warning && n.ttl_ms == 3000
            } else {
                r is None
            },
            SlashCommand::ForkSession => if running {
                r matches Some(n) && n.message@ == "cannot fork session while running"@
                    && n.variant == ToastVariant::Warning && n.ttl_ms == 3000
            } else {
                r is None
            },
            SlashCommand::RenameUsage => r matches Some(n) && n.message@ == "usage: /rename <title>"@
                && n.variant == ToastVariant::Warning && n.ttl_ms == 3000,
            SlashCommand::Unknown { raw } => r matches Some(n) && n.message@ == "unknown command: "@ + raw@
                && n.variant == ToastVariant::Warning && n.ttl_ms == 3000,
            _ => r is None,
        },
{
    match cmd {
        SlashCommand::NewSession => if running {
            Some(Notice {
                variant: ToastVariant::Warning,
                message: "cannot create session while running".to_owned(),
                ttl_ms: 3000,
            })
        } else {
            None
        },
        SlashCommand::ForkSession => if running {
            Some(Notice {
                variant: ToastVariant::Warning,
                message: "cannot fork session while running".to_owned(),
                ttl_ms: 3000,
            })
        } else {
            None
        },
        SlashCommand::RenameUsage => Some(
            Notice { variant: ToastVariant::Warning, message: "usage: /rename <title>".to_owned(), ttl_ms: 3000 },
        ),
        SlashCommand::Unknown { raw } => Some(
            Notice {
                variant: ToastVariant::Warning,
                message: crate::text::concat2("unknown command: ", raw.as_str()),
                ttl_ms: 3000,
            },
        ),
        _ => None,
    }
}

// ── The slash-command popup ─────────────────────────────────────────────────

/// The slash commands offered in the popup, each with its description.
pub open spec fn slash_table() -> Seq<(Seq<char>, Seq<char>)> {
    seq![
        ("/clear"@, "Clear composer input"@),
        ("/delete"@, "Delete current session"@),
        ("/find <query>"@, "Search transcript"@),
        ("/fork"@, "Fork current session  (Ctrl+F)"@),
        ("/help"@, "Show keybindings and tips"@),
        ("/memory"@, "View memory summary (full modal)"@),
        ("/memory on"@, "Enable memory collection"@),
        ("/memory off"@, "Disable memory collection"@),
        ("/memory clear"@, "Clear all memories (with confirmation)"@),
        ("/model"@, "Switch LLM model  (Ctrl+M)"@),
        ("/new"@, "Create a new session  (Ctrl+N)"@),
        ("/providers"@, "Connect/disconnect providers  (Ctrl+A)"@),
        ("/refresh"@, "Reload transcript  (Ctrl+R)"@),
        ("/rename <title>"@, "Rename current session"@),
        ("/resume <id>"@, "Resume a session by ID (empty = session list)"@),
        ("/sessions"@, "Go to sessions screen  (Ctrl+Q)"@),
        ("/skill"@, "List or inject a skill  (Ctrl+S)"@),
    ]
}

pub open spec fn pairs_view(v: Seq<(String, String)>) -> Seq<(Seq<char>, Seq<char>)> {
    v.map_values(|p: (String, String)| (p.0@, p.1@))
}

fn pair(a: &str, b: &str) -> (r: (String, String))
    ensures
        r.0@ == a@,
        r.1@ == b@,
{
    (a.to_owned(), b.to_owned())
}

/// The slash commands and their descriptions.
pub fn slash_commands() -> (r: Vec<(String, String)>)
    ensures
        pairs_view(r@) == slash_table(),
{
    let mut v: Vec<(String, String)> = Vec::new();
    v.push(pair("/clear", "Clear composer input"));
    v.push(pair("/delete", "Delete current session"));
    v.push(pair("/find <query>", "Search transcript"));
    v.push(pair("/fork", "Fork current session  (Ctrl+F)"));
    v.push(pair("/help", "Show keybindings and tips"));
    v.push(pair("/memory", "View memory summary (full modal)"));
    v.push(pair("/memory on", "Enable memory collection"));
    v.push(pair("/memory off", "Disable memory collection"));
    v.push(pair("/memory clear", "Clear all memories (with confirmation)"));
    v.push(pair("/model", "Switch LLM model  (Ctrl+M)"));
    v.push(pair("/new", "Create a new session  (Ctrl+N)"));
    v.push(pair("/providers", "Connect/disconnect providers  (Ctrl+A)"));
    v.push(pair("/refresh", "Reload transcript  (Ctrl+R)"));
    v.push(pair("/rename <title>", "Rename current session"));
    v.push(pair("/resume <id>", "Resume a session by ID (empty = session list)"));
    v.push(pair("/sessions", "Go to sessions screen  (Ctrl+Q)"));
    v.push(pair("/skill", "List or inject a skill  (Ctrl+S)"));
    proof {
        assert(pairs_view(v@) =~= slash_table());
    }
    v
}

/// The command's name: without its slashes, up to the first whitespace.
pub open spec fn slash_stem(cmd: Seq<char>) -> Seq<char> {
    let bare = strip_leading(cmd, '/');
    if words(bare).len() > 0 {
        words(bare)[0]
    } else {
        bare
    }
}

/// The entries of `es` whose name contains `needle` (ASCII case-insensitively).
pub open spec fn slash_matching(es: Seq<(Seq<char>, Seq<char>)>, needle: Seq<char>) -> Seq<(Seq<char>, Seq<char>)>
    decreases es.len(),
{
    if es.len() == 0 {
        Seq::empty()
    } else {
        let rest = slash_matching(es.drop_last(), needle);
        if contains_seq(lower_seq(slash_stem(es.last().0)), lower_seq(needle)) {
            rest.push(es.last())
        } else {
            rest
        }
    }
}

/// The popup's entries for `query`: all for an empty query.
pub open spec fn slash_filter(query: Seq<char>) -> Seq<(Seq<char>, Seq<char>)> {
    if query.len() == 0 {
        slash_table()
    } else {
        slash_matching(slash_table(), query)
    }
}

fn slash_stem_of(cmd: &Vec<char>) -> (r: Vec<char>)
    ensures
        r@ == slash_stem(cmd@),
{
    let bare = strip_leading_of(cmd, '/');
    let ws = words_of(&bare);
    if ws.len() > 0 {
        proof {
            assert(ws@.map_values(|w: Vec<char>| w@)[0] == ws@[0]@);
        }
        let w = &ws[0];
        crate::text::sub_chars(w, 0, w.len())
    } else {
        bare
    }
}

/// The slash commands whose name contains `query`, ASCII
/// case-insensitively; all of them for an empty query.
pub fn filter_slash_commands(query: &str) -> (r: Vec<(String, String)>)
    ensures
        pairs_view(r@) == slash_filter(query@),
{
    let all = slash_commands();
    let q = chars_of(query);
    if q.len() == 0 {
        return all;
    }
    let needle = lower_chars(&q);
    let mut out: Vec<(String, String)> = Vec::new();
    let mut i: usize = 0;
    while i < all.len()
        invariant
            i <= all.len(),
            pairs_view(all@) == slash_table(),
            needle@ == lower_seq(query@),
            pairs_view(out@) == slash_matching(pairs_view(all@).take(i as int), query@),
        decreases all.len() - i,
    {
        proof {
            assert(pairs_view(all@).take(i + 1).drop_last() =~= pairs_view(all@).take(i as int));
            assert(pairs_view(all@).take(i + 1).last() == (all@[i as int].0@, all@[i as int].1@));
        }
        let stem = slash_stem_of(&chars_of(all[i].0.as_str()));
        let ls = lower_chars(&stem);
        if contains_exec(&ls, &needle) {
            out.push((all[i].0.clone(), all[i].1.clone()));
            proof {
                assert(pairs_view(out@) =~= slash_matching(pairs_view(all@).take(i as int), query@).push(
                    (all@[i as int].0@, all@[i as int].1@),
                ));
            }
        }
        i = i + 1;
    }
    proof {
        assert(pairs_view(all@).take(all.len() as int) =~= pairs_view(all@));
    }
    out
}

/// What choosing `cmd` writes into the composer: `/name ` for a command
/// that takes an argument, else the command itself.
pub open spec fn completion_of(cmd: Seq<char>) -> Seq<char> {
    let bare = strip_leading(cmd, '/');
    if contains_seq(bare, " "@) {
        seq!['/'] + slash_stem(cmd) + seq![' ']
    } else {
        seq!['/'] + bare
    }
}

/// The composer text that Tab (or Enter) in the popup writes, for the
/// entry `selected` of the popup filtered by `query`; `None` when there is
/// no such entry.
pub fn slash_completion(query: &str, selected: usize) -> (r: Option<String>)
    ensures
        match r {
            Some(t) => selected < slash_filter(query@).len() && t@ == completion_of(
                slash_filter(query@)[selected as int].0,
            ),
            None => selected >= slash_filter(query@).len(),
        },
{
    let f = filter_slash_commands(query);
    if selected >= f.len() {
        return None;
    }
    proof {
        assert(pairs_view(f@)[selected as int] == (f@[selected as int].0@, f@[selected as int].1@));
    }
    let cmd = chars_of(f[selected].0.as_str());
    let bare = strip_leading_of(&cmd, '/');
    let mut out: Vec<char> = Vec::new();
    out.push('/');
    if contains_exec(&bare, &chars_of(" ")) {
        let stem = slash_stem_of(&cmd);
        crate::text::push_all(&mut out, &stem);
        out.push(' ');
    } else {
        crate::text::push_all(&mut out, &bare);
    }
    proof {
        assert(out@ =~= completion_of(cmd@));
    }
    Some(string_of(out.as_slice()))
}

/// Whether the entry `selected` of the popup takes an argument.
pub fn slash_selected_has_args(query: &str, selected: usize) -> (r: Option<bool>)
    ensures
        match r {
            Some(b) => selected < slash_filter(query@).len() && b == contains_seq(
                strip_leading(slash_filter(query@)[selected as int].0, '/'),
                " "@,
            ),
            None => selected >= slash_filter(query@).len(),
        },
{
    let f = filter_slash_commands(query);
    if selected >= f.len() {
        return None;
    }
    proof {
        assert(pairs_view(f@)[selected as int] == (f@[selected as int].0@, f@[selected as int].1@));
    }
    let bare = strip_leading_of(&chars_of(f[selected].0.as_str()), '/');
    Some(contains_exec(&bare, &chars_of(" ")))
}

/// The popup's query while the composer holds a one-line slash command:
/// the text after its leading slashes; `None` (popup closed) otherwise.
pub open spec fn popup_query(composer: Seq<char>) -> Option<Seq<char>> {
    if composer.len() > 0 && composer[0] == '/' && !composer.contains('\n') {
        Some(strip_leading(composer, '/'))
    } else {
        None
    }
}

pub fn slash_popup_query(composer: &str) -> (r: Option<String>)
    ensures
        match popup_query(composer@) {
            Some(q) => r matches Some(s) && s@ == q,
            None => r is None,
        },
{
    let c = chars_of(composer);
    if c.len() == 0 || c[0] != '/' {
        return None;
    }
    let mut i: usize = 0;
    while i < c.len()
        invariant
            i <= c.len(),
            c@ == composer@,
            forall|j: int| 0 <= j < i ==> c@[j] != '\n',
        decreases c.len() - i,
    {
        if c[i] == '\n' {
            proof {
                assert(c@.contains('\n'));
            }
            return None;
        }
        i = i + 1;
    }
    Some(string_of(strip_leading_of(&c, '/').as_slice()))
}


// ── What the popup's entries run ────────────────────────────────────────────

/// The line typed for an entry of the popup: the entry up to its first
/// argument placeholder (`<…>`), trimmed.
pub open spec fn typed_line(entry: Seq<char>) -> Seq<char> {
    trim(before_char(entry, '<'))
}

/// The letter of the `(Ctrl+X)` shortcut that ends a description, if any.
pub open spec fn ctrl_shortcut(desc: Seq<char>) -> Option<char> {
    if desc.len() >= 8 && desc.subrange(desc.len() - 8, desc.len() - 2) == "(Ctrl+"@ && desc.last() == ')' {
        Some(desc[desc.len() - 2])
    } else {
        None
    }
}

/// A slash command and a chat key action that do the same job.
pub open spec fn counterpart(s: SlashSpec, a: ChatKeyAction) -> bool {
    match s {
        SlashSpec::SwitchModel => a == ChatKeyAction::SwitchModel,
        SlashSpec::NewSession => a == ChatKeyAction::NewSession,
        SlashSpec::ForkSession => a == ChatKeyAction::ForkSession,
        SlashSpec::ManageProviders => a == ChatKeyAction::ManageProviders,
        SlashSpec::Reload => a == ChatKeyAction::RefreshTranscript,
        SlashSpec::ToSessions => a == ChatKeyAction::ToSessions,
        SlashSpec::ListSkills => a == ChatKeyAction::ToggleSkills,
        _ => false,
    }
}

spec fn row_commands() -> Seq<SlashSpec> {
    seq![
        SlashSpec::ClearComposer,
        SlashSpec::DeleteSession,
        SlashSpec::Find,
        SlashSpec::ForkSession,
        SlashSpec::Help,
        SlashSpec::MemoryViewer,
        SlashSpec::MemoryOn,
        SlashSpec::MemoryOff,
        SlashSpec::MemoryClear,
        SlashSpec::SwitchModel,
        SlashSpec::NewSession,
        SlashSpec::ManageProviders,
        SlashSpec::Reload,
        SlashSpec::RenameDialog,
        SlashSpec::ToSessions,
        SlashSpec::ToSessions,
        SlashSpec::ListSkills,
    ]
}

spec fn row_shortcuts() -> Seq<Option<char>> {
    seq![None, None, None, Some('F'), None, None, None, None, None, Some('M'), Some('N'), Some('A'), Some('R'), None, None, Some('Q'), Some('S')]
}

proof fn lemma_trim_plain(s: Seq<char>)
    requires
        s.len() > 0,
        !is_ws(s[0]),
        !is_ws(s.last()),
    ensures
        trim(s) == s,
{
    assert(lead_ws(s) == 0);
    assert(s.skip(0) =~= s);
    assert(trail_ws(s) == 0);
    assert(s.take(s.len() as int) =~= s);
}

proof fn lemma_command_word_of(w: Seq<char>)
    requires
        w.len() > 0,
        w[0] != '/',
        !is_ws(w[0]),
        !is_ws(w.last()),
    ensures
        command_word(seq!['/'] + w) == w,
{
    let s = seq!['/'] + w;
    assert(s[0] == '/');
    assert(s.last() == w.last());
    lemma_trim_plain(s);
    assert(s.drop_first() =~= w);
    assert(strip_leading(w, '/') == w);
    assert(strip_leading(s, '/') == w);
    lemma_trim_plain(w);
}

/// No character of `s` is `c`.
spec fn free_of(s: Seq<char>, c: char) -> bool
    decreases s.len(),
{
    s.len() == 0 || (s[0] != c && free_of(s.drop_first(), c))
}

proof fn lemma_free_of(s: Seq<char>, c: char)
    requires
        free_of(s, c),
    ensures
        forall|i: int| 0 <= i < s.len() ==> s[i] != c,
    decreases s.len(),
{
    if s.len() > 0 {
        lemma_free_of(s.drop_first(), c);
        assert forall|i: int| 0 <= i < s.len() implies s[i] != c by {
            if i > 0 {
                assert(s[i] == s.drop_first()[i - 1]);
            }
        }
    }
}

proof fn lemma_before_char_none(s: Seq<char>, c: char)
    requires
        forall|i: int| 0 <= i < s.len() ==> s[i] != c,
    ensures
        before_char(s, c) == s,
    decreases s.len(),
{
    if s.len() > 0 {
        lemma_before_char_none(s.drop_first(), c);
        assert(seq![s[0]] + s.drop_first() =~= s);
    }
}

proof fn lemma_before_char_at(a: Seq<char>, b: Seq<char>, c: char)
    requires
        forall|i: int| 0 <= i < a.len() ==> a[i] != c,
        b.len() > 0,
        b[0] == c,
    ensures
        before_char(a + b, c) == a,
    decreases a.len(),
{
    if a.len() == 0 {
        assert(a + b =~= b);
    } else {
        lemma_before_char_at(a.drop_first(), b, c);
        assert((a + b).drop_first() =~= a.drop_first() + b);
        assert(seq![a[0]] + a.drop_first() =~= a);
    }
}

/// The typed line of an entry `/word` (or `/word <arg>`) is `/word`, whose
/// command word is `word`.
proof fn lemma_entry_word(entry: Seq<char>, w: Seq<char>, arg: Seq<char>)
    requires
        w.len() > 0,
        w[0] != '/',
        !is_ws(w.last()),
        !is_ws(w[0]),
        free_of(w, '<'),
        arg.len() == 0 || (arg.len() >= 2 && arg[0] == ' ' && arg[1] == '<'),
        entry == seq!['/'] + w + arg,
    ensures
        command_word(typed_line(entry)) == w,
        typed_line(entry) == seq!['/'] + w,
{
    lemma_free_of(w, '<');
    let head = seq!['/'] + w;
    assert forall|i: int| 0 <= i < head.len() implies head[i] != '<' by {
        if i > 0 {
            assert(head[i] == w[i - 1]);
        }
    }
    if arg.len() == 0 {
        assert(entry =~= head);
        lemma_before_char_none(head, '<');
        assert(head.last() == w.last());
        lemma_trim_plain(head);
    } else {
        let sp = seq![' '];
        let rest = arg.drop_first();
        assert(arg =~= sp + rest);
        assert(entry =~= (head + sp) + rest);
        assert forall|i: int| 0 <= i < (head + sp).len() implies (head + sp)[i] != '<' by {
            if i < head.len() {
                assert((head + sp)[i] == head[i]);
            }
        }
        lemma_before_char_at(head + sp, rest, '<');
        let hs = head + sp;
        assert(trail_ws(hs) == 1 + trail_ws(hs.drop_last()));
        assert(hs.drop_last() =~= head);
        assert(head.last() == w.last());
        assert(trail_ws(head) == 0);
        assert(lead_ws(hs) == 0);
        assert(hs.skip(0) =~= hs);
        assert(hs.take(hs.len() - 1) =~= head);
    }
    lemma_command_word_of(w);
}


#[verifier::rlimit(100)]
#[verifier::spinoff_prover]
proof fn lemma_row_0()
    ensures
        slash_command(typed_line("/clear"@)) == SlashSpec::ClearComposer,
        ctrl_shortcut("Clear composer input"@) == None::<char>,
{
    reveal_strlit("/clear");
    reveal_strlit("Clear composer input");
    reveal_strlit("clear");
    reveal_strlit("(Ctrl+");
    reveal_strlit("help");
    reveal_strlit("?");
    reveal_strlit("sessions");
    reveal_strlit("home");
    reveal_strlit("back");
    reveal_strlit("resume");
    reveal_strlit("delete");
    reveal_strlit("rename");
    reveal_strlit("rename ");
    reveal_strlit("reload");
    reveal_strlit("refresh");
    reveal_strlit("tools");
    reveal_strlit("thinking");
    reveal_strlit("reasoning");
    reveal_strlit("find");
    reveal_strlit("search");
    reveal_strlit("mode");
    reveal_strlit("model");
    reveal_strlit("providers");
    reveal_strlit("auth");
    reveal_strlit("connect");
    reveal_strlit("new");
    reveal_strlit("fork");
    reveal_strlit("skill");
    reveal_strlit("skill list");
    reveal_strlit("skill ");
    reveal_strlit("memory");
    reveal_strlit("memory on");
    reveal_strlit("memory off");
    reveal_strlit("memory clear");
    reveal_strlit("sessions ");
    reveal_strlit("resume ");
    assert("/clear"@ =~= seq!['/'] + "clear"@ + Seq::<char>::empty());
    assert(free_of("clear"@, '<')) by {
        reveal_with_fuel(free_of, 6);
    }
    lemma_entry_word("/clear"@, "clear"@, Seq::<char>::empty());
    assert("clear"@[0] != "tools"@[0]);
    assert("clear"@[0] != "model"@[0]);
    assert("clear"@[0] != "skill"@[0]);

}

#[verifier::rlimit(100)]
#[verifier::spinoff_prover]
proof fn lemma_row_1()
    ensures
        slash_command(typed_line("/delete"@)) == SlashSpec::DeleteSession,
        ctrl_shortcut("Delete current session"@) == None::<char>,
{
    reveal_strlit("/delete");
    reveal_strlit("Delete current session");
    reveal_strlit("delete");
    reveal_strlit("(Ctrl+");
    reveal_strlit("help");
    reveal_strlit("?");
    reveal_strlit("sessions");
    reveal_strlit("home");
    reveal_strlit("back");
    reveal_strlit("resume");
    reveal_strlit("clear");
    reveal_strlit("rename");
    reveal_strlit("rename ");
    reveal_strlit("reload");
    reveal_strlit("refresh");
    reveal_strlit("tools");
    reveal_strlit("thinking");
    reveal_strlit("reasoning");
    reveal_strlit("find");
    reveal_strlit("search");
    reveal_strlit("mode");
    reveal_strlit("model");
    reveal_strlit("providers");
    reveal_strlit("auth");
    reveal_strlit("connect");
    reveal_strlit("new");
    reveal_strlit("fork");
    reveal_strlit("skill");
    reveal_strlit("skill list");
    reveal_strlit("skill ");
    reveal_strlit("memory");
    reveal_strlit("memory on");
    reveal_strlit("memory off");
    reveal_strlit("memory clear");
    reveal_strlit("sessions ");
    reveal_strlit("resume ");
    assert("/delete"@ =~= seq!['/'] + "delete"@ + Seq::<char>::empty());
    assert(free_of("delete"@, '<')) by {
        reveal_with_fuel(free_of, 7);
    }
    lemma_entry_word("/delete"@, "delete"@, Seq::<char>::empty());
    assert("delete"@[0] != "resume"@[0]);
    assert("delete"@[0] != "rename"@[0]);
    assert("delete"@[0] != "reload"@[0]);
    assert("delete"@[0] != "search"@[0]);
    assert("delete"@[0] != "skill "@[0]);
    assert("delete"@[0] != "memory"@[0]);

}

#[verifier::rlimit(100)]
#[verifier::spinoff_prover]
proof fn lemma_row_2()
    ensures
        slash_command(typed_line("/find <query>"@)) == SlashSpec::Find,
        ctrl_shortcut("Search transcript"@) == None::<char>,
{
    reveal_strlit("/find <query>");
    reveal_strlit("Search transcript");
    reveal_strlit("find");
    reveal_strlit(" <query>");
    reveal_strlit("(Ctrl+");
    reveal_strlit("help");
    reveal_strlit("?");
    reveal_strlit("sessions");
    reveal_strlit("home");
    reveal_strlit("back");
    reveal_strlit("resume");
    reveal_strlit("clear");
    reveal_strlit("delete");
    reveal_strlit("rename");
    reveal_strlit("rename ");
    reveal_strlit("reload");
    reveal_strlit("refresh");
    reveal_strlit("tools");
    reveal_strlit("thinking");
    reveal_strlit("reasoning");
    reveal_strlit("search");
    reveal_strlit("mode");
    reveal_strlit("model");
    reveal_strlit("providers");
    reveal_strlit("auth");
    reveal_strlit("connect");
    reveal_strlit("new");
    reveal_strlit("fork");
    reveal_strlit("skill");
    reveal_strlit("skill list");
    reveal_strlit("skill ");
    reveal_strlit("memory");
    reveal_strlit("memory on");
    reveal_strlit("memory off");
    reveal_strlit("memory clear");
    reveal_strlit("sessions ");
    reveal_strlit("resume ");
    assert("/find <query>"@ =~= seq!['/'] + "find"@ + " <query>"@);
    assert(free_of("find"@, '<')) by {
        reveal_with_fuel(free_of, 5);
    }
    lemma_entry_word("/find <query>"@, "find"@, " <query>"@);
    assert("find"@[0] != "help"@[0]);
    assert("find"@[0] != "home"@[0]);
    assert("find"@[0] != "back"@[0]);
    assert("find"@[0] != "mode"@[0]);
    assert("find"@[0] != "auth"@[0]);
    assert("find"@[1] != "fork"@[1]);

}

#[verifier::rlimit(100)]
#[verifier::spinoff_prover]
proof fn lemma_row_3()
    ensures
        slash_command(typed_line("/fork"@)) == SlashSpec::ForkSession,
        ctrl_shortcut("Fork current session  (Ctrl+F)"@) == Some('F'),
{
    reveal_strlit("/fork");
    reveal_strlit("Fork current session  (Ctrl+F)");
    reveal_strlit("fork");
    reveal_strlit("(Ctrl+");
    reveal_strlit("help");
    reveal_strlit("?");
    reveal_strlit("sessions");
    reveal_strlit("home");
    reveal_strlit("back");
    reveal_strlit("resume");
    reveal_strlit("clear");
    reveal_strlit("delete");
    reveal_strlit("rename");
    reveal_strlit("rename ");
    reveal_strlit("reload");
    reveal_strlit("refresh");
    reveal_strlit("tools");
    reveal_strlit("thinking");
    reveal_strlit("reasoning");
    reveal_strlit("find");
    reveal_strlit("search");
    reveal_strlit("mode");
    reveal_strlit("model");
    reveal_strlit("providers");
    reveal_strlit("auth");
    reveal_strlit("connect");
    reveal_strlit("new");
    reveal_strlit("skill");
    reveal_strlit("skill list");
    reveal_strlit("skill ");
    reveal_strlit("memory");
    reveal_strlit("memory on");
    reveal_strlit("memory off");
    reveal_strlit("memory clear");
    reveal_strlit("sessions ");
    reveal_strlit("resume ");
    assert("/fork"@ =~= seq!['/'] + "fork"@ + Seq::<char>::empty());
    assert(free_of("fork"@, '<')) by {
        reveal_with_fuel(free_of, 5);
    }
    lemma_entry_word("/fork"@, "fork"@, Seq::<char>::empty());
    assert("fork"@[0] != "help"@[0]);
    assert("fork"@[0] != "home"@[0]);
    assert("fork"@[0] != "back"@[0]);
    assert("fork"@[1] != "find"@[1]);
    assert("fork"@[0] != "mode"@[0]);
    assert("fork"@[0] != "auth"@[0]);
    assert("Fork current session  (Ctrl+F)"@.subrange(22, 28) =~= "(Ctrl+"@);
}

#[verifier::rlimit(100)]
#[verifier::spinoff_prover]
proof fn lemma_row_4()
    ensures
        slash_command(typed_line("/help"@)) == SlashSpec::Help,
        ctrl_shortcut("Show keybindings and tips"@) == None::<char>,
{
    reveal_strlit("/help");
    reveal_strlit("Show keybindings and tips");
    reveal_strlit("help");
    reveal_strlit("(Ctrl+");
    reveal_strlit("?");
    reveal_strlit("sessions");
    reveal_strlit("home");
    reveal_strlit("back");
    reveal_strlit("resume");
    reveal_strlit("clear");
    reveal_strlit("delete");
    reveal_strlit("rename");
    reveal_strlit("rename ");
    reveal_strlit("reload");
    reveal_strlit("refresh");
    reveal_strlit("tools");
    reveal_strlit("thinking");
    reveal_strlit("reasoning");
    reveal_strlit("find");
    reveal_strlit("search");
    reveal_strlit("mode");
    reveal_strlit("model");
    reveal_strlit("providers");
    reveal_strlit("auth");
    reveal_strlit("connect");
    reveal_strlit("new");
    reveal_strlit("fork");
    reveal_strlit("skill");
    reveal_strlit("skill list");
    reveal_strlit("skill ");
    reveal_strlit("memory");
    reveal_strlit("memory on");
    reveal_strlit("memory off");
    reveal_strlit("memory clear");
    reveal_strlit("sessions ");
    reveal_strlit("resume ");
    assert("/help"@ =~= seq!['/'] + "help"@ + Seq::<char>::empty());
    assert(free_of("help"@, '<')) by {
        reveal_with_fuel(free_of, 5);
    }
    lemma_entry_word("/help"@, "help"@, Seq::<char>::empty());
    assert("help"@[1] != "home"@[1]);
    assert("help"@[0] != "back"@[0]);
    assert("help"@[0] != "find"@[0]);
    assert("help"@[0] != "mode"@[0]);
    assert("help"@[0] != "auth"@[0]);
    assert("help"@[0] != "fork"@[0]);

}

#[verifier::rlimit(100)]
#[verifier::spinoff_prover]
proof fn lemma_row_5()
    ensures
        slash_command(typed_line("/memory"@)) == SlashSpec::MemoryViewer,
        ctrl_shortcut("View memory summary (full modal)"@) == None::<char>,
{
    reveal_strlit("/memory");
    reveal_strlit("View memory summary (full modal)");
    reveal_strlit("memory");
    reveal_strlit("(Ctrl+");
    reveal_strlit("help");
    reveal_strlit("?");
    reveal_strlit("sessions");
    reveal_strlit("home");
    reveal_strlit("back");
    reveal_strlit("resume");
    reveal_strlit("clear");
    reveal_strlit("delete");
    reveal_strlit("rename");
    reveal_strlit("rename ");
    reveal_strlit("reload");
    reveal_strlit("refresh");
    reveal_strlit("tools");
    reveal_strlit("thinking");
    reveal_strlit("reasoning");
    reveal_strlit("find");
    reveal_strlit("search");
    reveal_strlit("mode");
    reveal_strlit("model");
    reveal_strlit("providers");
    reveal_strlit("auth");
    reveal_strlit("connect");
    reveal_strlit("new");
    reveal_strlit("fork");
    reveal_strlit("skill");
    reveal_strlit("skill list");
    reveal_strlit("skill ");
    reveal_strlit("memory on");
    reveal_strlit("memory off");
    reveal_strlit("memory clear");
    reveal_strlit("sessions ");
    reveal_strlit("resume ");
    assert("/memory"@ =~= seq!['/'] + "memory"@ + Seq::<char>::empty());
    assert(free_of("memory"@, '<')) by {
        reveal_with_fuel(free_of, 7);
    }
    lemma_entry_word("/memory"@, "memory"@, Seq::<char>::empty());
    assert("memory"@[0] != "resume"@[0]);
    assert("memory"@[0] != "delete"@[0]);
    assert("memory"@[0] != "rename"@[0]);
    assert("memory"@[0] != "reload"@[0]);
    assert("memory"@[0] != "search"@[0]);
    assert("memory"@[0] != "skill "@[0]);
    assert("View memory summary (full modal)"@.subrange(24, 30)[0] == "View memory summary (full modal)"@[24]);
}

#[verifier::rlimit(100)]
#[verifier::spinoff_prover]
proof fn lemma_row_6()
    ensures
        slash_command(typed_line("/memory on"@)) == SlashSpec::MemoryOn,
        ctrl_shortcut("Enable memory collection"@) == None::<char>,
{
    reveal_strlit("/memory on");
    reveal_strlit("Enable memory collection");
    reveal_strlit("memory on");
    reveal_strlit("(Ctrl+");
    reveal_strlit("help");
    reveal_strlit("?");
    reveal_strlit("sessions");
    reveal_strlit("home");
    reveal_strlit("back");
    reveal_strlit("resume");
    reveal_strlit("clear");
    reveal_strlit("delete");
    reveal_strlit("rename");
    reveal_strlit("rename ");
    reveal_strlit("reload");
    reveal_strlit("refresh");
    reveal_strlit("tools");
    reveal_strlit("thinking");
    reveal_strlit("reasoning");
    reveal_strlit("find");
    reveal_strlit("search");
    reveal_strlit("mode");
    reveal_strlit("model");
    reveal_strlit("providers");
    reveal_strlit("auth");
    reveal_strlit("connect");
    reveal_strlit("new");
    reveal_strlit("fork");
    reveal_strlit("skill");
    reveal_strlit("skill list");
    reveal_strlit("skill ");
    reveal_strlit("memory");
    reveal_strlit("memory off");
    reveal_strlit("memory clear");
    reveal_strlit("sessions ");
    reveal_strlit("resume ");
    assert("/memory on"@ =~= seq!['/'] + "memory on"@ + Seq::<char>::empty());
    assert(free_of("memory on"@, '<')) by {
        reveal_with_fuel(free_of, 10);
    }
    lemma_entry_word("/memory on"@, "memory on"@, Seq::<char>::empty());
    assert("memory on"@.take(7)[0] == "memory on"@[0] && "memory on"@[0] != "rename "@[0]);
    assert("memory on"@[0] != "reasoning"@[0]);
    assert("memory on"@[0] != "providers"@[0]);
    assert("memory on"@.take(6)[0] == "memory on"@[0] && "memory on"@[0] != "skill "@[0]);
    assert("memory on"@[0] != "sessions "@[0]);
    assert("memory on"@.take(7)[0] == "memory on"@[0] && "memory on"@[0] != "resume "@[0]);

}

#[verifier::rlimit(100)]
#[verifier::spinoff_prover]
proof fn lemma_row_7()
    ensures
        slash_command(typed_line("/memory off"@)) == SlashSpec::MemoryOff,
        ctrl_shortcut("Disable memory collection"@) == None::<char>,
{
    reveal_strlit("/memory off");
    reveal_strlit("Disable memory collection");
    reveal_strlit("memory off");
    reveal_strlit("(Ctrl+");
    reveal_strlit("help");
    reveal_strlit("?");
    reveal_strlit("sessions");
    reveal_strlit("home");
    reveal_strlit("back");
    reveal_strlit("resume");
    reveal_strlit("clear");
    reveal_strlit("delete");
    reveal_strlit("rename");
    reveal_strlit("rename ");
    reveal_strlit("reload");
    reveal_strlit("refresh");
    reveal_strlit("tools");
    reveal_strlit("thinking");
    reveal_strlit("reasoning");
    reveal_strlit("find");
    reveal_strlit("search");
    reveal_strlit("mode");
    reveal_strlit("model");
    reveal_strlit("providers");
    reveal_strlit("auth");
    reveal_strlit("connect");
    reveal_strlit("new");
    reveal_strlit("fork");
    reveal_strlit("skill");
    reveal_strlit("skill list");
    reveal_strlit("skill ");
    reveal_strlit("memory");
    reveal_strlit("memory on");
    reveal_strlit("memory clear");
    reveal_strlit("sessions ");
    reveal_strlit("resume ");
    assert("/memory off"@ =~= seq!['/'] + "memory off"@ + Seq::<char>::empty());
    assert(free_of("memory off"@, '<')) by {
        reveal_with_fuel(free_of, 11);
    }
    lemma_entry_word("/memory off"@, "memory off"@, Seq::<char>::empty());
    assert("memory off"@.take(7)[0] == "memory off"@[0] && "memory off"@[0] != "rename "@[0]);
    assert("memory off"@[0] != "skill list"@[0]);
    assert("memory off"@.take(6)[0] == "memory off"@[0] && "memory off"@[0] != "skill "@[0]);
    assert("memory off"@.take(9)[0] == "memory off"@[0] && "memory off"@[0] != "sessions "@[0]);
    assert("memory off"@.take(7)[0] == "memory off"@[0] && "memory off"@[0] != "resume "@[0]);

}

#[verifier::rlimit(100)]
#[verifier::spinoff_prover]
proof fn lemma_row_8()
    ensures
        slash_command(typed_line("/memory clear"@)) == SlashSpec::MemoryClear,
        ctrl_shortcut("Clear all memories (with confirmation)"@) == None::<char>,
{
    reveal_strlit("/memory clear");
    reveal_strlit("Clear all memories (with confirmation)");
    reveal_strlit("memory clear");
    reveal_strlit("(Ctrl+");
    reveal_strlit("help");
    reveal_strlit("?");
    reveal_strlit("sessions");
    reveal_strlit("home");
    reveal_strlit("back");
    reveal_strlit("resume");
    reveal_strlit("clear");
    reveal_strlit("delete");
    reveal_strlit("rename");
    reveal_strlit("rename ");
    reveal_strlit("reload");
    reveal_strlit("refresh");
    reveal_strlit("tools");
    reveal_strlit("thinking");
    reveal_strlit("reasoning");
    reveal_strlit("find");
    reveal_strlit("search");
    reveal_strlit("mode");
    reveal_strlit("model");
    reveal_strlit("providers");
    reveal_strlit("auth");
    reveal_strlit("connect");
    reveal_strlit("new");
    reveal_strlit("fork");
    reveal_strlit("skill");
    reveal_strlit("skill list");
    reveal_strlit("skill ");
    reveal_strlit("memory");
    reveal_strlit("memory on");
    reveal_strlit("memory off");
    reveal_strlit("sessions ");
    reveal_strlit("resume ");
    assert("/memory clear"@ =~= seq!['/'] + "memory clear"@ + Seq::<char>::empty());
    assert(free_of("memory clear"@, '<')) by {
        reveal_with_fuel(free_of, 13);
    }
    lemma_entry_word("/memory clear"@, "memory clear"@, Seq::<char>::empty());
    assert("memory clear"@.take(7)[0] == "memory clear"@[0] && "memory clear"@[0] != "rename "@[0]);
    assert("memory clear"@.take(6)[0] == "memory clear"@[0] && "memory clear"@[0] != "skill "@[0]);
    assert("memory clear"@.take(9)[0] == "memory clear"@[0] && "memory clear"@[0] != "sessions "@[0]);
    assert("memory clear"@.take(7)[0] == "memory clear"@[0] && "memory clear"@[0] != "resume "@[0]);
    assert("Clear all memories (with confirmation)"@.subrange(30, 36)[0] == "Clear all memories (with confirmation)"@[30]);
}

#[verifier::rlimit(100)]
#[verifier::spinoff_prover]
proof fn lemma_row_9()
    ensures
        slash_command(typed_line("/model"@)) == SlashSpec::SwitchModel,
        ctrl_shortcut("Switch LLM model  (Ctrl+M)"@) == Some('M'),
{
    reveal_strlit("/model");
    reveal_strlit("Switch LLM model  (Ctrl+M)");
    reveal_strlit("model");
    reveal_strlit("(Ctrl+");
    reveal_strlit("help");
    reveal_strlit("?");
    reveal_strlit("sessions");
    reveal_strlit("home");
    reveal_strlit("back");
    reveal_strlit("resume");
    reveal_strlit("clear");
    reveal_strlit("delete");
    reveal_strlit("rename");
    reveal_strlit("rename ");
    reveal_strlit("reload");
    reveal_strlit("refresh");
    reveal_strlit("tools");
    reveal_strlit("thinking");
    reveal_strlit("reasoning");
    reveal_strlit("find");
    reveal_strlit("search");
    reveal_strlit("mode");
    reveal_strlit("providers");
    reveal_strlit("auth");
    reveal_strlit("connect");
    reveal_strlit("new");
    reveal_strlit("fork");
    reveal_strlit("skill");
    reveal_strlit("skill list");
    reveal_strlit("skill ");
    reveal_strlit("memory");
    reveal_strlit("memory on");
    reveal_strlit("memory off");
    reveal_strlit("memory clear");
    reveal_strlit("sessions ");
    reveal_strlit("resume ");
    assert("/model"@ =~= seq!['/'] + "model"@ + Seq::<char>::empty());
    assert(free_of("model"@, '<')) by {
        reveal_with_fuel(free_of, 6);
    }
    lemma_entry_word("/model"@, "model"@, Seq::<char>::empty());
    assert("model"@[0] != "clear"@[0]);
    assert("model"@[0] != "tools"@[0]);
    assert("model"@[0] != "skill"@[0]);
    assert("Switch LLM model  (Ctrl+M)"@.subrange(18, 24) =~= "(Ctrl+"@);
}

#[verifier::rlimit(100)]
#[verifier::spinoff_prover]
proof fn lemma_row_10()
    ensures
        slash_command(typed_line("/new"@)) == SlashSpec::NewSession,
        ctrl_shortcut("Create a new session  (Ctrl+N)"@) == Some('N'),
{
    reveal_strlit("/new");
    reveal_strlit("Create a new session  (Ctrl+N)");
    reveal_strlit("new");
    reveal_strlit("(Ctrl+");
    reveal_strlit("help");
    reveal_strlit("?");
    reveal_strlit("sessions");
    reveal_strlit("home");
    reveal_strlit("back");
    reveal_strlit("resume");
    reveal_strlit("clear");
    reveal_strlit("delete");
    reveal_strlit("rename");
    reveal_strlit("rename ");
    reveal_strlit("reload");
    reveal_strlit("refresh");
    reveal_strlit("tools");
    reveal_strlit("thinking");
    reveal_strlit("reasoning");
    reveal_strlit("find");
    reveal_strlit("search");
    reveal_strlit("mode");
    reveal_strlit("model");
    reveal_strlit("providers");
    reveal_strlit("auth");
    reveal_strlit("connect");
    reveal_strlit("fork");
    reveal_strlit("skill");
    reveal_strlit("skill list");
    reveal_strlit("skill ");
    reveal_strlit("memory");
    reveal_strlit("memory on");
    reveal_strlit("memory off");
    reveal_strlit("memory clear");
    reveal_strlit("sessions ");
    reveal_strlit("resume ");
    assert("/new"@ =~= seq!['/'] + "new"@ + Seq::<char>::empty());
    assert(free_of("new"@, '<')) by {
        reveal_with_fuel(free_of, 4);
    }
    lemma_entry_word("/new"@, "new"@, Seq::<char>::empty());
    assert("Create a new session  (Ctrl+N)"@.subrange(22, 28) =~= "(Ctrl+"@);
}

#[verifier::rlimit(100)]
#[verifier::spinoff_prover]
proof fn lemma_row_11()
    ensures
        slash_command(typed_line("/providers"@)) == SlashSpec::ManageProviders,
        ctrl_shortcut("Connect/disconnect providers  (Ctrl+A)"@) == Some('A'),
{
    reveal_strlit("/providers");
    reveal_strlit("Connect/disconnect providers  (Ctrl+A)");
    reveal_strlit("providers");
    reveal_strlit("(Ctrl+");
    reveal_strlit("help");
    reveal_strlit("?");
    reveal_strlit("sessions");
    reveal_strlit("home");
    reveal_strlit("back");
    reveal_strlit("resume");
    reveal_strlit("clear");
    reveal_strlit("delete");
    reveal_strlit("rename");
    reveal_strlit("rename ");
    reveal_strlit("reload");
    reveal_strlit("refresh");
    reveal_strlit("tools");
    reveal_strlit("thinking");
    reveal_strlit("reasoning");
    reveal_strlit("find");
    reveal_strlit("search");
    reveal_strlit("mode");
    reveal_strlit("model");
    reveal_strlit("auth");
    reveal_strlit("connect");
    reveal_strlit("new");
    reveal_strlit("fork");
    reveal_strlit("skill");
    reveal_strlit("skill list");
    reveal_strlit("skill ");
    reveal_strlit("memory");
    reveal_strlit("memory on");
    reveal_strlit("memory off");
    reveal_strlit("memory clear");
    reveal_strlit("sessions ");
    reveal_strlit("resume ");
    assert("/providers"@ =~= seq!['/'] + "providers"@ + Seq::<char>::empty());
    assert(free_of("providers"@, '<')) by {
        reveal_with_fuel(free_of, 10);
    }
    lemma_entry_word("/providers"@, "providers"@, Seq::<char>::empty());
    assert("providers"@.take(7)[0] == "providers"@[0] && "providers"@[0] != "rename "@[0]);
    assert("providers"@[0] != "reasoning"@[0]);
    assert("providers"@.take(6)[0] == "providers"@[0] && "providers"@[0] != "skill "@[0]);
    assert("providers"@[0] != "memory on"@[0]);
    assert("providers"@[0] != "sessions "@[0]);
    assert("providers"@.take(7)[0] == "providers"@[0] && "providers"@[0] != "resume "@[0]);
    assert("Connect/disconnect providers  (Ctrl+A)"@.subrange(30, 36) =~= "(Ctrl+"@);
}

#[verifier::rlimit(100)]
#[verifier::spinoff_prover]
proof fn lemma_row_12()
    ensures
        slash_command(typed_line("/refresh"@)) == SlashSpec::Reload,
        ctrl_shortcut("Reload transcript  (Ctrl+R)"@) == Some('R'),
{
    reveal_strlit("/refresh");
    reveal_strlit("Reload transcript  (Ctrl+R)");
    reveal_strlit("refresh");
    reveal_strlit("(Ctrl+");
    reveal_strlit("help");
    reveal_strlit("?");
    reveal_strlit("sessions");
    reveal_strlit("home");
    reveal_strlit("back");
    reveal_strlit("resume");
    reveal_strlit("clear");
    reveal_strlit("delete");
    reveal_strlit("rename");
    reveal_strlit("rename ");
    reveal_strlit("reload");
    reveal_strlit("tools");
    reveal_strlit("thinking");
    reveal_strlit("reasoning");
    reveal_strlit("find");
    reveal_strlit("search");
    reveal_strlit("mode");
    reveal_strlit("model");
    reveal_strlit("providers");
    reveal_strlit("auth");
    reveal_strlit("connect");
    reveal_strlit("new");
    reveal_strlit("fork");
    reveal_strlit("skill");
    reveal_strlit("skill list");
    reveal_strlit("skill ");
    reveal_strlit("memory");
    reveal_strlit("memory on");
    reveal_strlit("memory off");
    reveal_strlit("memory clear");
    reveal_strlit("sessions ");
    reveal_strlit("resume ");
    assert("/refresh"@ =~= seq!['/'] + "refresh"@ + Seq::<char>::empty());
    assert(free_of("refresh"@, '<')) by {
        reveal_with_fuel(free_of, 8);
    }
    lemma_entry_word("/refresh"@, "refresh"@, Seq::<char>::empty());
    assert("refresh"@[2] != "rename "@[2]);
    assert("refresh"@[0] != "connect"@[0]);
    assert("refresh"@.take(6)[0] == "refresh"@[0] && "refresh"@[0] != "skill "@[0]);
    assert("refresh"@[2] != "resume "@[2]);
    assert("Reload transcript  (Ctrl+R)"@.subrange(19, 25) =~= "(Ctrl+"@);
}

#[verifier::rlimit(100)]
#[verifier::spinoff_prover]
proof fn lemma_row_13()
    ensures
        slash_command(typed_line("/rename <title>"@)) == SlashSpec::RenameDialog,
        ctrl_shortcut("Rename current session"@) == None::<char>,
{
    reveal_strlit("/rename <title>");
    reveal_strlit("Rename current session");
    reveal_strlit("rename");
    reveal_strlit(" <title>");
    reveal_strlit("(Ctrl+");
    reveal_strlit("help");
    reveal_strlit("?");
    reveal_strlit("sessions");
    reveal_strlit("home");
    reveal_strlit("back");
    reveal_strlit("resume");
    reveal_strlit("clear");
    reveal_strlit("delete");
    reveal_strlit("rename ");
    reveal_strlit("reload");
    reveal_strlit("refresh");
    reveal_strlit("tools");
    reveal_strlit("thinking");
    reveal_strlit("reasoning");
    reveal_strlit("find");
    reveal_strlit("search");
    reveal_strlit("mode");
    reveal_strlit("model");
    reveal_strlit("providers");
    reveal_strlit("auth");
    reveal_strlit("connect");
    reveal_strlit("new");
    reveal_strlit("fork");
    reveal_strlit("skill");
    reveal_strlit("skill list");
    reveal_strlit("skill ");
    reveal_strlit("memory");
    reveal_strlit("memory on");
    reveal_strlit("memory off");
    reveal_strlit("memory clear");
    reveal_strlit("sessions ");
    reveal_strlit("resume ");
    assert("/rename <title>"@ =~= seq!['/'] + "rename"@ + " <title>"@);
    assert(free_of("rename"@, '<')) by {
        reveal_with_fuel(free_of, 7);
    }
    lemma_entry_word("/rename <title>"@, "rename"@, " <title>"@);
    assert("rename"@[2] != "resume"@[2]);
    assert("rename"@[0] != "delete"@[0]);
    assert("rename"@[2] != "reload"@[2]);
    assert("rename"@[0] != "search"@[0]);
    assert("rename"@[0] != "skill "@[0]);
    assert("rename"@[0] != "memory"@[0]);

}

#[verifier::rlimit(100)]
#[verifier::spinoff_prover]
proof fn lemma_row_14()
    ensures
        slash_command(typed_line("/resume <id>"@)) == SlashSpec::ToSessions,
        ctrl_shortcut("Resume a session by ID (empty = session list)"@) == None::<char>,
{
    reveal_strlit("/resume <id>");
    reveal_strlit("Resume a session by ID (empty = session list)");
    reveal_strlit("resume");
    reveal_strlit(" <id>");
    reveal_strlit("(Ctrl+");
    reveal_strlit("help");
    reveal_strlit("?");
    reveal_strlit("sessions");
    reveal_strlit("home");
    reveal_strlit("back");
    reveal_strlit("clear");
    reveal_strlit("delete");
    reveal_strlit("rename");
    reveal_strlit("rename ");
    reveal_strlit("reload");
    reveal_strlit("refresh");
    reveal_strlit("tools");
    reveal_strlit("thinking");
    reveal_strlit("reasoning");
    reveal_strlit("find");
    reveal_strlit("search");
    reveal_strlit("mode");
    reveal_strlit("model");
    reveal_strlit("providers");
    reveal_strlit("auth");
    reveal_strlit("connect");
    reveal_strlit("new");
    reveal_strlit("fork");
    reveal_strlit("skill");
    reveal_strlit("skill list");
    reveal_strlit("skill ");
    reveal_strlit("memory");
    reveal_strlit("memory on");
    reveal_strlit("memory off");
    reveal_strlit("memory clear");
    reveal_strlit("sessions ");
    reveal_strlit("resume ");
    assert("/resume <id>"@ =~= seq!['/'] + "resume"@ + " <id>"@);
    assert(free_of("resume"@, '<')) by {
        reveal_with_fuel(free_of, 7);
    }
    lemma_entry_word("/resume <id>"@, "resume"@, " <id>"@);
    assert("resume"@[0] != "delete"@[0]);
    assert("resume"@[2] != "rename"@[2]);
    assert("resume"@[2] != "reload"@[2]);
    assert("resume"@[0] != "search"@[0]);
    assert("resume"@[0] != "skill "@[0]);
    assert("resume"@[0] != "memory"@[0]);
    assert("Resume a session by ID (empty = session list)"@.subrange(37, 43)[0] == "Resume a session by ID (empty = session list)"@[37]);
}

#[verifier::rlimit(100)]
#[verifier::spinoff_prover]
proof fn lemma_row_15()
    ensures
        slash_command(typed_line("/sessions"@)) == SlashSpec::ToSessions,
        ctrl_shortcut("Go to sessions screen  (Ctrl+Q)"@) == Some('Q'),
{
    reveal_strlit("/sessions");
    reveal_strlit("Go to sessions screen  (Ctrl+Q)");
    reveal_strlit("sessions");
    reveal_strlit("(Ctrl+");
    reveal_strlit("help");
    reveal_strlit("?");
    reveal_strlit("home");
    reveal_strlit("back");
    reveal_strlit("resume");
    reveal_strlit("clear");
    reveal_strlit("delete");
    reveal_strlit("rename");
    reveal_strlit("rename ");
    reveal_strlit("reload");
    reveal_strlit("refresh");
    reveal_strlit("tools");
    reveal_strlit("thinking");
    reveal_strlit("reasoning");
    reveal_strlit("find");
    reveal_strlit("search");
    reveal_strlit("mode");
    reveal_strlit("model");
    reveal_strlit("providers");
    reveal_strlit("auth");
    reveal_strlit("connect");
    reveal_strlit("new");
    reveal_strlit("fork");
    reveal_strlit("skill");
    reveal_strlit("skill list");
    reveal_strlit("skill ");
    reveal_strlit("memory");
    reveal_strlit("memory on");
    reveal_strlit("memory off");
    reveal_strlit("memory clear");
    reveal_strlit("sessions ");
    reveal_strlit("resume ");
    assert("/sessions"@ =~= seq!['/'] + "sessions"@ + Seq::<char>::empty());
    assert(free_of("sessions"@, '<')) by {
        reveal_with_fuel(free_of, 9);
    }
    lemma_entry_word("/sessions"@, "sessions"@, Seq::<char>::empty());
    assert("sessions"@.take(7)[0] == "sessions"@[0] && "sessions"@[0] != "rename "@[0]);
    assert("sessions"@[0] != "thinking"@[0]);
    assert("sessions"@.take(6)[1] == "sessions"@[1] && "sessions"@[1] != "skill "@[1]);
    assert("sessions"@.take(7)[0] == "sessions"@[0] && "sessions"@[0] != "resume "@[0]);
    assert("Go to sessions screen  (Ctrl+Q)"@.subrange(23, 29) =~= "(Ctrl+"@);
}

#[verifier::rlimit(100)]
#[verifier::spinoff_prover]
proof fn lemma_row_16()
    ensures
        slash_command(typed_line("/skill"@)) == SlashSpec::ListSkills,
        ctrl_shortcut("List or inject a skill  (Ctrl+S)"@) == Some('S'),
{
    reveal_strlit("/skill");
    reveal_strlit("List or inject a skill  (Ctrl+S)");
    reveal_strlit("skill");
    reveal_strlit("(Ctrl+");
    reveal_strlit("help");
    reveal_strlit("?");
    reveal_strlit("sessions");
    reveal_strlit("home");
    reveal_strlit("back");
    reveal_strlit("resume");
    reveal_strlit("clear");
    reveal_strlit("delete");
    reveal_strlit("rename");
    reveal_strlit("rename ");
    reveal_strlit("reload");
    reveal_strlit("refresh");
    reveal_strlit("tools");
    reveal_strlit("thinking");
    reveal_strlit("reasoning");
    reveal_strlit("find");
    reveal_strlit("search");
    reveal_strlit("mode");
    reveal_strlit("model");
    reveal_strlit("providers");
    reveal_strlit("auth");
    reveal_strlit("connect");
    reveal_strlit("new");
    reveal_strlit("fork");
    reveal_strlit("skill list");
    reveal_strlit("skill ");
    reveal_strlit("memory");
    reveal_strlit("memory on");
    reveal_strlit("memory off");
    reveal_strlit("memory clear");
    reveal_strlit("sessions ");
    reveal_strlit("resume ");
    assert("/skill"@ =~= seq!['/'] + "skill"@ + Seq::<char>::empty());
    assert(free_of("skill"@, '<')) by {
        reveal_with_fuel(free_of, 6);
    }
    lemma_entry_word("/skill"@, "skill"@, Seq::<char>::empty());
    assert("skill"@[0] != "clear"@[0]);
    assert("skill"@[0] != "tools"@[0]);
    assert("skill"@[0] != "model"@[0]);
    assert("List or inject a skill  (Ctrl+S)"@.subrange(24, 30) =~= "(Ctrl+"@);
}

#[verifier::rlimit(100)]
#[verifier::spinoff_prover]
proof fn lemma_rows()
    ensures
        slash_table().len() == 17,
        forall|i: int| 0 <= i < 17 ==> #[trigger] slash_command(typed_line(slash_table()[i].0)) == row_commands()[i],
        forall|i: int| 0 <= i < 17 ==> #[trigger] ctrl_shortcut(slash_table()[i].1) == row_shortcuts()[i],
{
    lemma_row_0();
    lemma_row_1();
    lemma_row_2();
    lemma_row_3();
    lemma_row_4();
    lemma_row_5();
    lemma_row_6();
    lemma_row_7();
    lemma_row_8();
    lemma_row_9();
    lemma_row_10();
    lemma_row_11();
    lemma_row_12();
    lemma_row_13();
    lemma_row_14();
    lemma_row_15();
    lemma_row_16();
    assert(slash_table().len() == 17);
    assert forall|i: int| 0 <= i < 17 implies #[trigger] slash_command(typed_line(slash_table()[i].0)) == row_commands()[i]
        && ctrl_shortcut(slash_table()[i].1) == row_shortcuts()[i] by {
    }
}

/// Every entry of the slash-command popup runs a known command, and no two
/// entries run the same one, except that `/resume` without an id and
/// `/sessions` both go back to the session list.
pub proof fn law_popup_entries_distinct(i: int, j: int)
    requires
        0 <= i < slash_table().len(),
        0 <= j < slash_table().len(),
        i != j,
    ensures
        !(slash_command(typed_line(slash_table()[i].0)) is Unknown),
        slash_command(typed_line(slash_table()[i].0)) == slash_command(typed_line(slash_table()[j].0))
            ==> slash_command(typed_line(slash_table()[i].0)) == SlashSpec::ToSessions,
{
    lemma_rows();
    assert(slash_command(typed_line(slash_table()[i].0)) == row_commands()[i]);
    assert(slash_command(typed_line(slash_table()[j].0)) == row_commands()[j]);
}

/// An entry of the popup whose description names a `(Ctrl+X)` shortcut runs
/// the command that Ctrl+X runs on the chat screen.
pub proof fn law_popup_shortcuts_agree(i: int, ctx: ChatKeyContext)
    requires
        0 <= i < slash_table().len(),
    ensures
        match ctrl_shortcut(slash_table()[i].1) {
            Some(x) => counterpart(
                slash_command(typed_line(slash_table()[i].0)),
                chat_key_spec(KeyPress { key: Key::Char(x), ctrl: true, alt: false, shift: false }, ctx).action,
            ),
            None => true,
        },
{
    lemma_rows();
    assert(slash_command(typed_line(slash_table()[i].0)) == row_commands()[i]);
    assert(ctrl_shortcut(slash_table()[i].1) == row_shortcuts()[i]);
}

} // verus!
