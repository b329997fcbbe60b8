//! Text shown for tool calls and their results: compact summaries, the key
//! argument of a call, home-relative paths, and short failure messages.
use vstd::prelude::*;
use crate::approval::{tilde, tilde_path};
use crate::diff::{exit_code, parse_exit_code, patch_target, extract_patch_target, strip_prefix, strip_prefix_of};
use crate::format::{sanitized, sanitize_output_line};
use crate::failure::byte_len_below;
use crate::json::{json_has_field, json_has_key, json_bool_field, json_bool_field_of, json_entries, json_entries_of, json_str_field, json_string_field, entry_view};
use crate::parse::{lines_of, text_lines, words, words_of};
use crate::text::{byte_len, chars_of, contains_exec, contains_seq, decimal, decimal_of, eq_str, lower_chars, lower_seq, occurs_at, occurs_at_exec, push_all, string_of, sub_chars, trim, trim_chars};

verus! {

broadcast use vstd::seq_lib::group_seq_properties;

/// The view of an optional string.
pub open spec fn opt_view(o: Option<&str>) -> Option<Seq<char>> {
    match o {
        Some(s) => Some(s@),
        None => None,
    }
}

// ── Editing tools ───────────────────────────────────────────────────────────

/// Tools that change files: write, edit, multiedit and apply_patch, in any
/// ASCII case.
pub open spec fn editing_tool(tool: Seq<char>) -> bool {
    let t = lower_seq(tool);
    t == "write"@ || t == "edit"@ || t == "multiedit"@ || t == "apply_patch"@
}

pub fn is_editing_tool(tool_name: &str) -> (r: bool)
    ensures
        r == editing_tool(tool_name@),
{
    let t = lower_chars(&chars_of(tool_name));
    eq_str(&t, "write") || eq_str(&t, "edit") || eq_str(&t, "multiedit") || eq_str(
        &t,
        "apply_patch",
    )
}

// ── Replacing every occurrence ──────────────────────────────────────────────

/// `s` from index `i` on with each occurrence of `pat` replaced by `rep`,
/// scanning left to right without overlap (std's `str::replace`); an empty
/// pattern matches before every character and at the end.
pub open spec fn replaced_from(s: Seq<char>, pat: Seq<char>, rep: Seq<char>, i: int) -> Seq<char>
    decreases s.len() - i,
{
    if pat.len() == 0 {
        if i < 0 || i >= s.len() {
            rep
        } else {
            rep + seq![s[i]] + replaced_from(s, pat, rep, i + 1)
        }
    } else if i < 0 || i >= s.len() {
        Seq::empty()
    } else if occurs_at(s, pat, i) {
        rep + replaced_from(s, pat, rep, i + pat.len())
    } else {
        seq![s[i]] + replaced_from(s, pat, rep, i + 1)
    }
}

pub open spec fn replace_all(s: Seq<char>, pat: Seq<char>, rep: Seq<char>) -> Seq<char> {
    replaced_from(s, pat, rep, 0)
}

/// `s` with every occurrence of `pat` replaced by `rep`.
pub fn replace_chars(s: &Vec<char>, pat: &Vec<char>, rep: &Vec<char>) -> (r: Vec<char>)
    ensures
        r@ == replace_all(s@, pat@, rep@),
{
    let mut out: Vec<char> = Vec::new();
    let mut i: usize = 0;
    if pat.len() == 0 {
        while i < s.len()
            invariant
                pat@.len() == 0,
                i <= s.len(),
                out@ + replaced_from(s@, pat@, rep@, i as int) == replace_all(s@, pat@, rep@),
            decreases s.len() - i,
        {
            proof {
                assert(out@ + rep@ + seq![s@[i as int]] + replaced_from(s@, pat@, rep@, i + 1)
                    =~= out@ + replaced_from(s@, pat@, rep@, i as int));
            }
            push_all(&mut out, rep);
            out.push(s[i]);
            i = i + 1;
        }
        push_all(&mut out, rep);
        return out;
    }
    while i < s.len()
        invariant
            pat@.len() > 0,
            i <= s.len(),
            out@ + replaced_from(s@, pat@, rep@, i as int) == replace_all(s@, pat@, rep@),
        decreases s.len() - i,
    {
        if occurs_at_exec(s, pat, i) {
            proof {
                assert(out@ + rep@ + replaced_from(s@, pat@, rep@, i + pat@.len())
                    =~= out@ + replaced_from(s@, pat@, rep@, i as int));
            }
            push_all(&mut out, rep);
            i = i + pat.len();
        } else {
            proof {
                assert(out@.push(s@[i as int]) + replaced_from(s@, pat@, rep@, i + 1)
                    =~= out@ + replaced_from(s@, pat@, rep@, i as int));
            }
            out.push(s[i]);
            i = i + 1;
        }
    }
    proof {
        assert(out@ + replaced_from(s@, pat@, rep@, i as int) =~= out@);
    }
    out
}

// ── Home-relative paths ─────────────────────────────────────────────────────

/// `line` with every occurrence of the home directory written `~`.
pub open spec fn tilde_in_line(line: Seq<char>, home: Option<Seq<char>>) -> Seq<char> {
    match home {
        Some(h) => if contains_seq(line, h) {
            replace_all(line, h, seq!['~'])
        } else {
            line
        },
        None => line,
    }
}

pub(crate) fn tilde_in_line_chars(line: &Vec<char>, home: Option<&str>) -> (r: Vec<char>)
    ensures
        r@ == tilde_in_line(line@, opt_view(home)),
{
    match home {
        Some(h) => {
            let hv = chars_of(h);
            if contains_exec(line, &hv) {
                let mut t: Vec<char> = Vec::new();
                t.push('~');
                proof {
                    assert(t@ =~= seq!['~']);
                }
                replace_chars(line, &hv, &t)
            } else {
                sub_chars(line, 0, line.len())
            }
        },
        None => sub_chars(line, 0, line.len()),
    }
}

/// Replaces every occurrence of `home` (the `HOME` directory, when known) in
/// `line` by `~`.
pub fn tilde_path_in_line(line: &str, home: Option<&str>) -> (r: String)
    ensures
        r@ == tilde_in_line(line@, opt_view(home)),
{
    let v = chars_of(line);
    let t = tilde_in_line_chars(&v, home);
    proof {
        assert(v@.subrange(0, v@.len() as int) =~= v@);
    }
    string_of(t.as_slice())
}

/// The last of `ws` that holds a `/`.
pub open spec fn last_path_word(ws: Seq<Seq<char>>) -> Option<Seq<char>>
    decreases ws.len(),
{
    if ws.len() == 0 {
        None
    } else if contains_seq(ws.last(), seq!['/']) {
        Some(ws.last())
    } else {
        last_path_word(ws.drop_last())
    }
}

/// The file a tool description names: what follows `file:`, else the last
/// word with a `/`, else the whole description; home written `~`.
pub open spec fn filename_of(desc: Seq<char>, home: Option<Seq<char>>) -> Seq<char> {
    let after = strip_prefix(desc, "file:"@);
    if after is Some && trim(after->0).len() > 0 {
        tilde(trim(after->0), home)
    } else {
        match last_path_word(words(desc)) {
            Some(t) => tilde(t, home),
            None => desc,
        }
    }
}

pub fn extract_filename(desc: &str, home: Option<&str>) -> (r: String)
    ensures
        r@ == filename_of(desc@, opt_view(home)),
{
    let d = chars_of(desc);
    if let Some(p) = strip_prefix_of(&d, "file:") {
        let t = trim_chars(&p);
        if t.len() > 0 {
            let ts = string_of(t.as_slice());
            return tilde_path(ts.as_str(), home);
        }
    }
    let ws = words_of(&d);
    let ghost wv = ws@.map_values(|w: Vec<char>| w@);
    let slash = chars_of("/");
    proof {
        reveal_strlit("/");
        assert(ws@.map_values(|w: Vec<char>| w@).take(ws.len() as int) =~= wv);
    }
    let mut k = ws.len();
    while k > 0
        invariant
            k <= ws.len(),
            d@ == desc@,
            wv == words(d@),
            !(strip_prefix(d@, "file:"@) is Some && trim(strip_prefix(d@, "file:"@)->0).len() > 0),
            wv == ws@.map_values(|w: Vec<char>| w@),
            slash@ == seq!['/'],
            last_path_word(wv) == last_path_word(wv.take(k as int)),
        decreases k,
    {
        proof {
            assert(wv.take(k as int).drop_last() =~= wv.take(k - 1));
            assert(wv.take(k as int).last() == ws@[k - 1]@);
        }
        if contains_exec(&ws[k - 1], &slash) {
            let ts = string_of(ws[k - 1].as_slice());
            return tilde_path(ts.as_str(), home);
        }
        k = k - 1;
    }
    string_of(d.as_slice())
}

// ── Tool result summaries ──────────────────────────────────────────────────

/// Number of lines of `ls` that hold more than whitespace.
pub open spec fn count_nonblank(ls: Seq<Seq<char>>) -> nat
    decreases ls.len(),
{
    if ls.len() == 0 {
        0
    } else {
        count_nonblank(ls.drop_last()) + (if trim(ls.last()).len() > 0 {
            1nat
        } else {
            0nat
        })
    }
}

/// The first line of `ls` that holds more than whitespace.
pub open spec fn first_nonblank(ls: Seq<Seq<char>>) -> Option<Seq<char>>
    decreases ls.len(),
{
    if ls.len() == 0 {
        None
    } else if trim(ls[0]).len() > 0 {
        Some(ls[0])
    } else {
        first_nonblank(ls.drop_first())
    }
}

/// `c` in decimal, with a leading `-` when negative.
pub open spec fn signed_decimal(c: int) -> Seq<char> {
    if c < 0 {
        seq!['-'] + decimal((-c) as nat)
    } else {
        decimal(c as nat)
    }
}

/// `n` followed by the singular or plural noun.
pub open spec fn counted(n: nat, one: Seq<char>, many: Seq<char>) -> Seq<char> {
    decimal(n) + if n == 1 {
        one
    } else {
        many
    }
}

/// One line summarising the result `output` of tool `tool`: counts for
/// reads, listings and searches; the exit code for commands; the first
/// non-blank line for edits and other tools (home written `~`, control
/// characters removed, at most 96 characters for other tools), with a
/// fixed text by outcome when there is none.
pub open spec fn summary_text(tool: Seq<char>, output: Seq<char>, ok: bool, home: Option<Seq<char>>) -> Seq<char> {
    let t = lower_seq(tool);
    let ls = text_lines(output);
    let n = count_nonblank(ls);
    let first = first_nonblank(ls);
    if t == "read"@ {
        "Read "@ + counted(n, " line"@, " lines"@)
    } else if t == "list"@ || t == "glob"@ {
        "Found "@ + counted(n, " file"@, " files"@)
    } else if t == "grep"@ || t == "codesearch"@ {
        "Found "@ + counted(n, " match"@, " matches"@)
    } else if t == "exec"@ || t == "bash"@ || t == "pty_exec"@ {
        match exit_code(output) {
            Some(c) => "Command exited "@ + signed_decimal(c),
            None => if ok {
                "Command completed"@
            } else {
                "Command failed"@
            },
        }
    } else if editing_tool(tool) {
        match first {
            Some(l) => sanitized(tilde_in_line(l, home)),
            None => if ok {
                "Update applied"@
            } else {
                "Update failed"@
            },
        }
    } else {
        let clean = match first {
            Some(l) => sanitized(tilde_in_line(l, home)),
            None => Seq::empty(),
        };
        if clean.len() == 0 {
            if ok {
                "Done"@
            } else {
                "Failed"@
            }
        } else if clean.len() <= 96 {
            clean
        } else {
            clean.take(96)
        }
    }
}

fn count_nonblank_of(ls: &Vec<Vec<char>>) -> (n: usize)
    ensures
        n == count_nonblank(ls@.map_values(|l: Vec<char>| l@)),
{
    let ghost lv = ls@.map_values(|l: Vec<char>| l@);
    let mut n: usize = 0;
    let mut i: usize = 0;
    while i < ls.len()
        invariant
            i <= ls.len(),
            lv == ls@.map_values(|l: Vec<char>| l@),
            n == count_nonblank(lv.take(i as int)),
            n <= i,
        decreases ls.len() - i,
    {
        proof {
            assert(lv.take(i + 1).drop_last() =~= lv.take(i as int));
            assert(lv.take(i + 1).last() == ls@[i as int]@);
        }
        let t = trim_chars(&ls[i]);
        if t.len() > 0 {
            n = n + 1;
        }
        i = i + 1;
    }
    proof {
        assert(lv.take(ls.len() as int) =~= lv);
    }
    n
}

pub(crate) fn first_nonblank_of(ls: &Vec<Vec<char>>) -> (r: Option<Vec<char>>)
    ensures
        match first_nonblank(ls@.map_values(|l: Vec<char>| l@)) {
            Some(l) => r matches Some(v) && v@ == l,
            None => r is None,
        },
{
    let ghost lv = ls@.map_values(|l: Vec<char>| l@);
    let mut i: usize = 0;
    proof {
        assert(lv.skip(0) =~= lv);
    }
    while i < ls.len()
        invariant
            i <= ls.len(),
            lv == ls@.map_values(|l: Vec<char>| l@),
            first_nonblank(lv) == first_nonblank(lv.skip(i as int)),
        decreases ls.len() - i,
    {
        proof {
            assert(lv.skip(i as int).drop_first() =~= lv.skip(i + 1));
            assert(lv.skip(i as int)[0] == ls@[i as int]@);
        }
        let t = trim_chars(&ls[i]);
        if t.len() > 0 {
            return Some(sub_chars(&ls[i], 0, ls[i].len()));
        }
        i = i + 1;
    }
    None
}

fn signed_decimal_of(c: i32) -> (r: Vec<char>)
    ensures
        r@ == signed_decimal(c as int),
{
    if c < 0 {
        let a: u64 = (-(c as i64)) as u64;
        let mut r: Vec<char> = Vec::new();
        r.push('-');
        let d = decimal_of(a);
        push_all(&mut r, &d);
        proof {
            assert(r@ =~= seq!['-'] + decimal((-c) as nat));
        }
        r
    } else {
        decimal_of(c as u64)
    }
}

/// `c` in decimal, with a leading `-` when negative.
pub fn signed_decimal_of_i64(c: i64) -> (r: Vec<char>)
    ensures
        r@ == signed_decimal(c as int),
{
    if c < 0 {
        let a: u64 = if c == i64::MIN {
            9223372036854775808u64
        } else {
            (-c) as u64
        };
        let mut r: Vec<char> = Vec::new();
        r.push('-');
        let d = decimal_of(a);
        push_all(&mut r, &d);
        proof {
            assert(r@ =~= seq!['-'] + decimal((-c) as nat));
        }
        r
    } else {
        decimal_of(c as u64)
    }
}

fn counted_of(n: usize, one: &str, many: &str) -> (r: Vec<char>)
    ensures
        r@ == counted(n as nat, one@, many@),
{
    let mut r = decimal_of(n as u64);
    if n == 1 {
        push_all(&mut r, &chars_of(one));
    } else {
        push_all(&mut r, &chars_of(many));
    }
    r
}

fn prefixed(prefix: &str, rest: &Vec<char>) -> (r: String)
    ensures
        r@ == prefix@ + rest@,
{
    let mut v = chars_of(prefix);
    push_all(&mut v, rest);
    string_of(v.as_slice())
}

/// A one-line summary of the result `output` of `tool_name`.
pub fn summarize_tool_result(tool_name: &str, output: &str, ok: bool, home: Option<&str>) -> (r: String)
    ensures
        r@ == summary_text(tool_name@, output@, ok, opt_view(home)),
{
    let t = lower_chars(&chars_of(tool_name));
    let ls = lines_of(&chars_of(output));
    let n = count_nonblank_of(&ls);
    let first = first_nonblank_of(&ls);
    if eq_str(&t, "read") {
        return prefixed("Read ", &counted_of(n, " line", " lines"));
    }
    if eq_str(&t, "list") || eq_str(&t, "glob") {
        return prefixed("Found ", &counted_of(n, " file", " files"));
    }
    if eq_str(&t, "grep") || eq_str(&t, "codesearch") {
        return prefixed("Found ", &counted_of(n, " match", " matches"));
    }
    if eq_str(&t, "exec") || eq_str(&t, "bash") || eq_str(&t, "pty_exec") {
        return match parse_exit_code(output) {
            Some(c) => prefixed("Command exited ", &signed_decimal_of(c)),
            None => if ok {
                "Command completed".to_owned()
            } else {
                "Command failed".to_owned()
            },
        };
    }
    let clean = match &first {
        Some(l) => {
            let tl = tilde_in_line_chars(l, home);
            let ts = string_of(tl.as_slice());
            chars_of(sanitize_output_line(ts.as_str()).as_str())
        },
        None => Vec::new(),
    };
    if is_editing_tool(tool_name) {
        return match first {
            Some(_) => string_of(clean.as_slice()),
            None => if ok {
                "Update applied".to_owned()
            } else {
                "Update failed".to_owned()
            },
        };
    }
    if clean.len() == 0 {
        if ok {
            "Done".to_owned()
        } else {
            "Failed".to_owned()
        }
    } else if clean.len() <= 96 {
        string_of(clean.as_slice())
    } else {
        string_of(sub_chars(&clean, 0, 96).as_slice())
    }
}

// ── Tool result payloads ────────────────────────────────────────────────────

/// The `ok` flag, `truncated` flag (false unless a boolean) and `output`
/// text (empty unless a string) of a tool result; `None` unless `ok` is a
/// boolean and `truncated` is present.
pub open spec fn tool_payload(content: Seq<char>) -> Option<(bool, bool, Seq<char>)> {
    match json_bool_field(content, "ok"@) {
        None => None,
        Some(ok) => if !json_has_key(content, "truncated"@) {
            None
        } else {
            Some(
                (
                    ok,
                    match json_bool_field(content, "truncated"@) {
                        Some(b) => b,
                        None => false,
                    },
                    match json_string_field(content, "output"@) {
                        Some(o) => o,
                        None => Seq::empty(),
                    },
                ),
            )
        },
    }
}

pub fn parse_tool_payload(content: &str) -> (r: Option<(bool, bool, String)>)
    ensures
        match tool_payload(content@) {
            Some((a, b, o)) => r matches Some(x) && x.0 == a && x.1 == b && x.2@ == o,
            None => r is None,
        },
{
    let ok = json_bool_field_of(content, "ok")?;
    if !json_has_field(content, "truncated") {
        return None;
    }
    let truncated = match json_bool_field_of(content, "truncated") {
        Some(b) => b,
        None => false,
    };
    let output = match json_str_field(content, "output") {
        Some(o) => o,
        None => String::new(),
    };
    Some((ok, truncated, output))
}

/// The `output` string of a tool result, else the raw text.
pub open spec fn output_text(raw: Seq<char>) -> Seq<char> {
    match json_string_field(raw, "output"@) {
        Some(s) => s,
        None => raw,
    }
}

pub fn extract_tool_output_text(raw: &str) -> (r: String)
    ensures
        r@ == output_text(raw@),
{
    match json_str_field(raw, "output") {
        Some(s) => s,
        None => raw.to_owned(),
    }
}

// ── The key argument of a tool call ─────────────────────────────────────────

/// At most the first `n` characters of `s`.
pub open spec fn cap_chars(s: Seq<char>, n: nat) -> Seq<char> {
    if s.len() <= n {
        s
    } else {
        s.take(n as int)
    }
}

/// The first `n` characters of `s`, followed by `…` when the kept part is
/// fewer bytes than `s` has characters (the comparison the display makes).
pub open spec fn cap_marked(s: Seq<char>, n: nat) -> Seq<char> {
    let short = cap_chars(s, n);
    if byte_len(short) < s.len() {
        short.push('…')
    } else {
        short
    }
}

/// The string under `k1`, or under `k2` when `k1` is absent.
pub open spec fn str_or_else(json: Seq<char>, k1: Seq<char>, k2: Seq<char>) -> Option<Seq<char>> {
    if json_has_key(json, k1) {
        json_string_field(json, k1)
    } else {
        json_string_field(json, k2)
    }
}

/// The first non-empty string value whose key is not a file body
/// (`contents`, `content`, `code`).
pub open spec fn first_listed_value(es: Seq<(Seq<char>, Option<Seq<char>>)>) -> Option<Seq<char>>
    decreases es.len(),
{
    if es.len() == 0 {
        None
    } else {
        let k = es[0].0;
        let v = es[0].1;
        if k != "contents"@ && k != "content"@ && k != "code"@ && v is Some && v->0.len() > 0 {
            v
        } else {
            first_listed_value(es.drop_first())
        }
    }
}

/// The path argument: `path`, else `file_path`, else `target`.
pub open spec fn path_arg(args: Seq<char>) -> Option<Seq<char>> {
    if json_has_key(args, "path"@) {
        json_string_field(args, "path"@)
    } else {
        str_or_else(args, "file_path"@, "target"@)
    }
}

/// The short argument shown beside a tool call: for patches the file they
/// change, else the path, command, query or pattern, else the first other
/// string value; empty when the arguments are not a JSON object.
pub open spec fn key_arg(tool: Seq<char>, args: Seq<char>, home: Option<Seq<char>>) -> Seq<char> {
    match json_entries(args) {
        None => Seq::empty(),
        Some(es) => key_arg_of_fields(
            tool,
            es,
            str_or_else(args, "patch_text"@, "patch"@),
            path_arg(args),
            json_string_field(args, "command"@),
            str_or_else(args, "query"@, "pattern"@),
            home,
        ),
    }
}

/// The short argument, from the values read out of the arguments: the
/// object's entries, the patch, the path, the command and the query.
pub open spec fn key_arg_of_fields(
    tool: Seq<char>,
    es: Seq<(Seq<char>, Option<Seq<char>>)>,
    patch: Option<Seq<char>>,
    path: Option<Seq<char>>,
    cmd: Option<Seq<char>>,
    query: Option<Seq<char>>,
    home: Option<Seq<char>>,
) -> Seq<char> {
    if lower_seq(tool) == "apply_patch"@ && patch is Some {
        match patch_target(text_lines(patch->0)) {
            Some(p) => cap_marked(tilde_in_line(p, home), 60),
            None => "patch"@,
        }
    } else if path is Some {
        cap_marked(path->0, 60)
    } else if cmd is Some {
        cap_marked(cmd->0, 55)
    } else if query is Some {
        cap_chars(query->0, 55)
    } else {
        match first_listed_value(es) {
            Some(v) => cap_chars(v, 55),
            None => Seq::empty(),
        }
    }
}

pub(crate) fn cap_chars_of(s: &Vec<char>, n: usize) -> (r: Vec<char>)
    ensures
        r@ == cap_chars(s@, n as nat),
{
    if s.len() <= n {
        proof {
            assert(s@.subrange(0, s@.len() as int) =~= s@);
        }
        sub_chars(s, 0, s.len())
    } else {
        sub_chars(s, 0, n)
    }
}

pub(crate) fn cap_marked_of(s: &Vec<char>, n: usize) -> (r: String)
    ensures
        r@ == cap_marked(s@, n as nat),
{
    let mut short = cap_chars_of(s, n);
    if byte_len_below(&short, s.len()) {
        short.push('…');
    }
    string_of(short.as_slice())
}

pub(crate) fn str_or_else_of(json: &str, k1: &str, k2: &str) -> (r: Option<String>)
    ensures
        match str_or_else(json@, k1@, k2@) {
            Some(v) => r matches Some(x) && x@ == v,
            None => r is None,
        },
{
    if json_has_field(json, k1) {
        json_str_field(json, k1)
    } else {
        json_str_field(json, k2)
    }
}

fn first_listed_value_of(es: &Vec<(String, Option<String>)>) -> (r: Option<Vec<char>>)
    ensures
        match first_listed_value(es@.map_values(|e: (String, Option<String>)| entry_view(e))) {
            Some(v) => r matches Some(x) && x@ == v,
            None => r is None,
        },
{
    let ghost ev = es@.map_values(|e: (String, Option<String>)| entry_view(e));
    let mut i: usize = 0;
    proof {
        assert(ev.skip(0) =~= ev);
    }
    while i < es.len()
        invariant
            i <= es.len(),
            ev == es@.map_values(|e: (String, Option<String>)| entry_view(e)),
            first_listed_value(ev) == first_listed_value(ev.skip(i as int)),
        decreases es.len() - i,
    {
        proof {
            assert(ev.skip(i as int).drop_first() =~= ev.skip(i + 1));
            assert(ev.skip(i as int)[0] == entry_view(es@[i as int]));
        }
        let k = chars_of(es[i].0.as_str());
        if !eq_str(&k, "contents") && !eq_str(&k, "content") && !eq_str(&k, "code") {
            if let Some(v) = &es[i].1 {
                let vc = chars_of(v.as_str());
                if vc.len() > 0 {
                    return Some(vc);
                }
            }
        }
        i = i + 1;
    }
    None
}

pub(crate) fn path_arg_of(args: &str) -> (r: Option<String>)
    ensures
        match path_arg(args@) {
            Some(v) => r matches Some(x) && x@ == v,
            None => r is None,
        },
{
    if json_has_field(args, "path") {
        json_str_field(args, "path")
    } else {
        str_or_else_of(args, "file_path", "target")
    }
}

/// The short argument shown beside a call of `tool` with JSON `arguments`.
pub fn extract_key_arg(tool: &str, arguments: &str, home: Option<&str>) -> (r: String)
    ensures
        r@ == key_arg(tool@, arguments@, opt_view(home)),
{
    let es = match json_entries_of(arguments) {
        Some(es) => es,
        None => return String::new(),
    };
    let patch = str_or_else_of(arguments, "patch_text", "patch");
    let path = path_arg_of(arguments);
    let cmd = json_str_field(arguments, "command");
    let query = str_or_else_of(arguments, "query", "pattern");
    key_arg_from_fields(tool, &es, &patch, &path, &cmd, &query, home)
}

/// The short argument from the values read out of a call's arguments (see
/// `key_arg_of_fields`).
pub fn key_arg_from_fields(
    tool: &str,
    entries: &Vec<(String, Option<String>)>,
    patch: &Option<String>,
    path: &Option<String>,
    command: &Option<String>,
    query: &Option<String>,
    home: Option<&str>,
) -> (r: String)
    ensures
        r@ == key_arg_of_fields(
            tool@,
            entries@.map_values(|e: (String, Option<String>)| entry_view(e)),
            opt_string_view(*patch),
            opt_string_view(*path),
            opt_string_view(*command),
            opt_string_view(*query),
            opt_view(home),
        ),
{
    let t = lower_chars(&chars_of(tool));
    if eq_str(&t, "apply_patch") {
        if let Some(patch) = patch {
            return match extract_patch_target(patch.as_str()) {
                Some(path) => {
                    let display = tilde_in_line_chars(&chars_of(path.as_str()), home);
                    cap_marked_of(&display, 60)
                },
                None => "patch".to_owned(),
            };
        }
    }
    if let Some(p) = path {
        return cap_marked_of(&chars_of(p.as_str()), 60);
    }
    if let Some(cmd) = command {
        return cap_marked_of(&chars_of(cmd.as_str()), 55);
    }
    if let Some(q) = query {
        return string_of(cap_chars_of(&chars_of(q.as_str()), 55).as_slice());
    }
    match first_listed_value_of(entries) {
        Some(v) => string_of(cap_chars_of(&v, 55).as_slice()),
        None => String::new(),
    }
}

/// The text of an optional string.
pub open spec fn opt_string_view(o: Option<String>) -> Option<Seq<char>> {
    match o {
        Some(s) => Some(s@),
        None => None,
    }
}

} // verus!
