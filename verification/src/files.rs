//! The rules of the workspace scan behind the file picker: which entries it
//! skips, where it stops, and the order of the paths it returns. Reading
//! the directories is left to the caller.
use vstd::prelude::*;
use crate::models::{lemma_insert_to_multiset, lemma_lex_asymmetric, lex_lt, lex_lt_exec, texts};
use crate::text::{chars_of, eq_str, string_of};

verus! {

broadcast use vstd::seq_lib::group_seq_properties, vstd::seq_lib::group_to_multiset_ensures,
    vstd::multiset::group_multiset_axioms;

/// Most paths the scan returns.
pub const MAX_FILES: usize = 2000;

/// Deepest directory level the scan enters (the root is level 0).
pub const MAX_DEPTH: usize = 8;

/// Directories that are never entered.
pub open spec fn noise_dirs() -> Seq<Seq<char>> {
    seq![
        ".git"@,
        "target"@,
        "node_modules"@,
        ".cargo"@,
        "dist"@,
        "build"@,
        "__pycache__"@,
        ".venv"@,
        "venv"@,
        ".idea"@,
        ".vscode"@,
    ]
}

/// The scan passes over a directory whose name starts with `.` (but for
/// `.rustcode.md`) or is one of `noise_dirs`; it keeps every file.
pub open spec fn skip_spec(name: Seq<char>, is_dir: bool) -> bool {
    is_dir && ((name.len() > 0 && name[0] == '.' && name != ".rustcode.md"@) || noise_dirs().contains(name))
}

pub fn skip_entry(name: &str, is_dir: bool) -> (r: bool)
    ensures
        r == skip_spec(name@, is_dir),
{
    if !is_dir {
        return false;
    }
    let n = chars_of(name);
    if n.len() > 0 && n[0] == '.' && !eq_str(&n, ".rustcode.md") {
        return true;
    }
    let found = eq_str(&n, ".git") || eq_str(&n, "target") || eq_str(&n, "node_modules") || eq_str(&n, ".cargo")
        || eq_str(&n, "dist") || eq_str(&n, "build") || eq_str(&n, "__pycache__") || eq_str(&n, ".venv")
        || eq_str(&n, "venv") || eq_str(&n, ".idea") || eq_str(&n, ".vscode");
    proof {
        let d = noise_dirs();
        if found {
            if n@ == ".git"@ { assert(d[0] == n@); }
            if n@ == "target"@ { assert(d[1] == n@); }
            if n@ == "node_modules"@ { assert(d[2] == n@); }
            if n@ == ".cargo"@ { assert(d[3] == n@); }
            if n@ == "dist"@ { assert(d[4] == n@); }
            if n@ == "build"@ { assert(d[5] == n@); }
            if n@ == "__pycache__"@ { assert(d[6] == n@); }
            if n@ == ".venv"@ { assert(d[7] == n@); }
            if n@ == "venv"@ { assert(d[8] == n@); }
            if n@ == ".idea"@ { assert(d[9] == n@); }
            if n@ == ".vscode"@ { assert(d[10] == n@); }
        } else {
            assert forall|i: int| 0 <= i < d.len() implies d[i] != n@ by {
                assert(d[i] == ".git"@ || d[i] == "target"@ || d[i] == "node_modules"@ || d[i] == ".cargo"@
                    || d[i] == "dist"@ || d[i] == "build"@ || d[i] == "__pycache__"@ || d[i] == ".venv"@
                    || d[i] == "venv"@ || d[i] == ".idea"@ || d[i] == ".vscode"@);
            }
        }
    }
    found
}

/// Whether the scan looks into a directory at `depth` when it holds
/// `found` paths already: not below `MAX_DEPTH` and not once it is full.
pub fn scan_continues(depth: usize, found: usize) -> (r: bool)
    ensures
        r == (depth <= MAX_DEPTH && found < MAX_FILES),
{
    depth <= MAX_DEPTH && found < MAX_FILES
}

/// No path of `s` sorts before the one that precedes it.
pub open spec fn in_path_order(s: Seq<Seq<char>>) -> bool {
    forall|i: int| 0 <= i < s.len() - 1 ==> !#[trigger] lex_lt(s[i + 1], s[i])
}

proof fn lemma_insert_keeps_path_order(before: Seq<Seq<char>>, p: int, x: Seq<char>)
    requires
        0 <= p <= before.len(),
        in_path_order(before),
        p > 0 ==> !lex_lt(x, before[p - 1]),
        p < before.len() ==> lex_lt(x, before[p]),
    ensures
        in_path_order(before.insert(p, x)),
{
    if p < before.len() {
        lemma_lex_asymmetric(x, before[p]);
    }
    let after = before.insert(p, x);
    assert forall|i: int| 0 <= i < after.len() - 1 implies !#[trigger] lex_lt(after[i + 1], after[i]) by {
        if i < p - 1 {
            assert(after[i] == before[i] && after[i + 1] == before[i + 1]);
            assert(!lex_lt(before[i + 1], before[i]));
        } else if i == p - 1 {
            assert(after[i] == before[i] && after[i + 1] == x);
        } else if i == p {
            assert(after[i] == x && after[i + 1] == before[i]);
        } else {
            let k = i - 1;
            assert(after[i] == before[k] && after[i + 1] == before[k + 1]);
            assert(!lex_lt(before[k + 1], before[k]));
        }
    }
}

fn lex_lt_str(a: &String, b: &String) -> (r: bool)
    ensures
        r == lex_lt(a@, b@),
{
    lex_lt_exec(&chars_of(a.as_str()), &chars_of(b.as_str()))
}

/// The scanned paths in std's string order (the picker lists them so).
pub fn sort_paths(paths: &Vec<String>) -> (r: Vec<String>)
    ensures
        texts(r@).to_multiset() == texts(paths@).to_multiset(),
        in_path_order(texts(r@)),
{
    let mut r: Vec<String> = Vec::new();
    let mut i: usize = 0;
    while i < paths.len()
        invariant
            i <= paths.len(),
            in_path_order(texts(r@)),
            texts(r@).to_multiset() =~= texts(paths@).take(i as int).to_multiset(),
        decreases paths.len() - i,
    {
        let x = string_of(chars_of(paths[i].as_str()).as_slice());
        let mut p: usize = 0;
        while p < r.len() && !lex_lt_str(&x, &r[p])
            invariant
                p <= r.len(),
                p > 0 ==> !lex_lt(x@, texts(r@)[p - 1]),
            decreases r.len() - p,
        {
            p = p + 1;
        }
        let ghost before = texts(r@);
        proof {
            lemma_insert_keeps_path_order(before, p as int, x@);
            lemma_insert_to_multiset(before, p as int, x@);
            assert(texts(paths@).take(i as int + 1) =~= texts(paths@).take(i as int).push(paths@[i as int]@));
        }
        let ghost xv = x@;
        r.insert(p, x);
        proof {
            assert(texts(r@) =~= before.insert(p as int, xv));
        }
        i = i + 1;
    }
    assert(texts(paths@).take(paths.len() as int) =~= texts(paths@));
    r
}

} // verus!
