//! Case-insensitive filtering of the lists the pickers show: workspace
//! files, models, providers, palette commands, sessions, slash commands and
//! transcript lines.
use vstd::prelude::*;
use crate::text::{
    chars_of, contains_exec, contains_seq, lower_chars, lower_seq, push_all, trim, trim_chars,
};

verus! {

broadcast use vstd::seq_lib::group_seq_properties;

/// Indices, in order, of the haystacks that contain `needle`.
pub open spec fn match_indices(hs: Seq<Seq<char>>, needle: Seq<char>) -> Seq<int>
    decreases hs.len(),
{
    if hs.len() == 0 {
        Seq::empty()
    } else {
        let prev = match_indices(hs.drop_last(), needle);
        if contains_seq(hs.last(), needle) {
            prev.push(hs.len() - 1)
        } else {
            prev
        }
    }
}

/// `0, 1, ..., n - 1`.
pub open spec fn range_seq(n: nat) -> Seq<int> {
    Seq::new(n, |i: int| i)
}

/// Views a vector of indices as integers.
pub open spec fn idx_view(v: Seq<usize>) -> Seq<int> {
    v.map_values(|i: usize| i as int)
}

pub open spec fn min_nat(a: nat, b: nat) -> nat {
    if a <= b {
        a
    } else {
        b
    }
}

pub proof fn lemma_match_indices_bounded(hs: Seq<Seq<char>>, needle: Seq<char>)
    ensures
        match_indices(hs, needle).len() <= hs.len(),
        forall|j: int|
            0 <= j < match_indices(hs, needle).len() ==> 0 <= #[trigger] match_indices(
                hs,
                needle,
            )[j] < hs.len(),
    decreases hs.len(),
{
    if hs.len() > 0 {
        lemma_match_indices_bounded(hs.drop_last(), needle);
    }
}

/// The first `limit` indices of haystacks containing `needle`.
pub fn match_indices_of(hs: &Vec<Vec<char>>, needle: &Vec<char>, limit: usize) -> (r: Vec<usize>)
    ensures
        ({
            let m = match_indices(hs@.map_values(|h: Vec<char>| h@), needle@);
            idx_view(r@) == m.take(min_nat(limit as nat, m.len()) as int)
        }),
{
    let ghost hv = hs@.map_values(|h: Vec<char>| h@);
    let mut r: Vec<usize> = Vec::new();
    let mut i: usize = 0;
    proof {
        assert(hv.take(0) =~= Seq::<Seq<char>>::empty());
    }
    while i < hs.len() && r.len() < limit
        invariant
            i <= hs.len(),
            hv == hs@.map_values(|h: Vec<char>| h@),
            r.len() <= limit,
            idx_view(r@) == match_indices(hv.take(i as int), needle@),
        decreases hs.len() - i,
    {
        proof {
            assert(hv.take(i as int + 1).drop_last() =~= hv.take(i as int));
            assert(hv.take(i as int + 1).last() == hs@[i as int]@);
        }
        if contains_exec(&hs[i], needle) {
            r.push(i);
            proof {
                assert(idx_view(r@) =~= match_indices(hv.take(i as int), needle@).push(i as int));
            }
        }
        i = i + 1;
    }
    proof {
        lemma_match_prefix(hv, needle@, i as nat);
        let m = match_indices(hv, needle@);
        if i == hs.len() {
            assert(hv.take(i as int) =~= hv);
            lemma_match_indices_bounded(hv, needle@);
            if r.len() < limit {
                assert(m.take(min_nat(limit as nat, m.len()) as int) =~= m);
            } else {
                assert(m.take(min_nat(limit as nat, m.len()) as int) =~= m);
            }
        } else {
            assert(m.take(limit as int) =~= match_indices(hv.take(i as int), needle@));
        }
    }
    r
}

/// Matches in a prefix are a prefix of the matches.
proof fn lemma_match_prefix(hs: Seq<Seq<char>>, needle: Seq<char>, i: nat)
    requires
        i <= hs.len(),
    ensures
        match_indices(hs.take(i as int), needle).len() <= match_indices(hs, needle).len(),
        match_indices(hs, needle).take(match_indices(hs.take(i as int), needle).len() as int)
            == match_indices(hs.take(i as int), needle),
    decreases hs.len() - i,
{
    if i < hs.len() {
        lemma_match_prefix(hs, needle, i + 1);
        let a = match_indices(hs.take(i as int), needle);
        let b = match_indices(hs.take(i as int + 1), needle);
        assert(hs.take(i as int + 1).drop_last() =~= hs.take(i as int));
        let m = match_indices(hs, needle);
        assert(m.take(a.len() as int) =~= b.take(a.len() as int));
        assert(b.take(a.len() as int) =~= a);
    } else {
        assert(hs.take(i as int) =~= hs);
    }
}

/// All indices below `min(n, limit)`.
pub fn range_of(n: usize, limit: usize) -> (r: Vec<usize>)
    ensures
        idx_view(r@) == range_seq(min_nat(n as nat, limit as nat)),
{
    let m = if n < limit {
        n
    } else {
        limit
    };
    let mut r: Vec<usize> = Vec::new();
    let mut i: usize = 0;
    while i < m
        invariant
            i <= m,
            idx_view(r@) == range_seq(i as nat),
        decreases m - i,
    {
        let ghost prev = idx_view(r@);
        r.push(i);
        proof {
            assert(idx_view(r@) =~= prev.push(i as int));
            assert(range_seq(i as nat + 1) =~= range_seq(i as nat).push(i as int));
        }
        i = i + 1;
    }
    r
}

/// Lower-cased copies of strings.
fn lowered(items: &Vec<String>) -> (r: Vec<Vec<char>>)
    ensures
        r@.map_values(|h: Vec<char>| h@) == items@.map_values(|s: String| lower_seq(s@)),
{
    let mut r: Vec<Vec<char>> = Vec::new();
    let mut i: usize = 0;
    while i < items.len()
        invariant
            i <= items.len(),
            r@.map_values(|h: Vec<char>| h@) == items@.take(i as int).map_values(
                |s: String| lower_seq(s@),
            ),
        decreases items.len() - i,
    {
        let l = lower_chars(&chars_of(items[i].as_str()));
        let ghost prev = r@.map_values(|h: Vec<char>| h@);
        r.push(l);
        proof {
            assert(r@.map_values(|h: Vec<char>| h@) =~= prev.push(lower_seq(items@[i as int]@)));
            assert(items@.take(i as int + 1).map_values(|s: String| lower_seq(s@))
                =~= items@.take(i as int).map_values(|s: String| lower_seq(s@)).push(
                lower_seq(items@[i as int]@),
            ));
        }
        i = i + 1;
    }
    proof {
        assert(items@.take(items.len() as int) =~= items@);
    }
    r
}

/// Most entries the file picker lists.
pub const FILE_PICKER_LIMIT: usize = 200;

/// The entries of the file picker for `query`: the first 200 entries when
/// the query is blank, else the first 200 whose path contains the trimmed
/// query, ASCII case-insensitively.
pub fn filter_files(entries: &Vec<String>, query: &str) -> (r: Vec<usize>)
    ensures
        ({
            let q = lower_seq(trim(query@));
            if q.len() == 0 {
                idx_view(r@) == range_seq(min_nat(entries@.len(), 200))
            } else {
                let m = match_indices(entries@.map_values(|s: String| lower_seq(s@)), q);
                idx_view(r@) == m.take(min_nat(200, m.len()) as int)
            }
        }),
{
    let q = lower_chars(&trim_chars(&chars_of(query)));
    if q.len() == 0 {
        return range_of(entries.len(), FILE_PICKER_LIMIT);
    }
    let hs = lowered(entries);
    match_indices_of(&hs, &q, FILE_PICKER_LIMIT)
}

/// Entries whose text contains the trimmed query, ASCII case-insensitively;
/// all entries when the query is blank.
pub open spec fn filter_view(items: Seq<Seq<char>>, query: Seq<char>) -> Seq<int> {
    let q = lower_seq(trim(query));
    if q.len() == 0 {
        range_seq(items.len())
    } else {
        match_indices(items.map_values(|s: Seq<char>| lower_seq(s)), q)
    }
}

fn filter_lowered(hs: &Vec<Vec<char>>, query: &str) -> (r: Vec<usize>)
    ensures
        ({
            let q = lower_seq(trim(query@));
            if q.len() == 0 {
                idx_view(r@) == range_seq(hs@.len())
            } else {
                idx_view(r@) == match_indices(hs@.map_values(|h: Vec<char>| h@), q)
            }
        }),
{
    let q = lower_chars(&trim_chars(&chars_of(query)));
    if q.len() == 0 {
        return range_of(hs.len(), hs.len());
    }
    let r = match_indices_of(hs, &q, hs.len());
    proof {
        let m = match_indices(hs@.map_values(|h: Vec<char>| h@), q@);
        lemma_match_indices_bounded(hs@.map_values(|h: Vec<char>| h@), q@);
        assert(m.take(min_nat(hs@.len(), m.len()) as int) =~= m);
    }
    r
}

/// The model picker's entries (`provider/model`) that match `query`.
pub fn filter_models(entries: &Vec<String>, query: &str) -> (r: Vec<usize>)
    ensures
        idx_view(r@) == filter_view(entries@.map_values(|s: String| s@), query@),
{
    let hs = lowered(entries);
    let r = filter_lowered(&hs, query);
    proof {
        assert(entries@.map_values(|s: String| s@).map_values(|s: Seq<char>| lower_seq(s))
            =~= entries@.map_values(|s: String| lower_seq(s@)));
    }
    r
}

/// Joins `a`, a tab and `b`.
pub open spec fn tab_join(a: Seq<char>, b: Seq<char>) -> Seq<char> {
    a + seq!['\t'] + b
}

fn tab_join_of(a: &Vec<char>, b: &Vec<char>) -> (r: Vec<char>)
    ensures
        r@ == tab_join(a@, b@),
{
    let mut r = Vec::new();
    push_all(&mut r, a);
    r.push('\t');
    push_all(&mut r, b);
    proof {
        assert(r@ =~= tab_join(a@, b@));
    }
    r
}

/// Joins pairs of strings with a tab, lower-cased.
fn lowered_pairs(items: &Vec<(String, String)>) -> (r: Vec<Vec<char>>)
    ensures
        r@.map_values(|h: Vec<char>| h@) == items@.map_values(
            |p: (String, String)| lower_seq(tab_join(p.0@, p.1@)),
        ),
{
    let mut r: Vec<Vec<char>> = Vec::new();
    let mut i: usize = 0;
    while i < items.len()
        invariant
            i <= items.len(),
            r@.map_values(|h: Vec<char>| h@) == items@.take(i as int).map_values(
                |p: (String, String)| lower_seq(tab_join(p.0@, p.1@)),
            ),
        decreases items.len() - i,
    {
        let j = tab_join_of(&chars_of(items[i].0.as_str()), &chars_of(items[i].1.as_str()));
        let l = lower_chars(&j);
        let ghost prev = r@.map_values(|h: Vec<char>| h@);
        r.push(l);
        proof {
            assert(r@.map_values(|h: Vec<char>| h@) =~= prev.push(
                lower_seq(tab_join(items@[i as int].0@, items@[i as int].1@)),
            ));
            assert(items@.take(i as int + 1).map_values(
                |p: (String, String)| lower_seq(tab_join(p.0@, p.1@)),
            ) =~= items@.take(i as int).map_values(
                |p: (String, String)| lower_seq(tab_join(p.0@, p.1@)),
            ).push(lower_seq(tab_join(items@[i as int].0@, items@[i as int].1@))));
        }
        i = i + 1;
    }
    proof {
        assert(items@.take(items.len() as int) =~= items@);
    }
    r
}

/// The lines of `lines` that contain the trimmed query, ASCII
/// case-insensitively (none for a blank query).
pub fn compute_find_matches(lines: &Vec<String>, query: &str) -> (r: Vec<usize>)
    ensures
        ({
            let q = lower_seq(trim(query@));
            if q.len() == 0 {
                r@.len() == 0
            } else {
                idx_view(r@) == match_indices(lines@.map_values(|s: String| lower_seq(s@)), q)
            }
        }),
{
    let q = lower_chars(&trim_chars(&chars_of(query)));
    if q.len() == 0 {
        return Vec::new();
    }
    let hs = lowered(lines);
    let r = match_indices_of(&hs, &q, hs.len());
    proof {
        let m = match_indices(hs@.map_values(|h: Vec<char>| h@), q@);
        lemma_match_indices_bounded(hs@.map_values(|h: Vec<char>| h@), q@);
        assert(m.take(min_nat(hs@.len(), m.len()) as int) =~= m);
    }
    r
}

/// Filtering with a pair of texts per item, joined by a tab.
pub open spec fn filter_pairs_view(items: Seq<(Seq<char>, Seq<char>)>, query: Seq<char>) -> Seq<int> {
    filter_view(items.map_values(|p: (Seq<char>, Seq<char>)| tab_join(p.0, p.1)), query)
}

/// Items (two texts each) whose tab-joined texts contain the trimmed query,
/// ASCII case-insensitively; all items for a blank query.
pub fn filter_pairs(items: &Vec<(String, String)>, query: &str) -> (r: Vec<usize>)
    ensures
        idx_view(r@) == filter_pairs_view(
            items@.map_values(|p: (String, String)| (p.0@, p.1@)),
            query@,
        ),
{
    let hs = lowered_pairs(items);
    let r = filter_lowered(&hs, query);
    proof {
        assert(items@.map_values(|p: (String, String)| (p.0@, p.1@)).map_values(
            |p: (Seq<char>, Seq<char>)| tab_join(p.0, p.1),
        ).map_values(|s: Seq<char>| lower_seq(s)) =~= items@.map_values(
            |p: (String, String)| lower_seq(tab_join(p.0@, p.1@)),
        ));
    }
    r
}

} // verus!
