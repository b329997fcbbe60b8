//! The model picker: which models it lists and in what order, and what
//! choosing one of them changes.
use vstd::prelude::*;
use crate::parse::{before_char, before_char_of};
use crate::text::{chars_of, concat2, eq_chars, lower_chars, lower_seq, string_of, trim, trim_chars};
use crate::live::unicode_upper;

verus! {

broadcast use vstd::seq_lib::group_seq_properties, vstd::seq_lib::group_to_multiset_ensures,
    vstd::multiset::group_multiset_axioms;

/// The texts of a sequence of strings.
pub open spec fn texts(v: Seq<String>) -> Seq<Seq<char>> {
    v.map_values(|s: String| s@)
}

/// The texts of a sequence of character vectors.
pub open spec fn char_texts(v: Seq<Vec<char>>) -> Seq<Seq<char>> {
    v.map_values(|s: Vec<char>| s@)
}

/// The provider of a model id such as `openai/gpt-4o`: what comes before
/// its first `/` (all of it when there is none).
pub open spec fn provider_of(entry: Seq<char>) -> Seq<char> {
    before_char(entry, '/')
}

/// Where `x` first occurs in `s`.
pub open spec fn position(s: Seq<Seq<char>>, x: Seq<char>) -> Option<nat>
    decreases s.len(),
{
    if s.len() == 0 {
        None
    } else if s[0] == x {
        Some(0)
    } else {
        match position(s.drop_first(), x) {
            Some(i) => Some(i + 1),
            None => None,
        }
    }
}

/// How early a provider is listed: the current provider first, then the
/// providers of `priority` in their order, then all others.
pub open spec fn provider_rank(provider: Seq<char>, current: Seq<char>, priority: Seq<Seq<char>>) -> nat {
    if provider == current {
        0
    } else {
        match position(priority, provider) {
            Some(i) => i + 1,
            None => usize::MAX as nat,
        }
    }
}

/// `a` comes before `b` in the order of std's `Ord` for strings: the first
/// differing character decides (by code point, which is the order of
/// their UTF-8 bytes), and a proper prefix comes first.
pub open spec fn lex_lt(a: Seq<char>, b: Seq<char>) -> bool
    decreases a.len(),
{
    if a.len() == 0 {
        b.len() > 0
    } else if b.len() == 0 {
        false
    } else if a[0] != b[0] {
        (a[0] as u32) < (b[0] as u32)
    } else {
        lex_lt(a.drop_first(), b.drop_first())
    }
}

/// Model `a` is listed before model `b`: by provider rank, then by
/// provider name, then by the whole id.
pub open spec fn listed_before(a: Seq<char>, b: Seq<char>, current: Seq<char>, priority: Seq<Seq<char>>) -> bool {
    let (pa, pb) = (provider_of(a), provider_of(b));
    let (ra, rb) = (provider_rank(pa, current, priority), provider_rank(pb, current, priority));
    ||| ra < rb
    ||| ra == rb && lex_lt(pa, pb)
    ||| ra == rb && pa == pb && lex_lt(a, b)
}

/// No entry of `s` is listed before the one that precedes it.
pub open spec fn in_listing_order(s: Seq<Seq<char>>, current: Seq<char>, priority: Seq<Seq<char>>) -> bool {
    forall|i: int| 0 <= i < s.len() - 1 ==> !#[trigger] listed_before(s[i + 1], s[i], current, priority)
}

/// The models offered: those of a connected provider, or all of them when
/// no provider is connected.
pub open spec fn offered_models(all: Seq<Seq<char>>, connected: Seq<Seq<char>>) -> Seq<Seq<char>> {
    if connected.len() == 0 {
        all
    } else {
        all.filter(from_connected(connected))
    }
}

/// A model id whose provider is one of `connected`.
pub open spec fn from_connected(connected: Seq<Seq<char>>) -> spec_fn(Seq<char>) -> bool {
    |e: Seq<char>| connected.contains(provider_of(e))
}

/// The provider of the current model, in ASCII lower case.
pub open spec fn current_provider(current_model: Seq<char>) -> Seq<char> {
    lower_seq(provider_of(current_model))
}

pub proof fn lemma_lex_asymmetric(a: Seq<char>, b: Seq<char>)
    ensures
        lex_lt(a, b) ==> !lex_lt(b, a),
    decreases a.len(),
{
    if a.len() > 0 && b.len() > 0 && a[0] == b[0] {
        lemma_lex_asymmetric(a.drop_first(), b.drop_first());
    }
}

pub proof fn lemma_listed_before_asymmetric(a: Seq<char>, b: Seq<char>, current: Seq<char>, priority: Seq<Seq<char>>)
    ensures
        listed_before(a, b, current, priority) ==> !listed_before(b, a, current, priority),
{
    lemma_lex_asymmetric(provider_of(a), provider_of(b));
    lemma_lex_asymmetric(provider_of(a), provider_of(a));
    lemma_lex_asymmetric(a, b);
    lemma_lex_asymmetric(a, a);
}

pub proof fn lemma_insert_to_multiset<A>(s: Seq<A>, p: int, x: A)
    requires
        0 <= p <= s.len(),
    ensures
        s.insert(p, x).to_multiset() =~= s.to_multiset().insert(x),
{
    let t = s.insert(p, x);
    assert(t.remove(p) =~= s);
    vstd::seq_lib::to_multiset_remove(t, p);
    assert(t[p] == x);
    assert(t.contains(x));
    assert(t.to_multiset().count(x) > 0);
}

/// `a` before `b` in string order.
pub(crate) fn lex_lt_exec(a: &Vec<char>, b: &Vec<char>) -> (r: bool)
    ensures
        r == lex_lt(a@, b@),
{
    let mut i: usize = 0;
    proof {
        assert(a@.skip(0) =~= a@);
        assert(b@.skip(0) =~= b@);
    }
    while i < a.len() && i < b.len()
        invariant
            i <= a.len(),
            i <= b.len(),
            lex_lt(a@, b@) == lex_lt(a@.skip(i as int), b@.skip(i as int)),
        decreases a.len() - i,
    {
        proof {
            assert(a@.skip(i as int)[0] == a@[i as int]);
            assert(b@.skip(i as int)[0] == b@[i as int]);
        }
        if a[i] != b[i] {
            return (a[i] as u32) < (b[i] as u32);
        }
        proof {
            assert(a@.skip(i as int).drop_first() =~= a@.skip(i as int + 1));
            assert(b@.skip(i as int).drop_first() =~= b@.skip(i as int + 1));
        }
        i = i + 1;
    }
    i == a.len() && i < b.len()
}

/// The index of the first entry of `s` equal to `x`.
fn position_exec(s: &Vec<Vec<char>>, x: &Vec<char>) -> (r: Option<usize>)
    ensures
        r is None <==> position(char_texts(s@), x@) is None,
        r matches Some(k) ==> position(char_texts(s@), x@) == Some(k as nat),
{
    let mut i: usize = 0;
    proof {
        assert(char_texts(s@).skip(0) =~= char_texts(s@));
    }
    while i < s.len()
        invariant
            i <= s.len(),
            position(char_texts(s@), x@) == match position(char_texts(s@).skip(i as int), x@) {
                Some(k) => Some((k + i) as nat),
                None => None::<nat>,
            },
        decreases s.len() - i,
    {
        let ghost t = char_texts(s@).skip(i as int);
        proof {
            assert(t[0] == s@[i as int]@);
            assert(t.drop_first() =~= char_texts(s@).skip(i as int + 1));
        }
        if eq_chars(&s[i], x) {
            return Some(i);
        }
        i = i + 1;
    }
    None
}

/// The rank of `provider` (see `provider_rank`).
fn rank_exec(provider: &Vec<char>, current: &Vec<char>, priority: &Vec<Vec<char>>) -> (r: usize)
    ensures
        r as nat == provider_rank(provider@, current@, char_texts(priority@)),
{
    if eq_chars(provider, current) {
        return 0;
    }
    match position_exec(priority, provider) {
        Some(i) => {
            proof {
                lemma_position_in_range(char_texts(priority@), provider@);
                assert(position(char_texts(priority@), provider@) == Some(i as nat));
                assert(i < char_texts(priority@).len());
                assert(i < priority.len());
            }
            i + 1
        },
        None => usize::MAX,
    }
}

pub proof fn lemma_position_in_range(s: Seq<Seq<char>>, x: Seq<char>)
    ensures
        match position(s, x) {
            Some(i) => i < s.len() && s[i as int] == x,
            None => true,
        },
    decreases s.len(),
{
    if s.len() > 0 && s[0] != x {
        lemma_position_in_range(s.drop_first(), x);
    }
}

/// Whether `a` is listed before `b`.
fn listed_before_exec(a: &String, b: &String, current: &Vec<char>, priority: &Vec<Vec<char>>) -> (r: bool)
    ensures
        r == listed_before(a@, b@, current@, char_texts(priority@)),
{
    let ac = chars_of(a.as_str());
    let bc = chars_of(b.as_str());
    let pa = before_char_of(&ac, '/');
    let pb = before_char_of(&bc, '/');
    let ra = rank_exec(&pa, current, priority);
    let rb = rank_exec(&pb, current, priority);
    proof {
        lemma_lex_asymmetric(pa@, pa@);
    }
    if ra != rb {
        return ra < rb;
    }
    if eq_chars(&pa, &pb) {
        lex_lt_exec(&ac, &bc)
    } else {
        lex_lt_exec(&pa, &pb)
    }
}

/// A copy of `s` with the same text.
fn copy_string(s: &String) -> (r: String)
    ensures
        r@ == s@,
{
    let v = chars_of(s.as_str());
    string_of(v.as_slice())
}

/// Inserts `x` into `r`, before the first entry that `x` is listed before.
fn insert_in_order(r: &mut Vec<String>, x: String, current: &Vec<char>, priority: &Vec<Vec<char>>)
    requires
        in_listing_order(texts(old(r)@), current@, char_texts(priority@)),
    ensures
        in_listing_order(texts(final(r)@), current@, char_texts(priority@)),
        texts(final(r)@).to_multiset() =~= texts(old(r)@).to_multiset().insert(x@),
{
    let ghost cur = current@;
    let ghost pri = char_texts(priority@);
    let mut p: usize = 0;
    while p < r.len() && !listed_before_exec(&x, &r[p], current, priority)
        invariant
            p <= r.len(),
            r@ == old(r)@,
            cur == current@,
            pri == char_texts(priority@),
            p > 0 ==> !listed_before(x@, texts(r@)[p - 1], cur, pri),
        decreases r.len() - p,
    {
        p = p + 1;
    }
    let ghost before = texts(r@);
    let ghost xv = x@;
    proof {
        assert(before == texts(old(r)@));
        lemma_insert_keeps_order(before, p as int, xv, cur, pri);
    }
    r.insert(p, x);
    proof {
        assert(texts(r@) =~= before.insert(p as int, xv));
        lemma_insert_to_multiset(before, p as int, xv);
    }
}

pub proof fn lemma_insert_keeps_order(before: Seq<Seq<char>>, p: int, xv: Seq<char>, cur: Seq<char>, pri: Seq<Seq<char>>)
    requires
        0 <= p <= before.len(),
        in_listing_order(before, cur, pri),
        p > 0 ==> !listed_before(xv, before[p - 1], cur, pri),
        p < before.len() ==> listed_before(xv, before[p], cur, pri),
    ensures
        in_listing_order(before.insert(p, xv), cur, pri),
{
    if p < before.len() {
        lemma_listed_before_asymmetric(xv, before[p], cur, pri);
    }
    let after = before.insert(p, xv);
    assert forall|i: int| 0 <= i < after.len() - 1 implies !#[trigger] listed_before(after[i + 1], after[i], cur, pri) by {
        if i < p - 1 {
            assert(after[i] == before[i] && after[i + 1] == before[i + 1]);
            assert(!listed_before(before[i + 1], before[i], cur, pri));
        } else if i == p - 1 {
            assert(after[i] == before[i] && after[i + 1] == xv);
        } else if i == p {
            assert(after[i] == xv && after[i + 1] == before[i]);
        } else {
            let k = i - 1;
            assert(after[i] == before[k] && after[i + 1] == before[k + 1]);
            assert(!listed_before(before[k + 1], before[k], cur, pri));
        }
    }
}

/// The character texts of `v`.
fn all_chars(v: &Vec<String>) -> (r: Vec<Vec<char>>)
    ensures
        char_texts(r@) == texts(v@),
{
    let mut r: Vec<Vec<char>> = Vec::new();
    let mut i: usize = 0;
    while i < v.len()
        invariant
            i <= v.len(),
            char_texts(r@) =~= texts(v@).take(i as int),
        decreases v.len() - i,
    {
        let c = chars_of(v[i].as_str());
        let ghost old_r = r@;
        r.push(c);
        proof {
            assert(char_texts(r@) =~= char_texts(old_r).push(c@));
            assert(texts(v@).take(i as int + 1) =~= texts(v@).take(i as int).push(v@[i as int]@));
        }
        i = i + 1;
    }
    assert(texts(v@).take(v.len() as int) =~= texts(v@));
    r
}

/// Whether some entry of `s` equals `x`.
fn contains_exec(s: &Vec<Vec<char>>, x: &Vec<char>) -> (r: bool)
    ensures
        r == char_texts(s@).contains(x@),
{
    let p = position_exec(s, x);
    proof {
        lemma_position_in_range(char_texts(s@), x@);
        lemma_position_complete(char_texts(s@), x@);
    }
    p.is_some()
}

pub proof fn lemma_position_complete(s: Seq<Seq<char>>, x: Seq<char>)
    ensures
        s.contains(x) ==> position(s, x) is Some,
    decreases s.len(),
{
    if s.len() > 0 && s[0] != x {
        lemma_position_complete(s.drop_first(), x);
        if s.contains(x) {
            let j = choose|j: int| 0 <= j < s.len() && s[j] == x;
            assert(s.drop_first()[j - 1] == x);
        }
    }
}

/// The models to offer, in their order.
fn offered_exec(all: &Vec<String>, connected: &Vec<Vec<char>>) -> (r: Vec<String>)
    ensures
        texts(r@) == offered_models(texts(all@), char_texts(connected@)),
{
    let ghost cv = char_texts(connected@);
    let mut r: Vec<String> = Vec::new();
    let mut i: usize = 0;
    while i < all.len()
        invariant
            i <= all.len(),
            cv == char_texts(connected@),
            connected@.len() == 0 ==> texts(r@) =~= texts(all@).take(i as int),
            connected@.len() > 0 ==> texts(r@) =~= texts(all@).take(i as int).filter(from_connected(cv)),
        decreases all.len() - i,
    {
        let e = &all[i];
        let keep = if connected.len() == 0 {
            true
        } else {
            let ec = chars_of(e.as_str());
            contains_exec(connected, &before_char_of(&ec, '/'))
        };
        let ghost old_r = r@;
        proof {
            let t = texts(all@).take(i as int + 1);
            assert(t.drop_last() =~= texts(all@).take(i as int));
            assert(t.last() == all@[i as int]@);
            assert(connected@.len() > 0 ==> keep == from_connected(cv)(all@[i as int]@));
            reveal(Seq::filter);
            assert(t.filter(from_connected(cv)) == if from_connected(cv)(t.last()) {
                t.drop_last().filter(from_connected(cv)).push(t.last())
            } else {
                t.drop_last().filter(from_connected(cv))
            });
        }
        if keep {
            let c = copy_string(e);
            r.push(c);
            proof {
                assert(texts(r@) =~= texts(old_r).push(c@));
            }
        }
        i = i + 1;
    }
    assert(texts(all@).take(all.len() as int) =~= texts(all@));
    r
}

/// The entries of the model picker: the models in `all` whose provider is
/// one of `connected` (all of them when none is), ordered by provider rank
/// (the current model's provider first, then the providers of `priority`
/// in order, then the rest), then by provider name, then by id.
pub fn build_model_entries(all: &Vec<String>, connected: &Vec<String>, current_model: &str, priority: &Vec<String>) -> (r: Vec<String>)
    ensures
        texts(r@).to_multiset() == offered_models(texts(all@), texts(connected@)).to_multiset(),
        in_listing_order(texts(r@), current_provider(current_model@), texts(priority@)),
{
    let cm = chars_of(current_model);
    let current = lower_chars(&before_char_of(&cm, '/'));
    let pri = all_chars(priority);
    let conn = all_chars(connected);
    let pool = offered_exec(all, &conn);
    let ghost cur = current@;
    let ghost pv = char_texts(pri@);
    let mut r: Vec<String> = Vec::new();
    let mut i: usize = 0;
    while i < pool.len()
        invariant
            i <= pool.len(),
            cur == current@,
            pv == char_texts(pri@),
            in_listing_order(texts(r@), cur, pv),
            texts(r@).to_multiset() =~= texts(pool@).take(i as int).to_multiset(),
        decreases pool.len() - i,
    {
        let x = copy_string(&pool[i]);
        insert_in_order(&mut r, x, &current, &pri);
        proof {
            assert(texts(pool@).take(i as int + 1) =~= texts(pool@).take(i as int).push(pool@[i as int]@));
        }
        i = i + 1;
    }
    assert(texts(pool@).take(pool.len() as int) =~= texts(pool@));
    r
}

/// Along the model picker's entries the provider rank never decreases: the
/// current provider's models come first, then those of the priority
/// providers in their order, then the rest.
pub proof fn law_ranks_never_decrease(s: Seq<Seq<char>>, current: Seq<char>, priority: Seq<Seq<char>>, i: int, j: int)
    requires
        in_listing_order(s, current, priority),
        0 <= i <= j < s.len(),
    ensures
        provider_rank(provider_of(s[i]), current, priority) <= provider_rank(provider_of(s[j]), current, priority),
    decreases j - i,
{
    if i < j {
        let k = j - 1;
        assert(!listed_before(s[k + 1], s[k], current, priority));
        law_ranks_never_decrease(s, current, priority, i, k);
    }
}

/// In the model picker, no model of another provider comes before a model
/// of the current provider.
pub proof fn law_current_provider_first(s: Seq<Seq<char>>, current: Seq<char>, priority: Seq<Seq<char>>, i: int, j: int)
    requires
        in_listing_order(s, current, priority),
        0 <= i <= j < s.len(),
        provider_of(s[j]) == current,
    ensures
        provider_of(s[i]) == current,
{
    law_ranks_never_decrease(s, current, priority, i, j);
}

/// What choosing a model in the picker changes.
pub struct ModelChoice {
    /// The model now used.
    pub model: String,
    /// The new default provider, when the id names one before a `/`.
    pub provider: Option<String>,
    /// The notice shown.
    pub notice: String,
}

/// Enter in the model picker on row `selected` of `view` over `entries`:
/// `None` when that row names no model.
pub fn model_choice(entries: &Vec<String>, view: &Vec<usize>, selected: usize) -> (r: Option<ModelChoice>)
    ensures
        r is None <==> (selected >= view.len() || view@[selected as int] >= entries.len()),
        r matches Some(c) ==> {
            let m = entries@[view@[selected as int] as int]@;
            &&& c.model@ == m
            &&& c.notice@ == "model: "@ + m
            &&& (m.contains('/') ==> (c.provider matches Some(p) && p@ == before_char(m, '/')))
            &&& (!m.contains('/') ==> c.provider is None)
        },
{
    if selected >= view.len() || view[selected] >= entries.len() {
        return None;
    }
    let m = &entries[view[selected]];
    let mc = chars_of(m.as_str());
    let mut has_slash = false;
    let mut i: usize = 0;
    while i < mc.len()
        invariant
            i <= mc.len(),
            has_slash == mc@.take(i as int).contains('/'),
        decreases mc.len() - i,
    {
        proof {
            assert(mc@.take(i as int + 1) =~= mc@.take(i as int).push(mc@[i as int]));
        }
        if mc[i] == '/' {
            has_slash = true;
        }
        i = i + 1;
    }
    assert(mc@.take(mc.len() as int) =~= mc@);
    let provider = if has_slash {
        let p = before_char_of(&mc, '/');
        Some(string_of(p.as_slice()))
    } else {
        None
    };
    Some(ModelChoice { model: copy_string(m), provider, notice: concat2("model: ", m.as_str()) })
}


/// The provider named on the chat screen: the configured provider (trimmed),
/// or else the model id's part before its first `/` (the whole id when it
/// has none); none for an empty name or `null` (in any ASCII case);
/// `OpenAI` for `openai` (in any ASCII case); otherwise the name with its
/// first character upper-cased.
pub open spec fn provider_label_spec(provider: Seq<char>, model: Seq<char>) -> Option<Seq<char>> {
    let p = if trim(provider).len() > 0 {
        trim(provider)
    } else if model.contains('/') {
        before_char(model, '/')
    } else {
        model
    };
    if p.len() == 0 || lower_seq(p) == "null"@ {
        None
    } else if lower_seq(p) == "openai"@ {
        Some("OpenAI"@)
    } else {
        Some(unicode_upper(p[0]) + p.drop_first())
    }
}

pub fn provider_label(provider: &str, model: &str) -> (r: Option<String>)
    ensures
        match provider_label_spec(provider@, model@) {
            Some(l) => r matches Some(x) && x@ == l,
            None => r is None,
        },
{
    let tp = trim_chars(&chars_of(provider));
    let p = if tp.len() > 0 {
        tp
    } else {
        let m = chars_of(model);
        let mut has_slash = false;
        let mut i: usize = 0;
        while i < m.len()
            invariant
                i <= m.len(),
                has_slash == m@.take(i as int).contains('/'),
            decreases m.len() - i,
        {
            proof {
                assert(m@.take(i as int + 1) =~= m@.take(i as int).push(m@[i as int]));
            }
            if m[i] == '/' {
                has_slash = true;
            }
            i = i + 1;
        }
        assert(m@.take(m.len() as int) =~= m@);
        if has_slash {
            before_char_of(&m, '/')
        } else {
            m
        }
    };
    let low = lower_chars(&p);
    if p.len() == 0 || crate::text::eq_str(&low, "null") {
        return None;
    }
    if crate::text::eq_str(&low, "openai") {
        return Some("OpenAI".to_owned());
    }
    let first = crate::live::char_to_upper(p[0]);
    let mut v = chars_of(first.as_str());
    let rest = crate::text::sub_chars(&p, 1, p.len());
    crate::text::push_all(&mut v, &rest);
    proof {
        assert(p@.drop_first() =~= p@.subrange(1, p@.len() as int));
    }
    Some(string_of(v.as_slice()))
}


} // verus!
