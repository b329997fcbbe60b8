//! Character-level model of strings: UTF-8 byte offsets, ASCII case folding,
//! whitespace, substring search and the conversions between `String` and
//! character vectors that the rest of the crate builds on.
use vstd::prelude::*;

verus! {

broadcast use vstd::seq_lib::group_seq_properties;

// ── UTF-8 byte offsets ──────────────────────────────────────────────────────

/// Number of bytes that `c` occupies in UTF-8.
pub open spec fn utf8_len(c: char) -> nat {
    if (c as u32) < 0x80 {
        1
    } else if (c as u32) < 0x800 {
        2
    } else if (c as u32) < 0x10000 {
        3
    } else {
        4
    }
}

/// Number of bytes that the characters `s` occupy in UTF-8.
pub open spec fn byte_len(s: Seq<char>) -> nat
    decreases s.len(),
{
    if s.len() == 0 {
        0
    } else {
        utf8_len(s[0]) + byte_len(s.drop_first())
    }
}

/// Byte offset at which the character with index `k` starts.
pub open spec fn byte_offset(s: Seq<char>, k: int) -> nat {
    byte_len(s.take(k))
}

/// Number of characters of `s` that start strictly before byte `b`.
/// On a character boundary this is the index of the character at `b`.
pub open spec fn char_pos(s: Seq<char>, b: int) -> nat
    decreases s.len(),
{
    if s.len() == 0 || b <= 0 {
        0
    } else {
        1 + char_pos(s.drop_first(), b - utf8_len(s[0]))
    }
}

/// `b` is the byte offset of some character boundary of `s` (the end counts).
pub open spec fn is_boundary(s: Seq<char>, b: int) -> bool {
    exists|k: int| 0 <= k <= s.len() && byte_offset(s, k) == b
}

/// A cursor that a string operation accepts: a character boundary, or any
/// offset at or past the end (which the operations clamp to the end).
pub open spec fn cursor_ok(s: Seq<char>, b: int) -> bool {
    b >= byte_len(s) || is_boundary(s, b)
}

/// `s` fits in memory both as a string and as a vector of characters: its
/// byte length fits a `usize`, and four bytes per character do too (no
/// allocation exceeds `isize::MAX` bytes).
pub open spec fn fits(s: Seq<char>) -> bool {
    byte_len(s) <= usize::MAX && s.len() <= usize::MAX / 4
}

pub proof fn lemma_utf8_len_pos(c: char)
    ensures
        1 <= utf8_len(c) <= 4,
{
}

pub proof fn lemma_byte_len_concat(a: Seq<char>, b: Seq<char>)
    ensures
        byte_len(a + b) == byte_len(a) + byte_len(b),
    decreases a.len(),
{
    if a.len() == 0 {
        assert(a + b =~= b);
    } else {
        assert((a + b).drop_first() =~= a.drop_first() + b);
        lemma_byte_len_concat(a.drop_first(), b);
    }
}

pub proof fn lemma_byte_len_single(c: char)
    ensures
        byte_len(seq![c]) == utf8_len(c),
{
    assert(seq![c].drop_first() =~= Seq::<char>::empty());
    assert(byte_len(Seq::<char>::empty()) == 0);
    assert(seq![c][0] == c);
}

pub proof fn lemma_byte_len_ge_len(s: Seq<char>)
    ensures
        byte_len(s) >= s.len(),
    decreases s.len(),
{
    if s.len() > 0 {
        lemma_byte_len_ge_len(s.drop_first());
    }
}

pub proof fn lemma_byte_offset_step(s: Seq<char>, k: int)
    requires
        0 <= k < s.len(),
    ensures
        byte_offset(s, k + 1) == byte_offset(s, k) + utf8_len(s[k]),
{
    assert(s.take(k + 1) =~= s.take(k) + seq![s[k]]);
    lemma_byte_len_concat(s.take(k), seq![s[k]]);
    lemma_byte_len_single(s[k]);
}

pub proof fn lemma_byte_offset_mono(s: Seq<char>, i: int, j: int)
    requires
        0 <= i <= j <= s.len(),
    ensures
        byte_offset(s, i) + (j - i) <= byte_offset(s, j),
    decreases j - i,
{
    if i < j {
        lemma_byte_offset_mono(s, i, j - 1);
        lemma_byte_offset_step(s, j - 1);
    }
}

pub proof fn lemma_byte_offset_full(s: Seq<char>)
    ensures
        byte_offset(s, s.len() as int) == byte_len(s),
{
    assert(s.take(s.len() as int) =~= s);
}

pub proof fn lemma_byte_offset_bounded(s: Seq<char>, k: int)
    requires
        0 <= k <= s.len(),
    ensures
        byte_offset(s, k) <= byte_len(s),
{
    lemma_byte_offset_mono(s, k, s.len() as int);
    lemma_byte_offset_full(s);
}

pub proof fn lemma_char_pos_bounded(s: Seq<char>, b: int)
    ensures
        char_pos(s, b) <= s.len(),
    decreases s.len(),
{
    if s.len() > 0 && b > 0 {
        lemma_char_pos_bounded(s.drop_first(), b - utf8_len(s[0]));
    }
}

pub proof fn lemma_char_pos_offset(s: Seq<char>, k: int)
    requires
        0 <= k <= s.len(),
    ensures
        char_pos(s, byte_offset(s, k) as int) == k,
    decreases k,
{
    if k == 0 {
        assert(s.take(0) =~= Seq::<char>::empty());
    } else {
        let t = s.drop_first();
        assert(s.take(k) =~= seq![s[0]] + t.take(k - 1));
        lemma_byte_len_concat(seq![s[0]], t.take(k - 1));
        lemma_byte_len_single(s[0]);
        lemma_char_pos_offset(t, k - 1);
    }
}

pub proof fn lemma_char_pos_past_end(s: Seq<char>, b: int)
    requires
        b >= byte_len(s),
    ensures
        char_pos(s, b) == s.len(),
    decreases s.len(),
{
    if s.len() > 0 {
        lemma_char_pos_past_end(s.drop_first(), b - utf8_len(s[0]));
    }
}

/// For an accepted cursor, `char_pos` names the character at (or the end
/// before) the cursor, and its offset is the clamped cursor.
pub proof fn lemma_cursor_pos(s: Seq<char>, b: int)
    requires
        cursor_ok(s, b),
    ensures
        char_pos(s, b) <= s.len(),
        b >= byte_len(s) ==> char_pos(s, b) == s.len(),
        b < byte_len(s) ==> byte_offset(s, char_pos(s, b) as int) == b,
        b >= byte_len(s) ==> byte_offset(s, char_pos(s, b) as int) == byte_len(s),
{
    lemma_char_pos_bounded(s, b);
    if b >= byte_len(s) {
        lemma_char_pos_past_end(s, b);
        lemma_byte_offset_full(s);
    } else {
        let k = choose|k: int| 0 <= k <= s.len() && byte_offset(s, k) == b;
        lemma_char_pos_offset(s, k);
    }
}

/// Byte offsets are the same for equal prefixes.
pub proof fn lemma_offset_of_boundary(s: Seq<char>, k: int)
    requires
        0 <= k <= s.len(),
    ensures
        is_boundary(s, byte_offset(s, k) as int),
        cursor_ok(s, byte_offset(s, k) as int),
        char_pos(s, byte_offset(s, k) as int) == k,
{
    lemma_char_pos_offset(s, k);
}

/// Number of UTF-8 bytes of `c`.
pub fn utf8_len_of(c: char) -> (n: usize)
    ensures
        n == utf8_len(c),
{
    let u = c as u32;
    if u < 0x80 {
        1
    } else if u < 0x800 {
        2
    } else if u < 0x10000 {
        3
    } else {
        4
    }
}

/// The index of the character that starts at byte `b` (see `char_pos`).
pub fn char_pos_of(v: &Vec<char>, b: usize) -> (k: usize)
    ensures
        k == char_pos(v@, b as int),
{
    let mut k: usize = 0;
    let mut rem: usize = b;
    while k < v.len() && rem > 0
        invariant
            k <= v.len(),
            char_pos(v@, b as int) == k + char_pos(v@.skip(k as int), rem as int),
        decreases v.len() - k,
    {
        let w = utf8_len_of(v[k]);
        assert(v@.skip(k as int).drop_first() =~= v@.skip(k as int + 1));
        if w >= rem {
            assert(char_pos(v@.skip(k as int + 1), rem - w) == 0);
            k = k + 1;
            rem = 0;
        } else {
            k = k + 1;
            rem = rem - w;
        }
    }
    assert(char_pos(v@.skip(k as int), rem as int) == 0);
    k
}

/// Byte offset of the character with index `k`.
pub fn byte_offset_of(v: &Vec<char>, k: usize) -> (b: usize)
    requires
        k <= v.len(),
        fits(v@),
    ensures
        b == byte_offset(v@, k as int),
{
    let mut i: usize = 0;
    let mut b: usize = 0;
    proof {
        assert(v@.take(0) =~= Seq::<char>::empty());
    }
    while i < k
        invariant
            i <= k <= v.len(),
            fits(v@),
            b == byte_offset(v@, i as int),
        decreases k - i,
    {
        proof {
            lemma_byte_offset_step(v@, i as int);
            lemma_byte_offset_bounded(v@, i as int + 1);
        }
        b = b + utf8_len_of(v[i]);
        i = i + 1;
    }
    b
}

/// Byte length of `v`.
pub fn byte_len_of(v: &Vec<char>) -> (b: usize)
    requires
        fits(v@),
    ensures
        b == byte_len(v@),
{
    proof {
        lemma_byte_offset_full(v@);
    }
    byte_offset_of(v, v.len())
}

// ── Conversions ─────────────────────────────────────────────────────────────

/// The characters of `s`, in order.
pub fn chars_of(s: &str) -> (v: Vec<char>)
    ensures
        v@ == s@,
{
    let mut v: Vec<char> = Vec::new();
    for c in it: s.chars()
        invariant
            v@ == it.seq().take(it.index() as int),
    {
        v.push(c);
    }
    v
}

/// Builds a `String` from characters (std's `FromIterator<&char> for String`).
#[verifier::external_body]
pub(crate) fn string_of(v: &[char]) -> (s: String)
    ensures
        s@ == v@,
{
    v.iter().collect()
}

/// Copies the slice `v[lo..hi]` into a new vector.
pub fn sub_chars(v: &Vec<char>, lo: usize, hi: usize) -> (r: Vec<char>)
    requires
        lo <= hi <= v.len(),
    ensures
        r@ == v@.subrange(lo as int, hi as int),
{
    let mut r: Vec<char> = Vec::new();
    let mut i = lo;
    while i < hi
        invariant
            lo <= i <= hi <= v.len(),
            r@ == v@.subrange(lo as int, i as int),
        decreases hi - i,
    {
        r.push(v[i]);
        i = i + 1;
    }
    r
}

/// Appends all of `src` to `dst`.
pub fn push_all(dst: &mut Vec<char>, src: &Vec<char>)
    ensures
        final(dst)@ == old(dst)@ + src@,
{
    let mut i: usize = 0;
    while i < src.len()
        invariant
            i <= src.len(),
            dst@ == old(dst)@ + src@.take(i as int),
        decreases src.len() - i,
    {
        dst.push(src[i]);
        i = i + 1;
    }
}

// ── ASCII case folding ──────────────────────────────────────────────────────

/// `c` with ASCII upper-case letters mapped to lower case (std's `to_ascii_lowercase`).
pub open spec fn ascii_lower(c: char) -> char {
    if 'A' <= c && c <= 'Z' {
        ((c as u32) + 32) as char
    } else {
        c
    }
}

pub open spec fn lower_seq(s: Seq<char>) -> Seq<char> {
    s.map_values(|c: char| ascii_lower(c))
}

pub fn ascii_lower_of(c: char) -> (r: char)
    ensures
        r == ascii_lower(c),
{
    if 'A' <= c && c <= 'Z' {
        let u: u32 = c as u32;
        let b: u8 = (u + 32) as u8;
        assert(b == u + 32);
        b as char
    } else {
        c
    }
}

pub fn lower_chars(v: &Vec<char>) -> (r: Vec<char>)
    ensures
        r@ == lower_seq(v@),
{
    let mut r: Vec<char> = Vec::new();
    let mut i: usize = 0;
    while i < v.len()
        invariant
            i <= v.len(),
            r@ == lower_seq(v@.take(i as int)),
        decreases v.len() - i,
    {
        r.push(ascii_lower_of(v[i]));
        proof {
            assert(lower_seq(v@.take(i as int + 1)) =~= lower_seq(v@.take(i as int)).push(
                ascii_lower(v@[i as int]),
            ));
        }
        i = i + 1;
    }
    proof {
        assert(v@.take(v.len() as int) =~= v@);
    }
    r
}

// ── Substring search ────────────────────────────────────────────────────────

/// `needle` occurs in `hay` starting at index `i`.
pub open spec fn occurs_at(hay: Seq<char>, needle: Seq<char>, i: int) -> bool {
    0 <= i && i + needle.len() <= hay.len() && hay.subrange(i, i + needle.len()) == needle
}

/// `needle` occurs somewhere in `hay` (std's `str::contains`).
pub open spec fn contains_seq(hay: Seq<char>, needle: Seq<char>) -> bool {
    exists|i: int| occurs_at(hay, needle, i)
}

/// Index of the first occurrence of `needle` in `hay` (std's `str::find`).
pub open spec fn first_occurrence(hay: Seq<char>, needle: Seq<char>) -> Option<int> {
    if contains_seq(hay, needle) {
        Some(
            choose|i: int|
                occurs_at(hay, needle, i) && forall|j: int| 0 <= j < i ==> !occurs_at(hay, needle, j),
        )
    } else {
        None
    }
}

pub fn occurs_at_exec(hay: &Vec<char>, needle: &Vec<char>, i: usize) -> (r: bool)
    ensures
        r == occurs_at(hay@, needle@, i as int),
{
    if needle.len() > hay.len() || i > hay.len() - needle.len() {
        return false;
    }
    let mut j: usize = 0;
    while j < needle.len()
        invariant
            i + needle.len() <= hay.len(),
            j <= needle.len(),
            forall|t: int| 0 <= t < j ==> hay@[i + t] == needle@[t],
        decreases needle.len() - j,
    {
        if hay[i + j] != needle[j] {
            proof {
                assert(hay@.subrange(i as int, i + needle.len())[j as int] != needle@[j as int]);
            }
            return false;
        }
        j = j + 1;
    }
    proof {
        assert(hay@.subrange(i as int, i + needle.len()) =~= needle@);
    }
    true
}

/// First index at or after `from` where `needle` occurs.
pub fn find_from(hay: &Vec<char>, needle: &Vec<char>, from: usize) -> (r: Option<usize>)
    ensures
        match r {
            Some(i) => from <= i && occurs_at(hay@, needle@, i as int) && forall|j: int|
                from <= j < i ==> !occurs_at(hay@, needle@, j),
            None => forall|j: int| from <= j ==> !occurs_at(hay@, needle@, j),
        },
{
    let mut i = from;
    if i > hay.len() {
        return None;
    }
    loop
        invariant
            from <= i <= hay.len(),
            forall|j: int| from <= j < i ==> !occurs_at(hay@, needle@, j),
        decreases hay.len() - i,
    {
        if occurs_at_exec(hay, needle, i) {
            return Some(i);
        }
        if i == hay.len() {
            return None;
        }
        i = i + 1;
    }
}

/// First occurrence of `needle` in `hay`.
pub fn find_seq(hay: &Vec<char>, needle: &Vec<char>) -> (r: Option<usize>)
    ensures
        r matches Some(i) ==> first_occurrence(hay@, needle@) == Some(i as int) && occurs_at(
            hay@,
            needle@,
            i as int,
        ),
        r is None ==> first_occurrence(hay@, needle@) is None,
{
    let r = find_from(hay, needle, 0);
    match r {
        Some(i) => {
            proof {
                let c = choose|k: int|
                    occurs_at(hay@, needle@, k) && forall|j: int|
                        0 <= j < k ==> !occurs_at(hay@, needle@, j);
                assert(occurs_at(hay@, needle@, i as int));
                assert(!(c < i));
                assert(!(i < c));
            }
            r
        },
        None => r,
    }
}

pub fn contains_exec(hay: &Vec<char>, needle: &Vec<char>) -> (r: bool)
    ensures
        r == contains_seq(hay@, needle@),
{
    let found = find_from(hay, needle, 0);
    found.is_some()
}

// ── Whitespace ──────────────────────────────────────────────────────────────

/// Unicode `White_Space`, as std's `char::is_whitespace`.
pub open spec fn is_ws(c: char) -> bool {
    let u = c as u32;
    (0x09 <= u && u <= 0x0d) || u == 0x20 || u == 0x85 || u == 0xa0 || u == 0x1680 || (0x2000
        <= u && u <= 0x200a) || u == 0x2028 || u == 0x2029 || u == 0x202f || u == 0x205f || u
        == 0x3000
}

pub fn is_ws_exec(c: char) -> (r: bool)
    ensures
        r == is_ws(c),
{
    let u = c as u32;
    (0x09 <= u && u <= 0x0d) || u == 0x20 || u == 0x85 || u == 0xa0 || u == 0x1680 || (0x2000
        <= u && u <= 0x200a) || u == 0x2028 || u == 0x2029 || u == 0x202f || u == 0x205f || u
        == 0x3000
}

/// Number of leading whitespace characters.
pub open spec fn lead_ws(s: Seq<char>) -> nat
    decreases s.len(),
{
    if s.len() > 0 && is_ws(s[0]) {
        1 + lead_ws(s.drop_first())
    } else {
        0
    }
}

/// Number of trailing whitespace characters.
pub open spec fn trail_ws(s: Seq<char>) -> nat
    decreases s.len(),
{
    if s.len() > 0 && is_ws(s.last()) {
        1 + trail_ws(s.drop_last())
    } else {
        0
    }
}

/// std's `trim_start`.
pub open spec fn trim_start(s: Seq<char>) -> Seq<char> {
    s.skip(lead_ws(s) as int)
}

/// std's `trim_end`.
pub open spec fn trim_end(s: Seq<char>) -> Seq<char> {
    s.take(s.len() - trail_ws(s))
}

/// std's `trim`.
pub open spec fn trim(s: Seq<char>) -> Seq<char> {
    trim_end(trim_start(s))
}

pub proof fn lemma_lead_ws_bounded(s: Seq<char>)
    ensures
        lead_ws(s) <= s.len(),
    decreases s.len(),
{
    if s.len() > 0 && is_ws(s[0]) {
        lemma_lead_ws_bounded(s.drop_first());
    }
}

pub proof fn lemma_trail_ws_bounded(s: Seq<char>)
    ensures
        trail_ws(s) <= s.len(),
    decreases s.len(),
{
    if s.len() > 0 && is_ws(s.last()) {
        lemma_trail_ws_bounded(s.drop_last());
    }
}

pub fn lead_ws_exec(v: &Vec<char>) -> (n: usize)
    ensures
        n == lead_ws(v@),
{
    let mut i: usize = 0;
    while i < v.len() && is_ws_exec(v[i])
        invariant
            i <= v.len(),
            lead_ws(v@) == i + lead_ws(v@.skip(i as int)),
        decreases v.len() - i,
    {
        assert(v@.skip(i as int).drop_first() =~= v@.skip(i as int + 1));
        i = i + 1;
    }
    i
}

pub fn trail_ws_exec(v: &Vec<char>) -> (n: usize)
    ensures
        n == trail_ws(v@),
{
    let mut i: usize = 0;
    while i < v.len() && is_ws_exec(v[v.len() - 1 - i])
        invariant
            i <= v.len(),
            trail_ws(v@) == i + trail_ws(v@.take(v.len() - i)),
        decreases v.len() - i,
    {
        assert(v@.take(v.len() - i).drop_last() =~= v@.take(v.len() - i - 1));
        i = i + 1;
    }
    i
}

pub fn trim_chars(v: &Vec<char>) -> (r: Vec<char>)
    ensures
        r@ == trim(v@),
{
    let a = lead_ws_exec(v);
    proof {
        lemma_lead_ws_bounded(v@);
    }
    let t = sub_chars(v, a, v.len());
    let b = trail_ws_exec(&t);
    proof {
        lemma_trail_ws_bounded(t@);
    }
    sub_chars(&t, 0, t.len() - b)
}

pub fn trim_end_chars(v: &Vec<char>) -> (r: Vec<char>)
    ensures
        r@ == trim_end(v@),
{
    let b = trail_ws_exec(v);
    proof {
        lemma_trail_ws_bounded(v@);
    }
    sub_chars(v, 0, v.len() - b)
}

pub fn trim_start_chars(v: &Vec<char>) -> (r: Vec<char>)
    ensures
        r@ == trim_start(v@),
{
    let a = lead_ws_exec(v);
    proof {
        lemma_lead_ws_bounded(v@);
    }
    sub_chars(v, a, v.len())
}

pub proof fn lemma_lead_ws_not_ws(s: Seq<char>)
    ensures
        lead_ws(s) < s.len() ==> !is_ws(s[lead_ws(s) as int]),
        forall|i: int| 0 <= i < lead_ws(s) ==> is_ws(#[trigger] s[i]),
    decreases s.len(),
{
    lemma_lead_ws_bounded(s);
    if s.len() > 0 && is_ws(s[0]) {
        lemma_lead_ws_not_ws(s.drop_first());
        assert forall|i: int| 0 <= i < lead_ws(s) implies is_ws(#[trigger] s[i]) by {
            if i > 0 {
                assert(s[i] == s.drop_first()[i - 1]);
            }
        }
    }
}

pub proof fn lemma_trail_ws_stops(s: Seq<char>)
    ensures
        s.len() > 0 && !is_ws(s[0]) ==> trail_ws(s) < s.len(),
    decreases s.len(),
{
    if s.len() > 1 && is_ws(s.last()) {
        lemma_trail_ws_stops(s.drop_last());
    }
}

/// Character-wise equality of two vectors.
pub fn eq_chars(a: &Vec<char>, b: &Vec<char>) -> (r: bool)
    ensures
        r == (a@ == b@),
{
    if a.len() != b.len() {
        return false;
    }
    let mut i: usize = 0;
    while i < a.len()
        invariant
            a.len() == b.len(),
            i <= a.len(),
            forall|j: int| 0 <= j < i ==> a@[j] == b@[j],
        decreases a.len() - i,
    {
        if a[i] != b[i] {
            return false;
        }
        i = i + 1;
    }
    assert(a@ =~= b@);
    true
}

/// `s` equals the literal `lit`.
pub fn eq_str(s: &Vec<char>, lit: &str) -> (r: bool)
    ensures
        r == (s@ == lit@),
{
    let l = chars_of(lit);
    eq_chars(s, &l)
}

/// Concatenation of two strings.
pub fn concat2(a: &str, b: &str) -> (r: String)
    ensures
        r@ == a@ + b@,
{
    let mut v = chars_of(a);
    let vb = chars_of(b);
    push_all(&mut v, &vb);
    string_of(v.as_slice())
}

/// Concatenation of three strings.
pub fn concat3(a: &str, b: &str, c: &str) -> (r: String)
    ensures
        r@ == a@ + b@ + c@,
{
    let mut v = chars_of(a);
    let vb = chars_of(b);
    let vc = chars_of(c);
    push_all(&mut v, &vb);
    push_all(&mut v, &vc);
    string_of(v.as_slice())
}

// ── Decimal numbers ─────────────────────────────────────────────────────────

/// The digit character for `d` (below 10).
pub open spec fn digit_char(d: nat) -> char {
    ((0x30 + d) as u32) as char
}

/// Decimal representation of `n`, as `format!("{n}")` writes it.
pub open spec fn decimal(n: nat) -> Seq<char>
    decreases n,
{
    if n < 10 {
        seq![digit_char(n)]
    } else {
        decimal(n / 10).push(digit_char(n % 10))
    }
}

pub proof fn lemma_decimal_len(n: nat)
    ensures
        decimal(n).len() >= 1,
    decreases n,
{
    if n >= 10 {
        lemma_decimal_len(n / 10);
    }
}

fn digit_of(d: u64) -> (c: char)
    requires
        d < 10,
    ensures
        c == digit_char(d as nat),
{
    let b: u8 = (d as u8) + 48;
    assert(b == 0x30 + d);
    b as char
}

/// Decimal representation of `n`.
pub fn decimal_of(n: u64) -> (r: Vec<char>)
    ensures
        r@ == decimal(n as nat),
    decreases n,
{
    if n < 10 {
        let mut v = Vec::new();
        v.push(digit_of(n));
        proof {
            assert(v@ =~= seq![digit_char(n as nat)]);
        }
        v
    } else {
        let mut v = decimal_of(n / 10);
        v.push(digit_of(n % 10));
        v
    }
}

// ── Prefixes ────────────────────────────────────────────────────────────────

/// `p` is a prefix of `s` (std's `starts_with`).
pub open spec fn has_prefix(s: Seq<char>, p: Seq<char>) -> bool {
    p.len() <= s.len() && s.take(p.len() as int) == p
}

pub fn has_prefix_exec(s: &Vec<char>, p: &Vec<char>) -> (r: bool)
    ensures
        r == has_prefix(s@, p@),
{
    let r = occurs_at_exec(s, p, 0);
    proof {
        assert(s@.subrange(0, p@.len() as int) =~= s@.take(p@.len() as int));
    }
    r
}

} // verus!
