//! The provider manager: the catalog of model providers, their order in the
//! list, filtering, the ways to connect one, and the keys of its steps.
use vstd::prelude::*;
use crate::toast::{Notice, ToastVariant};
use crate::keys::{select_next, select_next_spec, Key, KeyPress};
use crate::modals::{rename_input_key, rename_spec, RenameSpec, RenameStep};
use crate::text::{
    chars_of, contains_exec, contains_seq, eq_chars, lower_chars, lower_seq, string_of, trim,
    trim_chars,
};
use crate::filters::{idx_view, range_of, range_seq};
use crate::palette::lex_lt;

verus! {

broadcast use vstd::seq_lib::group_seq_properties;

/// A provider in the catalog: id, display name, and the environment
/// variable that holds its API key (if any).
pub type ProviderInfo = (Seq<char>, Seq<char>, Option<Seq<char>>);

/// The providers known to the manager, in the order of their display names.
pub open spec fn catalog() -> Seq<ProviderInfo> {
    seq![
        ("azure"@, "Azure OpenAI"@, Some("AZURE_OPENAI_API_KEY"@)),
        ("cerebras"@, "Cerebras"@, Some("CEREBRAS_API_KEY"@)),
        ("deepinfra"@, "DeepInfra"@, Some("DEEPINFRA_API_KEY"@)),
        ("github-copilot"@, "GitHub Copilot"@, None),
        ("github-copilot-enterprise"@, "GitHub Copilot Enterprise"@, None),
        ("gitlab"@, "GitLab"@, Some("GITLAB_API_KEY"@)),
        ("google"@, "Google Gemini"@, Some("GOOGLE_API_KEY"@)),
        ("groq"@, "Groq"@, Some("GROQ_API_KEY"@)),
        ("mistral"@, "Mistral AI"@, Some("MISTRAL_API_KEY"@)),
        ("ollama"@, "Ollama (local)"@, None),
        ("openai"@, "OpenAI"@, Some("OPENAI_API_KEY"@)),
        ("openrouter"@, "OpenRouter"@, Some("OPENROUTER_API_KEY"@)),
        ("perplexity"@, "Perplexity"@, Some("PERPLEXITY_API_KEY"@)),
        ("togetherai"@, "Together AI"@, Some("TOGETHERAI_API_KEY"@)),
        ("vercel"@, "Vercel AI Gateway"@, Some("VERCEL_API_KEY"@)),
        ("xai"@, "xAI Grok"@, Some("XAI_API_KEY"@)),
    ]
}

/// The catalog lists providers by display name, so each group of the
/// provider list (which keeps catalog order) is in name order.
pub proof fn law_catalog_in_name_order()
    ensures
        forall|i: int| 0 <= i < catalog().len() - 1 ==> #[trigger] lex_lt(catalog()[i].1, catalog()[i + 1].1),
{
    assert(lex_lt("Azure OpenAI"@, "Cerebras"@)) by {
        reveal_strlit("Azure OpenAI");
        reveal_strlit("Cerebras");
        reveal_with_fuel(lex_lt, 16);
    }
    assert(lex_lt("Cerebras"@, "DeepInfra"@)) by {
        reveal_strlit("Cerebras");
        reveal_strlit("DeepInfra");
        reveal_with_fuel(lex_lt, 16);
    }
    assert(lex_lt("DeepInfra"@, "GitHub Copilot"@)) by {
        reveal_strlit("DeepInfra");
        reveal_strlit("GitHub Copilot");
        reveal_with_fuel(lex_lt, 16);
    }
    assert(lex_lt("GitHub Copilot"@, "GitHub Copilot Enterprise"@)) by {
        reveal_strlit("GitHub Copilot");
        reveal_strlit("GitHub Copilot Enterprise");
        reveal_with_fuel(lex_lt, 16);
    }
    assert(lex_lt("GitHub Copilot Enterprise"@, "GitLab"@)) by {
        reveal_strlit("GitHub Copilot Enterprise");
        reveal_strlit("GitLab");
        reveal_with_fuel(lex_lt, 16);
    }
    assert(lex_lt("GitLab"@, "Google Gemini"@)) by {
        reveal_strlit("GitLab");
        reveal_strlit("Google Gemini");
        reveal_with_fuel(lex_lt, 16);
    }
    assert(lex_lt("Google Gemini"@, "Groq"@)) by {
        reveal_strlit("Google Gemini");
        reveal_strlit("Groq");
        reveal_with_fuel(lex_lt, 16);
    }
    assert(lex_lt("Groq"@, "Mistral AI"@)) by {
        reveal_strlit("Groq");
        reveal_strlit("Mistral AI");
        reveal_with_fuel(lex_lt, 16);
    }
    assert(lex_lt("Mistral AI"@, "Ollama (local)"@)) by {
        reveal_strlit("Mistral AI");
        reveal_strlit("Ollama (local)");
        reveal_with_fuel(lex_lt, 16);
    }
    assert(lex_lt("Ollama (local)"@, "OpenAI"@)) by {
        reveal_strlit("Ollama (local)");
        reveal_strlit("OpenAI");
        reveal_with_fuel(lex_lt, 16);
    }
    assert(lex_lt("OpenAI"@, "OpenRouter"@)) by {
        reveal_strlit("OpenAI");
        reveal_strlit("OpenRouter");
        reveal_with_fuel(lex_lt, 16);
    }
    assert(lex_lt("OpenRouter"@, "Perplexity"@)) by {
        reveal_strlit("OpenRouter");
        reveal_strlit("Perplexity");
        reveal_with_fuel(lex_lt, 16);
    }
    assert(lex_lt("Perplexity"@, "Together AI"@)) by {
        reveal_strlit("Perplexity");
        reveal_strlit("Together AI");
        reveal_with_fuel(lex_lt, 16);
    }
    assert(lex_lt("Together AI"@, "Vercel AI Gateway"@)) by {
        reveal_strlit("Together AI");
        reveal_strlit("Vercel AI Gateway");
        reveal_with_fuel(lex_lt, 16);
    }
    assert(lex_lt("Vercel AI Gateway"@, "xAI Grok"@)) by {
        reveal_strlit("Vercel AI Gateway");
        reveal_strlit("xAI Grok");
        reveal_with_fuel(lex_lt, 16);
    }
    let c = catalog();
    assert forall|i: int| 0 <= i < c.len() - 1 implies #[trigger] lex_lt(c[i].1, c[i + 1].1) by {
        assert(c.len() == 16);
    }
}

/// A catalog entry (as `catalog` holds it).
pub struct CatalogEntry {
    pub id: &'static str,
    pub display_name: &'static str,
    pub env_hint: Option<&'static str>,
}

pub open spec fn entry_info(e: CatalogEntry) -> ProviderInfo {
    (
        e.id@,
        e.display_name@,
        match e.env_hint {
            Some(h) => Some(h@),
            None => None,
        },
    )
}

fn info(id: &'static str, display_name: &'static str, env_hint: Option<&'static str>) -> (r: CatalogEntry)
    ensures
        entry_info(r) == (id@, display_name@, match env_hint {
            Some(h) => Some(h@),
            None => None::<Seq<char>>,
        }),
{
    CatalogEntry { id, display_name, env_hint }
}

/// The provider catalog.
pub fn provider_catalog() -> (r: Vec<CatalogEntry>)
    ensures
        r@.map_values(|e: CatalogEntry| entry_info(e)) == catalog(),
{
    let mut v: Vec<CatalogEntry> = Vec::new();
    v.push(info("azure", "Azure OpenAI", Some("AZURE_OPENAI_API_KEY")));
    v.push(info("cerebras", "Cerebras", Some("CEREBRAS_API_KEY")));
    v.push(info("deepinfra", "DeepInfra", Some("DEEPINFRA_API_KEY")));
    v.push(info("github-copilot", "GitHub Copilot", None));
    v.push(info("github-copilot-enterprise", "GitHub Copilot Enterprise", None));
    v.push(info("gitlab", "GitLab", Some("GITLAB_API_KEY")));
    v.push(info("google", "Google Gemini", Some("GOOGLE_API_KEY")));
    v.push(info("groq", "Groq", Some("GROQ_API_KEY")));
    v.push(info("mistral", "Mistral AI", Some("MISTRAL_API_KEY")));
    v.push(info("ollama", "Ollama (local)", None));
    v.push(info("openai", "OpenAI", Some("OPENAI_API_KEY")));
    v.push(info("openrouter", "OpenRouter", Some("OPENROUTER_API_KEY")));
    v.push(info("perplexity", "Perplexity", Some("PERPLEXITY_API_KEY")));
    v.push(info("togetherai", "Together AI", Some("TOGETHERAI_API_KEY")));
    v.push(info("vercel", "Vercel AI Gateway", Some("VERCEL_API_KEY")));
    v.push(info("xai", "xAI Grok", Some("XAI_API_KEY")));
    proof {
        assert(v@.map_values(|e: CatalogEntry| entry_info(e)) =~= catalog());
    }
    v
}

/// The first catalog entry with id `id`.
pub open spec fn lookup(cat: Seq<ProviderInfo>, id: Seq<char>) -> Option<ProviderInfo>
    decreases cat.len(),
{
    if cat.len() == 0 {
        None
    } else if cat[0].0 == id {
        Some(cat[0])
    } else {
        lookup(cat.drop_first(), id)
    }
}

fn lookup_of(id: &str) -> (r: Option<CatalogEntry>)
    ensures
        match lookup(catalog(), id@) {
            Some(p) => r matches Some(e) && entry_info(e) == p,
            None => r is None,
        },
{
    let cat = provider_catalog();
    let ghost cv = cat@.map_values(|e: CatalogEntry| entry_info(e));
    let target = chars_of(id);
    let mut i: usize = 0;
    let mut rest = cat;
    proof {
        assert(cv.skip(0) =~= cv);
    }
    while rest.len() > 0
        invariant
            i + rest.len() == cv.len(),
            cv == catalog(),
            target@ == id@,
            rest@.map_values(|e: CatalogEntry| entry_info(e)) == cv.skip(i as int),
            lookup(cv, id@) == lookup(cv.skip(i as int), id@),
        decreases rest.len(),
    {
        let ghost before = rest@;
        let e = rest.remove(0);
        proof {
            assert(before.map_values(|x: CatalogEntry| entry_info(x))[0] == entry_info(e));
            assert(cv.skip(i as int)[0] == entry_info(e));
            assert(cv.skip(i as int).drop_first() =~= cv.skip(i + 1));
            assert(rest@.map_values(|x: CatalogEntry| entry_info(x)) =~= before.map_values(
                |x: CatalogEntry| entry_info(x),
            ).drop_first());
        }
        if eq_chars(&chars_of(e.id), &target) {
            return Some(e);
        }
        i = i + 1;
    }
    None
}

/// The display name of provider `id`; an unknown id names itself.
pub fn provider_display_name(provider_id: &str) -> (r: String)
    ensures
        r@ == match lookup(catalog(), provider_id@) {
            Some(p) => p.1,
            None => provider_id@,
        },
{
    match lookup_of(provider_id) {
        Some(e) => e.display_name.to_owned(),
        None => provider_id.to_owned(),
    }
}

/// The environment variable for provider `id`'s API key, if it has one.
pub fn provider_env_hint(provider_id: &str) -> (r: Option<String>)
    ensures
        match lookup(catalog(), provider_id@) {
            Some(p) => match p.2 {
                Some(h) => r matches Some(s) && s@ == h,
                None => r is None,
            },
            None => r is None,
        },
{
    match lookup_of(provider_id) {
        Some(e) => match e.env_hint {
            Some(h) => Some(h.to_owned()),
            None => None,
        },
        None => None,
    }
}

// ── The list ────────────────────────────────────────────────────────────────

/// A row of the provider list.
#[derive(Debug)]
pub struct ProviderEntry {
    pub provider_id: String,
    pub display_name: String,
    pub connected: bool,
}

pub type EntryView = (Seq<char>, Seq<char>, bool);

impl View for ProviderEntry {
    type V = EntryView;

    open spec fn view(&self) -> EntryView {
        (self.provider_id@, self.display_name@, self.connected)
    }
}

pub open spec fn entries_view(v: Seq<ProviderEntry>) -> Seq<EntryView> {
    v.map_values(|e: ProviderEntry| e@)
}

/// The catalog entries whose `connected` status (membership of their id
/// in `ids`) is `want`, in catalog order.
pub open spec fn with_status(cat: Seq<ProviderInfo>, ids: Seq<Seq<char>>, want: bool) -> Seq<EntryView>
    decreases cat.len(),
{
    if cat.len() == 0 {
        Seq::empty()
    } else {
        let rest = with_status(cat.drop_last(), ids, want);
        let p = cat.last();
        if ids.contains(p.0) == want {
            rest.push((p.0, p.1, want))
        } else {
            rest
        }
    }
}

/// The provider list: connected providers (those whose id is in
/// `connected_ids`) first, then the others, each group by display name.
pub open spec fn provider_list(ids: Seq<Seq<char>>) -> Seq<EntryView> {
    with_status(catalog(), ids, true) + with_status(catalog(), ids, false)
}

fn contains_id(ids: &Vec<String>, id: &str) -> (r: bool)
    ensures
        r == ids@.map_values(|s: String| s@).contains(id@),
{
    let target = chars_of(id);
    let mut i: usize = 0;
    while i < ids.len()
        invariant
            i <= ids.len(),
            target@ == id@,
            forall|j: int| 0 <= j < i ==> ids@[j]@ != id@,
        decreases ids.len() - i,
    {
        if eq_chars(&chars_of(ids[i].as_str()), &target) {
            proof {
                assert(ids@.map_values(|s: String| s@)[i as int] == id@);
            }
            return true;
        }
        i = i + 1;
    }
    proof {
        let iv = ids@.map_values(|s: String| s@);
        assert forall|k: int| 0 <= k < iv.len() implies #[trigger] iv[k] != id@ by {
            assert(iv[k] == ids@[k]@);
        }
    }
    false
}

fn push_with_status(out: &mut Vec<ProviderEntry>, cat: &Vec<CatalogEntry>, ids: &Vec<String>, want: bool)
    ensures
        entries_view(final(out)@) == entries_view(old(out)@) + with_status(
            cat@.map_values(|e: CatalogEntry| entry_info(e)),
            ids@.map_values(|s: String| s@),
            want,
        ),
{
    let ghost cv = cat@.map_values(|e: CatalogEntry| entry_info(e));
    let ghost iv = ids@.map_values(|s: String| s@);
    let ghost start = entries_view(out@);
    let mut i: usize = 0;
    while i < cat.len()
        invariant
            i <= cat.len(),
            cv == cat@.map_values(|e: CatalogEntry| entry_info(e)),
            iv == ids@.map_values(|s: String| s@),
            entries_view(out@) == start + with_status(cv.take(i as int), iv, want),
        decreases cat.len() - i,
    {
        proof {
            assert(cv.take(i + 1).drop_last() =~= cv.take(i as int));
            assert(cv.take(i + 1).last() == entry_info(cat@[i as int]));
        }
        let e = &cat[i];
        if contains_id(ids, e.id) == want {
            let ghost before = entries_view(out@);
            out.push(ProviderEntry {
                provider_id: e.id.to_owned(),
                display_name: e.display_name.to_owned(),
                connected: want,
            });
            proof {
                assert(entries_view(out@) =~= before.push((e.id@, e.display_name@, want)));
            }
        }
        i = i + 1;
    }
    proof {
        assert(cv.take(cat.len() as int) =~= cv);
    }
}

/// The provider list for the providers `connected_ids` that have a
/// credential.
pub fn build_provider_entries(connected_ids: &Vec<String>) -> (r: Vec<ProviderEntry>)
    ensures
        entries_view(r@) == provider_list(connected_ids@.map_values(|s: String| s@)),
{
    let cat = provider_catalog();
    let mut out: Vec<ProviderEntry> = Vec::new();
    push_with_status(&mut out, &cat, connected_ids, true);
    push_with_status(&mut out, &cat, connected_ids, false);
    proof {
        assert(entries_view(Seq::<ProviderEntry>::empty()) =~= Seq::<EntryView>::empty());
    }
    out
}

proof fn lemma_with_status_flag(cat: Seq<ProviderInfo>, ids: Seq<Seq<char>>, want: bool)
    ensures
        forall|i: int| 0 <= i < with_status(cat, ids, want).len() ==> (#[trigger] with_status(cat, ids, want)[i]).2 == want,
    decreases cat.len(),
{
    if cat.len() > 0 {
        lemma_with_status_flag(cat.drop_last(), ids, want);
        let rest = with_status(cat.drop_last(), ids, want);
        let ws = with_status(cat, ids, want);
        assert forall|i: int| 0 <= i < ws.len() implies (#[trigger] ws[i]).2 == want by {
            if i < rest.len() {
                assert(ws[i] == rest[i]);
            }
        }
    }
}

/// Connected providers come before all others in the list.
pub proof fn law_connected_first(ids: Seq<Seq<char>>)
    ensures
        forall|i: int, j: int|
            0 <= i < j < provider_list(ids).len() && (#[trigger] provider_list(ids)[j]).2 ==> (
            #[trigger] provider_list(ids)[i]).2,
{
    lemma_with_status_flag(catalog(), ids, true);
    lemma_with_status_flag(catalog(), ids, false);
    let a = with_status(catalog(), ids, true);
    let b = with_status(catalog(), ids, false);
    assert forall|i: int, j: int|
        0 <= i < j < provider_list(ids).len() && (#[trigger] provider_list(ids)[j]).2 implies (
        #[trigger] provider_list(ids)[i]).2 by {
        if j >= a.len() {
            assert(provider_list(ids)[j] == b[j - a.len()]);
        }
        if i < a.len() {
            assert(provider_list(ids)[i] == a[i]);
        }
    }
}

/// Rows whose id or display name contains the trimmed query, ASCII
/// case-insensitively; all rows for a blank query.
pub open spec fn provider_filter(es: Seq<EntryView>, query: Seq<char>) -> Seq<int>
    decreases es.len(),
{
    let q = lower_seq(trim(query));
    if q.len() == 0 {
        range_seq(es.len())
    } else if es.len() == 0 {
        Seq::empty()
    } else {
        let prev = provider_filter(es.drop_last(), query);
        let e = es.last();
        if contains_seq(lower_seq(e.0), q) || contains_seq(lower_seq(e.1), q) {
            prev.push(es.len() - 1)
        } else {
            prev
        }
    }
}

pub fn filter_provider_entries(entries: &Vec<ProviderEntry>, query: &str) -> (r: Vec<usize>)
    ensures
        idx_view(r@) == provider_filter(entries_view(entries@), query@),
{
    let q = lower_chars(&trim_chars(&chars_of(query)));
    if q.len() == 0 {
        let r = range_of(entries.len(), entries.len());
        return r;
    }
    let ghost ev = entries_view(entries@);
    let mut out: Vec<usize> = Vec::new();
    let mut i: usize = 0;
    while i < entries.len()
        invariant
            i <= entries.len(),
            ev == entries_view(entries@),
            q@ == lower_seq(trim(query@)),
            q@.len() > 0,
            idx_view(out@) == provider_filter(ev.take(i as int), query@),
        decreases entries.len() - i,
    {
        proof {
            assert(ev.take(i + 1).drop_last() =~= ev.take(i as int));
            assert(ev.take(i + 1).last() == entries@[i as int]@);
        }
        let e = &entries[i];
        if contains_exec(&lower_chars(&chars_of(e.provider_id.as_str())), &q) || contains_exec(
            &lower_chars(&chars_of(e.display_name.as_str())),
            &q,
        ) {
            let ghost before = idx_view(out@);
            out.push(i);
            proof {
                assert(idx_view(out@) =~= before.push(i as int));
            }
        }
        i = i + 1;
    }
    proof {
        assert(ev.take(entries.len() as int) =~= ev);
    }
    out
}

// ── Connecting ──────────────────────────────────────────────────────────────

/// A way the credentials store can sign in to a provider.
#[derive(Debug, Clone, Copy, PartialEq, Eq, Structural)]
pub enum AuthMethod {
    OAuthDeviceCode,
    ApiKey,
    OAuthBrowser,
}

/// A choice offered in the provider manager.
#[derive(Debug, Clone, Copy, PartialEq, Eq, Structural)]
pub enum ConnectMethod {
    ApiKey,
    OAuthDeviceCode,
    Disconnect,
}

/// The choices for the sign-in methods `auth`: each device-code or API-key
/// method in order (browser sign-in is not offered).
pub open spec fn auth_choices(auth: Seq<AuthMethod>) -> Seq<ConnectMethod>
    decreases auth.len(),
{
    if auth.len() == 0 {
        Seq::empty()
    } else {
        let rest = auth_choices(auth.drop_last());
        match auth.last() {
            AuthMethod::OAuthDeviceCode => rest.push(ConnectMethod::OAuthDeviceCode),
            AuthMethod::ApiKey => rest.push(ConnectMethod::ApiKey),
            AuthMethod::OAuthBrowser => rest,
        }
    }
}

/// The choices for a provider: those of its sign-in methods, then the API
/// key when they do not offer it (the API key is always offered), then
/// Disconnect when it is connected.
pub open spec fn connect_choices(auth: Seq<AuthMethod>, connected: bool) -> Seq<ConnectMethod> {
    auth_choices(auth) + (if auth.contains(AuthMethod::ApiKey) {
        Seq::empty()
    } else {
        seq![ConnectMethod::ApiKey]
    }) + if connected {
        seq![ConnectMethod::Disconnect]
    } else {
        Seq::empty()
    }
}

pub fn provider_connect_methods(auth_methods: &Vec<AuthMethod>, connected: bool) -> (r: Vec<ConnectMethod>)
    ensures
        r@ == connect_choices(auth_methods@, connected),
        r@.contains(ConnectMethod::ApiKey),
        r@.contains(ConnectMethod::Disconnect) <==> connected,
        connected ==> r@.last() == ConnectMethod::Disconnect,
        r@.contains(ConnectMethod::OAuthDeviceCode) <==> auth_methods@.contains(AuthMethod::OAuthDeviceCode),
{
    let mut out: Vec<ConnectMethod> = Vec::new();
    let mut has_api = false;
    let mut i: usize = 0;
    while i < auth_methods.len()
        invariant
            i <= auth_methods.len(),
            out@ == auth_choices(auth_methods@.take(i as int)),
            has_api == auth_methods@.take(i as int).contains(AuthMethod::ApiKey),
        decreases auth_methods.len() - i,
    {
        proof {
            assert(auth_methods@.take(i + 1).drop_last() =~= auth_methods@.take(i as int));
            assert(auth_methods@.take(i + 1).last() == auth_methods@[i as int]);
            assert(auth_methods@.take(i + 1) =~= auth_methods@.take(i as int).push(auth_methods@[i as int]));
        }
        match auth_methods[i] {
            AuthMethod::OAuthDeviceCode => out.push(ConnectMethod::OAuthDeviceCode),
            AuthMethod::ApiKey => {
                out.push(ConnectMethod::ApiKey);
                has_api = true;
            },
            AuthMethod::OAuthBrowser => {},
        }
        i = i + 1;
    }
    proof {
        assert(auth_methods@.take(i as int) =~= auth_methods@);
    }
    let ghost base = out@;
    if !has_api {
        out.push(ConnectMethod::ApiKey);
    }
    let ghost with_key = out@;
    if connected {
        out.push(ConnectMethod::Disconnect);
    }
    proof {
        lemma_auth_choices(auth_methods@);
        if has_api {
            assert(with_key =~= base + Seq::<ConnectMethod>::empty());
        } else {
            assert(with_key =~= base + seq![ConnectMethod::ApiKey]);
        }
        if connected {
            assert(out@ =~= with_key + seq![ConnectMethod::Disconnect]);
            assert(out@.last() == ConnectMethod::Disconnect);
        } else {
            assert(out@ =~= with_key + Seq::<ConnectMethod>::empty());
        }
        assert(with_key.contains(ConnectMethod::ApiKey)) by {
            if has_api {
                let j = choose|j: int| 0 <= j < auth_methods@.len() && auth_methods@[j] == AuthMethod::ApiKey;
                assert(auth_choices(auth_methods@).contains(ConnectMethod::ApiKey));
            } else {
                assert(with_key[with_key.len() - 1] == ConnectMethod::ApiKey);
            }
        }
        assert(out@.contains(ConnectMethod::ApiKey)) by {
            let j = choose|j: int| 0 <= j < with_key.len() && with_key[j] == ConnectMethod::ApiKey;
            assert(out@[j] == ConnectMethod::ApiKey);
        }
        if connected {
            assert(out@[out@.len() - 1] == ConnectMethod::Disconnect);
        } else {
            assert(!out@.contains(ConnectMethod::Disconnect));
        }
        if out@.contains(ConnectMethod::OAuthDeviceCode) {
            let j = choose|j: int| 0 <= j < out@.len() && out@[j] == ConnectMethod::OAuthDeviceCode;
            assert(j < base.len());
            assert(base[j] == ConnectMethod::OAuthDeviceCode);
        }
        if auth_methods@.contains(AuthMethod::OAuthDeviceCode) {
            let j = choose|j: int| 0 <= j < base.len() && base[j] == ConnectMethod::OAuthDeviceCode;
            assert(out@[j] == ConnectMethod::OAuthDeviceCode);
        }
    }
    out
}

/// The choices of `auth_choices` are device-code choices exactly when the
/// methods offer device-code sign-in, API-key choices exactly when they
/// offer an API key, and never Disconnect.
pub proof fn lemma_auth_choices(auth: Seq<AuthMethod>)
    ensures
        auth_choices(auth).contains(ConnectMethod::OAuthDeviceCode) <==> auth.contains(AuthMethod::OAuthDeviceCode),
        auth_choices(auth).contains(ConnectMethod::ApiKey) <==> auth.contains(AuthMethod::ApiKey),
        !auth_choices(auth).contains(ConnectMethod::Disconnect),
    decreases auth.len(),
{
    if auth.len() > 0 {
        let d = auth.drop_last();
        lemma_auth_choices(d);
        let rest = auth_choices(d);
        assert(auth =~= d.push(auth.last()));
        assert forall|m: AuthMethod| auth.contains(m) <==> (d.contains(m) || auth.last() == m) by {
            if auth.contains(m) {
                let j = choose|j: int| 0 <= j < auth.len() && auth[j] == m;
                if j < d.len() {
                    assert(d[j] == m);
                }
            }
            if d.contains(m) {
                let j = choose|j: int| 0 <= j < d.len() && d[j] == m;
                assert(auth[j] == m);
            }
        }
        assert forall|x: ConnectMethod, y: ConnectMethod| rest.push(y).contains(x) <==> (rest.contains(x) || y == x) by {
            if rest.push(y).contains(x) {
                let j = choose|j: int| 0 <= j < rest.push(y).len() && rest.push(y)[j] == x;
                if j < rest.len() {
                    assert(rest[j] == x);
                }
            }
            if rest.contains(x) {
                let j = choose|j: int| 0 <= j < rest.len() && rest[j] == x;
                assert(rest.push(y)[j] == x);
            }
            if y == x {
                assert(rest.push(y)[rest.len() as int] == x);
            }
        }
    } else {
        assert(auth_choices(auth) =~= Seq::<ConnectMethod>::empty());
    }
}

/// The label and explanation of a connect choice.
pub open spec fn method_text(m: ConnectMethod) -> (Seq<char>, Seq<char>) {
    match m {
        ConnectMethod::ApiKey => ("API Key"@, "paste a key directly"@),
        ConnectMethod::OAuthDeviceCode => ("OAuth Device Code"@, "browser auth — no redirect needed"@),
        ConnectMethod::Disconnect => ("Disconnect"@, "remove stored credentials"@),
    }
}

pub fn method_label_detail(method: ConnectMethod) -> (r: (&'static str, &'static str))
    ensures
        (r.0@, r.1@) == method_text(method),
{
    match method {
        ConnectMethod::ApiKey => ("API Key", "paste a key directly"),
        ConnectMethod::OAuthDeviceCode => ("OAuth Device Code", "browser auth — no redirect needed"),
        ConnectMethod::Disconnect => ("Disconnect", "remove stored credentials"),
    }
}

// ── Keys of the steps ───────────────────────────────────────────────────────

/// What a key does while a connect choice is being picked.
#[derive(Debug, Clone, Copy, PartialEq, Eq, Structural)]
pub enum MethodStep {
    /// Esc: back to the provider list.
    BackToList,
    Select(usize),
    /// Enter on a choice.
    Choose(ConnectMethod),
    Keep,
}

pub open spec fn method_step_spec(k: Key, selected: nat, methods: Seq<ConnectMethod>) -> MethodStep {
    if k == Key::Esc {
        MethodStep::BackToList
    } else if k == Key::Up {
        MethodStep::Select(if selected > 0 { (selected - 1) as usize } else { 0 })
    } else if k == Key::Down {
        MethodStep::Select(select_next_spec(selected, methods.len()) as usize)
    } else if k == Key::Enter && selected < methods.len() {
        MethodStep::Choose(methods[selected as int])
    } else {
        MethodStep::Keep
    }
}

pub fn method_select_key(k: Key, selected: usize, methods: &Vec<ConnectMethod>) -> (r: MethodStep)
    ensures
        r == method_step_spec(k, selected as nat, methods@),
{
    if k == Key::Esc {
        MethodStep::BackToList
    } else if k == Key::Up {
        MethodStep::Select(selected.saturating_sub(1))
    } else if k == Key::Down {
        MethodStep::Select(select_next(selected, methods.len()))
    } else if k == Key::Enter && selected < methods.len() {
        MethodStep::Choose(methods[selected])
    } else {
        MethodStep::Keep
    }
}

/// What a key does in the API key field.
#[derive(Debug, PartialEq, Eq)]
pub enum ApiKeyStep {
    /// Esc: back to the connect choices.
    Back,
    /// Enter on a blank field: ask for a key.
    Empty,
    /// Enter: store `key` (the field, trimmed).
    Save(String),
    /// The field after the key.
    Edit { input: String, cursor: usize },
}

/// The API key field edits like the rename field; Enter stores the key
/// trimmed, or asks for one when the field is blank.
pub fn api_key_input_key(input: &str, cursor: usize, kp: KeyPress) -> (r: ApiKeyStep)
    requires
        cursor < usize::MAX,
    ensures
        match rename_spec(input@, cursor as nat, kp) {
            RenameSpec::Cancel => r == ApiKeyStep::Back,
            RenameSpec::Submit(None) => r == ApiKeyStep::Empty,
            RenameSpec::Submit(Some(t)) => r matches ApiKeyStep::Save(k) && k@ == trim(t),
            RenameSpec::Edit(s, c) => r matches ApiKeyStep::Edit { input: i, cursor: c2 } && i@ == s
                && c2 == c,
        },
{
    match rename_input_key(input, cursor, kp) {
        RenameStep::Cancel => ApiKeyStep::Back,
        RenameStep::Submit { title: None } => ApiKeyStep::Empty,
        RenameStep::Submit { title: Some(t) } => ApiKeyStep::Save(
            string_of(trim_chars(&chars_of(t.as_str())).as_slice()),
        ),
        RenameStep::Edit { input, cursor } => ApiKeyStep::Edit { input, cursor },
    }
}


/// The warning when Enter is pressed on a blank API key field (three
/// seconds); `None` for the other steps.
pub fn api_key_notice(step: &ApiKeyStep) -> (r: Option<Notice>)
    ensures
        step is Empty ==> (r matches Some(n) && n.variant == ToastVariant::Warning
            && n.message@ == "API key must not be empty"@ && n.ttl_ms == 3000),
        !(step is Empty) ==> r is None,
{
    match step {
        ApiKeyStep::Empty => Some(
            Notice { variant: ToastVariant::Warning, message: "API key must not be empty".to_owned(), ttl_ms: 3000 },
        ),
        _ => None,
    }
}


// ── What the provider manager shows ─────────────────────────────────────────

/// A provider's row: `[+]` when connected (else `[ ]`), a space, its display
/// name, two spaces and its id in brackets.
pub open spec fn provider_row_spec(e: EntryView) -> Seq<char> {
    (if e.2 { "[+]"@ } else { "[ ]"@ }) + " "@ + e.1 + "  ("@ + e.0 + ")"@
}

pub fn provider_row_text(e: &ProviderEntry) -> (r: String)
    ensures
        r@ == provider_row_spec(e@),
{
    let mut v = if e.connected {
        chars_of("[+]")
    } else {
        chars_of("[ ]")
    };
    crate::text::push_all(&mut v, &chars_of(" "));
    crate::text::push_all(&mut v, &chars_of(e.display_name.as_str()));
    crate::text::push_all(&mut v, &chars_of("  ("));
    crate::text::push_all(&mut v, &chars_of(e.provider_id.as_str()));
    crate::text::push_all(&mut v, &chars_of(")"));
    string_of(v.as_slice())
}

/// The provider list as shown: its title `Providers (shown/total)`, the rows
/// of the entries in `view` (indices past the entries are skipped), or
/// `(no matches)` when the view is empty, and the highlighted row (the
/// selection, kept within the rows).
pub struct ProviderListView {
    pub title: String,
    pub rows: Vec<String>,
    pub highlighted: Option<usize>,
}

/// The rows of the entries that `view` names, in its order.
pub open spec fn shown_rows(entries: Seq<EntryView>, view: Seq<usize>) -> Seq<Seq<char>>
    decreases view.len(),
{
    if view.len() == 0 {
        Seq::empty()
    } else {
        let rest = shown_rows(entries, view.drop_last());
        if view.last() < entries.len() {
            rest.push(provider_row_spec(entries[view.last() as int]))
        } else {
            rest
        }
    }
}

pub fn provider_list_view(entries: &Vec<ProviderEntry>, view: &Vec<usize>, selected: usize) -> (r: ProviderListView)
    ensures
        r.title@ == "Providers ("@ + crate::text::decimal(view@.len()) + "/"@ + crate::text::decimal(
            entries@.len(),
        ) + ")"@,
        view@.len() == 0 ==> r.rows@.map_values(|x: String| x@) == seq!["(no matches)"@] && r.highlighted
            is None,
        view@.len() > 0 ==> r.rows@.map_values(|x: String| x@) == shown_rows(entries_view(entries@), view@)
            && r.highlighted == Some(
            if selected < view@.len() {
                selected
            } else {
                (view@.len() - 1) as usize
            },
        ),
{
    let mut t = chars_of("Providers (");
    crate::text::push_all(&mut t, &crate::text::decimal_of(view.len() as u64));
    crate::text::push_all(&mut t, &chars_of("/"));
    crate::text::push_all(&mut t, &crate::text::decimal_of(entries.len() as u64));
    crate::text::push_all(&mut t, &chars_of(")"));
    let title = string_of(t.as_slice());
    if view.len() == 0 {
        let mut rows: Vec<String> = Vec::new();
        rows.push("(no matches)".to_owned());
        proof {
            assert(rows@.map_values(|x: String| x@) =~= seq!["(no matches)"@]);
        }
        return ProviderListView { title, rows, highlighted: None };
    }
    let mut rows: Vec<String> = Vec::new();
    let mut i: usize = 0;
    while i < view.len()
        invariant
            i <= view.len(),
            rows@.map_values(|x: String| x@) == shown_rows(entries_view(entries@), view@.take(i as int)),
        decreases view.len() - i,
    {
        proof {
            assert(view@.take(i as int + 1).drop_last() =~= view@.take(i as int));
            assert(view@.take(i as int + 1).last() == view@[i as int]);
        }
        let idx = view[i];
        if idx < entries.len() {
            let ghost before = rows@.map_values(|x: String| x@);
            let row = provider_row_text(&entries[idx]);
            rows.push(row);
            proof {
                assert(rows@.map_values(|x: String| x@) =~= before.push(row@));
            }
        }
        i = i + 1;
    }
    proof {
        assert(view@.take(view.len() as int) =~= view@);
    }
    let h = if selected < view.len() {
        selected
    } else {
        view.len() - 1
    };
    ProviderListView { title, rows, highlighted: Some(h) }
}

/// The hint above the API key field: where the key may come from instead.
pub fn api_key_hint(env_hint: Option<&str>) -> (r: String)
    ensures
        r@ == match env_hint {
            Some(env) => "Paste your API key below, or export "@ + env@ + " in your shell."@,
            None => "Paste your API key below."@,
        },
{
    match env_hint {
        Some(env) => crate::text::concat3("Paste your API key below, or export ", env, " in your shell."),
        None => "Paste your API key below.".to_owned(),
    }
}

/// The API key field as shown: one `*` per character of the key.
pub fn masked_key(input: &str) -> (r: String)
    ensures
        r@ == Seq::new(input@.len(), |_i: int| '*'),
{
    let v = chars_of(input);
    let mut m: Vec<char> = Vec::new();
    let mut i: usize = 0;
    while i < v.len()
        invariant
            i <= v.len(),
            m@ == Seq::new(i as nat, |_i: int| '*'),
        decreases v.len() - i,
    {
        m.push('*');
        proof {
            assert(m@ =~= Seq::new((i + 1) as nat, |_i: int| '*'));
        }
        i = i + 1;
    }
    string_of(m.as_slice())
}

/// The titles of the manager's steps: connecting to a provider and entering
/// its API key.
pub fn connect_title(display_name: &str) -> (r: String)
    ensures
        r@ == "Connect: "@ + display_name@,
{
    crate::text::concat2("Connect: ", display_name)
}

pub fn api_key_title(display_name: &str) -> (r: String)
    ensures
        r@ == "API key — "@ + display_name@,
{
    crate::text::concat2("API key — ", display_name)
}


/// The connect choices of one provider, as the manager shows them.
pub struct MethodSelectState {
    pub provider_id: String,
    pub display_name: String,
    pub methods: Vec<ConnectMethod>,
    pub selected: usize,
}

/// Esc in the API key field: back to the connect choices of `provider_id`
/// (with sign-in methods `auth_methods`), listed as for a provider that is
/// not connected, the first one highlighted.
pub fn back_to_methods(provider_id: &str, auth_methods: &Vec<AuthMethod>) -> (r: MethodSelectState)
    ensures
        r.provider_id@ == provider_id@,
        r.display_name@ == match lookup(catalog(), provider_id@) {
            Some(p) => p.1,
            None => provider_id@,
        },
        r.methods@ == connect_choices(auth_methods@, false),
        r.selected == 0,
{
    MethodSelectState {
        provider_id: string_of(chars_of(provider_id).as_slice()),
        display_name: provider_display_name(provider_id),
        methods: provider_connect_methods(auth_methods, false),
        selected: 0,
    }
}

/// The notice after an API key was stored (or storing it failed).
pub fn api_key_saved_notice(display_name: &str, saved: &Result<(), String>) -> (r: Notice)
    ensures
        match saved {
            Ok(()) => r.variant == ToastVariant::Success && r.message@ == display_name@ + " connected!"@
                && r.ttl_ms == 4000,
            Err(e) => r.variant == ToastVariant::Error && r.message@ == "failed to save key: "@ + e@
                && r.ttl_ms == 5000,
        },
{
    match saved {
        Ok(()) => Notice {
            variant: ToastVariant::Success,
            message: crate::text::concat2(display_name, " connected!"),
            ttl_ms: 4000,
        },
        Err(e) => Notice {
            variant: ToastVariant::Error,
            message: crate::text::concat2("failed to save key: ", e.as_str()),
            ttl_ms: 5000,
        },
    }
}

} // verus!
