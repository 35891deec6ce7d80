//! How providers are set up: what they are told apart by, the keys they are asked with, and which
//! models they have.

use crate::json::Json;
use crate::provider::{self, ActiveProviderModelConfig};
use crate::text;
use crate::textmap::TextMap;
use vstd::prelude::*;

verus! {

/// What providers have where nothing else is said, and the vendor of the local coding agent, as
/// it stands in names and as it is shown. Temperatures are given by their bits.
#[derive(Debug)]
pub struct ProviderDefaults {
    pub vendor: String,
    pub vendor_title: String,
    pub protocol: String,
    pub timeout_seconds: u64,
    pub temperature_bits: u32,
    pub anthropic_max_tokens: u32,
    pub opencode_id: String,
    pub opencode_url: String,
    pub opencode_model: String,
}

/// A provider. Temperatures are given by their bits.
#[derive(Debug)]
pub struct ProviderConfig {
    pub id: String,
    pub display_name: String,
    pub base_url: String,
    pub enabled: bool,
    pub protocol: String,
    pub api_key: Option<String>,
    pub models: Vec<String>,
    pub model_context_window: TextMap<usize>,
    pub model_temperature: TextMap<u32>,
    pub model_tools_loading_mode: TextMap<String>,
    pub model_modalities: TextMap<Vec<String>>,
    pub tool_result_media: Option<bool>,
    /// The prices that are set by hand, by model.
    pub model_costs: TextMap<Json>,
    pub default_model: String,
    pub timeout_seconds: u64,
    pub temperature_bits: u32,
    pub anthropic_max_tokens: u32,
    pub extra_body: Option<Json>,
}

/// What a model takes in, as the public catalog says it.
#[derive(Debug)]
pub struct CatalogEntry {
    pub provider_id: String,
    pub model: String,
    pub modalities: Vec<String>,
}

/// The public catalog of models.
#[derive(Debug)]
pub struct ModelCatalog {
    pub entries: Vec<CatalogEntry>,
}

/// What the catalog says of a model, from `i` on.
pub open spec fn cataloged(
    entries: Seq<CatalogEntry>,
    provider_id: Seq<char>,
    model: Seq<char>,
    i: int,
) -> Option<Seq<Seq<char>>>
    decreases entries.len() - i,
{
    if i < 0 || i >= entries.len() {
        None
    } else if entries[i].provider_id@ == provider_id && entries[i].model@ == model {
        Some(text::views(entries[i].modalities@))
    } else {
        cataloged(entries, provider_id, model, i + 1)
    }
}

/// The view of an optional list of texts.
pub open spec fn opt_views(v: Option<Vec<String>>) -> Option<Seq<Seq<char>>> {
    match v {
        Some(list) => Some(text::views(list@)),
        None => None,
    }
}

/// A list of texts once more.
pub fn copy_texts(v: &Vec<String>) -> (r: Vec<String>)
    ensures
        text::views(r@) == text::views(v@),
{
    let mut out = provider::no_texts();
    let mut i: usize = 0;
    assert(text::views(v@).take(0) =~= Seq::<Seq<char>>::empty());
    while i < v.len()
        invariant
            i <= v@.len(),
            text::views(out@) == text::views(v@).take(i as int),
        decreases v@.len() - i,
    {
        out = provider::with_text(out, v[i].as_str());
        assert(text::views(v@).take(i + 1) =~= text::views(v@).take(i as int).push(v@[i as int]@));
        i = i + 1;
    }
    assert(text::views(v@).take(v@.len() as int) =~= text::views(v@));
    out
}

/// Whether `s` stands in a list of texts.
pub fn contains_text(v: &Vec<String>, s: &str) -> (r: bool)
    ensures
        r == text::views(v@).contains(s@),
{
    let mut i: usize = 0;
    while i < v.len()
        invariant
            i <= v@.len(),
            forall|k: int| 0 <= k < i ==> text::views(v@)[k] != s@,
        decreases v@.len() - i,
    {
        if text::same(v[i].as_str(), s) {
            assert(text::views(v@)[i as int] == s@);
            return true;
        }
        i = i + 1;
    }
    assert(text::views(v@).len() == v@.len());
    false
}

impl ModelCatalog {
    /// What the catalog says of a model.
    pub fn input_modalities(&self, provider_id: &str, model: &str) -> (r: Option<Vec<String>>)
        ensures
            opt_views(r) == cataloged(self.entries@, provider_id@, model@, 0),
    {
        let mut i: usize = 0;
        while i < self.entries.len()
            invariant
                i <= self.entries@.len(),
                cataloged(self.entries@, provider_id@, model@, 0) == cataloged(
                    self.entries@,
                    provider_id@,
                    model@,
                    i as int,
                ),
            decreases self.entries@.len() - i,
        {
            let e = &self.entries[i];
            if text::same(e.provider_id.as_str(), provider_id) && text::same(
                e.model.as_str(),
                model,
            ) {
                return Some(copy_texts(&e.modalities));
            }
            i = i + 1;
        }
        None
    }
}

/// Whether two texts are the same but for the case of ASCII letters.
pub open spec fn same_word(a: Seq<char>, b: Seq<char>) -> bool {
    text::lowered(a) == text::lowered(b)
}

fn is_word(a: &str, b: &str) -> (r: bool)
    ensures
        r == same_word(a@, b@),
{
    text::same(text::to_ascii_lowercase(a).as_str(), text::to_ascii_lowercase(b).as_str())
}

/// `s` without any `p` at its start, however often it stands there.
pub open spec fn without_prefixes(s: Seq<char>, p: Seq<char>) -> Seq<char>
    decreases s.len(),
{
    if p.len() > 0 && text::begins(s, p) {
        without_prefixes(s.skip(p.len() as int), p)
    } else {
        s
    }
}

fn strip_prefixes(s: &str, p: &str) -> (r: String)
    ensures
        r@ == without_prefixes(s@, p@),
{
    let mut rest = s.to_owned();
    if p.is_empty() {
        return rest;
    }
    loop
        invariant
            p@.len() > 0,
            without_prefixes(s@, p@) == without_prefixes(rest@, p@),
        ensures
            without_prefixes(s@, p@) == rest@,
        decreases rest@.len(),
    {
        match text::strip_prefix(rest.as_str(), p) {
            Some(t) => {
                rest = t;
            },
            None => {
                break;
            },
        }
    }
    rest
}

/// The host of an address, in lower case.
pub open spec fn host(url: Seq<char>) -> Seq<char> {
    text::lowered(
        text::before(
            without_prefixes(without_prefixes(text::trimmed(url), "https://"@), "http://"@),
            "/"@,
        ),
    )
}

fn host_of(url: &str) -> (r: String)
    ensures
        r@ == host(url@),
{
    let trimmed = text::trim(url);
    let plain = strip_prefixes(trimmed.as_str(), "https://");
    let bare = strip_prefixes(plain.as_str(), "http://");
    text::to_ascii_lowercase(text::until(bare.as_str(), "/").as_str())
}

/// A key that a provider is asked with.
#[derive(Debug, Clone)]
pub struct ResolvedProviderKey {
    pub index: usize,
    pub value: String,
}

/// Why a provider has no keys.
#[derive(Debug)]
pub enum KeyError {
    /// An environment variable that a key stands in is not set.
    Unset { variable: String },
    /// There is no key for this provider.
    NoKey { provider: String },
}

impl KeyError {
    /// What is said of it.
    pub fn message(&self) -> (r: String)
        ensures
            r@ == match *self {
                KeyError::Unset { variable } => "environment variable "@ + variable@
                    + " is not set"@,
                KeyError::NoKey { provider } => "missing API key for provider "@ + provider@,
            },
    {
        match self {
            KeyError::Unset { variable } => text::cat3(
                "environment variable ",
                variable.as_str(),
                " is not set",
            ),
            KeyError::NoKey { provider } => text::cat2(
                "missing API key for provider ",
                provider.as_str(),
            ),
        }
    }
}

/// The trimmed pieces among the first `n` that are not empty.
pub open spec fn filled_pieces(ps: Seq<Seq<char>>, n: nat) -> Seq<Seq<char>>
    decreases n,
{
    if n == 0 {
        Seq::empty()
    } else {
        let before = filled_pieces(ps, (n - 1) as nat);
        let p = text::trimmed(ps[n - 1]);
        if p.len() > 0 {
            before.push(p)
        } else {
            before
        }
    }
}

/// The keys on the first `n` lines.
pub open spec fn keys_on(lines: Seq<Seq<char>>, n: nat) -> Seq<Seq<char>>
    decreases n,
{
    if n == 0 {
        Seq::empty()
    } else {
        let ps = text::pieces(lines[n - 1], ',');
        keys_on(lines, (n - 1) as nat) + filled_pieces(ps, ps.len())
    }
}

/// The keys in a text: what stands between commas and line ends, as far as it is anything.
pub open spec fn key_list(raw: Seq<char>) -> Seq<Seq<char>> {
    let lines = text::line_list(raw);
    keys_on(lines, lines.len())
}

/// The keys in a text: what stands between commas and line ends, as far as it is anything.
pub fn split_api_keys(raw: &str) -> (r: Vec<String>)
    ensures
        text::views(r@) == key_list(raw@),
{
    let lines = text::lines(raw);
    let ghost all = text::views(lines@);
    let mut out = provider::no_texts();
    let mut i: usize = 0;
    while i < lines.len()
        invariant
            i <= lines@.len(),
            all == text::views(lines@),
            text::views(out@) == keys_on(all, i as nat),
        decreases lines@.len() - i,
    {
        let ps = text::split(lines[i].as_str(), ',');
        let ghost before = text::views(out@);
        let ghost pieces = text::views(ps@);
        assert(before + filled_pieces(pieces, 0) =~= before);
        let mut k: usize = 0;
        while k < ps.len()
            invariant
                k <= ps@.len(),
                pieces == text::views(ps@),
                text::views(out@) == before + filled_pieces(pieces, k as nat),
            decreases ps@.len() - k,
        {
            let p = text::trim(ps[k].as_str());
            if !p.as_str().is_empty() {
                out = provider::with_text(out, p.as_str());
                assert(text::views(out@) =~= before + filled_pieces(pieces, (k + 1) as nat));
            }
            k = k + 1;
        }
        i = i + 1;
    }
    out
}

/// The value of a key: that of an environment variable where it names one.
pub open spec fn key_value(
    item: Seq<char>,
    env: Map<Seq<char>, String>,
) -> Result<Seq<char>, Seq<char>> {
    if text::begins(item, "$env:"@) {
        let name = item.skip("$env:"@.len() as int);
        if env.contains_key(name) {
            Ok(text::trimmed(env[name]@))
        } else {
            Err(name)
        }
    } else {
        Ok(text::trimmed(item))
    }
}

/// The values of the first `n` keys that are not empty, or the first variable that is not set.
pub open spec fn key_values(
    items: Seq<Seq<char>>,
    env: Map<Seq<char>, String>,
    n: nat,
) -> Result<Seq<Seq<char>>, Seq<char>>
    decreases n,
{
    if n == 0 {
        Ok(Seq::empty())
    } else {
        match key_values(items, env, (n - 1) as nat) {
            Ok(before) => match key_value(items[n - 1], env) {
                Ok(v) => Ok(
                    if v.len() > 0 {
                        before.push(v)
                    } else {
                        before
                    },
                ),
                Err(name) => Err(name),
            },
            Err(name) => Err(name),
        }
    }
}

/// The values of the first `n` keys that are not empty, up to the first variable that is not set.
pub open spec fn values_found(
    items: Seq<Seq<char>>,
    env: Map<Seq<char>, String>,
    n: nat,
) -> Seq<Seq<char>>
    decreases n,
{
    if n == 0 {
        Seq::empty()
    } else {
        match key_values(items, env, n) {
            Ok(values) => values,
            Err(_) => values_found(items, env, (n - 1) as nat),
        }
    }
}

/// A variable that is not set stays missing however many more keys are looked at.
proof fn lemma_unset(items: Seq<Seq<char>>, env: Map<Seq<char>, String>, i: nat, n: nat)
    requires
        i <= n,
        key_values(items, env, i) is Err,
    ensures
        key_values(items, env, n) == key_values(items, env, i),
        values_found(items, env, n) == values_found(items, env, i),
    decreases n,
{
    if i < n {
        lemma_unset(items, env, i, (n - 1) as nat);
    }
}

/// The values of a list of keys.
pub open spec fn key_texts(keys: Seq<ResolvedProviderKey>) -> Seq<Seq<char>> {
    keys.map_values(|k: ResolvedProviderKey| k.value@)
}

/// Whether every key, from one place on, bears its place in the list.
pub open spec fn numbered_from(keys: Seq<ResolvedProviderKey>, from: int) -> bool {
    forall|i: int| from <= i < keys.len() ==> (#[trigger] keys[i]).index == i
}

/// Whether every key bears its place in the list.
pub open spec fn numbered(keys: Seq<ResolvedProviderKey>) -> bool {
    forall|i: int| 0 <= i < keys.len() ==> (#[trigger] keys[i]).index == i
}

/// Appends the keys in a text, each with its place in the list. Where a variable is not set, the
/// keys before it have been appended.
pub fn append_resolved_api_keys(
    out: &mut Vec<ResolvedProviderKey>,
    raw: &str,
    env: &TextMap<String>,
) -> (r: Result<(), KeyError>)
    ensures
        numbered_from(final(out)@, old(out)@.len() as int),
        final(out)@.len() >= old(out)@.len(),
        final(out)@.take(old(out)@.len() as int) == old(out)@,
        key_texts(final(out)@) == key_texts(old(out)@) + values_found(
            key_list(raw@),
            env@,
            key_list(raw@).len(),
        ),
        match key_values(key_list(raw@), env@, key_list(raw@).len()) {
            Ok(values) => r is Ok,
            Err(name) => r matches Err(KeyError::Unset { variable }) && variable@ == name,
        },
{
    let items = split_api_keys(raw);
    let ghost all = key_list(raw@);
    let ghost start = out@;
    let ghost before = key_texts(out@);
    proof {
        assert(text::views(items@).len() == items@.len());
        assert(before + Seq::<Seq<char>>::empty() =~= before);
        assert(start.take(start.len() as int) =~= start);
    }
    let mut i: usize = 0;
    while i < items.len()
        invariant
            i <= items@.len(),
            all == text::views(items@),
            all.len() == items@.len(),
            all == key_list(raw@),
            start == old(out)@,
            before == key_texts(start),
            out@.len() >= start.len(),
            out@.take(start.len() as int) == start,
            numbered_from(out@, start.len() as int),
            key_values(all, env@, i as nat) matches Ok(values) && key_texts(out@) == before
                + values,
        decreases items@.len() - i,
    {
        let item = items[i].as_str();
        assert(all[i as int] == item@);
        let ghost values = key_values(all, env@, i as nat)->Ok_0;
        let value = match text::strip_prefix(item, "$env:") {
            Some(name) => match env.get(name.as_str()) {
                Some(v) => text::trim(v.as_str()),
                None => {
                    proof {
                        lemma_unset(all, env@, (i + 1) as nat, all.len());
                        assert(values_found(all, env@, (i + 1) as nat) == values_found(
                            all,
                            env@,
                            i as nat,
                        ));
                    }
                    return Err(KeyError::Unset { variable: name });
                },
            },
            None => text::trim(item),
        };
        if !value.as_str().is_empty() {
            let key = ResolvedProviderKey { index: out.len(), value };
            let ghost had = key_texts(out@);
            let ghost list = out@;
            out.push(key);
            assert(out@.take(start.len() as int) =~= list.take(start.len() as int));
            assert(key_texts(out@) =~= had.push(key.value@));
            assert(had.push(key.value@) =~= before + values.push(key.value@));
        }
        i = i + 1;
    }
    Ok(())
}

impl ProviderConfig {
    /// Whether the protocol is one of the local coding agent's.
    pub open spec fn speaks_claude_code(self, defaults: ProviderDefaults) -> bool {
        let p = text::trimmed(self.protocol@);
        let protocol = provider::claude_code_protocol(defaults.vendor@);
        same_word(p, protocol) || same_word(p, protocol + "-cli"@)
    }

    /// Whether the protocol is one of the local Codex program's.
    pub open spec fn speaks_codex(self) -> bool {
        let p = text::trimmed(self.protocol@);
        same_word(p, provider::CODEX_PROTOCOL@) || same_word(p, "codex-cli"@)
    }

    /// Whether the protocol is one of the local Antigravity program's.
    pub open spec fn speaks_antigravity(self) -> bool {
        let p = text::trimmed(self.protocol@);
        same_word(p, provider::ANTIGRAVITY_PROTOCOL@) || same_word(p, "antigravity-cli"@)
            || same_word(p, "agy"@)
    }

    /// Whether the provider is a local program.
    pub open spec fn is_local_program(self, defaults: ProviderDefaults) -> bool {
        self.speaks_claude_code(defaults) || self.speaks_antigravity() || self.speaks_codex()
    }

    /// Whether the provider is the local coding agent.
    pub fn is_claude_code(&self, defaults: &ProviderDefaults) -> (r: bool)
        ensures
            r == self.speaks_claude_code(*defaults),
    {
        let p = text::trim(self.protocol.as_str());
        let protocol = text::cat2(defaults.vendor.as_str(), "-code");
        let cli = text::cat2(protocol.as_str(), "-cli");
        is_word(p.as_str(), protocol.as_str()) || is_word(p.as_str(), cli.as_str())
    }

    /// Whether the provider is the local Codex program.
    pub fn is_codex(&self) -> (r: bool)
        ensures
            r == self.speaks_codex(),
    {
        let p = text::trim(self.protocol.as_str());
        is_word(p.as_str(), provider::CODEX_PROTOCOL) || is_word(p.as_str(), "codex-cli")
    }

    /// Whether the provider is the local Antigravity program.
    pub fn is_antigravity(&self) -> (r: bool)
        ensures
            r == self.speaks_antigravity(),
    {
        let p = text::trim(self.protocol.as_str());
        is_word(p.as_str(), provider::ANTIGRAVITY_PROTOCOL) || is_word(
            p.as_str(),
            "antigravity-cli",
        ) || is_word(p.as_str(), "agy")
    }

    /// Whether the provider is a local program: it has no address and no key, and always stands
    /// in the list.
    pub fn is_builtin_cli_provider(&self, defaults: &ProviderDefaults) -> (r: bool)
        ensures
            r == self.is_local_program(*defaults),
    {
        self.is_claude_code(defaults) || self.is_antigravity() || self.is_codex()
    }

    /// Whether the result of a tool can hold pictures: as it is set, or by the protocol.
    pub fn tool_result_carries_media(&self, defaults: &ProviderDefaults) -> (r: bool)
        ensures
            r == match self.tool_result_media {
                Some(set) => set,
                None => !self.is_local_program(*defaults) && text::trimmed(self.protocol@)
                    != "anthropic"@ && host(self.base_url@) != "api.openai.com"@,
            },
    {
        match self.tool_result_media {
            Some(set) => set,
            None => {
                if self.is_builtin_cli_provider(defaults) || text::same(
                    text::trim(self.protocol.as_str()).as_str(),
                    "anthropic",
                ) {
                    false
                } else {
                    !text::same(host_of(self.base_url.as_str()).as_str(), "api.openai.com")
                }
            },
        }
    }

    /// The models that a local program has.
    pub open spec fn catalog(self, defaults: ProviderDefaults) -> Seq<Seq<char>> {
        if self.speaks_claude_code(defaults) {
            provider::claude_code_presets()
        } else if self.speaks_antigravity() {
            provider::antigravity_presets(defaults.vendor@)
        } else if self.speaks_codex() {
            provider::codex_presets()
        } else {
            Seq::empty()
        }
    }

    /// The models that a local program has. The list in the configuration is what is in use, not
    /// what there is.
    pub fn preset_model_catalog(&self, defaults: &ProviderDefaults) -> (r: Vec<String>)
        ensures
            text::views(r@) == self.catalog(*defaults),
    {
        if self.is_claude_code(defaults) {
            provider::claude_code_models()
        } else if self.is_antigravity() {
            provider::antigravity_models(defaults.vendor.as_str())
        } else if self.is_codex() {
            provider::codex_models()
        } else {
            provider::no_texts()
        }
    }

    /// The temperature of the chosen model: its own, or the provider's.
    pub fn effective_temperature(&self) -> (r: u32)
        ensures
            r == if self.model_temperature@.contains_key(self.default_model@) {
                self.model_temperature@[self.default_model@]
            } else {
                self.temperature_bits
            },
    {
        match self.model_temperature.get(self.default_model.as_str()) {
            Some(t) => *t,
            None => self.temperature_bits,
        }
    }

    /// What a model takes in within a message: text alone on the Antigravity line, else what is
    /// set for the model, else what the catalog says.
    pub open spec fn modalities(self, model: Seq<char>, catalog: ModelCatalog) -> Option<
        Seq<Seq<char>>,
    > {
        if self.speaks_antigravity() {
            Some(Seq::empty().push("text"@))
        } else if self.model_modalities@.contains_key(model) {
            Some(text::views(self.model_modalities@[model]@))
        } else {
            cataloged(catalog.entries@, self.id@, model, 0)
        }
    }

    /// What a model takes in within a message.
    pub fn input_modalities(&self, model: &str, catalog: &ModelCatalog) -> (r: Option<Vec<String>>)
        ensures
            opt_views(r) == self.modalities(model@, *catalog),
    {
        if self.is_antigravity() {
            return Some(provider::with_text(provider::no_texts(), "text"));
        }
        match self.model_modalities.get(model) {
            Some(list) => Some(copy_texts(list)),
            None => catalog.input_modalities(self.id.as_str(), model),
        }
    }

    /// Whether a model sees pictures, where that is known.
    pub fn supports_vision(&self, model: &str, catalog: &ModelCatalog) -> (r: Option<bool>)
        ensures
            r == match self.modalities(model@, *catalog) {
                Some(list) => Some(list.contains("image"@)),
                None => None,
            },
    {
        match self.input_modalities(model, catalog) {
            Some(list) => Some(contains_text(&list, "image")),
            None => None,
        }
    }

    /// Whether the models look at media with a tool of their own.
    pub fn views_media_with_native_file_tool(&self) -> (r: bool)
        ensures
            r == self.speaks_antigravity(),
    {
        self.is_antigravity()
    }

    /// Whether the provider is the public one.
    pub open spec fn is_public(self, defaults: ProviderDefaults) -> bool {
        (self.id@ == defaults.opencode_id@ || self.id@ == "opencodezen"@) && text::without_trailing(
            self.base_url@,
            '/',
        ) == defaults.opencode_url@
    }

    /// Whether the provider is the public one.
    pub fn is_opencode_zen(&self, defaults: &ProviderDefaults) -> (r: bool)
        ensures
            r == self.is_public(*defaults),
    {
        (text::same(self.id.as_str(), defaults.opencode_id.as_str()) || text::same(
            self.id.as_str(),
            "opencodezen",
        )) && text::same(
            text::trim_end_of(self.base_url.as_str(), '/').as_str(),
            defaults.opencode_url.as_str(),
        )
    }

    /// Whether the model is one that is set up.
    pub open spec fn configures(self, model: Seq<char>) -> bool {
        let m = text::trimmed(model);
        m.len() > 0 && (self.default_model@ == m || text::views(self.models@).contains(m))
    }

    /// Whether the model is one that is set up.
    pub fn has_configured_model(&self, model: &str) -> (r: bool)
        ensures
            r == self.configures(model@),
    {
        let m = text::trim(model);
        !m.as_str().is_empty() && (text::same(self.default_model.as_str(), m.as_str())
            || contains_text(&self.models, m.as_str()))
    }

    /// Whether this is the provider as an early version set it up.
    pub fn is_legacy_default_anthropic_model(&self, defaults: &ProviderDefaults) -> (r: bool)
        ensures
            r == (self.id@ == "anthropic"@ && text::without_trailing(self.base_url@, '/')
                == "https://api.anthropic.com/v1"@ && self.protocol@ == "anthropic"@ && text::opt(
                self.api_key,
            ) == Some("$env:ANTHROPIC_API_KEY"@) && text::views(self.models@)
                == Seq::empty().push(defaults.vendor@ + "-sonnet-4-5"@) && self.default_model@
                == defaults.vendor@ + "-sonnet-4-5"@),
    {
        let model = text::cat2(defaults.vendor.as_str(), "-sonnet-4-5");
        let key = match &self.api_key {
            Some(k) => text::same(k.as_str(), "$env:ANTHROPIC_API_KEY"),
            None => false,
        };
        let one = self.models.len() == 1 && text::same(self.models[0].as_str(), model.as_str());
        proof {
            let v = text::views(self.models@);
            assert(v.len() == self.models@.len());
            if one {
                assert(v =~= Seq::empty().push(model@));
            } else if v == Seq::empty().push(model@) {
                assert(v[0] == model@);
            }
        }
        text::same(self.id.as_str(), "anthropic") && text::same(
            text::trim_end_of(self.base_url.as_str(), '/').as_str(),
            "https://api.anthropic.com/v1",
        ) && text::same(self.protocol.as_str(), "anthropic") && key && one && text::same(
            self.default_model.as_str(),
            model.as_str(),
        )
    }

    /// The values of the provider's keys, before the public one is taken instead.
    pub open spec fn own_keys(self, env: Map<Seq<char>, String>) -> Result<
        Seq<Seq<char>>,
        Seq<char>,
    > {
        match self.api_key {
            Some(raw) => key_values(key_list(raw@), env, key_list(raw@).len()),
            None => Ok(Seq::empty()),
        }
    }

    /// The keys that the provider is asked with, each with its place. The public provider needs
    /// none of its own.
    pub fn resolved_api_keys(&self, env: &TextMap<String>, defaults: &ProviderDefaults) -> (r:
        Result<Vec<ResolvedProviderKey>, KeyError>)
        ensures
            match self.own_keys(env@) {
                Err(name) => r matches Err(KeyError::Unset { variable }) && variable@ == name,
                Ok(values) => if values.len() > 0 {
                    r matches Ok(keys) && key_texts(keys@) == values && numbered(keys@)
                } else if self.is_public(*defaults) {
                    r matches Ok(keys) && key_texts(keys@) == Seq::empty().push("public"@)
                        && numbered(keys@)
                } else {
                    r matches Err(KeyError::NoKey { provider }) && provider@ == self.id@
                },
            },
    {
        let mut keys: Vec<ResolvedProviderKey> = Vec::new();
        assert(key_texts(keys@) =~= Seq::<Seq<char>>::empty());
        match &self.api_key {
            Some(raw) => {
                match append_resolved_api_keys(&mut keys, raw.as_str(), env) {
                    Ok(_) => {},
                    Err(e) => {
                        return Err(e);
                    },
                }
                assert(key_texts(keys@) =~= self.own_keys(env@)->Ok_0);
            },
            None => {},
        }
        assert(key_texts(keys@).len() == keys@.len());
        if keys.len() == 0 && self.is_opencode_zen(defaults) {
            keys.push(ResolvedProviderKey { index: 0, value: "public".to_owned() });
            assert(key_texts(keys@) =~= Seq::empty().push("public"@));
        }
        if keys.len() == 0 {
            return Err(KeyError::NoKey { provider: self.id.clone() });
        }
        Ok(keys)
    }

    /// Whether this is a provider with nothing but a name and an address.
    pub open spec fn is_template(
        self,
        id: Seq<char>,
        display_name: Seq<char>,
        base_url: Seq<char>,
        defaults: ProviderDefaults,
    ) -> bool {
        &&& self.id@ == id
        &&& self.display_name@ == display_name
        &&& self.base_url@ == base_url
        &&& self.enabled
        &&& self.protocol@ == defaults.protocol@
        &&& self.api_key is None
        &&& self.models@.len() == 0
        &&& self.default_model@ == ""@
        &&& self.has_no_extras(defaults)
    }

    /// Whether nothing is set for single models, and everything else is as by default.
    pub open spec fn has_no_extras(self, defaults: ProviderDefaults) -> bool {
        &&& self.model_context_window@ == Map::<Seq<char>, usize>::empty()
        &&& self.model_temperature@ == Map::<Seq<char>, u32>::empty()
        &&& self.model_tools_loading_mode@ == Map::<Seq<char>, String>::empty()
        &&& self.model_modalities@ == Map::<Seq<char>, Vec<String>>::empty()
        &&& self.tool_result_media is None
        &&& self.model_costs@ == Map::<Seq<char>, Json>::empty()
        &&& self.timeout_seconds == defaults.timeout_seconds
        &&& self.temperature_bits == defaults.temperature_bits
        &&& self.anthropic_max_tokens == defaults.anthropic_max_tokens
        &&& self.extra_body is None
    }

    /// A provider with nothing but a name and an address.
    pub fn template(id: &str, display_name: &str, base_url: &str, defaults: &ProviderDefaults) -> (r:
        ProviderConfig)
        ensures
            r.is_template(id@, display_name@, base_url@, *defaults),
    {
        ProviderConfig {
            id: id.to_owned(),
            display_name: display_name.to_owned(),
            base_url: base_url.to_owned(),
            enabled: true,
            protocol: defaults.protocol.clone(),
            api_key: None,
            models: Vec::new(),
            model_context_window: TextMap::new(),
            model_temperature: TextMap::new(),
            model_tools_loading_mode: TextMap::new(),
            model_modalities: TextMap::new(),
            tool_result_media: None,
            model_costs: TextMap::new(),
            default_model: "".to_owned(),
            timeout_seconds: defaults.timeout_seconds,
            temperature_bits: defaults.temperature_bits,
            anthropic_max_tokens: defaults.anthropic_max_tokens,
            extra_body: None,
        }
    }

    /// A provider that a user fills in.
    pub fn new_custom(defaults: &ProviderDefaults) -> (r: ProviderConfig)
        ensures
            r.is_template(""@, ""@, ""@, *defaults),
    {
        ProviderConfig::template("", "", "", defaults)
    }

    /// Whether this is a local program as it is set up at first: switched off, with its models.
    pub open spec fn is_local_template(
        self,
        id: Seq<char>,
        display_name: Seq<char>,
        protocol: Seq<char>,
        models: Seq<Seq<char>>,
        default_model: Seq<char>,
        defaults: ProviderDefaults,
    ) -> bool {
        &&& self.id@ == id
        &&& self.display_name@ == display_name
        &&& self.base_url@ == ""@
        &&& !self.enabled
        &&& self.protocol@ == protocol
        &&& self.api_key is None
        &&& text::views(self.models@) == models
        &&& self.default_model@ == default_model
        &&& self.has_no_extras(defaults)
    }

    fn local_template(
        id: &str,
        display_name: &str,
        protocol: &str,
        models: Vec<String>,
        default_model: &str,
        defaults: &ProviderDefaults,
    ) -> (r: ProviderConfig)
        ensures
            r.is_local_template(
                id@,
                display_name@,
                protocol@,
                text::views(models@),
                default_model@,
                *defaults,
            ),
    {
        let mut p = ProviderConfig::template(id, display_name, "", defaults);
        p.enabled = false;
        p.protocol = protocol.to_owned();
        p.models = models;
        p.default_model = default_model.to_owned();
        p
    }

    /// Whether this is the local coding agent as it is set up at first.
    pub open spec fn is_agent_template(self, defaults: ProviderDefaults) -> bool {
        self.is_local_template(
            provider::claude_code_protocol(defaults.vendor@),
            defaults.vendor_title@ + " Code"@,
            provider::claude_code_protocol(defaults.vendor@),
            provider::claude_code_presets(),
            "sonnet"@,
            defaults,
        )
    }

    /// The local coding agent.
    pub fn claude_code_template(defaults: &ProviderDefaults) -> (r: ProviderConfig)
        ensures
            r.is_agent_template(*defaults),
    {
        let id = text::cat2(defaults.vendor.as_str(), "-code");
        ProviderConfig::local_template(
            id.as_str(),
            text::cat2(defaults.vendor_title.as_str(), " Code").as_str(),
            id.as_str(),
            provider::claude_code_models(),
            "sonnet",
            defaults,
        )
    }

    /// The local Antigravity program.
    pub fn antigravity_template(defaults: &ProviderDefaults) -> (r: ProviderConfig)
        ensures
            r.is_local_template(
                "antigravity"@,
                "Antigravity"@,
                provider::ANTIGRAVITY_PROTOCOL@,
                provider::antigravity_presets(defaults.vendor@),
                "gemini-3.8-flash-high"@,
                *defaults,
            ),
    {
        ProviderConfig::local_template(
            "antigravity",
            "Antigravity",
            provider::ANTIGRAVITY_PROTOCOL,
            provider::antigravity_models(defaults.vendor.as_str()),
            "gemini-3.8-flash-high",
            defaults,
        )
    }

    /// The local Codex program.
    pub fn codex_template(defaults: &ProviderDefaults) -> (r: ProviderConfig)
        ensures
            r.is_local_template(
                "codex"@,
                "Codex"@,
                provider::CODEX_PROTOCOL@,
                provider::codex_presets(),
                "gpt-5.6-terra"@,
                *defaults,
            ),
    {
        ProviderConfig::local_template(
            "codex",
            "Codex",
            provider::CODEX_PROTOCOL,
            provider::codex_models(),
            "gpt-5.6-terra",
            defaults,
        )
    }

    /// Whether this is the public provider as it is set up at first.
    pub open spec fn is_opencode_template(self, defaults: ProviderDefaults) -> bool {
        &&& self.id@ == defaults.opencode_id@
        &&& self.display_name@ == "opencode Zen"@
        &&& self.base_url@ == defaults.opencode_url@
        &&& self.enabled
        &&& self.protocol@ == defaults.protocol@
        &&& self.api_key is None
        &&& text::views(self.models@) == Seq::empty().push(defaults.opencode_model@)
        &&& self.default_model@ == defaults.opencode_model@
        &&& self.has_no_extras(defaults)
    }

    /// The public provider.
    pub fn default_opencodezen(defaults: &ProviderDefaults) -> (r: ProviderConfig)
        ensures
            r.is_opencode_template(*defaults),
    {
        let mut p = ProviderConfig::template(
            defaults.opencode_id.as_str(),
            "opencode Zen",
            defaults.opencode_url.as_str(),
            defaults,
        );
        p.models = provider::with_text(provider::no_texts(), defaults.opencode_model.as_str());
        p.default_model = defaults.opencode_model.clone();
        p
    }

    /// Whether this is Anthropic as it is set up at first.
    pub open spec fn is_anthropic_template(self, defaults: ProviderDefaults) -> bool {
        &&& self.id@ == "anthropic"@
        &&& self.display_name@ == "Anthropic"@
        &&& self.base_url@ == "https://api.anthropic.com/v1"@
        &&& self.enabled
        &&& self.protocol@ == "anthropic"@
        &&& text::opt(self.api_key) == Some("$env:ANTHROPIC_API_KEY"@)
        &&& self.models@.len() == 0
        &&& self.default_model@ == ""@
        &&& self.has_no_extras(defaults)
    }

    /// Anthropic.
    pub fn default_anthropic(defaults: &ProviderDefaults) -> (r: ProviderConfig)
        ensures
            r.is_anthropic_template(*defaults),
    {
        let mut p = ProviderConfig::template(
            "anthropic",
            "Anthropic",
            "https://api.anthropic.com/v1",
            defaults,
        );
        p.protocol = "anthropic".to_owned();
        p.api_key = Some("$env:ANTHROPIC_API_KEY".to_owned());
        p
    }

    /// The providers that are set up at first: the local programs, the public one, and the rest.
    pub fn default_templates(defaults: &ProviderDefaults) -> (r: Vec<ProviderConfig>)
        ensures
            r@.len() == 14,
            r@[0].is_agent_template(*defaults),
            r@[1].is_local_template(
                "antigravity"@,
                "Antigravity"@,
                provider::ANTIGRAVITY_PROTOCOL@,
                provider::antigravity_presets(defaults.vendor@),
                "gemini-3.8-flash-high"@,
                *defaults,
            ),
            r@[2].is_local_template(
                "codex"@,
                "Codex"@,
                provider::CODEX_PROTOCOL@,
                provider::codex_presets(),
                "gpt-5.6-terra"@,
                *defaults,
            ),
            r@[3].is_opencode_template(*defaults),
            r@[4].is_template(
                "opencodego"@,
                "OpenCode Go"@,
                "https://opencode.ai/zen/go/v1"@,
                *defaults,
            ),
            r@[5].is_template("openai"@, "OpenAI"@, "https://api.openai.com/v1"@, *defaults),
            r@[6].is_anthropic_template(*defaults),
            r@[7].is_template("deepseek"@, "DeepSeek"@, "https://api.deepseek.com"@, *defaults),
            r@[8].is_template(
                "gemini"@,
                "Gemini"@,
                "https://generativelanguage.googleapis.com/v1beta/openai"@,
                *defaults,
            ),
            r@[9].is_template(
                "xiaomi"@,
                "Xiaomi"@,
                "https://token-plan-sgp.xiaomimimo.com/v1"@,
                *defaults,
            ),
            r@[10].is_template("minimax"@, "Minimax"@, "https://api.minimaxi.com/v1"@, *defaults),
            r@[11].is_template(
                "openrouter"@,
                "OpenRouter"@,
                "https://openrouter.ai/api/v1"@,
                *defaults,
            ),
            r@[12].is_template("ollama"@, "Ollama"@, "http://localhost:11434/v1"@, *defaults),
            r@[13].is_template("lmstudio"@, "LMStudio"@, "http://localhost:1234/v1"@, *defaults),
    {
        let mut v: Vec<ProviderConfig> = Vec::new();
        v.push(ProviderConfig::claude_code_template(defaults));
        v.push(ProviderConfig::antigravity_template(defaults));
        v.push(ProviderConfig::codex_template(defaults));
        v.push(ProviderConfig::default_opencodezen(defaults));
        v.push(
            ProviderConfig::template(
                "opencodego",
                "OpenCode Go",
                "https://opencode.ai/zen/go/v1",
                defaults,
            ),
        );
        v.push(
            ProviderConfig::template("openai", "OpenAI", "https://api.openai.com/v1", defaults),
        );
        v.push(ProviderConfig::default_anthropic(defaults));
        v.push(
            ProviderConfig::template("deepseek", "DeepSeek", "https://api.deepseek.com", defaults),
        );
        v.push(
            ProviderConfig::template(
                "gemini",
                "Gemini",
                "https://generativelanguage.googleapis.com/v1beta/openai",
                defaults,
            ),
        );
        v.push(
            ProviderConfig::template(
                "xiaomi",
                "Xiaomi",
                "https://token-plan-sgp.xiaomimimo.com/v1",
                defaults,
            ),
        );
        v.push(
            ProviderConfig::template("minimax", "Minimax", "https://api.minimaxi.com/v1", defaults),
        );
        v.push(
            ProviderConfig::template(
                "openrouter",
                "OpenRouter",
                "https://openrouter.ai/api/v1",
                defaults,
            ),
        );
        v.push(ProviderConfig::template("ollama", "Ollama", "http://localhost:11434/v1", defaults));
        v.push(
            ProviderConfig::template("lmstudio", "LMStudio", "http://localhost:1234/v1", defaults),
        );
        v
    }
}

/// The first provider from `i` on that is called `id`.
pub open spec fn provider_from(
    providers: Seq<ProviderConfig>,
    id: Seq<char>,
    i: int,
) -> Option<ProviderConfig>
    decreases providers.len() - i,
{
    if i < 0 || i >= providers.len() {
        None
    } else if providers[i].id@ == id {
        Some(providers[i])
    } else {
        provider_from(providers, id, i + 1)
    }
}

/// The provider that is called `id`.
pub fn find_provider<'a>(providers: &'a Vec<ProviderConfig>, id: &str) -> (r: Option<
    &'a ProviderConfig,
>)
    ensures
        match r {
            Some(p) => provider_from(providers@, id@, 0) == Some(*p),
            None => provider_from(providers@, id@, 0) is None,
        },
{
    let mut i: usize = 0;
    while i < providers.len()
        invariant
            i <= providers@.len(),
            provider_from(providers@, id@, 0) == provider_from(providers@, id@, i as int),
        decreases providers@.len() - i,
    {
        if text::same(providers[i].id.as_str(), id) {
            return Some(&providers[i]);
        }
        i = i + 1;
    }
    None
}

/// Whether a model that is in use is set up.
pub open spec fn exists_active(
    providers: Seq<ProviderConfig>,
    active: ActiveProviderModelConfig,
) -> bool {
    match provider_from(providers, text::trimmed(active.provider_id@), 0) {
        Some(p) => p.configures(active.model@),
        None => false,
    }
}

/// Whether a model that is in use is set up.
pub fn active_model_exists(
    providers: &Vec<ProviderConfig>,
    active: &ActiveProviderModelConfig,
) -> (r: bool)
    ensures
        r == exists_active(providers@, *active),
{
    match find_provider(providers, text::trim(active.provider_id.as_str()).as_str()) {
        Some(p) => p.has_configured_model(active.model.as_str()),
        None => false,
    }
}

/// Whether a model that is in use is set up and sees pictures.
pub open spec fn sees_pictures(
    providers: Seq<ProviderConfig>,
    active: ActiveProviderModelConfig,
    catalog: ModelCatalog,
) -> bool {
    match provider_from(providers, text::trimmed(active.provider_id@), 0) {
        Some(p) => p.configures(active.model@) && match p.modalities(active.model@, catalog) {
            Some(list) => list.contains("image"@),
            None => false,
        },
        None => false,
    }
}

/// Whether a model that is in use is set up and sees pictures.
pub fn active_model_supports_image(
    providers: &Vec<ProviderConfig>,
    active: &ActiveProviderModelConfig,
    catalog: &ModelCatalog,
) -> (r: bool)
    ensures
        r == sees_pictures(providers@, *active, *catalog),
{
    match find_provider(providers, text::trim(active.provider_id.as_str()).as_str()) {
        Some(p) => {
            if p.has_configured_model(active.model.as_str()) {
                match p.input_modalities(active.model.as_str(), catalog) {
                    Some(list) => contains_text(&list, "image"),
                    None => false,
                }
            } else {
                false
            }
        },
        None => false,
    }
}

/// Why a pool of models is refused.
#[derive(Debug)]
pub enum PoolError {
    /// A model stands twice.
    Duplicate { label: String, provider_id: String, model: String },
    /// A model is not set up, or sees no pictures where it has to.
    Unknown { image: bool, label: String, provider_id: String, model: String },
}

impl PoolError {
    /// What is said of it.
    pub open spec fn said(self) -> Seq<char> {
        match self {
            PoolError::Duplicate { label, provider_id, model } => "duplicate "@ + label@
                + " model: "@ + provider_id@ + " / "@ + model@,
            PoolError::Unknown { image, label, provider_id, model } => "unknown or non-"@ + (
            if image {
                "configured image-capable"@
            } else {
                "configured"@
            }) + " "@ + label@ + " model: "@ + provider_id@ + " / "@ + model@,
        }
    }

    /// What is said of it.
    pub fn message(&self) -> (r: String)
        ensures
            r@ == self.said(),
    {
        match self {
            PoolError::Duplicate { label, provider_id, model } => {
                let mut s = text::cat3("duplicate ", label.as_str(), " model: ");
                s.append(provider_id.as_str());
                s.append(" / ");
                s.append(model.as_str());
                s
            },
            PoolError::Unknown { image, label, provider_id, model } => {
                let wanted = if *image {
                    "configured image-capable"
                } else {
                    "configured"
                };
                let mut s = text::cat5(
                    "unknown or non-",
                    wanted,
                    " ",
                    label.as_str(),
                    " model: ",
                );
                s.append(provider_id.as_str());
                s.append(" / ");
                s.append(model.as_str());
                s
            },
        }
    }
}

/// Whether two entries name the same model.
pub open spec fn same_entry(a: ActiveProviderModelConfig, b: ActiveProviderModelConfig) -> bool {
    a.provider_id@ == b.provider_id@ && a.model@ == b.model@
}

/// Whether an entry stands among those before it.
pub open spec fn repeats(pool: Seq<ActiveProviderModelConfig>, i: int) -> bool {
    exists|j: int| 0 <= j < i && same_entry(#[trigger] pool[j], pool[i])
}

/// Whether an entry can be used.
pub open spec fn usable(
    providers: Seq<ProviderConfig>,
    entry: ActiveProviderModelConfig,
    require_image: bool,
    catalog: ModelCatalog,
) -> bool {
    if require_image {
        sees_pictures(providers, entry, catalog)
    } else {
        exists_active(providers, entry)
    }
}

/// Whether `r` names the first entry from `i` on that is not in order.
pub open spec fn pool_checked(
    providers: Seq<ProviderConfig>,
    label: Seq<char>,
    pool: Seq<ActiveProviderModelConfig>,
    require_image: bool,
    catalog: ModelCatalog,
    i: int,
    r: Result<(), PoolError>,
) -> bool
    decreases pool.len() - i,
{
    if i < 0 || i >= pool.len() {
        r is Ok
    } else if repeats(pool, i) {
        r matches Err(PoolError::Duplicate { label: l, provider_id, model }) && l@ == label
            && provider_id@ == pool[i].provider_id@ && model@ == pool[i].model@
    } else if !usable(providers, pool[i], require_image, catalog) {
        r matches Err(PoolError::Unknown { image, label: l, provider_id, model }) && image
            == require_image && l@ == label && provider_id@ == pool[i].provider_id@ && model@
            == pool[i].model@
    } else {
        pool_checked(providers, label, pool, require_image, catalog, i + 1, r)
    }
}

fn is_repeated(pool: &Vec<ActiveProviderModelConfig>, i: usize) -> (r: bool)
    requires
        i < pool@.len(),
    ensures
        r == repeats(pool@, i as int),
{
    let mut j: usize = 0;
    while j < i
        invariant
            j <= i < pool@.len(),
            forall|k: int| 0 <= k < j ==> !same_entry(#[trigger] pool@[k], pool@[i as int]),
        decreases i - j,
    {
        if text::same(pool[j].provider_id.as_str(), pool[i].provider_id.as_str()) && text::same(
            pool[j].model.as_str(),
            pool[i].model.as_str(),
        ) {
            assert(same_entry(pool@[j as int], pool@[i as int]));
            return true;
        }
        j = j + 1;
    }
    false
}

/// Checks that no entry of a pool stands twice and that each can be used.
pub fn validate_unique_existing_pool(
    providers: &Vec<ProviderConfig>,
    label: &str,
    pool: &Vec<ActiveProviderModelConfig>,
    require_image: bool,
    catalog: &ModelCatalog,
) -> (r: Result<(), PoolError>)
    ensures
        pool_checked(providers@, label@, pool@, require_image, *catalog, 0, r),
{
    let mut i: usize = 0;
    while i < pool.len()
        invariant
            i <= pool@.len(),
            forall|q: Result<(), PoolError>|
                #![auto]
                pool_checked(providers@, label@, pool@, require_image, *catalog, i as int, q)
                    ==> pool_checked(providers@, label@, pool@, require_image, *catalog, 0, q),
        decreases pool@.len() - i,
    {
        let entry = &pool[i];
        if is_repeated(pool, i) {
            let e = Err(
                PoolError::Duplicate {
                    label: label.to_owned(),
                    provider_id: entry.provider_id.clone(),
                    model: entry.model.clone(),
                },
            );
            assert(pool_checked(providers@, label@, pool@, require_image, *catalog, i as int, e));
            return e;
        }
        let valid = if require_image {
            active_model_supports_image(providers, entry, catalog)
        } else {
            active_model_exists(providers, entry)
        };
        if !valid {
            let e = Err(
                PoolError::Unknown {
                    image: require_image,
                    label: label.to_owned(),
                    provider_id: entry.provider_id.clone(),
                    model: entry.model.clone(),
                },
            );
            assert(pool_checked(providers@, label@, pool@, require_image, *catalog, i as int, e));
            return e;
        }
        proof {
            assert forall|q: Result<(), PoolError>|
                #![auto]
                pool_checked(
                    providers@,
                    label@,
                    pool@,
                    require_image,
                    *catalog,
                    (i + 1) as int,
                    q,
                ) implies pool_checked(
                providers@,
                label@,
                pool@,
                require_image,
                *catalog,
                0,
                q,
            ) by {
                assert(pool_checked(
                    providers@,
                    label@,
                    pool@,
                    require_image,
                    *catalog,
                    i as int,
                    q,
                ));
            }
        }
        i = i + 1;
    }
    let done: Result<(), PoolError> = Ok(());
    assert(pool_checked(providers@, label@, pool@, require_image, *catalog, i as int, done));
    done
}

/// A pool passes exactly where no entry stands twice and every entry can be used.
pub proof fn lemma_pool_passes(
    providers: Seq<ProviderConfig>,
    label: Seq<char>,
    pool: Seq<ActiveProviderModelConfig>,
    require_image: bool,
    catalog: ModelCatalog,
    r: Result<(), PoolError>,
)
    requires
        pool_checked(providers, label, pool, require_image, catalog, 0, r),
    ensures
        r is Ok <==> forall|i: int|
            0 <= i < pool.len() ==> !repeats(pool, i) && usable(
                providers,
                #[trigger] pool[i],
                require_image,
                catalog,
            ),
{
    lemma_pool_passes_from(providers, label, pool, require_image, catalog, 0, r);
}

proof fn lemma_pool_passes_from(
    providers: Seq<ProviderConfig>,
    label: Seq<char>,
    pool: Seq<ActiveProviderModelConfig>,
    require_image: bool,
    catalog: ModelCatalog,
    from: int,
    r: Result<(), PoolError>,
)
    requires
        0 <= from <= pool.len(),
        pool_checked(providers, label, pool, require_image, catalog, from, r),
    ensures
        r is Ok <==> forall|i: int|
            from <= i < pool.len() ==> !repeats(pool, i) && usable(
                providers,
                #[trigger] pool[i],
                require_image,
                catalog,
            ),
    decreases pool.len() - from,
{
    if from < pool.len() && !repeats(pool, from) && usable(
        providers,
        pool[from],
        require_image,
        catalog,
    ) {
        lemma_pool_passes_from(providers, label, pool, require_image, catalog, from + 1, r);
    }
}

/// Whether a text is a positive number in decimal digits.
pub fn is_positive_decimal_id(value: &str) -> (r: bool)
    ensures
        r == (text::is_number(value@) && 0 < text::value(value@) <= u64::MAX),
{
    let cs = text::chars(value);
    let mut i: usize = 0;
    while i < cs.len()
        invariant
            i <= cs@.len(),
            cs@ == value@,
            forall|k: int| 0 <= k < i ==> text::is_digit(#[trigger] value@[k]),
        decreases cs@.len() - i,
    {
        let c: char = cs[i];
        if !('0' <= c && c <= '9') {
            assert(!text::is_digit(value@[i as int]));
            return false;
        }
        i = i + 1;
    }
    match text::parse_unsigned(value, u64::MAX) {
        Some(n) => {
            assert(value@.len() > 0 ==> text::is_digit(value@[0]));
            n > 0
        },
        None => {
            assert(value@.len() > 0 ==> text::is_digit(value@[0]));
            false
        },
    }
}

/// Which model turns text into vectors. The least similarity of a hit is given by its bits.
#[derive(Debug)]
pub struct EmbeddingConfig {
    pub provider_id: String,
    pub model: String,
    pub timeout_seconds: u64,
    pub min_score_bits: u32,
}

/// The bits of the least similarity that is taken for a hit at first.
pub const DEFAULT_MIN_SCORE_BITS: u32 = 0x3eb3_3333;

impl Default for EmbeddingConfig {
    fn default() -> (r: EmbeddingConfig)
        ensures
            r.has_defaults(),
    {
        EmbeddingConfig {
            provider_id: "".to_owned(),
            model: "".to_owned(),
            timeout_seconds: 60,
            min_score_bits: DEFAULT_MIN_SCORE_BITS,
        }
    }
}

impl EmbeddingConfig {
    /// Whether everything is as it is at first.
    pub open spec fn has_defaults(self) -> bool {
        self.provider_id@ == ""@ && self.model@ == ""@ && self.timeout_seconds == 60
            && self.min_score_bits == DEFAULT_MIN_SCORE_BITS
    }

    /// Whether everything is as it is at first.
    pub fn is_default(&self) -> (r: bool)
        ensures
            r == self.has_defaults(),
    {
        text::same(self.provider_id.as_str(), "") && text::same(self.model.as_str(), "")
            && self.timeout_seconds == 60 && self.min_score_bits == DEFAULT_MIN_SCORE_BITS
    }

    /// Whether a model is set; whether anything uses it is another matter.
    pub fn is_configured(&self) -> (r: bool)
        ensures
            r == (text::trimmed(self.provider_id@).len() > 0 && text::trimmed(self.model@).len()
                > 0),
    {
        !text::trim(self.provider_id.as_str()).as_str().is_empty() && !text::trim(
            self.model.as_str(),
        ).as_str().is_empty()
    }
}

/// A model's entry in the catalog is the first one with its provider and its name, if there is one.
pub proof fn lemma_cataloged(
    entries: Seq<CatalogEntry>,
    provider_id: Seq<char>,
    model: Seq<char>,
    from: int,
)
    requires
        0 <= from <= entries.len(),
    ensures
        match cataloged(entries, provider_id, model, from) {
            Some(list) => exists|i: int|
                from <= i < entries.len() && (#[trigger] entries[i]).provider_id@ == provider_id
                    && entries[i].model@ == model && text::views(entries[i].modalities@) == list
                    && forall|k: int|
                    from <= k < i ==> (#[trigger] entries[k]).provider_id@ != provider_id
                        || entries[k].model@ != model,
            None => forall|k: int|
                from <= k < entries.len() ==> (#[trigger] entries[k]).provider_id@ != provider_id
                    || entries[k].model@ != model,
        },
    decreases entries.len() - from,
{
    if from < entries.len() {
        lemma_cataloged(entries, provider_id, model, from + 1);
        if entries[from].provider_id@ == provider_id && entries[from].model@ == model {
            assert(text::views(entries[from].modalities@) == cataloged(
                entries,
                provider_id,
                model,
                from,
            )->0);
        } else if cataloged(entries, provider_id, model, from) is Some {
            let list = cataloged(entries, provider_id, model, from + 1)->0;
            let i = choose|i: int|
                from + 1 <= i < entries.len() && (#[trigger] entries[i]).provider_id@ == provider_id
                    && entries[i].model@ == model && text::views(entries[i].modalities@) == list
                    && forall|k: int|
                    from + 1 <= k < i ==> (#[trigger] entries[k]).provider_id@ != provider_id
                        || entries[k].model@ != model;
            assert(entries[i].provider_id@ == provider_id);
        }
    }
}

/// The host of an address is what stands between its scheme and its first slash, in lower case.
pub proof fn lemma_host(secure: bool, name: Seq<char>, rest: Seq<char>)
    requires
        !name.contains('/'),
        !text::begins(name + rest, "https://"@),
        !text::begins(name + rest, "http://"@),
        rest.len() == 0 || rest[0] == '/',
        ({
            let url = (if secure {
                "https://"@
            } else {
                "http://"@
            }) + (name + rest);
            text::trimmed(url) == url
        }),
    ensures
        host(
            (if secure {
                "https://"@
            } else {
                "http://"@
            }) + (name + rest),
        ) == text::lowered(name),
{
    reveal_strlit("https://");
    reveal_strlit("http://");
    reveal_strlit("/");
    let body = name + rest;
    let long = "https://"@;
    let short = "http://"@;
    assert(without_prefixes(body, long) == body);
    assert(without_prefixes(body, short) == body);
    if secure {
        let url = long + body;
        assert(url.subrange(0, long.len() as int) =~= long);
        assert(url.skip(long.len() as int) =~= body);
        assert(without_prefixes(url, long) == body);
    } else {
        let url = short + body;
        assert(url[4] == ':');
        assert(long[4] == 's');
        if text::begins(url, long) {
            assert(url.subrange(0, long.len() as int)[4] == url[4]);
        }
        assert(without_prefixes(url, long) == url);
        assert(url.subrange(0, short.len() as int) =~= short);
        assert(url.skip(short.len() as int) =~= body);
        assert(without_prefixes(url, short) == body);
    }
    let n = name.len() as int;
    assert forall|i: int| 0 <= i < n implies #[trigger] body[i] != '/' by {
        assert(name[i] != '/');
    }
    text::lemma_before(body, "/"@, n);
    if rest.len() > 0 {
        assert(body.subrange(n, n + 1) =~= "/"@);
        assert(text::occurs_at(body, "/"@, n));
    }
    assert(text::before(body, "/"@) =~= name);
}

/// The keys on a line are its pieces without the white space around them, but for those that hold
/// nothing else.
pub proof fn lemma_filled_pieces(ps: Seq<Seq<char>>, n: nat, key: Seq<char>)
    requires
        n <= ps.len(),
    ensures
        filled_pieces(ps, n).contains(key) <==> key.len() > 0 && exists|i: int|
            0 <= i < n && text::trimmed(#[trigger] ps[i]) == key,
    decreases n,
{
    if n > 0 {
        let before = filled_pieces(ps, (n - 1) as nat);
        let now = filled_pieces(ps, n);
        let p = text::trimmed(ps[n - 1]);
        lemma_filled_pieces(ps, (n - 1) as nat, key);
        if p.len() > 0 {
            assert(now == before.push(p));
            assert(now[before.len() as int] == p);
            if before.contains(key) {
                let i = before.index_of(key);
                assert(now[i] == key);
            }
            if now.contains(key) {
                let i = now.index_of(key);
                if i < before.len() {
                    assert(before[i] == key);
                }
            }
        }
    }
}

/// The keys on some lines and on more are those on the first ones and then those on the others.
pub proof fn lemma_keys_join(a: Seq<Seq<char>>, b: Seq<Seq<char>>)
    ensures
        keys_on(a + b, (a + b).len()) == keys_on(a, a.len()) + keys_on(b, b.len()),
    decreases b.len(),
{
    if b.len() == 0 {
        assert(a + b =~= a);
        assert(keys_on(b, 0) =~= Seq::empty());
    } else {
        lemma_keys_join(a, b.drop_last());
        lemma_keys_take(a + b, ((a + b).len() - 1) as nat);
        lemma_keys_take(b, (b.len() - 1) as nat);
        assert((a + b).take((a + b).len() - 1) =~= a + b.drop_last());
        assert(b.take(b.len() - 1) =~= b.drop_last());
        assert(keys_on(a + b, (a + b).len()) =~= keys_on(a, a.len()) + keys_on(b, b.len()));
    }
}

proof fn lemma_keys_take(lines: Seq<Seq<char>>, n: nat)
    requires
        n <= lines.len(),
    ensures
        keys_on(lines, n) == keys_on(lines.take(n as int), n),
    decreases n,
{
    if n > 0 {
        lemma_keys_take(lines, (n - 1) as nat);
        lemma_keys_take(lines.take(n as int), (n - 1) as nat);
        assert(lines.take(n as int).take(n - 1) =~= lines.take(n - 1));
    }
}

/// A key that names a variable is what the variable holds, without the white space around it, and is
/// refused with the variable's name where it is not set.
pub proof fn lemma_key_from_variable(name: Seq<char>, env: Map<Seq<char>, String>)
    ensures
        env.contains_key(name) ==> key_value("$env:"@ + name, env) == Ok::<Seq<char>, Seq<char>>(
            text::trimmed(env[name]@),
        ),
        !env.contains_key(name) ==> key_value("$env:"@ + name, env) == Err::<Seq<char>, Seq<char>>(
            name,
        ),
{
    let item = "$env:"@ + name;
    let n = "$env:"@.len() as int;
    assert(item.subrange(0, n) =~= "$env:"@);
    assert(item.skip(n) =~= name);
}

/// A key that names no variable is itself, whatever the variables hold.
pub proof fn lemma_key_as_it_stands(item: Seq<char>, env: Map<Seq<char>, String>)
    requires
        !text::begins(item, "$env:"@),
    ensures
        key_value(item, env) == Ok::<Seq<char>, Seq<char>>(text::trimmed(item)),
{
}

/// Keys are known exactly where each of them is, and then they are all of them but the empty ones;
/// otherwise the first one that is not known is named.
pub proof fn lemma_key_values(
    items: Seq<Seq<char>>,
    env: Map<Seq<char>, String>,
    n: nat,
    v: Seq<char>,
)
    requires
        n <= items.len(),
    ensures
        match key_values(items, env, n) {
            Ok(values) => {
                &&& forall|i: int| 0 <= i < n ==> key_value(#[trigger] items[i], env) is Ok
                &&& values.contains(v) <==> v.len() > 0 && exists|i: int|
                    0 <= i < n && key_value(#[trigger] items[i], env) == Ok::<Seq<char>, Seq<char>>(
                        v,
                    )
            },
            Err(name) => exists|i: int|
                0 <= i < n && key_value(#[trigger] items[i], env) == Err::<Seq<char>, Seq<char>>(
                    name,
                ) && forall|k: int| 0 <= k < i ==> key_value(#[trigger] items[k], env) is Ok,
        },
    decreases n,
{
    if n > 0 {
        lemma_key_values(items, env, (n - 1) as nat, v);
        match key_values(items, env, (n - 1) as nat) {
            Ok(before) => match key_value(items[n - 1], env) {
                Ok(w) => {
                    let now = key_values(items, env, n)->Ok_0;
                    if w.len() > 0 {
                        assert(now == before.push(w));
                        assert(now[before.len() as int] == w);
                        if before.contains(v) {
                            let i = before.index_of(v);
                            assert(now[i] == v);
                        }
                        if now.contains(v) {
                            let i = now.index_of(v);
                            if i < before.len() {
                                assert(before[i] == v);
                            } else {
                                assert(key_value(items[n - 1], env) == Ok::<Seq<char>, Seq<char>>(v));
                            }
                        }
                    }
                },
                Err(name) => {
                    assert(key_value(items[n - 1], env) == Err::<Seq<char>, Seq<char>>(name));
                },
            },
            Err(name) => {
                let i = choose|i: int|
                    0 <= i < n - 1 && key_value(#[trigger] items[i], env) == Err::<
                        Seq<char>,
                        Seq<char>,
                    >(name) && forall|k: int|
                        0 <= k < i ==> key_value(#[trigger] items[k], env) is Ok;
                assert(key_value(items[i], env) == Err::<Seq<char>, Seq<char>>(name));
            },
        }
    }
}

/// The provider of a name is the first one that has it, if there is one.
pub proof fn lemma_provider_from(providers: Seq<ProviderConfig>, id: Seq<char>, from: int)
    requires
        0 <= from <= providers.len(),
    ensures
        match provider_from(providers, id, from) {
            Some(p) => exists|i: int|
                from <= i < providers.len() && #[trigger] providers[i] == p && p.id@ == id
                    && forall|k: int| from <= k < i ==> (#[trigger] providers[k]).id@ != id,
            None => forall|k: int| from <= k < providers.len() ==> (#[trigger] providers[k]).id@ != id,
        },
    decreases providers.len() - from,
{
    if from < providers.len() {
        lemma_provider_from(providers, id, from + 1);
        if providers[from].id@ == id {
            assert(providers[from] == provider_from(providers, id, from)->0);
        } else if provider_from(providers, id, from) is Some {
            let p = provider_from(providers, id, from + 1)->0;
            let i = choose|i: int|
                from + 1 <= i < providers.len() && #[trigger] providers[i] == p && p.id@ == id
                    && forall|k: int| from + 1 <= k < i ==> (#[trigger] providers[k]).id@ != id;
            assert(providers[i] == p);
        }
    }
}

/// A model that sees pictures is set up, and is said to take pictures.
pub proof fn lemma_pictures_need_a_model(
    providers: Seq<ProviderConfig>,
    active: ActiveProviderModelConfig,
    catalog: ModelCatalog,
)
    ensures
        sees_pictures(providers, active, catalog) ==> exists_active(providers, active),
        provider_from(providers, text::trimmed(active.provider_id@), 0) matches Some(p) ==> {
            &&& exists_active(providers, active) <==> p.configures(active.model@)
            &&& p.configures(active.model@) && (p.modalities(active.model@, catalog) matches Some(
                list,
            ) && list.contains("image"@)) <==> sees_pictures(providers, active, catalog)
        },
        provider_from(providers, text::trimmed(active.provider_id@), 0) is None ==> !exists_active(
            providers,
            active,
        ),
{
}

/// What a model takes is what is set for it by hand; where nothing is, what the catalog says of it.
/// Through one program it is text alone.
pub proof fn lemma_modalities(p: ProviderConfig, model: Seq<char>, catalog: ModelCatalog)
    ensures
        p.speaks_antigravity() ==> p.modalities(model, catalog) == Some(seq!["text"@]),
        !p.speaks_antigravity() && p.model_modalities@.contains_key(model) ==> p.modalities(
            model,
            catalog,
        ) == Some(text::views(p.model_modalities@[model]@)),
        !p.speaks_antigravity() && !p.model_modalities@.contains_key(model) ==> p.modalities(
            model,
            catalog,
        ) == cataloged(catalog.entries@, p.id@, model, 0),
{
    assert(Seq::empty().push("text"@) =~= seq!["text"@]);
}

/// A provider has a model that it lists or that it takes by default, whatever white space is around
/// its name, and never one without a name.
pub proof fn lemma_configures(p: ProviderConfig, model: Seq<char>, i: int)
    ensures
        text::trimmed(model).len() == 0 ==> !p.configures(model),
        text::trimmed(model).len() > 0 && p.default_model@ == text::trimmed(model) ==> p.configures(
            model,
        ),
        text::trimmed(model).len() > 0 && 0 <= i < p.models@.len() && p.models@[i]@
            == text::trimmed(model) ==> p.configures(model),
        p.configures(model) && p.default_model@ != text::trimmed(model) ==> exists|k: int|
            0 <= k < p.models@.len() && (#[trigger] p.models@[k])@ == text::trimmed(model),
        p.configures(model) == p.configures(text::trimmed(model)),
{
    let m = text::trimmed(model);
    text::lemma_trimmed_twice(model);
    let names = text::views(p.models@);
    if 0 <= i < p.models@.len() {
        assert(names[i] == p.models@[i]@);
    }
    if names.contains(m) {
        let k = names.index_of(m);
        assert(p.models@[k]@ == m);
    }
}

/// The programs that a provider can be are told by their names, in upper or lower case alike.
pub proof fn lemma_programs(p: ProviderConfig)
    ensures
        ({
            let said = text::lowered(text::trimmed(p.protocol@));
            &&& p.speaks_codex() <==> said == text::lowered("codex"@) || said == text::lowered(
                "codex-cli"@,
            )
            &&& p.speaks_antigravity() <==> said == text::lowered("antigravity"@) || said
                == text::lowered("antigravity-cli"@) || said == text::lowered("agy"@)
        }),
{
}

/// What is set decides whether a tool's answer can carry media. Where nothing is, it can but through
/// the local programs, by one protocol and to one host.
pub proof fn lemma_carries_media(p: &ProviderConfig, defaults: &ProviderDefaults, r: bool)
    requires
        call_ensures(ProviderConfig::tool_result_carries_media, (p, defaults), r),
    ensures
        p.tool_result_media matches Some(set) ==> r == set,
        p.tool_result_media is None && p.speaks_codex() ==> !r,
        p.tool_result_media is None && p.speaks_antigravity() ==> !r,
        p.tool_result_media is None && p.speaks_claude_code(*defaults) ==> !r,
        p.tool_result_media is None && text::trimmed(p.protocol@) == "anthropic"@ ==> !r,
        p.tool_result_media is None && host(p.base_url@) == "api.openai.com"@ ==> !r,
        p.tool_result_media is None && !r ==> p.speaks_codex() || p.speaks_antigravity()
            || p.speaks_claude_code(*defaults) || text::trimmed(p.protocol@) == "anthropic"@ || host(
            p.base_url@,
        ) == "api.openai.com"@,
{
}

/// A temperature that is set for the default model goes before the provider's.
pub proof fn lemma_temperature(p: &ProviderConfig, r: u32)
    requires
        call_ensures(ProviderConfig::effective_temperature, (p,), r),
    ensures
        p.model_temperature@.contains_key(p.default_model@) ==> r
            == p.model_temperature@[p.default_model@],
        !p.model_temperature@.contains_key(p.default_model@) ==> r == p.temperature_bits,
{
}

/// Whether a model sees pictures is known exactly where it is known what it takes.
pub proof fn lemma_supports_vision(
    p: &ProviderConfig,
    model: &str,
    catalog: &ModelCatalog,
    r: Option<bool>,
)
    requires
        call_ensures(ProviderConfig::supports_vision, (p, model, catalog), r),
    ensures
        r is None <==> p.modalities(model@, *catalog) is None,
        p.modalities(model@, *catalog) matches Some(list) ==> (r == Some(true) <==> list.contains(
            "image"@,
        )),
{
}

/// A provider's own keys are used where it has any; a public one without keys has one for everyone;
/// another without keys is refused; and so is one whose key stands in a variable that is not set.
pub proof fn lemma_resolved_keys(
    p: &ProviderConfig,
    env: &TextMap<String>,
    defaults: &ProviderDefaults,
    r: Result<Vec<ResolvedProviderKey>, KeyError>,
)
    requires
        call_ensures(ProviderConfig::resolved_api_keys, (p, env, defaults), r),
    ensures
        r matches Ok(keys) ==> keys@.len() > 0 && forall|i: int|
            0 <= i < keys@.len() ==> (#[trigger] keys@[i]).index == i,
        r matches Err(KeyError::Unset { variable }) ==> !env@.contains_key(variable@),
        r matches Err(KeyError::NoKey { provider }) ==> provider@ == p.id@ && !p.is_public(
            *defaults,
        ),
        p.api_key is None && p.is_public(*defaults) ==> (r matches Ok(keys) && keys@.len() == 1
            && keys@[0].value@ == "public"@),
        p.api_key is None && !p.is_public(*defaults) ==> r matches Err(KeyError::NoKey { .. }),
{
    match p.own_keys(env@) {
        Ok(values) => {
            match r {
                Ok(keys) => {
                    assert(key_texts(keys@).len() == keys@.len());
                    assert(key_texts(keys@)[0] == keys@[0].value@);
                },
                Err(_) => {},
            }
        },
        Err(name) => {
            let items = key_list(p.api_key->0@);
            lemma_key_values(items, env@, items.len(), Seq::empty());
        },
    }
}

/// A list of models passes exactly where none stands twice and each can be used.
pub proof fn lemma_pool_call(
    providers: &Vec<ProviderConfig>,
    label: &str,
    pool: &Vec<ActiveProviderModelConfig>,
    require_image: bool,
    catalog: &ModelCatalog,
    r: Result<(), PoolError>,
)
    requires
        call_ensures(
            validate_unique_existing_pool,
            (providers, label, pool, require_image, catalog),
            r,
        ),
    ensures
        r is Ok <==> forall|i: int|
            0 <= i < pool@.len() ==> (if require_image {
                sees_pictures(providers@, #[trigger] pool@[i], *catalog)
            } else {
                exists_active(providers@, pool@[i])
            }) && forall|j: int|
                0 <= j < i ==> !((#[trigger] pool@[j]).provider_id@ == pool@[i].provider_id@
                    && pool@[j].model@ == pool@[i].model@),
{
    lemma_pool_call_from(providers@, label@, pool@, require_image, *catalog, 0, r);
}

proof fn lemma_pool_call_from(
    providers: Seq<ProviderConfig>,
    label: Seq<char>,
    pool: Seq<ActiveProviderModelConfig>,
    require_image: bool,
    catalog: ModelCatalog,
    from: int,
    r: Result<(), PoolError>,
)
    requires
        0 <= from <= pool.len(),
        pool_checked(providers, label, pool, require_image, catalog, from, r),
    ensures
        r is Ok <==> forall|i: int|
            from <= i < pool.len() ==> (if require_image {
                sees_pictures(providers, #[trigger] pool[i], catalog)
            } else {
                exists_active(providers, pool[i])
            }) && forall|j: int|
                0 <= j < i ==> !((#[trigger] pool[j]).provider_id@ == pool[i].provider_id@
                    && pool[j].model@ == pool[i].model@),
    decreases pool.len() - from,
{
    if from < pool.len() {
        if repeats(pool, from) {
            let j = choose|j: int| 0 <= j < from && same_entry(#[trigger] pool[j], pool[from]);
            assert(pool[j].provider_id@ == pool[from].provider_id@);
        } else {
            assert forall|j: int| 0 <= j < from implies !((#[trigger] pool[j]).provider_id@
                == pool[from].provider_id@ && pool[j].model@ == pool[from].model@) by {
                assert(!same_entry(pool[j], pool[from]));
            }
            if usable(providers, pool[from], require_image, catalog) {
                lemma_pool_call_from(
                    providers,
                    label,
                    pool,
                    require_image,
                    catalog,
                    from + 1,
                    r,
                );
            }
        }
    }
}

/// A number above zero that fits is an id, and zero, a sign or anything else is none.
pub proof fn lemma_decimal_id(value: &str, r: bool, n: nat)
    requires
        call_ensures(is_positive_decimal_id, (value,), r),
    ensures
        value@ == text::decimal(n) ==> (r <==> 0 < n <= u64::MAX),
        value@.len() == 0 ==> !r,
        r ==> forall|i: int| 0 <= i < value@.len() ==> '0' <= #[trigger] value@[i] <= '9',
{
    text::lemma_decimal_reads_back(n);
}

/// Vectors can be made where both a provider and a model are named.
pub proof fn lemma_embedding_configured(e: &EmbeddingConfig, r: bool)
    requires
        call_ensures(EmbeddingConfig::is_configured, (e,), r),
    ensures
        r <==> text::trimmed(e.provider_id@).len() > 0 && text::trimmed(e.model@).len() > 0,
{
}

/// The agent's program is told by its name or by the name of its command, in upper or lower case
/// alike.
pub proof fn lemma_agent_program(p: &ProviderConfig, defaults: &ProviderDefaults, r: bool)
    requires
        call_ensures(ProviderConfig::is_claude_code, (p, defaults), r),
    ensures
        ({
            let said = text::lowered(text::trimmed(p.protocol@));
            r <==> said == text::lowered(defaults.vendor@ + "-code"@) || said == text::lowered(
                defaults.vendor@ + "-code"@ + "-cli"@,
            )
        }),
{
}

/// A provider is run as a local program exactly where it is one of the three.
pub proof fn lemma_local_programs(
    p: &ProviderConfig,
    defaults: &ProviderDefaults,
    a: bool,
    b: bool,
    c: bool,
    r: bool,
)
    requires
        call_ensures(ProviderConfig::is_claude_code, (p, defaults), a),
        call_ensures(ProviderConfig::is_codex, (p,), b),
        call_ensures(ProviderConfig::is_antigravity, (p,), c),
        call_ensures(ProviderConfig::is_builtin_cli_provider, (p, defaults), r),
    ensures
        r <==> a || b || c,
{
}

/// The templates have their names. The local programs are switched off and have their protocols, and
/// neither an address nor a key; the other two are switched on. A default model is one that is listed.
pub proof fn lemma_templates(
    defaults: &ProviderDefaults,
    agent: ProviderConfig,
    antigravity: ProviderConfig,
    codex: ProviderConfig,
    opencode: ProviderConfig,
    anthropic: ProviderConfig,
)
    requires
        call_ensures(ProviderConfig::claude_code_template, (defaults,), agent),
        call_ensures(ProviderConfig::antigravity_template, (defaults,), antigravity),
        call_ensures(ProviderConfig::codex_template, (defaults,), codex),
        call_ensures(ProviderConfig::default_opencodezen, (defaults,), opencode),
        call_ensures(ProviderConfig::default_anthropic, (defaults,), anthropic),
    ensures
        anthropic.id@ == "anthropic"@ && anthropic.enabled && anthropic.protocol@ == "anthropic"@,
        text::opt(anthropic.api_key) == Some("$env:ANTHROPIC_API_KEY"@),
        opencode.id@ == defaults.opencode_id@ && opencode.enabled && opencode.base_url@
            == defaults.opencode_url@,
        opencode.default_model@ == defaults.opencode_model@,
        agent.id@ == defaults.vendor@ + "-code"@ && agent.protocol@ == agent.id@ && !agent.enabled,
        antigravity.id@ == "antigravity"@ && antigravity.protocol@ == antigravity.id@
            && !antigravity.enabled,
        codex.id@ == "codex"@ && codex.protocol@ == codex.id@ && !codex.enabled,
        agent.base_url@.len() == 0 && antigravity.base_url@.len() == 0 && codex.base_url@.len() == 0,
        agent.api_key is None && antigravity.api_key is None && codex.api_key is None,
        text::views(agent.models@).contains(agent.default_model@),
        text::views(antigravity.models@).contains(antigravity.default_model@),
        text::views(codex.models@).contains(codex.default_model@),
        text::views(opencode.models@).contains(opencode.default_model@),
{
    reveal_strlit("");
    assert(provider::claude_code_presets()[2] == "sonnet"@);
    assert(provider::antigravity_presets(defaults.vendor@)[0] == "gemini-3.8-flash-high"@);
    assert(provider::codex_presets()[0] == "gpt-5.6-terra"@);
    assert(text::views(opencode.models@)[0] == defaults.opencode_model@);
}

/// A template is switched on, has what it is given, and no key and no models yet.
pub proof fn lemma_template(
    id: &str,
    display_name: &str,
    base_url: &str,
    defaults: &ProviderDefaults,
    r: ProviderConfig,
)
    requires
        call_ensures(ProviderConfig::template, (id, display_name, base_url, defaults), r),
    ensures
        r.id@ == id@ && r.display_name@ == display_name@ && r.base_url@ == base_url@,
        r.enabled,
        r.protocol@ == defaults.protocol@,
        r.api_key is None && r.models@.len() == 0 && r.default_model@.len() == 0,
        r.timeout_seconds == defaults.timeout_seconds,
        r.temperature_bits == defaults.temperature_bits,
        r.anthropic_max_tokens == defaults.anthropic_max_tokens,
        forall|m: Seq<char>| !#[trigger] r.model_temperature@.contains_key(m),
        forall|m: Seq<char>| !#[trigger] r.model_modalities@.contains_key(m),
{
    reveal_strlit("");
}

/// The setting for vectors is the usual one where nothing is named, a minute is waited and the usual
/// score is asked for, and else it is not.
pub proof fn lemma_embedding_default(e: &EmbeddingConfig, r: bool)
    requires
        call_ensures(EmbeddingConfig::is_default, (e,), r),
    ensures
        r ==> e.provider_id@.len() == 0 && e.model@.len() == 0 && e.timeout_seconds == 60
            && e.min_score_bits == 0x3eb3_3333,
        e.provider_id@.len() > 0 || e.model@.len() > 0 ==> !r,
        e.timeout_seconds != 60 || e.min_score_bits != 0x3eb3_3333 ==> !r,
        e.provider_id@.len() == 0 && e.model@.len() == 0 && e.timeout_seconds == 60
            && e.min_score_bits == 0x3eb3_3333 ==> r,
{
    reveal_strlit("");
    if e.provider_id@.len() == 0 {
        assert(e.provider_id@ =~= ""@);
    }
    if e.model@.len() == 0 {
        assert(e.model@ =~= ""@);
    }
}

/// A provider is everyone's where it has one of two names and the address that belongs to them,
/// whatever slashes are behind that.
pub proof fn lemma_public(p: &ProviderConfig, defaults: &ProviderDefaults, r: bool)
    requires
        call_ensures(ProviderConfig::is_opencode_zen, (p, defaults), r),
    ensures
        r ==> p.id@ == defaults.opencode_id@ || p.id@ == "opencodezen"@,
        r ==> text::without_trailing(p.base_url@, '/') == defaults.opencode_url@,
        (p.id@ == defaults.opencode_id@ || p.id@ == "opencodezen"@) && text::without_trailing(
            p.base_url@,
            '/',
        ) == defaults.opencode_url@ ==> r,
{
}

}
