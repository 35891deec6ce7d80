//! Providers, their models, and what the models can do.
//!
//! A `ProviderModelChoice` says which model of which provider is meant.
//! `resolve_provider_model_argument` finds it from what a user has typed: several ways of writing
//! it are taken, but none that could mean two models.
//!
//! What a model can do belongs to the model and not to its provider: the same provider may have
//! models that see pictures and models that do not.

use crate::text;
use vstd::prelude::*;

verus! {

/// A model that is in use.
#[derive(Debug, Clone, PartialEq, Eq)]
pub struct ActiveProviderModelConfig {
    pub provider_id: String,
    pub model: String,
}

/// The models for subagents, by how hard their tasks are.
#[derive(Debug, Clone, PartialEq)]
pub struct SubagentTiersConfig {
    pub cheap: Vec<ActiveProviderModelConfig>,
    pub balanced: Vec<ActiveProviderModelConfig>,
    pub strong: Vec<ActiveProviderModelConfig>,
}

/// How hard a subagent's task is.
#[derive(Debug, Clone, Copy, PartialEq, Eq, Structural)]
pub enum ModelTier {
    Cheap,
    Balanced,
    Strong,
}

impl Default for SubagentTiersConfig {
    /// No models in any tier.
    fn default() -> (r: SubagentTiersConfig)
        ensures
            forall|tier: ModelTier| (#[trigger] r.of(tier)).len() == 0,
    {
        SubagentTiersConfig { cheap: Vec::new(), balanced: Vec::new(), strong: Vec::new() }
    }
}

impl SubagentTiersConfig {
    /// The models of a tier.
    pub open spec fn of(self, tier: ModelTier) -> Seq<ActiveProviderModelConfig> {
        match tier {
            ModelTier::Cheap => self.cheap@,
            ModelTier::Balanced => self.balanced@,
            ModelTier::Strong => self.strong@,
        }
    }

    /// Whether no tier has a model.
    pub fn is_empty(&self) -> (r: bool)
        ensures
            r == (forall|tier: ModelTier| (#[trigger] self.of(tier)).len() == 0),
    {
        let r = self.cheap.is_empty() && self.balanced.is_empty() && self.strong.is_empty();
        proof {
            assert(self.of(ModelTier::Cheap) == self.cheap@);
            assert(self.of(ModelTier::Balanced) == self.balanced@);
            assert(self.of(ModelTier::Strong) == self.strong@);
        }
        r
    }

    /// The models of a tier.
    pub fn pool(&self, tier: ModelTier) -> (r: &Vec<ActiveProviderModelConfig>)
        ensures
            r@ == self.of(tier),
    {
        match tier {
            ModelTier::Cheap => &self.cheap,
            ModelTier::Balanced => &self.balanced,
            ModelTier::Strong => &self.strong,
        }
    }

    /// The models of a tier, to be changed. The other tiers stay as they are.
    pub fn pool_mut(&mut self, tier: ModelTier) -> (r: &mut Vec<ActiveProviderModelConfig>)
        ensures
            r@ == old(self).of(tier),
            final(self).of(tier) == final(r)@,
            forall|other: ModelTier|
                other != tier ==> (#[trigger] final(self).of(other)) == old(self).of(other),
    {
        match tier {
            ModelTier::Cheap => &mut self.cheap,
            ModelTier::Balanced => &mut self.balanced,
            ModelTier::Strong => &mut self.strong,
        }
    }
}

impl ModelTier {
    /// The tier's name.
    pub open spec fn name(self) -> Seq<char> {
        match self {
            ModelTier::Cheap => "cheap"@,
            ModelTier::Balanced => "balanced"@,
            ModelTier::Strong => "strong"@,
        }
    }

    /// The tiers, from the cheapest on.
    pub fn all() -> (r: [ModelTier; 3])
        ensures
            r@ == seq![ModelTier::Cheap, ModelTier::Balanced, ModelTier::Strong],
            forall|tier: ModelTier| #[trigger] r@.contains(tier),
    {
        let r = [ModelTier::Cheap, ModelTier::Balanced, ModelTier::Strong];
        proof {
            assert(r@ =~= seq![ModelTier::Cheap, ModelTier::Balanced, ModelTier::Strong]);
            assert(r@[0] == ModelTier::Cheap && r@[1] == ModelTier::Balanced && r@[2]
                == ModelTier::Strong);
        }
        r
    }

    /// The tier of that name.
    pub fn from_str(value: &str) -> (r: Option<ModelTier>)
        ensures
            match r {
                Some(tier) => tier.name() == text::trimmed(value@),
                None => forall|tier: ModelTier| (#[trigger] tier.name()) != text::trimmed(value@),
            },
    {
        let v = text::trim(value);
        if text::same(v.as_str(), "cheap") {
            Some(ModelTier::Cheap)
        } else if text::same(v.as_str(), "balanced") {
            Some(ModelTier::Balanced)
        } else if text::same(v.as_str(), "strong") {
            Some(ModelTier::Strong)
        } else {
            None
        }
    }

    /// The tier's name.
    pub fn label(&self) -> (r: &'static str)
        ensures
            r@ == self.name(),
    {
        match self {
            ModelTier::Cheap => "cheap",
            ModelTier::Balanced => "balanced",
            ModelTier::Strong => "strong",
        }
    }
}

/// No two tiers have the same name, so that the tier that `from_str` finds by a label is the one
/// that was labelled.
pub proof fn lemma_tier_names(a: ModelTier, b: ModelTier)
    ensures
        a.name() == b.name() ==> a == b,
        text::trimmed(a.name()) == a.name(),
{
    reveal_strlit("cheap");
    reveal_strlit("balanced");
    reveal_strlit("strong");
    assert("cheap"@.len() == 5);
    assert("balanced"@.len() == 8);
    assert("strong"@.len() == 6);
    assert(!text::is_space(a.name()[0]));
    assert(!text::is_space(a.name().last()));
}

/// The protocol of the provider that is a vendor's local coding agent.
pub open spec fn claude_code_protocol(vendor: Seq<char>) -> Seq<char> {
    vendor + "-code"@
}

/// The protocol of the provider that is the local Antigravity program.
pub const ANTIGRAVITY_PROTOCOL: &'static str = "antigravity";

/// The protocol of the provider that is the local Codex program.
pub const CODEX_PROTOCOL: &'static str = "codex";

/// Marks a model as producing vectors rather than chat.
pub const EMBEDDING_MODALITY: &'static str = "embedding";

/// Whether tools of a scope are let through.
pub open spec fn scope_allows(scope: Seq<char>, dev_mode: bool) -> bool {
    let s = text::lowered(text::trimmed(scope));
    if s == "all"@ {
        true
    } else if s == "dev"@ {
        dev_mode
    } else if s == "normal"@ {
        !dev_mode
    } else {
        false
    }
}

/// Whether tools of a scope are let through: all of them, those of one mode, or none.
pub fn relay_scope_allows(scope: &str, dev_mode: bool) -> (r: bool)
    ensures
        r == scope_allows(scope@, dev_mode),
{
    let trimmed = text::trim(scope);
    let s = text::to_ascii_lowercase(trimmed.as_str());
    if text::same(s.as_str(), "all") {
        true
    } else if text::same(s.as_str(), "dev") {
        dev_mode
    } else if text::same(s.as_str(), "normal") {
        !dev_mode
    } else {
        false
    }
}

/// The models of the local coding agent.
pub open spec fn claude_code_presets() -> Seq<Seq<char>> {
    Seq::empty().push("fable"@).push("opus"@).push("sonnet"@).push("haiku"@)
}

/// The models of the local Codex program.
pub open spec fn codex_presets() -> Seq<Seq<char>> {
    Seq::empty().push("gpt-5.6-terra"@).push("gpt-5.6-sol"@).push("gpt-5.6-luna"@).push(
        "gpt-5.5"@,
    ).push("gpt-5.4"@).push("gpt-5.4-mini"@).push("gpt-5.2"@)
}

/// The models of the local Antigravity program, some of which are another vendor's.
pub open spec fn antigravity_presets(vendor: Seq<char>) -> Seq<Seq<char>> {
    Seq::empty().push("gemini-3.8-flash-high"@).push("gemini-3.8-flash-medium"@).push(
        "gemini-3.8-flash-low"@,
    ).push("gemini-3.7-flash-high"@).push("gemini-3.7-flash-medium"@).push(
        "gemini-3.7-flash-low"@,
    ).push("gemini-3.6-flash-high"@).push("gemini-3.6-flash-medium"@).push(
        "gemini-3.6-flash-low"@,
    ).push("gemini-3.1-pro-high"@).push("gemini-3.1-pro-low"@).push(
        vendor + "-sonnet-4-6"@,
    ).push(vendor + "-opus-4-6-thinking"@).push("gpt-oss-120b-medium"@)
}

/// A list of texts that is being put together.
pub(crate) fn with_text(list: Vec<String>, s: &str) -> (r: Vec<String>)
    ensures
        text::views(r@) == text::views(list@).push(s@),
{
    let mut out = list;
    let t = s.to_owned();
    proof {
        text::lemma_views_push(out@, t);
    }
    out.push(t);
    out
}

pub(crate) fn no_texts() -> (r: Vec<String>)
    ensures
        text::views(r@) == Seq::<Seq<char>>::empty(),
{
    let r: Vec<String> = Vec::new();
    assert(text::views(r@) =~= Seq::<Seq<char>>::empty());
    r
}

pub(crate) fn claude_code_models() -> (r: Vec<String>)
    ensures
        text::views(r@) == claude_code_presets(),
{
    let v = with_text(no_texts(), "fable");
    let v = with_text(v, "opus");
    let v = with_text(v, "sonnet");
    with_text(v, "haiku")
}

pub(crate) fn codex_models() -> (r: Vec<String>)
    ensures
        text::views(r@) == codex_presets(),
{
    let v = with_text(no_texts(), "gpt-5.6-terra");
    let v = with_text(v, "gpt-5.6-sol");
    let v = with_text(v, "gpt-5.6-luna");
    let v = with_text(v, "gpt-5.5");
    let v = with_text(v, "gpt-5.4");
    let v = with_text(v, "gpt-5.4-mini");
    with_text(v, "gpt-5.2")
}

pub(crate) fn antigravity_models(vendor: &str) -> (r: Vec<String>)
    ensures
        text::views(r@) == antigravity_presets(vendor@),
{
    let v = with_text(no_texts(), "gemini-3.8-flash-high");
    let v = with_text(v, "gemini-3.8-flash-medium");
    let v = with_text(v, "gemini-3.8-flash-low");
    let v = with_text(v, "gemini-3.7-flash-high");
    let v = with_text(v, "gemini-3.7-flash-medium");
    let v = with_text(v, "gemini-3.7-flash-low");
    let v = with_text(v, "gemini-3.6-flash-high");
    let v = with_text(v, "gemini-3.6-flash-medium");
    let v = with_text(v, "gemini-3.6-flash-low");
    let v = with_text(v, "gemini-3.1-pro-high");
    let v = with_text(v, "gemini-3.1-pro-low");
    let v = with_text(v, text::cat2(vendor, "-sonnet-4-6").as_str());
    let v = with_text(v, text::cat2(vendor, "-opus-4-6-thinking").as_str());
    with_text(v, "gpt-oss-120b-medium")
}

/// Which model of which provider is meant.
#[derive(Debug, Clone)]
pub struct ProviderModelChoice {
    pub provider_id: String,
    pub provider_name: String,
    pub model: String,
}

impl ProviderModelChoice {
    /// The choice as a value: the provider and the model, with a tab between them.
    pub fn value(&self) -> (r: String)
        ensures
            r@ == self.provider_id@ + "\t"@ + self.model@,
    {
        text::cat3(self.provider_id.as_str(), "\t", self.model.as_str())
    }

    /// The choice as it is shown.
    pub fn label(&self) -> (r: String)
        ensures
            r@ == self.provider_name@ + " / "@ + self.model@,
    {
        text::cat3(self.provider_name.as_str(), " / ", self.model.as_str())
    }

    /// The choice as it is typed in full.
    pub open spec fn qualified(self) -> Seq<char> {
        self.provider_id@ + "/"@ + self.model@
    }
}

/// Why a model argument means no model.
#[derive(Debug)]
pub enum ModelArgumentError {
    /// There is no model of that number among so many.
    OutOfRange { count: usize },
    /// No model is called that.
    NoMatch { argument: String },
    /// Several are; these are their full names.
    Ambiguous { options: Vec<String> },
}

impl ModelArgumentError {
    /// What is said of it, in Chinese or in English.
    pub open spec fn said(self, chinese: bool) -> Seq<char> {
        match self {
            ModelArgumentError::OutOfRange { count } => (if chinese {
                "模型序号超出范围，有效范围："@
            } else {
                "The model index is out of range; valid range:"@
            }) + " 1..="@ + text::decimal(count as nat),
            ModelArgumentError::NoMatch { argument } => (if chinese {
                "没有匹配的已配置模型："@
            } else {
                "No configured model matches: "@
            }) + argument@,
            ModelArgumentError::Ambiguous { options } => (if chinese {
                "多个供应商都提供该模型，请使用以下之一："@
            } else {
                "Multiple providers offer this model; use one of:"@
            }) + "\n"@ + text::joined(text::views(options@), "\n"@),
        }
    }

    /// What is said of it, in Chinese or in English.
    pub fn message(&self, chinese: bool) -> (r: String)
        ensures
            r@ == self.said(chinese),
    {
        match self {
            ModelArgumentError::OutOfRange { count } => {
                let head = if chinese {
                    "模型序号超出范围，有效范围："
                } else {
                    "The model index is out of range; valid range:"
                };
                text::cat3(head, " 1..=", text::decimal_text(*count as u128).as_str())
            },
            ModelArgumentError::NoMatch { argument } => {
                let head = if chinese {
                    "没有匹配的已配置模型："
                } else {
                    "No configured model matches: "
                };
                text::cat2(head, argument.as_str())
            },
            ModelArgumentError::Ambiguous { options } => {
                let head = if chinese {
                    "多个供应商都提供该模型，请使用以下之一："
                } else {
                    "Multiple providers offer this model; use one of:"
                };
                text::cat3(head, "\n", text::join(options, "\n").as_str())
            },
        }
    }
}

/// The first choice from `i` on whose full name is `a`.
pub open spec fn qualified_from(
    choices: Seq<ProviderModelChoice>,
    a: Seq<char>,
    i: int,
) -> Option<int>
    decreases choices.len() - i,
{
    if i < 0 || i >= choices.len() {
        None
    } else if choices[i].qualified() == a {
        Some(i)
    } else {
        qualified_from(choices, a, i + 1)
    }
}

/// The choices among the first `n` whose model is `a`.
pub open spec fn offering(choices: Seq<ProviderModelChoice>, a: Seq<char>, n: nat) -> Seq<int>
    decreases n,
{
    if n == 0 {
        Seq::empty()
    } else if choices[n - 1].model@ == a {
        offering(choices, a, (n - 1) as nat).push(n - 1)
    } else {
        offering(choices, a, (n - 1) as nat)
    }
}

/// The full names of the choices at some places.
pub open spec fn full_names(choices: Seq<ProviderModelChoice>, at: Seq<int>) -> Seq<Seq<char>> {
    at.map_values(|i: int| choices[i].qualified())
}

/// Whether `r` is what the argument means: a number in the list, a full name, or the name of a
/// model that one provider only has.
pub open spec fn resolved(
    choices: Seq<ProviderModelChoice>,
    argument: Seq<char>,
    r: Result<ProviderModelChoice, ModelArgumentError>,
) -> bool {
    let a = text::trimmed(argument);
    match text::unsigned(a, usize::MAX as nat) {
        Some(n) => if 1 <= n <= choices.len() {
            r == Ok::<ProviderModelChoice, ModelArgumentError>(choices[n - 1])
        } else {
            r matches Err(ModelArgumentError::OutOfRange { count }) && count == choices.len()
        },
        None => match qualified_from(choices, a, 0) {
            Some(i) => r == Ok::<ProviderModelChoice, ModelArgumentError>(choices[i]),
            None => {
                let at = offering(choices, a, choices.len());
                if at.len() == 1 {
                    r == Ok::<ProviderModelChoice, ModelArgumentError>(choices[at[0]])
                } else if at.len() == 0 {
                    r matches Err(ModelArgumentError::NoMatch { argument: q }) && q@ == a
                } else {
                    r matches Err(ModelArgumentError::Ambiguous { options }) && text::views(
                        options@,
                    ) == full_names(choices, at)
                }
            },
        },
    }
}

fn find_qualified(choices: &[ProviderModelChoice], a: &str) -> (r: Option<usize>)
    ensures
        match r {
            Some(i) => i < choices@.len() && qualified_from(choices@, a@, 0) == Some(i as int),
            None => qualified_from(choices@, a@, 0) is None,
        },
{
    let mut i: usize = 0;
    while i < choices.len()
        invariant
            i <= choices@.len(),
            qualified_from(choices@, a@, 0) == qualified_from(choices@, a@, i as int),
        decreases choices@.len() - i,
    {
        let full = text::cat3(choices[i].provider_id.as_str(), "/", choices[i].model.as_str());
        if text::same(full.as_str(), a) {
            return Some(i);
        }
        i = i + 1;
    }
    None
}

/// The places of an offering are places of the list, in their order.
proof fn lemma_offering(choices: Seq<ProviderModelChoice>, a: Seq<char>, n: nat)
    requires
        n <= choices.len(),
    ensures
        forall|k: int|
            0 <= k < offering(choices, a, n).len() ==> {
                &&& 0 <= #[trigger] offering(choices, a, n)[k] < n
                &&& choices[offering(choices, a, n)[k]].model@ == a
            },
        forall|i: int|
            0 <= i < n && (#[trigger] choices[i]).model@ == a ==> offering(
                choices,
                a,
                n,
            ).contains(i),
    decreases n,
{
    if n > 0 {
        lemma_offering(choices, a, (n - 1) as nat);
        let before = offering(choices, a, (n - 1) as nat);
        let now = offering(choices, a, n);
        assert forall|i: int| 0 <= i < n && (#[trigger] choices[i]).model@ == a implies now.contains(
            i,
        ) by {
            if i < n - 1 {
                assert(before.contains(i));
                let k = before.index_of(i);
                assert(now[k] == i);
            } else {
                assert(now[now.len() - 1] == i);
            }
        }
    }
}

/// The choice that an argument means: a number in the list, a full name, or the name of a model
/// that one provider only has.
pub fn resolve_provider_model_argument<'a>(
    choices: &'a [ProviderModelChoice],
    argument: &str,
) -> (r: Result<&'a ProviderModelChoice, ModelArgumentError>)
    ensures
        resolved(
            choices@,
            argument@,
            match r {
                Ok(c) => Ok(*c),
                Err(e) => Err(e),
            },
        ),
{
    let a = text::trim(argument);
    match text::parse_unsigned(a.as_str(), usize::MAX as u64) {
        Some(n) => {
            if 1 <= n && n <= choices.len() as u64 {
                return Ok(&choices[(n - 1) as usize]);
            }
            return Err(ModelArgumentError::OutOfRange { count: choices.len() });
        },
        None => {},
    }
    match find_qualified(choices, a.as_str()) {
        Some(i) => {
            return Ok(&choices[i]);
        },
        None => {},
    }
    let mut options: Vec<String> = Vec::new();
    let mut first: usize = 0;
    let mut i: usize = 0;
    let ghost mut at: Seq<int> = Seq::empty();
    assert(text::views(options@) =~= full_names(choices@, at));
    while i < choices.len()
        invariant
            i <= choices@.len(),
            at == offering(choices@, a@, i as nat),
            text::views(options@) == full_names(choices@, at),
            at.len() > 0 ==> at[0] == first && first < choices@.len(),
        decreases choices@.len() - i,
    {
        if text::same(choices[i].model.as_str(), a.as_str()) {
            if options.len() == 0 {
                first = i;
            }
            let full = text::cat3(choices[i].provider_id.as_str(), "/", choices[i].model.as_str());
            proof {
                text::lemma_views_push(options@, full);
                assert(text::views(options@).len() == options@.len());
                assert(full_names(choices@, at.push(i as int)) =~= full_names(choices@, at).push(
                    choices@[i as int].qualified(),
                ));
                at = at.push(i as int);
            }
            options.push(full);
        }
        i = i + 1;
    }
    assert(text::views(options@).len() == options@.len());
    if options.len() == 1 {
        Ok(&choices[first])
    } else if options.len() == 0 {
        Err(ModelArgumentError::NoMatch { argument: a })
    } else {
        Err(ModelArgumentError::Ambiguous { options })
    }
}

/// The full name of a choice leads to a choice of that full name, and is never ambiguous.
pub proof fn lemma_full_name_resolves(
    choices: Seq<ProviderModelChoice>,
    i: int,
    argument: Seq<char>,
    r: Result<ProviderModelChoice, ModelArgumentError>,
)
    requires
        0 <= i < choices.len(),
        text::trimmed(argument) == choices[i].qualified(),
        resolved(choices, argument, r),
    ensures
        r is Ok,
        r->Ok_0.qualified() == choices[i].qualified(),
{
    lemma_full_name_is_no_number(choices[i]);
    lemma_qualified_found(choices, choices[i].qualified(), i, 0);
}

/// A full name holds a slash and so writes no number.
proof fn lemma_full_name_is_no_number(choice: ProviderModelChoice)
    ensures
        text::unsigned(choice.qualified(), usize::MAX as nat) is None,
{
    reveal_strlit("/");
    let name = choice.qualified();
    let at = choice.provider_id@.len() as int;
    assert(name[at] == '/');
    assert(!text::is_digit(name[at]));
    if name[0] == '+' {
        assert(name.skip(1)[at - 1] == name[at]);
    }
}

proof fn lemma_qualified_found(
    choices: Seq<ProviderModelChoice>,
    a: Seq<char>,
    i: int,
    from: int,
)
    requires
        0 <= from <= i < choices.len(),
        choices[i].qualified() == a,
    ensures
        qualified_from(choices, a, from) is Some,
        0 <= qualified_from(choices, a, from)->0 < choices.len(),
        choices[qualified_from(choices, a, from)->0].qualified() == a,
    decreases i - from,
{
    if choices[from].qualified() != a {
        lemma_qualified_found(choices, a, i, from + 1);
    }
}

/// Where two choices offer the model that is named, and neither bears the name as its full name,
/// the argument is refused as ambiguous.
pub proof fn lemma_ambiguity_is_refused(
    choices: Seq<ProviderModelChoice>,
    i: int,
    j: int,
    argument: Seq<char>,
    r: Result<ProviderModelChoice, ModelArgumentError>,
)
    requires
        0 <= i < j < choices.len(),
        choices[i].model@ == text::trimmed(argument),
        choices[j].model@ == text::trimmed(argument),
        text::unsigned(text::trimmed(argument), usize::MAX as nat) is None,
        qualified_from(choices, text::trimmed(argument), 0) is None,
        resolved(choices, argument, r),
    ensures
        r matches Err(ModelArgumentError::Ambiguous { options }) && options@.len() >= 2,
{
    let a = text::trimmed(argument);
    let at = offering(choices, a, choices.len());
    lemma_offering(choices, a, choices.len());
    let p = at.index_of(i);
    let q = at.index_of(j);
    assert(at.contains(i));
    assert(at.contains(j));
    assert(p != q);
    match r {
        Err(ModelArgumentError::Ambiguous { options }) => {
            assert(text::views(options@).len() == options@.len());
        },
        _ => {},
    }
}

/// What is for everyone is for everyone, what is for developers is for them alone, what is for
/// others is for the others alone, and what is for nobody that is known is for nobody.
pub proof fn lemma_scope(scope: Seq<char>, dev_mode: bool)
    ensures
        text::lowered(text::trimmed(scope)) == "all"@ ==> scope_allows(scope, true)
            && scope_allows(scope, false),
        text::lowered(text::trimmed(scope)) == "dev"@ ==> scope_allows(scope, true)
            && !scope_allows(scope, false),
        text::lowered(text::trimmed(scope)) == "normal"@ ==> !scope_allows(scope, true)
            && scope_allows(scope, false),
        text::lowered(text::trimmed(scope)) != "all"@ && text::lowered(text::trimmed(scope))
            != "dev"@ && text::lowered(text::trimmed(scope)) != "normal"@ ==> !scope_allows(
            scope,
            dev_mode,
        ),
{
    reveal_strlit("all");
    reveal_strlit("dev");
    reveal_strlit("normal");
    assert("all"@[0] == 'a');
    assert("dev"@[0] == 'd');
    assert("normal"@[0] == 'n');
}

/// A number picks the model at its place, counted from one, and no other number picks any.
pub proof fn lemma_number_resolves(
    choices: Seq<ProviderModelChoice>,
    n: usize,
    r: Result<ProviderModelChoice, ModelArgumentError>,
)
    requires
        resolved(choices, text::decimal(n as nat), r),
    ensures
        1 <= n <= choices.len() ==> r == Ok::<ProviderModelChoice, ModelArgumentError>(
            choices[n - 1],
        ),
        n == 0 || n > choices.len() ==> (r matches Err(ModelArgumentError::OutOfRange { count })
            && count == choices.len()),
{
    let d = text::decimal(n as nat);
    text::lemma_decimal_reads_back(n as nat);
    let ends = text::lemma_trimmed(d);
    assert(text::is_digit(d[0]) && text::is_digit(d[d.len() - 1]));
    assert(ends.0 == 0) by {
        if ends.0 > 0 {
            assert(text::is_space(d[0]));
        }
    }
    assert(ends.1 == d.len()) by {
        if ends.1 < d.len() {
            assert(text::is_space(d[d.len() - 1]));
        }
    }
    assert(text::trimmed(d) =~= d);
}

/// A name that is no number and no full name picks the one model of that name, if there is exactly
/// one, and is refused as unknown if there is none.
pub proof fn lemma_model_name_resolves(
    choices: Seq<ProviderModelChoice>,
    argument: Seq<char>,
    r: Result<ProviderModelChoice, ModelArgumentError>,
)
    requires
        resolved(choices, argument, r),
        text::unsigned(text::trimmed(argument), usize::MAX as nat) is None,
        forall|i: int|
            0 <= i < choices.len() ==> (#[trigger] choices[i]).qualified() != text::trimmed(argument),
    ensures
        (forall|i: int|
            0 <= i < choices.len() ==> (#[trigger] choices[i]).model@ != text::trimmed(argument))
            ==> (r matches Err(ModelArgumentError::NoMatch { argument: q }) && q@
            == text::trimmed(argument)),
        forall|k: int|
            0 <= k < choices.len() && (#[trigger] choices[k]).model@ == text::trimmed(argument)
                && (forall|i: int|
                0 <= i < choices.len() && i != k ==> (#[trigger] choices[i]).model@
                    != text::trimmed(argument)) ==> r == Ok::<
                ProviderModelChoice,
                ModelArgumentError,
            >(choices[k]),
{
    let a = text::trimmed(argument);
    lemma_not_qualified(choices, a, 0);
    lemma_offering(choices, a, choices.len());
    lemma_offering_is(choices, a, choices.len());
}

proof fn lemma_not_qualified(choices: Seq<ProviderModelChoice>, a: Seq<char>, from: int)
    requires
        0 <= from <= choices.len(),
        forall|i: int| 0 <= i < choices.len() ==> (#[trigger] choices[i]).qualified() != a,
    ensures
        qualified_from(choices, a, from) is None,
    decreases choices.len() - from,
{
    if from < choices.len() {
        assert(choices[from].qualified() != a);
        lemma_not_qualified(choices, a, from + 1);
    }
}

proof fn lemma_offering_is(choices: Seq<ProviderModelChoice>, a: Seq<char>, n: nat)
    requires
        n <= choices.len(),
    ensures
        (forall|i: int| 0 <= i < n ==> (#[trigger] choices[i]).model@ != a) ==> offering(
            choices,
            a,
            n,
        ).len() == 0,
        forall|k: int|
            0 <= k < n && (#[trigger] choices[k]).model@ == a && (forall|i: int|
                0 <= i < n && i != k ==> (#[trigger] choices[i]).model@ != a) ==> offering(
                choices,
                a,
                n,
            ) == seq![k],
    decreases n,
{
    if n > 0 {
        lemma_offering_is(choices, a, (n - 1) as nat);
        let before = offering(choices, a, (n - 1) as nat);
        assert forall|k: int|
            0 <= k < n && (#[trigger] choices[k]).model@ == a && (forall|i: int|
                0 <= i < n && i != k ==> (#[trigger] choices[i]).model@ != a) implies offering(
            choices,
            a,
            n,
        ) == seq![k] by {
            if k == n - 1 {
                assert(before.len() == 0);
                assert(before.push(k) =~= seq![k]);
            } else {
                assert(choices[n - 1].model@ != a);
                assert(before == seq![k]);
            }
        }
    }
}

}
