//! Providers, their models and their keys.

use nonoka::provider::{
    relay_scope_allows, resolve_provider_model_argument, ActiveProviderModelConfig,
    ModelArgumentError, ModelTier, ProviderModelChoice, SubagentTiersConfig,
};
use nonoka::provider_config::{
    active_model_exists, active_model_supports_image, append_resolved_api_keys,
    is_positive_decimal_id, split_api_keys, validate_unique_existing_pool, CatalogEntry,
    EmbeddingConfig, KeyError, ModelCatalog, PoolError, ProviderConfig, ProviderDefaults,
    DEFAULT_MIN_SCORE_BITS,
};
use nonoka::textmap::TextMap;

fn texts(list: &[&str]) -> Vec<String> {
    list.iter().map(|s| s.to_string()).collect()
}

fn defaults() -> ProviderDefaults {
    ProviderDefaults {
        vendor: "agent".to_string(),
        vendor_title: "Agent".to_string(),
        protocol: "openai-chat".to_string(),
        timeout_seconds: 120,
        temperature_bits: 0x3f33_3333,
        anthropic_max_tokens: 8192,
        opencode_id: "opencode".to_string(),
        opencode_url: "https://opencode.ai/zen/v1".to_string(),
        opencode_model: "free".to_string(),
    }
}

fn catalog() -> ModelCatalog {
    ModelCatalog { entries: vec![] }
}

fn active(provider_id: &str, model: &str) -> ActiveProviderModelConfig {
    ActiveProviderModelConfig {
        provider_id: provider_id.to_string(),
        model: model.to_string(),
    }
}

fn choice(provider_id: &str, model: &str) -> ProviderModelChoice {
    ProviderModelChoice {
        provider_id: provider_id.to_string(),
        provider_name: provider_id.to_uppercase(),
        model: model.to_string(),
    }
}

#[test]
fn tiers_have_pools() {
    let mut tiers = SubagentTiersConfig {
        cheap: vec![],
        balanced: vec![],
        strong: vec![],
    };
    assert!(tiers.is_empty());
    tiers.pool_mut(ModelTier::Strong).push(active("p", "m"));
    assert!(!tiers.is_empty());
    assert_eq!(tiers.pool(ModelTier::Strong).len(), 1);
    assert!(tiers.pool(ModelTier::Cheap).is_empty());
    assert!(tiers.pool(ModelTier::Balanced).is_empty());
    assert!(SubagentTiersConfig::default().is_empty());
    assert_eq!(
        ModelTier::all(),
        [ModelTier::Cheap, ModelTier::Balanced, ModelTier::Strong]
    );
    for tier in ModelTier::all() {
        assert_eq!(ModelTier::from_str(tier.label()), Some(tier));
    }
    assert_eq!(ModelTier::from_str("none"), None);
}

#[test]
fn scopes_allow_by_mode() {
    assert!(!relay_scope_allows("off", true));
    assert!(relay_scope_allows("dev", true));
    assert!(!relay_scope_allows("dev", false));
    assert!(relay_scope_allows("normal", false));
    assert!(!relay_scope_allows("normal", true));
    assert!(relay_scope_allows("all", true));
    assert!(relay_scope_allows("all", false));
}

#[test]
fn models_are_found_by_number_name_or_full_name() {
    let choices = vec![choice("a", "x"), choice("b", "x"), choice("b", "y")];
    let found = |argument: &str| {
        resolve_provider_model_argument(&choices, argument).map(|c| c.value())
    };
    assert_eq!(found("1").unwrap(), "a\tx");
    assert_eq!(found(" 3 ").unwrap(), "b\ty");
    assert_eq!(found("y").unwrap(), "b\ty");
    assert_eq!(found("b/x").unwrap(), "b\tx");
    assert_eq!(choices[2].label(), "B / y");
    let error = found("4").unwrap_err();
    assert!(matches!(error, ModelArgumentError::OutOfRange { count: 3 }));
    assert_eq!(
        error.message(false),
        "The model index is out of range; valid range: 1..=3"
    );
    let error = found("x").unwrap_err();
    assert_eq!(
        error.message(false),
        "Multiple providers offer this model; use one of:\na/x\nb/x"
    );
    let error = found("z").unwrap_err();
    assert_eq!(error.message(false), "No configured model matches: z");
    assert_eq!(error.message(true), "没有匹配的已配置模型：z");
    assert!(found("0").is_err());
}

#[test]
fn keys_are_split_and_looked_up() {
    assert_eq!(split_api_keys(" a, b\n\n,c "), vec!["a", "b", "c"]);
    let mut env: TextMap<String> = TextMap::new();
    env.insert("KEY", " secret ".to_string());
    let mut keys = vec![];
    append_resolved_api_keys(&mut keys, "one,$env:KEY", &env).unwrap();
    assert_eq!(keys.len(), 2);
    assert_eq!((keys[1].index, keys[1].value.as_str()), (1, "secret"));
    let error = append_resolved_api_keys(&mut keys, "three,$env:NONE,four", &env).unwrap_err();
    assert!(matches!(error, KeyError::Unset { ref variable } if variable == "NONE"));
    assert_eq!(error.message(), "environment variable NONE is not set");
    assert_eq!(keys.len(), 3);
    assert_eq!((keys[2].index, keys[2].value.as_str()), (2, "three"));
}

#[test]
fn a_provider_needs_a_key_unless_it_is_public() {
    let env: TextMap<String> = TextMap::new();
    let mut p = ProviderConfig::template("local", "Local", "http://x", &defaults());
    p.api_key = Some("k".to_string());
    let keys = p.resolved_api_keys(&env, &defaults()).unwrap();
    assert_eq!(keys[0].value, "k");
    p.api_key = None;
    assert!(matches!(
        p.resolved_api_keys(&env, &defaults()),
        Err(KeyError::NoKey { provider }) if provider == "local"
    ));
    let mut zen = ProviderConfig::default_opencodezen(&defaults());
    zen.api_key = None;
    assert!(zen.is_opencode_zen(&defaults()));
    let keys = zen.resolved_api_keys(&env, &defaults()).unwrap();
    assert_eq!(keys[0].value, "public");
}

#[test]
fn templates_are_what_they_say() {
    assert!(ProviderConfig::claude_code_template(&defaults()).is_claude_code(&defaults()));
    assert!(ProviderConfig::codex_template(&defaults()).is_codex());
    assert!(ProviderConfig::antigravity_template(&defaults()).is_antigravity());
    for p in [
        ProviderConfig::claude_code_template(&defaults()),
        ProviderConfig::codex_template(&defaults()),
        ProviderConfig::antigravity_template(&defaults()),
    ] {
        assert!(p.is_builtin_cli_provider(&defaults()));
        assert!(!p.preset_model_catalog(&defaults()).is_empty());
    }
    let plain = ProviderConfig::new_custom(&defaults());
    assert!(!plain.is_builtin_cli_provider(&defaults()));
    assert!(plain.preset_model_catalog(&defaults()).is_empty());
    assert!(!ProviderConfig::default_templates(&defaults()).is_empty());
    let agent = ProviderConfig::claude_code_template(&defaults());
    assert_eq!(agent.id, "agent-code");
    assert_eq!(agent.display_name, "Agent Code");
    assert_eq!(agent.protocol, "agent-code");
    assert_eq!(agent.default_model, "sonnet");
    assert!(agent.has_configured_model("opus"));
    assert!(!agent.has_configured_model("none"));
    let mut anthropic = ProviderConfig::default_anthropic(&defaults());
    assert!(!anthropic.is_legacy_default_anthropic_model(&defaults()));
    anthropic.models = texts(&["agent-sonnet-4-5"]);
    anthropic.default_model = "agent-sonnet-4-5".to_string();
    assert!(anthropic.is_legacy_default_anthropic_model(&defaults()));
}

#[test]
fn a_model_may_have_its_own_temperature() {
    let mut p = ProviderConfig::template("local", "Local", "http://x", &defaults());
    p.default_model = "m".to_string();
    let usual = p.effective_temperature();
    assert_eq!(usual, 0x3f33_3333);
    p.model_temperature.insert("m", 0x3f80_0000);
    assert_eq!(p.effective_temperature(), 0x3f80_0000);
}

#[test]
fn pools_name_each_model_once_and_only_known_ones() {
    let mut p = ProviderConfig::template("local", "Local", "http://x", &defaults());
    p.models = texts(&["see", "read"]);
    p.model_modalities.insert("see", texts(&["text", "image"]));
    p.model_modalities.insert("read", texts(&["text"]));
    let providers = vec![p];
    assert!(active_model_exists(&providers, &active("local", "read")));
    assert!(!active_model_exists(&providers, &active("other", "read")));
    assert!(active_model_supports_image(&providers, &active("local", "see"), &catalog()));
    assert!(!active_model_supports_image(&providers, &active("local", "read"), &catalog()));
    let check = |pool: Vec<ActiveProviderModelConfig>, image: bool| {
        validate_unique_existing_pool(&providers, "pool", &pool, image, &catalog())
    };
    assert!(check(vec![active("local", "see"), active("local", "read")], false).is_ok());
    assert!(matches!(
        check(vec![active("local", "see"), active("local", "see")], false),
        Err(PoolError::Duplicate { .. })
    ));
    assert!(matches!(
        check(vec![active("local", "read")], true),
        Err(PoolError::Unknown { image: true, .. })
    ));
    assert!(matches!(
        check(vec![active("local", "none")], false),
        Err(PoolError::Unknown { image: false, .. })
    ));
}

#[test]
fn the_catalog_tells_what_a_provider_does_not() {
    let catalog = ModelCatalog {
        entries: vec![CatalogEntry {
            provider_id: "local".to_string(),
            model: "m".to_string(),
            modalities: texts(&["text", "image"]),
        }],
    };
    let p = ProviderConfig::template("local", "Local", "http://x", &defaults());
    assert_eq!(p.supports_vision("m", &catalog), Some(true));
    assert_eq!(p.supports_vision("n", &catalog), None);
    assert_eq!(
        p.input_modalities("m", &catalog),
        Some(texts(&["text", "image"]))
    );
}

#[test]
fn ids_are_positive_decimals() {
    assert!(is_positive_decimal_id("12"));
    for id in ["", "0", "-1", "1a", "١"] {
        assert!(!is_positive_decimal_id(id), "{id}");
    }
}

#[test]
fn vectors_are_set_up_by_provider_and_model() {
    let mut e = EmbeddingConfig::default();
    assert!(e.is_default());
    assert!(!e.is_configured());
    assert_eq!(e.min_score_bits, DEFAULT_MIN_SCORE_BITS);
    assert_eq!(f32::from_bits(e.min_score_bits), 0.35f32);
    e.provider_id = "p".to_string();
    e.model = "m".to_string();
    assert!(!e.is_default());
    assert!(e.is_configured());
}

#[test]
fn results_of_tools_carry_media_unless_the_provider_refuses_them() {
    let defaults = defaults();
    let mut provider = ProviderConfig::new_custom(&defaults);
    provider.base_url = "https://relay.example/v1".to_string();
    assert!(provider.tool_result_carries_media(&defaults));
    provider.base_url = " https://API.openai.com/v1".to_string();
    assert!(!provider.tool_result_carries_media(&defaults));
    provider.tool_result_media = Some(true);
    assert!(provider.tool_result_carries_media(&defaults));
    provider.tool_result_media = None;
    provider.base_url = "https://relay.example/v1".to_string();
    provider.protocol = " anthropic ".to_string();
    assert!(!provider.tool_result_carries_media(&defaults));
    let mut program = ProviderConfig::codex_template(&defaults);
    assert!(!program.tool_result_carries_media(&defaults));
    program.tool_result_media = Some(false);
    assert!(!program.tool_result_carries_media(&defaults));
}
