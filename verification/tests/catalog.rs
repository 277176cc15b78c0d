use codex_api::catalog::static_model_catalog;
use codex_api::catalog::InputModality;
use codex_api::catalog::ModelsResponse;
use codex_api::catalog::ProviderCapabilities;
use codex_api::catalog::SarvamModelProvider;
use codex_api::catalog::SARVAM_105B_CONTEXT_WINDOW;
use codex_api::catalog::SARVAM_30B_CONTEXT_WINDOW;
use codex_api::protocol::ReasoningEffort;

#[test]
fn catalog_has_both_models_in_priority_order() {
    let catalog = static_model_catalog("prompt");
    assert_eq!(catalog.models.len(), 2);
    assert_eq!(catalog.models[0].slug, "sarvam-105b");
    assert_eq!(catalog.models[1].slug, "sarvam-30b");
}

#[test]
fn both_models_advertise_low_medium_high_reasoning() {
    let catalog = static_model_catalog("prompt");
    for model in &catalog.models {
        let efforts: Vec<ReasoningEffort> = model
            .supported_reasoning_levels
            .iter()
            .map(|p| p.effort)
            .collect();
        assert_eq!(
            efforts,
            vec![ReasoningEffort::Low, ReasoningEffort::Medium, ReasoningEffort::High],
            "model {} should expose exactly low/medium/high",
            model.slug
        );
        assert_eq!(model.default_reasoning_level, Some(ReasoningEffort::Medium));
    }
}

#[test]
fn models_have_correct_context_windows() {
    let catalog = static_model_catalog("prompt");
    let m105b = catalog.models.iter().find(|m| m.slug == "sarvam-105b").unwrap();
    let m30b = catalog.models.iter().find(|m| m.slug == "sarvam-30b").unwrap();
    assert_eq!(m105b.context_window, Some(SARVAM_105B_CONTEXT_WINDOW));
    assert_eq!(m30b.context_window, Some(SARVAM_30B_CONTEXT_WINDOW));
}

#[test]
fn models_are_text_only_no_parallel_tool_calls() {
    let catalog = static_model_catalog("prompt");
    for model in &catalog.models {
        assert_eq!(model.input_modalities, vec![InputModality::Text]);
        assert!(!model.supports_parallel_tool_calls);
        assert!(!model.supports_image_detail_original);
    }
}

#[test]
fn catalog_carries_prompt_and_priorities() {
    let catalog = static_model_catalog("be precise");
    assert_eq!(catalog.models[0].priority, 0);
    assert_eq!(catalog.models[1].priority, 1);
    assert_eq!(catalog.models[0].context_window, Some(128_000));
    assert_eq!(catalog.models[1].max_context_window, Some(64_000));
    for model in &catalog.models {
        assert_eq!(model.base_instructions, "be precise");
        assert_eq!(model.truncation_policy.token_limit, 10_000);
        assert_eq!(model.effective_context_window_percent, 95);
    }
}

#[test]
fn provider_capabilities_and_catalog_choice() {
    let provider = SarvamModelProvider::new("sarvam");
    assert_eq!(*provider.info(), "sarvam");
    assert_eq!(
        provider.capabilities(),
        ProviderCapabilities {
            namespace_tools: false,
            image_generation: false,
            web_search: false,
        }
    );
    let built_in = provider.model_catalog(None, "p");
    assert_eq!(built_in.models.len(), 2);
    let configured = provider.model_catalog(Some(ModelsResponse { models: vec![] }), "p");
    assert!(configured.models.is_empty());
    let state = provider.account_state::<String>();
    assert!(state.account.is_none());
    assert!(!state.requires_openai_auth);
}
