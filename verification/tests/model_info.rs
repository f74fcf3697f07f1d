use growcli_chat::model_info::default_input_modalities;
use growcli_chat::model_info::model_info_from_slug;
use growcli_chat::model_info::with_config_overrides;
use growcli_chat::model_info::ModelsManagerConfig;
use growcli_chat::model_info::ReasoningEffort;
use growcli_chat::model_info::ReasoningEffortPreset;

#[test]
fn reasoning_summaries_override_true_enables_support() {
    let model = model_info_from_slug("unknown-model");
    let config = ModelsManagerConfig {
        model_supports_reasoning_summaries: Some(true),
        ..Default::default()
    };

    let updated = with_config_overrides(model.clone(), &config);
    let mut expected = model;
    expected.supports_reasoning_summaries = true;

    assert_eq!(updated, expected);
}

#[test]
fn reasoning_summaries_override_false_does_not_disable_support() {
    let mut model = model_info_from_slug("unknown-model");
    model.supports_reasoning_summaries = true;
    let config = ModelsManagerConfig {
        model_supports_reasoning_summaries: Some(false),
        ..Default::default()
    };

    let updated = with_config_overrides(model.clone(), &config);

    assert_eq!(updated, model);
}

#[test]
fn reasoning_summaries_override_false_is_noop_when_model_is_false() {
    let model = model_info_from_slug("unknown-model");
    let config = ModelsManagerConfig {
        model_supports_reasoning_summaries: Some(false),
        ..Default::default()
    };

    let updated = with_config_overrides(model.clone(), &config);

    assert_eq!(updated, model);
}

#[test]
fn model_context_window_override_clamps_to_max_context_window() {
    let mut model = model_info_from_slug("unknown-model");
    model.context_window = Some(273_000);
    model.max_context_window = Some(400_000);
    let config = ModelsManagerConfig {
        model_context_window: Some(500_000),
        ..Default::default()
    };

    let updated = with_config_overrides(model.clone(), &config);
    let mut expected = model;
    expected.context_window = Some(400_000);

    assert_eq!(updated, expected);
}

#[test]
fn model_context_window_uses_model_value_without_override() {
    let mut model = model_info_from_slug("unknown-model");
    model.context_window = Some(273_000);
    model.max_context_window = Some(400_000);
    let config = ModelsManagerConfig::default();

    let updated = with_config_overrides(model.clone(), &config);

    assert_eq!(updated, model);
}

#[test]
fn fallback_gpt5_model_enables_reasoning_metadata() {
    let model = model_info_from_slug("gpt-5.5-preview");

    assert!(model.supports_reasoning_summaries);
    assert_eq!(model.input_modalities, default_input_modalities());
    assert_eq!(
        model.supported_reasoning_levels,
        vec![
            ReasoningEffortPreset {
                effort: ReasoningEffort::Low,
                description: "Fast responses with lighter reasoning".to_string(),
            },
            ReasoningEffortPreset {
                effort: ReasoningEffort::Medium,
                description: "Balances speed and reasoning depth for everyday tasks".to_string(),
            },
            ReasoningEffortPreset {
                effort: ReasoningEffort::High,
                description: "Greater reasoning depth for complex problems".to_string(),
            },
            ReasoningEffortPreset {
                effort: ReasoningEffort::XHigh,
                description: "Extra high reasoning depth for complex problems".to_string(),
            },
        ]
    );
}

#[test]
fn fallback_non_chat_model_does_not_enable_reasoning_metadata() {
    let model = model_info_from_slug("text-embedding-3-large");

    assert!(!model.supports_reasoning_summaries);
    assert!(model.supported_reasoning_levels.is_empty());
    assert!(model.input_modalities.is_empty());
}

#[test]
fn context_window_override_without_max_is_taken_as_given() {
    let model = model_info_from_slug("unknown-model");
    let config = ModelsManagerConfig {
        model_context_window: Some(500_000),
        ..Default::default()
    };
    let updated = with_config_overrides(model, &config);
    assert_eq!(updated.context_window, Some(500_000));
}

#[test]
fn context_window_override_below_max_is_kept() {
    let mut model = model_info_from_slug("unknown-model");
    model.max_context_window = Some(400_000);
    let config = ModelsManagerConfig {
        model_context_window: Some(100_000),
        ..Default::default()
    };
    let updated = with_config_overrides(model, &config);
    assert_eq!(updated.context_window, Some(100_000));
}

#[test]
fn unknown_chat_model_accepts_text_and_images_without_reasoning() {
    let model = model_info_from_slug("unknown-model");
    assert!(!model.supports_reasoning_summaries);
    assert!(model.supported_reasoning_levels.is_empty());
    assert_eq!(model.input_modalities, default_input_modalities());
    assert_eq!(model.slug, "unknown-model");
}

#[test]
fn applying_overrides_twice_is_applying_them_once() {
    let mut model = model_info_from_slug("unknown-model");
    model.max_context_window = Some(400_000);
    let config = ModelsManagerConfig {
        model_supports_reasoning_summaries: Some(true),
        model_context_window: Some(500_000),
    };
    let once = with_config_overrides(model, &config);
    let twice = with_config_overrides(once.clone(), &config);
    assert_eq!(once, twice);
    assert_eq!(once.context_window, Some(400_000));
}
