use growcli_chat::json::JsonValue;
use growcli_chat::provider::create_tools_json_for_provider;
use growcli_chat::provider::provider_uses_growthcircle_compat;
use growcli_chat::provider::Provider;

fn provider(name: &str, base_url: &str) -> Provider {
    Provider {
        name: name.to_string(),
        base_url: base_url.to_string(),
    }
}

fn tool(name: Option<JsonValue>, kind: &str) -> JsonValue {
    let mut fields = Vec::new();
    if let Some(n) = name {
        fields.push(("name".to_string(), n));
    }
    fields.push(("type".to_string(), JsonValue::String(kind.to_string())));
    JsonValue::Object(fields)
}

fn tools() -> Vec<JsonValue> {
    vec![
        tool(Some(JsonValue::String("shell".to_string())), "function"),
        tool(None, "local_shell"),
        tool(Some(JsonValue::String("  ".to_string())), "function"),
        tool(Some(JsonValue::Number("7".to_string())), "function"),
        tool(Some(JsonValue::String("apply_patch".to_string())), "custom"),
    ]
}

#[test]
fn growthcircle_is_recognised_by_name_or_url() {
    assert!(provider_uses_growthcircle_compat(&provider("growthcircle", "https://x.test")));
    assert!(provider_uses_growthcircle_compat(&provider("GrowthCircle", "https://x.test")));
    assert!(provider_uses_growthcircle_compat(&provider(
        "GrowthCircle Staging",
        "https://ai.growthcircle.id/v1"
    )));
    assert!(!provider_uses_growthcircle_compat(&provider(
        "GrowthCircle Staging",
        "https://growthcircle.id/v1"
    )));
    assert!(!provider_uses_growthcircle_compat(&provider("openai", "https://api.openai.com/v1")));
    assert!(!provider_uses_growthcircle_compat(&provider("growthcircle ", "")));
}

#[test]
fn growthcircle_drops_unnamed_tools() {
    let kept = create_tools_json_for_provider(&provider("growthcircle", ""), tools());
    assert_eq!(
        kept,
        vec![
            tool(Some(JsonValue::String("shell".to_string())), "function"),
            tool(Some(JsonValue::String("apply_patch".to_string())), "custom"),
        ]
    );
}

#[test]
fn other_providers_keep_every_tool() {
    let kept = create_tools_json_for_provider(&provider("openai", "https://api.openai.com/v1"), tools());
    assert_eq!(kept, tools());
}

#[test]
fn filtering_twice_is_filtering_once() {
    let p = provider("growthcircle", "");
    let once = create_tools_json_for_provider(&p, tools());
    let twice = create_tools_json_for_provider(&p, create_tools_json_for_provider(&p, tools()));
    assert_eq!(once, twice);
}
