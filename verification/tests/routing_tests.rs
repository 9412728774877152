use feathergate::config::{Config, LitellmParams, ModelConfig};
use feathergate::routing::{determine_provider, plan_route, ProviderKind};
use feathergate::FeatherGateError;

fn entry(name: &str, model: &str) -> ModelConfig {
    ModelConfig {
        model_name: name.to_string(),
        litellm_params: LitellmParams {
            model: model.to_string(),
            api_key: "sk-test".to_string(),
            api_base: String::new(),
        },
    }
}

fn test_config() -> Config {
    Config {
        model_list: vec![
            entry("gpt-4", "openai/gpt-4"),
            entry("anthro", "anthropic/test-model-1"),
            entry("gemini", "gemini/gemini-pro"),
        ],
    }
}

#[test]
fn test_determine_provider() {
    assert_eq!(determine_provider("openai/gpt-4").unwrap(), "openai");
    assert_eq!(
        determine_provider("anthropic/test-model-1").unwrap(),
        "anthropic"
    );
    assert_eq!(determine_provider("gemini/gemini-pro").unwrap(), "gemini");
}

#[test]
fn test_determine_provider_invalid() {
    assert!(determine_provider("invalid").is_err());
}

#[test]
fn test_plan_route_selects_adapters() {
    let config = test_config();

    let (kind, entry, model_id) = plan_route(&config, "gpt-4").unwrap();
    assert_eq!(kind, ProviderKind::OpenAi);
    assert_eq!(entry.model_name, "gpt-4");
    assert_eq!(model_id, "gpt-4");

    let (kind, _, model_id) = plan_route(&config, "anthro").unwrap();
    assert_eq!(kind, ProviderKind::Anthropic);
    assert_eq!(model_id, "test-model-1");

    let (kind, _, model_id) = plan_route(&config, "gemini").unwrap();
    assert_eq!(kind, ProviderKind::Gemini);
    assert_eq!(model_id, "gemini-pro");
}

#[test]
fn test_plan_route_model_not_found() {
    let config = test_config();
    let err = plan_route(&config, "non-existent").unwrap_err();
    assert!(matches!(err, FeatherGateError::ModelNotFound(_)));
}

#[test]
fn test_plan_route_unsupported_provider() {
    let config = Config {
        model_list: vec![entry("unknown", "unknown-provider/model")],
    };
    let err = plan_route(&config, "unknown").unwrap_err();
    assert!(matches!(err, FeatherGateError::UnsupportedProvider(_)));
}

#[test]
fn test_plan_route_invalid_model_string() {
    let config = Config {
        model_list: vec![entry("bad", "no-slash-here")],
    };
    let err = plan_route(&config, "bad").unwrap_err();
    assert!(matches!(err, FeatherGateError::InvalidModelString(_)));
}
