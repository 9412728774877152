use feathergate::config::{parse_model_string, Config, LitellmParams, ModelConfig};
use feathergate::FeatherGateError;

fn entry(name: &str, model: &str, api_key: &str, api_base: &str) -> ModelConfig {
    ModelConfig {
        model_name: name.to_string(),
        litellm_params: LitellmParams {
            model: model.to_string(),
            api_key: api_key.to_string(),
            api_base: api_base.to_string(),
        },
    }
}

#[test]
fn test_parse_model_string_valid() {
    let (provider, model_id) = parse_model_string("openai/gpt-4").unwrap();
    assert_eq!(provider, "openai");
    assert_eq!(model_id, "gpt-4");

    let (provider, model_id) = parse_model_string("anthropic/test-model-1").unwrap();
    assert_eq!(provider, "anthropic");
    assert_eq!(model_id, "test-model-1");

    let (provider, model_id) = parse_model_string("gemini/gemini-pro").unwrap();
    assert_eq!(provider, "gemini");
    assert_eq!(model_id, "gemini-pro");
}

#[test]
fn test_parse_model_string_invalid() {
    assert!(parse_model_string("invalid").is_err());
    assert!(parse_model_string("too/many/parts").is_err());
    assert!(parse_model_string("/empty-provider").is_err());
    assert!(parse_model_string("empty-model/").is_err());
}

#[test]
fn test_parse_model_string_round_trip() {
    for s in ["openai/gpt-4", "anthropic/test-model-1", "a/b"] {
        let (provider, model_id) = parse_model_string(s).unwrap();
        assert_eq!(format!("{}/{}", provider, model_id), s);
    }
}

#[test]
fn test_find_model() {
    let config = Config {
        model_list: vec![
            entry("gpt-4", "openai/gpt-4", "sk-test", ""),
            entry("anthro", "anthropic/test-model-1", "sk-ant-test", ""),
        ],
    };

    let model = config.find_model("gpt-4");
    assert!(model.is_some());
    assert_eq!(model.unwrap().litellm_params.model, "openai/gpt-4");

    let model = config.find_model("non-existent");
    assert!(model.is_none());
}

#[test]
fn test_find_model_first_match_wins() {
    let config = Config {
        model_list: vec![
            entry("dup", "openai/gpt-4", "first-key", ""),
            entry("dup", "anthropic/test-model-1", "second-key", ""),
        ],
    };
    let found = config.find_model("dup").unwrap();
    assert_eq!(found.litellm_params.api_key, "first-key");
    assert_eq!(found.litellm_params.model, "openai/gpt-4");
}

#[test]
fn test_models_list_json() {
    let config = Config {
        model_list: vec![
            entry("gpt-4", "openai/gpt-4", "sk-test", ""),
            entry("gemini", "gemini/gemini-pro", "sk-g", ""),
        ],
    };
    let json = feathergate::config::models_list_json(&config);
    assert_eq!(
        json,
        "{\"data\":[{\"id\":\"gpt-4\",\"object\":\"model\",\"owned_by\":\"feathergate\"},\
         {\"id\":\"gemini\",\"object\":\"model\",\"owned_by\":\"feathergate\"}],\
         \"object\":\"list\"}"
    );
}

#[test]
fn test_config_validation_empty_model_list() {
    let config = Config { model_list: vec![] };
    let result = config.validate();
    assert!(result.is_err());
}

#[test]
fn test_config_validation_rejects_empty_fields() {
    let config = Config {
        model_list: vec![entry("", "openai/gpt-4", "sk", "")],
    };
    assert!(matches!(
        config.validate().unwrap_err(),
        FeatherGateError::ConfigError(_)
    ));

    let config = Config {
        model_list: vec![entry("gpt-4", "", "sk", "")],
    };
    assert!(config.validate().is_err());

    let config = Config {
        model_list: vec![entry("gpt-4", "openai/gpt-4", "", "")],
    };
    assert!(config.validate().is_err());

    let config = Config {
        model_list: vec![entry("gpt-4", "openai/gpt-4", "sk", "")],
    };
    assert!(config.validate().is_ok());
}
