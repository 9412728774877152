use feathergate::types::{ChatRequest, ChatResponse, Choice, Message, Usage};

fn base_request() -> ChatRequest {
    ChatRequest {
        model: "gpt-4".to_string(),
        messages: vec![Message::user("test".to_string())],
        temperature: None,
        max_tokens: None,
        stream: None,
        top_p: None,
    }
}

#[test]
fn test_message_constructors() {
    let user_msg = Message::user("Hello".to_string());
    assert_eq!(user_msg.role, "user");
    assert_eq!(user_msg.content, "Hello");

    let assistant_msg = Message::assistant("Hi there".to_string());
    assert_eq!(assistant_msg.role, "assistant");
    assert_eq!(assistant_msg.content, "Hi there");

    let system_msg = Message::system("You are helpful".to_string());
    assert_eq!(system_msg.role, "system");
    assert_eq!(system_msg.content, "You are helpful");
}

#[test]
fn test_chat_request_serialization() {
    let req = ChatRequest {
        model: "gpt-4".to_string(),
        messages: vec![Message::user("test".to_string())],
        temperature: Some(700),
        max_tokens: Some(100),
        stream: None,
        top_p: None,
    };

    let json = req.to_json();
    assert!(json.contains("\"model\":\"gpt-4\""));
    assert!(json.contains("\"temperature\":0.7"));
    assert!(!json.contains("stream"));
}

#[test]
fn test_chat_request_deserialization() {
    let json = r#"{
        "model": "gpt-4",
        "messages": [
            {"role": "user", "content": "Hello"}
        ],
        "temperature": 0.8
    }"#;

    let req = ChatRequest::from_json(json).unwrap();
    assert_eq!(req.model, "gpt-4");
    assert_eq!(req.messages.len(), 1);
    assert_eq!(req.messages[0].role, "user");
    assert_eq!(req.temperature, Some(800));
    assert_eq!(req.max_tokens, None);
}

#[test]
fn test_chat_request_round_trip_omits_absent_fields() {
    let req = ChatRequest {
        model: "gpt-4".to_string(),
        messages: vec![Message::user("Hello".to_string())],
        temperature: None,
        max_tokens: None,
        stream: None,
        top_p: None,
    };
    let json = req.to_json();
    assert!(!json.contains("temperature"));
    assert!(!json.contains("max_tokens"));
    assert!(!json.contains("stream"));
    assert!(!json.contains("top_p"));
    assert!(!json.contains("null"));

    let back = ChatRequest::from_json(&json).unwrap();
    assert_eq!(back.model, req.model);
    assert_eq!(back.messages.len(), 1);
    assert_eq!(back.messages[0].role, "user");
    assert_eq!(back.messages[0].content, "Hello");
    assert_eq!(back.temperature, None);
    assert_eq!(back.max_tokens, None);
    assert_eq!(back.stream, None);
    assert_eq!(back.top_p, None);
}

#[test]
fn test_chat_response_simple() {
    let resp = ChatResponse::simple("gpt-4".to_string(), "Hello!".to_string());
    assert_eq!(resp.object, "chat.completion");
    assert_eq!(resp.model, "gpt-4");
    assert_eq!(resp.choices.len(), 1);
    assert_eq!(resp.choices[0].message.content, "Hello!");
    assert_eq!(resp.choices[0].finish_reason, Some("stop".to_string()));
}

#[test]
fn test_chat_response_simple_mints_fresh_id() {
    let resp = ChatResponse::simple("gpt-4".to_string(), "Hello!".to_string());
    assert!(resp.id.starts_with("chatcmpl-"));
    assert!(resp.id.len() > "chatcmpl-".len());
    let other = ChatResponse::simple("gpt-4".to_string(), "Hello!".to_string());
    assert_ne!(resp.id, other.id);
}

#[test]
fn test_chat_response_serialization() {
    let resp = ChatResponse {
        id: "test-id".to_string(),
        object: "chat.completion".to_string(),
        created: 1234567890,
        model: "gpt-4".to_string(),
        choices: vec![Choice {
            index: 0,
            message: Message::assistant("Response".to_string()),
            finish_reason: Some("stop".to_string()),
        }],
        usage: Some(Usage {
            prompt_tokens: 10,
            completion_tokens: 20,
            total_tokens: 30,
        }),
    };

    let json = resp.to_json();
    assert!(json.contains("\"id\":\"test-id\""));
    assert!(json.contains("\"prompt_tokens\":10"));
}

#[test]
fn test_chat_response_round_trip() {
    let resp = ChatResponse {
        id: "test-id".to_string(),
        object: "chat.completion".to_string(),
        created: 1234567890,
        model: "gpt-4".to_string(),
        choices: vec![Choice {
            index: 0,
            message: Message::assistant("Response".to_string()),
            finish_reason: None,
        }],
        usage: None,
    };
    let json = resp.to_json();
    let back = ChatResponse::from_json(&json).unwrap();
    assert_eq!(back.id, "test-id");
    assert_eq!(back.created, 1234567890);
    assert_eq!(back.choices.len(), 1);
    assert_eq!(back.choices[0].finish_reason, None);
    assert!(back.usage.is_none());
}

#[test]
fn test_from_json_rejects_out_of_range_token_count() {
    let json = "{\"model\":\"gpt-4\",\"messages\":[{\"role\":\"user\",\"content\":\"hi\"}],\
                \"max_tokens\":99999999999}";
    assert!(ChatRequest::from_json(json).is_none());
}

#[test]
fn test_from_json_rejects_exponent_temperature() {
    let json = "{\"model\":\"gpt-4\",\"messages\":[{\"role\":\"user\",\"content\":\"hi\"}],\
                \"temperature\":1e2}";
    assert!(ChatRequest::from_json(json).is_none());
}

#[test]
fn test_from_json_reads_negative_temperature() {
    let json = "{\"model\":\"gpt-4\",\"messages\":[{\"role\":\"user\",\"content\":\"hi\"}],\
                \"temperature\":-0.5}";
    let req = ChatRequest::from_json(json).unwrap();
    assert_eq!(req.temperature, Some(-500));
    assert!(req.validate().is_err());
}

#[test]
fn test_from_json_rejects_missing_model() {
    let json = "{\"messages\":[{\"role\":\"user\",\"content\":\"hi\"}]}";
    assert!(ChatRequest::from_json(json).is_none());
}

#[test]
fn test_validate_temperature_valid() {
    let mut req = base_request();
    req.temperature = Some(1000);
    assert!(req.validate().is_ok());
}

#[test]
fn test_validate_temperature_invalid() {
    let mut req = base_request();
    req.temperature = Some(3000);
    assert!(req.validate().is_err());
}

#[test]
fn test_validate_top_p_invalid() {
    let mut req = base_request();
    req.top_p = Some(1500);
    assert!(req.validate().is_err());
}

#[test]
fn test_validate_empty_messages() {
    let mut req = base_request();
    req.messages = vec![];
    assert!(req.validate().is_err());
}

#[test]
fn test_validate_out_of_bounds_temperature_names_the_value() {
    let mut req = base_request();
    req.temperature = Some(2100);
    let err = req.validate().unwrap_err();
    assert_eq!(err, "temperature 必须在 0.0 到 2.0 之间，当前值: 2.1");
}
