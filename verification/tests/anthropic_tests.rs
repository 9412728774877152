use feathergate::anthropic::{
    anthropic_request_to_json, anthropic_url, convert_request, convert_request_stream,
    convert_response, decode_response, map_stop_reason, upstream_error, AnthropicResponse,
    AnthropicStream, AnthropicUsage, ContentBlock,
};
use feathergate::types::{ChatRequest, Message};
use feathergate::FeatherGateError;

fn request(messages: Vec<Message>) -> ChatRequest {
    ChatRequest {
        model: "anthro".to_string(),
        messages,
        temperature: None,
        max_tokens: None,
        stream: None,
        top_p: None,
    }
}

#[test]
fn anthropic_test_convert_request_with_system() {
    let mut req = request(vec![
        Message::system("You are helpful".to_string()),
        Message::user("Hello".to_string()),
    ]);
    req.temperature = Some(700);
    req.max_tokens = Some(100);

    let anthropic_req = convert_request(&req, "test-model-1");

    assert_eq!(anthropic_req.model, "test-model-1");
    assert_eq!(anthropic_req.system, Some("You are helpful".to_string()));
    assert_eq!(anthropic_req.messages.len(), 1);
    assert_eq!(anthropic_req.messages[0].role, "user");
    assert_eq!(anthropic_req.max_tokens, 100);
    assert_eq!(anthropic_req.temperature, Some(700));
}

#[test]
fn test_convert_request_without_system() {
    let req = request(vec![
        Message::user("Hello".to_string()),
        Message::assistant("Hi".to_string()),
    ]);

    let anthropic_req = convert_request(&req, "test-model-1");

    assert_eq!(anthropic_req.system, None);
    assert_eq!(anthropic_req.messages.len(), 2);
    assert_eq!(anthropic_req.max_tokens, 1024);
}

#[test]
fn test_convert_request_keeps_non_system_order() {
    let req = request(vec![
        Message::user("one".to_string()),
        Message::system("sys".to_string()),
        Message::assistant("two".to_string()),
        Message::user("three".to_string()),
    ]);
    let anthropic_req = convert_request(&req, "test-model-1");
    assert_eq!(anthropic_req.system, Some("sys".to_string()));
    let contents: Vec<&str> = anthropic_req
        .messages
        .iter()
        .map(|m| m.content.as_str())
        .collect();
    assert_eq!(contents, vec!["one", "two", "three"]);
}

#[test]
fn test_convert_request_stream_sets_flag() {
    let req = request(vec![Message::user("Hello".to_string())]);
    let anthropic_req = convert_request_stream(&req, "test-model-1");
    assert_eq!(anthropic_req.stream, Some(true));
}

#[test]
fn anthropic_test_convert_response() {
    let anthropic_resp = AnthropicResponse {
        id: "msg_123".to_string(),
        response_type: "message".to_string(),
        role: "assistant".to_string(),
        content: vec![ContentBlock {
            block_type: "text".to_string(),
            text: "Hello! How can I help?".to_string(),
        }],
        model: "test-model-1".to_string(),
        stop_reason: Some("end_turn".to_string()),
        usage: AnthropicUsage {
            input_tokens: 10,
            output_tokens: 20,
        },
    };

    let openai_resp = convert_response(anthropic_resp);

    assert_eq!(openai_resp.id, "msg_123");
    assert_eq!(openai_resp.object, "chat.completion");
    assert_eq!(openai_resp.model, "test-model-1");
    assert_eq!(openai_resp.choices.len(), 1);
    assert_eq!(openai_resp.choices[0].message.content, "Hello! How can I help?");
    assert_eq!(openai_resp.choices[0].finish_reason, Some("stop".to_string()));
    assert!(openai_resp.usage.is_some());
    assert_eq!(openai_resp.usage.as_ref().unwrap().prompt_tokens, 10);
    assert_eq!(openai_resp.usage.as_ref().unwrap().completion_tokens, 20);
    assert_eq!(openai_resp.usage.as_ref().unwrap().total_tokens, 30);
}

#[test]
fn test_decode_response_full_body() {
    let body = r#"{
        "id": "msg_test",
        "type": "message",
        "role": "assistant",
        "content": [{
            "type": "text",
            "text": "Hello from the upstream!"
        }],
        "model": "test-model-1",
        "stop_reason": "max_tokens",
        "usage": {
            "input_tokens": 15,
            "output_tokens": 25
        }
    }"#;
    let resp = decode_response(body).unwrap();
    assert_eq!(resp.id, "msg_test");
    assert_eq!(resp.choices[0].message.content, "Hello from the upstream!");
    assert_eq!(resp.choices[0].finish_reason, Some("length".to_string()));
    assert_eq!(resp.usage.as_ref().unwrap().total_tokens, 40);
}

#[test]
fn test_decode_response_rejects_malformed_body() {
    let err = decode_response("not json at all").unwrap_err();
    assert!(matches!(err, FeatherGateError::JsonError(_)));
}

#[test]
fn test_map_stop_reason_vocabulary() {
    assert_eq!(map_stop_reason("end_turn"), "stop");
    assert_eq!(map_stop_reason("max_tokens"), "length");
    assert_eq!(map_stop_reason("tool_use"), "tool_use");
    assert_eq!(map_stop_reason(map_stop_reason("end_turn").as_str()), "stop");
    assert_eq!(map_stop_reason(map_stop_reason("max_tokens").as_str()), "length");
}

#[test]
fn test_anthropic_url_building() {
    assert_eq!(anthropic_url(""), "https://api.anthropic.com/v1/messages");
    assert_eq!(
        anthropic_url("https://proxy.example.com//"),
        "https://proxy.example.com/v1/messages"
    );
}

#[test]
fn test_upstream_error_truncates_body() {
    let long_body = "x".repeat(5000);
    let err = upstream_error(500, &long_body);
    match err {
        FeatherGateError::UpstreamError { status, message } => {
            assert_eq!(status, 500);
            assert_eq!(message.chars().count(), "Anthropic API 错误: ".chars().count() + 4096);
        }
        _ => panic!("Expected UpstreamError"),
    }
}

#[test]
fn test_request_serialization_shape() {
    let mut req = request(vec![
        Message::system("sys".to_string()),
        Message::user("Hello".to_string()),
    ]);
    req.temperature = Some(700);
    let anthropic_req = convert_request(&req, "test-model-1");
    let json = anthropic_request_to_json(&anthropic_req);
    assert_eq!(
        json,
        "{\"model\":\"test-model-1\",\"messages\":[{\"role\":\"user\",\
         \"content\":\"Hello\"}],\"system\":\"sys\",\"max_tokens\":1024,\
         \"temperature\":0.7}"
    );
}

#[test]
fn test_stream_translates_events_in_order() {
    let mut stream = AnthropicStream::new("test-model-1".to_string());
    let input = "event: message_start\n\
        data: {\"type\":\"message_start\",\"message\":{\"id\":\"msg_X\",\"model\":\"test-model-1\"}}\n\n\
        data: {\"type\":\"content_block_delta\",\"index\":0,\"delta\":{\"type\":\"text_delta\",\"text\":\"Hi\"}}\n\n\
        data: {\"type\":\"message_delta\",\"delta\":{\"stop_reason\":\"end_turn\"}}\n\n\
        data: {\"type\":\"message_stop\"}\n\n";
    let out = stream.feed(input);
    assert_eq!(out.len(), 3);
    assert!(out[0].contains("\"content\":\"Hi\""));
    assert!(out[0].contains("\"id\":\"msg_X\""));
    assert!(out[0].contains("\"finish_reason\":null"));
    assert!(out[1].contains("\"finish_reason\":\"stop\""));
    assert!(out[1].contains("\"id\":\"msg_X\""));
    assert!(!out[1].contains("\"content\""));
    assert_eq!(out[2], "data: [DONE]\n\n");
}

#[test]
fn test_stream_buffers_partial_event_until_complete() {
    let mut stream = AnthropicStream::new("test-model-1".to_string());
    stream.feed("data: {\"type\":\"message_start\",\"message\":{\"id\":\"msg_1\",\"model\":\"m\"}}\n\n");
    let first = stream.feed("data: {\"type\":\"content_block_delta\",\"index\":0,\"delta\":{\"type\":\"text_del");
    assert!(first.is_empty());
    let second = stream.feed("ta\",\"text\":\"Hello\"}}\n\n");
    assert_eq!(second.len(), 1);
    assert!(second[0].contains("\"content\":\"Hello\""));
}

#[test]
fn test_stream_frame_without_data_line_is_silent() {
    let mut stream = AnthropicStream::new("test-model-1".to_string());
    stream.feed("data: {\"type\":\"message_start\",\"message\":{\"id\":\"msg_1\",\"model\":\"m\"}}\n\n");
    let out = stream.feed("event: ping\nretry: 500\n\n");
    assert!(out.is_empty());
    let after = stream.feed("data: {\"type\":\"content_block_delta\",\"index\":0,\"delta\":{\"type\":\"text_delta\",\"text\":\"ok\"}}\n\n");
    assert_eq!(after.len(), 1);
    assert!(after[0].contains("\"id\":\"msg_1\""));
}

#[test]
fn test_stream_drops_malformed_events() {
    let mut stream = AnthropicStream::new("test-model-1".to_string());
    let out = stream.feed("data: {not json}\n\ndata: {\"type\":\"message_stop\"}\n\n");
    assert_eq!(out.len(), 1);
    assert_eq!(out[0], "data: [DONE]\n\n");
}

#[test]
fn test_stream_decodes_unicode_escapes() {
    let mut stream = AnthropicStream::new("test-model-1".to_string());
    stream.feed("data: {\"type\":\"message_start\",\"message\":{\"id\":\"msg_1\",\"model\":\"m\"}}\n\n");
    let out = stream.feed(
        "data: {\"type\":\"content_block_delta\",\"index\":0,\"delta\":{\"type\":\"text_delta\",\"text\":\"\\u0041\\ud83d\\ude00\"}}\n\n",
    );
    assert_eq!(out.len(), 1);
    assert!(out[0].contains("A😀"));
}
