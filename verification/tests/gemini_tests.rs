use feathergate::gemini::{
    convert_request, convert_response, decode_response, gemini_request_to_json, gemini_url,
    map_finish_reason, upstream_error, Candidate, GeminiContentResponse, GeminiPartResponse,
    GeminiResponse, GeminiStream, UsageMetadata,
};
use feathergate::types::{ChatRequest, Message};
use feathergate::FeatherGateError;

fn request(messages: Vec<Message>) -> ChatRequest {
    ChatRequest {
        model: "gemini".to_string(),
        messages,
        temperature: None,
        max_tokens: None,
        stream: None,
        top_p: None,
    }
}

#[test]
fn test_convert_request_basic() {
    let mut req = request(vec![Message::user("Hello".to_string())]);
    req.temperature = Some(700);
    req.max_tokens = Some(100);

    let gemini_req = convert_request(&req);

    assert_eq!(gemini_req.contents.len(), 1);
    assert_eq!(gemini_req.contents[0].role, "user");
    assert_eq!(gemini_req.contents[0].parts[0].text, "Hello");
    assert!(gemini_req.generation_config.is_some());
    assert_eq!(
        gemini_req.generation_config.as_ref().unwrap().temperature,
        Some(700)
    );
}

#[test]
fn gemini_test_convert_request_with_system() {
    let req = request(vec![
        Message::system("You are helpful".to_string()),
        Message::user("Hello".to_string()),
    ]);

    let gemini_req = convert_request(&req);

    assert_eq!(gemini_req.contents.len(), 1);
    assert_eq!(gemini_req.contents[0].role, "user");
    assert!(gemini_req.contents[0].parts[0].text.contains("You are helpful"));
    assert!(gemini_req.contents[0].parts[0].text.contains("Hello"));
}

#[test]
fn test_convert_request_merges_system_with_separator() {
    let req = request(vec![
        Message::system("S".to_string()),
        Message::user("U".to_string()),
    ]);
    let gemini_req = convert_request(&req);
    assert_eq!(gemini_req.contents.len(), 1);
    assert_eq!(gemini_req.contents[0].role, "user");
    assert_eq!(gemini_req.contents[0].parts[0].text, "S\n\nU");
    assert!(gemini_req.generation_config.is_none());
}

#[test]
fn test_convert_request_role_mapping() {
    let req = request(vec![
        Message::user("Hi".to_string()),
        Message::assistant("Hello".to_string()),
    ]);

    let gemini_req = convert_request(&req);

    assert_eq!(gemini_req.contents.len(), 2);
    assert_eq!(gemini_req.contents[0].role, "user");
    assert_eq!(gemini_req.contents[1].role, "model");
}

#[test]
fn test_convert_request_no_merge_after_first_turn() {
    let req = request(vec![
        Message::assistant("Yo".to_string()),
        Message::system("late".to_string()),
        Message::user("Hi".to_string()),
    ]);
    let gemini_req = convert_request(&req);
    assert_eq!(gemini_req.contents.len(), 2);
    assert_eq!(gemini_req.contents[0].role, "model");
    assert_eq!(gemini_req.contents[1].role, "user");
    assert_eq!(gemini_req.contents[1].parts[0].text, "Hi");
}

#[test]
fn gemini_test_convert_response() {
    let gemini_resp = GeminiResponse {
        candidates: vec![Candidate {
            content: GeminiContentResponse {
                parts: vec![GeminiPartResponse {
                    text: "Hello from Gemini!".to_string(),
                }],
            },
            finish_reason: Some("STOP".to_string()),
        }],
        usage_metadata: Some(UsageMetadata {
            prompt_token_count: 10,
            candidates_token_count: 20,
            total_token_count: 30,
        }),
    };

    let openai_resp = convert_response(gemini_resp, "gemini-pro").unwrap();

    assert_eq!(openai_resp.object, "chat.completion");
    assert_eq!(openai_resp.model, "gemini-pro");
    assert_eq!(openai_resp.choices.len(), 1);
    assert_eq!(openai_resp.choices[0].message.content, "Hello from Gemini!");
    assert_eq!(openai_resp.choices[0].finish_reason, Some("stop".to_string()));
    assert_eq!(openai_resp.usage.as_ref().unwrap().total_tokens, 30);
}

#[test]
fn test_convert_response_total_is_the_sum() {
    let gemini_resp = GeminiResponse {
        candidates: vec![Candidate {
            content: GeminiContentResponse {
                parts: vec![GeminiPartResponse {
                    text: "x".to_string(),
                }],
            },
            finish_reason: None,
        }],
        usage_metadata: Some(UsageMetadata {
            prompt_token_count: 1,
            candidates_token_count: 2,
            total_token_count: 99,
        }),
    };
    let openai_resp = convert_response(gemini_resp, "gemini-pro").unwrap();
    let usage = openai_resp.usage.unwrap();
    assert_eq!(usage.prompt_tokens, 1);
    assert_eq!(usage.completion_tokens, 2);
    assert_eq!(usage.total_tokens, 3);
}

#[test]
fn test_convert_response_without_candidates_is_internal_error() {
    let gemini_resp = GeminiResponse {
        candidates: vec![],
        usage_metadata: None,
    };
    let err = convert_response(gemini_resp, "gemini-pro").unwrap_err();
    assert!(matches!(err, FeatherGateError::InternalError(_)));
}

#[test]
fn gemini_test_decode_response_full_body() {
    let body = r#"{
        "candidates": [{
            "content": {
                "parts": [{
                    "text": "Hello from Gemini!"
                }]
            },
            "finishReason": "STOP"
        }],
        "usageMetadata": {
            "promptTokenCount": 5,
            "candidatesTokenCount": 10,
            "totalTokenCount": 15
        }
    }"#;
    let resp = decode_response(body, "gemini-pro").unwrap();
    assert_eq!(resp.choices[0].message.content, "Hello from Gemini!");
    assert_eq!(resp.choices[0].finish_reason, Some("stop".to_string()));
    assert_eq!(resp.usage.as_ref().unwrap().total_tokens, 15);
    assert!(resp.id.starts_with("chatcmpl-"));
}

#[test]
fn gemini_test_decode_response_rejects_malformed_body() {
    let err = decode_response("{\"candidates\": 7}", "gemini-pro").unwrap_err();
    assert!(matches!(err, FeatherGateError::JsonError(_)));
}

#[test]
fn test_map_finish_reason_vocabulary() {
    assert_eq!(map_finish_reason("STOP"), "stop");
    assert_eq!(map_finish_reason("MAX_TOKENS"), "length");
    assert_eq!(map_finish_reason("SAFETY"), "SAFETY");
    assert_eq!(map_finish_reason(map_finish_reason("STOP").as_str()), "stop");
    assert_eq!(
        map_finish_reason(map_finish_reason("MAX_TOKENS").as_str()),
        "length"
    );
}

#[test]
fn test_gemini_url_building() {
    assert_eq!(
        gemini_url("", "gemini-pro", false),
        "https://generativelanguage.googleapis.com/v1beta/models/gemini-pro:generateContent"
    );
    assert_eq!(
        gemini_url("https://proxy.example.com/", "gemini-pro", true),
        "https://proxy.example.com/v1beta/models/gemini-pro:streamGenerateContent?alt=sse"
    );
}

#[test]
fn test_upstream_error_carries_status_and_body() {
    let err = upstream_error(400, "{\"error\": {\"message\": \"Invalid request\"}}");
    match err {
        FeatherGateError::UpstreamError { status, message } => {
            assert_eq!(status, 400);
            assert!(message.starts_with("Gemini API 错误: "));
            assert!(message.contains("Invalid request"));
        }
        _ => panic!("Expected UpstreamError"),
    }
}

#[test]
fn gemini_test_request_serialization_shape() {
    let mut req = request(vec![Message::user("Hello".to_string())]);
    req.max_tokens = Some(100);
    let gemini_req = convert_request(&req);
    let json = gemini_request_to_json(&gemini_req);
    assert_eq!(
        json,
        "{\"contents\":[{\"role\":\"user\",\"parts\":[{\"text\":\"Hello\"}]}],\
         \"generation_config\":{\"maxOutputTokens\":100}}"
    );
}

#[test]
fn test_request_serialization_omits_absent_config() {
    let req = request(vec![Message::user("Hi".to_string())]);
    let gemini_req = convert_request(&req);
    let json = gemini_request_to_json(&gemini_req);
    assert!(!json.contains("generation_config"));
}

#[test]
fn test_stream_shares_one_chunk_id() {
    let mut stream = GeminiStream::new("gemini-pro".to_string());
    let id = stream.chunk_id.clone();
    assert!(id.starts_with("chatcmpl-"));
    let out = stream.feed(
        "data: {\"candidates\":[{\"content\":{\"parts\":[{\"text\":\"Hel\"}]}}]}\n\n\
         data: {\"candidates\":[{\"content\":{\"parts\":[{\"text\":\"lo\"}]},\"finishReason\":\"STOP\"}]}\n\n",
    );
    assert_eq!(out.len(), 2);
    assert!(out[0].contains(&format!("\"id\":\"{}\"", id)));
    assert!(out[1].contains(&format!("\"id\":\"{}\"", id)));
    assert!(out[0].contains("\"content\":\"Hel\""));
    assert!(out[0].contains("\"finish_reason\":null"));
    assert!(out[1].contains("\"content\":\"lo\""));
    assert!(out[1].contains("\"finish_reason\":\"stop\""));
}

#[test]
fn test_stream_concatenates_all_parts_of_an_event() {
    let mut stream = GeminiStream::new("gemini-pro".to_string());
    let out = stream.feed(
        "data: {\"candidates\":[{\"content\":{\"parts\":[{\"text\":\"A\"},{\"text\":\"B\"}]}}]}\n\n",
    );
    assert_eq!(out.len(), 1);
    assert!(out[0].contains("\"content\":\"AB\""));
}

#[test]
fn test_stream_drops_events_without_candidates() {
    let mut stream = GeminiStream::new("gemini-pro".to_string());
    let out = stream.feed(
        "data: {\"candidates\":[]}\n\n\
         data: {\"candidates\":[{\"content\":{\"parts\":[]}}]}\n\n\
         data: {\"candidates\":[{\"content\":{\"parts\":[{\"text\":\"ok\"}]}}]}\n\n",
    );
    assert_eq!(out.len(), 1);
    assert!(out[0].contains("\"content\":\"ok\""));
}

#[test]
fn test_stream_frame_without_data_prefix_is_silent() {
    let mut stream = GeminiStream::new("gemini-pro".to_string());
    let out = stream.feed(
        "event: ping\n\n\
         data: {\"candidates\":[{\"content\":{\"parts\":[{\"text\":\"ok\"}]}}]}\n\n",
    );
    assert_eq!(out.len(), 1);
    assert!(out[0].contains("\"content\":\"ok\""));
}

#[test]
fn test_stream_keeps_partial_frames_buffered() {
    let mut stream = GeminiStream::new("gemini-pro".to_string());
    let first = stream.feed("data: {\"candidates\":[{\"content\":{\"parts\":[{\"te");
    assert!(first.is_empty());
    let second = stream.feed("xt\":\"Hi\"}]}}]}\n\n");
    assert_eq!(second.len(), 1);
    assert!(second[0].contains("\"content\":\"Hi\""));
}
