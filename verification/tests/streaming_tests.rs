use feathergate::streaming::{
    chunk_to_json, error_body_json, format_sse_chunk, format_sse_done, sse_error_frames,
    SseBuffer,
};
use feathergate::types::{ChatStreamChunk, Delta, StreamChoice};

fn chunk(id: &str, role: Option<&str>, content: Option<&str>, finish: Option<&str>) -> ChatStreamChunk {
    ChatStreamChunk {
        id: id.to_string(),
        object: "chat.completion.chunk".to_string(),
        created: 1234567890,
        model: "gpt-4".to_string(),
        choices: vec![StreamChoice {
            index: 0,
            delta: Delta {
                role: role.map(|r| r.to_string()),
                content: content.map(|c| c.to_string()),
            },
            finish_reason: finish.map(|f| f.to_string()),
        }],
    }
}

#[test]
fn test_format_sse_chunk() {
    let chunk = chunk("chatcmpl-123", Some("assistant"), Some("Hello"), None);
    let sse = format_sse_chunk(&chunk);
    assert!(sse.starts_with("data: "));
    assert!(sse.ends_with("\n\n"));
    assert!(sse.contains("\"content\":\"Hello\""));
}

#[test]
fn test_format_sse_done() {
    let done = format_sse_done();
    assert_eq!(done, "data: [DONE]\n\n");
}

#[test]
fn test_sse_chunk_contains_all_fields() {
    let chunk = chunk("test-id", None, Some("World"), Some("stop"));
    let sse = format_sse_chunk(&chunk);
    assert!(sse.contains("\"id\":\"test-id\""));
    assert!(sse.contains("\"model\":\"gpt-4\""));
    assert!(sse.contains("\"finish_reason\":\"stop\""));
}

#[test]
fn test_multiple_chunks_format() {
    let chunk1 = chunk("1", Some("assistant"), Some("Hello"), None);
    let chunk2 = chunk("1", None, Some(" World"), None);

    let sse1 = format_sse_chunk(&chunk1);
    let sse2 = format_sse_chunk(&chunk2);
    let done = format_sse_done();

    let full_stream = format!("{}{}{}", sse1, sse2, done);
    assert!(full_stream.contains("Hello"));
    assert!(full_stream.contains("World"));
    assert!(full_stream.ends_with("[DONE]\n\n"));
}

#[test]
fn test_chunk_json_exact_form() {
    let chunk = chunk("c", None, Some("x"), None);
    let json = chunk_to_json(&chunk);
    assert_eq!(
        json,
        "{\"id\":\"c\",\"object\":\"chat.completion.chunk\",\"created\":1234567890,\
         \"model\":\"gpt-4\",\"choices\":[{\"index\":0,\"delta\":{\"content\":\"x\"},\
         \"finish_reason\":null}]}"
    );
}

#[test]
fn test_chunk_json_escapes_content() {
    let chunk = chunk("c", None, Some("a\"b\\c\nd"), None);
    let json = chunk_to_json(&chunk);
    assert!(json.contains("a\\\"b\\\\c\\nd"));
}

#[test]
fn test_chunk_json_escapes_control_characters() {
    let chunk = chunk("c", None, Some("a\u{0001}b\u{0008}c\u{000C}d\u{001f}e"), None);
    let json = chunk_to_json(&chunk);
    assert!(json.contains("a\\u0001b\\bc\\fd\\u001fe"));
}

#[test]
fn test_buffer_keeps_partial_frames() {
    let mut buffer = SseBuffer::new();
    buffer.push_text("data: {\"type\":\"me");
    assert!(buffer.pop_frame().is_none());
    buffer.push_text("ssage_stop\"}\n");
    assert!(buffer.pop_frame().is_none());
    buffer.push_text("\ndata: tail");
    let frame = buffer.pop_frame().unwrap();
    assert_eq!(frame, "data: {\"type\":\"message_stop\"}");
    assert!(buffer.pop_frame().is_none());
    assert_eq!(buffer.data, "data: tail");
}

#[test]
fn test_buffer_hands_out_frames_in_order() {
    let mut buffer = SseBuffer::new();
    buffer.push_text("first\n\nsecond\n\nthird");
    assert_eq!(buffer.pop_frame().unwrap(), "first");
    assert_eq!(buffer.pop_frame().unwrap(), "second");
    assert!(buffer.pop_frame().is_none());
}

#[test]
fn test_error_body_json() {
    let body = error_body_json("model not found", "feathergate_error");
    assert_eq!(
        body,
        "{\"error\":{\"message\":\"model not found\",\"type\":\"feathergate_error\"}}"
    );
}

#[test]
fn test_sse_error_frames_end_with_sentinel() {
    let frames = sse_error_frames("boom", "feathergate_error");
    assert!(frames.starts_with("data: {\"error\":"));
    assert!(frames.ends_with("data: [DONE]\n\n"));
}
