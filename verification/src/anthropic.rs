//! The Anthropic-style provider adapter: request and response
//! translation between the canonical schema and the provider's native
//! one, and the stateful translation of its event stream.

use vstd::prelude::*;
use crate::error::FeatherGateError;
use crate::text::{
    dec_rep, milli_rep, opt_str_view, opt_text, render_milli, str_eq, trimmed_base,
    trim_trailing_slashes, truncate_chars, truncated, u64_to_dec,
};
use crate::streaming::{
    choices_rep, drain_rest, format_sse_chunk, format_sse_done, json_string, json_string_rep,
    no_terminator, single_chunk_rep, sse_frame_rep, stream_choice_rep, SseBuffer,
};
use crate::types::{ChatRequest, ChatResponse, ChatStreamChunk, Choice, Delta, Message,
    StreamChoice, Usage};
use crate::sys::now_epoch_secs;

verus! {

/// One native message turn.
#[derive(Debug, Clone)]
pub struct AnthropicMessage {
    pub role: String,
    pub content: String,
}

/// The native request body.
#[derive(Debug, Clone)]
pub struct AnthropicRequest {
    pub model: String,
    pub messages: Vec<AnthropicMessage>,
    pub system: Option<String>,
    pub max_tokens: u32,
    pub temperature: Option<i64>,
    pub stream: Option<bool>,
}

/// One block of a native response's content.
#[derive(Debug, Clone)]
pub struct ContentBlock {
    pub block_type: String,
    pub text: String,
}

/// The native token accounting.
#[derive(Debug, Clone)]
pub struct AnthropicUsage {
    pub input_tokens: u32,
    pub output_tokens: u32,
}

/// The native response body.
#[derive(Debug, Clone)]
pub struct AnthropicResponse {
    pub id: String,
    pub response_type: String,
    pub role: String,
    pub content: Vec<ContentBlock>,
    pub model: String,
    pub stop_reason: Option<String>,
    pub usage: AnthropicUsage,
}

/// The native turns of a canonical message list: every non-`system`
/// message, in order, as a role/content pair.
pub open spec fn anthropic_turns_of(ms: Seq<Message>) -> Seq<(Seq<char>, Seq<char>)>
    decreases ms.len(),
{
    if ms.len() == 0 {
        Seq::empty()
    } else {
        let rest = anthropic_turns_of(ms.drop_last());
        if ms.last().role@ == "system"@ {
            rest
        } else {
            rest.push((ms.last().role@, ms.last().content@))
        }
    }
}

/// The extracted system text of a canonical message list: the content
/// of the last `system` message, if any.
pub open spec fn system_of(ms: Seq<Message>) -> Option<Seq<char>>
    decreases ms.len(),
{
    if ms.len() == 0 {
        None
    } else if ms.last().role@ == "system"@ {
        Some(ms.last().content@)
    } else {
        system_of(ms.drop_last())
    }
}

/// Translates a canonical request into the native one: the system
/// message moves to the dedicated top-level field, all other messages
/// carry over one to one in order, and the output-token budget defaults
/// to 1024 when unspecified.
pub fn convert_request(req: &ChatRequest, model_id: &str) -> (r: AnthropicRequest)
    ensures
        r.model@ == model_id@,
        r.messages@.len() == anthropic_turns_of(req.messages@).len(),
        forall|i: int| 0 <= i < r.messages@.len()
            ==> (#[trigger] r.messages@[i]).role@ == anthropic_turns_of(req.messages@)[i].0
                && r.messages@[i].content@ == anthropic_turns_of(req.messages@)[i].1,
        opt_text(r.system) == system_of(req.messages@),
        r.max_tokens == (match req.max_tokens {
            Some(v) => v,
            None => 1024u32,
        }),
        r.temperature == req.temperature,
        r.stream is None,
{
    let mut system_message: Option<String> = None;
    let mut messages: Vec<AnthropicMessage> = Vec::new();

    let n = req.messages.len();
    let mut i: usize = 0;
    while i < n
        invariant
            0 <= i <= n,
            n == req.messages@.len(),
            messages@.len() == anthropic_turns_of(req.messages@.subrange(0, i as int)).len(),
            forall|k: int| 0 <= k < messages@.len()
                ==> (#[trigger] messages@[k]).role@
                        == anthropic_turns_of(req.messages@.subrange(0, i as int))[k].0
                    && messages@[k].content@
                        == anthropic_turns_of(req.messages@.subrange(0, i as int))[k].1,
            opt_text(system_message) == system_of(req.messages@.subrange(0, i as int)),
        decreases n - i,
    {
        let msg = &req.messages[i];
        proof {
            let p = req.messages@.subrange(0, i as int);
            let q = req.messages@.subrange(0, i as int + 1);
            assert(q.drop_last() =~= p);
            assert(q.last() == req.messages@[i as int]);
        }
        if str_eq(msg.role.as_str(), "system") {
            system_message = Some(msg.content.clone());
        } else {
            messages.push(AnthropicMessage {
                role: msg.role.clone(),
                content: msg.content.clone(),
            });
        }
        i = i + 1;
    }
    proof {
        assert(req.messages@.subrange(0, n as int) =~= req.messages@);
    }

    AnthropicRequest {
        model: String::from_str(model_id),
        messages,
        system: system_message,
        max_tokens: match req.max_tokens {
            Some(v) => v,
            None => 1024,
        },
        temperature: req.temperature,
        stream: None,
    }
}

/// The same translation with the native streaming flag set.
pub fn convert_request_stream(req: &ChatRequest, model_id: &str) -> (r: AnthropicRequest)
    ensures
        r.model@ == model_id@,
        r.messages@.len() == anthropic_turns_of(req.messages@).len(),
        forall|i: int| 0 <= i < r.messages@.len()
            ==> (#[trigger] r.messages@[i]).role@ == anthropic_turns_of(req.messages@)[i].0
                && r.messages@[i].content@ == anthropic_turns_of(req.messages@)[i].1,
        opt_text(r.system) == system_of(req.messages@),
        r.max_tokens == (match req.max_tokens {
            Some(v) => v,
            None => 1024u32,
        }),
        r.temperature == req.temperature,
        r.stream matches Some(b) && b,
{
    let mut base = convert_request(req, model_id);
    base.stream = Some(true);
    base
}

/// The normalized form of a native stop reason: `end_turn` becomes
/// `stop`, `max_tokens` becomes `length`, anything else passes through.
pub open spec fn anthropic_finish_of(r: Seq<char>) -> Seq<char> {
    if r == "end_turn"@ {
        "stop"@
    } else if r == "max_tokens"@ {
        "length"@
    } else {
        r
    }
}

/// Normalizes a native stop reason.
pub fn map_stop_reason(reason: &str) -> (r: String)
    ensures
        r@ == anthropic_finish_of(reason@),
{
    if str_eq(reason, "end_turn") {
        String::from_str("stop")
    } else if str_eq(reason, "max_tokens") {
        String::from_str("length")
    } else {
        String::from_str(reason)
    }
}

/// Normalizing a stop reason twice gives the same result as doing it
/// once: the normalized vocabulary is a fixed point of the mapping.
pub proof fn lemma_anthropic_finish_idempotent(r: Seq<char>)
    ensures
        anthropic_finish_of(anthropic_finish_of(r)) == anthropic_finish_of(r),
{
    reveal_strlit("end_turn");
    reveal_strlit("max_tokens");
    reveal_strlit("stop");
    reveal_strlit("length");
    assert("stop"@.len() == 4);
    assert("end_turn"@.len() == 8);
    assert("max_tokens"@.len() == 10);
    assert("length"@.len() == 6);
}

/// The concatenated text of every `text`-typed content block, in order.
pub open spec fn text_content_of(blocks: Seq<ContentBlock>) -> Seq<char>
    decreases blocks.len(),
{
    if blocks.len() == 0 {
        Seq::empty()
    } else {
        text_content_of(blocks.drop_last())
            + (if blocks.last().block_type@ == "text"@ {
                blocks.last().text@
            } else {
                Seq::empty()
            })
    }
}

/// The canonical response `cr` is the stated translation of the native
/// response `resp`: identifier and model echoed, one assistant choice
/// holding the concatenated text blocks, the normalized stop reason,
/// and a usage whose total is the sum of input and output tokens. The
/// creation timestamp is not constrained — it comes from the clock.
pub open spec fn anthropic_translation(resp: AnthropicResponse, cr: ChatResponse) -> bool {
    &&& cr.id@ == resp.id@
    &&& cr.object@ == "chat.completion"@
    &&& cr.model@ == resp.model@
    &&& cr.choices@.len() == 1
    &&& cr.choices@[0].index == 0
    &&& cr.choices@[0].message.role@ == "assistant"@
    &&& cr.choices@[0].message.content@ == text_content_of(resp.content@)
    &&& opt_text(cr.choices@[0].finish_reason) == (match resp.stop_reason {
        Some(s) => Some(anthropic_finish_of(s@)),
        None => None::<Seq<char>>,
    })
    &&& cr.usage matches Some(u)
        && u.prompt_tokens == resp.usage.input_tokens
        && u.completion_tokens == resp.usage.output_tokens
        && u.total_tokens == resp.usage.input_tokens + resp.usage.output_tokens
}

/// Translates a native response into the canonical one: the text
/// blocks concatenate into the assistant message, the stop reason is
/// normalized, and the usage total is the sum of input and output
/// tokens. The creation timestamp is read from the clock.
pub fn convert_response(resp: AnthropicResponse) -> (r: ChatResponse)
    requires
        resp.usage.input_tokens + resp.usage.output_tokens <= u32::MAX,
    ensures
        anthropic_translation(resp, r),
{
    let mut content = String::new();
    let n = resp.content.len();
    let mut i: usize = 0;
    while i < n
        invariant
            0 <= i <= n,
            n == resp.content@.len(),
            content@ == text_content_of(resp.content@.subrange(0, i as int)),
        decreases n - i,
    {
        let block = &resp.content[i];
        proof {
            let p = resp.content@.subrange(0, i as int);
            let q = resp.content@.subrange(0, i as int + 1);
            assert(q.drop_last() =~= p);
            assert(q.last() == resp.content@[i as int]);
        }
        if str_eq(block.block_type.as_str(), "text") {
            content.append(block.text.as_str());
        }
        i = i + 1;
    }
    proof {
        assert(resp.content@.subrange(0, n as int) =~= resp.content@);
    }

    let finish_reason = match &resp.stop_reason {
        Some(reason) => Some(map_stop_reason(reason.as_str())),
        None => None,
    };

    let mut choices: Vec<Choice> = Vec::new();
    choices.push(Choice {
        index: 0,
        message: Message::assistant(content),
        finish_reason,
    });

    ChatResponse {
        id: resp.id,
        object: String::from_str("chat.completion"),
        created: now_epoch_secs(),
        model: resp.model,
        choices,
        usage: Some(Usage {
            prompt_tokens: resp.usage.input_tokens,
            completion_tokens: resp.usage.output_tokens,
            total_tokens: resp.usage.input_tokens + resp.usage.output_tokens,
        }),
    }
}

/// The endpoint for the native call: the provider default when no base
/// URL is configured, otherwise the override with trailing slashes
/// trimmed, with the messages path appended.
pub fn anthropic_url(api_base: &str) -> (r: String)
    ensures
        r@ == (if api_base@.len() == 0 {
            "https://api.anthropic.com"@
        } else {
            trimmed_base(api_base@)
        }) + "/v1/messages"@,
{
    let mut url = if api_base.is_empty() {
        String::from_str("https://api.anthropic.com")
    } else {
        String::from_str(trim_trailing_slashes(api_base))
    };
    url.append("/v1/messages");
    url
}

/// The error reported for a non-success native status: the status code
/// with the response body, the body capped at 4096 characters.
pub fn upstream_error(status: u16, body: &str) -> (e: FeatherGateError)
    ensures
        e matches FeatherGateError::UpstreamError { status: st, message: m }
            && st == status
            && m@ == "Anthropic API 错误: "@ + truncated(body@, 4096),
{
    let mut m = String::from_str("Anthropic API 错误: ");
    m.append(truncate_chars(body, 4096));
    FeatherGateError::upstream(status, m)
}

/// One native message as JSON.
pub open spec fn anthropic_message_rep(m: AnthropicMessage) -> Seq<char> {
    "{\"role\":"@ + json_string_rep(m.role@) + ",\"content\":"@ + json_string_rep(m.content@)
        + "}"@
}

/// The native message list as a JSON array body.
pub open spec fn anthropic_messages_rep(ms: Seq<AnthropicMessage>) -> Seq<char>
    decreases ms.len(),
{
    if ms.len() == 0 {
        Seq::empty()
    } else if ms.len() == 1 {
        anthropic_message_rep(ms[0])
    } else {
        anthropic_messages_rep(ms.drop_last()) + ","@ + anthropic_message_rep(ms.last())
    }
}

/// The native request body as JSON, fields in wire order; the optional
/// fields are omitted entirely when absent.
pub open spec fn anthropic_request_rep(r: AnthropicRequest) -> Seq<char> {
    "{\"model\":"@ + json_string_rep(r.model@)
        + ",\"messages\":["@ + anthropic_messages_rep(r.messages@) + "]"@
        + (match r.system {
            Some(s) => ",\"system\":"@ + json_string_rep(s@),
            None => Seq::<char>::empty(),
        })
        + ",\"max_tokens\":"@ + dec_rep(r.max_tokens as int)
        + (match r.temperature {
            Some(t) => ",\"temperature\":"@ + milli_rep(t as int),
            None => Seq::<char>::empty(),
        })
        + (match r.stream {
            Some(b) => ",\"stream\":"@ + (if b { "true"@ } else { "false"@ }),
            None => Seq::<char>::empty(),
        })
        + "}"@
}

/// Serializes the native request for the wire.
pub fn anthropic_request_to_json(r: &AnthropicRequest) -> (out: String)
    ensures
        out@ == anthropic_request_rep(*r),
{
    let mut out = String::from_str("{\"model\":");
    let ms = json_string(r.model.as_str());
    out.append(ms.as_str());
    out.append(",\"messages\":[");

    let n = r.messages.len();
    let mut i: usize = 0;
    while i < n
        invariant
            0 <= i <= n,
            n == r.messages@.len(),
            out@ == "{\"model\":"@ + json_string_rep(r.model@) + ",\"messages\":["@
                + anthropic_messages_rep(r.messages@.subrange(0, i as int)),
        decreases n - i,
    {
        if i > 0 {
            out.append(",");
        }
        let msg = &r.messages[i];
        out.append("{\"role\":");
        let rs = json_string(msg.role.as_str());
        out.append(rs.as_str());
        out.append(",\"content\":");
        let cs = json_string(msg.content.as_str());
        out.append(cs.as_str());
        out.append("}");
        proof {
            let p = r.messages@.subrange(0, i as int);
            let q = r.messages@.subrange(0, i as int + 1);
            assert(q.drop_last() =~= p);
            assert(q.last() == r.messages@[i as int]);
            if i == 0 {
                assert(anthropic_messages_rep(q) == anthropic_message_rep(r.messages@[0]));
            }
            assert(out@ =~= "{\"model\":"@ + json_string_rep(r.model@) + ",\"messages\":["@
                + anthropic_messages_rep(q));
        }
        i = i + 1;
    }
    proof {
        assert(r.messages@.subrange(0, n as int) =~= r.messages@);
    }
    out.append("]");

    if let Some(system) = &r.system {
        out.append(",\"system\":");
        let ss = json_string(system.as_str());
        out.append(ss.as_str());
    }

    out.append(",\"max_tokens\":");
    let mt = u64_to_dec(r.max_tokens as u64);
    out.append(mt.as_str());

    if let Some(temp) = r.temperature {
        out.append(",\"temperature\":");
        let ts = render_milli(temp);
        out.append(ts.as_str());
    }

    if let Some(stream) = r.stream {
        out.append(",\"stream\":");
        if stream {
            out.append("true");
        } else {
            out.append("false");
        }
    }

    out.append("}");
    proof {
        assert(out@ =~= anthropic_request_rep(*r));
    }
    out
}

/// Reads a native response out of JSON text, mirroring the upstream
/// schema: identifier, type tag, role, content blocks, model and usage
/// are required, the stop reason may be absent or `null`. Malformed
/// text yields nothing. The accepted grammar is not stated as a
/// contract; what `decode_response` promises of a success holds of
/// whatever decoded here.
pub(crate) fn response_from_json(body: &str) -> (r: Option<AnthropicResponse>) {
    let v = match crate::json::parse(body) {
        Some(v) => v,
        None => return None,
    };
    let id = match v.get("id") {
        Some(x) => match x.as_text() {
            Some(s) => s.clone(),
            None => return None,
        },
        None => return None,
    };
    let response_type = match v.get("type") {
        Some(x) => match x.as_text() {
            Some(s) => s.clone(),
            None => return None,
        },
        None => return None,
    };
    let role = match v.get("role") {
        Some(x) => match x.as_text() {
            Some(s) => s.clone(),
            None => return None,
        },
        None => return None,
    };
    let items = match v.get("content") {
        Some(x) => match x.as_items() {
            Some(a) => a,
            None => return None,
        },
        None => return None,
    };
    let mut content: Vec<ContentBlock> = Vec::new();
    let n = items.len();
    let mut i: usize = 0;
    while i < n
        invariant
            0 <= i <= n,
            n == items@.len(),
        decreases n - i,
    {
        let item = &items[i];
        let block_type = match item.get("type") {
            Some(x) => match x.as_text() {
                Some(s) => s.clone(),
                None => return None,
            },
            None => return None,
        };
        let text = match item.get("text") {
            Some(x) => match x.as_text() {
                Some(s) => s.clone(),
                None => return None,
            },
            None => return None,
        };
        content.push(ContentBlock { block_type, text });
        i = i + 1;
    }
    let model = match v.get("model") {
        Some(x) => match x.as_text() {
            Some(s) => s.clone(),
            None => return None,
        },
        None => return None,
    };
    let stop_reason = match v.get("stop_reason") {
        Some(x) => {
            if x.is_null() {
                None
            } else {
                match x.as_text() {
                    Some(s) => Some(s.clone()),
                    None => return None,
                }
            }
        }
        None => None,
    };
    let usage = match v.get("usage") {
        Some(x) => {
            let input_tokens = match x.get("input_tokens") {
                Some(y) => match y.as_u32() {
                    Some(t) => t,
                    None => return None,
                },
                None => return None,
            };
            let output_tokens = match x.get("output_tokens") {
                Some(y) => match y.as_u32() {
                    Some(t) => t,
                    None => return None,
                },
                None => return None,
            };
            AnthropicUsage { input_tokens, output_tokens }
        }
        None => return None,
    };
    Some(AnthropicResponse { id, response_type, role, content, model, stop_reason, usage })
}

/// The canonical response is the stated translation of some native
/// response with a representable token sum. Which native response the
/// body decoded to is fixed by the hand-written JSON reader, which
/// carries no grammar-level contract; a success can therefore only be
/// the exact translation of a decoded response, never a fabricated
/// value of another shape.
pub open spec fn some_decoded_translation(cr: ChatResponse) -> bool {
    exists|resp: AnthropicResponse| #![auto]
        resp.usage.input_tokens + resp.usage.output_tokens <= u32::MAX
        && anthropic_translation(resp, cr)
}

/// Decodes a native response body and translates it to the canonical
/// one. Text that does not decode, and token counts whose sum cannot
/// be represented, are reported as errors rather than translated.
pub fn decode_response(body: &str) -> (r: Result<ChatResponse, FeatherGateError>)
    ensures
        match r {
            Ok(cr) => some_decoded_translation(cr),
            Err(e) => e matches FeatherGateError::JsonError(_)
                || e matches FeatherGateError::InternalError(_),
        },
{
    match response_from_json(body) {
        Some(resp) => {
            if resp.usage.input_tokens > u32::MAX - resp.usage.output_tokens {
                return Err(FeatherGateError::internal(
                    String::from_str("Anthropic 响应的 token 计数超出范围"),
                ));
            }
            let ghost gresp = resp;
            let cr = convert_response(resp);
            proof {
                assert(anthropic_translation(gresp, cr));
                assert(some_decoded_translation(cr));
            }
            Ok(cr)
        }
        None => Err(FeatherGateError::JsonError(
            String::from_str("Anthropic 响应不是预期的 JSON 格式"),
        )),
    }
}

/// One decoded native stream event, out of the closed vocabulary the
/// upstream emits. Kinds the translation consumes silently are folded
/// into `Other`.
#[derive(Debug)]
pub enum AnthropicEvent {
    MessageStart { id: String },
    ContentBlockDelta { text: String },
    MessageDelta { stop_reason: Option<String> },
    MessageStop,
    Other,
}

/// The frame one event makes the translation emit, given the message
/// id captured so far: a content chunk for a text delta, a finish
/// chunk for a final stop reason, the terminal sentinel for
/// `message_stop`, and nothing for everything else.
pub open spec fn event_output(
    e: AnthropicEvent,
    id: Seq<char>,
    model: Seq<char>,
    created: int,
) -> Option<Seq<char>> {
    match e {
        AnthropicEvent::MessageStart { .. } => None,
        AnthropicEvent::ContentBlockDelta { text } => Some(
            sse_frame_rep(single_chunk_rep(id, model, created, None, Some(text@), None)),
        ),
        AnthropicEvent::MessageDelta { stop_reason } => match stop_reason {
            Some(s) => Some(
                sse_frame_rep(
                    single_chunk_rep(
                        id,
                        model,
                        created,
                        None,
                        None,
                        Some(anthropic_finish_of(s@)),
                    ),
                ),
            ),
            None => None,
        },
        AnthropicEvent::MessageStop => Some("data: [DONE]\n\n"@),
        AnthropicEvent::Other => None,
    }
}

/// The message id after one event: `message_start` captures its id,
/// every other event leaves it unchanged.
pub open spec fn event_next_id(e: AnthropicEvent, id: Seq<char>) -> Seq<char> {
    match e {
        AnthropicEvent::MessageStart { id: new_id } => new_id@,
        _ => id,
    }
}

/// Handling one frame acts as some event of the closed vocabulary: the
/// id moves as that event moves it, and the output is that event's
/// frame, if any. Which event the frame's data line decoded to is
/// fixed by the JSON reader, which carries no grammar-level contract;
/// handling can therefore only step the event machine, never emit an
/// arbitrary frame or move the id arbitrarily.
pub open spec fn some_event_step(
    old_id: Seq<char>,
    new_id: Seq<char>,
    out: Option<Seq<char>>,
    model: Seq<char>,
    created: int,
) -> bool {
    exists|e: AnthropicEvent| #![auto]
        new_id == event_next_id(e, old_id)
        && out == event_output(e, old_id, model, created)
}

/// Builds one canonical chunk frame: the shared identifier, the fixed
/// chunk tag, the given timestamp and model, and one choice at index 0
/// whose delta carries the content when present and whose finish
/// reason is the given one or `null`.
pub fn create_openai_chunk(
    id: &str,
    model: &str,
    content: Option<&str>,
    finish_reason: Option<&str>,
    created: u64,
) -> (r: String)
    ensures
        r@ == sse_frame_rep(
            single_chunk_rep(
                id@,
                model@,
                created as int,
                None,
                opt_str_view(content),
                opt_str_view(finish_reason),
            ),
        ),
{
    let mut choices: Vec<StreamChoice> = Vec::new();
    choices.push(StreamChoice {
        index: 0,
        delta: Delta {
            role: None,
            content: match content {
                Some(c) => Some(String::from_str(c)),
                None => None,
            },
        },
        finish_reason: match finish_reason {
            Some(f) => Some(String::from_str(f)),
            None => None,
        },
    });
    let chunk = ChatStreamChunk {
        id: String::from_str(id),
        object: String::from_str("chat.completion.chunk"),
        created,
        model: String::from_str(model),
        choices,
    };
    let r = format_sse_chunk(&chunk);
    proof {
        assert(chunk.choices@.len() == 1);
        assert(choices_rep(chunk.choices@) == stream_choice_rep(chunk.choices@[0]));
        assert(r@ =~= sse_frame_rep(
            single_chunk_rep(
                id@,
                model@,
                created as int,
                None,
                opt_str_view(content),
                opt_str_view(finish_reason),
            ),
        ));
    }
    r
}

/// Turns one decoded event into the frame it emits, capturing the
/// message id of a `message_start` on the way.
pub fn convert_event_to_openai(
    event: &AnthropicEvent,
    message_id: &mut String,
    model_id: &str,
    created: u64,
) -> (r: Option<String>)
    ensures
        final(message_id)@ == event_next_id(*event, old(message_id)@),
        opt_text(r) == event_output(*event, old(message_id)@, model_id@, created as int),
{
    match event {
        AnthropicEvent::MessageStart { id } => {
            *message_id = id.clone();
            None
        }
        AnthropicEvent::ContentBlockDelta { text } => {
            Some(create_openai_chunk(
                message_id.as_str(),
                model_id,
                Some(text.as_str()),
                None,
                created,
            ))
        }
        AnthropicEvent::MessageDelta { stop_reason } => {
            match stop_reason {
                Some(reason) => {
                    let finish = map_stop_reason(reason.as_str());
                    Some(create_openai_chunk(
                        message_id.as_str(),
                        model_id,
                        None,
                        Some(finish.as_str()),
                        created,
                    ))
                }
                None => None,
            }
        }
        AnthropicEvent::MessageStop => Some(format_sse_done()),
        AnthropicEvent::Other => None,
    }
}

/// Decodes one native event out of its JSON text. Anything malformed
/// yields nothing, and the caller drops the frame: the lenient policy
/// that keeps one bad event from ending the stream. The accepted
/// grammar is not stated as a contract; the caller's contract holds of
/// whatever event decoded here.
pub(crate) fn decode_event(data: &str) -> (r: Option<AnthropicEvent>) {
    let v = match crate::json::parse(data) {
        Some(v) => v,
        None => return None,
    };
    let tag = match v.get("type") {
        Some(tv) => match tv.as_text() {
            Some(t) => t.clone(),
            None => return None,
        },
        None => return None,
    };
    if str_eq(tag.as_str(), "message_start") {
        let msg = match v.get("message") {
            Some(m) => m,
            None => return None,
        };
        let id = match msg.get("id") {
            Some(x) => match x.as_text() {
                Some(s) => s.clone(),
                None => return None,
            },
            None => return None,
        };
        match msg.get("model") {
            Some(x) => {
                if x.as_text().is_none() {
                    return None;
                }
            }
            None => return None,
        }
        Some(AnthropicEvent::MessageStart { id })
    } else if str_eq(tag.as_str(), "content_block_delta") {
        match v.get("index") {
            Some(x) => {
                if x.as_u32().is_none() {
                    return None;
                }
            }
            None => return None,
        }
        let delta = match v.get("delta") {
            Some(d) => d,
            None => return None,
        };
        let delta_tag = match delta.get("type") {
            Some(x) => match x.as_text() {
                Some(s) => s.clone(),
                None => return None,
            },
            None => return None,
        };
        if str_eq(delta_tag.as_str(), "text_delta") {
            let text = match delta.get("text") {
                Some(x) => match x.as_text() {
                    Some(s) => s.clone(),
                    None => return None,
                },
                None => return None,
            };
            Some(AnthropicEvent::ContentBlockDelta { text })
        } else if str_eq(delta_tag.as_str(), "input_json_delta") {
            match delta.get("partial_json") {
                Some(x) => {
                    if x.as_text().is_none() {
                        return None;
                    }
                }
                None => return None,
            }
            Some(AnthropicEvent::Other)
        } else {
            None
        }
    } else if str_eq(tag.as_str(), "message_delta") {
        let delta = match v.get("delta") {
            Some(d) => d,
            None => return None,
        };
        let stop_reason = match delta.get("stop_reason") {
            Some(x) => {
                if x.is_null() {
                    None
                } else {
                    match x.as_text() {
                        Some(s) => Some(s.clone()),
                        None => return None,
                    }
                }
            }
            None => None,
        };
        Some(AnthropicEvent::MessageDelta { stop_reason })
    } else if str_eq(tag.as_str(), "message_stop") {
        Some(AnthropicEvent::MessageStop)
    } else if str_eq(tag.as_str(), "content_block_start")
        || str_eq(tag.as_str(), "content_block_stop")
        || str_eq(tag.as_str(), "ping")
        || str_eq(tag.as_str(), "error")
    {
        Some(AnthropicEvent::Other)
    } else {
        None
    }
}

/// One trailing carriage return trimmed off a line.
pub open spec fn strip_cr(line: Seq<char>) -> Seq<char> {
    if line.len() > 0 && line.last() == '\r' {
        line.drop_last()
    } else {
        line
    }
}

/// The data carried by one line: the text after the `data: ` prefix,
/// when the carriage-return-trimmed line has it.
pub open spec fn data_of_line(line: Seq<char>) -> Option<Seq<char>> {
    let l = strip_cr(line);
    if crate::text::has_prefix(l, "data: "@) {
        Some(l.subrange("data: "@.len() as int, l.len() as int))
    } else {
        None
    }
}

/// The position of the first newline at or after `i`, or -1.
pub open spec fn newline_from(s: Seq<char>, i: int) -> int
    decreases s.len() - i,
{
    if i < 0 || i >= s.len() {
        -1
    } else if s[i] == '\n' {
        i
    } else {
        newline_from(s, i + 1)
    }
}

proof fn lemma_newline_from(s: Seq<char>, i: int)
    requires
        0 <= i,
    ensures
        newline_from(s, i) == -1 || newline_from(s, i) >= i,
        newline_from(s, i) == -1 ==> forall|k: int| i <= k < s.len() ==> s[k] != '\n',
        newline_from(s, i) >= 0 ==> newline_from(s, i) < s.len()
            && s[newline_from(s, i)] == '\n'
            && (forall|k: int| i <= k < newline_from(s, i) ==> s[k] != '\n'),
    decreases s.len() - i,
{
    if i >= s.len() {
    } else if s[i] == '\n' {
    } else {
        lemma_newline_from(s, i + 1);
    }
}

/// The data of the last `data:` line at or after `start`: a line after
/// the next newline wins; the line before it only counts when no later
/// line carries data.
pub open spec fn last_data_line_from(s: Seq<char>, start: int) -> Option<Seq<char>>
    decreases s.len() - start,
{
    let j = newline_from(s, start);
    if start < 0 || start > s.len() {
        None
    } else if j < start || j >= s.len() {
        data_of_line(s.subrange(start, s.len() as int))
    } else {
        match last_data_line_from(s, j + 1) {
            Some(d) => Some(d),
            None => data_of_line(s.subrange(start, j)),
        }
    }
}

/// The data of the frame's last `data:` line, if any.
pub open spec fn last_data_line(s: Seq<char>) -> Option<Seq<char>> {
    last_data_line_from(s, 0)
}

/// Extracts the last `data:` line of one event frame, decodes it, and
/// emits the frame it translates to, if any. A frame with no data line
/// at all is provably silent: nothing is emitted and the id stays. A
/// frame whose data does not decode acts as a silent event likewise —
/// the lenient policy that keeps one bad frame from ending the stream.
pub(crate) fn parse_sse_event(
    event_str: &str,
    message_id: &mut String,
    model_id: &str,
    created: u64,
) -> (r: Option<String>)
    ensures
        some_event_step(
            old(message_id)@,
            final(message_id)@,
            opt_text(r),
            model_id@,
            created as int,
        ),
        last_data_line(event_str@) is None
            ==> r is None && final(message_id)@ == old(message_id)@,
        r is Some ==> last_data_line(event_str@) is Some,
{
    let ghost id0 = message_id@;
    let n = event_str.unicode_len();
    let mut data_line: Option<String> = None;
    let mut start: usize = 0;
    let mut i: usize = 0;
    while i < n
        invariant
            0 <= start <= i <= n,
            n == event_str@.len(),
            forall|k: int| start <= k < i ==> event_str@[k] != '\n',
            last_data_line(event_str@) == (match last_data_line_from(
                event_str@,
                start as int,
            ) {
                Some(d) => Some(d),
                None => opt_text(data_line),
            }),
        decreases n - i,
    {
        if event_str.get_char(i) == '\n' {
            proof {
                lemma_newline_from(event_str@, start as int);
                let j = newline_from(event_str@, start as int);
                if j == -1 {
                    assert(event_str@[i as int] == '\n');
                    assert(false);
                }
                if j < i as int {
                    assert(event_str@[j] != '\n');
                    assert(false);
                }
                if j > i as int {
                    assert(event_str@[i as int] != '\n');
                    assert(false);
                }
                assert(j == i as int);
            }
            let mut line_end = i;
            if line_end > start && event_str.get_char(line_end - 1) == '\r' {
                line_end = line_end - 1;
            }
            let line = event_str.substring_char(start, line_end);
            proof {
                assert(line@ =~= strip_cr(event_str@.subrange(start as int, i as int)));
            }
            match crate::text::strip_prefix(line, "data: ") {
                Some(rest) => {
                    proof {
                        assert(data_of_line(event_str@.subrange(start as int, i as int))
                            == Some(rest@));
                    }
                    data_line = Some(String::from_str(rest));
                }
                None => {
                    proof {
                        assert(data_of_line(event_str@.subrange(start as int, i as int))
                            is None);
                    }
                }
            }
            proof {
                assert(last_data_line(event_str@) == (match last_data_line_from(
                    event_str@,
                    i as int + 1,
                ) {
                    Some(d) => Some(d),
                    None => opt_text(data_line),
                }));
            }
            start = i + 1;
        }
        i = i + 1;
    }
    proof {
        lemma_newline_from(event_str@, start as int);
        let j = newline_from(event_str@, start as int);
        if 0 <= j && j < n as int {
            assert(event_str@[j] != '\n');
            assert(false);
        }
    }
    let mut last_end = n;
    if last_end > start && event_str.get_char(last_end - 1) == '\r' {
        last_end = last_end - 1;
    }
    let last_line = event_str.substring_char(start, last_end);
    proof {
        assert(last_line@ =~= strip_cr(event_str@.subrange(start as int, n as int)));
    }
    match crate::text::strip_prefix(last_line, "data: ") {
        Some(rest) => {
            proof {
                assert(data_of_line(event_str@.subrange(start as int, n as int))
                    == Some(rest@));
            }
            data_line = Some(String::from_str(rest));
        }
        None => {
            proof {
                assert(data_of_line(event_str@.subrange(start as int, n as int)) is None);
            }
        }
    }
    proof {
        assert(last_data_line(event_str@) == opt_text(data_line));
    }
    match data_line {
        Some(data) => match decode_event(data.as_str()) {
            Some(event) => {
                let r = convert_event_to_openai(&event, message_id, model_id, created);
                proof {
                    assert(message_id@ == event_next_id(event, id0));
                    assert(opt_text(r) == event_output(event, id0, model_id@, created as int));
                    assert(some_event_step(id0, message_id@, opt_text(r), model_id@,
                        created as int));
                }
                r
            }
            None => {
                proof {
                    let e = AnthropicEvent::Other;
                    assert(message_id@ == event_next_id(e, id0));
                    assert(opt_text(None::<String>) == event_output(e, id0, model_id@,
                        created as int));
                    assert(some_event_step(id0, message_id@, opt_text(None::<String>),
                        model_id@, created as int));
                }
                None
            }
        },
        None => {
            proof {
                let e = AnthropicEvent::Other;
                assert(message_id@ == event_next_id(e, id0));
                assert(opt_text(None::<String>) == event_output(e, id0, model_id@,
                    created as int));
                assert(some_event_step(id0, message_id@, opt_text(None::<String>), model_id@,
                    created as int));
            }
            None
        }
    }
}

/// The stream translation state: the byte buffer of not-yet-complete
/// frames, the captured message id, and the resolved model identifier
/// echoed into every chunk.
#[derive(Debug)]
pub struct AnthropicStream {
    pub buffer: SseBuffer,
    pub message_id: String,
    pub model_id: String,
}

impl AnthropicStream {
    /// A fresh translation for one upstream stream.
    pub fn new(model_id: String) -> (s: AnthropicStream)
        ensures
            s.buffer.data@ == Seq::<char>::empty(),
            s.message_id@ == Seq::<char>::empty(),
            s.model_id@ == model_id@,
    {
        AnthropicStream {
            buffer: SseBuffer::new(),
            message_id: String::new(),
            model_id,
        }
    }

    /// Feeds newly received stream text and returns the canonical
    /// frames it completes, in the order their native events arrived.
    /// Exactly the complete frames are consumed: what remains buffered
    /// is the text after the last frame terminator, and it holds no
    /// complete frame. The returned frames are the event machine's
    /// outputs for some run of decoded events, in order, and the
    /// captured message id is the one that run threads through.
    pub fn feed(&mut self, input: &str) -> (out: Vec<String>)
        ensures
            final(self).model_id@ == old(self).model_id@,
            final(self).buffer.data@ == drain_rest(old(self).buffer.data@ + input@),
            no_terminator(final(self).buffer.data@),
            feed_outputs_ok(
                out@.map_values(|s: String| s@),
                old(self).message_id@,
                final(self).message_id@,
                old(self).model_id@,
                crate::streaming::drain_frames(old(self).buffer.data@ + input@),
            ),
    {
        let mut out: Vec<String> = Vec::new();
        self.buffer.push_text(input);
        let ghost total = old(self).buffer.data@ + input@;
        let ghost id0 = old(self).message_id@;
        let ghost model0 = old(self).model_id@;
        let ghost mut events: Seq<AnthropicEvent> = Seq::empty();
        let ghost mut createds: Seq<int> = Seq::empty();
        let ghost mut frames_done: Seq<Seq<char>> = Seq::empty();
        proof {
            assert(out@.map_values(|s: String| s@)
                =~= stream_outputs_at(events, createds, id0, model0));
            assert(crate::streaming::drain_frames(total)
                =~= frames_done + crate::streaming::drain_frames(self.buffer.data@));
        }
        let mut finished = false;
        while !finished
            invariant
                self.model_id@ == old(self).model_id@,
                self.model_id@ == model0,
                drain_rest(total) == drain_rest(self.buffer.data@),
                finished ==> no_terminator(self.buffer.data@),
                events.len() == createds.len(),
                events.len() == frames_done.len(),
                crate::streaming::drain_frames(total)
                    == frames_done + crate::streaming::drain_frames(self.buffer.data@),
                out@.map_values(|s: String| s@)
                    == stream_outputs_at(events, createds, id0, model0),
                self.message_id@ == thread_id(events, id0),
                silent_on_dataless_frames(events, createds, frames_done, id0, model0),
            decreases self.buffer.data@.len(), (if finished { 0int } else { 1int }),
        {
            let ghost before = self.buffer.data@;
            let frame = match self.buffer.pop_frame() {
                Some(f) => f,
                None => {
                    finished = true;
                    proof {
                        crate::streaming::lemma_first_terminator(before);
                        assert(crate::streaming::drain_frames(before)
                            =~= Seq::<Seq<char>>::empty());
                        assert(frames_done + crate::streaming::drain_frames(before)
                            =~= frames_done);
                    }
                    continue;
                }
            };
            proof {
                crate::streaming::lemma_first_terminator(before);
                assert(crate::streaming::first_terminator(before) == frame@.len() as int);
                assert(crate::streaming::drain_frames(before)
                    =~= seq![frame@] + crate::streaming::drain_frames(self.buffer.data@));
                assert(crate::streaming::drain_frames(total)
                    =~= frames_done.push(frame@)
                        + crate::streaming::drain_frames(self.buffer.data@));
            }
            let created = now_epoch_secs();
            let ghost prev_id = self.message_id@;
            let ghost out_before = out@;
            let res = parse_sse_event(
                frame.as_str(),
                &mut self.message_id,
                self.model_id.as_str(),
                created,
            );
            let ghost res_view = opt_text(res);
            match res {
                Some(chunk) => out.push(chunk),
                None => {}
            }
            proof {
                let e = choose|e: AnthropicEvent| #![auto]
                    self.message_id@ == event_next_id(e, prev_id)
                    && res_view == event_output(e, prev_id, model0, created as int);
                lemma_stream_outputs_at_snoc(events, createds, e, created as int, id0, model0);
                lemma_thread_id_snoc(events, e, id0);
                match res_view {
                    Some(f) => {
                        assert(out@.map_values(|s: String| s@)
                            =~= out_before.map_values(|s: String| s@).push(f));
                    }
                    None => {
                        assert(out@.map_values(|s: String| s@)
                            =~= out_before.map_values(|s: String| s@));
                    }
                }
                let ghost old_events = events;
                let ghost old_createds = createds;
                let ghost old_frames = frames_done;
                events = events.push(e);
                createds = createds.push(created as int);
                frames_done = frames_done.push(frame@);
                assert(out@.map_values(|s: String| s@)
                    =~= stream_outputs_at(events, createds, id0, model0));
                assert(silent_on_dataless_frames(events, createds, frames_done, id0, model0))
                    by {
                    assert forall|k: int| #![auto]
                        0 <= k < events.len() && last_data_line(frames_done[k]) is None
                        implies event_output(
                            events[k],
                            thread_id(events.take(k), id0),
                            model0,
                            createds[k],
                        ) is None
                            && event_next_id(events[k], thread_id(events.take(k), id0))
                                == thread_id(events.take(k), id0) by {
                        assert(events.take(k) =~= old_events.take(k));
                        if k < old_events.len() {
                            assert(events[k] == old_events[k]);
                            assert(createds[k] == old_createds[k]);
                            assert(frames_done[k] == old_frames[k]);
                        } else {
                            assert(k == old_events.len());
                            assert(events.take(k) =~= old_events);
                            assert(thread_id(old_events, id0) == prev_id);
                            assert(events[k] == e);
                            assert(frames_done[k] == frame@);
                            if last_data_line(frame@) is None {
                                assert(res_view is None);
                                assert(self.message_id@ == prev_id);
                            }
                        }
                    }
                }
            }
        }
        proof {
            crate::streaming::lemma_first_terminator(self.buffer.data@);
            assert(crate::streaming::drain_frames(self.buffer.data@)
                =~= Seq::<Seq<char>>::empty());
            assert(crate::streaming::drain_frames(total) =~= frames_done);
            assert(feed_outputs_ok(
                out@.map_values(|s: String| s@),
                id0,
                self.message_id@,
                model0,
                crate::streaming::drain_frames(total),
            ));
        }
        out
    }
}

/// The frames a run of events emits, in order, threading the captured
/// message id through the run.
pub open spec fn stream_outputs(
    events: Seq<AnthropicEvent>,
    id: Seq<char>,
    model: Seq<char>,
    created: int,
) -> Seq<Seq<char>>
    decreases events.len(),
{
    if events.len() == 0 {
        Seq::empty()
    } else {
        (match event_output(events[0], id, model, created) {
            Some(f) => seq![f],
            None => Seq::<Seq<char>>::empty(),
        }) + stream_outputs(
            events.drop_first(),
            event_next_id(events[0], id),
            model,
            created,
        )
    }
}

/// The message id after a run of events, threaded through their
/// captures.
pub open spec fn thread_id(events: Seq<AnthropicEvent>, id: Seq<char>) -> Seq<char>
    decreases events.len(),
{
    if events.len() == 0 {
        id
    } else {
        thread_id(events.drop_first(), event_next_id(events[0], id))
    }
}

/// The zero-or-one frames one event emits, as a sequence.
pub open spec fn event_frames(
    e: AnthropicEvent,
    id: Seq<char>,
    model: Seq<char>,
    created: int,
) -> Seq<Seq<char>> {
    match event_output(e, id, model, created) {
        Some(f) => seq![f],
        None => Seq::<Seq<char>>::empty(),
    }
}

/// The frames a run of events emits when each event is handled at its
/// own timestamp, threading the captured message id through the run.
pub open spec fn stream_outputs_at(
    events: Seq<AnthropicEvent>,
    createds: Seq<int>,
    id: Seq<char>,
    model: Seq<char>,
) -> Seq<Seq<char>>
    decreases events.len(),
{
    if events.len() == 0 {
        Seq::empty()
    } else {
        event_frames(events[0], id, model, createds[0]) + stream_outputs_at(
            events.drop_first(),
            createds.drop_first(),
            event_next_id(events[0], id),
            model,
        )
    }
}

/// With one shared timestamp the timed run is the plain one.
pub proof fn lemma_stream_outputs_at_const(
    events: Seq<AnthropicEvent>,
    created: int,
    id: Seq<char>,
    model: Seq<char>,
)
    ensures
        stream_outputs_at(events, Seq::new(events.len(), |i: int| created), id, model)
            == stream_outputs(events, id, model, created),
    decreases events.len(),
{
    if events.len() > 0 {
        let cs = Seq::new(events.len(), |i: int| created);
        assert(cs.drop_first() =~= Seq::new(events.drop_first().len(), |i: int| created));
        lemma_stream_outputs_at_const(
            events.drop_first(),
            created,
            event_next_id(events[0], id),
            model,
        );
    }
}

proof fn lemma_thread_id_snoc(events: Seq<AnthropicEvent>, e: AnthropicEvent, id: Seq<char>)
    ensures
        thread_id(events.push(e), id) == event_next_id(e, thread_id(events, id)),
    decreases events.len(),
{
    if events.len() == 0 {
        assert(events.push(e)[0] == e);
        assert(events.push(e).drop_first() =~= Seq::<AnthropicEvent>::empty());
        assert(thread_id(events.push(e), id)
            == thread_id(Seq::<AnthropicEvent>::empty(), event_next_id(e, id)));
        assert(thread_id(Seq::<AnthropicEvent>::empty(), event_next_id(e, id))
            == event_next_id(e, id));
        assert(thread_id(events, id) == id);
    } else {
        assert(events.push(e)[0] == events[0]);
        assert(events.push(e).drop_first() =~= events.drop_first().push(e));
        assert(thread_id(events.push(e), id)
            == thread_id(events.drop_first().push(e), event_next_id(events[0], id)));
        lemma_thread_id_snoc(events.drop_first(), e, event_next_id(events[0], id));
        assert(thread_id(events, id)
            == thread_id(events.drop_first(), event_next_id(events[0], id)));
    }
}

proof fn lemma_stream_outputs_at_snoc(
    events: Seq<AnthropicEvent>,
    createds: Seq<int>,
    e: AnthropicEvent,
    c: int,
    id: Seq<char>,
    model: Seq<char>,
)
    requires
        events.len() == createds.len(),
    ensures
        stream_outputs_at(events.push(e), createds.push(c), id, model)
            == stream_outputs_at(events, createds, id, model)
                + event_frames(e, thread_id(events, id), model, c),
    decreases events.len(),
{
    if events.len() == 0 {
        assert(events.push(e)[0] == e);
        assert(createds.push(c)[0] == c);
        assert(events.push(e).drop_first() =~= Seq::<AnthropicEvent>::empty());
        assert(createds.push(c).drop_first() =~= Seq::<int>::empty());
        assert(stream_outputs_at(events.push(e), createds.push(c), id, model)
            == event_frames(e, id, model, c) + stream_outputs_at(
                Seq::<AnthropicEvent>::empty(),
                Seq::<int>::empty(),
                event_next_id(e, id),
                model,
            ));
        assert(stream_outputs_at(
            Seq::<AnthropicEvent>::empty(),
            Seq::<int>::empty(),
            event_next_id(e, id),
            model,
        ) =~= Seq::<Seq<char>>::empty());
        assert(stream_outputs_at(events, createds, id, model) =~= Seq::<Seq<char>>::empty());
        assert(thread_id(events, id) == id);
        assert(stream_outputs_at(events.push(e), createds.push(c), id, model)
            =~= stream_outputs_at(events, createds, id, model) + event_frames(e, id, model, c));
    } else {
        assert(events.push(e)[0] == events[0]);
        assert(createds.push(c)[0] == createds[0]);
        assert(events.push(e).drop_first() =~= events.drop_first().push(e));
        assert(createds.push(c).drop_first() =~= createds.drop_first().push(c));
        assert(stream_outputs_at(events.push(e), createds.push(c), id, model)
            == event_frames(events[0], id, model, createds[0]) + stream_outputs_at(
                events.drop_first().push(e),
                createds.drop_first().push(c),
                event_next_id(events[0], id),
                model,
            ));
        lemma_stream_outputs_at_snoc(
            events.drop_first(),
            createds.drop_first(),
            e,
            c,
            event_next_id(events[0], id),
            model,
        );
        assert(stream_outputs_at(events, createds, id, model)
            == event_frames(events[0], id, model, createds[0]) + stream_outputs_at(
                events.drop_first(),
                createds.drop_first(),
                event_next_id(events[0], id),
                model,
            ));
        assert(thread_id(events, id)
            == thread_id(events.drop_first(), event_next_id(events[0], id)));
        assert(stream_outputs_at(events.push(e), createds.push(c), id, model)
            =~= stream_outputs_at(events, createds, id, model)
                + event_frames(e, thread_id(events, id), model, c));
    }
}

/// A completed frame with no `data:` line acts silently in the run:
/// its event emits nothing and leaves the threaded id unchanged.
pub open spec fn silent_on_dataless_frames(
    events: Seq<AnthropicEvent>,
    createds: Seq<int>,
    frames: Seq<Seq<char>>,
    old_id: Seq<char>,
    model: Seq<char>,
) -> bool {
    forall|k: int| #![auto] 0 <= k < events.len() && last_data_line(frames[k]) is None
        ==> event_output(events[k], thread_id(events.take(k), old_id), model, createds[k])
                is None
            && event_next_id(events[k], thread_id(events.take(k), old_id))
                == thread_id(events.take(k), old_id)
}

/// The frames a feed returns are the event machine's outputs for some
/// run of events of the closed vocabulary — exactly one event per
/// completed frame — each handled at some timestamp, in order, with
/// the final id threaded through that run, and with every completed
/// frame that has no `data:` line acting silently. In particular,
/// while no frame completes nothing is emitted, and each completed
/// frame yields at most one canonical frame. Which event a frame's
/// data line decoded to is fixed by the JSON reader, which carries no
/// grammar-level contract; a feed can therefore only emit machine
/// outputs in machine order, never an arbitrary frame, a reordering,
/// or more frames than completed.
pub open spec fn feed_outputs_ok(
    out: Seq<Seq<char>>,
    old_id: Seq<char>,
    new_id: Seq<char>,
    model: Seq<char>,
    frames: Seq<Seq<char>>,
) -> bool {
    exists|events: Seq<AnthropicEvent>, createds: Seq<int>| #![auto]
        events.len() == createds.len()
        && events.len() == frames.len()
        && out == stream_outputs_at(events, createds, old_id, model)
        && new_id == thread_id(events, old_id)
        && silent_on_dataless_frames(events, createds, frames, old_id, model)
}

/// The canonical event run — `message_start`, one text delta, a final
/// `end_turn` stop reason, `message_stop` — yields, in order, exactly
/// one content chunk, one finish chunk normalized to `stop`, and the
/// terminal sentinel; both chunks carry the id the `message_start`
/// captured, and nothing is emitted before it is captured.
pub proof fn lemma_anthropic_stream_order(
    x: String,
    t: String,
    s: String,
    id0: Seq<char>,
    model: Seq<char>,
    created: int,
)
    requires
        s@ == "end_turn"@,
    ensures
        stream_outputs(
            seq![
                AnthropicEvent::MessageStart { id: x },
                AnthropicEvent::ContentBlockDelta { text: t },
                AnthropicEvent::MessageDelta { stop_reason: Some(s) },
                AnthropicEvent::MessageStop,
            ],
            id0,
            model,
            created,
        ) == seq![
            sse_frame_rep(single_chunk_rep(x@, model, created, None, Some(t@), None)),
            sse_frame_rep(single_chunk_rep(x@, model, created, None, None, Some("stop"@))),
            "data: [DONE]\n\n"@,
        ],
{
    let e0 = AnthropicEvent::MessageStart { id: x };
    let e1 = AnthropicEvent::ContentBlockDelta { text: t };
    let e2 = AnthropicEvent::MessageDelta { stop_reason: Some(s) };
    let e3 = AnthropicEvent::MessageStop;
    let events = seq![e0, e1, e2, e3];
    let r1 = events.drop_first();
    let r2 = r1.drop_first();
    let r3 = r2.drop_first();
    let r4 = r3.drop_first();
    assert(r1 =~= seq![e1, e2, e3]);
    assert(r2 =~= seq![e2, e3]);
    assert(r3 =~= seq![e3]);
    assert(r4 =~= Seq::<AnthropicEvent>::empty());
    assert(anthropic_finish_of(s@) == "stop"@);
    let content_frame = sse_frame_rep(single_chunk_rep(x@, model, created, None, Some(t@), None));
    let finish_frame = sse_frame_rep(
        single_chunk_rep(x@, model, created, None, None, Some("stop"@)),
    );
    let done_frame = "data: [DONE]\n\n"@;
    assert(stream_outputs(r4, x@, model, created) =~= Seq::<Seq<char>>::empty());
    assert(stream_outputs(r3, x@, model, created) =~= seq![done_frame]);
    assert(stream_outputs(r2, x@, model, created) =~= seq![finish_frame, done_frame]);
    assert(stream_outputs(r1, x@, model, created) =~= seq![content_frame, finish_frame, done_frame]);
    assert(event_next_id(e0, id0) == x@);
    assert(stream_outputs(events, id0, model, created) =~= seq![
        content_frame,
        finish_frame,
        done_frame,
    ]);
}

} // verus!
