//! The Gemini-style provider adapter: request and response translation
//! between the canonical schema and the provider's native one, and the
//! stateful translation of its event stream.

use vstd::prelude::*;
use crate::error::FeatherGateError;
use crate::text::{
    dec_rep, milli_rep, opt_str_view, opt_text, render_milli, str_eq, trimmed_base,
    trim_trailing_slashes, truncate_chars, truncated, u64_to_dec,
};
use crate::streaming::{
    drain_rest, join_comma, join_comma_exec, json_string, json_string_rep, no_terminator,
    single_chunk_rep, sse_frame_rep, SseBuffer,
};
use crate::types::{ChatRequest, ChatResponse, Choice, Message, Usage};
use crate::sys::{mint_request_id, now_epoch_secs};

verus! {

/// One native content turn.
#[derive(Debug, Clone)]
pub struct GeminiContent {
    pub role: String,
    pub parts: Vec<GeminiPart>,
}

/// One text part of a turn.
#[derive(Debug, Clone)]
pub struct GeminiPart {
    pub text: String,
}

/// The native sampling configuration; sent only when at least one
/// field is set. `temperature` and `top_p` are thousandths.
#[derive(Debug, Clone)]
pub struct GenerationConfig {
    pub temperature: Option<i64>,
    pub max_output_tokens: Option<u32>,
    pub top_p: Option<i64>,
}

/// The native request body.
#[derive(Debug, Clone)]
pub struct GeminiRequest {
    pub contents: Vec<GeminiContent>,
    pub generation_config: Option<GenerationConfig>,
}

/// One candidate of a native response.
#[derive(Debug, Clone)]
pub struct Candidate {
    pub content: GeminiContentResponse,
    pub finish_reason: Option<String>,
}

/// The content of one candidate.
#[derive(Debug, Clone)]
pub struct GeminiContentResponse {
    pub parts: Vec<GeminiPartResponse>,
}

/// One text part of a candidate.
#[derive(Debug, Clone)]
pub struct GeminiPartResponse {
    pub text: String,
}

/// The native token accounting.
#[derive(Debug, Clone)]
pub struct UsageMetadata {
    pub prompt_token_count: u32,
    pub candidates_token_count: u32,
    pub total_token_count: u32,
}

/// The native response body.
#[derive(Debug, Clone)]
pub struct GeminiResponse {
    pub candidates: Vec<Candidate>,
    pub usage_metadata: Option<UsageMetadata>,
}

/// The translation of a canonical message list into native turns,
/// threading the accumulated turns and the pending system text:
/// a `system` message is held aside (the latest wins); `assistant`
/// renames to `model`; pending system text is prepended, with a blank
/// line, onto the first `user` turn when no turn was produced yet.
pub open spec fn gemini_fold(
    ms: Seq<Message>,
    acc: Seq<(Seq<char>, Seq<char>)>,
    sys: Option<Seq<char>>,
) -> (Seq<(Seq<char>, Seq<char>)>, Option<Seq<char>>)
    decreases ms.len(),
{
    if ms.len() == 0 {
        (acc, sys)
    } else {
        let m = ms[0];
        if m.role@ == "system"@ {
            gemini_fold(ms.drop_first(), acc, Some(m.content@))
        } else {
            let role = if m.role@ == "assistant"@ { "model"@ } else { m.role@ };
            if role == "user"@ && sys is Some && acc.len() == 0 {
                gemini_fold(
                    ms.drop_first(),
                    acc.push((role, sys->Some_0 + "\n\n"@ + m.content@)),
                    None,
                )
            } else {
                gemini_fold(ms.drop_first(), acc.push((role, m.content@)), sys)
            }
        }
    }
}

/// The native turns of a canonical message list.
pub open spec fn gemini_turns_of(ms: Seq<Message>) -> Seq<(Seq<char>, Seq<char>)> {
    gemini_fold(ms, Seq::empty(), None).0
}

/// The role/text views of built native turns; every built turn holds
/// exactly one part.
pub open spec fn content_views(cs: Seq<GeminiContent>) -> Seq<(Seq<char>, Seq<char>)> {
    cs.map_values(
        |c: GeminiContent|
            (c.role@, if c.parts@.len() > 0 { c.parts@[0].text@ } else { Seq::<char>::empty() }),
    )
}

/// Translates a canonical request into the native one. The sampling
/// configuration is included exactly when at least one of temperature,
/// max-tokens or top-p is set.
pub fn convert_request(req: &ChatRequest) -> (r: GeminiRequest)
    ensures
        r.contents@.len() == gemini_turns_of(req.messages@).len(),
        forall|i: int| 0 <= i < r.contents@.len()
            ==> (#[trigger] r.contents@[i]).role@ == gemini_turns_of(req.messages@)[i].0
                && r.contents@[i].parts@.len() == 1
                && r.contents@[i].parts@[0].text@ == gemini_turns_of(req.messages@)[i].1,
        match r.generation_config {
            Some(g) => (req.temperature is Some || req.max_tokens is Some || req.top_p is Some)
                && g.temperature == req.temperature
                && g.max_output_tokens == req.max_tokens
                && g.top_p == req.top_p,
            None => req.temperature is None && req.max_tokens is None && req.top_p is None,
        },
{
    let mut contents: Vec<GeminiContent> = Vec::new();
    let mut system_content: Option<String> = None;

    let n = req.messages.len();
    proof {
        assert(req.messages@.subrange(0, n as int) =~= req.messages@);
        assert(content_views(contents@) =~= Seq::<(Seq<char>, Seq<char>)>::empty());
    }
    let mut i: usize = 0;
    while i < n
        invariant
            0 <= i <= n,
            n == req.messages@.len(),
            forall|j: int| 0 <= j < contents@.len()
                ==> (#[trigger] contents@[j]).parts@.len() == 1,
            gemini_fold(req.messages@, Seq::empty(), None) == gemini_fold(
                req.messages@.subrange(i as int, n as int),
                content_views(contents@),
                opt_text(system_content),
            ),
        decreases n - i,
    {
        let msg = &req.messages[i];
        proof {
            let rest = req.messages@.subrange(i as int, n as int);
            assert(rest[0] == req.messages@[i as int]);
            assert(rest.drop_first() =~= req.messages@.subrange(i as int + 1, n as int));
        }
        if str_eq(msg.role.as_str(), "system") {
            system_content = Some(msg.content.clone());
        } else {
            let role_str = if str_eq(msg.role.as_str(), "assistant") {
                String::from_str("model")
            } else {
                msg.role.clone()
            };
            let mut text = msg.content.clone();
            if str_eq(role_str.as_str(), "user") && contents.len() == 0
                && system_content.is_some() {
                let sys = match system_content {
                    Some(s) => s,
                    None => String::new(),
                };
                system_content = None;
                let mut merged = sys;
                merged.append("\n\n");
                merged.append(msg.content.as_str());
                text = merged;
            }
            let mut parts: Vec<GeminiPart> = Vec::new();
            parts.push(GeminiPart { text });
            let ghost before = contents@;
            contents.push(GeminiContent { role: role_str, parts });
            proof {
                assert(content_views(contents@) =~= content_views(before).push((
                    contents@.last().role@,
                    contents@.last().parts@[0].text@,
                )));
            }
        }
        i = i + 1;
    }
    proof {
        assert(req.messages@.subrange(0, n as int) =~= req.messages@);
        assert(req.messages@.subrange(n as int, n as int)
            =~= Seq::<Message>::empty());
    }

    let generation_config = if req.temperature.is_some() || req.max_tokens.is_some()
        || req.top_p.is_some() {
        Some(GenerationConfig {
            temperature: req.temperature,
            max_output_tokens: req.max_tokens,
            top_p: req.top_p,
        })
    } else {
        None
    };

    GeminiRequest { contents, generation_config }
}

/// The normalized form of a native finish reason: `STOP` becomes
/// `stop`, `MAX_TOKENS` becomes `length`, anything else passes
/// through.
pub open spec fn gemini_finish_of(r: Seq<char>) -> Seq<char> {
    if r == "STOP"@ {
        "stop"@
    } else if r == "MAX_TOKENS"@ {
        "length"@
    } else {
        r
    }
}

/// Normalizes a native finish reason.
pub fn map_finish_reason(reason: &str) -> (r: String)
    ensures
        r@ == gemini_finish_of(reason@),
{
    if str_eq(reason, "STOP") {
        String::from_str("stop")
    } else if str_eq(reason, "MAX_TOKENS") {
        String::from_str("length")
    } else {
        String::from_str(reason)
    }
}

/// Normalizing a finish reason twice gives the same result as doing it
/// once: the normalized vocabulary is a fixed point of the mapping.
pub proof fn lemma_gemini_finish_idempotent(r: Seq<char>)
    ensures
        gemini_finish_of(gemini_finish_of(r)) == gemini_finish_of(r),
{
    reveal_strlit("STOP");
    reveal_strlit("MAX_TOKENS");
    reveal_strlit("stop");
    reveal_strlit("length");
    assert("stop"@ != "STOP"@) by {
        assert("stop"@[0] == 's');
        assert("STOP"@[0] == 'S');
    }
    assert("stop"@.len() == 4);
    assert("length"@.len() == 6);
    assert("STOP"@.len() == 4);
    assert("MAX_TOKENS"@.len() == 10);
}

/// The concatenated text of a candidate's parts, in order.
pub open spec fn parts_text_of(parts: Seq<GeminiPartResponse>) -> Seq<char>
    decreases parts.len(),
{
    if parts.len() == 0 {
        Seq::empty()
    } else {
        parts_text_of(parts.drop_last()) + parts.last().text@
    }
}

/// Translates a native response into the canonical one: the first
/// candidate's part texts concatenate into the assistant message, the
/// finish reason is normalized, and the usage total is the sum of the
/// prompt and completion counts — the upstream-reported total is not
/// trusted. A response with no candidate at all is an internal error.
/// A fresh identifier is minted, and the creation timestamp is read
/// from the clock.
/// The outcome `r` is the stated translation of the native response
/// `resp` for the given model: on a response with a candidate, one
/// assistant choice holding the first candidate's concatenated part
/// texts, the normalized finish reason, a usage whose total is the sum
/// of the prompt and completion counts, and a freshly minted
/// identifier (only its prefix is constrained; the timestamp is not —
/// it comes from the clock); on a response with no candidate, the
/// fixed internal error.
pub open spec fn gemini_translation(
    resp: GeminiResponse,
    model: Seq<char>,
    r: Result<ChatResponse, FeatherGateError>,
) -> bool {
    match r {
        Ok(cr) => resp.candidates@.len() > 0 && {
            &&& cr.id@.len() > 9 && cr.id@.subrange(0, 9) == "chatcmpl-"@
            &&& cr.object@ == "chat.completion"@
            &&& cr.model@ == model
            &&& cr.choices@.len() == 1
            &&& cr.choices@[0].index == 0
            &&& cr.choices@[0].message.role@ == "assistant"@
            &&& cr.choices@[0].message.content@
                == parts_text_of(resp.candidates@[0].content.parts@)
            &&& opt_text(cr.choices@[0].finish_reason) == (
                match resp.candidates@[0].finish_reason {
                    Some(s) => Some(gemini_finish_of(s@)),
                    None => None::<Seq<char>>,
                })
            &&& match (cr.usage, resp.usage_metadata) {
                (Some(u), Some(m)) => u.prompt_tokens == m.prompt_token_count
                    && u.completion_tokens == m.candidates_token_count
                    && u.total_tokens == m.prompt_token_count + m.candidates_token_count,
                (None, None) => true,
                _ => false,
            }
        },
        Err(e) => resp.candidates@.len() == 0
            && (e matches FeatherGateError::InternalError(m)
                && m@ == "Gemini 响应中没有 candidates"@),
    }
}

pub fn convert_response(resp: GeminiResponse, model: &str) -> (r: Result<
    ChatResponse,
    FeatherGateError,
>)
    requires
        resp.usage_metadata matches Some(m)
            ==> m.prompt_token_count + m.candidates_token_count <= u32::MAX,
    ensures
        gemini_translation(resp, model@, r),
{
    if resp.candidates.len() == 0 {
        return Err(FeatherGateError::internal(String::from_str("Gemini 响应中没有 candidates")));
    }
    let candidate = &resp.candidates[0];

    let mut content = String::new();
    let n = candidate.content.parts.len();
    let mut i: usize = 0;
    while i < n
        invariant
            0 <= i <= n,
            n == candidate.content.parts@.len(),
            content@ == parts_text_of(candidate.content.parts@.subrange(0, i as int)),
        decreases n - i,
    {
        proof {
            let p = candidate.content.parts@.subrange(0, i as int);
            let q = candidate.content.parts@.subrange(0, i as int + 1);
            assert(q.drop_last() =~= p);
            assert(q.last() == candidate.content.parts@[i as int]);
        }
        content.append(candidate.content.parts[i].text.as_str());
        i = i + 1;
    }
    proof {
        assert(candidate.content.parts@.subrange(0, n as int) =~= candidate.content.parts@);
    }

    let finish_reason = match &candidate.finish_reason {
        Some(reason) => Some(map_finish_reason(reason.as_str())),
        None => None,
    };

    let usage = match &resp.usage_metadata {
        Some(meta) => Some(Usage {
            prompt_tokens: meta.prompt_token_count,
            completion_tokens: meta.candidates_token_count,
            total_tokens: meta.prompt_token_count + meta.candidates_token_count,
        }),
        None => None,
    };

    let mut choices: Vec<Choice> = Vec::new();
    choices.push(Choice {
        index: 0,
        message: Message::assistant(content),
        finish_reason,
    });

    Ok(ChatResponse {
        id: mint_request_id(),
        object: String::from_str("chat.completion"),
        created: now_epoch_secs(),
        model: String::from_str(model),
        choices,
        usage,
    })
}

/// The endpoint for the native call: the provider default when no base
/// URL is configured, otherwise the override with trailing slashes
/// trimmed, with the model's generate path — streaming or not —
/// appended.
pub fn gemini_url(api_base: &str, model_id: &str, stream: bool) -> (r: String)
    ensures
        r@ == (if api_base@.len() == 0 {
            "https://generativelanguage.googleapis.com"@
        } else {
            trimmed_base(api_base@)
        }) + "/v1beta/models/"@ + model_id@ + (if stream {
            ":streamGenerateContent?alt=sse"@
        } else {
            ":generateContent"@
        }),
{
    let mut url = if api_base.is_empty() {
        String::from_str("https://generativelanguage.googleapis.com")
    } else {
        String::from_str(trim_trailing_slashes(api_base))
    };
    url.append("/v1beta/models/");
    url.append(model_id);
    if stream {
        url.append(":streamGenerateContent?alt=sse");
    } else {
        url.append(":generateContent");
    }
    url
}

/// The error reported for a non-success native status: the status code
/// with the response body, the body capped at 4096 characters.
pub fn upstream_error(status: u16, body: &str) -> (e: FeatherGateError)
    ensures
        e matches FeatherGateError::UpstreamError { status: st, message: m }
            && st == status
            && m@ == "Gemini API 错误: "@ + truncated(body@, 4096),
{
    let mut m = String::from_str("Gemini API 错误: ");
    m.append(truncate_chars(body, 4096));
    FeatherGateError::upstream(status, m)
}

/// Reads a native response out of JSON text, mirroring the upstream
/// schema: the candidate list is required, each candidate's content
/// and parts are required, the finish reason and the usage block are
/// optional. Malformed text yields nothing. The accepted grammar is
/// not stated as a contract; what `decode_response` promises of a
/// success holds of whatever decoded here.
pub(crate) fn response_from_json(body: &str) -> (r: Option<GeminiResponse>) {
    let v = match crate::json::parse(body) {
        Some(v) => v,
        None => return None,
    };
    let items = match v.get("candidates") {
        Some(x) => match x.as_items() {
            Some(a) => a,
            None => return None,
        },
        None => return None,
    };
    let mut candidates: Vec<Candidate> = Vec::new();
    let n = items.len();
    let mut i: usize = 0;
    while i < n
        invariant
            0 <= i <= n,
            n == items@.len(),
        decreases n - i,
    {
        let item = &items[i];
        let part_items = match item.get("content") {
            Some(c) => match c.get("parts") {
                Some(p) => match p.as_items() {
                    Some(a) => a,
                    None => return None,
                },
                None => return None,
            },
            None => return None,
        };
        let mut parts: Vec<GeminiPartResponse> = Vec::new();
        let m = part_items.len();
        let mut j: usize = 0;
        while j < m
            invariant
                0 <= j <= m,
                m == part_items@.len(),
            decreases m - j,
        {
            let text = match part_items[j].get("text") {
                Some(x) => match x.as_text() {
                    Some(s) => s.clone(),
                    None => return None,
                },
                None => return None,
            };
            parts.push(GeminiPartResponse { text });
            j = j + 1;
        }
        let finish_reason = match item.get("finishReason") {
            Some(x) => {
                if x.is_null() {
                    None
                } else {
                    match x.as_text() {
                        Some(s) => Some(s.clone()),
                        None => return None,
                    }
                }
            }
            None => None,
        };
        candidates.push(Candidate {
            content: GeminiContentResponse { parts },
            finish_reason,
        });
        i = i + 1;
    }
    let usage_metadata = match v.get("usageMetadata") {
        Some(x) => {
            if x.is_null() {
                None
            } else {
                let prompt_token_count = match x.get("promptTokenCount") {
                    Some(y) => match y.as_u32() {
                        Some(t) => t,
                        None => return None,
                    },
                    None => return None,
                };
                let candidates_token_count = match x.get("candidatesTokenCount") {
                    Some(y) => match y.as_u32() {
                        Some(t) => t,
                        None => return None,
                    },
                    None => return None,
                };
                let total_token_count = match x.get("totalTokenCount") {
                    Some(y) => match y.as_u32() {
                        Some(t) => t,
                        None => return None,
                    },
                    None => return None,
                };
                Some(UsageMetadata {
                    prompt_token_count,
                    candidates_token_count,
                    total_token_count,
                })
            }
        }
        None => None,
    };
    Some(GeminiResponse { candidates, usage_metadata })
}

/// The canonical response is the stated translation, for this model,
/// of some native response with representable token counts. Which
/// native response the body decoded to is fixed by the hand-written
/// JSON reader, which carries no grammar-level contract; a success can
/// therefore only be the exact translation of a decoded response,
/// never a fabricated value of another shape.
pub open spec fn some_decoded_translation(model: Seq<char>, cr: ChatResponse) -> bool {
    exists|resp: GeminiResponse| #![auto]
        (resp.usage_metadata matches Some(m)
            ==> m.prompt_token_count + m.candidates_token_count <= u32::MAX)
        && gemini_translation(resp, model, Ok(cr))
}

/// Decodes a native response body and translates it to the canonical
/// one. Text that does not decode is an error, as is a decoded
/// response with no candidate.
pub fn decode_response(body: &str, model: &str) -> (r: Result<ChatResponse, FeatherGateError>)
    ensures
        match r {
            Ok(cr) => some_decoded_translation(model@, cr),
            Err(e) => e matches FeatherGateError::JsonError(_)
                || e matches FeatherGateError::InternalError(_),
        },
{
    match response_from_json(body) {
        Some(resp) => {
            let counts_ok = match &resp.usage_metadata {
                Some(m) => m.prompt_token_count <= u32::MAX - m.candidates_token_count,
                None => true,
            };
            if !counts_ok {
                return Err(FeatherGateError::internal(
                    String::from_str("Gemini 响应的 token 计数超出范围"),
                ));
            }
            let ghost gresp = resp;
            let r = convert_response(resp, model);
            proof {
                assert(gemini_translation(gresp, model@, r));
                if r is Ok {
                    assert(some_decoded_translation(model@, r->Ok_0));
                }
            }
            r
        }
        None => Err(FeatherGateError::JsonError(
            String::from_str("Gemini 响应不是预期的 JSON 格式"),
        )),
    }
}

/// One native part as JSON.
pub open spec fn gemini_part_rep(p: GeminiPart) -> Seq<char> {
    "{\"text\":"@ + json_string_rep(p.text@) + "}"@
}

/// The part list of one turn as a JSON array body.
pub open spec fn gemini_parts_rep(ps: Seq<GeminiPart>) -> Seq<char>
    decreases ps.len(),
{
    if ps.len() == 0 {
        Seq::empty()
    } else if ps.len() == 1 {
        gemini_part_rep(ps[0])
    } else {
        gemini_parts_rep(ps.drop_last()) + ","@ + gemini_part_rep(ps.last())
    }
}

/// One native turn as JSON.
pub open spec fn gemini_content_rep(c: GeminiContent) -> Seq<char> {
    "{\"role\":"@ + json_string_rep(c.role@) + ",\"parts\":["@ + gemini_parts_rep(c.parts@)
        + "]}"@
}

/// The turn list as a JSON array body.
pub open spec fn gemini_contents_rep(cs: Seq<GeminiContent>) -> Seq<char>
    decreases cs.len(),
{
    if cs.len() == 0 {
        Seq::empty()
    } else if cs.len() == 1 {
        gemini_content_rep(cs[0])
    } else {
        gemini_contents_rep(cs.drop_last()) + ","@ + gemini_content_rep(cs.last())
    }
}

/// The sampling configuration's fields, rendered in order, only those
/// that are set.
pub open spec fn gen_config_items(g: GenerationConfig) -> Seq<Seq<char>> {
    (match g.temperature {
        Some(t) => seq!["\"temperature\":"@ + milli_rep(t as int)],
        None => Seq::<Seq<char>>::empty(),
    }) + (match g.max_output_tokens {
        Some(v) => seq!["\"maxOutputTokens\":"@ + dec_rep(v as int)],
        None => Seq::<Seq<char>>::empty(),
    }) + (match g.top_p {
        Some(p) => seq!["\"topP\":"@ + milli_rep(p as int)],
        None => Seq::<Seq<char>>::empty(),
    })
}

/// The sampling configuration as JSON.
pub open spec fn gen_config_rep(g: GenerationConfig) -> Seq<char> {
    "{"@ + join_comma(gen_config_items(g)) + "}"@
}

/// The native request body as JSON, fields in wire order; the sampling
/// configuration is omitted entirely when absent.
pub open spec fn gemini_request_rep(r: GeminiRequest) -> Seq<char> {
    "{\"contents\":["@ + gemini_contents_rep(r.contents@) + "]"@
        + (match r.generation_config {
            Some(g) => ",\"generation_config\":"@ + gen_config_rep(g),
            None => Seq::<char>::empty(),
        })
        + "}"@
}

fn gemini_content_to_json(c: &GeminiContent) -> (out: String)
    ensures
        out@ == gemini_content_rep(*c),
{
    let mut out = String::from_str("{\"role\":");
    let rs = json_string(c.role.as_str());
    out.append(rs.as_str());
    out.append(",\"parts\":[");
    let n = c.parts.len();
    let mut i: usize = 0;
    while i < n
        invariant
            0 <= i <= n,
            n == c.parts@.len(),
            out@ == "{\"role\":"@ + json_string_rep(c.role@) + ",\"parts\":["@
                + gemini_parts_rep(c.parts@.subrange(0, i as int)),
        decreases n - i,
    {
        if i > 0 {
            out.append(",");
        }
        out.append("{\"text\":");
        let ts = json_string(c.parts[i].text.as_str());
        out.append(ts.as_str());
        out.append("}");
        proof {
            let p = c.parts@.subrange(0, i as int);
            let q = c.parts@.subrange(0, i as int + 1);
            assert(q.drop_last() =~= p);
            assert(q.last() == c.parts@[i as int]);
            if i == 0 {
                assert(gemini_parts_rep(q) == gemini_part_rep(c.parts@[0]));
            }
            assert(out@ =~= "{\"role\":"@ + json_string_rep(c.role@) + ",\"parts\":["@
                + gemini_parts_rep(q));
        }
        i = i + 1;
    }
    proof {
        assert(c.parts@.subrange(0, n as int) =~= c.parts@);
    }
    out.append("]}");
    proof {
        assert(out@ =~= gemini_content_rep(*c));
    }
    out
}

/// Serializes the native request for the wire.
pub fn gemini_request_to_json(r: &GeminiRequest) -> (out: String)
    ensures
        out@ == gemini_request_rep(*r),
{
    let mut out = String::from_str("{\"contents\":[");
    let n = r.contents.len();
    let mut i: usize = 0;
    while i < n
        invariant
            0 <= i <= n,
            n == r.contents@.len(),
            out@ == "{\"contents\":["@ + gemini_contents_rep(r.contents@.subrange(0, i as int)),
        decreases n - i,
    {
        if i > 0 {
            out.append(",");
        }
        let cj = gemini_content_to_json(&r.contents[i]);
        out.append(cj.as_str());
        proof {
            let p = r.contents@.subrange(0, i as int);
            let q = r.contents@.subrange(0, i as int + 1);
            assert(q.drop_last() =~= p);
            assert(q.last() == r.contents@[i as int]);
            if i == 0 {
                assert(gemini_contents_rep(q) == gemini_content_rep(r.contents@[0]));
            }
            assert(out@ =~= "{\"contents\":["@ + gemini_contents_rep(q));
        }
        i = i + 1;
    }
    proof {
        assert(r.contents@.subrange(0, n as int) =~= r.contents@);
    }
    out.append("]");

    match &r.generation_config {
        Some(g) => {
            out.append(",\"generation_config\":");
            out.append("{");
            let mut items: Vec<String> = Vec::new();
            if let Some(t) = g.temperature {
                let mut s = String::from_str("\"temperature\":");
                let v = render_milli(t);
                s.append(v.as_str());
                items.push(s);
            }
            if let Some(mo) = g.max_output_tokens {
                let mut s = String::from_str("\"maxOutputTokens\":");
                let v = u64_to_dec(mo as u64);
                s.append(v.as_str());
                items.push(s);
            }
            if let Some(p) = g.top_p {
                let mut s = String::from_str("\"topP\":");
                let v = render_milli(p);
                s.append(v.as_str());
                items.push(s);
            }
            proof {
                assert(items@.map_values(|s: String| s@) =~= gen_config_items(*g));
            }
            let joined = join_comma_exec(&items);
            out.append(joined.as_str());
            out.append("}");
        }
        None => {}
    }

    out.append("}");
    proof {
        assert(out@ =~= gemini_request_rep(*r));
    }
    out
}

/// What the translation emits for one decoded stream event carrying
/// the candidate's text and an optional raw finish reason.
pub open spec fn gemini_chunk_output(
    text: Seq<char>,
    finish_raw: Option<Seq<char>>,
    id: Seq<char>,
    model: Seq<char>,
    created: int,
) -> Seq<char> {
    sse_frame_rep(
        single_chunk_rep(
            id,
            model,
            created,
            None,
            Some(text),
            match finish_raw {
                Some(f) => Some(gemini_finish_of(f)),
                None => None,
            },
        ),
    )
}

/// Builds one canonical chunk frame for a native stream event: the
/// stream's shared identifier, the given timestamp and model, the
/// candidate's text as the content, and the already-normalized finish
/// reason or `null`.
pub fn create_gemini_openai_chunk(
    id: &str,
    model: &str,
    content: &str,
    finish_reason: Option<&str>,
    created: u64,
) -> (r: String)
    ensures
        r@ == sse_frame_rep(
            single_chunk_rep(
                id@,
                model@,
                created as int,
                None,
                Some(content@),
                opt_str_view(finish_reason),
            ),
        ),
{
    crate::anthropic::create_openai_chunk(id, model, Some(content), finish_reason, created)
}

/// Decodes one native stream event: the first candidate's full
/// concatenated part text and the raw finish reason. An event with no
/// candidate or no part, or malformed text, yields nothing and is
/// dropped. The accepted grammar is not stated as a contract; the
/// caller's contract holds of whatever decoded here.
pub(crate) fn decode_chunk_data(data: &str) -> (r: Option<(String, Option<String>)>) {
    let v = match crate::json::parse(data) {
        Some(v) => v,
        None => return None,
    };
    let cands = match v.get("candidates") {
        Some(c) => match c.as_items() {
            Some(items) => items,
            None => return None,
        },
        None => return None,
    };
    if cands.len() == 0 {
        return None;
    }
    let cand = &cands[0];
    let parts = match cand.get("content") {
        Some(content) => match content.get("parts") {
            Some(p) => match p.as_items() {
                Some(items) => items,
                None => return None,
            },
            None => return None,
        },
        None => return None,
    };
    if parts.len() == 0 {
        return None;
    }
    let mut text = String::new();
    let n = parts.len();
    let mut i: usize = 0;
    while i < n
        invariant
            0 <= i <= n,
            n == parts@.len(),
        decreases n - i,
    {
        match parts[i].get("text") {
            Some(t) => match t.as_text() {
                Some(s) => text.append(s.as_str()),
                None => return None,
            },
            None => return None,
        }
        i = i + 1;
    }
    let finish = match cand.get("finishReason") {
        Some(f) => {
            if f.is_null() {
                None
            } else {
                match f.as_text() {
                    Some(s) => Some(s.clone()),
                    None => return None,
                }
            }
        }
        None => None,
    };
    Some((text, finish))
}

/// `f` is a canonical chunk frame of this stream: the translation of
/// some decoded event — some candidate text and optional raw finish
/// reason, at some timestamp — carrying the stream's shared id and
/// model. Which event an input decoded to is fixed by the JSON
/// reader, which carries no grammar-level contract; emission can
/// therefore only produce frames of this shape, never an arbitrary
/// frame or a foreign id.
pub open spec fn stream_chunk_of(f: Seq<char>, id: Seq<char>, model: Seq<char>) -> bool {
    exists|text: Seq<char>, finish: Option<Seq<char>>, created: int| #![auto]
        f == gemini_chunk_output(text, finish, id, model, created)
}

/// The frames of a per-frame emission run, in order.
pub open spec fn flatten_emissions(emissions: Seq<Option<Seq<char>>>) -> Seq<Seq<char>>
    decreases emissions.len(),
{
    if emissions.len() == 0 {
        Seq::empty()
    } else {
        (match emissions[0] {
            Some(f) => seq![f],
            None => Seq::<Seq<char>>::empty(),
        }) + flatten_emissions(emissions.drop_first())
    }
}

proof fn lemma_flatten_emissions_snoc(emissions: Seq<Option<Seq<char>>>, e: Option<Seq<char>>)
    ensures
        flatten_emissions(emissions.push(e)) == flatten_emissions(emissions)
            + (match e {
                Some(f) => seq![f],
                None => Seq::<Seq<char>>::empty(),
            }),
    decreases emissions.len(),
{
    if emissions.len() == 0 {
        assert(emissions.push(e)[0] == e);
        assert(emissions.push(e).drop_first() =~= Seq::<Option<Seq<char>>>::empty());
        assert(flatten_emissions(emissions.push(e))
            == (match e {
                Some(f) => seq![f],
                None => Seq::<Seq<char>>::empty(),
            }) + flatten_emissions(Seq::<Option<Seq<char>>>::empty()));
        assert(flatten_emissions(Seq::<Option<Seq<char>>>::empty())
            =~= Seq::<Seq<char>>::empty());
        assert(flatten_emissions(emissions) =~= Seq::<Seq<char>>::empty());
        assert(flatten_emissions(emissions.push(e))
            =~= flatten_emissions(emissions)
                + (match e {
                    Some(f) => seq![f],
                    None => Seq::<Seq<char>>::empty(),
                }));
    } else {
        assert(emissions.push(e)[0] == emissions[0]);
        assert(emissions.push(e).drop_first() =~= emissions.drop_first().push(e));
        assert(flatten_emissions(emissions.push(e))
            == (match emissions[0] {
                Some(f) => seq![f],
                None => Seq::<Seq<char>>::empty(),
            }) + flatten_emissions(emissions.drop_first().push(e)));
        lemma_flatten_emissions_snoc(emissions.drop_first(), e);
        assert(flatten_emissions(emissions)
            == (match emissions[0] {
                Some(f) => seq![f],
                None => Seq::<Seq<char>>::empty(),
            }) + flatten_emissions(emissions.drop_first()));
        assert(flatten_emissions(emissions.push(e))
            =~= flatten_emissions(emissions)
                + (match e {
                    Some(f) => seq![f],
                    None => Seq::<Seq<char>>::empty(),
                }));
    }
}

/// The frames a feed returns are the per-frame emissions of its
/// completed frames, in order: each completed frame yields nothing or
/// one chunk of the stream, and a frame that does not begin with the
/// `data: ` prefix yields nothing. Which chunk a prefixed frame's
/// data decodes to is fixed by the JSON reader, which carries no
/// grammar-level contract.
/// Every emitted chunk of a run is a chunk of the stream, and comes
/// from a frame that begins with the `data: ` prefix.
pub open spec fn run_emissions_ok(
    emissions: Seq<Option<Seq<char>>>,
    frames: Seq<Seq<char>>,
    id: Seq<char>,
    model: Seq<char>,
) -> bool {
    forall|k: int| #![auto] 0 <= k < emissions.len()
        ==> (emissions[k] is Some
            ==> stream_chunk_of(emissions[k]->Some_0, id, model)
                && crate::text::has_prefix(frames[k], "data: "@))
}

pub open spec fn gemini_run_ok(
    out: Seq<Seq<char>>,
    frames: Seq<Seq<char>>,
    id: Seq<char>,
    model: Seq<char>,
) -> bool {
    exists|emissions: Seq<Option<Seq<char>>>| #![auto]
        emissions.len() == frames.len()
        && out == flatten_emissions(emissions)
        && run_emissions_ok(emissions, frames, id, model)
}

/// Decodes one event frame's data and emits the canonical chunk it
/// translates to, if any; an undecodable event is silently dropped.
pub(crate) fn parse_gemini_chunk(data: &str, chunk_id: &str, model_id: &str, created: u64) -> (r:
    Option<String>)
    ensures
        r matches Some(f) ==> stream_chunk_of(f@, chunk_id@, model_id@),
{
    match decode_chunk_data(data) {
        Some((text, finish_raw)) => {
            let finish = match &finish_raw {
                Some(f) => Some(map_finish_reason(f.as_str())),
                None => None,
            };
            let out = match &finish {
                Some(f) => create_gemini_openai_chunk(
                    chunk_id,
                    model_id,
                    text.as_str(),
                    Some(f.as_str()),
                    created,
                ),
                None => create_gemini_openai_chunk(
                    chunk_id,
                    model_id,
                    text.as_str(),
                    None,
                    created,
                ),
            };
            proof {
                assert(out@ == gemini_chunk_output(
                    text@,
                    opt_text(finish_raw),
                    chunk_id@,
                    model_id@,
                    created as int,
                ));
                assert(stream_chunk_of(out@, chunk_id@, model_id@));
            }
            Some(out)
        }
        None => None,
    }
}

/// The stream translation state: the buffer of not-yet-complete
/// frames, the identifier minted once for the whole stream, and the
/// resolved model identifier echoed into every chunk.
#[derive(Debug)]
pub struct GeminiStream {
    pub buffer: SseBuffer,
    pub chunk_id: String,
    pub model_id: String,
}

impl GeminiStream {
    /// A fresh translation for one upstream stream, with one freshly
    /// minted identifier that every chunk of the stream will share.
    pub fn new(model_id: String) -> (s: GeminiStream)
        ensures
            s.buffer.data@ == Seq::<char>::empty(),
            s.chunk_id@.len() > 9 && s.chunk_id@.subrange(0, 9) == "chatcmpl-"@,
            s.model_id@ == model_id@,
    {
        GeminiStream {
            buffer: SseBuffer::new(),
            chunk_id: mint_request_id(),
            model_id,
        }
    }

    /// Feeds newly received stream text and returns the canonical
    /// frames it completes, in the order their native events arrived.
    /// Exactly the complete frames are consumed: what remains buffered
    /// is the text after the last frame terminator, and it holds no
    /// complete frame. Every returned frame is the translation of some
    /// decoded event, carrying the stream's shared id and model, and a
    /// completed frame yields at most one canonical frame — in
    /// particular, while no frame completes nothing is emitted.
    pub fn feed(&mut self, input: &str) -> (out: Vec<String>)
        ensures
            final(self).chunk_id@ == old(self).chunk_id@,
            final(self).model_id@ == old(self).model_id@,
            final(self).buffer.data@ == drain_rest(old(self).buffer.data@ + input@),
            no_terminator(final(self).buffer.data@),
            out@.len() <= crate::streaming::frame_count(old(self).buffer.data@ + input@),
            forall|k: int| 0 <= k < out@.len()
                ==> stream_chunk_of((#[trigger] out@[k])@, old(self).chunk_id@,
                    old(self).model_id@),
            gemini_run_ok(
                out@.map_values(|s: String| s@),
                crate::streaming::drain_frames(old(self).buffer.data@ + input@),
                old(self).chunk_id@,
                old(self).model_id@,
            ),
    {
        let mut out: Vec<String> = Vec::new();
        self.buffer.push_text(input);
        let ghost total = old(self).buffer.data@ + input@;
        let ghost cid0 = old(self).chunk_id@;
        let ghost model0 = old(self).model_id@;
        let ghost mut emissions: Seq<Option<Seq<char>>> = Seq::empty();
        let ghost mut frames_done: Seq<Seq<char>> = Seq::empty();
        proof {
            assert(out@.map_values(|s: String| s@) =~= flatten_emissions(emissions));
            assert(crate::streaming::drain_frames(total)
                =~= frames_done + crate::streaming::drain_frames(self.buffer.data@));
        }
        let mut finished = false;
        while !finished
            invariant
                self.chunk_id@ == old(self).chunk_id@,
                self.model_id@ == old(self).model_id@,
                self.chunk_id@ == cid0,
                self.model_id@ == model0,
                drain_rest(total) == drain_rest(self.buffer.data@),
                finished ==> no_terminator(self.buffer.data@),
                out@.len() + crate::streaming::frame_count(self.buffer.data@)
                    <= crate::streaming::frame_count(total),
                forall|k: int| 0 <= k < out@.len()
                    ==> stream_chunk_of((#[trigger] out@[k])@, cid0, model0),
                emissions.len() == frames_done.len(),
                crate::streaming::drain_frames(total)
                    == frames_done + crate::streaming::drain_frames(self.buffer.data@),
                out@.map_values(|s: String| s@) == flatten_emissions(emissions),
                run_emissions_ok(emissions, frames_done, cid0, model0),
            decreases self.buffer.data@.len(), (if finished { 0int } else { 1int }),
        {
            let ghost before = self.buffer.data@;
            let frame = match self.buffer.pop_frame() {
                Some(f) => f,
                None => {
                    finished = true;
                    proof {
                        crate::streaming::lemma_first_terminator(before);
                        assert(crate::streaming::drain_frames(before)
                            =~= Seq::<Seq<char>>::empty());
                        assert(frames_done + crate::streaming::drain_frames(before)
                            =~= frames_done);
                    }
                    continue;
                }
            };
            proof {
                crate::streaming::lemma_first_terminator(before);
                assert(crate::streaming::first_terminator(before) == frame@.len() as int);
                assert(crate::streaming::drain_frames(before)
                    =~= seq![frame@] + crate::streaming::drain_frames(self.buffer.data@));
                assert(crate::streaming::drain_frames(total)
                    =~= frames_done.push(frame@)
                        + crate::streaming::drain_frames(self.buffer.data@));
            }
            let ghost out_before = out@;
            let ghost mut emission: Option<Seq<char>> = None;
            match crate::text::strip_prefix(frame.as_str(), "data: ") {
                Some(data) => {
                    let created = now_epoch_secs();
                    match parse_gemini_chunk(
                        data,
                        self.chunk_id.as_str(),
                        self.model_id.as_str(),
                        created,
                    ) {
                        Some(chunk) => {
                            proof {
                                emission = Some(chunk@);
                                assert(stream_chunk_of(chunk@, cid0, model0));
                                assert(crate::text::has_prefix(frame@, "data: "@));
                            }
                            out.push(chunk);
                        }
                        None => {}
                    }
                }
                None => {}
            }
            proof {
                lemma_flatten_emissions_snoc(emissions, emission);
                match emission {
                    Some(f) => {
                        assert(out@.map_values(|s: String| s@)
                            =~= out_before.map_values(|s: String| s@).push(f));
                    }
                    None => {
                        assert(out@ == out_before);
                        assert(out@.map_values(|s: String| s@)
                            =~= out_before.map_values(|s: String| s@));
                    }
                }
                let ghost old_emissions = emissions;
                let ghost old_frames = frames_done;
                emissions = emissions.push(emission);
                frames_done = frames_done.push(frame@);
                assert(out@.map_values(|s: String| s@) =~= flatten_emissions(emissions));
                assert(run_emissions_ok(emissions, frames_done, cid0, model0)) by {
                    assert forall|k: int| #![auto]
                        0 <= k < emissions.len()
                        implies (emissions[k] is Some
                            ==> stream_chunk_of(emissions[k]->Some_0, cid0, model0)
                                && crate::text::has_prefix(frames_done[k], "data: "@)) by {
                        if k < old_emissions.len() {
                            assert(emissions[k] == old_emissions[k]);
                            assert(frames_done[k] == old_frames[k]);
                        } else {
                            assert(emissions[k] == emission);
                            assert(frames_done[k] == frame@);
                        }
                    }
                }
            }
        }
        proof {
            crate::streaming::lemma_first_terminator(self.buffer.data@);
            assert(crate::streaming::drain_frames(self.buffer.data@)
                =~= Seq::<Seq<char>>::empty());
            assert(crate::streaming::drain_frames(total) =~= frames_done);
            assert(gemini_run_ok(
                out@.map_values(|s: String| s@),
                crate::streaming::drain_frames(total),
                cid0,
                model0,
            ));
        }
        out
    }
}

} // verus!
