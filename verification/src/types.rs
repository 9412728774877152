//! Canonical request, response, and stream-chunk types shared by every
//! provider adapter.
//!
//! Sampling parameters are held in thousandths (a temperature of `0.7`
//! is the value `700`), so that their bounds and renderings are exact
//! integer statements.

use vstd::prelude::*;
use crate::text::{dec_rep, milli_rep, opt_text, parse_milli, parse_u64, render_milli, u64_to_dec};
use crate::streaming::{finish_rep, json_string, json_string_rep};
use crate::sys::{mint_request_id, now_epoch_secs};

verus! {

/// A chat message: a role tag (`system`, `user` or `assistant`) and a
/// text body. Roles are plain data, not variants, because each provider
/// adapter interprets them differently.
#[derive(Debug, Clone)]
pub struct Message {
    pub role: String,
    pub content: String,
}

impl Message {
    /// Builds a message with the `user` role.
    pub fn user(content: String) -> (m: Message)
        ensures
            m.role@ == "user"@,
            m.content@ == content@,
    {
        Message { role: String::from_str("user"), content }
    }

    /// Builds a message with the `assistant` role.
    pub fn assistant(content: String) -> (m: Message)
        ensures
            m.role@ == "assistant"@,
            m.content@ == content@,
    {
        Message { role: String::from_str("assistant"), content }
    }

    /// Builds a message with the `system` role.
    pub fn system(content: String) -> (m: Message)
        ensures
            m.role@ == "system"@,
            m.content@ == content@,
    {
        Message { role: String::from_str("system"), content }
    }
}

/// The canonical chat request: a model name to resolve in the registry,
/// a non-empty ordered message list, and optional sampling parameters.
/// `temperature` and `top_p` are thousandths.
#[derive(Debug, Clone)]
pub struct ChatRequest {
    pub model: String,
    pub messages: Vec<Message>,
    pub temperature: Option<i64>,
    pub max_tokens: Option<u32>,
    pub stream: Option<bool>,
    pub top_p: Option<i64>,
}

/// The temperature, when present, lies between 0 and 2.
pub open spec fn temperature_ok(t: Option<i64>) -> bool {
    match t {
        Some(v) => 0 <= v <= 2000,
        None => true,
    }
}

/// The nucleus-sampling parameter, when present, lies between 0 and 1.
pub open spec fn top_p_ok(t: Option<i64>) -> bool {
    match t {
        Some(v) => 0 <= v <= 1000,
        None => true,
    }
}

/// A request is valid when its sampling parameters are in bounds and it
/// carries at least one message.
pub open spec fn request_valid(r: ChatRequest) -> bool {
    &&& temperature_ok(r.temperature)
    &&& top_p_ok(r.top_p)
    &&& r.messages@.len() > 0
}

impl ChatRequest {
    /// Accepts the request exactly when it is valid; otherwise reports
    /// the first violated bound, with the offending value rendered.
    pub fn validate(&self) -> (r: Result<(), String>)
        ensures
            match r {
                Ok(()) => request_valid(*self),
                Err(m) => !request_valid(*self) && {
                    if !temperature_ok(self.temperature) {
                        m@ == "temperature 必须在 0.0 到 2.0 之间，当前值: "@
                            + milli_rep(self.temperature->Some_0 as int)
                    } else if !top_p_ok(self.top_p) {
                        m@ == "top_p 必须在 0.0 到 1.0 之间，当前值: "@
                            + milli_rep(self.top_p->Some_0 as int)
                    } else {
                        m@ == "messages 不能为空"@
                    }
                },
            },
    {
        if let Some(temp) = self.temperature {
            if !(0 <= temp && temp <= 2000) {
                let mut m = String::from_str("temperature 必须在 0.0 到 2.0 之间，当前值: ");
                let v = render_milli(temp);
                m.append(v.as_str());
                return Err(m);
            }
        }

        if let Some(top_p) = self.top_p {
            if !(0 <= top_p && top_p <= 1000) {
                let mut m = String::from_str("top_p 必须在 0.0 到 1.0 之间，当前值: ");
                let v = render_milli(top_p);
                m.append(v.as_str());
                return Err(m);
            }
        }

        if self.messages.len() == 0 {
            return Err(String::from_str("messages 不能为空"));
        }

        Ok(())
    }
}

/// The canonical chat response: one identifier, the fixed object-kind
/// tag, a creation timestamp, the resolved model, exactly one choice,
/// and an optional usage triple.
#[derive(Debug, Clone)]
pub struct ChatResponse {
    pub id: String,
    pub object: String,
    pub created: u64,
    pub model: String,
    pub choices: Vec<Choice>,
    pub usage: Option<Usage>,
}

/// One answer of a response.
#[derive(Debug, Clone)]
pub struct Choice {
    pub index: u32,
    pub message: Message,
    pub finish_reason: Option<String>,
}

/// Token accounting: the total is always the sum of the two parts.
#[derive(Debug, Clone)]
pub struct Usage {
    pub prompt_tokens: u32,
    pub completion_tokens: u32,
    pub total_tokens: u32,
}

impl ChatResponse {
    /// Builds a minimal successful response around one assistant
    /// message: a freshly minted identifier, the current time, one
    /// choice finished with `stop`, and no usage.
    pub fn simple(model: String, content: String) -> (r: ChatResponse)
        ensures
            r.id@.len() > 9 && r.id@.subrange(0, 9) == "chatcmpl-"@,
            r.object@ == "chat.completion"@,
            r.model@ == model@,
            r.choices@.len() == 1,
            r.choices@[0].index == 0,
            r.choices@[0].message.role@ == "assistant"@,
            r.choices@[0].message.content@ == content@,
            r.choices@[0].finish_reason matches Some(f) && f@ == "stop"@,
            r.usage is None,
    {
        let mut choices: Vec<Choice> = Vec::new();
        choices.push(Choice {
            index: 0,
            message: Message::assistant(content),
            finish_reason: Some(String::from_str("stop")),
        });
        ChatResponse {
            id: mint_request_id(),
            object: String::from_str("chat.completion"),
            created: now_epoch_secs(),
            model,
            choices,
            usage: None,
        }
    }
}

/// One canonical message as JSON.
pub open spec fn message_rep(m: Message) -> Seq<char> {
    "{\"role\":"@ + json_string_rep(m.role@) + ",\"content\":"@ + json_string_rep(m.content@)
        + "}"@
}

/// The canonical message list as a JSON array body.
pub open spec fn messages_rep(ms: Seq<Message>) -> Seq<char>
    decreases ms.len(),
{
    if ms.len() == 0 {
        Seq::empty()
    } else if ms.len() == 1 {
        message_rep(ms[0])
    } else {
        messages_rep(ms.drop_last()) + ","@ + message_rep(ms.last())
    }
}

fn message_to_json(m: &Message) -> (out: String)
    ensures
        out@ == message_rep(*m),
{
    let mut out = String::from_str("{\"role\":");
    let rs = json_string(m.role.as_str());
    out.append(rs.as_str());
    out.append(",\"content\":");
    let cs = json_string(m.content.as_str());
    out.append(cs.as_str());
    out.append("}");
    proof {
        assert(out@ =~= message_rep(*m));
    }
    out
}

/// The canonical request as JSON, fields in wire order; every optional
/// field that is absent is omitted entirely — no `null` is emitted.
pub open spec fn chat_request_rep(r: ChatRequest) -> Seq<char> {
    "{\"model\":"@ + json_string_rep(r.model@)
        + ",\"messages\":["@ + messages_rep(r.messages@) + "]"@
        + (match r.temperature {
            Some(t) => ",\"temperature\":"@ + milli_rep(t as int),
            None => Seq::<char>::empty(),
        })
        + (match r.max_tokens {
            Some(v) => ",\"max_tokens\":"@ + dec_rep(v as int),
            None => Seq::<char>::empty(),
        })
        + (match r.stream {
            Some(b) => ",\"stream\":"@ + (if b { "true"@ } else { "false"@ }),
            None => Seq::<char>::empty(),
        })
        + (match r.top_p {
            Some(p) => ",\"top_p\":"@ + milli_rep(p as int),
            None => Seq::<char>::empty(),
        })
        + "}"@
}

impl ChatRequest {
    /// Serializes this request for the wire.
    pub fn to_json(&self) -> (out: String)
        ensures
            out@ == chat_request_rep(*self),
    {
        let mut out = String::from_str("{\"model\":");
        let ms = json_string(self.model.as_str());
        out.append(ms.as_str());
        out.append(",\"messages\":[");
        let n = self.messages.len();
        let mut i: usize = 0;
        while i < n
            invariant
                0 <= i <= n,
                n == self.messages@.len(),
                out@ == "{\"model\":"@ + json_string_rep(self.model@) + ",\"messages\":["@
                    + messages_rep(self.messages@.subrange(0, i as int)),
            decreases n - i,
        {
            if i > 0 {
                out.append(",");
            }
            let mj = message_to_json(&self.messages[i]);
            out.append(mj.as_str());
            proof {
                let p = self.messages@.subrange(0, i as int);
                let q = self.messages@.subrange(0, i as int + 1);
                assert(q.drop_last() =~= p);
                assert(q.last() == self.messages@[i as int]);
                if i == 0 {
                    assert(messages_rep(q) == message_rep(self.messages@[0]));
                }
                assert(out@ =~= "{\"model\":"@ + json_string_rep(self.model@)
                    + ",\"messages\":["@ + messages_rep(q));
            }
            i = i + 1;
        }
        proof {
            assert(self.messages@.subrange(0, n as int) =~= self.messages@);
        }
        out.append("]");
        let ghost head = "{\"model\":"@ + json_string_rep(self.model@) + ",\"messages\":["@
            + messages_rep(self.messages@) + "]"@;
        proof {
            assert(out@ =~= head);
        }

        if let Some(t) = self.temperature {
            out.append(",\"temperature\":");
            let v = render_milli(t);
            out.append(v.as_str());
        }
        let ghost head_t = head + (match self.temperature {
            Some(t) => ",\"temperature\":"@ + milli_rep(t as int),
            None => Seq::<char>::empty(),
        });
        proof {
            assert(out@ =~= head_t);
        }
        if let Some(mt) = self.max_tokens {
            out.append(",\"max_tokens\":");
            let v = u64_to_dec(mt as u64);
            out.append(v.as_str());
        }
        let ghost head_m = head_t + (match self.max_tokens {
            Some(v) => ",\"max_tokens\":"@ + dec_rep(v as int),
            None => Seq::<char>::empty(),
        });
        proof {
            assert(out@ =~= head_m);
        }
        if let Some(st) = self.stream {
            out.append(",\"stream\":");
            if st {
                out.append("true");
            } else {
                out.append("false");
            }
        }
        let ghost head_s = head_m + (match self.stream {
            Some(b) => ",\"stream\":"@ + (if b { "true"@ } else { "false"@ }),
            None => Seq::<char>::empty(),
        });
        proof {
            assert(out@ =~= head_s);
        }
        if let Some(p) = self.top_p {
            out.append(",\"top_p\":");
            let v = render_milli(p);
            out.append(v.as_str());
        }
        out.append("}");
        proof {
            assert(out@ =~= chat_request_rep(*self));
        }
        out
    }

    /// Reads a canonical request out of JSON text: the model and the
    /// message list are required, the sampling parameters, token limit
    /// and streaming flag are optional and may be `null`. Malformed
    /// text yields nothing. The accepted wire grammar is not stated as
    /// a contract — `to_json` fixes the written form exactly, and that
    /// its output reads back to the same value is established by
    /// tests.
    pub fn from_json(body: &str) -> (r: Option<ChatRequest>) {
        let v = match crate::json::parse(body) {
            Some(v) => v,
            None => return None,
        };
        let model = match v.get("model") {
            Some(x) => match x.as_text() {
                Some(s) => s.clone(),
                None => return None,
            },
            None => return None,
        };
        let items = match v.get("messages") {
            Some(x) => match x.as_items() {
                Some(a) => a,
                None => return None,
            },
            None => return None,
        };
        let mut messages: Vec<Message> = Vec::new();
        let n = items.len();
        let mut i: usize = 0;
        while i < n
            invariant
                0 <= i <= n,
                n == items@.len(),
            decreases n - i,
        {
            let item = &items[i];
            let role = match item.get("role") {
                Some(x) => match x.as_text() {
                    Some(s) => s.clone(),
                    None => return None,
                },
                None => return None,
            };
            let content = match item.get("content") {
                Some(x) => match x.as_text() {
                    Some(s) => s.clone(),
                    None => return None,
                },
                None => return None,
            };
            messages.push(Message { role, content });
            i = i + 1;
        }
        let temperature = match v.get("temperature") {
            Some(x) => {
                if x.is_null() {
                    None
                } else {
                    match x.as_num_raw() {
                        Some(raw) => match parse_milli(raw.as_str()) {
                            Some(t) => Some(t),
                            None => return None,
                        },
                        None => return None,
                    }
                }
            }
            None => None,
        };
        let max_tokens = match v.get("max_tokens") {
            Some(x) => {
                if x.is_null() {
                    None
                } else {
                    match x.as_u32() {
                        Some(t) => Some(t),
                        None => return None,
                    }
                }
            }
            None => None,
        };
        let stream = match v.get("stream") {
            Some(x) => {
                if x.is_null() {
                    None
                } else {
                    match x.as_flag() {
                        Some(b) => Some(b),
                        None => return None,
                    }
                }
            }
            None => None,
        };
        let top_p = match v.get("top_p") {
            Some(x) => {
                if x.is_null() {
                    None
                } else {
                    match x.as_num_raw() {
                        Some(raw) => match parse_milli(raw.as_str()) {
                            Some(t) => Some(t),
                            None => return None,
                        },
                        None => return None,
                    }
                }
            }
            None => None,
        };
        Some(ChatRequest { model, messages, temperature, max_tokens, stream, top_p })
    }
}

/// A request whose optional fields are all absent serializes to just
/// its model and messages: no key for an absent field appears, and no
/// `null` is emitted.
pub proof fn lemma_request_json_omits_absent_fields(r: ChatRequest)
    requires
        r.temperature is None,
        r.max_tokens is None,
        r.stream is None,
        r.top_p is None,
    ensures
        chat_request_rep(r) == "{\"model\":"@ + json_string_rep(r.model@)
            + ",\"messages\":["@ + messages_rep(r.messages@) + "]"@ + "}"@,
{
    assert(chat_request_rep(r) =~= "{\"model\":"@ + json_string_rep(r.model@)
        + ",\"messages\":["@ + messages_rep(r.messages@) + "]"@ + "}"@);
}

/// The usage triple as JSON.
pub open spec fn usage_rep(u: Usage) -> Seq<char> {
    "{\"prompt_tokens\":"@ + dec_rep(u.prompt_tokens as int)
        + ",\"completion_tokens\":"@ + dec_rep(u.completion_tokens as int)
        + ",\"total_tokens\":"@ + dec_rep(u.total_tokens as int)
        + "}"@
}

/// One response choice as JSON; an absent finish reason is `null`.
pub open spec fn choice_rep(c: Choice) -> Seq<char> {
    "{\"index\":"@ + dec_rep(c.index as int)
        + ",\"message\":"@ + message_rep(c.message)
        + ",\"finish_reason\":"@ + finish_rep(c.finish_reason)
        + "}"@
}

/// The choice list as a JSON array body.
pub open spec fn choice_list_rep(cs: Seq<Choice>) -> Seq<char>
    decreases cs.len(),
{
    if cs.len() == 0 {
        Seq::empty()
    } else if cs.len() == 1 {
        choice_rep(cs[0])
    } else {
        choice_list_rep(cs.drop_last()) + ","@ + choice_rep(cs.last())
    }
}

/// The canonical response as JSON, fields in wire order; the usage is
/// omitted entirely when absent.
pub open spec fn chat_response_rep(r: ChatResponse) -> Seq<char> {
    "{\"id\":"@ + json_string_rep(r.id@)
        + ",\"object\":"@ + json_string_rep(r.object@)
        + ",\"created\":"@ + dec_rep(r.created as int)
        + ",\"model\":"@ + json_string_rep(r.model@)
        + ",\"choices\":["@ + choice_list_rep(r.choices@) + "]"@
        + (match r.usage {
            Some(u) => ",\"usage\":"@ + usage_rep(u),
            None => Seq::<char>::empty(),
        })
        + "}"@
}

fn choice_to_json(c: &Choice) -> (out: String)
    ensures
        out@ == choice_rep(*c),
{
    let mut out = String::from_str("{\"index\":");
    let ix = u64_to_dec(c.index as u64);
    out.append(ix.as_str());
    out.append(",\"message\":");
    let mj = message_to_json(&c.message);
    out.append(mj.as_str());
    out.append(",\"finish_reason\":");
    match &c.finish_reason {
        Some(f) => {
            let fs = json_string(f.as_str());
            out.append(fs.as_str());
        }
        None => {
            out.append("null");
        }
    }
    out.append("}");
    proof {
        assert(out@ =~= choice_rep(*c));
    }
    out
}

impl ChatResponse {
    /// Serializes this response for the wire.
    pub fn to_json(&self) -> (out: String)
        ensures
            out@ == chat_response_rep(*self),
    {
        let mut out = String::from_str("{\"id\":");
        let ids = json_string(self.id.as_str());
        out.append(ids.as_str());
        out.append(",\"object\":");
        let os = json_string(self.object.as_str());
        out.append(os.as_str());
        out.append(",\"created\":");
        let cr = u64_to_dec(self.created);
        out.append(cr.as_str());
        out.append(",\"model\":");
        let mo = json_string(self.model.as_str());
        out.append(mo.as_str());
        out.append(",\"choices\":[");
        let n = self.choices.len();
        let mut i: usize = 0;
        while i < n
            invariant
                0 <= i <= n,
                n == self.choices@.len(),
                out@ == "{\"id\":"@ + json_string_rep(self.id@)
                    + ",\"object\":"@ + json_string_rep(self.object@)
                    + ",\"created\":"@ + dec_rep(self.created as int)
                    + ",\"model\":"@ + json_string_rep(self.model@)
                    + ",\"choices\":["@ + choice_list_rep(self.choices@.subrange(0, i as int)),
            decreases n - i,
        {
            if i > 0 {
                out.append(",");
            }
            let cj = choice_to_json(&self.choices[i]);
            out.append(cj.as_str());
            proof {
                let p = self.choices@.subrange(0, i as int);
                let q = self.choices@.subrange(0, i as int + 1);
                assert(q.drop_last() =~= p);
                assert(q.last() == self.choices@[i as int]);
                if i == 0 {
                    assert(choice_list_rep(q) == choice_rep(self.choices@[0]));
                }
                assert(out@ =~= "{\"id\":"@ + json_string_rep(self.id@)
                    + ",\"object\":"@ + json_string_rep(self.object@)
                    + ",\"created\":"@ + dec_rep(self.created as int)
                    + ",\"model\":"@ + json_string_rep(self.model@)
                    + ",\"choices\":["@ + choice_list_rep(q));
            }
            i = i + 1;
        }
        proof {
            assert(self.choices@.subrange(0, n as int) =~= self.choices@);
        }
        out.append("]");
        match &self.usage {
            Some(u) => {
                out.append(",\"usage\":");
                out.append("{\"prompt_tokens\":");
                let pt = u64_to_dec(u.prompt_tokens as u64);
                out.append(pt.as_str());
                out.append(",\"completion_tokens\":");
                let ct = u64_to_dec(u.completion_tokens as u64);
                out.append(ct.as_str());
                out.append(",\"total_tokens\":");
                let tt = u64_to_dec(u.total_tokens as u64);
                out.append(tt.as_str());
                out.append("}");
            }
            None => {}
        }
        out.append("}");
        proof {
            assert(out@ =~= chat_response_rep(*self));
        }
        out
    }

    /// Reads a canonical response out of JSON text: the identifier,
    /// object tag, timestamp, model and choices are required, the
    /// usage triple is optional. Malformed text yields nothing. The
    /// accepted wire grammar is not stated as a contract — `to_json`
    /// fixes the written form exactly, and that its output reads back
    /// to the same value is established by tests.
    pub fn from_json(body: &str) -> (r: Option<ChatResponse>) {
        let v = match crate::json::parse(body) {
            Some(v) => v,
            None => return None,
        };
        let id = match v.get("id") {
            Some(x) => match x.as_text() {
                Some(s) => s.clone(),
                None => return None,
            },
            None => return None,
        };
        let object = match v.get("object") {
            Some(x) => match x.as_text() {
                Some(s) => s.clone(),
                None => return None,
            },
            None => return None,
        };
        let created = match v.get("created") {
            Some(x) => match x.as_num_raw() {
                Some(raw) => match parse_u64(raw.as_str()) {
                    Some(t) => t,
                    None => return None,
                },
                None => return None,
            },
            None => return None,
        };
        let model = match v.get("model") {
            Some(x) => match x.as_text() {
                Some(s) => s.clone(),
                None => return None,
            },
            None => return None,
        };
        let items = match v.get("choices") {
            Some(x) => match x.as_items() {
                Some(a) => a,
                None => return None,
            },
            None => return None,
        };
        let mut choices: Vec<Choice> = Vec::new();
        let n = items.len();
        let mut i: usize = 0;
        while i < n
            invariant
                0 <= i <= n,
                n == items@.len(),
            decreases n - i,
        {
            let item = &items[i];
            let index = match item.get("index") {
                Some(x) => match x.as_u32() {
                    Some(ix) => ix,
                    None => return None,
                },
                None => return None,
            };
            let message = match item.get("message") {
                Some(mv) => {
                    let role = match mv.get("role") {
                        Some(x) => match x.as_text() {
                            Some(s) => s.clone(),
                            None => return None,
                        },
                        None => return None,
                    };
                    let content = match mv.get("content") {
                        Some(x) => match x.as_text() {
                            Some(s) => s.clone(),
                            None => return None,
                        },
                        None => return None,
                    };
                    Message { role, content }
                }
                None => return None,
            };
            let finish_reason = match item.get("finish_reason") {
                Some(x) => {
                    if x.is_null() {
                        None
                    } else {
                        match x.as_text() {
                            Some(s) => Some(s.clone()),
                            None => return None,
                        }
                    }
                }
                None => None,
            };
            choices.push(Choice { index, message, finish_reason });
            i = i + 1;
        }
        let usage = match v.get("usage") {
            Some(x) => {
                if x.is_null() {
                    None
                } else {
                    let prompt_tokens = match x.get("prompt_tokens") {
                        Some(y) => match y.as_u32() {
                            Some(t) => t,
                            None => return None,
                        },
                        None => return None,
                    };
                    let completion_tokens = match x.get("completion_tokens") {
                        Some(y) => match y.as_u32() {
                            Some(t) => t,
                            None => return None,
                        },
                        None => return None,
                    };
                    let total_tokens = match x.get("total_tokens") {
                        Some(y) => match y.as_u32() {
                            Some(t) => t,
                            None => return None,
                        },
                        None => return None,
                    };
                    Some(Usage { prompt_tokens, completion_tokens, total_tokens })
                }
            }
            None => None,
        };
        Some(ChatResponse { id, object, created, model, choices, usage })
    }
}

/// One canonical stream chunk. All chunks of one logical stream share
/// an identifier; the object-kind tag is fixed to the chunk variant.
#[derive(Debug, Clone)]
pub struct ChatStreamChunk {
    pub id: String,
    pub object: String,
    pub created: u64,
    pub model: String,
    pub choices: Vec<StreamChoice>,
}

/// The choice-delta of one stream chunk.
#[derive(Debug, Clone)]
pub struct StreamChoice {
    pub index: u32,
    pub delta: Delta,
    pub finish_reason: Option<String>,
}

/// The incremental payload of one stream chunk: an optional role
/// (present only on a first content-bearing chunk) and an optional
/// content fragment.
#[derive(Debug, Clone)]
pub struct Delta {
    pub role: Option<String>,
    pub content: Option<String>,
}

} // verus!
