//! The canonical side of the streaming protocol: rendering stream
//! chunks as `data: {json}\n\n` frames, the fixed terminal sentinel,
//! and the buffer that turns arbitrarily fragmented input into
//! complete provider-native event frames.

use vstd::prelude::*;
use crate::text::{dec_rep, escape_text, escape_json, opt_text, u64_to_dec};
use crate::types::{ChatStreamChunk, StreamChoice, Delta};

verus! {

/// A JSON string literal: the escaped text between double quotes.
pub open spec fn json_string_rep(s: Seq<char>) -> Seq<char> {
    seq!['"'] + escape_text(s) + seq!['"']
}

/// Renders a JSON string literal.
pub fn json_string(s: &str) -> (r: String)
    ensures
        r@ == json_string_rep(s@),
{
    let mut out = String::new();
    out.push('"');
    let body = escape_json(s);
    out.append(body.as_str());
    out.push('"');
    proof {
        assert(out@ =~= json_string_rep(s@));
    }
    out
}

/// The JSON object for a delta: `role` and `content` are omitted
/// entirely when absent.
pub open spec fn delta_rep_v(role: Option<Seq<char>>, content: Option<Seq<char>>) -> Seq<char> {
    match (role, content) {
        (Some(r), Some(c)) =>
            "{\"role\":"@ + json_string_rep(r) + ",\"content\":"@ + json_string_rep(c) + "}"@,
        (Some(r), None) => "{\"role\":"@ + json_string_rep(r) + "}"@,
        (None, Some(c)) => "{\"content\":"@ + json_string_rep(c) + "}"@,
        (None, None) => "{}"@,
    }
}

/// The JSON object for a delta value.
pub open spec fn delta_rep(d: Delta) -> Seq<char> {
    delta_rep_v(opt_text(d.role), opt_text(d.content))
}

fn delta_to_json(d: &Delta) -> (r: String)
    ensures
        r@ == delta_rep(*d),
{
    match (&d.role, &d.content) {
        (Some(role), Some(content)) => {
            let mut out = String::from_str("{\"role\":");
            let rs = json_string(role.as_str());
            out.append(rs.as_str());
            out.append(",\"content\":");
            let cs = json_string(content.as_str());
            out.append(cs.as_str());
            out.append("}");
            proof { assert(out@ =~= delta_rep(*d)); }
            out
        }
        (Some(role), None) => {
            let mut out = String::from_str("{\"role\":");
            let rs = json_string(role.as_str());
            out.append(rs.as_str());
            out.append("}");
            proof { assert(out@ =~= delta_rep(*d)); }
            out
        }
        (None, Some(content)) => {
            let mut out = String::from_str("{\"content\":");
            let cs = json_string(content.as_str());
            out.append(cs.as_str());
            out.append("}");
            proof { assert(out@ =~= delta_rep(*d)); }
            out
        }
        (None, None) => String::from_str("{}"),
    }
}

/// `null` for an absent finish reason, a JSON string otherwise.
pub open spec fn finish_rep_v(f: Option<Seq<char>>) -> Seq<char> {
    match f {
        Some(s) => json_string_rep(s),
        None => "null"@,
    }
}

/// `null` for an absent finish reason value, a JSON string otherwise.
pub open spec fn finish_rep(f: Option<String>) -> Seq<char> {
    finish_rep_v(opt_text(f))
}

/// The JSON object for one stream choice, over views.
pub open spec fn stream_choice_rep_v(
    index: int,
    role: Option<Seq<char>>,
    content: Option<Seq<char>>,
    finish: Option<Seq<char>>,
) -> Seq<char> {
    "{\"index\":"@ + dec_rep(index)
        + ",\"delta\":"@ + delta_rep_v(role, content)
        + ",\"finish_reason\":"@ + finish_rep_v(finish)
        + "}"@
}

/// The JSON object for one stream choice.
pub open spec fn stream_choice_rep(c: StreamChoice) -> Seq<char> {
    stream_choice_rep_v(
        c.index as int,
        opt_text(c.delta.role),
        opt_text(c.delta.content),
        opt_text(c.finish_reason),
    )
}

fn stream_choice_to_json(c: &StreamChoice) -> (r: String)
    ensures
        r@ == stream_choice_rep(*c),
{
    let mut out = String::from_str("{\"index\":");
    let idx = u64_to_dec(c.index as u64);
    out.append(idx.as_str());
    out.append(",\"delta\":");
    let d = delta_to_json(&c.delta);
    out.append(d.as_str());
    out.append(",\"finish_reason\":");
    match &c.finish_reason {
        Some(f) => {
            let fs = json_string(f.as_str());
            out.append(fs.as_str());
        }
        None => {
            out.append("null");
        }
    }
    out.append("}");
    proof { assert(out@ =~= stream_choice_rep(*c)); }
    out
}

/// The comma-separated choice list of a chunk.
pub open spec fn choices_rep(cs: Seq<StreamChoice>) -> Seq<char>
    decreases cs.len(),
{
    if cs.len() == 0 {
        Seq::empty()
    } else if cs.len() == 1 {
        stream_choice_rep(cs[0])
    } else {
        choices_rep(cs.drop_last()) + ","@ + stream_choice_rep(cs.last())
    }
}

/// The JSON object of a chunk, over views, fields in wire order.
pub open spec fn chunk_body_v(
    id: Seq<char>,
    object: Seq<char>,
    created: int,
    model: Seq<char>,
    choices_json: Seq<char>,
) -> Seq<char> {
    "{\"id\":"@ + json_string_rep(id)
        + ",\"object\":"@ + json_string_rep(object)
        + ",\"created\":"@ + dec_rep(created)
        + ",\"model\":"@ + json_string_rep(model)
        + ",\"choices\":["@ + choices_json
        + "]}"@
}

/// The JSON object for one whole stream chunk.
pub open spec fn chunk_json_rep(ch: ChatStreamChunk) -> Seq<char> {
    chunk_body_v(ch.id@, ch.object@, ch.created as int, ch.model@, choices_rep(ch.choices@))
}

/// The JSON object of a chunk with the fixed chunk tag and exactly one
/// choice at index 0 — the shape every provider's stream translation
/// emits.
pub open spec fn single_chunk_rep(
    id: Seq<char>,
    model: Seq<char>,
    created: int,
    role: Option<Seq<char>>,
    content: Option<Seq<char>>,
    finish: Option<Seq<char>>,
) -> Seq<char> {
    chunk_body_v(
        id,
        "chat.completion.chunk"@,
        created,
        model,
        stream_choice_rep_v(0, role, content, finish),
    )
}

/// One canonical SSE frame around a JSON payload.
pub open spec fn sse_frame_rep(payload: Seq<char>) -> Seq<char> {
    "data: "@ + payload + "\n\n"@
}

/// Serializes one stream chunk as its JSON object.
pub fn chunk_to_json(chunk: &ChatStreamChunk) -> (r: String)
    ensures
        r@ == chunk_json_rep(*chunk),
{
    let mut out = String::from_str("{\"id\":");
    let ids = json_string(chunk.id.as_str());
    out.append(ids.as_str());
    out.append(",\"object\":");
    let objs = json_string(chunk.object.as_str());
    out.append(objs.as_str());
    out.append(",\"created\":");
    let cr = u64_to_dec(chunk.created);
    out.append(cr.as_str());
    out.append(",\"model\":");
    let ms = json_string(chunk.model.as_str());
    out.append(ms.as_str());
    out.append(",\"choices\":[");

    let n = chunk.choices.len();
    let mut i: usize = 0;
    while i < n
        invariant
            0 <= i <= n,
            n == chunk.choices@.len(),
            out@ == "{\"id\":"@ + json_string_rep(chunk.id@)
                + ",\"object\":"@ + json_string_rep(chunk.object@)
                + ",\"created\":"@ + dec_rep(chunk.created as int)
                + ",\"model\":"@ + json_string_rep(chunk.model@)
                + ",\"choices\":["@ + choices_rep(chunk.choices@.subrange(0, i as int)),
        decreases n - i,
    {
        if i > 0 {
            out.append(",");
        }
        let cj = stream_choice_to_json(&chunk.choices[i]);
        out.append(cj.as_str());
        proof {
            let p = chunk.choices@.subrange(0, i as int);
            let q = chunk.choices@.subrange(0, i as int + 1);
            assert(q.drop_last() =~= p);
            assert(q.last() == chunk.choices@[i as int]);
            if i == 0 {
                assert(choices_rep(q) == stream_choice_rep(chunk.choices@[0]));
            }
        }
        i = i + 1;
    }
    out.append("]}");
    proof {
        assert(chunk.choices@.subrange(0, n as int) =~= chunk.choices@);
        assert(out@ =~= chunk_json_rep(*chunk));
    }
    out
}

/// Serializes one stream chunk as a complete `data: {json}\n\n` frame.
pub fn format_sse_chunk(chunk: &ChatStreamChunk) -> (r: String)
    ensures
        r@ == sse_frame_rep(chunk_json_rep(*chunk)),
{
    let mut out = String::from_str("data: ");
    let body = chunk_to_json(chunk);
    out.append(body.as_str());
    out.append("\n\n");
    proof {
        assert(out@ =~= sse_frame_rep(chunk_json_rep(*chunk)));
    }
    out
}

/// A list of already-rendered JSON items joined with commas.
pub open spec fn join_comma(items: Seq<Seq<char>>) -> Seq<char>
    decreases items.len(),
{
    if items.len() == 0 {
        Seq::empty()
    } else if items.len() == 1 {
        items[0]
    } else {
        join_comma(items.drop_last()) + ","@ + items.last()
    }
}

/// Joins rendered JSON items with commas.
pub fn join_comma_exec(items: &Vec<String>) -> (r: String)
    ensures
        r@ == join_comma(items@.map_values(|s: String| s@)),
{
    let mut out = String::new();
    let n = items.len();
    let mut i: usize = 0;
    while i < n
        invariant
            0 <= i <= n,
            n == items@.len(),
            out@ == join_comma(items@.subrange(0, i as int).map_values(|s: String| s@)),
        decreases n - i,
    {
        if i > 0 {
            out.append(",");
        }
        out.append(items[i].as_str());
        proof {
            let p = items@.subrange(0, i as int).map_values(|s: String| s@);
            let q = items@.subrange(0, i as int + 1).map_values(|s: String| s@);
            assert(q.drop_last() =~= p);
            assert(q.last() == items@[i as int]@);
            if i == 0 {
                assert(join_comma(q) == q[0]);
            }
            assert(out@ =~= join_comma(q));
        }
        i = i + 1;
    }
    proof {
        assert(items@.subrange(0, n as int) =~= items@);
    }
    out
}

/// The terminal sentinel: the fixed final frame of every stream.
pub fn format_sse_done() -> (r: String)
    ensures
        r@ == "data: [DONE]\n\n"@,
{
    String::from_str("data: [DONE]\n\n")
}

/// The JSON error envelope sent to clients: a human-readable message
/// and an error-kind tag.
pub open spec fn error_envelope_rep(message: Seq<char>, kind: Seq<char>) -> Seq<char> {
    "{\"error\":{\"message\":"@ + json_string_rep(message) + ",\"type\":"@
        + json_string_rep(kind) + "}}"@
}

/// Renders the JSON error envelope.
pub fn error_body_json(message: &str, kind: &str) -> (r: String)
    ensures
        r@ == error_envelope_rep(message@, kind@),
{
    let mut out = String::from_str("{\"error\":{\"message\":");
    let ms = json_string(message);
    out.append(ms.as_str());
    out.append(",\"type\":");
    let ks = json_string(kind);
    out.append(ks.as_str());
    out.append("}}");
    proof {
        assert(out@ =~= error_envelope_rep(message@, kind@));
    }
    out
}

/// A streaming failure reported on an already-committed stream: the
/// error envelope as one data frame, followed immediately by the
/// terminal sentinel.
pub fn sse_error_frames(message: &str, kind: &str) -> (r: String)
    ensures
        r@ == sse_frame_rep(error_envelope_rep(message@, kind@)) + "data: [DONE]\n\n"@,
{
    let mut out = String::from_str("data: ");
    let body = error_body_json(message, kind);
    out.append(body.as_str());
    out.append("\n\n");
    out.append("data: [DONE]\n\n");
    proof {
        assert(out@ =~= sse_frame_rep(error_envelope_rep(message@, kind@))
            + "data: [DONE]\n\n"@);
    }
    out
}

/// A frame terminator (a blank line) starts at position `i`.
pub open spec fn terminator_at(s: Seq<char>, i: int) -> bool {
    0 <= i && i + 2 <= s.len() && s[i] == '\n' && s[i + 1] == '\n'
}

/// No frame terminator starts before position `i`.
pub open spec fn no_terminator_before(s: Seq<char>, i: int) -> bool {
    forall|j: int| 0 <= j < i ==> !terminator_at(s, j)
}

/// No frame terminator occurs anywhere in `s`.
pub open spec fn no_terminator(s: Seq<char>) -> bool {
    forall|j: int| !terminator_at(s, j)
}

/// The position of the first frame terminator at or after `i`, or -1.
pub open spec fn terminator_from(s: Seq<char>, i: int) -> int
    decreases s.len() - i,
{
    if i < 0 || i + 2 > s.len() {
        -1
    } else if s[i] == '\n' && s[i + 1] == '\n' {
        i
    } else {
        terminator_from(s, i + 1)
    }
}

/// The position of the first frame terminator, or -1 when none exists.
pub open spec fn first_terminator(s: Seq<char>) -> int {
    terminator_from(s, 0)
}

proof fn lemma_terminator_from(s: Seq<char>, i: int)
    requires
        0 <= i,
    ensures
        terminator_from(s, i) == -1 || terminator_from(s, i) >= i,
        terminator_from(s, i) == -1 ==> forall|k: int| k >= i ==> !terminator_at(s, k),
        terminator_from(s, i) >= 0 ==> terminator_at(s, terminator_from(s, i))
            && terminator_from(s, i) >= i
            && (forall|k: int| i <= k < terminator_from(s, i) ==> !terminator_at(s, k)),
    decreases s.len() - i,
{
    if i + 2 > s.len() {
    } else if s[i] == '\n' && s[i + 1] == '\n' {
    } else {
        lemma_terminator_from(s, i + 1);
    }
}

/// The first frame terminator is exactly the earliest one: it is -1
/// when no terminator exists, and otherwise names the one position
/// that has a terminator with none before it.
pub proof fn lemma_first_terminator(s: Seq<char>)
    ensures
        first_terminator(s) == -1 <==> no_terminator(s),
        first_terminator(s) >= 0 ==> terminator_at(s, first_terminator(s))
            && no_terminator_before(s, first_terminator(s)),
        forall|i: int| terminator_at(s, i) && no_terminator_before(s, i)
            ==> first_terminator(s) == i,
{
    lemma_terminator_from(s, 0);
    let f = first_terminator(s);
    if f == -1 {
        assert forall|k: int| !terminator_at(s, k) by {
            if k >= 0 {
                assert(!terminator_at(s, k));
            } else {
                assert(!terminator_at(s, k));
            }
        }
        assert(no_terminator(s));
    } else {
        assert(terminator_at(s, f));
        assert(no_terminator_before(s, f)) by {
            assert forall|j: int| 0 <= j < f implies !terminator_at(s, j) by {
                assert(!terminator_at(s, j));
            }
        }
        assert(!no_terminator(s));
    }
    assert forall|i: int| terminator_at(s, i) && no_terminator_before(s, i)
        implies first_terminator(s) == i by {
        if f == -1 {
            assert(!terminator_at(s, i));
        } else {
            if f < i {
                assert(0 <= f < i);
                assert(!terminator_at(s, f));
            }
            if i < f {
                assert(0 <= i < f);
                assert(!terminator_at(s, i));
            }
        }
    }
}

/// What remains buffered after every complete frame has been removed:
/// the text after the last frame terminator.
pub open spec fn drain_rest(s: Seq<char>) -> Seq<char>
    decreases s.len(),
{
    let i = first_terminator(s);
    if i < 0 || i + 2 > s.len() {
        s
    } else {
        drain_rest(s.subrange(i + 2, s.len() as int))
    }
}

/// The complete frames the text holds, in order: the text before each
/// frame terminator consumed when draining.
pub open spec fn drain_frames(s: Seq<char>) -> Seq<Seq<char>>
    decreases s.len(),
{
    let i = first_terminator(s);
    if i < 0 || i + 2 > s.len() {
        Seq::empty()
    } else {
        seq![s.subrange(0, i)] + drain_frames(s.subrange(i + 2, s.len() as int))
    }
}

/// How many complete frames the text holds.
pub open spec fn frame_count(s: Seq<char>) -> int {
    drain_frames(s).len() as int
}

/// Accumulates raw stream text and hands out one complete event frame
/// at a time. A partial frame stays buffered untouched until later
/// input completes its terminator.
#[derive(Debug)]
pub struct SseBuffer {
    pub data: String,
}

impl SseBuffer {
    /// An empty buffer.
    pub fn new() -> (b: SseBuffer)
        ensures
            b.data@ == Seq::<char>::empty(),
    {
        SseBuffer { data: String::new() }
    }

    /// Appends newly received text; nothing is consumed or emitted.
    pub fn push_text(&mut self, input: &str)
        ensures
            final(self).data@ == old(self).data@ + input@,
    {
        self.data.append(input);
    }

    /// Removes and returns the first complete frame — the text before
    /// the earliest blank-line terminator — or returns nothing and
    /// leaves the buffer unchanged when no terminator is present yet.
    pub fn pop_frame(&mut self) -> (r: Option<String>)
        ensures
            match r {
                Some(frame) => {
                    &&& terminator_at(old(self).data@, frame@.len() as int)
                    &&& no_terminator_before(old(self).data@, frame@.len() as int)
                    &&& frame@ == old(self).data@.subrange(0, frame@.len() as int)
                    &&& final(self).data@ == old(self).data@.subrange(
                        frame@.len() as int + 2,
                        old(self).data@.len() as int,
                    )
                },
                None => no_terminator(old(self).data@)
                    && final(self).data@ == old(self).data@,
            },
    {
        let n = self.data.as_str().unicode_len();
        if n < 2 {
            proof {
                assert forall|j: int| !terminator_at(self.data@, j) by {}
            }
            return None;
        }
        let mut i: usize = 0;
        while i < n - 1
            invariant
                0 <= i <= n,
                n >= 2,
                n == self.data@.len(),
                self.data@ == old(self).data@,
                no_terminator_before(self.data@, i as int),
            decreases n - i,
        {
            if self.data.as_str().get_char(i) == '\n'
                && self.data.as_str().get_char(i + 1) == '\n'
            {
                let frame = String::from_str(self.data.as_str().substring_char(0, i));
                let rest = String::from_str(self.data.as_str().substring_char(i + 2, n));
                let ghost old_data = self.data@;
                let ghost pos = i as int;
                self.data = rest;
                proof {
                    assert(frame@.len() == pos);
                    assert(terminator_at(old_data, pos));
                    assert(no_terminator_before(old_data, pos));
                    assert(frame@ == old_data.subrange(0, pos));
                    assert(self.data@ == old_data.subrange(pos + 2, old_data.len() as int));
                }
                return Some(frame);
            }
            i = i + 1;
        }
        proof {
            assert forall|j: int| !terminator_at(self.data@, j) by {
                if terminator_at(self.data@, j) {
                    assert(0 <= j < n - 1);
                }
            }
        }
        None
    }
}

/// A frame delivered in two parts is produced only once whole: when the
/// first delivery holds no terminator, any frame found after appending
/// the second delivery has its terminator completed only by that second
/// delivery (it ends at or beyond the boundary between the two).
pub proof fn lemma_buffered_across_deliveries(b1: Seq<char>, b2: Seq<char>, i: int)
    requires
        no_terminator(b1),
        terminator_at(b1 + b2, i),
        no_terminator_before(b1 + b2, i),
    ensures
        i + 2 > b1.len(),
        i >= b1.len() ==> (b1 + b2).subrange(0, i) == b1 + b2.subrange(0, i - b1.len()),
{
    if i + 2 <= b1.len() {
        assert((b1 + b2)[i] == b1[i]);
        assert((b1 + b2)[i + 1] == b1[i + 1]);
        assert(terminator_at(b1, i));
    }
    if i >= b1.len() {
        assert((b1 + b2).subrange(0, i) =~= b1 + b2.subrange(0, i - b1.len()));
    }
}

} // verus!
