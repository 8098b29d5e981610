//! Event kinds and their wire forms.
//!
//! Peers report events as JSON text frames; the HTTP caller receives records
//! as JSON lines. The closed sets of kinds are modelled as enums, the
//! translation between them is exhaustive, and every line the bridge emits is
//! assembled here by verified concatenation. Only the JSON string-literal
//! escaping itself is delegated to an outside encoder.

use vstd::prelude::*;
use vstd::string::StringExecFns;

verus! {

/// An event reported by a peer about one request, already separated from the
/// request token that tagged it on the wire.
#[derive(Debug, PartialEq, Eq, Clone)]
pub enum InboundEvent {
    /// Final output: the peer has finished the request.
    Response(String),
    /// One partial-output chunk.
    Stream(String),
    /// A progress note.
    Status(String),
}

/// The mathematical value of an [`InboundEvent`].
pub ghost enum InboundEventModel {
    Response(Seq<char>),
    Stream(Seq<char>),
    Status(Seq<char>),
}

impl View for InboundEvent {
    type V = InboundEventModel;

    open spec fn view(&self) -> InboundEventModel {
        match self {
            InboundEvent::Response(t) => InboundEventModel::Response(t@),
            InboundEvent::Stream(c) => InboundEventModel::Stream(c@),
            InboundEvent::Status(s) => InboundEventModel::Status(s@),
        }
    }
}

/// A record made visible to the HTTP caller, one JSON line each.
#[derive(Debug, PartialEq, Eq, Clone)]
pub enum OutboundRecord {
    /// A progress note, the first record of every request being `Request queued`.
    Status(String),
    /// One partial-output chunk.
    Chunk(String),
    /// The final output of the request.
    Done(String),
    /// A failure injected by the bridge, today only on timeout.
    Error(String),
}

/// The mathematical value of an [`OutboundRecord`].
pub ghost enum OutboundRecordModel {
    Status(Seq<char>),
    Chunk(Seq<char>),
    Done(Seq<char>),
    Error(Seq<char>),
}

impl View for OutboundRecord {
    type V = OutboundRecordModel;

    open spec fn view(&self) -> OutboundRecordModel {
        match self {
            OutboundRecord::Status(t) => OutboundRecordModel::Status(t@),
            OutboundRecord::Chunk(t) => OutboundRecordModel::Chunk(t@),
            OutboundRecord::Done(t) => OutboundRecordModel::Done(t@),
            OutboundRecord::Error(t) => OutboundRecordModel::Error(t@),
        }
    }
}

/// How a peer-reported kind appears to the HTTP caller: a final `response`
/// becomes `done`, a `stream` chunk becomes `chunk`, a `status` stays `status`.
pub open spec fn spec_translate(ev: InboundEventModel) -> OutboundRecordModel {
    match ev {
        InboundEventModel::Response(t) => OutboundRecordModel::Done(t),
        InboundEventModel::Stream(c) => OutboundRecordModel::Chunk(c),
        InboundEventModel::Status(s) => OutboundRecordModel::Status(s),
    }
}

/// Translates a peer-reported event into the record the HTTP caller sees.
pub fn translate(ev: InboundEvent) -> (r: OutboundRecord)
    ensures
        r@ == spec_translate(ev@),
{
    match ev {
        InboundEvent::Response(t) => OutboundRecord::Done(t),
        InboundEvent::Stream(c) => OutboundRecord::Chunk(c),
        InboundEvent::Status(s) => OutboundRecord::Status(s),
    }
}

/// The JSON string literal denoting `s`: quoted and escaped as the outside
/// encoder writes it. A function of the characters alone.
pub uninterp spec fn json_str_lit(s: Seq<char>) -> Seq<char>;

/// Relies on `serde_json::to_string` applied to a string slice: it returns the
/// JSON string literal for `s` (quoted, with the required escapes), a function
/// of the characters alone; on a string value it never errors.
#[verifier::external_body]
fn json_string_literal(s: &str) -> (r: String)
    ensures
        r@ == json_str_lit(s@),
{
    match serde_json::to_string(s) {
        Ok(r) => r,
        Err(_) => String::new(),
    }
}

/// The JSON line that presents a record to the HTTP caller:
/// `{"type":<kind>,"text":<text>}` without the trailing newline.
pub open spec fn record_line(r: OutboundRecordModel) -> Seq<char> {
    match r {
        OutboundRecordModel::Status(t) => "{\"type\":\"status\",\"text\":"@ + json_str_lit(t) + "}"@,
        OutboundRecordModel::Chunk(t) => "{\"type\":\"chunk\",\"text\":"@ + json_str_lit(t) + "}"@,
        OutboundRecordModel::Done(t) => "{\"type\":\"done\",\"text\":"@ + json_str_lit(t) + "}"@,
        OutboundRecordModel::Error(t) => "{\"type\":\"error\",\"text\":"@ + json_str_lit(t) + "}"@,
    }
}

/// Concatenates one line: `prefix` + the JSON literal of `text` + `}`.
fn build_line(prefix: &str, text: &str) -> (line: String)
    ensures
        line@ == prefix@ + json_str_lit(text@) + "}"@,
{
    let mut line = prefix.to_owned();
    let quoted = json_string_literal(text);
    line.append(quoted.as_str());
    line.append("}");
    line
}

/// Serializes a record as its JSON line.
pub fn record_to_line(r: &OutboundRecord) -> (line: String)
    ensures
        line@ == record_line(r@),
{
    match r {
        OutboundRecord::Status(t) => build_line("{\"type\":\"status\",\"text\":", t.as_str()),
        OutboundRecord::Chunk(t) => build_line("{\"type\":\"chunk\",\"text\":", t.as_str()),
        OutboundRecord::Done(t) => build_line("{\"type\":\"done\",\"text\":", t.as_str()),
        OutboundRecord::Error(t) => build_line("{\"type\":\"error\",\"text\":", t.as_str()),
    }
}

/// The view of an optional string.
pub open spec fn opt_view(s: Option<String>) -> Option<Seq<char>> {
    match s {
        Some(t) => Some(t@),
        None => None,
    }
}

/// The string, or empty if absent — how missing payload fields are read.
pub open spec fn or_empty(s: Option<Seq<char>>) -> Seq<char> {
    match s {
        Some(t) => t,
        None => Seq::empty(),
    }
}

/// How one inbound frame's fields decode: a frame without a request token or
/// without a recognized kind is dropped; otherwise the kind picks its payload
/// field, an absent payload reading as empty.
pub open spec fn spec_decode(
    kind: Option<Seq<char>>,
    request_id: Option<Seq<char>>,
    text: Option<Seq<char>>,
    chunk: Option<Seq<char>>,
    status: Option<Seq<char>>,
) -> Option<(Seq<char>, InboundEventModel)> {
    match (request_id, kind) {
        (Some(r), Some(k)) => if k == "response"@ {
            Some((r, InboundEventModel::Response(or_empty(text))))
        } else if k == "stream"@ {
            Some((r, InboundEventModel::Stream(or_empty(chunk))))
        } else if k == "status"@ {
            Some((r, InboundEventModel::Status(or_empty(status))))
        } else {
            None
        },
        _ => None,
    }
}

/// The view of a decoded token/event pair.
pub open spec fn decoded_view(r: Option<(String, InboundEvent)>) -> Option<(
    Seq<char>,
    InboundEventModel,
)> {
    match r {
        Some(p) => Some((p.0@, p.1@)),
        None => None,
    }
}

fn unwrap_or_empty(s: Option<String>) -> (r: String)
    ensures
        r@ == or_empty(opt_view(s)),
{
    match s {
        Some(t) => t,
        None => String::new(),
    }
}

/// Decodes the fields of one inbound frame into the request token and the
/// typed event, or nothing for a frame that is to be dropped. This is the
/// router's half of decoding; pulling the fields out of the JSON text is the
/// transport's.
pub fn decode_event(
    kind: Option<String>,
    request_id: Option<String>,
    text: Option<String>,
    chunk: Option<String>,
    status: Option<String>,
) -> (r: Option<(String, InboundEvent)>)
    ensures
        decoded_view(r) == spec_decode(
            opt_view(kind),
            opt_view(request_id),
            opt_view(text),
            opt_view(chunk),
            opt_view(status),
        ),
{
    match (request_id, kind) {
        (Some(rid), Some(k)) => {
            if k == String::from_str("response") {
                Some((rid, InboundEvent::Response(unwrap_or_empty(text))))
            } else if k == String::from_str("stream") {
                Some((rid, InboundEvent::Stream(unwrap_or_empty(chunk))))
            } else if k == String::from_str("status") {
                Some((rid, InboundEvent::Status(unwrap_or_empty(status))))
            } else {
                None
            }
        },
        _ => None,
    }
}

/// The work-order frame broadcast to every peer:
/// `{"action":"sendPrompt","requestId":<token>,"model":<model>,"text":<prompt>,"newChat":<new_chat>}`.
pub open spec fn work_order_line(
    token: Seq<char>,
    model: Seq<char>,
    prompt: Seq<char>,
    new_chat: bool,
) -> Seq<char> {
    "{\"action\":\"sendPrompt\",\"requestId\":"@ + json_str_lit(token) + ",\"model\":"@
        + json_str_lit(model) + ",\"text\":"@ + json_str_lit(prompt) + ",\"newChat\":"@ + (
    if new_chat {
        "true"@
    } else {
        "false"@
    }) + "}"@
}

/// Assembles the work-order frame for one submission.
pub fn build_work_order(token: &str, model: &str, prompt: &str, new_chat: bool) -> (line: String)
    ensures
        line@ == work_order_line(token@, model@, prompt@, new_chat),
{
    let mut line = "{\"action\":\"sendPrompt\",\"requestId\":".to_owned();
    let quoted_token = json_string_literal(token);
    line.append(quoted_token.as_str());
    line.append(",\"model\":");
    let quoted_model = json_string_literal(model);
    line.append(quoted_model.as_str());
    line.append(",\"text\":");
    let quoted_prompt = json_string_literal(prompt);
    line.append(quoted_prompt.as_str());
    line.append(",\"newChat\":");
    if new_chat {
        line.append("true");
    } else {
        line.append("false");
    }
    line.append("}");
    line
}

} // verus!
