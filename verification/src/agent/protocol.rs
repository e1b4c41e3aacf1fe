//! The ACP wire, and nothing else.
//!
//! This module builds JSON-RPC frames and reads them back. It never spawns a
//! process, holds a lock or blocks.
//!
//! Two spellings are easy to get wrong and are pinned by tests:
//!
//! * `session/cancel` is a *notification*. It has no id and no reply; the
//!   in-flight `session/prompt` is what eventually returns.
//! * ACP spells "the user did not allow this" as `outcome: "cancelled"`, not
//!   `"denied"`.

use vstd::prelude::*;
use crate::json::{
    Json, JsonModel, NumberModel, json_written, json_parse, model_get, model_as_str, model_as_i64,
    entries_view, items_view, json_depth, items_depth, lemma_items_depth, lemma_items_view,
    lemma_get_shallower, lemma_entries_view, parse_text, str_eq, json_view,
};
use crate::text::{push_char, push_decimal, decimal, trimmed, all_white, is_white_space};

verus! {

/// The protocol version this client speaks.
pub const PROTOCOL_VERSION: u32 = 1;
/// Longest single line accepted from the agent's stdout. A frame beyond this is
/// a protocol fault, not something to buffer without limit.
pub const MAX_LINE_BYTES: usize = 4 * 1024 * 1024;
/// The client version announced in `initialize`.
pub const CLIENT_VERSION: &'static str = "0.1.0";

/// A message read from the agent's stdout.
#[derive(Debug)]
pub enum Incoming {
    /// A reply to a request we sent.
    Response { id: Json, result: Json },
    /// A failed reply to a request we sent.
    ErrorResponse { id: Json, code: i64, message: String },
    /// The agent asking *us* something. It expects a reply with the same id.
    Request { id: Json, method: String, params: Json },
    Notification { method: String, params: Json },
}

/// What a message read from the agent's stdout says.
pub enum IncomingModel {
    Response { id: JsonModel, result: JsonModel },
    ErrorResponse { id: JsonModel, code: i64, message: Seq<char> },
    Request { id: JsonModel, method: Seq<char>, params: JsonModel },
    Notification { method: Seq<char>, params: JsonModel },
}

impl View for Incoming {
    type V = IncomingModel;

    open spec fn view(&self) -> IncomingModel {
        match self {
            Incoming::Response { id, result } => IncomingModel::Response { id: id@, result: result@ },
            Incoming::ErrorResponse { id, code, message } => IncomingModel::ErrorResponse {
                id: id@,
                code: *code,
                message: message@,
            },
            Incoming::Request { id, method, params } => IncomingModel::Request {
                id: id@,
                method: method@,
                params: params@,
            },
            Incoming::Notification { method, params } => IncomingModel::Notification {
                method: method@,
                params: params@,
            },
        }
    }
}

#[derive(Debug, Clone, PartialEq, Eq)]
pub enum ProtocolError {
    /// Not JSON at all — most often a log line that escaped onto stdout.
    Malformed(String),
    /// Valid JSON that is not a JSON-RPC message we can act on.
    Unrecognised(String),
    /// The line exceeded [`MAX_LINE_BYTES`].
    Oversized { bytes: usize },
}

pub open spec fn protocol_error_text(e: ProtocolError) -> Seq<char> {
    match e {
        ProtocolError::Malformed(d) => "malformed protocol line: "@ + d@,
        ProtocolError::Unrecognised(d) => "line is JSON but not a JSON-RPC message: "@ + d@,
        ProtocolError::Oversized { bytes } => "protocol line of "@ + decimal(bytes as nat)
            + " bytes exceeds the 4194304 byte limit"@,
    }
}

impl ProtocolError {
    /// The one-line rendering used in diagnostics.
    pub fn display_text(&self) -> (s: String)
        ensures
            s@ == protocol_error_text(*self),
    {
        match self {
            ProtocolError::Malformed(d) => {
                let mut s = String::from_str("malformed protocol line: ");
                s.append(d.as_str());
                s
            },
            ProtocolError::Unrecognised(d) => {
                let mut s = String::from_str("line is JSON but not a JSON-RPC message: ");
                s.append(d.as_str());
                s
            },
            ProtocolError::Oversized { bytes } => {
                let mut s = String::from_str("protocol line of ");
                push_decimal(&mut s, *bytes as u64);
                s.append(" bytes exceeds the 4194304 byte limit");
                s
            },
        }
    }
}

/// What the user decided about a permission request, in ACP's own vocabulary.
#[derive(Debug, Clone, PartialEq, Eq)]
pub enum PermissionDecision {
    Selected { option_id: String },
    /// Everything that is not an explicit allow: an explicit deny, a timeout,
    /// a cancel, a disconnect. All of them fail closed to the same answer.
    Cancelled,
}


impl PermissionDecision {
    pub fn is_selected(&self) -> (b: bool)
        ensures
            b == (*self is Selected),
    {
        match self {
            PermissionDecision::Selected { .. } => true,
            PermissionDecision::Cancelled => false,
        }
    }

    pub fn is_cancelled(&self) -> (b: bool)
        ensures
            b == (*self is Cancelled),
    {
        !self.is_selected()
    }

    /// The same decision.
    pub fn duplicate(&self) -> (d: PermissionDecision)
        ensures
            d == *self,
    {
        match self {
            PermissionDecision::Selected { option_id } => PermissionDecision::Selected {
                option_id: option_id.clone(),
            },
            PermissionDecision::Cancelled => PermissionDecision::Cancelled,
        }
    }
}

/// One option the agent offered. Rendered as text; never executed.
#[derive(Debug, Clone, PartialEq, Eq)]
pub struct PermissionOption {
    pub option_id: String,
    pub name: String,
    /// `allow_once` | `allow_always` | `reject_once` | `reject_always`.
    pub kind: String,
}

#[derive(Debug, Clone, PartialEq, Eq)]
pub struct PermissionRequest {
    pub session_id: String,
    pub tool_call_id: String,
    pub title: String,
    pub detail: String,
    pub options: Vec<PermissionOption>,
}

/// One increment of transcript, as the agent described it.
#[derive(Debug, Clone, PartialEq, Eq)]
#[allow(inconsistent_fields)]
pub enum TranscriptDelta {
    AgentMessage { text: String },
    Thought { text: String },
    /// Covers both `tool_call` and `tool_call_update`: the same tool call id
    /// identifies one entry, and later updates fill in what they know.
    ToolCall {
        tool_call_id: String,
        title: Option<String>,
        kind: Option<String>,
        status: Option<String>,
        content: String,
    },
    /// A variant we do not model. Named rather than silently discarded.
    Other { kind: String },
}

#[derive(Debug, Clone, PartialEq, Eq)]
pub struct SessionUpdate {
    pub session_id: String,
    pub delta: TranscriptDelta,
}

/// Why a turn stopped. Reported verbatim; none of these mean "it worked".
#[derive(Debug, Clone, PartialEq, Eq)]
pub enum StopReason {
    EndTurn,
    MaxTokens,
    MaxTurnRequests,
    Refusal,
    Cancelled,
    Other(String),
}

pub open spec fn stop_reason_text(r: StopReason) -> Seq<char> {
    match r {
        StopReason::EndTurn => "end_turn"@,
        StopReason::MaxTokens => "max_tokens"@,
        StopReason::MaxTurnRequests => "max_turn_requests"@,
        StopReason::Refusal => "refusal"@,
        StopReason::Cancelled => "cancelled"@,
        StopReason::Other(raw) => raw@,
    }
}

pub open spec fn stop_reason_detail(r: StopReason) -> Seq<char> {
    match r {
        StopReason::EndTurn => "the agent stopped producing output for this turn"@,
        StopReason::MaxTokens => "the turn hit the model's token limit"@,
        StopReason::MaxTurnRequests => "the turn hit the agent's request limit"@,
        StopReason::Refusal => "the agent refused to continue"@,
        StopReason::Cancelled => "the turn was cancelled"@,
        StopReason::Other(_) => "the agent reported a stop reason this build does not model"@,
    }
}

/// True when `r` is a named variant other than `Other`.
pub open spec fn is_known_stop_reason(r: StopReason) -> bool {
    !(r is Other)
}

impl StopReason {
    /// The known reasons by their ACP spelling; anything else is kept verbatim.
    pub fn parse(raw: &str) -> (r: StopReason)
        ensures
            stop_reason_text(r) == raw@,
            r is Other <==> !(raw@ == "end_turn"@ || raw@ == "max_tokens"@ || raw@
                == "max_turn_requests"@ || raw@ == "refusal"@ || raw@ == "cancelled"@),
    {
        proof {
            reveal_strlit("end_turn");
            reveal_strlit("max_tokens");
            reveal_strlit("max_turn_requests");
            reveal_strlit("refusal");
            reveal_strlit("cancelled");
        }
        if str_eq(raw, "end_turn") {
            StopReason::EndTurn
        } else if str_eq(raw, "max_tokens") {
            StopReason::MaxTokens
        } else if str_eq(raw, "max_turn_requests") {
            StopReason::MaxTurnRequests
        } else if str_eq(raw, "refusal") {
            StopReason::Refusal
        } else if str_eq(raw, "cancelled") {
            StopReason::Cancelled
        } else {
            StopReason::Other(raw.to_string())
        }
    }

    pub fn as_str(&self) -> (s: &str)
        ensures
            s@ == stop_reason_text(*self),
    {
        match self {
            StopReason::EndTurn => "end_turn",
            StopReason::MaxTokens => "max_tokens",
            StopReason::MaxTurnRequests => "max_turn_requests",
            StopReason::Refusal => "refusal",
            StopReason::Cancelled => "cancelled",
            StopReason::Other(raw) => raw.as_str(),
        }
    }

    /// Human-readable, and deliberately free of any success claim. ACP has no
    /// notion of "the task is done": `end_turn` only means the agent stopped
    /// producing output for this turn.
    pub fn describe(&self) -> (s: String)
        ensures
            s@ == "Turn ended ("@ + stop_reason_text(*self) + ") — "@ + stop_reason_detail(*self)
                + ". This is not a claim that the task succeeded."@,
    {
        let detail = match self {
            StopReason::EndTurn => "the agent stopped producing output for this turn",
            StopReason::MaxTokens => "the turn hit the model's token limit",
            StopReason::MaxTurnRequests => "the turn hit the agent's request limit",
            StopReason::Refusal => "the agent refused to continue",
            StopReason::Cancelled => "the turn was cancelled",
            StopReason::Other(_) => "the agent reported a stop reason this build does not model",
        };
        let mut s = String::from_str("Turn ended (");
        s.append(self.as_str());
        s.append(") — ");
        s.append(detail);
        s.append(". This is not a claim that the task succeeded.");
        s
    }
}

// --- outgoing frames --------------------------------------------------------

pub open spec fn jstr(s: Seq<char>) -> JsonModel {
    JsonModel::Str(s)
}

pub open spec fn juint(u: u64) -> JsonModel {
    JsonModel::Number(NumberModel::PosInt(u))
}

/// `{"jsonrpc":"2.0","id":id,"method":method,"params":params}`
pub open spec fn request_model(id: u64, method: Seq<char>, params: JsonModel) -> JsonModel {
    JsonModel::Object(
        seq![("jsonrpc"@, jstr("2.0"@)), ("id"@, juint(id)), ("method"@, jstr(method)), ("params"@, params)],
    )
}

/// The `initialize` request: protocol version 1, this client's name and
/// version, and no filesystem or terminal capability.
pub open spec fn initialize_model(id: u64) -> JsonModel {
    request_model(
        id,
        "initialize"@,
        JsonModel::Object(
            seq![
                ("protocolVersion"@, juint(1)),
                ("clientInfo"@, JsonModel::Object(seq![("name"@, jstr("faiden"@)), ("version"@, jstr(CLIENT_VERSION@))])),
                ("clientCapabilities"@, JsonModel::Object(
                    seq![
                        ("fs"@, JsonModel::Object(seq![("readTextFile"@, JsonModel::Bool(false)), ("writeTextFile"@, JsonModel::Bool(false))])),
                        ("terminal"@, JsonModel::Bool(false)),
                    ],
                )),
            ],
        ),
    )
}

pub open spec fn session_new_model(id: u64, cwd: Seq<char>) -> JsonModel {
    request_model(
        id,
        "session/new"@,
        JsonModel::Object(seq![("cwd"@, jstr(cwd)), ("mcpServers"@, JsonModel::Array(Seq::empty()))]),
    )
}

pub open spec fn session_prompt_model(id: u64, session_id: Seq<char>, text: Seq<char>) -> JsonModel {
    request_model(
        id,
        "session/prompt"@,
        JsonModel::Object(
            seq![
                ("sessionId"@, jstr(session_id)),
                ("prompt"@, JsonModel::Array(seq![JsonModel::Object(seq![("type"@, jstr("text"@)), ("text"@, jstr(text))])])),
            ],
        ),
    )
}

/// A notification: no id.
pub open spec fn session_cancel_model(session_id: Seq<char>) -> JsonModel {
    JsonModel::Object(
        seq![
            ("jsonrpc"@, jstr("2.0"@)),
            ("method"@, jstr("session/cancel"@)),
            ("params"@, JsonModel::Object(seq![("sessionId"@, jstr(session_id))])),
        ],
    )
}

pub open spec fn outcome_model(decision: PermissionDecision) -> JsonModel {
    match decision {
        PermissionDecision::Selected { option_id } => JsonModel::Object(
            seq![("outcome"@, jstr("selected"@)), ("optionId"@, jstr(option_id@))],
        ),
        PermissionDecision::Cancelled => JsonModel::Object(seq![("outcome"@, jstr("cancelled"@))]),
    }
}

pub open spec fn permission_response_model(id: JsonModel, decision: PermissionDecision) -> JsonModel {
    JsonModel::Object(
        seq![
            ("jsonrpc"@, jstr("2.0"@)),
            ("id"@, id),
            ("result"@, JsonModel::Object(seq![("outcome"@, outcome_model(decision))])),
        ],
    )
}

pub open spec fn method_not_found_message(method: Seq<char>) -> Seq<char> {
    "Faiden does not implement "@ + method
        + ": it advertises no filesystem or terminal capabilities to the agent"@
}

pub open spec fn method_not_found_model(id: JsonModel, method: Seq<char>) -> JsonModel {
    JsonModel::Object(
        seq![
            ("jsonrpc"@, jstr("2.0"@)),
            ("id"@, id),
            ("error"@, JsonModel::Object(
                seq![
                    ("code"@, JsonModel::Number(NumberModel::NegInt(-32601i64))),
                    ("message"@, jstr(method_not_found_message(method))),
                ],
            )),
        ],
    )
}

fn entry(key: &str, value: Json) -> (r: (String, Json))
    ensures
        r.0@ == key@,
        r.1@ == value@,
{
    (key.to_string(), value)
}

fn object2(a: (String, Json), b: (String, Json)) -> (j: Json)
    ensures
        j@ == JsonModel::Object(seq![(a.0@, a.1@), (b.0@, b.1@)]),
{
    let v = vec![a, b];
    proof { lemma_entries_view(v@); }
    let j = Json::object(v);
    assert(entries_view(v@) =~= seq![(a.0@, a.1@), (b.0@, b.1@)]);
    j
}

fn object3(a: (String, Json), b: (String, Json), c: (String, Json)) -> (j: Json)
    ensures
        j@ == JsonModel::Object(seq![(a.0@, a.1@), (b.0@, b.1@), (c.0@, c.1@)]),
{
    let v = vec![a, b, c];
    proof { lemma_entries_view(v@); }
    let j = Json::object(v);
    assert(entries_view(v@) =~= seq![(a.0@, a.1@), (b.0@, b.1@), (c.0@, c.1@)]);
    j
}

fn object4(a: (String, Json), b: (String, Json), c: (String, Json), d: (String, Json)) -> (j: Json)
    ensures
        j@ == JsonModel::Object(seq![(a.0@, a.1@), (b.0@, b.1@), (c.0@, c.1@), (d.0@, d.1@)]),
{
    let v = vec![a, b, c, d];
    proof { lemma_entries_view(v@); }
    let j = Json::object(v);
    assert(entries_view(v@) =~= seq![(a.0@, a.1@), (b.0@, b.1@), (c.0@, c.1@), (d.0@, d.1@)]);
    j
}

fn request(id: u64, method: &str, params: Json) -> (j: Json)
    ensures
        j@ == request_model(id, method@, params@),
{
    object4(
        entry("jsonrpc", Json::str("2.0")),
        entry("id", Json::uint(id)),
        entry("method", Json::str(method)),
        entry("params", params),
    )
}

pub fn initialize_request(id: u64) -> (s: String)
    ensures
        s@ == json_written(initialize_model(id)),
        forall|i: int| 0 <= i < s@.len() ==> s@[i] != '\n',
{
    let client = object2(entry("name", Json::str("faiden")), entry("version", Json::str(CLIENT_VERSION)));
    let fs = object2(entry("readTextFile", Json::boolean(false)), entry("writeTextFile", Json::boolean(false)));
    // Faiden implements `session/update` and `session/request_permission` and
    // nothing else. Advertising a filesystem or terminal host it does not have
    // would invite requests it could only fail.
    let caps = object2(entry("fs", fs), entry("terminal", Json::boolean(false)));
    let params = object3(
        entry("protocolVersion", Json::uint(1)),
        entry("clientInfo", client),
        entry("clientCapabilities", caps),
    );
    request(id, "initialize", params).to_text()
}

/// `cwd` must be absolute. `mcpServers` is empty because Faiden contributes no
/// servers of its own; the agent keeps whatever the user configured.
pub fn session_new_request(id: u64, cwd: &str) -> (s: String)
    ensures
        s@ == json_written(session_new_model(id, cwd@)),
        forall|i: int| 0 <= i < s@.len() ==> s@[i] != '\n',
{
    let empty: Vec<Json> = Vec::new();
    proof { lemma_items_view(empty@); }
    let servers = Json::array(empty);
    assert(items_view(empty@) =~= Seq::<JsonModel>::empty());
    let params = object2(entry("cwd", Json::str(cwd)), entry("mcpServers", servers));
    request(id, "session/new", params).to_text()
}

pub fn session_prompt_request(id: u64, session_id: &str, text: &str) -> (s: String)
    ensures
        s@ == json_written(session_prompt_model(id, session_id@, text@)),
        forall|i: int| 0 <= i < s@.len() ==> s@[i] != '\n',
{
    let block = object2(entry("type", Json::str("text")), entry("text", Json::str(text)));
    let ghost bm = block@;
    let items = vec![block];
    proof { lemma_items_view(items@); }
    assert(items_view(items@) =~= seq![bm]);
    let prompt = Json::array(items);
    let params = object2(entry("sessionId", Json::str(session_id)), entry("prompt", prompt));
    request(id, "session/prompt", params).to_text()
}

/// A notification: no id, and no reply will ever arrive. Sending it does not
/// mean the turn is over — the in-flight `session/prompt` still has to return.
pub fn session_cancel_notification(session_id: &str) -> (s: String)
    ensures
        s@ == json_written(session_cancel_model(session_id@)),
        forall|i: int| 0 <= i < s@.len() ==> s@[i] != '\n',
{
    let params = {
        let v = vec![entry("sessionId", Json::str(session_id))];
        proof { lemma_entries_view(v@); }
        assert(entries_view(v@) =~= seq![("sessionId"@, jstr(session_id@))]);
        Json::object(v)
    };
    object3(
        entry("jsonrpc", Json::str("2.0")),
        entry("method", Json::str("session/cancel")),
        entry("params", params),
    ).to_text()
}

pub fn permission_response(id: &Json, decision: PermissionDecision) -> (s: String)
    ensures
        s@ == json_written(permission_response_model(id@, decision)),
        forall|i: int| 0 <= i < s@.len() ==> s@[i] != '\n',
{
    let outcome = match &decision {
        PermissionDecision::Selected { option_id } => object2(
            entry("outcome", Json::str("selected")),
            entry("optionId", Json::str(option_id.as_str())),
        ),
        PermissionDecision::Cancelled => {
            let v = vec![entry("outcome", Json::str("cancelled"))];
            proof { lemma_entries_view(v@); }
            assert(entries_view(v@) =~= seq![("outcome"@, jstr("cancelled"@))]);
            Json::object(v)
        },
    };
    let result = {
        let v = vec![entry("outcome", outcome)];
        proof { lemma_entries_view(v@); }
        assert(entries_view(v@) =~= seq![("outcome"@, outcome_model(decision))]);
        Json::object(v)
    };
    object3(entry("jsonrpc", Json::str("2.0")), entry("id", id.duplicate()), entry("result", result)).to_text()
}


/// The honest answer to a request for a capability we never advertised.
pub fn method_not_found_response(id: &Json, method: &str) -> (s: String)
    ensures
        s@ == json_written(method_not_found_model(id@, method@)),
        forall|i: int| 0 <= i < s@.len() ==> s@[i] != '\n',
{
    let mut message = String::from_str("Faiden does not implement ");
    message.append(method);
    message.append(": it advertises no filesystem or terminal capabilities to the agent");
    let error = object2(entry("code", Json::integer(-32601)), entry("message", Json::str(message.as_str())));
    object3(entry("jsonrpc", Json::str("2.0")), entry("id", id.duplicate()), entry("error", error)).to_text()
}

// --- incoming frames --------------------------------------------------------

/// A diagnostic excerpt: at most 200 characters, with a marker when cut.
pub open spec fn log_excerpt(s: Seq<char>) -> Seq<char> {
    if s.len() <= 200 { s } else { s.take(200) + "… (truncated)"@ }
}

pub fn truncate_for_log(text: &str) -> (s: String)
    ensures
        s@ == log_excerpt(text@),
{
    let n = text.unicode_len();
    if n <= 200 {
        return text.to_string();
    }
    let mut s = text.substring_char(0, 200).to_string();
    s.append("… (truncated)");
    s
}

pub open spec fn has_id(m: JsonModel) -> bool {
    match model_get(m, "id"@) {
        Some(v) => !(v is Null),
        None => false,
    }
}

pub open spec fn params_of(m: JsonModel) -> JsonModel {
    match model_get(m, "params"@) {
        Some(p) => p,
        None => JsonModel::Null,
    }
}

pub open spec fn string_field_model(m: JsonModel, key: Seq<char>) -> Option<Seq<char>> {
    match model_get(m, key) {
        Some(v) => model_as_str(v),
        None => None,
    }
}

pub open spec fn or_default<A>(o: Option<A>, d: A) -> A {
    match o {
        Some(a) => a,
        None => d,
    }
}

/// A reply: an error when an `error` member is present, otherwise a result
/// when a `result` member is, otherwise nothing usable.
pub open spec fn reply_model(m: JsonModel) -> Option<IncomingModel> {
    let id = or_default(model_get(m, "id"@), JsonModel::Null);
    match model_get(m, "error"@) {
        Some(e) => Some(
            IncomingModel::ErrorResponse {
                id,
                code: match model_get(e, "code"@) {
                    Some(c) => or_default(model_as_i64(c), 0i64),
                    None => 0i64,
                },
                message: or_default(
                    string_field_model(e, "message"@),
                    "the agent reported an error with no message"@,
                ),
            },
        ),
        None => match model_get(m, "result"@) {
            Some(r) => Some(IncomingModel::Response { id, result: r }),
            None => None,
        },
    }
}

/// How a JSON value reads as a JSON-RPC message: a request (id and string
/// method), a notification (string method, no usable id), a reply (id, no
/// method), or nothing usable.
pub open spec fn classify(m: JsonModel) -> Option<IncomingModel> {
    if !(m is Object) {
        None
    } else {
        match model_get(m, "method"@) {
            Some(JsonModel::Str(name)) => if has_id(m) {
                Some(
                    IncomingModel::Request {
                        id: or_default(model_get(m, "id"@), JsonModel::Null),
                        method: name,
                        params: params_of(m),
                    },
                )
            } else {
                Some(IncomingModel::Notification { method: name, params: params_of(m) })
            },
            Some(_) => None,
            None => if has_id(m) { reply_model(m) } else { None },
        }
    }
}

/// Why a JSON value is not usable: a reply with neither member says so,
/// everything else quotes the line.
pub open spec fn unrecognised_detail(m: JsonModel, line: Seq<char>) -> Seq<char> {
    if m is Object && has_id(m) && model_get(m, "method"@) is None {
        "reply has neither result nor error"@
    } else {
        log_excerpt(line)
    }
}

fn json_or_null(v: Option<&Json>) -> (r: Json)
    ensures
        r@ == match v {
            Some(x) => x@,
            None => JsonModel::Null,
        },
{
    match v {
        Some(x) => x.duplicate(),
        None => Json::Null,
    }
}

fn parse_reply(object: &Json) -> (r: Result<Incoming, ProtocolError>)
    requires
        object@ is Object,
        has_id(object@),
        model_get(object@, "method"@) is None,
    ensures
        match reply_model(object@) {
            Some(im) => r matches Ok(inc) && inc@ == im,
            None => r matches Err(ProtocolError::Unrecognised(d)) && d@
                == "reply has neither result nor error"@,
        },
{
    let id = json_or_null(object.get("id"));
    if let Some(error) = object.get("error") {
        let code = match error.get("code") {
            Some(c) => match c.as_i64() {
                Some(v) => v,
                None => 0,
            },
            None => 0,
        };
        let message = match error.get("message") {
            Some(m) => match m.as_str() {
                Some(t) => t.to_string(),
                None => "the agent reported an error with no message".to_string(),
            },
            None => "the agent reported an error with no message".to_string(),
        };
        return Ok(Incoming::ErrorResponse { id, code, message });
    }
    match object.get("result") {
        Some(result) => Ok(Incoming::Response { id, result: result.duplicate() }),
        None => Err(ProtocolError::Unrecognised("reply has neither result nor error".to_string())),
    }
}

/// Reads one line from the agent. Oversized lines are refused before parsing;
/// text that is not JSON is `Malformed`; JSON that is not a usable JSON-RPC
/// message is `Unrecognised`.
pub fn parse_line(line: &str) -> (r: Result<Incoming, ProtocolError>)
    ensures
        line.len() > MAX_LINE_BYTES ==> (r matches Err(ProtocolError::Oversized { bytes })
            && bytes == line.len()),
        line.len() <= MAX_LINE_BYTES ==> match json_parse(trimmed(line@)) {
            None => r matches Err(ProtocolError::Malformed(_)),
            Some(m) => match classify(m) {
                Some(im) => r matches Ok(inc) && inc@ == im,
                None => r matches Err(ProtocolError::Unrecognised(d)) && d@ == unrecognised_detail(m, line@),
            },
        },
{
    if line.len() > MAX_LINE_BYTES {
        return Err(ProtocolError::Oversized { bytes: line.len() });
    }
    let value = match parse_text(crate::text::str_trim(line)) {
        Ok(v) => v,
        Err(e) => return Err(ProtocolError::Malformed(truncate_for_log(e.as_str()))),
    };
    if !value.is_object() {
        return Err(ProtocolError::Unrecognised(truncate_for_log(line)));
    }
    let has = match value.get("id") {
        Some(id) => !id.is_null(),
        None => false,
    };
    match value.get("method") {
        Some(mv) => match mv.as_str() {
            Some(method) => {
                let params = json_or_null(value.get("params"));
                if has {
                    Ok(Incoming::Request { id: json_or_null(value.get("id")), method: method.to_string(), params })
                } else {
                    Ok(Incoming::Notification { method: method.to_string(), params })
                }
            },
            None => Err(ProtocolError::Unrecognised(truncate_for_log(line))),
        },
        None => {
            if has {
                parse_reply(&value)
            } else {
                Err(ProtocolError::Unrecognised(truncate_for_log(line)))
            }
        },
    }
}

// --- content and updates ----------------------------------------------------

/// ACP content flattened to plain text. Content arrives as one block or as an
/// array of blocks, and tool content wraps a block under `content`. A block
/// that is not text contributes a labelled placeholder.
pub open spec fn content_of(m: JsonModel) -> Seq<char>
    decreases json_depth(m), 1nat,
{
    match m {
        JsonModel::Array(items) => items_content(items),
        JsonModel::Object(_) => match model_get(m, "text"@) {
            Some(JsonModel::Str(t)) => t,
            _ => match model_get(m, "content"@) {
                Some(inner) => {
                    proof {
                        lemma_get_shallower(m, "content"@);
                    }
                    content_of(inner)
                },
                None => match string_field_model(m, "type"@) {
                    Some(ty) => "["@ + ty + " content]"@,
                    None => Seq::empty(),
                },
            },
        },
        JsonModel::Str(t) => t,
        _ => Seq::empty(),
    }
}

pub open spec fn items_content(s: Seq<JsonModel>) -> Seq<char>
    decreases items_depth(s), s.len() + 1,
{
    if s.len() == 0 {
        Seq::empty()
    } else {
        items_content(s.subrange(0, s.len() - 1)) + content_of(s[s.len() - 1])
    }
}

pub open spec fn content_opt(m: Option<JsonModel>) -> Seq<char> {
    match m {
        Some(v) => content_of(v),
        None => Seq::empty(),
    }
}

fn content_text(value: &Json) -> (s: String)
    ensures
        s@ == content_of(value@),
    decreases json_depth(value@),
{
    match value.as_array() {
        Some(items) => {
            proof { lemma_items_view(items@); }
            let ghost iv = items_view(items@);
            let mut out = String::new();
            let mut i: usize = 0;
            assert(iv.take(0) =~= Seq::<JsonModel>::empty());
            while i < items.len()
                invariant
                    i <= items@.len(),
                    iv == items_view(items@),
                    value@ == JsonModel::Array(iv),
                    iv.len() == items@.len(),
                    forall|k: int| 0 <= k < iv.len() ==> #[trigger] iv[k] == json_view(items@[k]),
                    out@ == items_content(iv.take(i as int)),
                decreases items@.len() - i,
            {
                proof { lemma_items_depth(iv, i as int); }
                let piece = content_text(&items[i]);
                out.append(piece.as_str());
                assert(iv.take(i + 1).subrange(0, i as int) =~= iv.take(i as int));
                i = i + 1;
            }
            assert(iv.take(items@.len() as int) =~= iv);
            return out;
        },
        None => {},
    }
    if value.is_object() {
        if let Some(t) = value.get("text") {
            if let Some(text) = t.as_str() {
                return text.to_string();
            }
        }
        if let Some(inner) = value.get("content") {
            proof { lemma_get_shallower(value@, "content"@); }
            return content_text(inner);
        }
        match value.get("type") {
            Some(ty) => match ty.as_str() {
                Some(name) => {
                    let mut s = String::from_str("[");
                    s.append(name);
                    s.append(" content]");
                    return s;
                },
                None => {},
            },
            None => {},
        }
        return String::new();
    }
    match value.as_str() {
        Some(text) => text.to_string(),
        None => String::new(),
    }
}

fn content_text_opt(value: Option<&Json>) -> (s: String)
    ensures
        s@ == content_opt(match value {
            Some(v) => Some(v@),
            None => None,
        }),
{
    match value {
        Some(v) => content_text(v),
        None => String::new(),
    }
}

fn string_field(value: &Json, key: &str) -> (r: Option<String>)
    ensures
        match r {
            Some(s) => string_field_model(value@, key@) == Some(s@),
            None => string_field_model(value@, key@) is None,
        },
{
    match value.get(key) {
        Some(v) => match v.as_str() {
            Some(s) => Some(s.to_string()),
            None => None,
        },
        None => None,
    }
}

pub open spec fn opt_view(o: Option<String>) -> Option<Seq<char>> {
    match o {
        Some(s) => Some(s@),
        None => None,
    }
}

/// One increment of transcript, as text.
pub enum DeltaModel {
    AgentMessage(Seq<char>),
    Thought(Seq<char>),
    ToolCall {
        tool_call_id: Seq<char>,
        title: Option<Seq<char>>,
        kind: Option<Seq<char>>,
        status: Option<Seq<char>>,
        content: Seq<char>,
    },
    Other(Seq<char>),
}

impl View for TranscriptDelta {
    type V = DeltaModel;

    open spec fn view(&self) -> DeltaModel {
        match self {
            TranscriptDelta::AgentMessage { text } => DeltaModel::AgentMessage(text@),
            TranscriptDelta::Thought { text } => DeltaModel::Thought(text@),
            TranscriptDelta::ToolCall { tool_call_id, title, kind, status, content } => DeltaModel::ToolCall {
                tool_call_id: tool_call_id@,
                title: opt_view(*title),
                kind: opt_view(*kind),
                status: opt_view(*status),
                content: content@,
            },
            TranscriptDelta::Other { kind } => DeltaModel::Other(kind@),
        }
    }
}

/// What a `session/update` notification's params say: the session it names
/// and the increment it carries. `None` when no session or no update kind can
/// be read, or when a tool call carries no id.
pub open spec fn session_update_model(p: JsonModel) -> Option<(Seq<char>, DeltaModel)> {
    match string_field_model(p, "sessionId"@) {
        None => None,
        Some(sid) => match model_get(p, "update"@) {
            None => None,
            Some(u) => match string_field_model(u, "sessionUpdate"@) {
                None => None,
                Some(kind) => if kind == "agent_message_chunk"@ {
                    Some((sid, DeltaModel::AgentMessage(content_opt(model_get(u, "content"@)))))
                } else if kind == "agent_thought_chunk"@ {
                    Some((sid, DeltaModel::Thought(content_opt(model_get(u, "content"@)))))
                } else if kind == "tool_call"@ || kind == "tool_call_update"@ {
                    match string_field_model(u, "toolCallId"@) {
                        None => None,
                        Some(tid) => Some(
                            (
                                sid,
                                DeltaModel::ToolCall {
                                    tool_call_id: tid,
                                    title: string_field_model(u, "title"@),
                                    kind: string_field_model(u, "kind"@),
                                    status: string_field_model(u, "status"@),
                                    content: content_opt(model_get(u, "content"@)),
                                },
                            ),
                        ),
                    }
                } else {
                    // `user_message_chunk` is the agent echoing our own prompt
                    // back; it is named like every other unmodelled variant.
                    Some((sid, DeltaModel::Other(kind)))
                },
            },
        },
    }
}

/// Reads a `session/update` notification. `None` means the payload was not a
/// session update we can attribute to a session, which the caller counts
/// rather than turning into an empty transcript entry.
pub fn parse_session_update(params: &Json) -> (r: Option<SessionUpdate>)
    ensures
        match session_update_model(params@) {
            None => r is None,
            Some((sid, d)) => r matches Some(u) && u.session_id@ == sid && u.delta@ == d,
        },
{
    proof {
        reveal_strlit("agent_message_chunk");
        reveal_strlit("agent_thought_chunk");
        reveal_strlit("tool_call");
        reveal_strlit("tool_call_update");
    }
    let session_id = string_field(params, "sessionId")?;
    let update = params.get("update")?;
    let kind = string_field(update, "sessionUpdate")?;
    let delta = if str_eq(kind.as_str(), "agent_message_chunk") {
        TranscriptDelta::AgentMessage { text: content_text_opt(update.get("content")) }
    } else if str_eq(kind.as_str(), "agent_thought_chunk") {
        TranscriptDelta::Thought { text: content_text_opt(update.get("content")) }
    } else if str_eq(kind.as_str(), "tool_call") || str_eq(kind.as_str(), "tool_call_update") {
        TranscriptDelta::ToolCall {
            tool_call_id: string_field(update, "toolCallId")?,
            title: string_field(update, "title"),
            kind: string_field(update, "kind"),
            status: string_field(update, "status"),
            content: content_text_opt(update.get("content")),
        }
    } else {
        TranscriptDelta::Other { kind }
    };
    Some(SessionUpdate { session_id, delta })
}

pub open spec fn option_model(raw: JsonModel) -> Option<(Seq<char>, Seq<char>, Seq<char>)> {
    match string_field_model(raw, "optionId"@) {
        None => None,
        Some(id) => Some(
            (
                id,
                or_default(string_field_model(raw, "name"@), id),
                or_default(string_field_model(raw, "kind"@), "unknown"@),
            ),
        ),
    }
}

/// Every offered option, or `None` when any of them has no `optionId`.
pub open spec fn options_model(items: Seq<JsonModel>) -> Option<Seq<(Seq<char>, Seq<char>, Seq<char>)>>
    decreases items.len(),
{
    if items.len() == 0 {
        Some(Seq::empty())
    } else {
        match options_model(items.drop_last()) {
            None => None,
            Some(prev) => match option_model(items.last()) {
                None => None,
                Some(o) => Some(prev.push(o)),
            },
        }
    }
}

pub open spec fn option_view(o: PermissionOption) -> (Seq<char>, Seq<char>, Seq<char>) {
    (o.option_id@, o.name@, o.kind@)
}

/// A permission request as text: session, tool call, title, detail, options.
pub struct PermissionRequestModel {
    pub session_id: Seq<char>,
    pub tool_call_id: Seq<char>,
    pub title: Seq<char>,
    pub detail: Seq<char>,
    pub options: Seq<(Seq<char>, Seq<char>, Seq<char>)>,
}

impl View for PermissionRequest {
    type V = PermissionRequestModel;

    open spec fn view(&self) -> PermissionRequestModel {
        PermissionRequestModel {
            session_id: self.session_id@,
            tool_call_id: self.tool_call_id@,
            title: self.title@,
            detail: self.detail@,
            options: self.options@.map_values(|o: PermissionOption| option_view(o)),
        }
    }
}

/// The detail shown for a tool call: its content as text, or, when that is
/// blank, the raw input the agent attached, printed as JSON.
pub open spec fn permission_detail(tc: JsonModel) -> Seq<char> {
    let d = content_opt(model_get(tc, "content"@));
    if trimmed(d).len() == 0 {
        match model_get(tc, "rawInput"@) {
            Some(raw) => json_written(raw),
            None => d,
        }
    } else {
        d
    }
}

/// What a `session/request_permission` payload asks. `None` when it names no
/// session, carries no tool call, offers no option, or offers one without an
/// id.
pub open spec fn permission_request_model(p: JsonModel) -> Option<PermissionRequestModel> {
    match string_field_model(p, "sessionId"@) {
        None => None,
        Some(sid) => match model_get(p, "toolCall"@) {
            None => None,
            Some(tc) => match model_get(p, "options"@) {
                Some(JsonModel::Array(items)) => match options_model(items) {
                    Some(opts) => if opts.len() == 0 {
                        None
                    } else {
                        Some(
                            PermissionRequestModel {
                                session_id: sid,
                                tool_call_id: or_default(string_field_model(tc, "toolCallId"@), Seq::empty()),
                                title: or_default(
                                    string_field_model(tc, "title"@),
                                    "The agent requested permission"@,
                                ),
                                detail: permission_detail(tc),
                                options: opts,
                            },
                        )
                    },
                    None => None,
                },
                _ => None,
            },
        },
    }
}

/// Reads a `session/request_permission` payload. `None` means the request was
/// unanswerable as sent — no session, or no option to choose — and the caller
/// must refuse it rather than invent an answer.
pub fn parse_permission_request(params: &Json) -> (r: Option<PermissionRequest>)
    ensures
        match permission_request_model(params@) {
            None => r is None,
            Some(m) => r matches Some(req) && req@ == m,
        },
{
    let session_id = string_field(params, "sessionId")?;
    let tool_call = params.get("toolCall")?;
    let tool_call_id = match string_field(tool_call, "toolCallId") {
        Some(t) => t,
        None => String::new(),
    };
    let raw_options = params.get("options")?.as_array()?;
    proof { lemma_items_view(raw_options@); }
    let ghost iv = items_view(raw_options@);
    let mut options: Vec<PermissionOption> = Vec::new();
    let mut i: usize = 0;
    assert(iv.take(0) =~= Seq::<JsonModel>::empty());
    while i < raw_options.len()
        invariant
            i <= raw_options@.len(),
            iv == items_view(raw_options@),
            iv.len() == raw_options@.len(),
            string_field_model(params@, "sessionId"@) == Some(session_id@),
            model_get(params@, "toolCall"@) == Some(tool_call@),
            model_get(params@, "options"@) == Some(JsonModel::Array(iv)),
            forall|k: int| 0 <= k < iv.len() ==> #[trigger] iv[k] == json_view(raw_options@[k]),
            options_model(iv.take(i as int)) == Some(options@.map_values(|o: PermissionOption| option_view(o))),
        decreases raw_options@.len() - i,
    {
        let raw = &raw_options[i];
        assert(iv.take(i + 1).drop_last() =~= iv.take(i as int));
        let option_id = match string_field(raw, "optionId") {
            Some(id) => id,
            None => {
                proof {
                    assert(option_model(iv[i as int]) is None);
                    lemma_options_prefix_none(iv, (i + 1) as int);
                    assert(iv.take(iv.len() as int) =~= iv);
                    assert(options_model(iv.take(iv.len() as int)) is None);
                }
                return None;
            },
        };
        let name = match string_field(raw, "name") {
            Some(n) => n,
            None => option_id.clone(),
        };
        let kind = match string_field(raw, "kind") {
            Some(k) => k,
            None => "unknown".to_string(),
        };
        let ghost before = options@.map_values(|o: PermissionOption| option_view(o));
        options.push(PermissionOption { option_id, name, kind });
        assert(options@.map_values(|o: PermissionOption| option_view(o)) =~= before.push(
            option_view(options@[options@.len() - 1]),
        ));
        i = i + 1;
    }
    assert(iv.take(raw_options@.len() as int) =~= iv);
    if options.len() == 0 {
        return None;
    }
    let title = match string_field(tool_call, "title") {
        Some(t) => t,
        None => "The agent requested permission".to_string(),
    };
    let mut detail = content_text_opt(tool_call.get("content"));
    if crate::text::str_trim(detail.as_str()).unicode_len() == 0 {
        // Fall back to the raw input the agent attached, rendered as text. It
        // is displayed, never executed.
        if let Some(raw_input) = tool_call.get("rawInput") {
            detail = raw_input.to_text();
        }
    }
    Some(PermissionRequest { session_id, tool_call_id, title, detail, options })
}

/// Once a prefix lacks an option id, every longer prefix does too.
proof fn lemma_options_prefix_none(items: Seq<JsonModel>, n: int)
    requires
        0 < n <= items.len(),
        option_model(items[n - 1]) is None,
    ensures
        forall|k: int| n <= k <= items.len() ==> #[trigger] options_model(items.take(k)) is None,
{
    assert forall|k: int| n <= k <= items.len() implies #[trigger] options_model(items.take(k)) is None by {
        lemma_options_none_grows(items, n, k);
    }
}

proof fn lemma_options_none_grows(items: Seq<JsonModel>, n: int, k: int)
    requires
        0 < n <= k <= items.len(),
        option_model(items[n - 1]) is None,
    ensures
        options_model(items.take(k)) is None,
    decreases k - n,
{
    if k == n {
        assert(items.take(k).drop_last() =~= items.take(k - 1));
        assert(items.take(k).last() == items[n - 1]);
    } else {
        lemma_options_none_grows(items, n, k - 1);
        assert(items.take(k).drop_last() =~= items.take(k - 1));
    }
}

} // verus!
