//! Decoder for the line-delimited JSON event stream of an agent.
//!
//! Each line holds one JSON object tagged by its `type` member. A line is
//! decoded into a [`StreamEvent`] and mapped to the [`ParsedEvent`]s that the
//! executor acts on.

use vstd::prelude::*;
use crate::json::{
    as_array, as_bool, as_text, as_u64, clone_value, empty_object, error_message, field, is_null,
    is_number, json_of, jsons_of, member, number_u64, parse, parsed_json, text_member, Json,
};
use crate::state_machine::{StateEvent, StateEventView};
use crate::clock::fresh_id;
use crate::text::{
    concat2, concat3, contains, decimal_of, is_digit, lines, lines_of, opt_view, owned,
    seq_contains, split_first, split_first_of, starts_with, str_eq, strip_leading,
    strip_leading_of, trim, trim_of, u64_to_string, views,
};

verus! {

/// Why a line could not be turned into events.
#[derive(Debug)]
pub enum ParseError {
    /// The line is not a JSON document; the message is the decoder's.
    Json(String),
    /// Reading the stream failed.
    Io(String),
    /// The line is JSON but not an event of the stream.
    InvalidFormat(String),
}

impl ParseError {
    /// The error as a line of text.
    pub fn message(&self) -> (r: String)
        ensures
            r@ == match *self {
                ParseError::Json(m) => "JSON parse error: "@ + m@,
                ParseError::Io(m) => "IO error: "@ + m@,
                ParseError::InvalidFormat(m) => "Invalid event format: "@ + m@,
            },
    {
        match self {
            ParseError::Json(m) => concat2("JSON parse error: ", m.as_str()),
            ParseError::Io(m) => concat2("IO error: ", m.as_str()),
            ParseError::InvalidFormat(m) => concat2("Invalid event format: ", m.as_str()),
        }
    }
}

/// The `error` member of an error event.
#[derive(Debug)]
pub struct ErrorDetail {
    pub error_type: String,
    pub message: String,
}

/// The `message` member of a user event: the echo of what was sent.
#[derive(Debug)]
pub struct UserMessage {
    pub role: String,
    pub content: String,
}

/// The token counts of an assistant message.
#[derive(Debug, Clone, Copy, PartialEq, Eq, Structural)]
pub struct Usage {
    pub input_tokens: u64,
    pub output_tokens: u64,
    pub cache_creation_input_tokens: Option<u64>,
    pub cache_read_input_tokens: Option<u64>,
}

/// One block of an assistant message.
#[derive(Debug)]
#[allow(inconsistent_fields)]
pub enum ContentBlock {
    Text { text: String },
    Thinking { thinking: String, signature: String },
    ToolUse { id: String, name: String, input: serde_json::Value },
    ToolResult { tool_use_id: String, content: String, is_error: bool },
}

/// The mathematical content of a [`ContentBlock`].
#[allow(inconsistent_fields)]
pub enum ContentBlockView {
    Text { text: Seq<char> },
    Thinking { thinking: Seq<char>, signature: Seq<char> },
    ToolUse { id: Seq<char>, name: Seq<char>, input: Json },
    ToolResult { tool_use_id: Seq<char>, content: Seq<char>, is_error: bool },
}

impl View for ContentBlock {
    type V = ContentBlockView;

    open spec fn view(&self) -> ContentBlockView {
        match *self {
            ContentBlock::Text { text } => ContentBlockView::Text { text: text@ },
            ContentBlock::Thinking { thinking, signature } => ContentBlockView::Thinking {
                thinking: thinking@,
                signature: signature@,
            },
            ContentBlock::ToolUse { id, name, input } => ContentBlockView::ToolUse {
                id: id@,
                name: name@,
                input: json_of(input),
            },
            ContentBlock::ToolResult { tool_use_id, content, is_error } => ContentBlockView::ToolResult {
                tool_use_id: tool_use_id@,
                content: content@,
                is_error,
            },
        }
    }
}

/// The contents of a list of blocks.
pub open spec fn blocks_view(bs: Seq<ContentBlock>) -> Seq<ContentBlockView> {
    Seq::new(bs.len(), |i: int| bs[i]@)
}

/// The `message` member of an assistant event.
#[derive(Debug)]
pub struct AssistantMessage {
    pub id: String,
    pub msg_type: String,
    pub role: String,
    pub content: Vec<ContentBlock>,
    pub model: String,
    pub stop_reason: Option<String>,
    pub usage: Option<Usage>,
}

/// The mathematical content of an [`AssistantMessage`].
pub struct AssistantMessageView {
    pub id: Seq<char>,
    pub msg_type: Seq<char>,
    pub role: Seq<char>,
    pub content: Seq<ContentBlockView>,
    pub model: Seq<char>,
    pub stop_reason: Option<Seq<char>>,
    pub usage: Option<Usage>,
}

impl View for AssistantMessage {
    type V = AssistantMessageView;

    open spec fn view(&self) -> AssistantMessageView {
        AssistantMessageView {
            id: self.id@,
            msg_type: self.msg_type@,
            role: self.role@,
            content: blocks_view(self.content@),
            model: self.model@,
            stop_reason: opt_view(self.stop_reason),
            usage: self.usage,
        }
    }
}

/// One decoded event of the stream.
#[derive(Debug)]
#[allow(inconsistent_fields)]
pub enum StreamEvent {
    System {
        subtype: String,
        session_id: Option<String>,
        model: Option<String>,
        cwd: Option<String>,
        tools: Vec<String>,
        permission_mode: Option<String>,
    },
    User { message: UserMessage },
    Assistant { message: AssistantMessage },
    ToolUse { id: String, name: String, input: serde_json::Value },
    ToolResult { tool_use_id: String, content: String, is_error: bool },
    Result {
        subtype: Option<String>,
        result: Option<String>,
        is_error: bool,
        session_id: Option<String>,
        duration_ms: Option<u64>,
        duration_api_ms: Option<u64>,
        num_turns: Option<u32>,
        permission_denials: Vec<serde_json::Value>,
    },
    Error { error: ErrorDetail },
}

/// The mathematical content of a [`StreamEvent`].
#[allow(inconsistent_fields)]
pub enum StreamEventView {
    System {
        subtype: Seq<char>,
        session_id: Option<Seq<char>>,
        model: Option<Seq<char>>,
        cwd: Option<Seq<char>>,
        tools: Seq<Seq<char>>,
        permission_mode: Option<Seq<char>>,
    },
    User { role: Seq<char>, content: Seq<char> },
    Assistant { message: AssistantMessageView },
    ToolUse { id: Seq<char>, name: Seq<char>, input: Json },
    ToolResult { tool_use_id: Seq<char>, content: Seq<char>, is_error: bool },
    Result {
        subtype: Option<Seq<char>>,
        result: Option<Seq<char>>,
        is_error: bool,
        session_id: Option<Seq<char>>,
        duration_ms: Option<u64>,
        duration_api_ms: Option<u64>,
        num_turns: Option<u32>,
        permission_denials: Seq<Json>,
    },
    Error { error_type: Seq<char>, message: Seq<char> },
}

impl View for StreamEvent {
    type V = StreamEventView;

    open spec fn view(&self) -> StreamEventView {
        match *self {
            StreamEvent::System {
                subtype,
                session_id,
                model,
                cwd,
                tools,
                permission_mode,
            } => StreamEventView::System {
                subtype: subtype@,
                session_id: opt_view(session_id),
                model: opt_view(model),
                cwd: opt_view(cwd),
                tools: views(tools@),
                permission_mode: opt_view(permission_mode),
            },
            StreamEvent::User { message } => StreamEventView::User {
                role: message.role@,
                content: message.content@,
            },
            StreamEvent::Assistant { message } => StreamEventView::Assistant { message: message@ },
            StreamEvent::ToolUse { id, name, input } => StreamEventView::ToolUse {
                id: id@,
                name: name@,
                input: json_of(input),
            },
            StreamEvent::ToolResult { tool_use_id, content, is_error } => StreamEventView::ToolResult {
                tool_use_id: tool_use_id@,
                content: content@,
                is_error,
            },
            StreamEvent::Result {
                subtype,
                result,
                is_error,
                session_id,
                duration_ms,
                duration_api_ms,
                num_turns,
                permission_denials,
            } => StreamEventView::Result {
                subtype: opt_view(subtype),
                result: opt_view(result),
                is_error,
                session_id: opt_view(session_id),
                duration_ms,
                duration_api_ms,
                num_turns,
                permission_denials: jsons_of(permission_denials@),
            },
            StreamEvent::Error { error } => StreamEventView::Error {
                error_type: error.error_type@,
                message: error.message@,
            },
        }
    }
}

/// What the parser hands to the executor.
#[derive(Debug)]
pub enum ParsedEvent {
    /// An input for the state machine.
    StateChange(StateEvent),
    /// Text that the agent wrote.
    TextOutput(String),
    /// A tool call, or its result.
    ToolExecution { name: String, input: serde_json::Value, result: Option<String>, is_error: bool },
    /// Progress of the task.
    Progress { message: String, percentage: Option<u8> },
}

/// The mathematical content of a [`ParsedEvent`].
pub enum ParsedEventView {
    StateChange(StateEventView),
    TextOutput(Seq<char>),
    ToolExecution { name: Seq<char>, input: Json, result: Option<Seq<char>>, is_error: bool },
    Progress { message: Seq<char>, percentage: Option<u8> },
}

impl View for ParsedEvent {
    type V = ParsedEventView;

    open spec fn view(&self) -> ParsedEventView {
        match *self {
            ParsedEvent::StateChange(e) => ParsedEventView::StateChange(e@),
            ParsedEvent::TextOutput(t) => ParsedEventView::TextOutput(t@),
            ParsedEvent::ToolExecution { name, input, result, is_error } => {
                ParsedEventView::ToolExecution {
                    name: name@,
                    input: json_of(input),
                    result: opt_view(result),
                    is_error,
                }
            },
            ParsedEvent::Progress { message, percentage } => ParsedEventView::Progress {
                message: message@,
                percentage,
            },
        }
    }
}

/// The contents of a list of parsed events.
pub open spec fn events_view(es: Seq<ParsedEvent>) -> Seq<ParsedEventView> {
    Seq::new(es.len(), |i: int| es[i]@)
}

// ---------------------------------------------------------------------------
// The schema of the stream
// ---------------------------------------------------------------------------

/// An optional text member: absent and `null` both stand for no text. The
/// outer `None` marks a member of another type.
pub open spec fn optional_text(j: Json, key: Seq<char>) -> Option<Option<Seq<char>>> {
    match member(j, key) {
        None => Some(None),
        Some(Json::Null) => Some(None),
        Some(Json::Text(s)) => Some(Some(s)),
        Some(_) => None,
    }
}

/// A flag that defaults to `false` when absent. `None` marks a member that is
/// not a boolean.
pub open spec fn optional_flag(j: Json, key: Seq<char>) -> Option<bool> {
    match member(j, key) {
        None => Some(false),
        Some(Json::Bool(b)) => Some(b),
        Some(_) => None,
    }
}

/// A text that defaults to the empty text when absent. `None` marks a
/// member that is not a text.
pub open spec fn text_or_empty(j: Json, key: Seq<char>) -> Option<Seq<char>> {
    match member(j, key) {
        None => Some(Seq::empty()),
        Some(Json::Text(s)) => Some(s),
        Some(_) => None,
    }
}

/// A required unsigned number.
pub open spec fn required_u64(j: Json, key: Seq<char>) -> Option<u64> {
    match member(j, key) {
        Some(v) => number_u64(v),
        None => None,
    }
}

/// An optional unsigned number: absent and `null` both stand for none. The
/// outer `None` marks a member that is no unsigned integer.
pub open spec fn optional_u64(j: Json, key: Seq<char>) -> Option<Option<u64>> {
    match member(j, key) {
        None => Some(None),
        Some(Json::Null) => Some(None),
        Some(v) => match number_u64(v) {
            Some(n) => Some(Some(n)),
            None => None,
        },
    }
}

/// An optional unsigned number of at most 32 bits.
pub open spec fn optional_u32(j: Json, key: Seq<char>) -> Option<Option<u32>> {
    match optional_u64(j, key) {
        Some(Some(n)) => if n <= u32::MAX {
            Some(Some(n as u32))
        } else {
            None
        },
        Some(None) => Some(None),
        None => None,
    }
}

/// True for a member that may hold an amount: a number, `null`, or nothing.
pub open spec fn is_optional_number(j: Json, key: Seq<char>) -> bool {
    match member(j, key) {
        None => true,
        Some(Json::Null) => true,
        Some(Json::Number(_)) => true,
        Some(_) => false,
    }
}

/// The texts of a JSON array of texts.
pub open spec fn texts_of(items: Seq<Json>) -> Option<Seq<Seq<char>>> {
    if forall|i: int| 0 <= i < items.len() ==> (#[trigger] items[i]) is Text {
        Some(Seq::new(items.len(), |i: int| items[i]->Text_0))
    } else {
        None
    }
}

/// A list of texts that defaults to the empty list when absent.
pub open spec fn text_list_or_empty(j: Json, key: Seq<char>) -> Option<Seq<Seq<char>>> {
    match member(j, key) {
        None => Some(Seq::empty()),
        Some(Json::Array(items)) => texts_of(items),
        Some(_) => None,
    }
}

/// A list of values that defaults to the empty list when absent.
pub open spec fn list_or_empty(j: Json, key: Seq<char>) -> Option<Seq<Json>> {
    match member(j, key) {
        None => Some(Seq::empty()),
        Some(Json::Array(items)) => Some(items),
        Some(_) => None,
    }
}

/// The token counts that a JSON object holds.
pub open spec fn decoded_usage(j: Json) -> Option<Usage> {
    match (
        required_u64(j, "input_tokens"@),
        required_u64(j, "output_tokens"@),
        optional_u64(j, "cache_creation_input_tokens"@),
        optional_u64(j, "cache_read_input_tokens"@),
    ) {
        (
            Some(input_tokens),
            Some(output_tokens),
            Some(cache_creation_input_tokens),
            Some(cache_read_input_tokens),
        ) => Some(
            Usage {
                input_tokens,
                output_tokens,
                cache_creation_input_tokens,
                cache_read_input_tokens,
            },
        ),
        _ => None,
    }
}

/// Optional token counts: absent and `null` both stand for none.
pub open spec fn optional_usage(j: Json, key: Seq<char>) -> Option<Option<Usage>> {
    match member(j, key) {
        None => Some(None),
        Some(Json::Null) => Some(None),
        Some(v) => match decoded_usage(v) {
            Some(u) => Some(Some(u)),
            None => None,
        },
    }
}

/// The block that one element of `content` decodes to: an object whose
/// `type` names one of the four kinds of block and whose members have the
/// types that the kind asks for.
pub open spec fn decoded_block(j: Json) -> Option<ContentBlockView> {
    match text_member(j, "type"@) {
        None => None,
        Some(t) => if t == "text"@ {
            match text_member(j, "text"@) {
                Some(text) => Some(ContentBlockView::Text { text }),
                None => None,
            }
        } else if t == "thinking"@ {
            match (text_member(j, "thinking"@), text_or_empty(j, "signature"@)) {
                (Some(thinking), Some(signature)) => Some(
                    ContentBlockView::Thinking { thinking, signature },
                ),
                _ => None,
            }
        } else if t == "tool_use"@ {
            match (text_member(j, "id"@), text_member(j, "name"@), member(j, "input"@)) {
                (Some(id), Some(name), Some(input)) => Some(
                    ContentBlockView::ToolUse { id, name, input },
                ),
                _ => None,
            }
        } else if t == "tool_result"@ {
            match (
                text_member(j, "tool_use_id"@),
                text_member(j, "content"@),
                optional_flag(j, "is_error"@),
            ) {
                (Some(tool_use_id), Some(content), Some(is_error)) => Some(
                    ContentBlockView::ToolResult { tool_use_id, content, is_error },
                ),
                _ => None,
            }
        } else {
            None
        },
    }
}

/// The blocks that the elements of `content` decode to, if all of them
/// decode.
pub open spec fn decoded_blocks(items: Seq<Json>) -> Option<Seq<ContentBlockView>> {
    if forall|i: int| 0 <= i < items.len() ==> (#[trigger] decoded_block(items[i])) is Some {
        Some(Seq::new(items.len(), |i: int| decoded_block(items[i]).unwrap()))
    } else {
        None
    }
}

/// The blocks of the array member `content`.
pub open spec fn content_blocks(m: Json) -> Option<Seq<ContentBlockView>> {
    match member(m, "content"@) {
        Some(Json::Array(items)) => decoded_blocks(items),
        _ => None,
    }
}

/// The assistant message that a JSON object holds.
pub open spec fn decoded_message(m: Json) -> Option<AssistantMessageView> {
    match (
        text_member(m, "id"@),
        text_member(m, "type"@),
        text_member(m, "role"@),
        content_blocks(m),
        text_member(m, "model"@),
        optional_text(m, "stop_reason"@),
        optional_usage(m, "usage"@),
    ) {
        (
            Some(id),
            Some(msg_type),
            Some(role),
            Some(content),
            Some(model),
            Some(stop_reason),
            Some(usage),
        ) => Some(AssistantMessageView { id, msg_type, role, content, model, stop_reason, usage }),
        _ => None,
    }
}

pub open spec fn decoded_assistant(j: Json) -> Option<StreamEventView> {
    match member(j, "message"@) {
        Some(m) => match decoded_message(m) {
            Some(message) => Some(StreamEventView::Assistant { message }),
            None => None,
        },
        None => None,
    }
}

pub open spec fn decoded_user(j: Json) -> Option<StreamEventView> {
    match member(j, "message"@) {
        Some(m) => match (text_member(m, "role"@), text_member(m, "content"@)) {
            (Some(role), Some(content)) => Some(StreamEventView::User { role, content }),
            _ => None,
        },
        None => None,
    }
}

pub open spec fn decoded_system(j: Json) -> Option<StreamEventView> {
    match (
        text_member(j, "subtype"@),
        optional_text(j, "session_id"@),
        optional_text(j, "model"@),
        optional_text(j, "cwd"@),
        text_list_or_empty(j, "tools"@),
        optional_text(j, "permission_mode"@),
    ) {
        (
            Some(subtype),
            Some(session_id),
            Some(model),
            Some(cwd),
            Some(tools),
            Some(permission_mode),
        ) => Some(
            StreamEventView::System { subtype, session_id, model, cwd, tools, permission_mode },
        ),
        _ => None,
    }
}

pub open spec fn decoded_tool_use(j: Json) -> Option<StreamEventView> {
    match (text_member(j, "id"@), text_member(j, "name"@), member(j, "input"@)) {
        (Some(id), Some(name), Some(input)) => Some(StreamEventView::ToolUse { id, name, input }),
        _ => None,
    }
}

pub open spec fn decoded_tool_result(j: Json) -> Option<StreamEventView> {
    match (
        text_member(j, "tool_use_id"@),
        text_member(j, "content"@),
        optional_flag(j, "is_error"@),
    ) {
        (Some(tool_use_id), Some(content), Some(is_error)) => Some(
            StreamEventView::ToolResult { tool_use_id, content, is_error },
        ),
        _ => None,
    }
}

/// The timing members of a result event.
pub open spec fn decoded_timing(j: Json) -> Option<(Option<u64>, Option<u64>, Option<u32>)> {
    match (
        optional_u64(j, "duration_ms"@),
        optional_u64(j, "duration_api_ms"@),
        optional_u32(j, "num_turns"@),
    ) {
        (Some(a), Some(b), Some(c)) => Some((a, b, c)),
        _ => None,
    }
}

pub open spec fn decoded_result(j: Json) -> Option<StreamEventView> {
    match (
        optional_text(j, "subtype"@),
        optional_text(j, "result"@),
        optional_flag(j, "is_error"@),
        optional_text(j, "session_id"@),
        decoded_timing(j),
        list_or_empty(j, "permission_denials"@),
    ) {
        (
            Some(subtype),
            Some(result),
            Some(is_error),
            Some(session_id),
            Some(timing),
            Some(permission_denials),
        ) => if is_optional_number(j, "cost_usd"@) && is_optional_number(j, "total_cost_usd"@) {
            Some(
                StreamEventView::Result {
                    subtype,
                    result,
                    is_error,
                    session_id,
                    duration_ms: timing.0,
                    duration_api_ms: timing.1,
                    num_turns: timing.2,
                    permission_denials,
                },
            )
        } else {
            None
        },
        _ => None,
    }
}

pub open spec fn decoded_error(j: Json) -> Option<StreamEventView> {
    match member(j, "error"@) {
        Some(e) => match (text_member(e, "type"@), text_member(e, "message"@)) {
            (Some(error_type), Some(message)) => Some(
                StreamEventView::Error { error_type, message },
            ),
            _ => None,
        },
        None => None,
    }
}

/// The event that a JSON value decodes to: an object whose `type` member
/// names one of the seven kinds and whose members have the types that the
/// kind asks for. Members that no kind asks for are passed over. `None` for
/// everything else.
pub open spec fn decoded_event(j: Json) -> Option<StreamEventView> {
    match text_member(j, "type"@) {
        None => None,
        Some(t) => if t == "system"@ {
            decoded_system(j)
        } else if t == "user"@ {
            decoded_user(j)
        } else if t == "assistant"@ {
            decoded_assistant(j)
        } else if t == "tool_use"@ {
            decoded_tool_use(j)
        } else if t == "tool_result"@ {
            decoded_tool_result(j)
        } else if t == "result"@ {
            decoded_result(j)
        } else if t == "error"@ {
            decoded_error(j)
        } else {
            None
        },
    }
}

fn read_text(v: &serde_json::Value, key: &str) -> (r: Option<String>)
    ensures
        opt_view(r) == text_member(json_of(*v), key@),
{
    match field(v, key) {
        Some(m) => match as_text(m) {
            Some(s) => Some(owned(s)),
            None => None,
        },
        None => None,
    }
}

/// The outer `Err` marks a member of the wrong type.
fn read_optional_text(v: &serde_json::Value, key: &str) -> (r: Result<Option<String>, ()>)
    ensures
        r is Ok == optional_text(json_of(*v), key@) is Some,
        r matches Ok(o) ==> Some(opt_view(o)) == optional_text(json_of(*v), key@),
{
    match field(v, key) {
        None => Ok(None),
        Some(m) => {
            if is_null(m) {
                Ok(None)
            } else {
                match as_text(m) {
                    Some(s) => Ok(Some(owned(s))),
                    None => Err(()),
                }
            }
        },
    }
}

fn read_text_or_empty(v: &serde_json::Value, key: &str) -> (r: Option<String>)
    ensures
        opt_view(r) == text_or_empty(json_of(*v), key@),
{
    match field(v, key) {
        None => Some(String::new()),
        Some(m) => match as_text(m) {
            Some(s) => Some(owned(s)),
            None => None,
        },
    }
}

fn read_optional_flag(v: &serde_json::Value, key: &str) -> (r: Option<bool>)
    ensures
        r == optional_flag(json_of(*v), key@),
{
    match field(v, key) {
        None => Some(false),
        Some(m) => as_bool(m),
    }
}

fn read_required_u64(v: &serde_json::Value, key: &str) -> (r: Option<u64>)
    ensures
        r == required_u64(json_of(*v), key@),
{
    match field(v, key) {
        Some(m) => as_u64(m),
        None => None,
    }
}

fn read_optional_u64(v: &serde_json::Value, key: &str) -> (r: Result<Option<u64>, ()>)
    ensures
        r is Ok == optional_u64(json_of(*v), key@) is Some,
        r matches Ok(o) ==> Some(o) == optional_u64(json_of(*v), key@),
{
    match field(v, key) {
        None => Ok(None),
        Some(m) => {
            if is_null(m) {
                Ok(None)
            } else {
                match as_u64(m) {
                    Some(n) => Ok(Some(n)),
                    None => Err(()),
                }
            }
        },
    }
}

fn read_optional_u32(v: &serde_json::Value, key: &str) -> (r: Result<Option<u32>, ()>)
    ensures
        r is Ok == optional_u32(json_of(*v), key@) is Some,
        r matches Ok(o) ==> Some(o) == optional_u32(json_of(*v), key@),
{
    match read_optional_u64(v, key) {
        Ok(Some(n)) => {
            if n <= u32::MAX as u64 {
                Ok(Some(n as u32))
            } else {
                Err(())
            }
        },
        Ok(None) => Ok(None),
        Err(e) => Err(e),
    }
}

fn check_optional_number(v: &serde_json::Value, key: &str) -> (r: bool)
    ensures
        r == is_optional_number(json_of(*v), key@),
{
    match field(v, key) {
        None => true,
        Some(m) => is_null(m) || is_number(m),
    }
}

fn read_text_list(v: &serde_json::Value, key: &str) -> (r: Option<Vec<String>>)
    ensures
        r is Some == text_list_or_empty(json_of(*v), key@) is Some,
        r matches Some(l) ==> Some(views(l@)) == text_list_or_empty(json_of(*v), key@),
{
    let mut out: Vec<String> = Vec::new();
    let items = match field(v, key) {
        None => {
            proof {
                assert(views(out@) =~= Seq::<Seq<char>>::empty());
            }
            return Some(out);
        },
        Some(m) => match as_array(m) {
            Some(items) => items,
            None => {
                return None;
            },
        },
    };
    let mut i: usize = 0;
    while i < items.len()
        invariant
            0 <= i <= items.len(),
            out@.len() == i,
            member(json_of(*v), key@) == Some(Json::Array(jsons_of(items@))),
            forall|k: int| 0 <= k < i ==> Json::Text(out@[k]@) == #[trigger] jsons_of(items@)[k],
        decreases items.len() - i,
    {
        match as_text(&items[i]) {
            Some(s) => {
                out.push(owned(s));
            },
            None => {
                proof {
                    assert(!(jsons_of(items@)[i as int] is Text));
                }
                return None;
            },
        }
        i = i + 1;
    }
    proof {
        let js = jsons_of(items@);
        assert forall|k: int| 0 <= k < js.len() implies (#[trigger] js[k]) is Text by {
            assert(Json::Text(out@[k]@) == js[k]);
        }
        assert(views(out@) =~= Seq::new(js.len(), |i: int| js[i]->Text_0));
    }
    Some(out)
}

fn read_list(v: &serde_json::Value, key: &str) -> (r: Option<Vec<serde_json::Value>>)
    ensures
        r is Some == list_or_empty(json_of(*v), key@) is Some,
        r matches Some(l) ==> Some(jsons_of(l@)) == list_or_empty(json_of(*v), key@),
{
    let mut out: Vec<serde_json::Value> = Vec::new();
    let items = match field(v, key) {
        None => {
            proof {
                assert(jsons_of(out@) =~= Seq::<Json>::empty());
            }
            return Some(out);
        },
        Some(m) => match as_array(m) {
            Some(items) => items,
            None => {
                return None;
            },
        },
    };
    let mut i: usize = 0;
    while i < items.len()
        invariant
            0 <= i <= items.len(),
            out@.len() == i,
            member(json_of(*v), key@) == Some(Json::Array(jsons_of(items@))),
            forall|k: int| 0 <= k < i ==> json_of(#[trigger] out@[k]) == json_of(items@[k]),
        decreases items.len() - i,
    {
        out.push(clone_value(&items[i]));
        i = i + 1;
    }
    proof {
        assert(jsons_of(out@) =~= jsons_of(items@));
    }
    Some(out)
}

fn decode_usage(v: &serde_json::Value) -> (r: Option<Usage>)
    ensures
        r == decoded_usage(json_of(*v)),
{
    let input_tokens = read_required_u64(v, "input_tokens");
    let output_tokens = read_required_u64(v, "output_tokens");
    let creation = read_optional_u64(v, "cache_creation_input_tokens");
    let read = read_optional_u64(v, "cache_read_input_tokens");
    match (input_tokens, output_tokens, creation, read) {
        (
            Some(input_tokens),
            Some(output_tokens),
            Ok(cache_creation_input_tokens),
            Ok(cache_read_input_tokens),
        ) => Some(
            Usage {
                input_tokens,
                output_tokens,
                cache_creation_input_tokens,
                cache_read_input_tokens,
            },
        ),
        _ => None,
    }
}

fn read_optional_usage(v: &serde_json::Value, key: &str) -> (r: Result<Option<Usage>, ()>)
    ensures
        r is Ok == optional_usage(json_of(*v), key@) is Some,
        r matches Ok(o) ==> Some(o) == optional_usage(json_of(*v), key@),
{
    match field(v, key) {
        None => Ok(None),
        Some(m) => {
            if is_null(m) {
                Ok(None)
            } else {
                match decode_usage(m) {
                    Some(u) => Ok(Some(u)),
                    None => Err(()),
                }
            }
        },
    }
}

/// The view of an optional block.
pub open spec fn opt_block_view(o: Option<ContentBlock>) -> Option<ContentBlockView> {
    match o {
        Some(b) => Some(b@),
        None => None,
    }
}

/// The view of an optional event.
pub open spec fn opt_event_view(o: Option<StreamEvent>) -> Option<StreamEventView> {
    match o {
        Some(e) => Some(e@),
        None => None,
    }
}

fn decode_block(v: &serde_json::Value) -> (r: Option<ContentBlock>)
    ensures
        opt_block_view(r) == decoded_block(json_of(*v)),
{
    let t = match read_text(v, "type") {
        Some(t) => t,
        None => {
            return None;
        },
    };
    if str_eq(t.as_str(), "text") {
        match read_text(v, "text") {
            Some(text) => Some(ContentBlock::Text { text }),
            None => None,
        }
    } else if str_eq(t.as_str(), "thinking") {
        let thinking = read_text(v, "thinking");
        let signature = read_text_or_empty(v, "signature");
        match (thinking, signature) {
            (Some(thinking), Some(signature)) => Some(ContentBlock::Thinking { thinking, signature }),
            _ => None,
        }
    } else if str_eq(t.as_str(), "tool_use") {
        let id = read_text(v, "id");
        let name = read_text(v, "name");
        match (id, name, field(v, "input")) {
            (Some(id), Some(name), Some(input)) => Some(
                ContentBlock::ToolUse { id, name, input: clone_value(input) },
            ),
            _ => None,
        }
    } else if str_eq(t.as_str(), "tool_result") {
        let tool_use_id = read_text(v, "tool_use_id");
        let content = read_text(v, "content");
        let is_error = read_optional_flag(v, "is_error");
        match (tool_use_id, content, is_error) {
            (Some(tool_use_id), Some(content), Some(is_error)) => Some(
                ContentBlock::ToolResult { tool_use_id, content, is_error },
            ),
            _ => None,
        }
    } else {
        None
    }
}

fn decode_blocks(items: &Vec<serde_json::Value>) -> (r: Option<Vec<ContentBlock>>)
    ensures
        r is Some == decoded_blocks(jsons_of(items@)) is Some,
        r matches Some(bs) ==> Some(blocks_view(bs@)) == decoded_blocks(jsons_of(items@)),
{
    let mut out: Vec<ContentBlock> = Vec::new();
    let mut i: usize = 0;
    while i < items.len()
        invariant
            0 <= i <= items.len(),
            out@.len() == i,
            forall|k: int|
                0 <= k < i ==> Some(out@[k]@) == #[trigger] decoded_block(jsons_of(items@)[k]),
        decreases items.len() - i,
    {
        match decode_block(&items[i]) {
            Some(b) => {
                out.push(b);
            },
            None => {
                proof {
                    assert(decoded_block(jsons_of(items@)[i as int]) is None);
                }
                return None;
            },
        }
        i = i + 1;
    }
    proof {
        let js = jsons_of(items@);
        assert(blocks_view(out@) =~= Seq::new(js.len(), |i: int| decoded_block(js[i]).unwrap()));
    }
    Some(out)
}

fn read_content(m: &serde_json::Value) -> (r: Option<Vec<ContentBlock>>)
    ensures
        r is Some == content_blocks(json_of(*m)) is Some,
        r matches Some(bs) ==> Some(blocks_view(bs@)) == content_blocks(json_of(*m)),
{
    match field(m, "content") {
        None => None,
        Some(c) => match as_array(c) {
            None => None,
            Some(items) => decode_blocks(items),
        },
    }
}

fn decode_message(m: &serde_json::Value) -> (r: Option<AssistantMessage>)
    ensures
        r is Some == decoded_message(json_of(*m)) is Some,
        r matches Some(a) ==> Some(a@) == decoded_message(json_of(*m)),
{
    let id = read_text(m, "id");
    let msg_type = read_text(m, "type");
    let role = read_text(m, "role");
    let content = read_content(m);
    let model = read_text(m, "model");
    let stop_reason = read_optional_text(m, "stop_reason");
    let usage = read_optional_usage(m, "usage");
    match (id, msg_type, role, content, model, stop_reason, usage) {
        (
            Some(id),
            Some(msg_type),
            Some(role),
            Some(content),
            Some(model),
            Ok(stop_reason),
            Ok(usage),
        ) => Some(AssistantMessage { id, msg_type, role, content, model, stop_reason, usage }),
        _ => None,
    }
}

fn decode_assistant(v: &serde_json::Value) -> (r: Option<StreamEvent>)
    ensures
        opt_event_view(r) == decoded_assistant(json_of(*v)),
{
    match field(v, "message") {
        None => None,
        Some(m) => match decode_message(m) {
            Some(message) => Some(StreamEvent::Assistant { message }),
            None => None,
        },
    }
}

fn decode_user(v: &serde_json::Value) -> (r: Option<StreamEvent>)
    ensures
        opt_event_view(r) == decoded_user(json_of(*v)),
{
    match field(v, "message") {
        None => None,
        Some(m) => {
            let role = read_text(m, "role");
            let content = read_text(m, "content");
            match (role, content) {
                (Some(role), Some(content)) => Some(
                    StreamEvent::User { message: UserMessage { role, content } },
                ),
                _ => None,
            }
        },
    }
}

fn decode_system(v: &serde_json::Value) -> (r: Option<StreamEvent>)
    ensures
        opt_event_view(r) == decoded_system(json_of(*v)),
{
    let subtype = read_text(v, "subtype");
    let session_id = read_optional_text(v, "session_id");
    let model = read_optional_text(v, "model");
    let cwd = read_optional_text(v, "cwd");
    let tools = read_text_list(v, "tools");
    let permission_mode = read_optional_text(v, "permission_mode");
    match (subtype, session_id, model, cwd, tools, permission_mode) {
        (
            Some(subtype),
            Ok(session_id),
            Ok(model),
            Ok(cwd),
            Some(tools),
            Ok(permission_mode),
        ) => Some(StreamEvent::System { subtype, session_id, model, cwd, tools, permission_mode }),
        _ => None,
    }
}

fn decode_tool_use(v: &serde_json::Value) -> (r: Option<StreamEvent>)
    ensures
        opt_event_view(r) == decoded_tool_use(json_of(*v)),
{
    let id = read_text(v, "id");
    let name = read_text(v, "name");
    match (id, name, field(v, "input")) {
        (Some(id), Some(name), Some(input)) => Some(
            StreamEvent::ToolUse { id, name, input: clone_value(input) },
        ),
        _ => None,
    }
}

fn decode_tool_result(v: &serde_json::Value) -> (r: Option<StreamEvent>)
    ensures
        opt_event_view(r) == decoded_tool_result(json_of(*v)),
{
    let tool_use_id = read_text(v, "tool_use_id");
    let content = read_text(v, "content");
    let is_error = read_optional_flag(v, "is_error");
    match (tool_use_id, content, is_error) {
        (Some(tool_use_id), Some(content), Some(is_error)) => Some(
            StreamEvent::ToolResult { tool_use_id, content, is_error },
        ),
        _ => None,
    }
}

fn decode_timing(v: &serde_json::Value) -> (r: Option<(Option<u64>, Option<u64>, Option<u32>)>)
    ensures
        r == decoded_timing(json_of(*v)),
{
    let a = read_optional_u64(v, "duration_ms");
    let b = read_optional_u64(v, "duration_api_ms");
    let c = read_optional_u32(v, "num_turns");
    match (a, b, c) {
        (Ok(a), Ok(b), Ok(c)) => Some((a, b, c)),
        _ => None,
    }
}

fn decode_result(v: &serde_json::Value) -> (r: Option<StreamEvent>)
    ensures
        opt_event_view(r) == decoded_result(json_of(*v)),
{
    let subtype = read_optional_text(v, "subtype");
    let result = read_optional_text(v, "result");
    let is_error = read_optional_flag(v, "is_error");
    let session_id = read_optional_text(v, "session_id");
    let timing = decode_timing(v);
    let permission_denials = read_list(v, "permission_denials");
    let amounts = check_optional_number(v, "cost_usd") && check_optional_number(v, "total_cost_usd");
    match (subtype, result, is_error, session_id, timing, permission_denials) {
        (
            Ok(subtype),
            Ok(result),
            Some(is_error),
            Ok(session_id),
            Some(timing),
            Some(permission_denials),
        ) => {
            if amounts {
                Some(
                    StreamEvent::Result {
                        subtype,
                        result,
                        is_error,
                        session_id,
                        duration_ms: timing.0,
                        duration_api_ms: timing.1,
                        num_turns: timing.2,
                        permission_denials,
                    },
                )
            } else {
                None
            }
        },
        _ => None,
    }
}

fn decode_error(v: &serde_json::Value) -> (r: Option<StreamEvent>)
    ensures
        opt_event_view(r) == decoded_error(json_of(*v)),
{
    match field(v, "error") {
        None => None,
        Some(e) => {
            let error_type = read_text(e, "type");
            let message = read_text(e, "message");
            match (error_type, message) {
                (Some(error_type), Some(message)) => Some(
                    StreamEvent::Error { error: ErrorDetail { error_type, message } },
                ),
                _ => None,
            }
        },
    }
}

/// Decodes one JSON value into the event it stands for.
pub fn decode_event(v: &serde_json::Value) -> (r: Option<StreamEvent>)
    ensures
        opt_event_view(r) == decoded_event(json_of(*v)),
{
    match read_text(v, "type") {
        None => None,
        Some(t) => {
            if str_eq(t.as_str(), "system") {
                decode_system(v)
            } else if str_eq(t.as_str(), "user") {
                decode_user(v)
            } else if str_eq(t.as_str(), "assistant") {
                decode_assistant(v)
            } else if str_eq(t.as_str(), "tool_use") {
                decode_tool_use(v)
            } else if str_eq(t.as_str(), "tool_result") {
                decode_tool_result(v)
            } else if str_eq(t.as_str(), "result") {
                decode_result(v)
            } else if str_eq(t.as_str(), "error") {
                decode_error(v)
            } else {
                None
            }
        },
    }
}

// ---------------------------------------------------------------------------
// The event mapping
// ---------------------------------------------------------------------------

/// True when the content of a failed tool result asks for approval.
pub open spec fn is_permission_text(content: Seq<char>) -> bool {
    seq_contains(content, "requires approval"@) || seq_contains(content, "Do you want to proceed"@)
        || seq_contains(content, "permission denied"@) || seq_contains(content, "not allowed"@)
}

/// What the parser remembers between lines: the most recent tool call.
pub struct ParserMemory {
    pub tool_id: Option<Seq<char>>,
    pub tool_name: Option<Seq<char>>,
    pub session_id: Option<Seq<char>>,
}

/// The tool name that a result is attributed to.
pub open spec fn attributed_tool(m: ParserMemory) -> Seq<char> {
    match m.tool_name {
        Some(n) => n,
        None => "unknown"@,
    }
}

/// The text events of an assistant message: one per non-empty text block, in
/// order.
pub open spec fn text_outputs(content: Seq<ContentBlockView>) -> Seq<ParsedEventView>
    decreases content.len(),
{
    if content.len() == 0 {
        Seq::empty()
    } else {
        let rest = text_outputs(content.drop_last());
        match content.last() {
            ContentBlockView::Text { text } => if text.len() > 0 {
                rest.push(ParsedEventView::TextOutput(text))
            } else {
                rest
            },
            _ => rest,
        }
    }
}

/// How an optional duration is written in a progress message.
pub open spec fn duration_text(d: Option<u64>) -> Seq<char> {
    match d {
        Some(n) => "Some("@ + decimal_of(n as nat) + ")"@,
        None => "None"@,
    }
}

/// The events that a decoded event gives rise to.
pub open spec fn mapped_events(m: ParserMemory, e: StreamEventView) -> Seq<ParsedEventView> {
    match e {
        StreamEventView::System { subtype, .. } => if subtype == "init"@ {
            seq![ParsedEventView::StateChange(StateEventView::Initialized)]
        } else {
            Seq::empty()
        },
        StreamEventView::User { .. } => Seq::empty(),
        StreamEventView::Assistant { message } => if message.content.len() == 0 {
            Seq::empty()
        } else {
            seq![
                ParsedEventView::StateChange(StateEventView::TaskStarted { prompt: Seq::empty() }),
            ] + text_outputs(message.content)
        },
        StreamEventView::ToolUse { id, name, input } => seq![
            ParsedEventView::StateChange(StateEventView::ToolUseStarted { tool_name: name }),
            ParsedEventView::ToolExecution { name, input, result: None, is_error: false },
        ],
        StreamEventView::ToolResult { tool_use_id, content, is_error } => if is_error
            && is_permission_text(content) {
            seq![
                ParsedEventView::StateChange(
                    StateEventView::PermissionRequired {
                        tool_name: attributed_tool(m),
                        tool_input: Json::Object(Map::empty()),
                        request_id: tool_use_id,
                    },
                ),
            ]
        } else {
            let done = ParsedEventView::StateChange(
                StateEventView::ToolUseCompleted { tool_name: attributed_tool(m), success: !is_error },
            );
            let report = ParsedEventView::ToolExecution {
                name: attributed_tool(m),
                input: Json::Object(Map::empty()),
                result: Some(content),
                is_error,
            };
            if is_error {
                seq![
                    done,
                    ParsedEventView::StateChange(
                        StateEventView::ErrorOccurred { message: content, recoverable: true },
                    ),
                    report,
                ]
            } else {
                seq![done, report]
            }
        },
        StreamEventView::Result { subtype, result, is_error, duration_ms, .. } => {
            let output = match result {
                Some(r) => r,
                None => Seq::empty(),
            };
            if is_error || subtype == Some("error"@) {
                seq![
                    ParsedEventView::StateChange(
                        StateEventView::ErrorOccurred { message: output, recoverable: true },
                    ),
                    ParsedEventView::Progress {
                        message: "Error after "@ + duration_text(duration_ms) + "ms"@,
                        percentage: Some(0u8),
                    },
                ]
            } else {
                seq![
                    ParsedEventView::StateChange(StateEventView::TaskCompleted { output }),
                    ParsedEventView::Progress {
                        message: "Completed in "@ + duration_text(duration_ms) + "ms"@,
                        percentage: Some(100u8),
                    },
                ]
            }
        },
        StreamEventView::Error { error_type, message } => seq![
            ParsedEventView::StateChange(
                StateEventView::ErrorOccurred {
                    message,
                    recoverable: !seq_contains(error_type, "fatal"@),
                },
            ),
        ],
    }
}

/// What the parser remembers after a decoded event: a tool call is
/// remembered until the result that carries its id arrives, unless that
/// result asks for approval; the session id of the first `init` is kept.
pub open spec fn memory_after(m: ParserMemory, e: StreamEventView) -> ParserMemory {
    match e {
        StreamEventView::System { subtype, session_id, .. } => if subtype == "init"@
            && m.session_id is None {
            ParserMemory { session_id, ..m }
        } else {
            m
        },
        StreamEventView::ToolUse { id, name, .. } => ParserMemory {
            tool_id: Some(id),
            tool_name: Some(name),
            ..m
        },
        StreamEventView::ToolResult { tool_use_id, content, is_error } => if is_error
            && is_permission_text(content) {
            m
        } else if m.tool_id == Some(tool_use_id) {
            ParserMemory { tool_id: None, tool_name: None, ..m }
        } else {
            m
        },
        _ => m,
    }
}

/// The outcome of one line, over models: the events, or the kind of failure.
pub enum LineOutcome {
    Events(Seq<ParsedEventView>),
    NotJson,
    NotAnEvent,
}

/// What one line of the stream means to a parser that remembers `m`.
pub open spec fn line_outcome(m: ParserMemory, line: Seq<char>) -> LineOutcome {
    let t = trim_of(line);
    if t.len() == 0 {
        LineOutcome::Events(Seq::empty())
    } else {
        match parsed_json(t) {
            None => LineOutcome::NotJson,
            Some(j) => match decoded_event(j) {
                None => LineOutcome::NotAnEvent,
                Some(e) => LineOutcome::Events(mapped_events(m, e)),
            },
        }
    }
}

/// What the parser remembers after one line: a line that fails or is blank
/// changes nothing.
pub open spec fn memory_after_line(m: ParserMemory, line: Seq<char>) -> ParserMemory {
    let t = trim_of(line);
    if t.len() == 0 {
        m
    } else {
        match parsed_json(t) {
            None => m,
            Some(j) => match decoded_event(j) {
                None => m,
                Some(e) => memory_after(m, e),
            },
        }
    }
}

/// The parser of one event stream.
#[derive(Debug)]
pub struct StreamParser {
    current_tool_id: Option<String>,
    current_tool_name: Option<String>,
    session_id: Option<String>,
}

fn duration_string(d: Option<u64>) -> (r: String)
    ensures
        r@ == duration_text(d),
{
    match d {
        Some(n) => concat3("Some(", u64_to_string(n).as_str(), ")"),
        None => owned("None"),
    }
}

fn collect_text_outputs(content: &Vec<ContentBlock>, events: &mut Vec<ParsedEvent>)
    ensures
        events_view(final(events)@) == events_view(old(events)@) + text_outputs(blocks_view(content@)),
{
    let ghost start = events_view(events@);
    let mut i: usize = 0;
    proof {
        assert(blocks_view(content@).take(0) =~= Seq::empty());
        assert(events_view(events@) =~= start + text_outputs(blocks_view(content@).take(0)));
    }
    while i < content.len()
        invariant
            0 <= i <= content.len(),
            events_view(events@) == start + text_outputs(blocks_view(content@).take(i as int)),
        decreases content.len() - i,
    {
        let ghost before = events_view(events@);
        proof {
            let next = blocks_view(content@).take(i as int + 1);
            assert(next.drop_last() =~= blocks_view(content@).take(i as int));
            assert(next.last() == content@[i as int]@);
        }
        match &content[i] {
            ContentBlock::Text { text } => {
                if !text.as_str().is_empty() {
                    events.push(ParsedEvent::TextOutput(text.clone()));
                    proof {
                        assert(events_view(events@) =~= before.push(
                            ParsedEventView::TextOutput(text@),
                        ));
                    }
                }
            },
            _ => {},
        }
        proof {
            assert(events_view(events@) =~= start + text_outputs(
                blocks_view(content@).take(i as int + 1),
            ));
        }
        i = i + 1;
    }
    proof {
        assert(blocks_view(content@).take(content.len() as int) =~= blocks_view(content@));
    }
}

impl StreamParser {
    /// What the parser remembers.
    pub closed spec fn memory(&self) -> ParserMemory {
        ParserMemory {
            tool_id: opt_view(self.current_tool_id),
            tool_name: opt_view(self.current_tool_name),
            session_id: opt_view(self.session_id),
        }
    }

    /// A parser that remembers nothing.
    pub fn new() -> (r: Self)
        ensures
            r.memory() == (ParserMemory { tool_id: None, tool_name: None, session_id: None }),
    {
        StreamParser { current_tool_id: None, current_tool_name: None, session_id: None }
    }

    /// The session id that the first `init` event carried, if one has been
    /// seen.
    pub fn session_id(&self) -> (r: Option<String>)
        ensures
            opt_view(r) == self.memory().session_id,
    {
        match &self.session_id {
            Some(s) => Some(s.clone()),
            None => None,
        }
    }

    /// True when the content of a failed tool result asks for approval.
    pub fn is_permission_error(&self, content: &str) -> (r: bool)
        ensures
            r == is_permission_text(content@),
    {
        contains(content, "requires approval") || contains(content, "Do you want to proceed")
            || contains(content, "permission denied") || contains(content, "not allowed")
    }

    fn tool_name_or_unknown(&self) -> (r: String)
        ensures
            r@ == attributed_tool(self.memory()),
    {
        match &self.current_tool_name {
            Some(n) => n.clone(),
            None => owned("unknown"),
        }
    }

    /// Maps one decoded event to the events it gives rise to, and updates
    /// what the parser remembers.
    #[verifier::rlimit(50)]
    pub fn process_event(&mut self, event: &StreamEvent) -> (r: Vec<ParsedEvent>)
        ensures
            events_view(r@) == mapped_events(old(self).memory(), event@),
            final(self).memory() == memory_after(old(self).memory(), event@),
    {
        let mut events: Vec<ParsedEvent> = Vec::new();
        match event {
            StreamEvent::System { subtype, session_id, .. } => {
                if str_eq(subtype.as_str(), "init") {
                    if self.session_id.is_none() {
                        self.session_id = match session_id {
                            Some(s) => Some(s.clone()),
                            None => None,
                        };
                    }
                    events.push(ParsedEvent::StateChange(StateEvent::Initialized));
                }
            },
            StreamEvent::User { .. } => {},
            StreamEvent::Assistant { message } => {
                if message.content.len() > 0 {
                    events.push(
                        ParsedEvent::StateChange(StateEvent::TaskStarted { prompt: String::new() }),
                    );
                    collect_text_outputs(&message.content, &mut events);
                }
            },
            StreamEvent::ToolUse { id, name, input } => {
                self.current_tool_id = Some(id.clone());
                self.current_tool_name = Some(name.clone());
                events.push(
                    ParsedEvent::StateChange(StateEvent::ToolUseStarted { tool_name: name.clone() }),
                );
                events.push(
                    ParsedEvent::ToolExecution {
                        name: name.clone(),
                        input: clone_value(input),
                        result: None,
                        is_error: false,
                    },
                );
            },
            StreamEvent::ToolResult { tool_use_id, content, is_error } => {
                let tool_name = self.tool_name_or_unknown();
                if *is_error && self.is_permission_error(content.as_str()) {
                    events.push(
                        ParsedEvent::StateChange(
                            StateEvent::PermissionRequired {
                                tool_name,
                                tool_input: empty_object(),
                                request_id: tool_use_id.clone(),
                            },
                        ),
                    );
                } else {
                    let same = match &self.current_tool_id {
                        Some(id) => str_eq(id.as_str(), tool_use_id.as_str()),
                        None => false,
                    };
                    if same {
                        self.current_tool_id = None;
                        self.current_tool_name = None;
                    }
                    events.push(
                        ParsedEvent::StateChange(
                            StateEvent::ToolUseCompleted {
                                tool_name: tool_name.clone(),
                                success: !*is_error,
                            },
                        ),
                    );
                    if *is_error {
                        events.push(
                            ParsedEvent::StateChange(
                                StateEvent::ErrorOccurred {
                                    message: content.clone(),
                                    recoverable: true,
                                },
                            ),
                        );
                    }
                    events.push(
                        ParsedEvent::ToolExecution {
                            name: tool_name,
                            input: empty_object(),
                            result: Some(content.clone()),
                            is_error: *is_error,
                        },
                    );
                }
            },
            StreamEvent::Result { subtype, result, is_error, duration_ms, .. } => {
                let output = match result {
                    Some(r) => r.clone(),
                    None => String::new(),
                };
                let failed = *is_error || match subtype {
                    Some(s) => str_eq(s.as_str(), "error"),
                    None => false,
                };
                let d = duration_string(*duration_ms);
                if failed {
                    events.push(
                        ParsedEvent::StateChange(
                            StateEvent::ErrorOccurred { message: output, recoverable: true },
                        ),
                    );
                    events.push(
                        ParsedEvent::Progress {
                            message: concat3("Error after ", d.as_str(), "ms"),
                            percentage: Some(0),
                        },
                    );
                } else {
                    events.push(ParsedEvent::StateChange(StateEvent::TaskCompleted { output }));
                    events.push(
                        ParsedEvent::Progress {
                            message: concat3("Completed in ", d.as_str(), "ms"),
                            percentage: Some(100),
                        },
                    );
                }
            },
            StreamEvent::Error { error } => {
                events.push(
                    ParsedEvent::StateChange(
                        StateEvent::ErrorOccurred {
                            message: error.message.clone(),
                            recoverable: !contains(error.error_type.as_str(), "fatal"),
                        },
                    ),
                );
            },
        }
        proof {
            assert(events_view(events@) =~= mapped_events(old(self).memory(), event@));
        }
        events
    }

    /// Parses one line of the stream. A blank line gives no events. A line
    /// that is not JSON, or not an event, is an error and leaves the parser
    /// as it was.
    pub fn parse_line(&mut self, line: &str) -> (r: Result<Vec<ParsedEvent>, ParseError>)
        ensures
            final(self).memory() == memory_after_line(old(self).memory(), line@),
            match line_outcome(old(self).memory(), line@) {
                LineOutcome::Events(es) => r matches Ok(v) && events_view(v@) == es,
                LineOutcome::NotJson => r matches Err(ParseError::Json(_)),
                LineOutcome::NotAnEvent => r matches Err(ParseError::InvalidFormat(_)),
            },
    {
        let trimmed = trim(line);
        if trimmed.is_empty() {
            let v: Vec<ParsedEvent> = Vec::new();
            proof {
                assert(events_view(v@) =~= Seq::empty());
            }
            return Ok(v);
        }
        match parse(trimmed) {
            Err(e) => Err(ParseError::Json(error_message(&e))),
            Ok(value) => match decode_event(&value) {
                None => Err(ParseError::InvalidFormat(owned("not an event of the stream"))),
                Some(event) => Ok(self.process_event(&event)),
            },
        }
    }
}

/// What a parser has made of some lines: what it remembers, the events so
/// far, and whether a line has failed.
pub struct StreamOutcome {
    pub memory: ParserMemory,
    pub events: Seq<ParsedEventView>,
    pub failed: bool,
}

/// What a parser that remembers `m` makes of the first `n` lines: the
/// events of the lines in order, up to the first line that fails.
pub open spec fn after_stream(m: ParserMemory, all: Seq<Seq<char>>, n: int) -> StreamOutcome
    decreases n,
{
    if n <= 0 {
        StreamOutcome { memory: m, events: Seq::empty(), failed: false }
    } else {
        let before = after_stream(m, all, n - 1);
        if before.failed {
            before
        } else {
            match line_outcome(before.memory, all[n - 1]) {
                LineOutcome::Events(es) => StreamOutcome {
                    memory: memory_after_line(before.memory, all[n - 1]),
                    events: before.events + es,
                    failed: false,
                },
                _ => StreamOutcome { failed: true, ..before },
            }
        }
    }
}

impl StreamParser {
    /// Parses the lines of a stream in order and stops at the first line
    /// that fails: the events up to there are handed back, with the error
    /// of that line.
    pub fn parse_stream(&mut self, all: &Vec<String>) -> (r: (Vec<ParsedEvent>, Option<ParseError>))
        ensures
            events_view(r.0@) == after_stream(
                old(self).memory(),
                crate::text::views(all@),
                all@.len() as int,
            ).events,
            r.1 is Some == after_stream(
                old(self).memory(),
                crate::text::views(all@),
                all@.len() as int,
            ).failed,
            final(self).memory() == after_stream(
                old(self).memory(),
                crate::text::views(all@),
                all@.len() as int,
            ).memory,
    {
        let ghost m0 = self.memory();
        let ghost lines = crate::text::views(all@);
        let mut events: Vec<ParsedEvent> = Vec::new();
        let mut i: usize = 0;
        proof {
            assert(events_view(events@) =~= Seq::<ParsedEventView>::empty());
        }
        while i < all.len()
            invariant
                0 <= i <= all.len(),
                m0 == old(self).memory(),
                lines == crate::text::views(all@),
                after_stream(m0, lines, i as int) == (StreamOutcome {
                    memory: self.memory(),
                    events: events_view(events@),
                    failed: false,
                }),
            decreases all.len() - i,
        {
            proof {
                assert(lines[i as int] == all@[i as int]@);
            }
            let ghost before = events_view(events@);
            let ghost mem = self.memory();
            match self.parse_line(all[i].as_str()) {
                Ok(mut more) => {
                    let ghost added = events_view(more@);
                    events.append(&mut more);
                    proof {
                        assert(events_view(events@) =~= before + added);
                    }
                },
                Err(e) => {
                    proof {
                        assert(!(line_outcome(mem, lines[i as int]) is Events));
                        assert(after_stream(m0, lines, i as int + 1).failed);
                        lemma_failed_stream_stays(m0, lines, i as int + 1, all@.len() as int);
                    }
                    return (events, Some(e));
                },
            }
            i = i + 1;
        }
        (events, None)
    }
}

/// Once a line has failed, more lines change nothing.
pub proof fn lemma_failed_stream_stays(m: ParserMemory, all: Seq<Seq<char>>, n: int, k: int)
    requires
        0 <= n <= k,
        after_stream(m, all, n).failed,
    ensures
        after_stream(m, all, k) == after_stream(m, all, n),
    decreases k - n,
{
    if k > n {
        lemma_failed_stream_stays(m, all, n, k - 1);
    }
}

impl Default for StreamParser {
    fn default() -> (r: Self)
        ensures
            r.memory() == (ParserMemory { tool_id: None, tool_name: None, session_id: None }),
    {
        StreamParser::new()
    }
}


// ---------------------------------------------------------------------------
// Permission prompts in plain text
// ---------------------------------------------------------------------------

/// A permission prompt read from plain text: the tool, the answers on
/// offer, and an id for the request.
#[derive(Debug)]
pub struct PermissionRequest {
    pub tool_name: String,
    pub options: Vec<String>,
    pub request_id: String,
}

/// The tool that a line with the phrase `requires approval` names: what
/// stands behind the phrase, colons aside, or else what stands in front of
/// it, unless that holds `This`.
pub open spec fn named_tool(line: Seq<char>) -> Option<Seq<char>> {
    let parts = split_first_of(line, "requires approval"@);
    if parts.len() != 2 {
        None
    } else {
        let after = trim_of(strip_leading_of(parts[1], ":"@));
        let before = trim_of(parts[0]);
        if after.len() > 0 {
            Some(after)
        } else if before.len() > 0 && !seq_contains(before, "This"@) {
            Some(before)
        } else {
            None
        }
    }
}

/// The tool that the first line with the phrase names, looking at the first
/// `n` lines.
pub open spec fn prompt_tool(all: Seq<Seq<char>>, n: int) -> Option<Seq<char>>
    decreases n,
{
    if n <= 0 {
        None
    } else if exists|k: int| 0 <= k < n - 1 && seq_contains(#[trigger] all[k], "requires approval"@) {
        prompt_tool(all, n - 1)
    } else if seq_contains(all[n - 1], "requires approval"@) {
        named_tool(all[n - 1])
    } else {
        None
    }
}

/// The answer that an option line offers: the line without its pointer, its
/// number and its full stop. `None` for a line that is no option.
pub open spec fn offered_answer(line: Seq<char>) -> Option<Seq<char>> {
    let t = trim_of(line);
    if (t.len() > 0 && is_digit(t[0])) || "❯"@.is_prefix_of(t) {
        let cleaned = trim_of(
            strip_leading_of(
                strip_leading_of(
                    strip_leading_of(
                        strip_leading_of(strip_leading_of(t, "0123456789"@), "."@),
                        "❯"@,
                    ),
                    "0123456789"@,
                ),
                "."@,
            ),
        );
        if cleaned.len() > 0 {
            Some(cleaned)
        } else {
            None
        }
    } else {
        None
    }
}

/// The answers that the first `n` lines offer, in order.
pub open spec fn offered_answers(all: Seq<Seq<char>>, n: int) -> Seq<Seq<char>>
    decreases n,
{
    if n <= 0 {
        Seq::empty()
    } else {
        match offered_answer(all[n - 1]) {
            Some(a) => offered_answers(all, n - 1).push(a),
            None => offered_answers(all, n - 1),
        }
    }
}

fn tool_of(line: &str) -> (r: Option<String>)
    ensures
        opt_view(r) == named_tool(line@),
{
    proof {
        reveal_strlit("requires approval");
    }
    let parts = split_first(line, "requires approval");
    if parts.len() != 2 {
        return None;
    }
    proof {
        assert(views(parts@)[0] == parts@[0]@);
        assert(views(parts@)[1] == parts@[1]@);
    }
    let stripped = strip_leading(parts[1].as_str(), ":");
    let after = trim(stripped.as_str());
    if !after.is_empty() {
        return Some(owned(after));
    }
    let before = trim(parts[0].as_str());
    if !before.is_empty() && !contains(before, "This") {
        return Some(owned(before));
    }
    None
}

fn answer_of(line: &str) -> (r: Option<String>)
    ensures
        opt_view(r) == offered_answer(line@),
{
    let t = trim(line);
    let n = t.unicode_len();
    let numbered = n > 0 && {
        let c = t.get_char(0);
        c >= '0' && c <= '9'
    };
    if !(numbered || starts_with(t, "❯")) {
        return None;
    }
    let a = strip_leading(t, "0123456789");
    let b = strip_leading(a.as_str(), ".");
    let c = strip_leading(b.as_str(), "❯");
    let d = strip_leading(c.as_str(), "0123456789");
    let e = strip_leading(d.as_str(), ".");
    let cleaned = trim(e.as_str());
    if cleaned.is_empty() {
        None
    } else {
        Some(owned(cleaned))
    }
}

/// Reads a permission prompt from plain text, under the given request id.
/// There is a prompt where the first line with the phrase `requires
/// approval` names a tool.
pub fn parse_permission_request_with(content: &str, request_id: String) -> (r: Option<
    PermissionRequest,
>)
    ensures
        r is Some == prompt_tool(lines_of(content@), lines_of(content@).len() as int) is Some,
        r matches Some(p) ==> {
            &&& Some(p.tool_name@) == prompt_tool(lines_of(content@), lines_of(content@).len() as int)
            &&& views(p.options@) == offered_answers(
                lines_of(content@),
                lines_of(content@).len() as int,
            )
            &&& p.request_id == request_id
        },
{
    let all = lines(content);
    let mut tool: Option<String> = None;
    let mut seen = false;
    let mut i: usize = 0;
    while i < all.len()
        invariant
            0 <= i <= all.len(),
            seen == (exists|k: int|
                0 <= k < i && seq_contains(#[trigger] views(all@)[k], "requires approval"@)),
            opt_view(tool) == prompt_tool(views(all@), i as int),
        decreases all.len() - i,
    {
        proof {
            assert(views(all@)[i as int] == all@[i as int]@);
        }
        if !seen && contains(all[i].as_str(), "requires approval") {
            tool = tool_of(all[i].as_str());
            seen = true;
            proof {
                assert(seq_contains(views(all@)[i as int], "requires approval"@));
            }
        }
        i = i + 1;
    }
    let tool_name = match tool {
        Some(t) => t,
        None => {
            return None;
        },
    };
    let mut options: Vec<String> = Vec::new();
    let mut j: usize = 0;
    proof {
        assert(views(options@) =~= Seq::<Seq<char>>::empty());
    }
    while j < all.len()
        invariant
            0 <= j <= all.len(),
            views(options@) == offered_answers(views(all@), j as int),
        decreases all.len() - j,
    {
        proof {
            assert(views(all@)[j as int] == all@[j as int]@);
        }
        match answer_of(all[j].as_str()) {
            Some(a) => {
                let ghost ov = views(options@);
                options.push(a);
                proof {
                    assert(views(options@) =~= ov.push(offered_answer(all@[j as int]@).unwrap()));
                }
            },
            None => {},
        }
        j = j + 1;
    }
    Some(PermissionRequest { tool_name, options, request_id })
}

/// Reads a permission prompt from plain text, under a fresh random request
/// id.
pub fn parse_permission_request(content: &str) -> (r: Option<PermissionRequest>)
    ensures
        r is Some == prompt_tool(lines_of(content@), lines_of(content@).len() as int) is Some,
        r matches Some(p) ==> {
            &&& Some(p.tool_name@) == prompt_tool(lines_of(content@), lines_of(content@).len() as int)
            &&& views(p.options@) == offered_answers(
                lines_of(content@),
                lines_of(content@).len() as int,
            )
        },
{
    parse_permission_request_with(content, fresh_id())
}

} // verus!
