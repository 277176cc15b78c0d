//! Decisions of the Chat Completions stream processor: how each server-sent
//! event changes the accumulated state and which response events it yields,
//! and which events close the stream.
//!
//! The driver reads events from the network, hands each one to
//! [`ChatCompletionsStreamState::step`], sends the events it gets back in order
//! (stopping as soon as a send fails), and on [`StreamStep::Finish`] sends the
//! events of [`ChatCompletionsStreamState::finish`].
use vstd::prelude::*;
use crate::json::{json_quoted, parse_json, parsed_json, single_member_object, str_member, Json, JsonV};
use crate::protocol::{
    events_view, opt_view, ContentItem, ContentItemV, ResponseEvent, ResponseEventV, ResponseItem,
    ResponseItemV, TokenUsage,
};
use crate::synth::{
    add_patch, edit_file_result, glob_result, grep_result, int_arg, read_command, read_file_result, string_arg,
    update_patch, synth_apply_patch_from_edit_file,
    synth_apply_patch_from_write_file, synth_shell_command_from_glob, synth_shell_command_from_grep,
    synth_shell_command_from_read_file, write_file_result,
};
use crate::index_order::{
    index_bound, index_keys_ordered, lemma_index_keys_ordered, lemma_keys_below_props, ordered_keys, ordered_keys_of,
};
use crate::text::{decimal, push_decimal, shell_quoted, str_eq};
use std::collections::BTreeMap;

verus! {

// ── Chunks ──────────────────────────────────────────────────────────────────
#[derive(Clone, Copy, Debug, PartialEq, Eq, Structural)]
pub struct ChunkUsage {
    pub prompt_tokens: i64,
    pub completion_tokens: i64,
}

pub struct FunctionDelta {
    pub name: Option<String>,
    pub arguments: Option<String>,
}

pub struct ToolCallDelta {
    pub index: usize,
    pub id: Option<String>,
    pub function: Option<FunctionDelta>,
}

pub struct ChunkDelta {
    pub content: Option<String>,
    pub reasoning_content: Option<String>,
    pub tool_calls: Option<Vec<ToolCallDelta>>,
}

pub struct ChunkChoice {
    pub delta: ChunkDelta,
    pub finish_reason: Option<String>,
}

/// One parsed `data:` payload of the stream.
pub struct ChatCompletionsChunk {
    pub id: Option<String>,
    pub choices: Vec<ChunkChoice>,
    pub usage: Option<ChunkUsage>,
}

pub struct FunctionDeltaV {
    pub name: Option<Seq<char>>,
    pub arguments: Option<Seq<char>>,
}

pub struct ToolCallDeltaV {
    pub index: usize,
    pub id: Option<Seq<char>>,
    pub function: Option<FunctionDeltaV>,
}

pub struct ChunkChoiceV {
    pub content: Option<Seq<char>>,
    pub reasoning_content: Option<Seq<char>>,
    pub tool_calls: Option<Seq<ToolCallDeltaV>>,
    pub finish_reason: Option<Seq<char>>,
}

pub struct ChunkV {
    pub id: Option<Seq<char>>,
    pub choices: Seq<ChunkChoiceV>,
    pub usage: Option<ChunkUsage>,
}

impl View for ToolCallDelta {
    type V = ToolCallDeltaV;

    open spec fn view(&self) -> ToolCallDeltaV {
        ToolCallDeltaV {
            index: self.index,
            id: opt_view(self.id),
            function: match self.function {
                Some(f) => Some(FunctionDeltaV { name: opt_view(f.name), arguments: opt_view(f.arguments) }),
                None => None,
            },
        }
    }
}

pub open spec fn deltas_view(ds: Seq<ToolCallDelta>) -> Seq<ToolCallDeltaV> {
    ds.map_values(|d: ToolCallDelta| d@)
}

impl View for ChunkChoice {
    type V = ChunkChoiceV;

    open spec fn view(&self) -> ChunkChoiceV {
        ChunkChoiceV {
            content: opt_view(self.delta.content),
            reasoning_content: opt_view(self.delta.reasoning_content),
            tool_calls: match self.delta.tool_calls {
                Some(ds) => Some(deltas_view(ds@)),
                None => None,
            },
            finish_reason: opt_view(self.finish_reason),
        }
    }
}

pub open spec fn choices_view(cs: Seq<ChunkChoice>) -> Seq<ChunkChoiceV> {
    cs.map_values(|c: ChunkChoice| c@)
}

impl View for ChatCompletionsChunk {
    type V = ChunkV;

    open spec fn view(&self) -> ChunkV {
        ChunkV { id: opt_view(self.id), choices: choices_view(self.choices@), usage: self.usage }
    }
}

// ── State ───────────────────────────────────────────────────────────────────
/// Accumulated state for a single in-progress tool call.
pub struct ToolCallBuffer {
    pub id: String,
    pub name: String,
    pub args: String,
}

pub struct ToolCallBufferV {
    pub id: Seq<char>,
    pub name: Seq<char>,
    pub args: Seq<char>,
}

impl View for ToolCallBuffer {
    type V = ToolCallBufferV;

    open spec fn view(&self) -> ToolCallBufferV {
        ToolCallBufferV { id: self.id@, name: self.name@, args: self.args@ }
    }
}

pub open spec fn buffers_view(m: Map<usize, ToolCallBuffer>) -> Map<usize, ToolCallBufferV> {
    m.map_values(|b: ToolCallBuffer| b@)
}

/// What the stream processor has accumulated so far.
pub struct ChatCompletionsStreamState {
    response_id: String,
    tool_calls: BTreeMap<usize, ToolCallBuffer>,
    accumulated_text: String,
    finish_reason: Option<String>,
    usage: Option<ChunkUsage>,
    received_done: bool,
    text_item_id: Option<String>,
    reasoning_content_index: i64,
}

pub struct StreamStateV {
    /// The id of the first chunk that carried a non-empty one.
    pub response_id: Seq<char>,
    /// The tool calls under construction, by stream index.
    pub tool_calls: Map<usize, ToolCallBufferV>,
    /// The text of all content deltas so far.
    pub text: Seq<char>,
    pub finish_reason: Option<Seq<char>>,
    pub usage: Option<ChunkUsage>,
    pub received_done: bool,
    /// The id of the assistant message item, once it has been announced.
    pub text_item_id: Option<Seq<char>>,
    /// The index that the next reasoning delta will carry.
    pub reasoning_index: i64,
}

impl View for ChatCompletionsStreamState {
    type V = StreamStateV;

    closed spec fn view(&self) -> StreamStateV {
        StreamStateV {
            response_id: self.response_id@,
            tool_calls: buffers_view(self.tool_calls@),
            text: self.accumulated_text@,
            finish_reason: opt_view(self.finish_reason),
            usage: self.usage,
            received_done: self.received_done,
            text_item_id: opt_view(self.text_item_id),
            reasoning_index: self.reasoning_content_index,
        }
    }
}

pub open spec fn initial_state() -> StreamStateV {
    StreamStateV {
        response_id: Seq::empty(),
        tool_calls: Map::empty(),
        text: Seq::empty(),
        finish_reason: None,
        usage: None,
        received_done: false,
        text_item_id: None,
        reasoning_index: 0,
    }
}

// ── Specification of one chunk ──────────────────────────────────────────────
/// The id of the synthetic assistant message item.
pub open spec fn placeholder_id(response_id: Seq<char>) -> Seq<char> {
    if response_id.len() == 0 {
        "chat_completions_msg_0"@
    } else {
        response_id + "_msg_0"@
    }
}

pub open spec fn placeholder_item(id: Seq<char>) -> ResponseItemV {
    ResponseItemV::Message { id: Some(id), role: "assistant"@, content: Seq::empty(), phase: None }
}

/// Announces the assistant message item before its first delta: the first
/// time, the item gets its id and an `OutputItemAdded` event; afterwards
/// nothing happens.
pub open spec fn announced(s: StreamStateV) -> (StreamStateV, Seq<ResponseEventV>) {
    if s.text_item_id is None {
        let id = placeholder_id(s.response_id);
        (
            StreamStateV { text_item_id: Some(id), ..s },
            seq![ResponseEventV::OutputItemAdded(placeholder_item(id))],
        )
    } else {
        (s, Seq::empty())
    }
}

pub open spec fn text_applied(s: StreamStateV, content: Option<Seq<char>>) -> (StreamStateV, Seq<ResponseEventV>) {
    match content {
        Some(t) => if t.len() > 0 {
            let (s1, e1) = announced(s);
            (StreamStateV { text: s1.text + t, ..s1 }, e1.push(ResponseEventV::OutputTextDelta(t)))
        } else {
            (s, Seq::empty())
        },
        None => (s, Seq::empty()),
    }
}

pub open spec fn incremented(i: i64) -> i64 {
    if i == i64::MAX { i } else { (i + 1) as i64 }
}

pub open spec fn reasoning_applied(s: StreamStateV, reasoning: Option<Seq<char>>) -> (StreamStateV, Seq<ResponseEventV>) {
    match reasoning {
        Some(t) => if t.len() > 0 {
            let (s1, e1) = announced(s);
            (
                StreamStateV { reasoning_index: incremented(s1.reasoning_index), ..s1 },
                e1.push(
                    ResponseEventV::ReasoningContentDelta { delta: t, content_index: s1.reasoning_index },
                ),
            )
        } else {
            (s, Seq::empty())
        },
        None => (s, Seq::empty()),
    }
}

pub open spec fn empty_buffer() -> ToolCallBufferV {
    ToolCallBufferV { id: Seq::empty(), name: Seq::empty(), args: Seq::empty() }
}

/// The buffer for `d.index` after `d` is applied to `b`, and the input delta
/// event that `d` yields.
pub open spec fn delta_applied(b: ToolCallBufferV, d: ToolCallDeltaV) -> (ToolCallBufferV, Seq<ResponseEventV>) {
    let b1 = match d.id {
        Some(id) => if id.len() > 0 { ToolCallBufferV { id, ..b } } else { b },
        None => b,
    };
    match d.function {
        Some(f) => {
            let b2 = match f.name {
                Some(n) => ToolCallBufferV { name: b1.name + n, ..b1 },
                None => b1,
            };
            match f.arguments {
                Some(a) => (
                    ToolCallBufferV { args: b2.args + a, ..b2 },
                    seq![
                        ResponseEventV::ToolCallInputDelta {
                            item_id: if b2.id.len() == 0 {
                                "tool_call_"@ + decimal(d.index as nat)
                            } else {
                                b2.id
                            },
                            call_id: None,
                            delta: a,
                        },
                    ],
                ),
                None => (b2, Seq::empty()),
            }
        },
        None => (b1, Seq::empty()),
    }
}

/// The buffers after one tool-call delta: the buffer for its index (a fresh
/// one if there was none) takes the delta.
pub open spec fn tool_delta_applied(m: Map<usize, ToolCallBufferV>, d: ToolCallDeltaV) -> (Map<usize, ToolCallBufferV>, Seq<ResponseEventV>) {
    let b = if m.contains_key(d.index) { m[d.index] } else { empty_buffer() };
    let (b2, e) = delta_applied(b, d);
    (m.insert(d.index, b2), e)
}

pub open spec fn tool_deltas_applied(bs: Map<usize, ToolCallBufferV>, ds: Seq<ToolCallDeltaV>) -> (Map<usize, ToolCallBufferV>, Seq<ResponseEventV>)
    decreases ds.len(),
{
    if ds.len() == 0 {
        (bs, Seq::empty())
    } else {
        let (b1, e1) = tool_deltas_applied(bs, ds.drop_last());
        let (b2, e2) = tool_delta_applied(b1, ds.last());
        (b2, e1 + e2)
    }
}

/// One choice: its text, then its reasoning, then its tool-call deltas, then
/// its finish reason.
pub open spec fn choice_applied(s: StreamStateV, c: ChunkChoiceV) -> (StreamStateV, Seq<ResponseEventV>) {
    let (s1, e1) = text_applied(s, c.content);
    let (s2, e2) = reasoning_applied(s1, c.reasoning_content);
    let (bs, e3) = match c.tool_calls {
        Some(ds) => tool_deltas_applied(s2.tool_calls, ds),
        None => (s2.tool_calls, Seq::empty()),
    };
    let s3 = StreamStateV { tool_calls: bs, ..s2 };
    let s4 = match c.finish_reason {
        Some(fr) => if fr.len() > 0 { StreamStateV { finish_reason: Some(fr), ..s3 } } else { s3 },
        None => s3,
    };
    (s4, e1 + e2 + e3)
}

pub open spec fn choices_applied(s: StreamStateV, cs: Seq<ChunkChoiceV>) -> (StreamStateV, Seq<ResponseEventV>)
    decreases cs.len(),
{
    if cs.len() == 0 {
        (s, Seq::empty())
    } else {
        let (s1, e1) = choices_applied(s, cs.drop_last());
        let (s2, e2) = choice_applied(s1, cs.last());
        (s2, e1 + e2)
    }
}

/// One chunk: it may supply the response id and the usage, then its choices
/// are applied in order.
pub open spec fn chunk_applied(s: StreamStateV, c: ChunkV) -> (StreamStateV, Seq<ResponseEventV>) {
    let s1 = match c.id {
        Some(id) => if s.response_id.len() == 0 && id.len() > 0 {
            StreamStateV { response_id: id, ..s }
        } else {
            s
        },
        None => s,
    };
    let s2 = match c.usage {
        Some(u) => StreamStateV { usage: Some(u), ..s1 },
        None => s1,
    };
    choices_applied(s2, c.choices)
}


// ── Stream events ───────────────────────────────────────────────────────────
/// What the driver observed on the stream.
pub enum StreamInput {
    /// A server-sent event with its `data` text, and the chunk that the text
    /// parses to (`None` when it is not a chunk).
    Data { data: String, chunk: Option<ChatCompletionsChunk> },
    /// The stream ended.
    Closed,
    /// Reading the stream failed with this message.
    Failed(String),
    /// No event arrived within the idle timeout.
    IdleTimeout,
}

/// What the driver does next.
pub enum StreamStep {
    /// Send these events, in order, and keep reading.
    Emit(Vec<ResponseEvent>),
    /// Stop reading and send the closing events.
    Finish,
    /// Send this stream error and stop.
    Abort(String),
}

pub enum StreamStepV {
    Emit(Seq<ResponseEventV>),
    Finish,
    Abort(Seq<char>),
}

impl View for StreamStep {
    type V = StreamStepV;

    open spec fn view(&self) -> StreamStepV {
        match self {
            StreamStep::Emit(es) => StreamStepV::Emit(events_view(es@)),
            StreamStep::Finish => StreamStepV::Finish,
            StreamStep::Abort(m) => StreamStepV::Abort(m@),
        }
    }
}

/// The message of an upstream error object `{"error":{"message": ...}}`.
pub open spec fn upstream_error(data: Seq<char>) -> Option<Seq<char>> {
    match parsed_json(data) {
        Some(v) => str_member(v.get("error"@), "message"@),
        None => None,
    }
}

/// The state and the next step after one input.
pub open spec fn stepped(s: StreamStateV, input: StreamInput) -> (StreamStateV, StreamStepV) {
    match input {
        StreamInput::Data { data, chunk } => if data@ == "[DONE]"@ {
            (StreamStateV { received_done: true, ..s }, StreamStepV::Finish)
        } else {
            match chunk {
                Some(c) => {
                    let (s2, es) = chunk_applied(s, c@);
                    (s2, StreamStepV::Emit(es))
                },
                None => match upstream_error(data@) {
                    Some(m) => (s, StreamStepV::Abort(m)),
                    None => (s, StreamStepV::Emit(Seq::empty())),
                },
            }
        },
        StreamInput::Closed => (s, StreamStepV::Finish),
        StreamInput::Failed(m) => (s, StreamStepV::Abort(m@)),
        StreamInput::IdleTimeout => (s, StreamStepV::Abort("idle timeout waiting for SSE"@)),
    }
}

/// The message of an upstream error object in `data`, if `data` is one.
pub fn upstream_error_message(data: &str) -> (r: Option<String>)
    ensures
        opt_view(r) == upstream_error(data@),
{
    match parse_json(data) {
        Ok(v) => upstream_error_of(&v),
        Err(_) => None,
    }
}

/// The message of an upstream error object, read from the parsed data `v`:
/// the string `message` inside its `error` member.
pub fn upstream_error_of(v: &Json) -> (r: Option<String>)
    ensures
        opt_view(r) == str_member(v@.get("error"@), "message"@),
{
    match v.get("error") {
        Some(e) => match e.get("message") {
            Some(m) => match m.as_str() {
                Some(text) => Some(String::from_str(text)),
                None => None,
            },
            None => None,
        },
        None => None,
    }
}

// ── Closing events ──────────────────────────────────────────────────────────
pub open spec fn ok_value(r: Result<Seq<char>, Seq<char>>) -> Option<Seq<char>> {
    match r {
        Ok(v) => Some(v),
        Err(_) => None,
    }
}

/// What a synthesiser yields for argument text `args`, when it succeeds.
pub open spec fn synthesized(args: Seq<char>, f: spec_fn(JsonV) -> Result<Seq<char>, Seq<char>>) -> Option<Seq<char>> {
    match parsed_json(args) {
        Some(v) => ok_value(f(v)),
        None => None,
    }
}

/// The buffer forwarded unchanged as a function call.
pub open spec fn function_call_item(b: ToolCallBufferV) -> ResponseItemV {
    ResponseItemV::FunctionCall { id: None, name: b.name, namespace: None, arguments: b.args, call_id: b.id }
}

pub open spec fn apply_patch_item(b: ToolCallBufferV, patch: Seq<char>) -> ResponseItemV {
    ResponseItemV::CustomToolCall {
        id: Some(b.id),
        status: None,
        call_id: b.id,
        name: "apply_patch"@,
        input: patch,
    }
}

/// The patch text of a direct `apply_patch` call: the `patch` argument when
/// the arguments are JSON that has one, the raw arguments otherwise.
pub open spec fn legacy_patch(args: Seq<char>) -> Seq<char> {
    match parsed_json(args) {
        Some(v) => match string_arg(v, "patch"@) {
            Some(p) => p,
            None => args,
        },
        None => args,
    }
}

/// The conversation item that a finished tool call becomes: `edit_file` and
/// `write_file` become `apply_patch` calls, `read_file`, `glob` and `grep`
/// become `shell_command` calls, a direct `apply_patch` call is accepted, and
/// everything else (including a call whose arguments cannot be rewritten) is
/// forwarded as it came.
pub open spec fn final_item(b: ToolCallBufferV) -> ResponseItemV {
    if b.name == "edit_file"@ || b.name == "write_file"@ {
        let patch = if b.name == "edit_file"@ {
            synthesized(b.args, |v: JsonV| edit_file_result(v))
        } else {
            synthesized(b.args, |v: JsonV| write_file_result(v))
        };
        match patch {
            Some(p) => apply_patch_item(b, p),
            None => function_call_item(b),
        }
    } else if b.name == "read_file"@ || b.name == "glob"@ || b.name == "grep"@ {
        let shell_args = if b.name == "read_file"@ {
            synthesized(b.args, |v: JsonV| read_file_result(v))
        } else if b.name == "glob"@ {
            synthesized(b.args, |v: JsonV| glob_result(v))
        } else {
            synthesized(b.args, |v: JsonV| grep_result(v))
        };
        match shell_args {
            Some(a) => ResponseItemV::FunctionCall {
                id: None,
                name: "shell_command"@,
                namespace: None,
                arguments: a,
                call_id: b.id,
            },
            None => function_call_item(b),
        }
    } else if b.name == "apply_patch"@ {
        ResponseItemV::CustomToolCall {
            id: Some(b.id),
            status: None,
            call_id: b.id,
            name: b.name,
            input: legacy_patch(b.args),
        }
    } else {
        function_call_item(b)
    }
}

/// The buffers in increasing order of their stream index.
pub open spec fn buffers_in_order(m: Map<usize, ToolCallBufferV>) -> Seq<ToolCallBufferV> {
    ordered_keys(m.dom()).map_values(|k: usize| m[k])
}

/// Each finished tool call, in the order given, announced and completed.
pub open spec fn tool_call_events(bs: Seq<ToolCallBufferV>) -> Seq<ResponseEventV>
    decreases bs.len(),
{
    if bs.len() == 0 {
        Seq::empty()
    } else {
        let item = final_item(bs.last());
        tool_call_events(bs.drop_last()) + seq![
            ResponseEventV::OutputItemAdded(item),
            ResponseEventV::OutputItemDone(item),
        ]
    }
}

/// The assembled assistant message, closing the message item whenever it was
/// announced, whether text or only reasoning arrived.
pub open spec fn text_done_events(s: StreamStateV) -> Seq<ResponseEventV> {
    if s.text_item_id is Some {
        seq![
            ResponseEventV::OutputItemDone(
                ResponseItemV::Message {
                    id: s.text_item_id,
                    role: "assistant"@,
                    content: seq![ContentItemV::OutputText { text: s.text }],
                    phase: None,
                },
            ),
        ]
    } else {
        Seq::empty()
    }
}

/// Whether the turn ended: `stop` ends it, every other reason does not.
pub open spec fn end_turn_of(finish_reason: Option<Seq<char>>) -> Option<bool> {
    match finish_reason {
        Some(fr) => Some(fr == "stop"@),
        None => None,
    }
}

pub open spec fn usage_total_fits(usage: Option<ChunkUsage>) -> bool {
    match usage {
        Some(u) => i64::MIN <= u.prompt_tokens + u.completion_tokens <= i64::MAX,
        None => true,
    }
}

pub open spec fn token_usage_of(usage: Option<ChunkUsage>) -> Option<TokenUsage> {
    match usage {
        Some(u) => Some(
            TokenUsage {
                input_tokens: u.prompt_tokens,
                cached_input_tokens: 0,
                output_tokens: u.completion_tokens,
                reasoning_output_tokens: 0,
                total_tokens: (u.prompt_tokens + u.completion_tokens) as i64,
            },
        ),
        None => None,
    }
}

pub open spec fn completion_event(s: StreamStateV) -> ResponseEventV {
    ResponseEventV::Completed {
        response_id: s.response_id,
        token_usage: token_usage_of(s.usage),
        end_turn: end_turn_of(s.finish_reason),
    }
}

/// The events sent when the stream is over.
pub open spec fn finish_events(s: StreamStateV) -> Seq<ResponseEventV> {
    text_done_events(s) + tool_call_events(buffers_in_order(s.tool_calls)) + seq![completion_event(s)]
}

fn function_call_of(b: &ToolCallBuffer) -> (r: ResponseItem)
    ensures
        r@ == function_call_item(b@),
{
    ResponseItem::FunctionCall {
        id: None,
        name: b.name.clone(),
        namespace: None,
        arguments: b.args.clone(),
        call_id: b.id.clone(),
    }
}

fn final_item_of(b: &ToolCallBuffer) -> (r: ResponseItem)
    ensures
        r@ == final_item(b@),
{
    let name = b.name.as_str();
    if str_eq(name, "edit_file") || str_eq(name, "write_file") {
        let synth = if str_eq(name, "edit_file") {
            synth_apply_patch_from_edit_file(b.args.as_str())
        } else {
            synth_apply_patch_from_write_file(b.args.as_str())
        };
        match synth {
            Ok(patch) => ResponseItem::CustomToolCall {
                id: Some(b.id.clone()),
                status: None,
                call_id: b.id.clone(),
                name: String::from_str("apply_patch"),
                input: patch,
            },
            // The rejected call goes back to the model as it came, so that it
            // can retry with corrected arguments.
            Err(_) => function_call_of(b),
        }
    } else if str_eq(name, "read_file") || str_eq(name, "glob") || str_eq(name, "grep") {
        let synth = if str_eq(name, "read_file") {
            synth_shell_command_from_read_file(b.args.as_str())
        } else if str_eq(name, "glob") {
            synth_shell_command_from_glob(b.args.as_str())
        } else {
            synth_shell_command_from_grep(b.args.as_str())
        };
        match synth {
            Ok(shell_args) => ResponseItem::FunctionCall {
                id: None,
                name: String::from_str("shell_command"),
                namespace: None,
                arguments: shell_args,
                call_id: b.id.clone(),
            },
            Err(_) => function_call_of(b),
        }
    } else if str_eq(name, "apply_patch") {
        let patch = match parse_json(b.args.as_str()) {
            Ok(v) => legacy_patch_of(&v, b.args.as_str()),
            Err(_) => b.args.clone(),
        };
        ResponseItem::CustomToolCall {
            id: Some(b.id.clone()),
            status: None,
            call_id: b.id.clone(),
            name: b.name.clone(),
            input: patch,
        }
    } else {
        function_call_of(b)
    }
}

/// The patch text of a direct `apply_patch` call whose arguments parsed to
/// `v`: its string `patch` argument, or the raw arguments `raw` when it has
/// none.
pub fn legacy_patch_of(v: &Json, raw: &str) -> (r: String)
    ensures
        r@ == (match string_arg(v@, "patch"@) {
            Some(p) => p,
            None => raw@,
        }),
{
    match v.get("patch") {
        Some(p) => match p.as_str() {
            Some(text) => String::from_str(text),
            None => String::from_str(raw),
        },
        None => String::from_str(raw),
    }
}

fn clone_item(item: &ResponseItem) -> (r: ResponseItem)
    requires
        !(item@ is Skipped),
    ensures
        r@ == item@,
{
    match item {
        ResponseItem::Message { id, role, content, phase } => {
            let mut cs: Vec<ContentItem> = Vec::new();
            let mut i: usize = 0;
            while i < content.len()
                invariant
                    i <= content@.len(),
                    cs@.len() == i,
                    forall|k: int| 0 <= k < i ==> #[trigger] cs@[k]@ == content@[k]@,
                decreases content@.len() - i,
            {
                let c = match &content[i] {
                    ContentItem::InputText { text } => ContentItem::InputText { text: text.clone() },
                    ContentItem::InputImage { image_url, detail } => ContentItem::InputImage {
                        image_url: image_url.clone(),
                        detail: detail.clone(),
                    },
                    ContentItem::OutputText { text } => ContentItem::OutputText { text: text.clone() },
                };
                cs.push(c);
                i = i + 1;
            }
            assert(crate::protocol::content_view(cs@) =~= crate::protocol::content_view(content@));
            ResponseItem::Message { id: id.clone(), role: role.clone(), content: cs, phase: phase.clone() }
        },
        ResponseItem::FunctionCall { id, name, namespace, arguments, call_id } =>
            ResponseItem::FunctionCall {
            id: id.clone(),
            name: name.clone(),
            namespace: namespace.clone(),
            arguments: arguments.clone(),
            call_id: call_id.clone(),
        },
        ResponseItem::FunctionCallOutput { call_id, output } => ResponseItem::FunctionCallOutput {
            call_id: call_id.clone(),
            output: crate::protocol::FunctionCallOutputPayload { text: output.text.clone() },
        },
        ResponseItem::CustomToolCall { id, status, call_id, name, input } =>
            ResponseItem::CustomToolCall {
            id: id.clone(),
            status: status.clone(),
            call_id: call_id.clone(),
            name: name.clone(),
            input: input.clone(),
        },
        ResponseItem::CustomToolCallOutput { call_id, output } =>
            ResponseItem::CustomToolCallOutput {
            call_id: call_id.clone(),
            output: crate::protocol::FunctionCallOutputPayload { text: output.text.clone() },
        },
        _ => ResponseItem::Other,
    }
}

// ── Laws ────────────────────────────────────────────────────────────────────
/// The text of the `OutputTextDelta` events, in order.
pub open spec fn text_of(es: Seq<ResponseEventV>) -> Seq<char>
    decreases es.len(),
{
    if es.len() == 0 {
        Seq::empty()
    } else {
        text_of(es.drop_last()) + match es.last() {
            ResponseEventV::OutputTextDelta(t) => t,
            _ => Seq::empty(),
        }
    }
}

/// How many events announce an item.
pub open spec fn added_count(es: Seq<ResponseEventV>) -> nat
    decreases es.len(),
{
    if es.len() == 0 {
        0
    } else {
        added_count(es.drop_last()) + if es.last() is OutputItemAdded { 1nat } else { 0nat }
    }
}

/// How many events are completions.
pub open spec fn completed_count(es: Seq<ResponseEventV>) -> nat
    decreases es.len(),
{
    if es.len() == 0 {
        0
    } else {
        completed_count(es.drop_last()) + if es.last() is Completed { 1nat } else { 0nat }
    }
}

proof fn lemma_counts_concat(a: Seq<ResponseEventV>, b: Seq<ResponseEventV>)
    ensures
        text_of(a + b) == text_of(a) + text_of(b),
        added_count(a + b) == added_count(a) + added_count(b),
        completed_count(a + b) == completed_count(a) + completed_count(b),
    decreases b.len(),
{
    if b.len() == 0 {
        assert(a + b =~= a);
        assert(text_of(a) + text_of(b) =~= text_of(a));
    } else {
        lemma_counts_concat(a, b.drop_last());
        assert((a + b).drop_last() =~= a + b.drop_last());
        assert(text_of(a + b) =~= text_of(a) + text_of(b));
    }
}

proof fn lemma_single_event(e: ResponseEventV)
    ensures
        text_of(seq![e]) == (match e {
            ResponseEventV::OutputTextDelta(t) => t,
            _ => Seq::<char>::empty(),
        }),
        added_count(seq![e]) == (if e is OutputItemAdded { 1nat } else { 0nat }),
        completed_count(seq![e]) == (if e is Completed { 1nat } else { 0nat }),
{
    let empty = Seq::<ResponseEventV>::empty();
    assert(seq![e].drop_last() =~= empty);
    assert(text_of(empty) == Seq::<char>::empty());
    assert(added_count(empty) == 0);
    assert(completed_count(empty) == 0);
    assert(seq![e].last() == e);
    let piece = match e {
        ResponseEventV::OutputTextDelta(t) => t,
        _ => Seq::<char>::empty(),
    };
    assert(text_of(seq![e]) == text_of(empty) + piece);
    assert(Seq::<char>::empty() + piece =~= piece);
}

proof fn lemma_tool_deltas_events(bs: Map<usize, ToolCallBufferV>, ds: Seq<ToolCallDeltaV>)
    ensures
        text_of(tool_deltas_applied(bs, ds).1) == Seq::<char>::empty(),
        added_count(tool_deltas_applied(bs, ds).1) == 0,
        completed_count(tool_deltas_applied(bs, ds).1) == 0,
    decreases ds.len(),
{
    if ds.len() > 0 {
        lemma_tool_deltas_events(bs, ds.drop_last());
        let (b1, e1) = tool_deltas_applied(bs, ds.drop_last());
        let (b2, e2) = tool_delta_applied(b1, ds.last());
        lemma_counts_concat(e1, e2);
        let b = if b1.contains_key(ds.last().index) { b1[ds.last().index] } else { empty_buffer() };
        let (_, ev) = delta_applied(b, ds.last());
        if ev.len() > 0 {
            lemma_single_event(ev[0]);
            assert(ev =~= seq![ev[0]]);
        }
        assert(text_of(e1) + text_of(e2) =~= Seq::<char>::empty());
    }
}

/// The state fact that the chunk laws keep: once text has arrived the
/// assistant message has been announced.
pub open spec fn state_invariant(s: StreamStateV) -> bool {
    s.text.len() > 0 ==> s.text_item_id is Some
}

proof fn lemma_choice_laws(s: StreamStateV, c: ChunkChoiceV)
    requires
        state_invariant(s),
    ensures
        state_invariant(choice_applied(s, c).0),
        choice_applied(s, c).0.text == s.text + text_of(choice_applied(s, c).1),
        s.text_item_id is Some ==> choice_applied(s, c).0.text_item_id == s.text_item_id && added_count(
            choice_applied(s, c).1,
        ) == 0,
        added_count(choice_applied(s, c).1) <= 1,
        completed_count(choice_applied(s, c).1) == 0,
        choice_applied(s, c).0.response_id == s.response_id,
{
    let (s1, e1) = text_applied(s, c.content);
    let (s2, e2) = reasoning_applied(s1, c.reasoning_content);
    let (a1, ea) = announced(s);
    if s.text_item_id is None {
        lemma_single_event(ResponseEventV::OutputItemAdded(placeholder_item(placeholder_id(s.response_id))));
    } else {
        assert(text_of(Seq::<ResponseEventV>::empty()) =~= Seq::<char>::empty());
    }
    match c.content {
        Some(t) => if t.len() > 0 {
            lemma_counts_concat(ea, seq![ResponseEventV::OutputTextDelta(t)]);
            lemma_single_event(ResponseEventV::OutputTextDelta(t));
            assert(ea.push(ResponseEventV::OutputTextDelta(t)) =~= ea + seq![ResponseEventV::OutputTextDelta(t)]);
        },
        None => {},
    }
    let (a2, eb) = announced(s1);
    if s1.text_item_id is None {
        lemma_single_event(ResponseEventV::OutputItemAdded(placeholder_item(placeholder_id(s1.response_id))));
    }
    match c.reasoning_content {
        Some(t) => if t.len() > 0 {
            let ev = ResponseEventV::ReasoningContentDelta { delta: t, content_index: a2.reasoning_index };
            lemma_counts_concat(eb, seq![ev]);
            lemma_single_event(ev);
            assert(eb.push(ev) =~= eb + seq![ev]);
        },
        None => {},
    }
    assert(text_of(Seq::<ResponseEventV>::empty()) =~= Seq::<char>::empty());
    let (bs, e3) = match c.tool_calls {
        Some(ds) => tool_deltas_applied(s2.tool_calls, ds),
        None => (s2.tool_calls, Seq::empty()),
    };
    match c.tool_calls {
        Some(ds) => {
            lemma_tool_deltas_events(s2.tool_calls, ds);
        },
        None => {},
    }
    lemma_counts_concat(e1, e2);
    lemma_counts_concat(e1 + e2, e3);
    assert(s1.text == s.text + text_of(e1));
    assert(s2.text == s1.text);
    assert(text_of(e2) =~= Seq::<char>::empty());
    assert(s2.text + text_of(e3) =~= s.text + text_of(e1 + e2 + e3));
}

/// One tool-call delta touches only the buffer of its own index: that
/// buffer (a fresh one if there was none) takes the delta, every other
/// buffer stays as it was, and the indices afterwards are those before
/// together with the delta's.
pub proof fn lemma_tool_delta_laws(m: Map<usize, ToolCallBufferV>, d: ToolCallDeltaV)
    ensures
        tool_delta_applied(m, d).0.dom() == m.dom().insert(d.index),
        tool_delta_applied(m, d).0[d.index] == delta_applied(
            if m.contains_key(d.index) { m[d.index] } else { empty_buffer() },
            d,
        ).0,
        forall|k: usize| k != d.index && #[trigger] m.contains_key(k) ==> tool_delta_applied(m, d).0[k] == m[k],
{
}

/// What one chunk does, for every state that satisfies the invariant: the
/// invariant is kept; the accumulated text grows by exactly the text of the
/// `OutputTextDelta` events the chunk yields; the assistant message is
/// announced at most once, and never again once it has an id; a chunk never
/// yields a completion.
pub proof fn lemma_chunk_laws(s: StreamStateV, c: ChunkV)
    requires
        state_invariant(s),
    ensures
        state_invariant(chunk_applied(s, c).0),
        chunk_applied(s, c).0.text == s.text + text_of(chunk_applied(s, c).1),
        s.text_item_id is Some ==> chunk_applied(s, c).0.text_item_id == s.text_item_id && added_count(
            chunk_applied(s, c).1,
        ) == 0,
        added_count(chunk_applied(s, c).1) <= 1,
        completed_count(chunk_applied(s, c).1) == 0,
{
    let s1 = match c.id {
        Some(id) => if s.response_id.len() == 0 && id.len() > 0 {
            StreamStateV { response_id: id, ..s }
        } else {
            s
        },
        None => s,
    };
    let s2 = match c.usage {
        Some(u) => StreamStateV { usage: Some(u), ..s1 },
        None => s1,
    };
    lemma_choices_laws(s2, c.choices);
}

proof fn lemma_choices_laws(s: StreamStateV, cs: Seq<ChunkChoiceV>)
    requires
        state_invariant(s),
    ensures
        state_invariant(choices_applied(s, cs).0),
        choices_applied(s, cs).0.text == s.text + text_of(choices_applied(s, cs).1),
        s.text_item_id is Some ==> choices_applied(s, cs).0.text_item_id == s.text_item_id
            && added_count(choices_applied(s, cs).1) == 0,
        added_count(choices_applied(s, cs).1) <= 1,
        (s.text_item_id is None && added_count(choices_applied(s, cs).1) == 0) ==> choices_applied(s, cs).0.text_item_id is None,
        added_count(choices_applied(s, cs).1) > 0 ==> choices_applied(s, cs).0.text_item_id is Some,
        completed_count(choices_applied(s, cs).1) == 0,
    decreases cs.len(),
{
    if cs.len() == 0 {
        assert(text_of(Seq::<ResponseEventV>::empty()) =~= Seq::<char>::empty());
        assert(s.text + Seq::<char>::empty() =~= s.text);
    } else {
        lemma_choices_laws(s, cs.drop_last());
        let (s1, e1) = choices_applied(s, cs.drop_last());
        lemma_choice_laws(s1, cs.last());
        lemma_choice_announces(s1, cs.last());
        let (s2, e2) = choice_applied(s1, cs.last());
        lemma_counts_concat(e1, e2);
        assert(s2.text =~= s.text + text_of(e1 + e2));
    }
}

proof fn lemma_choice_announces(s: StreamStateV, c: ChunkChoiceV)
    ensures
        (s.text_item_id is None && added_count(choice_applied(s, c).1) == 0) ==> choice_applied(s, c).0.text_item_id is None,
        (s.text_item_id is None && choice_applied(s, c).0.text_item_id is Some) ==> added_count(choice_applied(s, c).1) == 1,
        added_count(choice_applied(s, c).1) > 0 ==> choice_applied(s, c).0.text_item_id is Some,
{
    let (s1, e1) = text_applied(s, c.content);
    let (s2, e2) = reasoning_applied(s1, c.reasoning_content);
    let (bs, e3) = match c.tool_calls {
        Some(ds) => tool_deltas_applied(s2.tool_calls, ds),
        None => (s2.tool_calls, Seq::empty()),
    };
    match c.tool_calls {
        Some(ds) => {
            lemma_tool_deltas_events(s2.tool_calls, ds);
        },
        None => {},
    }
    assert(added_count(Seq::<ResponseEventV>::empty()) == 0);
    if s.text_item_id is None {
        lemma_single_event(ResponseEventV::OutputItemAdded(placeholder_item(placeholder_id(s.response_id))));
    }
    if s1.text_item_id is None {
        lemma_single_event(ResponseEventV::OutputItemAdded(placeholder_item(placeholder_id(s1.response_id))));
    }
    match c.content {
        Some(t) => if t.len() > 0 {
            let (a, ea) = announced(s);
            lemma_counts_concat(ea, seq![ResponseEventV::OutputTextDelta(t)]);
            lemma_single_event(ResponseEventV::OutputTextDelta(t));
            assert(ea.push(ResponseEventV::OutputTextDelta(t)) =~= ea + seq![ResponseEventV::OutputTextDelta(t)]);
        },
        None => {},
    }
    match c.reasoning_content {
        Some(t) => if t.len() > 0 {
            let (a, eb) = announced(s1);
            let ev = ResponseEventV::ReasoningContentDelta { delta: t, content_index: a.reasoning_index };
            lemma_counts_concat(eb, seq![ev]);
            lemma_single_event(ev);
            assert(eb.push(ev) =~= eb + seq![ev]);
        },
        None => {},
    }
    lemma_counts_concat(e1, e2);
    lemma_counts_concat(e1 + e2, e3);
}

proof fn lemma_tool_call_events_counts(bs: Seq<ToolCallBufferV>)
    ensures
        completed_count(tool_call_events(bs)) == 0,
    decreases bs.len(),
{
    if bs.len() > 0 {
        lemma_tool_call_events_counts(bs.drop_last());
        let item = final_item(bs.last());
        let pair = seq![ResponseEventV::OutputItemAdded(item), ResponseEventV::OutputItemDone(item)];
        lemma_counts_concat(tool_call_events(bs.drop_last()), pair);
        assert(pair.drop_last() =~= seq![ResponseEventV::OutputItemAdded(item)]);
        lemma_single_event(ResponseEventV::OutputItemAdded(item));
    }
}

/// The closing events end with the single completion of the response.
pub proof fn lemma_finish_ends_with_completion(s: StreamStateV)
    ensures
        finish_events(s).len() > 0,
        finish_events(s).last() == completion_event(s),
        completed_count(finish_events(s)) == 1,
{
    let bs = buffers_in_order(s.tool_calls);
    lemma_tool_call_events_counts(bs);
    let head = text_done_events(s) + tool_call_events(bs);
    lemma_counts_concat(text_done_events(s), tool_call_events(bs));
    lemma_counts_concat(head, seq![completion_event(s)]);
    lemma_single_event(completion_event(s));
    if s.text_item_id is Some {
        lemma_single_event(text_done_events(s)[0]);
        assert(text_done_events(s) =~= seq![text_done_events(s)[0]]);
    } else {
        assert(completed_count(Seq::<ResponseEventV>::empty()) == 0);
    }
}

/// Every input keeps the state invariant; an emitting step grows the text by
/// exactly its text deltas and announces the assistant message at most once;
/// `[DONE]` and the end of the stream finish it, a read failure or an idle
/// timeout aborts it.
pub proof fn lemma_step_laws(s: StreamStateV, input: StreamInput)
    requires
        state_invariant(s),
    ensures
        state_invariant(stepped(s, input).0),
        stepped(s, input).1 matches StreamStepV::Emit(es) ==> stepped(s, input).0.text == s.text
            + text_of(es) && added_count(es) <= 1 && completed_count(es) == 0,
        input is Closed ==> stepped(s, input).1 is Finish,
        (input matches StreamInput::Data { data, .. } && data@ == "[DONE]"@) ==> stepped(
            s,
            input,
        ).1 is Finish,
        input is Failed ==> stepped(s, input).1 is Abort,
        input is IdleTimeout ==> stepped(s, input).1 is Abort,
{
    match input {
        StreamInput::Data { data, chunk } => {
            if data@ != "[DONE]"@ {
                match chunk {
                    Some(c) => {
                        lemma_chunk_laws(s, c@);
                    },
                    None => {
                        assert(text_of(Seq::<ResponseEventV>::empty()) == Seq::<char>::empty());
                        assert(s.text + Seq::<char>::empty() =~= s.text);
                        assert(added_count(Seq::<ResponseEventV>::empty()) == 0);
                        assert(completed_count(Seq::<ResponseEventV>::empty()) == 0);
                    },
                }
            }
        },
        _ => {},
    }
}

/// The completion reports the stream's usage: input tokens are the prompt
/// tokens, output tokens the completion tokens, the total their sum, and
/// nothing is counted as cached or as reasoning; without usage it reports
/// none. It carries the response id and ends the turn exactly on `stop`.
pub proof fn lemma_completion_usage(s: StreamStateV)
    requires
        usage_total_fits(s.usage),
    ensures
        completion_event(s) matches ResponseEventV::Completed { response_id, token_usage, end_turn } && response_id
            == s.response_id && (end_turn == Some(true) <==> s.finish_reason == Some("stop"@)) && match s.usage {
            Some(u) => token_usage matches Some(t) && t.input_tokens == u.prompt_tokens && t.output_tokens
                == u.completion_tokens && t.total_tokens == u.prompt_tokens + u.completion_tokens
                && t.cached_input_tokens == 0 && t.reasoning_output_tokens == 0,
            None => token_usage is None,
        },
{
}

/// The turn ends exactly when the finish reason is `stop`.
pub proof fn lemma_end_turn(finish_reason: Option<Seq<char>>)
    ensures
        end_turn_of(finish_reason) == Some(true) <==> finish_reason == Some("stop"@),
        finish_reason is None <==> end_turn_of(finish_reason) is None,
{
}

// ── The assistant message is announced before its content ───────────────────
/// Whether `e` carries content of the assistant message.
pub open spec fn is_content_delta(e: ResponseEventV) -> bool {
    e is OutputTextDelta || e is ReasoningContentDelta
}

/// Every text or reasoning delta of `es` comes after an `OutputItemAdded` of
/// `es`, unless the message was `announced` before `es` began.
pub open spec fn deltas_follow_announcement(announced: bool, es: Seq<ResponseEventV>) -> bool {
    forall|i: int|
        0 <= i < es.len() && is_content_delta(#[trigger] es[i]) ==> announced || exists|j: int|
            0 <= j < i && (#[trigger] es[j]) is OutputItemAdded
}

/// The state and the events after a run of chunks, applied in order.
pub open spec fn chunks_applied(s: StreamStateV, cs: Seq<ChunkV>) -> (StreamStateV, Seq<ResponseEventV>)
    decreases cs.len(),
{
    if cs.len() == 0 {
        (s, Seq::empty())
    } else {
        let (s1, e1) = chunks_applied(s, cs.drop_last());
        let (s2, e2) = chunk_applied(s1, cs.last());
        (s2, e1 + e2)
    }
}

proof fn lemma_added_witness(es: Seq<ResponseEventV>)
    requires
        added_count(es) > 0,
    ensures
        exists|j: int| 0 <= j < es.len() && (#[trigger] es[j]) is OutputItemAdded,
    decreases es.len(),
{
    let init = es.drop_last();
    if es.last() is OutputItemAdded {
        assert(es[es.len() - 1] is OutputItemAdded);
    } else {
        lemma_added_witness(init);
        let j = choose|j: int| 0 <= j < init.len() && (#[trigger] init[j]) is OutputItemAdded;
        assert(es[j] == init[j]);
    }
}

proof fn lemma_follow_concat(a: bool, b: bool, x: Seq<ResponseEventV>, y: Seq<ResponseEventV>)
    requires
        deltas_follow_announcement(a, x),
        deltas_follow_announcement(b, y),
        b ==> a || added_count(x) > 0,
    ensures
        deltas_follow_announcement(a, x + y),
{
    let xy = x + y;
    assert forall|i: int| 0 <= i < xy.len() && is_content_delta(#[trigger] xy[i]) implies a || exists|j: int|
        0 <= j < i && (#[trigger] xy[j]) is OutputItemAdded by {
        if i < x.len() {
            assert(xy[i] == x[i]);
            if !a {
                let j = choose|j: int| 0 <= j < i && (#[trigger] x[j]) is OutputItemAdded;
                assert(xy[j] == x[j]);
            }
        } else {
            let k = i - x.len();
            assert(xy[i] == y[k]);
            if !a {
                if added_count(x) > 0 {
                    lemma_added_witness(x);
                    let j = choose|j: int| 0 <= j < x.len() && (#[trigger] x[j]) is OutputItemAdded;
                    assert(xy[j] == x[j]);
                } else {
                    let j = choose|j: int| 0 <= j < k && (#[trigger] y[j]) is OutputItemAdded;
                    assert(xy[j + x.len()] == y[j]);
                }
            }
        }
    }
}

proof fn lemma_announce_then(s: StreamStateV, ev: ResponseEventV)
    ensures
        deltas_follow_announcement(s.text_item_id is Some, announced(s).1.push(ev)),
        announced(s).0.text_item_id is Some,
        s.text_item_id is None ==> added_count(announced(s).1.push(ev)) > 0,
{
    let es = announced(s).1.push(ev);
    if s.text_item_id is None {
        let added = announced(s).1[0];
        assert(es[0] == added);
        assert(es.drop_last() =~= seq![added]);
        lemma_single_event(added);
    }
}

proof fn lemma_tool_deltas_no_content(bs: Map<usize, ToolCallBufferV>, ds: Seq<ToolCallDeltaV>)
    ensures
        forall|i: int|
            0 <= i < tool_deltas_applied(bs, ds).1.len() ==> (#[trigger] tool_deltas_applied(
                bs,
                ds,
            ).1[i]) is ToolCallInputDelta,
    decreases ds.len(),
{
    if ds.len() > 0 {
        lemma_tool_deltas_no_content(bs, ds.drop_last());
        let (b1, e1) = tool_deltas_applied(bs, ds.drop_last());
        let (b2, e2) = tool_delta_applied(b1, ds.last());
        let es = e1 + e2;
        assert forall|i: int| 0 <= i < es.len() implies (#[trigger] es[i]) is ToolCallInputDelta by {
            if i < e1.len() {
                assert(es[i] == e1[i]);
            } else {
                assert(es[i] == e2[i - e1.len()]);
            }
        }
    }
}

proof fn lemma_choice_follows(s: StreamStateV, c: ChunkChoiceV)
    ensures
        deltas_follow_announcement(s.text_item_id is Some, choice_applied(s, c).1),
{
    let (s1, e1) = text_applied(s, c.content);
    let (s2, e2) = reasoning_applied(s1, c.reasoning_content);
    let e3 = match c.tool_calls {
        Some(ds) => tool_deltas_applied(s2.tool_calls, ds).1,
        None => Seq::empty(),
    };
    match c.content {
        Some(t) => if t.len() > 0 {
            lemma_announce_then(s, ResponseEventV::OutputTextDelta(t));
        },
        None => {},
    }
    match c.reasoning_content {
        Some(t) => if t.len() > 0 {
            lemma_announce_then(
                s1,
                ResponseEventV::ReasoningContentDelta {
                    delta: t,
                    content_index: announced(s1).0.reasoning_index,
                },
            );
        },
        None => {},
    }
    match c.tool_calls {
        Some(ds) => lemma_tool_deltas_no_content(s2.tool_calls, ds),
        None => {},
    }
    lemma_follow_concat(s.text_item_id is Some, s1.text_item_id is Some, e1, e2);
    lemma_follow_concat(s.text_item_id is Some, false, e1 + e2, e3);
}

proof fn lemma_choices_follow(s: StreamStateV, cs: Seq<ChunkChoiceV>)
    requires
        state_invariant(s),
    ensures
        deltas_follow_announcement(s.text_item_id is Some, choices_applied(s, cs).1),
    decreases cs.len(),
{
    if cs.len() > 0 {
        lemma_choices_follow(s, cs.drop_last());
        lemma_choices_laws(s, cs.drop_last());
        let (s1, e1) = choices_applied(s, cs.drop_last());
        lemma_choice_follows(s1, cs.last());
        lemma_follow_concat(s.text_item_id is Some, s1.text_item_id is Some, e1, choice_applied(s1, cs.last()).1);
    }
}

/// The assistant message is announced before its content, once: over any run
/// of chunks from the start of a stream, every text or reasoning delta comes
/// after an `OutputItemAdded`, and the chunks yield at most one
/// `OutputItemAdded`.
pub proof fn lemma_announced_before_content(cs: Seq<ChunkV>)
    ensures
        deltas_follow_announcement(false, chunks_applied(initial_state(), cs).1),
        added_count(chunks_applied(initial_state(), cs).1) <= 1,
        state_invariant(chunks_applied(initial_state(), cs).0),
        chunks_applied(initial_state(), cs).0.text_item_id is Some <==> added_count(
            chunks_applied(initial_state(), cs).1,
        ) > 0,
    decreases cs.len(),
{
    if cs.len() == 0 {
        assert(added_count(Seq::<ResponseEventV>::empty()) == 0);
    } else {
        lemma_announced_before_content(cs.drop_last());
        let (s1, e1) = chunks_applied(initial_state(), cs.drop_last());
        let c = cs.last();
        let (s2, e2) = chunk_applied(s1, c);
        lemma_chunk_laws(s1, c);
        lemma_chunk_follows(s1, c);
        lemma_counts_concat(e1, e2);
        lemma_follow_concat(false, s1.text_item_id is Some, e1, e2);
    }
}

proof fn lemma_chunk_follows(s: StreamStateV, c: ChunkV)
    requires
        state_invariant(s),
    ensures
        deltas_follow_announcement(s.text_item_id is Some, chunk_applied(s, c).1),
        chunk_applied(s, c).0.text_item_id is Some <==> (s.text_item_id is Some || added_count(
            chunk_applied(s, c).1,
        ) > 0),
{
    let s1 = match c.id {
        Some(id) => if s.response_id.len() == 0 && id.len() > 0 {
            StreamStateV { response_id: id, ..s }
        } else {
            s
        },
        None => s,
    };
    let s2 = match c.usage {
        Some(u) => StreamStateV { usage: Some(u), ..s1 },
        None => s1,
    };
    lemma_choices_follow(s2, c.choices);
    lemma_choices_laws(s2, c.choices);
}

// ── The order of a whole stream ─────────────────────────────────────────────
/// Whether `e` announces an assistant message.
pub open spec fn is_message_added(e: ResponseEventV) -> bool {
    e matches ResponseEventV::OutputItemAdded(ResponseItemV::Message { .. })
}

/// How many events announce an assistant message.
pub open spec fn message_added_count(es: Seq<ResponseEventV>) -> nat
    decreases es.len(),
{
    if es.len() == 0 {
        0
    } else {
        message_added_count(es.drop_last()) + if is_message_added(es.last()) { 1nat } else { 0nat }
    }
}

/// No event of `es` carries message content.
pub open spec fn no_content_deltas(es: Seq<ResponseEventV>) -> bool {
    forall|i: int| 0 <= i < es.len() ==> !is_content_delta(#[trigger] es[i])
}

/// Every `OutputItemAdded` of `es` announces the placeholder message `id`.
pub open spec fn only_placeholder_added(es: Seq<ResponseEventV>, id: Seq<char>) -> bool {
    forall|i: int|
        0 <= i < es.len() && (#[trigger] es[i]) is OutputItemAdded ==> es[i]
            == ResponseEventV::OutputItemAdded(placeholder_item(id))
}

/// Whether a choice carries message content: non-empty text or reasoning.
pub open spec fn choice_has_content(c: ChunkChoiceV) -> bool {
    (c.content matches Some(t) && t.len() > 0) || (c.reasoning_content matches Some(t) && t.len() > 0)
}

/// Whether any of the choices carries message content.
pub open spec fn any_content(cs: Seq<ChunkChoiceV>) -> bool
    decreases cs.len(),
{
    cs.len() > 0 && (any_content(cs.drop_last()) || choice_has_content(cs.last()))
}

/// The response id after a chunk with id `id`: the first non-empty id wins.
pub open spec fn response_id_after(rid: Seq<char>, id: Option<Seq<char>>) -> Seq<char> {
    match id {
        Some(i) => if rid.len() == 0 && i.len() > 0 { i } else { rid },
        None => rid,
    }
}

/// The first non-empty id among the chunks, or the empty text.
pub open spec fn first_chunk_id(cs: Seq<ChunkV>) -> Seq<char>
    decreases cs.len(),
{
    if cs.len() == 0 {
        Seq::empty()
    } else {
        response_id_after(first_chunk_id(cs.drop_last()), cs.last().id)
    }
}

/// The id of the assistant message of a run of chunks: `None` while no chunk
/// has carried content; otherwise the placeholder id made from the first
/// non-empty chunk id up to and including the first chunk with content.
pub open spec fn message_id(cs: Seq<ChunkV>) -> Option<Seq<char>>
    decreases cs.len(),
{
    if cs.len() == 0 {
        None
    } else {
        match message_id(cs.drop_last()) {
            Some(id) => Some(id),
            None => if any_content(cs.last().choices) {
                Some(placeholder_id(first_chunk_id(cs)))
            } else {
                None
            },
        }
    }
}

/// The item that closes the assistant message `id` holding `text`.
pub open spec fn closing_message(id: Seq<char>, text: Seq<char>) -> ResponseItemV {
    ResponseItemV::Message {
        id: Some(id),
        role: "assistant"@,
        content: seq![ContentItemV::OutputText { text }],
        phase: None,
    }
}

/// Whether an input is an ordinary event of a stream that goes on: data
/// other than `[DONE]` that is a chunk or is not an upstream error.
pub open spec fn ordinary_input(input: StreamInput) -> bool {
    input matches StreamInput::Data { data, chunk } && data@ != "[DONE]"@ && (chunk is Some
        || upstream_error(data@) is None)
}

/// Whether an input ends the stream normally: `[DONE]` or the end of the
/// byte stream.
pub open spec fn ends_stream(input: StreamInput) -> bool {
    input is Closed || (input matches StreamInput::Data { data, .. } && data@ == "[DONE]"@)
}

/// The state and the emitted events after a run of inputs, applied in order.
pub open spec fn inputs_applied(s: StreamStateV, ins: Seq<StreamInput>) -> (StreamStateV, Seq<ResponseEventV>)
    decreases ins.len(),
{
    if ins.len() == 0 {
        (s, Seq::empty())
    } else {
        let (s1, e1) = inputs_applied(s, ins.drop_last());
        let (s2, step) = stepped(s1, ins.last());
        (
            s2,
            e1 + match step {
                StreamStepV::Emit(es) => es,
                _ => Seq::empty(),
            },
        )
    }
}

/// The chunks among the inputs, in order.
pub open spec fn chunks_of(ins: Seq<StreamInput>) -> Seq<ChunkV>
    decreases ins.len(),
{
    if ins.len() == 0 {
        Seq::empty()
    } else {
        chunks_of(ins.drop_last()) + match ins.last() {
            StreamInput::Data { chunk: Some(c), .. } => seq![c@],
            _ => Seq::empty(),
        }
    }
}

/// Everything a driver sends for a stream of inputs `ins` ended by `last`:
/// the events of each step, then the closing events.
pub open spec fn stream_events(ins: Seq<StreamInput>, last: StreamInput) -> Seq<ResponseEventV> {
    let (s, es) = inputs_applied(initial_state(), ins);
    es + finish_events(stepped(s, last).0)
}

proof fn lemma_message_counts_concat(a: Seq<ResponseEventV>, b: Seq<ResponseEventV>)
    ensures
        message_added_count(a + b) == message_added_count(a) + message_added_count(b),
    decreases b.len(),
{
    if b.len() == 0 {
        assert(a + b =~= a);
    } else {
        lemma_message_counts_concat(a, b.drop_last());
        assert((a + b).drop_last() =~= a + b.drop_last());
    }
}

proof fn lemma_placeholder_concat(a: Seq<ResponseEventV>, b: Seq<ResponseEventV>, id: Seq<char>)
    requires
        only_placeholder_added(a, id),
        only_placeholder_added(b, id),
    ensures
        only_placeholder_added(a + b, id),
{
    let ab = a + b;
    assert forall|i: int| 0 <= i < ab.len() && (#[trigger] ab[i]) is OutputItemAdded implies ab[i]
        == ResponseEventV::OutputItemAdded(placeholder_item(id)) by {
        if i < a.len() {
            assert(ab[i] == a[i]);
        } else {
            assert(ab[i] == b[i - a.len()]);
        }
    }
}

proof fn lemma_no_content_concat(a: Seq<ResponseEventV>, b: Seq<ResponseEventV>)
    requires
        no_content_deltas(a),
        no_content_deltas(b),
    ensures
        no_content_deltas(a + b),
{
    let ab = a + b;
    assert forall|i: int| 0 <= i < ab.len() implies !is_content_delta(#[trigger] ab[i]) by {
        if i < a.len() {
            assert(ab[i] == a[i]);
        } else {
            assert(ab[i] == b[i - a.len()]);
        }
    }
}

/// When every `OutputItemAdded` announces the placeholder message, the
/// message announcements are all of them.
proof fn lemma_placeholder_counts(es: Seq<ResponseEventV>, id: Seq<char>)
    requires
        only_placeholder_added(es, id),
    ensures
        message_added_count(es) == added_count(es),
    decreases es.len(),
{
    if es.len() > 0 {
        let init = es.drop_last();
        assert forall|i: int| 0 <= i < init.len() && (#[trigger] init[i]) is OutputItemAdded implies init[i]
            == ResponseEventV::OutputItemAdded(placeholder_item(id)) by {
            assert(init[i] == es[i]);
        }
        lemma_placeholder_counts(init, id);
        assert(es.last() == es[es.len() - 1]);
    }
}

proof fn lemma_announced_events(s: StreamStateV, ev: ResponseEventV)
    requires
        is_content_delta(ev),
    ensures
        only_placeholder_added(announced(s).1.push(ev), placeholder_id(s.response_id)),
        announced(s).0.response_id == s.response_id,
        announced(s).0.text_item_id == (match s.text_item_id {
            Some(id) => Some(id),
            None => Some(placeholder_id(s.response_id)),
        }),
{
    let es = announced(s).1.push(ev);
    assert forall|i: int| 0 <= i < es.len() && (#[trigger] es[i]) is OutputItemAdded implies es[i]
        == ResponseEventV::OutputItemAdded(placeholder_item(placeholder_id(s.response_id))) by {
        if s.text_item_id is None && i == 0 {
            assert(es[0] == announced(s).1[0]);
        }
    }
}

proof fn lemma_choice_message(s: StreamStateV, c: ChunkChoiceV)
    ensures
        choice_applied(s, c).0.response_id == s.response_id,
        only_placeholder_added(choice_applied(s, c).1, placeholder_id(s.response_id)),
        s.text_item_id is Some ==> choice_applied(s, c).0.text_item_id == s.text_item_id,
        s.text_item_id is None ==> choice_applied(s, c).0.text_item_id == (if choice_has_content(c) {
            Some(placeholder_id(s.response_id))
        } else {
            None
        }),
        !choice_has_content(c) ==> no_content_deltas(choice_applied(s, c).1),
{
    let pid = placeholder_id(s.response_id);
    let (s1, e1) = text_applied(s, c.content);
    let (s2, e2) = reasoning_applied(s1, c.reasoning_content);
    let e3 = match c.tool_calls {
        Some(ds) => tool_deltas_applied(s2.tool_calls, ds).1,
        None => Seq::empty(),
    };
    match c.content {
        Some(t) => if t.len() > 0 {
            lemma_announced_events(s, ResponseEventV::OutputTextDelta(t));
        },
        None => {},
    }
    assert(s1.response_id == s.response_id);
    match c.reasoning_content {
        Some(t) => if t.len() > 0 {
            lemma_announced_events(
                s1,
                ResponseEventV::ReasoningContentDelta {
                    delta: t,
                    content_index: announced(s1).0.reasoning_index,
                },
            );
        },
        None => {},
    }
    match c.tool_calls {
        Some(ds) => lemma_tool_deltas_no_content(s2.tool_calls, ds),
        None => {},
    }
    assert(only_placeholder_added(e3, pid));
    assert(no_content_deltas(e3));
    lemma_placeholder_concat(e1, e2, pid);
    lemma_placeholder_concat(e1 + e2, e3, pid);
    if !choice_has_content(c) {
        assert(e1 =~= Seq::<ResponseEventV>::empty());
        assert(e2 =~= Seq::<ResponseEventV>::empty());
        assert(e1 + e2 + e3 =~= e3);
    }
}

proof fn lemma_choices_message(s: StreamStateV, cs: Seq<ChunkChoiceV>)
    ensures
        choices_applied(s, cs).0.response_id == s.response_id,
        only_placeholder_added(choices_applied(s, cs).1, placeholder_id(s.response_id)),
        s.text_item_id is Some ==> choices_applied(s, cs).0.text_item_id == s.text_item_id,
        s.text_item_id is None ==> choices_applied(s, cs).0.text_item_id == (if any_content(cs) {
            Some(placeholder_id(s.response_id))
        } else {
            None
        }),
        !any_content(cs) ==> no_content_deltas(choices_applied(s, cs).1),
    decreases cs.len(),
{
    if cs.len() > 0 {
        lemma_choices_message(s, cs.drop_last());
        let (s1, e1) = choices_applied(s, cs.drop_last());
        lemma_choice_message(s1, cs.last());
        let (s2, e2) = choice_applied(s1, cs.last());
        lemma_placeholder_concat(e1, e2, placeholder_id(s.response_id));
        if !any_content(cs) {
            lemma_no_content_concat(e1, e2);
        }
    }
}

proof fn lemma_chunk_message(s: StreamStateV, c: ChunkV)
    ensures
        chunk_applied(s, c).0.response_id == response_id_after(s.response_id, c.id),
        only_placeholder_added(chunk_applied(s, c).1, placeholder_id(response_id_after(s.response_id, c.id))),
        s.text_item_id is Some ==> chunk_applied(s, c).0.text_item_id == s.text_item_id,
        s.text_item_id is None ==> chunk_applied(s, c).0.text_item_id == (if any_content(c.choices) {
            Some(placeholder_id(response_id_after(s.response_id, c.id)))
        } else {
            None
        }),
        !any_content(c.choices) ==> no_content_deltas(chunk_applied(s, c).1),
{
    let s1 = match c.id {
        Some(id) => if s.response_id.len() == 0 && id.len() > 0 {
            StreamStateV { response_id: id, ..s }
        } else {
            s
        },
        None => s,
    };
    let s2 = match c.usage {
        Some(u) => StreamStateV { usage: Some(u), ..s1 },
        None => s1,
    };
    lemma_choices_message(s2, c.choices);
}

/// What a run of chunks from the start of a stream has built: the response
/// id, the message id, the accumulated text, and which announcements and
/// deltas its events hold.
proof fn lemma_run_message(cs: Seq<ChunkV>)
    ensures
        chunks_applied(initial_state(), cs).0.response_id == first_chunk_id(cs),
        chunks_applied(initial_state(), cs).0.text_item_id == message_id(cs),
        chunks_applied(initial_state(), cs).0.text == text_of(chunks_applied(initial_state(), cs).1),
        completed_count(chunks_applied(initial_state(), cs).1) == 0,
        message_id(cs) matches Some(id) ==> only_placeholder_added(chunks_applied(initial_state(), cs).1, id),
        message_id(cs) is None ==> no_content_deltas(chunks_applied(initial_state(), cs).1),
    decreases cs.len(),
{
    if cs.len() == 0 {
        assert(text_of(Seq::<ResponseEventV>::empty()) =~= Seq::<char>::empty());
        assert(completed_count(Seq::<ResponseEventV>::empty()) == 0);
    } else {
        lemma_run_message(cs.drop_last());
        lemma_announced_before_content(cs.drop_last());
        let (s1, e1) = chunks_applied(initial_state(), cs.drop_last());
        let c = cs.last();
        let (s2, e2) = chunk_applied(s1, c);
        lemma_chunk_message(s1, c);
        lemma_chunk_laws(s1, c);
        lemma_counts_concat(e1, e2);
        assert(s2.text =~= text_of(e1 + e2));
        match message_id(cs.drop_last()) {
            Some(id) => {
                assert(added_count(e2) == 0);
                assert(only_placeholder_added(e2, id)) by {
                    assert forall|i: int| 0 <= i < e2.len() && (#[trigger] e2[i]) is OutputItemAdded implies e2[i]
                        == ResponseEventV::OutputItemAdded(placeholder_item(id)) by {
                        lemma_added_witness_count(e2, i);
                    }
                }
                lemma_placeholder_concat(e1, e2, id);
            },
            None => {
                if any_content(c.choices) {
                    assert(added_count(e1) == 0);
                    assert(only_placeholder_added(e1, placeholder_id(first_chunk_id(cs)))) by {
                        assert forall|i: int| 0 <= i < e1.len() && (#[trigger] e1[i]) is OutputItemAdded implies e1[i]
                            == ResponseEventV::OutputItemAdded(placeholder_item(placeholder_id(first_chunk_id(cs)))) by {
                            lemma_added_witness_count(e1, i);
                        }
                    }
                    lemma_placeholder_concat(e1, e2, placeholder_id(first_chunk_id(cs)));
                } else {
                    lemma_no_content_concat(e1, e2);
                }
            },
        }
    }
}

/// An `OutputItemAdded` at `i` makes the count of them positive.
proof fn lemma_added_witness_count(es: Seq<ResponseEventV>, i: int)
    requires
        0 <= i < es.len(),
        es[i] is OutputItemAdded,
    ensures
        added_count(es) > 0,
    decreases es.len(),
{
    if i < es.len() - 1 {
        assert(es.drop_last()[i] == es[i]);
        lemma_added_witness_count(es.drop_last(), i);
    }
}

proof fn lemma_tool_call_events_plain(bs: Seq<ToolCallBufferV>)
    ensures
        message_added_count(tool_call_events(bs)) == 0,
        no_content_deltas(tool_call_events(bs)),
    decreases bs.len(),
{
    if bs.len() > 0 {
        lemma_tool_call_events_plain(bs.drop_last());
        let item = final_item(bs.last());
        let pair = seq![ResponseEventV::OutputItemAdded(item), ResponseEventV::OutputItemDone(item)];
        assert(!(item is Message));
        lemma_message_counts_concat(tool_call_events(bs.drop_last()), pair);
        assert(pair.drop_last() =~= seq![ResponseEventV::OutputItemAdded(item)]);
        assert(seq![ResponseEventV::OutputItemAdded(item)].drop_last() =~= Seq::<ResponseEventV>::empty());
        assert(message_added_count(Seq::<ResponseEventV>::empty()) == 0);
        assert(message_added_count(seq![ResponseEventV::OutputItemAdded(item)]) == 0);
        assert(message_added_count(pair) == 0);
        assert(no_content_deltas(pair));
        lemma_no_content_concat(tool_call_events(bs.drop_last()), pair);
    }
}

/// The closing events announce no message and carry no content; they start
/// with the closing message when the message was announced.
proof fn lemma_finish_plain(s: StreamStateV)
    ensures
        message_added_count(finish_events(s)) == 0,
        no_content_deltas(finish_events(s)),
        s.text_item_id matches Some(id) ==> finish_events(s)[0] == ResponseEventV::OutputItemDone(
            closing_message(id, s.text),
        ),
{
    let t = text_done_events(s);
    let bs = buffers_in_order(s.tool_calls);
    let c = seq![completion_event(s)];
    lemma_tool_call_events_plain(bs);
    assert(c.drop_last() =~= Seq::<ResponseEventV>::empty());
    if s.text_item_id is Some {
        assert(t.drop_last() =~= Seq::<ResponseEventV>::empty());
    }
    assert(no_content_deltas(t));
    assert(no_content_deltas(c));
    assert(message_added_count(Seq::<ResponseEventV>::empty()) == 0);
    assert(message_added_count(t) == 0);
    assert(message_added_count(c) == 0);
    lemma_message_counts_concat(t, tool_call_events(bs));
    lemma_message_counts_concat(t + tool_call_events(bs), c);
    lemma_no_content_concat(t, tool_call_events(bs));
    lemma_no_content_concat(t + tool_call_events(bs), c);
}

/// Ordinary inputs act as the chunks among them.
proof fn lemma_inputs_as_chunks(s: StreamStateV, ins: Seq<StreamInput>)
    requires
        forall|i: int| 0 <= i < ins.len() ==> ordinary_input(#[trigger] ins[i]),
    ensures
        inputs_applied(s, ins) == chunks_applied(s, chunks_of(ins)),
    decreases ins.len(),
{
    if ins.len() > 0 {
        let init = ins.drop_last();
        assert forall|i: int| 0 <= i < init.len() implies ordinary_input(#[trigger] init[i]) by {
            assert(init[i] == ins[i]);
        }
        lemma_inputs_as_chunks(s, init);
        let last = ins.last();
        assert(ordinary_input(ins[ins.len() - 1]));
        let (s1, e1) = inputs_applied(s, init);
        match last {
            StreamInput::Data { data, chunk } => match chunk {
                Some(c) => {
                    assert(chunks_of(ins).drop_last() =~= chunks_of(init));
                    assert(chunks_of(ins).last() == c@);
                },
                None => {
                    assert(chunks_of(ins) =~= chunks_of(init));
                    assert(e1 + Seq::<ResponseEventV>::empty() =~= e1);
                },
            },
            _ => {},
        }
    }
}

/// The order of a whole stream that ends normally. Over every run of
/// ordinary inputs ended by `[DONE]` or the end of the stream, the events
/// sent are: when some chunk carried message content, exactly one
/// `OutputItemAdded` of an assistant message — the empty placeholder whose id
/// comes from the first non-empty chunk id up to the first chunk with
/// content — which comes before every text and reasoning delta; after all the
/// deltas, the `OutputItemDone` that closes that message with the whole text;
/// and last, one `Completed`. When no chunk carried content, no message is
/// announced and no delta is sent.
pub proof fn lemma_stream_event_order(ins: Seq<StreamInput>, last: StreamInput)
    requires
        forall|i: int| 0 <= i < ins.len() ==> ordinary_input(#[trigger] ins[i]),
        ends_stream(last),
    ensures
        stepped(inputs_applied(initial_state(), ins).0, last).1 is Finish,
        stream_events(ins, last).last() is Completed,
        completed_count(stream_events(ins, last)) == 1,
        message_id(chunks_of(ins)) matches Some(id) ==> {
            let es = stream_events(ins, last);
            let n = inputs_applied(initial_state(), ins).1.len();
            &&& message_added_count(es) == 1
            &&& forall|i: int| 0 <= i < es.len() && is_message_added(#[trigger] es[i]) ==> es[i]
                == ResponseEventV::OutputItemAdded(placeholder_item(id))
            &&& forall|i: int| 0 <= i < es.len() && is_content_delta(#[trigger] es[i]) ==> i < n && exists|j: int|
                0 <= j < i && es[j] == ResponseEventV::OutputItemAdded(placeholder_item(id))
            &&& n < es.len() - 1
            &&& es[n as int] == ResponseEventV::OutputItemDone(closing_message(id, text_of(es.take(n as int))))
        },
        message_id(chunks_of(ins)) is None ==> message_added_count(stream_events(ins, last)) == 0
            && no_content_deltas(stream_events(ins, last)),
{
    let cs = chunks_of(ins);
    lemma_inputs_as_chunks(initial_state(), ins);
    lemma_run_message(cs);
    lemma_announced_before_content(cs);
    let (s, e) = chunks_applied(initial_state(), cs);
    let s_end = stepped(s, last).0;
    assert(finish_events(s_end) == finish_events(s));
    let f = finish_events(s);
    let es = e + f;
    assert(es == stream_events(ins, last));
    lemma_finish_plain(s);
    lemma_finish_ends_with_completion(s);
    lemma_counts_concat(e, f);
    lemma_message_counts_concat(e, f);
    assert(es.last() == f.last());
    match message_id(cs) {
        Some(id) => {
            lemma_placeholder_counts(e, id);
            assert(es.take(e.len() as int) =~= e);
            assert(es[e.len() as int] == f[0]);
            assert forall|i: int| 0 <= i < es.len() && is_message_added(#[trigger] es[i]) implies es[i]
                == ResponseEventV::OutputItemAdded(placeholder_item(id)) by {
                if i < e.len() {
                    assert(es[i] == e[i]);
                } else {
                    assert(es[i] == f[i - e.len()]);
                    lemma_message_witness(f, i - e.len());
                }
            }
            assert forall|i: int| 0 <= i < es.len() && is_content_delta(#[trigger] es[i]) implies i < e.len()
                && exists|j: int| 0 <= j < i && es[j] == ResponseEventV::OutputItemAdded(placeholder_item(id)) by {
                if i >= e.len() {
                    assert(es[i] == f[i - e.len()]);
                } else {
                    assert(es[i] == e[i]);
                    let j = choose|j: int| 0 <= j < i && (#[trigger] e[j]) is OutputItemAdded;
                    assert(es[j] == e[j]);
                }
            }
        },
        None => {
            lemma_no_content_concat(e, f);
            assert(added_count(e) == 0);
            lemma_no_added_no_message(e);
        },
    }
}

proof fn lemma_message_witness(es: Seq<ResponseEventV>, i: int)
    requires
        0 <= i < es.len(),
        is_message_added(es[i]),
    ensures
        message_added_count(es) > 0,
    decreases es.len(),
{
    if i < es.len() - 1 {
        assert(es.drop_last()[i] == es[i]);
        lemma_message_witness(es.drop_last(), i);
    }
}

proof fn lemma_no_added_no_message(es: Seq<ResponseEventV>)
    requires
        added_count(es) == 0,
    ensures
        message_added_count(es) == 0,
    decreases es.len(),
{
    if es.len() > 0 {
        lemma_no_added_no_message(es.drop_last());
    }
}


// ── Laws of the tool calls ──────────────────────────────────────────────────
/// The argument fragments that the deltas carry, in order.
pub open spec fn fragments(ds: Seq<ToolCallDeltaV>) -> Seq<Seq<char>>
    decreases ds.len(),
{
    if ds.len() == 0 {
        Seq::empty()
    } else {
        fragments(ds.drop_last()) + match ds.last().function {
            Some(f) => match f.arguments {
                Some(a) => seq![a],
                None => Seq::empty(),
            },
            None => Seq::empty(),
        }
    }
}

/// The concatenation of the argument fragments that the deltas for stream
/// index `k` carry, in order.
pub open spec fn fragments_for(ds: Seq<ToolCallDeltaV>, k: usize) -> Seq<char>
    decreases ds.len(),
{
    if ds.len() == 0 {
        Seq::empty()
    } else {
        fragments_for(ds.drop_last(), k) + if ds.last().index == k {
            match ds.last().function {
                Some(f) => match f.arguments {
                    Some(a) => a,
                    None => Seq::empty(),
                },
                None => Seq::empty(),
            }
        } else {
            Seq::empty()
        }
    }
}

/// The payloads of the live tool-input events, in order.
pub open spec fn input_payloads(es: Seq<ResponseEventV>) -> Seq<Seq<char>>
    decreases es.len(),
{
    if es.len() == 0 {
        Seq::empty()
    } else {
        input_payloads(es.drop_last()) + match es.last() {
            ResponseEventV::ToolCallInputDelta { delta, .. } => seq![delta],
            _ => Seq::empty(),
        }
    }
}

/// The arguments accumulated for stream index `k` (none when it has no
/// buffer).
pub open spec fn args_of(m: Map<usize, ToolCallBufferV>, k: usize) -> Seq<char> {
    if m.contains_key(k) { m[k].args } else { Seq::empty() }
}

proof fn lemma_input_payloads_concat(a: Seq<ResponseEventV>, b: Seq<ResponseEventV>)
    ensures
        input_payloads(a + b) == input_payloads(a) + input_payloads(b),
    decreases b.len(),
{
    if b.len() == 0 {
        assert(a + b =~= a);
        assert(input_payloads(a) + input_payloads(b) =~= input_payloads(a));
    } else {
        lemma_input_payloads_concat(a, b.drop_last());
        assert((a + b).drop_last() =~= a + b.drop_last());
        assert(input_payloads(a + b) =~= input_payloads(a) + input_payloads(b));
    }
}

/// One tool-call delta: the live event carries exactly the delta's argument
/// fragment (and nothing when the delta has none), never the accumulated
/// text; the buffer of its index grows by exactly that fragment, and every
/// other buffer keeps its arguments.
pub proof fn lemma_tool_input_delta_is_fragment(m: Map<usize, ToolCallBufferV>, d: ToolCallDeltaV)
    ensures
        input_payloads(tool_delta_applied(m, d).1) == fragments(seq![d]),
        tool_delta_applied(m, d).1.len() == fragments(seq![d]).len(),
        forall|i: int|
            0 <= i < tool_delta_applied(m, d).1.len() ==> ((#[trigger] tool_delta_applied(m, d).1[i]) matches ResponseEventV::ToolCallInputDelta {
                call_id,
                ..
            } && call_id is None),
        args_of(tool_delta_applied(m, d).0, d.index) == args_of(m, d.index) + fragments_for(seq![d], d.index),
        forall|k: usize| k != d.index ==> args_of(tool_delta_applied(m, d).0, k) == args_of(m, k),
{
    let empty = Seq::<ResponseEventV>::empty();
    assert(seq![d].drop_last() =~= Seq::<ToolCallDeltaV>::empty());
    assert(seq![d].last() == d);
    let es = tool_delta_applied(m, d).1;
    if es.len() > 0 {
        assert(es.drop_last() =~= empty);
    } else {
        assert(es =~= empty);
    }
    assert(input_payloads(empty) =~= Seq::<Seq<char>>::empty());
    assert(fragments(Seq::<ToolCallDeltaV>::empty()) =~= Seq::<Seq<char>>::empty());
    assert(fragments_for(Seq::<ToolCallDeltaV>::empty(), d.index) =~= Seq::<char>::empty());
    let b = if m.contains_key(d.index) { m[d.index] } else { empty_buffer() };
    assert(Seq::<char>::empty() + Seq::<char>::empty() =~= Seq::<char>::empty());
    match d.function {
        Some(f) => match f.arguments {
            Some(a) => {
                assert(fragments(seq![d]) =~= seq![a]);
                assert(input_payloads(es) =~= seq![a]);
                assert(fragments_for(seq![d], d.index) =~= a);
            },
            None => {
                assert(fragments(seq![d]) =~= Seq::<Seq<char>>::empty());
                assert(fragments_for(seq![d], d.index) =~= Seq::<char>::empty());
                assert(args_of(m, d.index) + Seq::<char>::empty() =~= args_of(m, d.index));
            },
        },
        None => {
            assert(fragments(seq![d]) =~= Seq::<Seq<char>>::empty());
            assert(fragments_for(seq![d], d.index) =~= Seq::<char>::empty());
            assert(args_of(m, d.index) + Seq::<char>::empty() =~= args_of(m, d.index));
        },
    }
}

/// A run of tool-call deltas: the live events carry, in order, exactly the
/// argument fragments of the deltas, one event per fragment; and for every
/// stream index, the accumulated arguments are what they were followed by the
/// fragments of that index's deltas, in order.
pub proof fn lemma_tool_input_deltas_are_fragments(m: Map<usize, ToolCallBufferV>, ds: Seq<ToolCallDeltaV>)
    ensures
        input_payloads(tool_deltas_applied(m, ds).1) == fragments(ds),
        forall|k: usize| #[trigger] args_of(tool_deltas_applied(m, ds).0, k) == args_of(m, k) + fragments_for(ds, k),
    decreases ds.len(),
{
    if ds.len() == 0 {
        assert(input_payloads(Seq::<ResponseEventV>::empty()) =~= Seq::<Seq<char>>::empty());
        assert forall|k: usize| #[trigger] args_of(m, k) == args_of(m, k) + fragments_for(ds, k) by {
            assert(args_of(m, k) + Seq::<char>::empty() =~= args_of(m, k));
        }
    } else {
        let init = ds.drop_last();
        let d = ds.last();
        lemma_tool_input_deltas_are_fragments(m, init);
        let (m1, e1) = tool_deltas_applied(m, init);
        lemma_tool_input_delta_is_fragment(m1, d);
        let (m2, e2) = tool_delta_applied(m1, d);
        lemma_input_payloads_concat(e1, e2);
        assert(seq![d].drop_last() =~= Seq::<ToolCallDeltaV>::empty());
        assert(fragments(Seq::<ToolCallDeltaV>::empty()) =~= Seq::<Seq<char>>::empty());
        assert(fragments(ds) =~= fragments(init) + fragments(seq![d]));
        assert forall|k: usize| #[trigger] args_of(m2, k) == args_of(m, k) + fragments_for(ds, k) by {
            assert(fragments_for(Seq::<ToolCallDeltaV>::empty(), k) =~= Seq::<char>::empty());
            if k == d.index {
                assert(fragments_for(ds, k) =~= fragments_for(init, k) + fragments_for(seq![d], k));
                assert(args_of(m, k) + fragments_for(init, k) + fragments_for(seq![d], k) =~= args_of(m, k)
                    + fragments_for(ds, k));
            } else {
                assert(args_of(m1, k) == args_of(m, k) + fragments_for(init, k));
                assert(fragments_for(ds, k) =~= fragments_for(init, k));
            }
        }
    }
}

/// The shell command of a finished `grep` call (the model's content search).
pub open spec fn grep_shell_command(v: JsonV, pattern: Seq<char>) -> Seq<char> {
    "rg -n --color never "@ + shell_quoted(pattern) + match string_arg(v, "include"@) {
        Some(g) => " -g "@ + shell_quoted(g),
        None => Seq::empty(),
    } + match string_arg(v, "path"@) {
        Some(p) => " "@ + shell_quoted(p),
        None => Seq::empty(),
    }
}

/// The shell command of a finished `glob` call (the model's file listing).
pub open spec fn glob_shell_command(v: JsonV, pattern: Seq<char>) -> Seq<char> {
    "rg --files --hidden -g "@ + shell_quoted(pattern) + match string_arg(v, "path"@) {
        Some(p) => " "@ + shell_quoted(p),
        None => Seq::empty(),
    }
}

/// A `shell_command` function call with the given command, answering the
/// call `call_id`.
pub open spec fn shell_call(call_id: Seq<char>, command: Seq<char>) -> ResponseItemV {
    ResponseItemV::FunctionCall {
        id: None,
        name: "shell_command"@,
        namespace: None,
        arguments: single_member_object("command"@, json_quoted(command)),
        call_id,
    }
}

/// How each finished tool call is handed to the core handlers, by its name,
/// for every buffer whose arguments are a JSON object holding what the tool
/// needs: `grep` becomes a content search `rg -n --color never <pattern>
/// [-g <include>] [<path>]`, `glob` a file listing `rg --files --hidden -g
/// <pattern> [<path>]`, `read_file` a `cat` or `sed -n` of the file,
/// `edit_file` an update patch and `write_file` an add patch for the file,
/// each with the call's id; a direct `apply_patch` call keeps its name and
/// id; and a call whose arguments are not JSON, or lack what the tool needs,
/// or of any other tool, is forwarded as it came.
pub proof fn lemma_finished_tool_calls(b: ToolCallBufferV)
    ensures
        b.name == "grep"@ ==> match parsed_json(b.args) {
            Some(v) => match string_arg(v, "pattern"@) {
                Some(p) => final_item(b) == shell_call(b.id, grep_shell_command(v, p)),
                None => final_item(b) == function_call_item(b),
            },
            None => final_item(b) == function_call_item(b),
        },
        b.name == "glob"@ ==> match parsed_json(b.args) {
            Some(v) => match string_arg(v, "pattern"@) {
                Some(p) => final_item(b) == shell_call(b.id, glob_shell_command(v, p)),
                None => final_item(b) == function_call_item(b),
            },
            None => final_item(b) == function_call_item(b),
        },
        b.name == "read_file"@ ==> match parsed_json(b.args) {
            Some(v) => match string_arg(v, "file_path"@) {
                Some(path) => final_item(b) == shell_call(
                    b.id,
                    read_command(shell_quoted(path), int_arg(v, "offset"@), int_arg(v, "limit"@)),
                ),
                None => final_item(b) == function_call_item(b),
            },
            None => final_item(b) == function_call_item(b),
        },
        b.name == "edit_file"@ ==> match parsed_json(b.args) {
            Some(v) => match (string_arg(v, "file_path"@), string_arg(v, "old_string"@), string_arg(v, "new_string"@)) {
                (Some(path), Some(old), Some(new)) => final_item(b) == ResponseItemV::CustomToolCall {
                    id: Some(b.id),
                    status: None,
                    call_id: b.id,
                    name: "apply_patch"@,
                    input: update_patch(path, old, new),
                },
                _ => final_item(b) == function_call_item(b),
            },
            None => final_item(b) == function_call_item(b),
        },
        b.name == "write_file"@ ==> match parsed_json(b.args) {
            Some(v) => match (string_arg(v, "file_path"@), string_arg(v, "content"@)) {
                (Some(path), Some(content)) => final_item(b) == ResponseItemV::CustomToolCall {
                    id: Some(b.id),
                    status: None,
                    call_id: b.id,
                    name: "apply_patch"@,
                    input: add_patch(path, content),
                },
                _ => final_item(b) == function_call_item(b),
            },
            None => final_item(b) == function_call_item(b),
        },
        b.name == "apply_patch"@ ==> (final_item(b) matches ResponseItemV::CustomToolCall { id, call_id, name, .. }
            && id == Some(b.id) && call_id == b.id && name == "apply_patch"@),
        !(b.name == "grep"@ || b.name == "glob"@ || b.name == "read_file"@ || b.name == "edit_file"@ || b.name
            == "write_file"@ || b.name == "apply_patch"@) ==> final_item(b) == function_call_item(b),
{
    reveal_strlit("grep");
    reveal_strlit("glob");
    reveal_strlit("read_file");
    reveal_strlit("edit_file");
    reveal_strlit("write_file");
    reveal_strlit("apply_patch");
    assert("grep"@ != "glob"@) by {
        assert("grep"@[1] != "glob"@[1]);
    }
    assert("grep"@.len() == 4 && "glob"@.len() == 4 && "read_file"@.len() == 9 && "edit_file"@.len() == 9);
    assert("write_file"@.len() == 10 && "apply_patch"@.len() == 11);
    assert("edit_file"@ != "read_file"@) by {
        assert("edit_file"@[0] != "read_file"@[0]);
    }
}

fn apply_delta_to(b: ToolCallBuffer, d: &ToolCallDelta, events: &mut Vec<ResponseEvent>) -> (r: ToolCallBuffer)
    ensures
        r@ == delta_applied(b@, d@).0,
        events_view(final(events)@) == events_view(old(events)@) + delta_applied(b@, d@).1,
{
    let ghost b0 = b@;
    let mut b = b;
    match &d.id {
        Some(id) => {
            if !id.as_str().is_empty() {
                b.id = id.clone();
            }
        },
        None => {},
    }
    match &d.function {
        Some(f) => {
            match &f.name {
                Some(n) => {
                    b.name.append(n.as_str());
                },
                None => {},
            }
            match &f.arguments {
                Some(a) => {
                    b.args.append(a.as_str());
                    let item_id = if b.id.as_str().is_empty() {
                        let mut s = String::from_str("tool_call_");
                        push_decimal(&mut s, d.index as u64);
                        s
                    } else {
                        b.id.clone()
                    };
                    let ev = ResponseEvent::ToolCallInputDelta { item_id, call_id: None, delta: a.clone() };
                    let ghost before = events_view(events@);
                    events.push(ev);
                    assert(events_view(events@) =~= before + delta_applied(b0, d@).1);
                },
                None => {
                    assert(events_view(events@) =~= events_view(old(events)@) + Seq::empty());
                },
            }
        },
        None => {
            assert(events_view(events@) =~= events_view(old(events)@) + Seq::empty());
        },
    }
    assert(b@ =~= delta_applied(b0, d@).0);
    b
}

impl ChatCompletionsStreamState {
    /// The state before the first event.
    pub fn new() -> (s: Self)
        ensures
            s@ == initial_state(),
    {
        let s = ChatCompletionsStreamState {
            response_id: String::new(),
            tool_calls: BTreeMap::new(),
            accumulated_text: String::new(),
            finish_reason: None,
            usage: None,
            received_done: false,
            text_item_id: None,
            reasoning_content_index: 0,
        };
        assert(buffers_view(s.tool_calls@) =~= Map::empty());
        s
    }

    fn announce(&mut self, events: &mut Vec<ResponseEvent>)
        ensures
            final(self)@ == announced(old(self)@).0,
            events_view(final(events)@) == events_view(old(events)@) + announced(old(self)@).1,
    {
        if self.text_item_id.is_none() {
            let id = if self.response_id.as_str().is_empty() {
                String::from_str("chat_completions_msg_0")
            } else {
                self.response_id.clone().concat("_msg_0")
            };
            self.text_item_id = Some(id.clone());
            let content: Vec<ContentItem> = Vec::new();
            assert(crate::protocol::content_view(content@) =~= Seq::<ContentItemV>::empty());
            let ev = ResponseEvent::OutputItemAdded(
                ResponseItem::Message {
                    id: Some(id),
                    role: String::from_str("assistant"),
                    content,
                    phase: None,
                },
            );
            let ghost before = events_view(events@);
            events.push(ev);
            assert(events_view(events@) =~= before.push(ev@));
            assert(self@ =~= announced(old(self)@).0);
        } else {
            assert(events_view(events@) =~= events_view(old(events)@) + Seq::empty());
        }
    }

    fn apply_text(&mut self, content: &Option<String>, events: &mut Vec<ResponseEvent>)
        ensures
            final(self)@ == text_applied(old(self)@, opt_view(*content)).0,
            events_view(final(events)@) == events_view(old(events)@) + text_applied(
                old(self)@,
                opt_view(*content),
            ).1,
    {
        match content {
            Some(t) => {
                if !t.as_str().is_empty() {
                    self.announce(events);
                    let ghost mid = events_view(events@);
                    self.accumulated_text.append(t.as_str());
                    let ev = ResponseEvent::OutputTextDelta(t.clone());
                    events.push(ev);
                    assert(events_view(events@) =~= mid.push(ev@));
                    assert(self@ =~= text_applied(old(self)@, opt_view(*content)).0);
                    assert(events_view(events@) =~= events_view(old(events)@) + text_applied(
                        old(self)@,
                        opt_view(*content),
                    ).1);
                } else {
                    assert(events_view(events@) =~= events_view(old(events)@) + Seq::empty());
                }
            },
            None => {
                assert(events_view(events@) =~= events_view(old(events)@) + Seq::empty());
            },
        }
    }

    fn apply_tool_delta(&mut self, d: &ToolCallDelta, events: &mut Vec<ResponseEvent>)
        ensures
            final(self)@ == (StreamStateV {
                tool_calls: tool_delta_applied(old(self)@.tool_calls, d@).0,
                ..old(self)@
            }),
            events_view(final(events)@) == events_view(old(events)@) + tool_delta_applied(
                old(self)@.tool_calls,
                d@,
            ).1,
    {
        broadcast use vstd::std_specs::btree::group_btree_axioms;
        proof {
            lemma_index_keys_ordered();
        }
        let ghost m0 = self.tool_calls@;
        let b = match self.tool_calls.remove(&d.index) {
            Some(b) => b,
            None => ToolCallBuffer { id: String::new(), name: String::new(), args: String::new() },
        };
        assert(b@ == (if old(self)@.tool_calls.contains_key(d.index) {
            old(self)@.tool_calls[d.index]
        } else {
            empty_buffer()
        }));
        let b2 = apply_delta_to(b, d, events);
        self.tool_calls.insert(d.index, b2);
        assert(self.tool_calls@ == m0.insert(d.index, b2));
        assert(buffers_view(self.tool_calls@) =~= buffers_view(m0).insert(d.index, b2@));
        assert(self@ =~= StreamStateV {
            tool_calls: tool_delta_applied(old(self)@.tool_calls, d@).0,
            ..old(self)@
        });
    }

    fn apply_choice(&mut self, c: &ChunkChoice, events: &mut Vec<ResponseEvent>)
        ensures
            final(self)@ == choice_applied(old(self)@, c@).0,
            events_view(final(events)@) == events_view(old(events)@) + choice_applied(old(self)@, c@).1,
    {
        let ghost e0 = events_view(events@);
        self.apply_text(&c.delta.content, events);
        let ghost e1 = events_view(events@);
        self.apply_reasoning(&c.delta.reasoning_content, events);
        let ghost s2 = self@;
        let ghost e2 = events_view(events@);
        match &c.delta.tool_calls {
            Some(ds) => {
                let ghost dv = deltas_view(ds@);
                assert(dv.take(0) =~= Seq::<ToolCallDeltaV>::empty());
                assert(self@ =~= StreamStateV {
                    tool_calls: tool_deltas_applied(s2.tool_calls, dv.take(0)).0,
                    ..s2
                });
                assert(events_view(events@) =~= e2 + tool_deltas_applied(s2.tool_calls, dv.take(0)).1);
                let mut i: usize = 0;
                while i < ds.len()
                    invariant
                        i <= ds@.len(),
                        dv == deltas_view(ds@),
                        self@ == (StreamStateV {
                            tool_calls: tool_deltas_applied(s2.tool_calls, dv.take(i as int)).0,
                            ..s2
                        }),
                        events_view(events@) == e2 + tool_deltas_applied(s2.tool_calls, dv.take(i as int)).1,
                    decreases ds@.len() - i,
                {
                    assert(dv.take(i + 1).drop_last() =~= dv.take(i as int));
                    assert(dv.take(i + 1).last() == ds@[i as int]@);
                    let ghost eb = events_view(events@);
                    self.apply_tool_delta(&ds[i], events);
                    assert(events_view(events@) =~= e2 + tool_deltas_applied(s2.tool_calls, dv.take(i + 1)).1);
                    i = i + 1;
                }
                assert(dv.take(ds@.len() as int) =~= dv);
            },
            None => {
                assert(events_view(events@) =~= e2 + Seq::empty());
                assert(self@ =~= StreamStateV { tool_calls: s2.tool_calls, ..s2 });
            },
        }
        match &c.finish_reason {
            Some(fr) => {
                if !fr.as_str().is_empty() {
                    self.finish_reason = Some(fr.clone());
                }
            },
            None => {},
        }
        assert(self@ =~= choice_applied(old(self)@, c@).0);
        assert(events_view(events@) =~= events_view(old(events)@) + choice_applied(old(self)@, c@).1);
    }

    fn apply_chunk(&mut self, c: &ChatCompletionsChunk, events: &mut Vec<ResponseEvent>)
        ensures
            final(self)@ == chunk_applied(old(self)@, c@).0,
            events_view(final(events)@) == events_view(old(events)@) + chunk_applied(old(self)@, c@).1,
    {
        if self.response_id.as_str().is_empty() {
            match &c.id {
                Some(id) => {
                    if !id.as_str().is_empty() {
                        self.response_id = id.clone();
                    }
                },
                None => {},
            }
        }
        match c.usage {
            Some(u) => {
                self.usage = Some(u);
            },
            None => {},
        }
        let ghost s2 = self@;
        let ghost e2 = events_view(events@);
        let ghost cv = choices_view(c.choices@);
        assert(cv.take(0) =~= Seq::<ChunkChoiceV>::empty());
        assert(events_view(events@) =~= e2 + choices_applied(s2, cv.take(0)).1);
        let mut i: usize = 0;
        while i < c.choices.len()
            invariant
                i <= c.choices@.len(),
                cv == choices_view(c.choices@),
                self@ == choices_applied(s2, cv.take(i as int)).0,
                events_view(events@) == e2 + choices_applied(s2, cv.take(i as int)).1,
            decreases c.choices@.len() - i,
        {
            assert(cv.take(i + 1).drop_last() =~= cv.take(i as int));
            assert(cv.take(i + 1).last() == c.choices@[i as int]@);
            self.apply_choice(&c.choices[i], events);
            assert(events_view(events@) =~= e2 + choices_applied(s2, cv.take(i + 1)).1);
            i = i + 1;
        }
        assert(cv.take(c.choices@.len() as int) =~= cv);
        assert(s2 == (match c@.usage {
            Some(u) => StreamStateV { usage: Some(u), ..(match c@.id {
                Some(id) => if old(self)@.response_id.len() == 0 && id.len() > 0 {
                    StreamStateV { response_id: id, ..old(self)@ }
                } else {
                    old(self)@
                },
                None => old(self)@,
            }) },
            None => match c@.id {
                Some(id) => if old(self)@.response_id.len() == 0 && id.len() > 0 {
                    StreamStateV { response_id: id, ..old(self)@ }
                } else {
                    old(self)@
                },
                None => old(self)@,
            },
        }));
    }

    /// Takes one input from the stream and says what to do next.
    pub fn step(&mut self, input: &StreamInput) -> (r: StreamStep)
        ensures
            final(self)@ == stepped(old(self)@, *input).0,
            r@ == stepped(old(self)@, *input).1,
    {
        match input {
            StreamInput::Data { data, chunk } => {
                if str_eq(data.as_str(), "[DONE]") {
                    self.received_done = true;
                    assert(self@ =~= stepped(old(self)@, *input).0);
                    return StreamStep::Finish;
                }
                match chunk {
                    Some(c) => {
                        let mut events: Vec<ResponseEvent> = Vec::new();
                        assert(events_view(events@) =~= Seq::empty());
                        self.apply_chunk(c, &mut events);
                        assert(events_view(events@) =~= chunk_applied(old(self)@, c@).1);
                        StreamStep::Emit(events)
                    },
                    None => match upstream_error_message(data.as_str()) {
                        Some(m) => StreamStep::Abort(m),
                        None => {
                            let events: Vec<ResponseEvent> = Vec::new();
                            assert(events_view(events@) =~= Seq::empty());
                            StreamStep::Emit(events)
                        },
                    },
                }
            },
            StreamInput::Closed => StreamStep::Finish,
            StreamInput::Failed(m) => StreamStep::Abort(m.clone()),
            StreamInput::IdleTimeout => StreamStep::Abort(
                String::from_str("idle timeout waiting for SSE"),
            ),
        }
    }

    /// Whether the usage totals fit in an `i64`, so that [`Self::finish`] may
    /// add them.
    pub fn usage_total_fits(&self) -> (r: bool)
        ensures
            r == usage_total_fits(self@.usage),
    {
        match self.usage {
            Some(u) => {
                let total = u.prompt_tokens as i128 + u.completion_tokens as i128;
                i64::MIN as i128 <= total && total <= i64::MAX as i128
            },
            None => true,
        }
    }

    /// The events that close the stream: the assembled assistant message
    /// (whenever it was announced), each tool call in index order, and the
    /// completion.
    pub fn finish(self) -> (r: Vec<ResponseEvent>)
        requires
            usage_total_fits(self@.usage),
        ensures
            events_view(r@) == finish_events(self@),
    {
        let ghost sv = self@;
        let mut events: Vec<ResponseEvent> = Vec::new();
        if self.text_item_id.is_some() {
            let content = vec![ContentItem::OutputText { text: self.accumulated_text.clone() }];
            assert(crate::protocol::content_view(content@) =~= seq![
                ContentItemV::OutputText { text: sv.text },
            ]);
            events.push(
                ResponseEvent::OutputItemDone(
                    ResponseItem::Message {
                        id: self.text_item_id.clone(),
                        role: String::from_str("assistant"),
                        content,
                        phase: None,
                    },
                ),
            );
        }
        let ghost head = events_view(events@);
        assert(head =~= text_done_events(sv));
        broadcast use vstd::std_specs::btree::group_btree_axioms;
        proof {
            lemma_index_keys_ordered();
            lemma_keys_below_props(self.tool_calls@.dom(), index_bound());
        }
        assert(sv.tool_calls.dom() =~= self.tool_calls@.dom());
        let ghost bs = buffers_in_order(sv.tool_calls);
        let keys = ordered_keys_of(&self.tool_calls);
        assert(bs.take(0) =~= Seq::<ToolCallBufferV>::empty());
        assert(events_view(events@) =~= head + tool_call_events(bs.take(0)));
        let mut i: usize = 0;
        while i < keys.len()
            invariant
                i <= keys@.len(),
                keys@ == ordered_keys(self.tool_calls@.dom()),
                sv.tool_calls == buffers_view(self.tool_calls@),
                sv.tool_calls.dom() == self.tool_calls@.dom(),
                bs == buffers_in_order(sv.tool_calls),
                forall|x: usize| #[trigger] keys@.contains(x) ==> self.tool_calls@.contains_key(x),
                index_keys_ordered(),
                events_view(events@) == head + tool_call_events(bs.take(i as int)),
            decreases keys@.len() - i,
        {
            let k = keys[i];
            assert(keys@.contains(k));
            assert(bs.take(i + 1).drop_last() =~= bs.take(i as int));
            assert(bs[i as int] == sv.tool_calls[k]);
            match self.tool_calls.get(&k) {
                Some(b) => {
                    assert(b@ == bs[i as int]);
                    let item = final_item_of(b);
                    let copy = clone_item(&item);
                    let ghost before = events_view(events@);
                    events.push(ResponseEvent::OutputItemAdded(copy));
                    events.push(ResponseEvent::OutputItemDone(item));
                    let ghost fi = final_item(bs[i as int]);
                    assert(events_view(events@) =~= before + seq![
                        ResponseEventV::OutputItemAdded(fi),
                        ResponseEventV::OutputItemDone(fi),
                    ]);
                    assert(bs.take(i + 1).last() == bs[i as int]);
                    assert(tool_call_events(bs.take(i + 1)) == tool_call_events(bs.take(i as int)) + seq![
                        ResponseEventV::OutputItemAdded(fi),
                        ResponseEventV::OutputItemDone(fi),
                    ]);
                    assert(events_view(events@) =~= head + tool_call_events(bs.take(i + 1)));
                },
                None => {
                    assert(false);
                },
            }
            i = i + 1;
        }
        assert(bs.take(keys@.len() as int) =~= bs);
        let end_turn = match &self.finish_reason {
            Some(fr) => Some(str_eq(fr.as_str(), "stop")),
            None => None,
        };
        let token_usage = match self.usage {
            Some(u) => Some(
                TokenUsage {
                    input_tokens: u.prompt_tokens,
                    cached_input_tokens: 0,
                    output_tokens: u.completion_tokens,
                    reasoning_output_tokens: 0,
                    total_tokens: u.prompt_tokens + u.completion_tokens,
                },
            ),
            None => None,
        };
        let ghost before = events_view(events@);
        events.push(ResponseEvent::Completed { response_id: self.response_id, token_usage, end_turn });
        assert(events_view(events@) =~= before.push(completion_event(sv)));
        events
    }

    fn apply_reasoning(&mut self, reasoning: &Option<String>, events: &mut Vec<ResponseEvent>)
        ensures
            final(self)@ == reasoning_applied(old(self)@, opt_view(*reasoning)).0,
            events_view(final(events)@) == events_view(old(events)@) + reasoning_applied(
                old(self)@,
                opt_view(*reasoning),
            ).1,
    {
        match reasoning {
            Some(t) => {
                if !t.as_str().is_empty() {
                    self.announce(events);
                    let ghost mid = events_view(events@);
                    let ev = ResponseEvent::ReasoningContentDelta {
                        delta: t.clone(),
                        content_index: self.reasoning_content_index,
                    };
                    events.push(ev);
                    assert(events_view(events@) =~= mid.push(ev@));
                    self.reasoning_content_index = if self.reasoning_content_index == i64::MAX {
                        i64::MAX
                    } else {
                        self.reasoning_content_index + 1
                    };
                    assert(self@ =~= reasoning_applied(old(self)@, opt_view(*reasoning)).0);
                    assert(events_view(events@) =~= events_view(old(events)@) + reasoning_applied(
                        old(self)@,
                        opt_view(*reasoning),
                    ).1);
                } else {
                    assert(events_view(events@) =~= events_view(old(events)@) + Seq::empty());
                }
            },
            None => {
                assert(events_view(events@) =~= events_view(old(events)@) + Seq::empty());
            },
        }
    }
}

} // verus!
