//! Types and conversion logic for the OpenAI-compatible Chat Completions API.
//!
//! A request in the Responses format is converted into a Chat Completions
//! request so that providers which only speak Chat Completions can be used.
use vstd::prelude::*;
use crate::json::{
    empty_object_text, items_view, lemma_member_concat, lemma_member_empty, lemma_member_pair,
    lemma_member_single, lemma_member_triple, member, parse_json, parsed_json, single_member_object, string_object,
    single_string_member_object, json_quoted, str_member, Json, JsonV,
};
use crate::protocol::{
    content_view, opt_view, ContentItem, ContentItemV, Reasoning, ReasoningEffort, ResponseItem,
    ResponseItemV, ResponsesApiRequest,
};
use crate::text::{push_char, str_eq, trim, trimmed};
use crate::tool_defs::{
    edit_tools_v, read_search_tools_v, synth_simple_edit_tools, synth_simple_read_search_tools,
};

verus! {

/// A single message in the `messages` array.
pub struct ChatMessage {
    pub role: String,
    /// Always a plain string, never an array of parts.
    pub content: String,
    /// Present only on `role = "tool"` messages.
    pub tool_call_id: Option<String>,
    /// Present on `role = "assistant"` messages that contain tool invocations.
    pub tool_calls: Option<Vec<OutboundToolCall>>,
}

/// A tool invocation echoed back in an assistant message. `call_type` is
/// the wire field `type`.
pub struct OutboundToolCall {
    pub id: String,
    pub call_type: String,
    pub function: OutboundToolCallFunction,
}

pub struct OutboundToolCallFunction {
    pub name: String,
    pub arguments: String,
}

/// Requests per-chunk usage statistics in the final streaming chunk.
#[derive(Clone, Copy, Debug, PartialEq, Eq, Structural)]
pub struct StreamOptions {
    pub include_usage: bool,
}

/// Top-level Chat Completions request payload.
pub struct ChatCompletionsRequest {
    pub model: String,
    pub messages: Vec<ChatMessage>,
    pub tools: Vec<Json>,
    pub tool_choice: String,
    pub parallel_tool_calls: bool,
    pub stream: bool,
    pub stream_options: Option<StreamOptions>,
    /// Sarvam's `reasoning_effort` field ("low" | "medium" | "high").
    pub reasoning_effort: Option<String>,
}

pub struct OutboundToolCallV {
    pub id: Seq<char>,
    pub call_type: Seq<char>,
    pub name: Seq<char>,
    pub arguments: Seq<char>,
}

pub struct ChatMessageV {
    pub role: Seq<char>,
    pub content: Seq<char>,
    pub tool_call_id: Option<Seq<char>>,
    pub tool_calls: Option<Seq<OutboundToolCallV>>,
}

impl View for OutboundToolCall {
    type V = OutboundToolCallV;

    open spec fn view(&self) -> OutboundToolCallV {
        OutboundToolCallV {
            id: self.id@,
            call_type: self.call_type@,
            name: self.function.name@,
            arguments: self.function.arguments@,
        }
    }
}

pub open spec fn calls_view(calls: Seq<OutboundToolCall>) -> Seq<OutboundToolCallV> {
    calls.map_values(|c: OutboundToolCall| c@)
}

impl View for ChatMessage {
    type V = ChatMessageV;

    open spec fn view(&self) -> ChatMessageV {
        ChatMessageV {
            role: self.role@,
            content: self.content@,
            tool_call_id: opt_view(self.tool_call_id),
            tool_calls: match self.tool_calls {
                Some(calls) => Some(calls_view(calls@)),
                None => None,
            },
        }
    }
}

pub open spec fn messages_view(messages: Seq<ChatMessage>) -> Seq<ChatMessageV> {
    messages.map_values(|m: ChatMessage| m@)
}

pub open spec fn response_items_view(items: Seq<ResponseItem>) -> Seq<ResponseItemV> {
    items.map_values(|i: ResponseItem| i@)
}

// ── Content flattening ──────────────────────────────────────────────────────
/// The text that one content item contributes: non-empty text as it is, an
/// image as the `[image]` placeholder, and nothing for empty text.
pub open spec fn content_part(item: ContentItemV) -> Option<Seq<char>> {
    match item {
        ContentItemV::InputText { text } => if text.len() == 0 { None } else { Some(text) },
        ContentItemV::OutputText { text } => if text.len() == 0 { None } else { Some(text) },
        ContentItemV::InputImage { .. } => Some("[image]"@),
    }
}

pub open spec fn content_parts(items: Seq<ContentItemV>) -> Seq<Seq<char>>
    decreases items.len(),
{
    if items.len() == 0 {
        Seq::empty()
    } else {
        let rest = content_parts(items.drop_last());
        match content_part(items.last()) {
            Some(p) => rest.push(p),
            None => rest,
        }
    }
}

/// The parts joined with `sep` between neighbours.
pub open spec fn joined(parts: Seq<Seq<char>>, sep: Seq<char>) -> Seq<char>
    decreases parts.len(),
{
    if parts.len() == 0 {
        Seq::empty()
    } else if parts.len() == 1 {
        parts[0]
    } else {
        joined(parts.drop_last(), sep) + sep + parts.last()
    }
}

/// The plain-string content of a message: its parts joined by newlines.
pub open spec fn flattened_content(items: Seq<ContentItemV>) -> Seq<char> {
    joined(content_parts(items), seq!['\n'])
}

/// Flattens content items to a single plain string: text items are joined
/// with newlines, image items become an inline `[image]` placeholder.
pub fn flatten_content_items(items: &[ContentItem]) -> (r: String)
    ensures
        r@ == flattened_content(content_view(items@)),
{
    let ghost cv = content_view(items@);
    let mut out = String::new();
    let mut any = false;
    let mut i: usize = 0;
    while i < items.len()
        invariant
            i <= items@.len(),
            cv == content_view(items@),
            out@ == joined(content_parts(cv.take(i as int)), seq!['\n']),
            any == (content_parts(cv.take(i as int)).len() > 0),
        decreases items@.len() - i,
    {
        assert(cv.take(i + 1).drop_last() =~= cv.take(i as int));
        let part: Option<&str> = match &items[i] {
            ContentItem::InputText { text } => if text.as_str().is_empty() { None } else { Some(text.as_str()) },
            ContentItem::OutputText { text } => if text.as_str().is_empty() { None } else { Some(text.as_str()) },
            ContentItem::InputImage { .. } => Some("[image]"),
        };
        assert(cv.take(i + 1).last() == cv[i as int]);
        let ghost before = content_parts(cv.take(i as int));
        match part {
            Some(p) => {
                assert(content_parts(cv.take(i + 1)) == before.push(p@));
                assert(before.push(p@).drop_last() =~= before);
                if any {
                    push_char(&mut out, '\n');
                }
                out.append(p);
                any = true;
            },
            None => {},
        }
        i = i + 1;
    }
    assert(cv.take(items@.len() as int) =~= cv);
    out
}

// ── Tool-call arguments ─────────────────────────────────────────────────────
/// The `arguments` string sent for a function call: `{}` when it is blank, the
/// text unchanged when it is valid JSON as it stands, and otherwise the text
/// wrapped as `{"raw_arguments": <text>}`.
pub open spec fn json_arguments(arguments: Seq<char>) -> Seq<char> {
    if trimmed(arguments).len() == 0 {
        seq!['{', '}']
    } else if parsed_json(arguments) is Some {
        arguments
    } else {
        single_member_object("raw_arguments"@, json_quoted(arguments))
    }
}

/// Ensures a tool-call `arguments` string is a valid JSON-encoded value,
/// wrapping any non-JSON payload so that no text is lost.
pub fn ensure_json_arguments(arguments: &str) -> (r: String)
    ensures
        r@ == json_arguments(arguments@),
        parsed_json(r@) is Some,
        trimmed(arguments@).len() > 0 && parsed_json(arguments@) is None ==> parsed_json(r@) == Some(
            string_object(Some(("raw_arguments"@, arguments@))),
        ),
{
    let t = trim(arguments);
    if t.is_empty() {
        return empty_object_text();
    }
    // Padding is kept only where JSON itself allows it, so the text is
    // tested as it will be sent.
    let parsed = parse_json(arguments);
    if parsed.is_ok() {
        String::from_str(arguments)
    } else {
        single_string_member_object("raw_arguments", arguments)
    }
}

// ── Items to messages ───────────────────────────────────────────────────────
pub open spec fn text_or_empty(t: Option<Seq<char>>) -> Seq<char> {
    match t {
        Some(s) => s,
        None => Seq::empty(),
    }
}

/// The Chat Completions message for one conversation item, if it has one.
pub open spec fn item_message(item: ResponseItemV) -> Option<ChatMessageV> {
    match item {
        ResponseItemV::Message { role, content, .. } => Some(
            ChatMessageV {
                role: if role == "developer"@ { "system"@ } else { role },
                content: flattened_content(content),
                tool_call_id: None,
                tool_calls: None,
            },
        ),
        ResponseItemV::FunctionCall { name, arguments, call_id, .. } => Some(
            ChatMessageV {
                role: "assistant"@,
                content: Seq::empty(),
                tool_call_id: None,
                tool_calls: Some(
                    seq![
                        OutboundToolCallV {
                            id: call_id,
                            call_type: "function"@,
                            name: name,
                            arguments: json_arguments(arguments),
                        },
                    ],
                ),
            },
        ),
        ResponseItemV::FunctionCallOutput { call_id, output_text } => Some(
            ChatMessageV {
                role: "tool"@,
                content: text_or_empty(output_text),
                tool_call_id: Some(call_id),
                tool_calls: None,
            },
        ),
        ResponseItemV::CustomToolCall { call_id, name, input, .. } => Some(
            ChatMessageV {
                role: "assistant"@,
                content: Seq::empty(),
                tool_call_id: None,
                tool_calls: Some(
                    seq![
                        OutboundToolCallV {
                            id: call_id,
                            call_type: "function"@,
                            name: name,
                            arguments: single_member_object("input"@, json_quoted(input)),
                        },
                    ],
                ),
            },
        ),
        ResponseItemV::CustomToolCallOutput { call_id, output_text } => Some(
            ChatMessageV {
                role: "tool"@,
                content: text_or_empty(output_text),
                tool_call_id: Some(call_id),
                tool_calls: None,
            },
        ),
        ResponseItemV::Skipped => None,
    }
}

fn opt_string_or_empty(t: &Option<String>) -> (r: String)
    ensures
        r@ == text_or_empty(opt_view(*t)),
{
    match t {
        Some(s) => s.clone(),
        None => String::new(),
    }
}

fn tool_call_message(call_id: &String, name: &String, arguments: String) -> (r: ChatMessage)
    ensures
        r.role@ == "assistant"@,
        r.content@.len() == 0,
        r.tool_call_id is None,
        r.tool_calls matches Some(calls) && calls@.len() == 1 && calls@[0].call_type@ == "function"@
            && calls@[0].function.arguments@ == arguments@,
        r@ == (ChatMessageV {
            role: "assistant"@,
            content: Seq::empty(),
            tool_call_id: None,
            tool_calls: Some(
                seq![
                    OutboundToolCallV {
                        id: call_id@,
                        call_type: "function"@,
                        name: name@,
                        arguments: arguments@,
                    },
                ],
            ),
        }),
{
    let calls = vec![
        OutboundToolCall {
            id: call_id.clone(),
            call_type: String::from_str("function"),
            function: OutboundToolCallFunction { name: name.clone(), arguments },
        },
    ];
    let r = ChatMessage {
        role: String::from_str("assistant"),
        content: String::new(),
        tool_call_id: None,
        tool_calls: Some(calls),
    };
    assert(calls_view(calls@) =~= seq![calls@[0]@]);
    r
}

/// The shape every converted message has: a message with a `tool_call_id`
/// is a tool result; a message with tool calls is an assistant message with
/// empty content and exactly one `function` call, whose arguments serde_json
/// reads as JSON.
pub open spec fn message_shape_holds(m: ChatMessage) -> bool {
    &&& (m.tool_call_id is Some ==> m.role@ == "tool"@)
    &&& (m.tool_calls matches Some(calls) ==> {
        &&& m.role@ == "assistant"@
        &&& m.content@.len() == 0
        &&& calls@.len() == 1
        &&& calls@[0].call_type@ == "function"@
        &&& parsed_json(calls@[0].function.arguments@) is Some
    })
}

/// Converts one conversation item into a Chat Completions message; items
/// that only the Responses format knows (reasoning, shell calls, searches,
/// compaction, ...) give `None`.
pub fn response_item_to_chat_message(item: &ResponseItem) -> (r: Option<ChatMessage>)
    ensures
        match r {
            Some(m) => item_message(item@) == Some(m@),
            None => item_message(item@) is None,
        },
        r matches Some(m) ==> message_shape_holds(m),
        item matches ResponseItem::CustomToolCall { input, .. } ==> (r matches Some(m) && m.tool_calls matches Some(
            calls,
        ) && calls@.len() == 1 && parsed_json(calls@[0].function.arguments@) == Some(
            string_object(Some(("input"@, input@))),
        )),
{
    match item {
        ResponseItem::Message { role, content, .. } => {
            let text = flatten_content_items(content.as_slice());
            let mapped_role = if str_eq(role.as_str(), "developer") {
                String::from_str("system")
            } else {
                role.clone()
            };
            Some(ChatMessage { role: mapped_role, content: text, tool_call_id: None, tool_calls: None })
        },
        ResponseItem::FunctionCall { name, arguments, call_id, .. } => {
            let args = ensure_json_arguments(arguments.as_str());
            let m = tool_call_message(call_id, name, args);
            assert(message_shape_holds(m));
            Some(m)
        },
        ResponseItem::FunctionCallOutput { call_id, output } => Some(
            ChatMessage {
                role: String::from_str("tool"),
                content: opt_string_or_empty(&output.text),
                tool_call_id: Some(call_id.clone()),
                tool_calls: None,
            },
        ),
        ResponseItem::CustomToolCall { call_id, name, input, .. } => {
            // Custom tool inputs are raw payloads (e.g. the apply_patch
            // envelope), not JSON; they are wrapped as {"input": <text>} so that
            // `arguments` parses as JSON.
            let args = single_string_member_object("input", input.as_str());
            let m = tool_call_message(call_id, name, args);
            assert(message_shape_holds(m));
            Some(m)
        },
        ResponseItem::CustomToolCallOutput { call_id, output } => Some(
            ChatMessage {
                role: String::from_str("tool"),
                content: opt_string_or_empty(&output.text),
                tool_call_id: Some(call_id.clone()),
                tool_calls: None,
            },
        ),
        _ => None,
    }
}


// ── Tools ───────────────────────────────────────────────────────────────────
/// `key` copied from `m` when `m` has it.
pub open spec fn copied_member(m: Seq<(Seq<char>, JsonV)>, key: Seq<char>) -> Seq<(Seq<char>, JsonV)> {
    match member(m, key) {
        Some(v) => seq![(key, v)],
        None => Seq::empty(),
    }
}

/// The nested function definition of a function tool: its `name`,
/// `description` and `parameters`, those that it has, in that order.
pub open spec fn function_definition(m: Seq<(Seq<char>, JsonV)>) -> Seq<(Seq<char>, JsonV)> {
    copied_member(m, "name"@) + copied_member(m, "description"@) + copied_member(m, "parameters"@)
}

/// The Chat Completions tools that stand for one Responses tool: a function
/// tool is re-wrapped into `{"type":"function","function":{...}}`, the custom
/// `apply_patch` tool becomes `edit_file` and `write_file`, and every other
/// tool is dropped.
pub open spec fn rewrapped_tool(tool: JsonV) -> Seq<JsonV> {
    match tool {
        JsonV::Object(m) => match member(m, "type"@) {
            Some(JsonV::Str(t)) => if t == "custom"@ {
                if str_member(Some(tool), "name"@) == Some("apply_patch"@) {
                    edit_tools_v()
                } else {
                    Seq::empty()
                }
            } else if t == "function"@ {
                seq![
                    JsonV::Object(
                        seq![
                            ("type"@, JsonV::Str("function"@)),
                            ("function"@, JsonV::Object(function_definition(m))),
                        ],
                    ),
                ]
            } else {
                Seq::empty()
            },
            _ => Seq::empty(),
        },
        _ => Seq::empty(),
    }
}

fn copy_member(tool: &Json, key: &str, out: &mut Vec<(String, Json)>)
    requires
        tool@ is Object,
    ensures
        crate::json::members_view(final(out)@) == crate::json::members_view(old(out)@)
            + copied_member(tool@->Object_0, key@),
{
    let ghost before = crate::json::members_view(out@);
    match tool.get(key) {
        Some(v) => {
            out.push((String::from_str(key), v.deep_copy()));
            assert(crate::json::members_view(out@) =~= before + copied_member(
                tool@->Object_0,
                key@,
            ));
        },
        None => {
            assert(crate::json::members_view(out@) =~= before + copied_member(
                tool@->Object_0,
                key@,
            ));
        },
    }
}

/// Re-wraps one Responses tool definition into the Chat Completions shape.
pub fn rewrap_tool_for_chat_completions(tool: &Json) -> (r: Vec<Json>)
    ensures
        items_view(r@) == rewrapped_tool(tool@),
{
    if !tool.is_object() {
        return Vec::new();
    }
    let tool_type = match tool.get("type") {
        Some(v) => match v.as_str() {
            Some(t) => t,
            None => {
                return Vec::new();
            },
        },
        None => {
            return Vec::new();
        },
    };
    if str_eq(tool_type, "custom") {
        let is_apply_patch = match tool.get("name") {
            Some(v) => match v.as_str() {
                Some(n) => str_eq(n, "apply_patch"),
                None => false,
            },
            None => false,
        };
        if is_apply_patch {
            return synth_simple_edit_tools();
        }
        return Vec::new();
    }
    if !str_eq(tool_type, "function") {
        return Vec::new();
    }
    let mut function_def: Vec<(String, Json)> = Vec::new();
    copy_member(tool, "name", &mut function_def);
    copy_member(tool, "description", &mut function_def);
    copy_member(tool, "parameters", &mut function_def);
    let inner = Json::object(function_def);
    let members = vec![
        (String::from_str("type"), Json::string("function")),
        (String::from_str("function"), inner),
    ];
    let wrapped = Json::object(members);
    let r = vec![wrapped];
    assert(function_definition(tool@->Object_0) =~= Seq::<(Seq<char>, JsonV)>::empty()
        + copied_member(tool@->Object_0, "name"@) + copied_member(tool@->Object_0, "description"@)
        + copied_member(tool@->Object_0, "parameters"@));
    assert(crate::json::members_view(members@) =~= rewrapped_tool(tool@)[0]->Object_0);
    assert(items_view(r@) =~= rewrapped_tool(tool@));
    r
}

/// Every tool re-wrapped, in order.
pub open spec fn rewrapped_tools(tools: Seq<JsonV>) -> Seq<JsonV>
    decreases tools.len(),
{
    if tools.len() == 0 {
        Seq::empty()
    } else {
        rewrapped_tools(tools.drop_last()) + rewrapped_tool(tools.last())
    }
}

/// Whether a Chat Completions tool is the `shell_command` function.
pub open spec fn names_shell_command(tool: JsonV) -> bool {
    str_member(tool.get("function"@), "name"@) == Some("shell_command"@)
}

/// The tools of the converted request: the re-wrapped tools, followed by the
/// read/search tools when `shell_command` is among them.
pub open spec fn chat_tools(tools: Seq<JsonV>) -> Seq<JsonV> {
    let rw = rewrapped_tools(tools);
    if exists|i: int| 0 <= i < rw.len() && names_shell_command(#[trigger] rw[i]) {
        rw + read_search_tools_v()
    } else {
        rw
    }
}

fn is_shell_command_tool(tool: &Json) -> (r: bool)
    ensures
        r == names_shell_command(tool@),
{
    match tool.get("function") {
        Some(f) => match f.get("name") {
            Some(n) => match n.as_str() {
                Some(s) => str_eq(s, "shell_command"),
                None => false,
            },
            None => false,
        },
        None => false,
    }
}

// ── Request ─────────────────────────────────────────────────────────────────
/// The Sarvam effort level for a reasoning effort.
pub open spec fn effort_name(e: ReasoningEffort) -> Seq<char> {
    match e {
        ReasoningEffort::Disabled | ReasoningEffort::Minimal | ReasoningEffort::Low => "low"@,
        ReasoningEffort::Medium => "medium"@,
        ReasoningEffort::High | ReasoningEffort::XHigh => "high"@,
    }
}

pub open spec fn requested_effort(reasoning: Option<Reasoning>) -> Option<Seq<char>> {
    match reasoning {
        Some(r) => match r.effort {
            Some(e) => Some(effort_name(e)),
            None => None,
        },
        None => None,
    }
}

fn effort_string(e: ReasoningEffort) -> (r: String)
    ensures
        r@ == effort_name(e),
{
    match e {
        ReasoningEffort::Disabled | ReasoningEffort::Minimal | ReasoningEffort::Low =>
            String::from_str("low"),
        ReasoningEffort::Medium => String::from_str("medium"),
        ReasoningEffort::High | ReasoningEffort::XHigh => String::from_str("high"),
    }
}

/// The messages of the converted conversation items, in order.
pub open spec fn converted_items(items: Seq<ResponseItemV>) -> Seq<ChatMessageV>
    decreases items.len(),
{
    if items.len() == 0 {
        Seq::empty()
    } else {
        let rest = converted_items(items.drop_last());
        match item_message(items.last()) {
            Some(m) => rest.push(m),
            None => rest,
        }
    }
}

/// The leading system message made from the instructions, when they are not
/// empty.
pub open spec fn system_prefix(instructions: Seq<char>) -> Seq<ChatMessageV> {
    if instructions.len() == 0 {
        Seq::empty()
    } else {
        seq![ChatMessageV { role: "system"@, content: instructions, tool_call_id: None, tool_calls: None }]
    }
}

pub open spec fn chat_messages(instructions: Seq<char>, items: Seq<ResponseItemV>) -> Seq<ChatMessageV> {
    system_prefix(instructions) + converted_items(items)
}

/// Converts a request in the Responses format into a Chat Completions request.
///
/// - `instructions` becomes a leading `system` message.
/// - `input` items are converted message by message; items that only the
///   Responses format knows are skipped.
/// - Function tools are re-wrapped into the nested Chat Completions shape, the
///   `apply_patch` tool is replaced by `edit_file` and `write_file`, and when
///   `shell_command` is offered, `read_file`, `glob` and `grep` are added.
/// - Fields that only the Responses format knows are dropped.
pub fn responses_to_chat_completions_request(req: &ResponsesApiRequest) -> (r: ChatCompletionsRequest)
    ensures
        r.model@ == req.model@,
        messages_view(r.messages@) == chat_messages(req.instructions@, response_items_view(req.input@)),
        items_view(r.tools@) == chat_tools(items_view(req.tools@)),
        r.tool_choice@ == req.tool_choice@,
        r.parallel_tool_calls == req.parallel_tool_calls,
        r.stream == req.stream,
        r.stream_options == (if req.stream {
            Some(StreamOptions { include_usage: true })
        } else {
            None::<StreamOptions>
        }),
        opt_view(r.reasoning_effort) == requested_effort(req.reasoning),
        forall|i: int| 0 <= i < r.messages@.len() ==> message_shape_holds(#[trigger] r.messages@[i]),
{
    let mut messages: Vec<ChatMessage> = Vec::new();
    if !req.instructions.as_str().is_empty() {
        messages.push(
            ChatMessage {
                role: String::from_str("system"),
                content: req.instructions.clone(),
                tool_call_id: None,
                tool_calls: None,
            },
        );
    }
    let ghost items = response_items_view(req.input@);
    assert(messages_view(messages@) =~= system_prefix(req.instructions@) + converted_items(items.take(0)));
    let mut i: usize = 0;
    while i < req.input.len()
        invariant
            i <= req.input@.len(),
            items == response_items_view(req.input@),
            messages_view(messages@) == system_prefix(req.instructions@) + converted_items(items.take(i as int)),
            forall|k: int| 0 <= k < messages@.len() ==> message_shape_holds(#[trigger] messages@[k]),
        decreases req.input@.len() - i,
    {
        assert(items.take(i + 1).drop_last() =~= items.take(i as int));
        assert(items.take(i + 1).last() == req.input@[i as int]@);
        let ghost before = messages_view(messages@);
        match response_item_to_chat_message(&req.input[i]) {
            Some(m) => {
                messages.push(m);
                assert(messages_view(messages@) =~= before.push(m@));
            },
            None => {},
        }
        i = i + 1;
    }
    assert(items.take(req.input@.len() as int) =~= items);

    let ghost tools_in = items_view(req.tools@);
    let mut tools: Vec<Json> = Vec::new();
    let mut j: usize = 0;
    assert(items_view(tools@) =~= rewrapped_tools(tools_in.take(0)));
    while j < req.tools.len()
        invariant
            j <= req.tools@.len(),
            tools_in == items_view(req.tools@),
            items_view(tools@) == rewrapped_tools(tools_in.take(j as int)),
        decreases req.tools@.len() - j,
    {
        assert(tools_in.take(j + 1).drop_last() =~= tools_in.take(j as int));
        let ghost before = items_view(tools@);
        let mut more = rewrap_tool_for_chat_completions(&req.tools[j]);
        let ghost more_v = items_view(more@);
        tools.append(&mut more);
        assert(items_view(tools@) =~= before + more_v);
        j = j + 1;
    }
    assert(tools_in.take(req.tools@.len() as int) =~= tools_in);

    let ghost rw = items_view(tools@);
    let mut has_shell = false;
    let mut k: usize = 0;
    while k < tools.len()
        invariant
            k <= tools@.len(),
            rw == items_view(tools@),
            has_shell == exists|x: int| 0 <= x < k && names_shell_command(#[trigger] rw[x]),
        decreases tools@.len() - k,
    {
        assert(rw[k as int] == tools@[k as int]@);
        if is_shell_command_tool(&tools[k]) {
            has_shell = true;
        }
        k = k + 1;
    }
    if has_shell {
        let mut extra = synth_simple_read_search_tools();
        tools.append(&mut extra);
        assert(items_view(tools@) =~= rw + read_search_tools_v());
    }

    let stream_options = if req.stream {
        Some(StreamOptions { include_usage: true })
    } else {
        None
    };
    let reasoning_effort = match &req.reasoning {
        Some(r) => match r.effort {
            Some(e) => Some(effort_string(e)),
            None => None,
        },
        None => None,
    };
    ChatCompletionsRequest {
        model: req.model.clone(),
        messages,
        tools,
        tool_choice: req.tool_choice.clone(),
        parallel_tool_calls: req.parallel_tool_calls,
        stream: req.stream,
        stream_options,
        reasoning_effort,
    }
}


// ── Laws ────────────────────────────────────────────────────────────────────
/// How many items have a Chat Completions counterpart.
pub open spec fn convertible_count(items: Seq<ResponseItemV>) -> nat
    decreases items.len(),
{
    if items.len() == 0 {
        0
    } else {
        convertible_count(items.drop_last()) + if items.last() is Skipped { 0nat } else { 1nat }
    }
}

/// One message per convertible item, in order, after the system message that
/// non-empty instructions give; items that only the Responses format knows
/// give none.
pub proof fn lemma_message_count(instructions: Seq<char>, items: Seq<ResponseItemV>)
    ensures
        chat_messages(instructions, items).len() == (if instructions.len() > 0 { 1nat } else { 0nat })
            + convertible_count(items),
    decreases items.len(),
{
    if items.len() > 0 {
        lemma_message_count(instructions, items.drop_last());
    }
}

/// The roles Sarvam accepts.
pub open spec fn accepted_role(role: Seq<char>) -> bool {
    role == "assistant"@ || role == "system"@ || role == "tool"@ || role == "user"@
}

/// The roles a conversation may give its messages.
pub open spec fn conversation_role(role: Seq<char>) -> bool {
    accepted_role(role) || role == "developer"@
}

proof fn lemma_converted_roles(items: Seq<ResponseItemV>)
    requires
        forall|i: int| 0 <= i < items.len() ==> (#[trigger] items[i] matches ResponseItemV::Message { role, .. }
            ==> conversation_role(role)),
    ensures
        forall|j: int| 0 <= j < converted_items(items).len() ==> accepted_role(#[trigger] converted_items(items)[j].role),
    decreases items.len(),
{
    if items.len() > 0 {
        let rest = items.drop_last();
        assert forall|i: int| 0 <= i < rest.len() implies (#[trigger] rest[i] matches ResponseItemV::Message { role, .. }
            ==> conversation_role(role)) by {
            assert(rest[i] == items[i]);
        }
        lemma_converted_roles(rest);
        let last = items.last();
        assert(last == items[items.len() - 1]);
    }
}

/// When every message of the conversation has the role `user`, `assistant`,
/// `system` or `developer`, every converted message has a role that Sarvam
/// accepts (`developer` becomes `system`; tool calls and outputs take
/// `assistant` and `tool`).
pub proof fn lemma_roles_accepted(instructions: Seq<char>, items: Seq<ResponseItemV>)
    requires
        forall|i: int| 0 <= i < items.len() ==> (#[trigger] items[i] matches ResponseItemV::Message { role, .. }
            ==> conversation_role(role)),
    ensures
        forall|j: int| 0 <= j < chat_messages(instructions, items).len() ==> accepted_role(
            #[trigger] chat_messages(instructions, items)[j].role,
        ),
{
    lemma_converted_roles(items);
    let p = system_prefix(instructions);
    let t = converted_items(items);
    assert forall|j: int| 0 <= j < chat_messages(instructions, items).len() implies accepted_role(
        #[trigger] chat_messages(instructions, items)[j].role,
    ) by {
        if j >= p.len() {
            assert(chat_messages(instructions, items)[j] == t[j - p.len()]);
        }
    }
}

/// A re-wrapped function tool carries only `name`, `description` and
/// `parameters` in its function definition (so `strict` and every other
/// Responses-only key are not forwarded), each with the value the tool had.
pub proof fn lemma_function_definition_keys(m: Seq<(Seq<char>, JsonV)>)
    ensures
        forall|i: int| 0 <= i < function_definition(m).len() ==> {
            let key = (#[trigger] function_definition(m)[i]).0;
            &&& (key == "name"@ || key == "description"@ || key == "parameters"@)
            &&& member(m, key) == Some(function_definition(m)[i].1)
        },
{
}

/// Every reasoning effort maps to one of the levels Sarvam accepts.
pub proof fn lemma_effort_levels(e: ReasoningEffort)
    ensures
        effort_name(e) == "low"@ || effort_name(e) == "medium"@ || effort_name(e) == "high"@,
        effort_name(e) == "low"@ <==> (e is Disabled || e is Minimal || e is Low),
        effort_name(e) == "medium"@ <==> e is Medium,
        effort_name(e) == "high"@ <==> (e is High || e is XHigh),
{
    reveal_strlit("low");
    reveal_strlit("medium");
    reveal_strlit("high");
    assert("low"@.len() == 3 && "medium"@.len() == 6 && "high"@.len() == 4);
}

/// A conversation message keeps its role, except that `developer` (which
/// Sarvam does not accept) becomes `system`; its content is its flattened
/// text and it carries no tool fields.
pub proof fn lemma_message_role(item: ResponseItemV)
    ensures
        item matches ResponseItemV::Message { role, content, .. } ==> (item_message(item) matches Some(m) && m.role
            == (if role == "developer"@ { "system"@ } else { role }) && m.content == flattened_content(content)
            && m.tool_call_id is None && m.tool_calls is None),
{
}

// ── Laws of tool results and of the wire form ───────────────────────────────
/// The call a tool result answers and its output text (empty when it has
/// none), for the two kinds of tool result.
pub open spec fn tool_result_of(item: ResponseItemV) -> Option<(Seq<char>, Seq<char>)> {
    match item {
        ResponseItemV::FunctionCallOutput { call_id, output_text } => Some(
            (
                call_id,
                match output_text {
                    Some(t) => t,
                    None => Seq::empty(),
                },
            ),
        ),
        ResponseItemV::CustomToolCallOutput { call_id, output_text } => Some(
            (
                call_id,
                match output_text {
                    Some(t) => t,
                    None => Seq::empty(),
                },
            ),
        ),
        _ => None,
    }
}

/// The `tool` message that answers `call_id` with `text`.
pub open spec fn tool_message(call_id: Seq<char>, text: Seq<char>) -> ChatMessageV {
    ChatMessageV { role: "tool"@, content: text, tool_call_id: Some(call_id), tool_calls: None }
}

/// A tool result, of a function call or of a custom tool call, becomes a
/// `tool` message that answers its call and carries its output text whole.
pub proof fn lemma_tool_result_message(item: ResponseItemV)
    ensures
        tool_result_of(item) matches Some((call_id, text)) ==> item_message(item) == Some(
            tool_message(call_id, text),
        ),
{
}

proof fn lemma_converted_prefix(items: Seq<ResponseItemV>, k: int)
    requires
        0 <= k <= items.len(),
    ensures
        converted_items(items.take(k)).len() <= converted_items(items).len(),
        forall|j: int|
            0 <= j < converted_items(items.take(k)).len() ==> #[trigger] converted_items(items)[j]
                == converted_items(items.take(k))[j],
    decreases items.len(),
{
    if k == items.len() {
        assert(items.take(k) =~= items);
    } else {
        let init = items.drop_last();
        assert(init.take(k) =~= items.take(k));
        lemma_converted_prefix(init, k);
    }
}

/// Every tool result of the conversation reaches the request: the item at
/// `i` becomes, in its place among the converted messages, the `tool`
/// message that answers its call with its output text.
pub proof fn lemma_request_keeps_tool_results(instructions: Seq<char>, items: Seq<ResponseItemV>, i: int)
    requires
        0 <= i < items.len(),
        tool_result_of(items[i]) is Some,
    ensures
        ({
            let (call_id, text) = tool_result_of(items[i])->0;
            let j = (system_prefix(instructions).len() + converted_items(items.take(i)).len()) as int;
            &&& j < chat_messages(instructions, items).len()
            &&& chat_messages(instructions, items)[j] == tool_message(call_id, text)
        }),
{
    lemma_tool_result_message(items[i]);
    let upto = items.take(i + 1);
    assert(upto.drop_last() =~= items.take(i));
    assert(upto.last() == items[i]);
    lemma_converted_prefix(items, i + 1);
    let n = converted_items(items.take(i)).len();
    let (call_id, text) = tool_result_of(items[i])->0;
    assert(converted_items(upto) == converted_items(items.take(i)).push(tool_message(call_id, text)));
    assert(converted_items(items)[n as int] == converted_items(upto)[n as int]);
}

/// The members that a request's JSON body always begins with.
pub open spec fn request_head(r: ChatCompletionsRequest) -> Seq<(Seq<char>, JsonV)> {
    seq![
        ("model"@, JsonV::Str(r.model@)),
        (
            "messages"@,
            JsonV::Array(messages_json(messages_view(r.messages@))),
        ),
    ]
}

pub open spec fn request_flags(r: ChatCompletionsRequest) -> Seq<(Seq<char>, JsonV)> {
    seq![
        ("tool_choice"@, JsonV::Str(r.tool_choice@)),
        ("parallel_tool_calls"@, JsonV::Bool(r.parallel_tool_calls)),
        ("stream"@, JsonV::Bool(r.stream)),
    ]
}

pub open spec fn optional_member(key: Seq<char>, value: Option<JsonV>) -> Seq<(Seq<char>, JsonV)> {
    match value {
        Some(v) => seq![(key, v)],
        None => Seq::empty(),
    }
}

proof fn lemma_optional_member(key: Seq<char>, value: Option<JsonV>, k: Seq<char>)
    ensures
        member(optional_member(key, value), k) == (if key == k { value } else { None }),
{
    match value {
        Some(v) => lemma_member_single(key, v, k),
        None => lemma_member_empty(k),
    }
}

proof fn lemma_request_member(r: ChatCompletionsRequest, k: Seq<char>)
    ensures
        ({
            let tools = optional_member(
                "tools"@,
                if r.tools@.len() == 0 { None } else { Some(JsonV::Array(items_view(r.tools@))) },
            );
            let so = optional_member(
                "stream_options"@,
                match r.stream_options {
                    Some(o) => Some(JsonV::Object(seq![("include_usage"@, JsonV::Bool(o.include_usage))])),
                    None => None,
                },
            );
            let re = optional_member(
                "reasoning_effort"@,
                match r.reasoning_effort {
                    Some(e) => Some(JsonV::Str(e@)),
                    None => None,
                },
            );
            request_json(r).get(k) == (if member(request_head(r), k) is Some {
                member(request_head(r), k)
            } else if member(tools, k) is Some {
                member(tools, k)
            } else if member(request_flags(r), k) is Some {
                member(request_flags(r), k)
            } else if member(so, k) is Some {
                member(so, k)
            } else {
                member(re, k)
            })
        }),
{
    let a = request_head(r);
    let t = optional_member(
        "tools"@,
        if r.tools@.len() == 0 { None } else { Some(JsonV::Array(items_view(r.tools@))) },
    );
    let b = request_flags(r);
    let so = optional_member(
        "stream_options"@,
        match r.stream_options {
            Some(o) => Some(JsonV::Object(seq![("include_usage"@, JsonV::Bool(o.include_usage))])),
            None => None,
        },
    );
    let re = optional_member(
        "reasoning_effort"@,
        match r.reasoning_effort {
            Some(e) => Some(JsonV::Str(e@)),
            None => None,
        },
    );
    assert(request_json(r)->Object_0 =~= a + t + b + so + re);
    lemma_member_concat(a, t, k);
    lemma_member_concat(a + t, b, k);
    lemma_member_concat(a + t + b, so, k);
    lemma_member_concat(a + t + b + so, re, k);
}

/// The JSON body of a request carries each field of the request under its
/// name: `model`, `messages`, `tool_choice`, `parallel_tool_calls` and
/// `stream` always; `tools` exactly when there are tools; `stream_options`
/// and `reasoning_effort` exactly when they are set, with their values.
pub proof fn lemma_request_json_fields(r: ChatCompletionsRequest)
    ensures
        request_json(r).get("model"@) == Some(JsonV::Str(r.model@)),
        request_json(r).get("messages"@) == Some(
            JsonV::Array(messages_json(messages_view(r.messages@))),
        ),
        request_json(r).get("tools"@) == (if r.tools@.len() == 0 {
            None
        } else {
            Some(JsonV::Array(items_view(r.tools@)))
        }),
        request_json(r).get("tool_choice"@) == Some(JsonV::Str(r.tool_choice@)),
        request_json(r).get("parallel_tool_calls"@) == Some(JsonV::Bool(r.parallel_tool_calls)),
        request_json(r).get("stream"@) == Some(JsonV::Bool(r.stream)),
        request_json(r).get("stream_options"@) == (match r.stream_options {
            Some(o) => Some(JsonV::Object(seq![("include_usage"@, JsonV::Bool(o.include_usage))])),
            None => None,
        }),
        request_json(r).get("reasoning_effort"@) == (match r.reasoning_effort {
            Some(e) => Some(JsonV::Str(e@)),
            None => None,
        }),
{
    reveal_strlit("model");
    reveal_strlit("messages");
    reveal_strlit("tools");
    reveal_strlit("tool_choice");
    reveal_strlit("parallel_tool_calls");
    reveal_strlit("stream");
    reveal_strlit("stream_options");
    reveal_strlit("reasoning_effort");
    assert("model"@ != "tools"@) by {
        assert("model"@[0] != "tools"@[0]);
    }
    assert("model"@.len() == 5 && "tools"@.len() == 5 && "messages"@.len() == 8 && "tool_choice"@.len() == 11);
    assert("parallel_tool_calls"@.len() == 19 && "stream"@.len() == 6 && "stream_options"@.len() == 14);
    assert("reasoning_effort"@.len() == 16);
    let a = request_head(r);
    let b = request_flags(r);
    assert(request_json(r).get("model"@) == Some(JsonV::Str(r.model@))) by {
        lemma_request_field_parts(r, "model"@);
    }
    assert(request_json(r).get("messages"@) == Some(JsonV::Array(messages_json(messages_view(r.messages@))))) by {
        lemma_request_field_parts(r, "messages"@);
    }
    assert(request_json(r).get("tools"@) == (if r.tools@.len() == 0 { None } else { Some(JsonV::Array(items_view(r.tools@))) })) by {
        lemma_request_field_parts(r, "tools"@);
    }
    assert(request_json(r).get("tool_choice"@) == Some(JsonV::Str(r.tool_choice@))) by {
        lemma_request_field_parts(r, "tool_choice"@);
    }
    assert(request_json(r).get("parallel_tool_calls"@) == Some(JsonV::Bool(r.parallel_tool_calls))) by {
        lemma_request_field_parts(r, "parallel_tool_calls"@);
    }
    assert(request_json(r).get("stream"@) == Some(JsonV::Bool(r.stream))) by {
        lemma_request_field_parts(r, "stream"@);
    }
    assert(request_json(r).get("stream_options"@) == (match r.stream_options { Some(o) => Some(JsonV::Object(seq![("include_usage"@, JsonV::Bool(o.include_usage))])), None => None })) by {
        lemma_request_field_parts(r, "stream_options"@);
    }
    assert(request_json(r).get("reasoning_effort"@) == (match r.reasoning_effort { Some(e) => Some(JsonV::Str(e@)), None => None })) by {
        lemma_request_field_parts(r, "reasoning_effort"@);
    }
}

proof fn lemma_request_field_parts(r: ChatCompletionsRequest, k: Seq<char>)
    ensures
        request_json(r).get(k) == (if member(request_head(r), k) is Some {
            member(request_head(r), k)
        } else if "tools"@ == k && r.tools@.len() > 0 {
            Some(JsonV::Array(items_view(r.tools@)))
        } else if member(request_flags(r), k) is Some {
            member(request_flags(r), k)
        } else if "stream_options"@ == k && r.stream_options is Some {
            Some(JsonV::Object(seq![("include_usage"@, JsonV::Bool(r.stream_options->0.include_usage))]))
        } else if "reasoning_effort"@ == k && r.reasoning_effort is Some {
            Some(JsonV::Str(r.reasoning_effort->0@))
        } else {
            None
        }),
        member(request_head(r), k) == (if "model"@ == k { Some(request_head(r)[0].1) } else if "messages"@ == k {
            Some(request_head(r)[1].1)
        } else {
            None
        }),
        member(request_flags(r), k) == (if "tool_choice"@ == k { Some(request_flags(r)[0].1) } else if "parallel_tool_calls"@
            == k {
            Some(request_flags(r)[1].1)
        } else if "stream"@ == k {
            Some(request_flags(r)[2].1)
        } else {
            None
        }),
{
    let a = request_head(r);
    let b = request_flags(r);
    lemma_request_member(r, k);
    lemma_member_pair(a[0].0, a[0].1, a[1].0, a[1].1, k);
    assert(a =~= seq![(a[0].0, a[0].1), (a[1].0, a[1].1)]);
    lemma_member_triple(b[0].0, b[0].1, b[1].0, b[1].1, b[2].0, b[2].1, k);
    assert(b =~= seq![(b[0].0, b[0].1), (b[1].0, b[1].1), (b[2].0, b[2].1)]);
    lemma_optional_member(
        "tools"@,
        if r.tools@.len() == 0 { None } else { Some(JsonV::Array(items_view(r.tools@))) },
        k,
    );
    lemma_optional_member(
        "stream_options"@,
        match r.stream_options {
            Some(o) => Some(JsonV::Object(seq![("include_usage"@, JsonV::Bool(o.include_usage))])),
            None => None,
        },
        k,
    );
    lemma_optional_member(
        "reasoning_effort"@,
        match r.reasoning_effort {
            Some(e) => Some(JsonV::Str(e@)),
            None => None,
        },
        k,
    );
}

// ── Wire shape ──────────────────────────────────────────────────────────────
pub open spec fn tool_call_json(c: OutboundToolCallV) -> JsonV {
    JsonV::Object(
        seq![
            ("id"@, JsonV::Str(c.id)),
            ("type"@, JsonV::Str(c.call_type)),
            (
                "function"@,
                JsonV::Object(
                    seq![("name"@, JsonV::Str(c.name)), ("arguments"@, JsonV::Str(c.arguments))],
                ),
            ),
        ],
    )
}

/// The JSON object of a message: `role` and `content`, then `tool_call_id`
/// and `tool_calls` when present.
pub open spec fn message_json(m: ChatMessageV) -> JsonV {
    JsonV::Object(
        seq![("role"@, JsonV::Str(m.role)), ("content"@, JsonV::Str(m.content))] + match m.tool_call_id {
            Some(id) => seq![("tool_call_id"@, JsonV::Str(id))],
            None => Seq::empty(),
        } + match m.tool_calls {
            Some(calls) => seq![
                ("tool_calls"@, JsonV::Array(calls_json(calls))),
            ],
            None => Seq::empty(),
        },
    )
}

/// The JSON objects of the messages, in order.
pub open spec fn messages_json(ms: Seq<ChatMessageV>) -> Seq<JsonV> {
    ms.map_values(|m: ChatMessageV| message_json(m))
}

/// The JSON object of a request: fields in declaration order, with `tools`
/// left out when empty and `stream_options` and `reasoning_effort` left out
/// when absent.
pub open spec fn request_json(r: ChatCompletionsRequest) -> JsonV {
    JsonV::Object(
        seq![
            ("model"@, JsonV::Str(r.model@)),
            (
                "messages"@,
                JsonV::Array(messages_json(messages_view(r.messages@))),
            ),
        ] + (if r.tools@.len() == 0 {
            Seq::empty()
        } else {
            seq![("tools"@, JsonV::Array(items_view(r.tools@)))]
        }) + seq![
            ("tool_choice"@, JsonV::Str(r.tool_choice@)),
            ("parallel_tool_calls"@, JsonV::Bool(r.parallel_tool_calls)),
            ("stream"@, JsonV::Bool(r.stream)),
        ] + match r.stream_options {
            Some(o) => seq![
                ("stream_options"@, JsonV::Object(seq![("include_usage"@, JsonV::Bool(o.include_usage))])),
            ],
            None => Seq::empty(),
        } + match r.reasoning_effort {
            Some(e) => seq![("reasoning_effort"@, JsonV::Str(e@))],
            None => Seq::empty(),
        },
    )
}

/// The calls of a message as JSON, in order.
pub open spec fn calls_json(calls: Seq<OutboundToolCallV>) -> Seq<JsonV> {
    calls.map_values(|c: OutboundToolCallV| tool_call_json(c))
}

/// The JSON object of a message carries `role` and `content` always, and
/// `tool_call_id` and `tool_calls` exactly when the message has them, with
/// their values.
pub proof fn lemma_message_json_fields(m: ChatMessageV)
    ensures
        message_json(m).get("role"@) == Some(JsonV::Str(m.role)),
        message_json(m).get("content"@) == Some(JsonV::Str(m.content)),
        message_json(m).get("tool_call_id"@) == (match m.tool_call_id {
            Some(id) => Some(JsonV::Str(id)),
            None => None,
        }),
        message_json(m).get("tool_calls"@) == (match m.tool_calls {
            Some(calls) => Some(JsonV::Array(calls_json(calls))),
            None => None,
        }),
{
    reveal_strlit("role");
    reveal_strlit("content");
    reveal_strlit("tool_call_id");
    reveal_strlit("tool_calls");
    assert("role"@.len() == 4 && "content"@.len() == 7 && "tool_call_id"@.len() == 12 && "tool_calls"@.len() == 10);
    let a = seq![("role"@, JsonV::Str(m.role)), ("content"@, JsonV::Str(m.content))];
    let id = optional_member(
        "tool_call_id"@,
        match m.tool_call_id {
            Some(i) => Some(JsonV::Str(i)),
            None => None,
        },
    );
    let tc = optional_member(
        "tool_calls"@,
        match m.tool_calls {
            Some(calls) => Some(JsonV::Array(calls_json(calls))),
            None => None,
        },
    );
    assert(message_json(m)->Object_0 =~= a + id + tc);
    let keys = seq!["role"@, "content"@, "tool_call_id"@, "tool_calls"@];
    assert forall|i: int| 0 <= i < keys.len() implies #[trigger] message_json(m).get(keys[i]) == (if member(a, keys[i]) is Some {
        member(a, keys[i])
    } else if member(id, keys[i]) is Some {
        member(id, keys[i])
    } else {
        member(tc, keys[i])
    }) by {
        lemma_member_concat(a, id, keys[i]);
        lemma_member_concat(a + id, tc, keys[i]);
    }
    lemma_member_pair("role"@, JsonV::Str(m.role), "content"@, JsonV::Str(m.content), "role"@);
    lemma_member_pair("role"@, JsonV::Str(m.role), "content"@, JsonV::Str(m.content), "content"@);
    lemma_member_pair("role"@, JsonV::Str(m.role), "content"@, JsonV::Str(m.content), "tool_call_id"@);
    lemma_member_pair("role"@, JsonV::Str(m.role), "content"@, JsonV::Str(m.content), "tool_calls"@);
    lemma_optional_member("tool_call_id"@, match m.tool_call_id {
        Some(i) => Some(JsonV::Str(i)),
        None => None,
    }, "tool_call_id"@);
    lemma_optional_member("tool_call_id"@, match m.tool_call_id {
        Some(i) => Some(JsonV::Str(i)),
        None => None,
    }, "tool_calls"@);
    lemma_optional_member("tool_calls"@, match m.tool_calls {
        Some(calls) => Some(JsonV::Array(calls_json(calls))),
        None => None,
    }, "tool_calls"@);
    lemma_optional_member("tool_calls"@, match m.tool_calls {
        Some(calls) => Some(JsonV::Array(calls_json(calls))),
        None => None,
    }, "tool_call_id"@);
    assert(keys[0] == "role"@);
    assert(keys[1] == "content"@);
    assert(keys[2] == "tool_call_id"@);
    assert(keys[3] == "tool_calls"@);
}

fn named(key: &str, value: Json) -> (r: (String, Json))
    ensures
        r.0@ == key@,
        r.1@ == value@,
{
    (String::from_str(key), value)
}

impl OutboundToolCall {
    pub fn to_json(&self) -> (j: Json)
        ensures
            j@ == tool_call_json(self@),
    {
        let inner = vec![
            named("name", Json::Str(self.function.name.clone())),
            named("arguments", Json::Str(self.function.arguments.clone())),
        ];
        let ghost iv = crate::json::members_view(inner@);
        let inner_json = Json::object(inner);
        let members = vec![
            named("id", Json::Str(self.id.clone())),
            named("type", Json::Str(self.call_type.clone())),
            named("function", inner_json),
        ];
        assert(iv =~= tool_call_json(self@)->Object_0[2].1->Object_0);
        assert(crate::json::members_view(members@) =~= tool_call_json(self@)->Object_0);
        Json::object(members)
    }
}

impl ChatMessage {
    /// The JSON form of the message, as it is sent.
    pub fn to_json(&self) -> (j: Json)
        ensures
            j@ == message_json(self@),
    {
        let mut members = vec![
            named("role", Json::Str(self.role.clone())),
            named("content", Json::Str(self.content.clone())),
        ];
        let ghost mv = self@;
        let ghost base = crate::json::members_view(members@);
        match &self.tool_call_id {
            Some(id) => {
                members.push(named("tool_call_id", Json::Str(id.clone())));
            },
            None => {},
        }
        let ghost with_id = crate::json::members_view(members@);
        assert(with_id =~= base + match mv.tool_call_id {
            Some(id) => seq![("tool_call_id"@, JsonV::Str(id))],
            None => Seq::empty(),
        });
        match &self.tool_calls {
            Some(calls) => {
                let mut items: Vec<Json> = Vec::new();
                let mut i: usize = 0;
                while i < calls.len()
                    invariant
                        i <= calls@.len(),
                        items@.len() == i,
                        forall|k: int| 0 <= k < i ==> #[trigger] items@[k]@ == tool_call_json(calls@[k]@),
                    decreases calls@.len() - i,
                {
                    items.push(calls[i].to_json());
                    i = i + 1;
                }
                assert(items_view(items@) =~= calls_json(calls_view(calls@)));
                members.push(named("tool_calls", Json::array(items)));
            },
            None => {},
        }
        assert(crate::json::members_view(members@) =~= message_json(mv)->Object_0);
        Json::object(members)
    }
}

impl ChatCompletionsRequest {
    /// The JSON form of the request, as it is sent.
    pub fn to_json(&self) -> (j: Json)
        ensures
            j@ == request_json(*self),
    {
        let mut msgs: Vec<Json> = Vec::new();
        let mut i: usize = 0;
        while i < self.messages.len()
            invariant
                i <= self.messages@.len(),
                msgs@.len() == i,
                forall|k: int| 0 <= k < i ==> #[trigger] msgs@[k]@ == message_json(self.messages@[k]@),
            decreases self.messages@.len() - i,
        {
            msgs.push(self.messages[i].to_json());
            i = i + 1;
        }
        assert(items_view(msgs@) =~= messages_json(messages_view(self.messages@)));
        let mut members = vec![
            named("model", Json::Str(self.model.clone())),
            named("messages", Json::array(msgs)),
        ];
        if self.tools.len() > 0 {
            let mut tools: Vec<Json> = Vec::new();
            let mut j: usize = 0;
            while j < self.tools.len()
                invariant
                    j <= self.tools@.len(),
                    tools@.len() == j,
                    forall|k: int| 0 <= k < j ==> #[trigger] tools@[k]@ == self.tools@[k]@,
                decreases self.tools@.len() - j,
            {
                tools.push(self.tools[j].deep_copy());
                j = j + 1;
            }
            assert(items_view(tools@) =~= items_view(self.tools@));
            members.push(named("tools", Json::array(tools)));
        }
        members.push(named("tool_choice", Json::Str(self.tool_choice.clone())));
        members.push(named("parallel_tool_calls", Json::Bool(self.parallel_tool_calls)));
        members.push(named("stream", Json::Bool(self.stream)));
        match self.stream_options {
            Some(o) => {
                let inner = vec![named("include_usage", Json::Bool(o.include_usage))];
                assert(crate::json::members_view(inner@) =~= seq![
                    ("include_usage"@, JsonV::Bool(o.include_usage)),
                ]);
                members.push(named("stream_options", Json::object(inner)));
            },
            None => {},
        }
        match &self.reasoning_effort {
            Some(e) => {
                members.push(named("reasoning_effort", Json::Str(e.clone())));
            },
            None => {},
        }
        assert(crate::json::members_view(members@) =~= request_json(*self)->Object_0);
        Json::object(members)
    }
}

} // verus!
