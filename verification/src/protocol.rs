//! The conversation model that the request conversion reads and the stream processor
//! produces: content items, response items, requests and stream events.
use vstd::prelude::*;
use crate::json::{Json, JsonV};

verus! {

pub open spec fn opt_view(o: Option<String>) -> Option<Seq<char>> {
    match o {
        Some(s) => Some(s@),
        None => None,
    }
}

/// One piece of message content.
pub enum ContentItem {
    InputText { text: String },
    InputImage { image_url: String, detail: Option<String> },
    OutputText { text: String },
}

pub enum ContentItemV {
    InputText { text: Seq<char> },
    InputImage { image_url: Seq<char>, detail: Option<Seq<char>> },
    OutputText { text: Seq<char> },
}

impl View for ContentItem {
    type V = ContentItemV;

    open spec fn view(&self) -> ContentItemV {
        match self {
            ContentItem::InputText { text } => ContentItemV::InputText { text: text@ },
            ContentItem::InputImage { image_url, detail } => ContentItemV::InputImage {
                image_url: image_url@,
                detail: opt_view(*detail),
            },
            ContentItem::OutputText { text } => ContentItemV::OutputText { text: text@ },
        }
    }
}

pub open spec fn content_view(items: Seq<ContentItem>) -> Seq<ContentItemV> {
    items.map_values(|c: ContentItem| c@)
}

/// The output of a tool call, held as the text it renders to (`None` when it
/// has no text form).
pub struct FunctionCallOutputPayload {
    pub text: Option<String>,
}

impl FunctionCallOutputPayload {
    pub fn from_text(text: String) -> (r: FunctionCallOutputPayload)
        ensures
            opt_view(r.text) == Some(text@),
    {
        FunctionCallOutputPayload { text: Some(text) }
    }
}

/// Reasoning effort levels of the conversation model.
#[derive(Clone, Copy, Debug, PartialEq, Eq, Structural)]
pub enum ReasoningEffort {
    Disabled,
    Minimal,
    Low,
    Medium,
    High,
    XHigh,
}

/// Reasoning options of a request.
pub struct Reasoning {
    pub effort: Option<ReasoningEffort>,
}

/// One item of a conversation.
#[allow(inconsistent_fields)]
pub enum ResponseItem {
    Message { id: Option<String>, role: String, content: Vec<ContentItem>, phase: Option<String> },
    Reasoning {
        id: String,
        summary: Vec<String>,
        content: Option<Vec<String>>,
        encrypted_content: Option<String>,
    },
    LocalShellCall,
    FunctionCall {
        id: Option<String>,
        name: String,
        namespace: Option<String>,
        arguments: String,
        call_id: String,
    },
    ToolSearchCall,
    FunctionCallOutput { call_id: String, output: FunctionCallOutputPayload },
    CustomToolCall {
        id: Option<String>,
        status: Option<String>,
        call_id: String,
        name: String,
        input: String,
    },
    CustomToolCallOutput { call_id: String, output: FunctionCallOutputPayload },
    ToolSearchOutput,
    WebSearchCall,
    ImageGenerationCall,
    Compaction,
    ContextCompaction,
    CompactionTrigger,
    Other,
}

/// Model of the [`ResponseItem`] variants that carry data the library reads or
/// writes; every other variant is `Skipped`.
pub enum ResponseItemV {
    Message {
        id: Option<Seq<char>>,
        role: Seq<char>,
        content: Seq<ContentItemV>,
        phase: Option<Seq<char>>,
    },
    FunctionCall {
        id: Option<Seq<char>>,
        name: Seq<char>,
        namespace: Option<Seq<char>>,
        arguments: Seq<char>,
        call_id: Seq<char>,
    },
    FunctionCallOutput { call_id: Seq<char>, output_text: Option<Seq<char>> },
    CustomToolCall {
        id: Option<Seq<char>>,
        status: Option<Seq<char>>,
        call_id: Seq<char>,
        name: Seq<char>,
        input: Seq<char>,
    },
    CustomToolCallOutput { call_id: Seq<char>, output_text: Option<Seq<char>> },
    Skipped,
}

impl View for ResponseItem {
    type V = ResponseItemV;

    open spec fn view(&self) -> ResponseItemV {
        match self {
            ResponseItem::Message { id, role, content, phase } => ResponseItemV::Message {
                id: opt_view(*id),
                role: role@,
                content: content_view(content@),
                phase: opt_view(*phase),
            },
            ResponseItem::FunctionCall { id, name, namespace, arguments, call_id } =>
                ResponseItemV::FunctionCall {
                id: opt_view(*id),
                name: name@,
                namespace: opt_view(*namespace),
                arguments: arguments@,
                call_id: call_id@,
            },
            ResponseItem::FunctionCallOutput { call_id, output } =>
                ResponseItemV::FunctionCallOutput {
                call_id: call_id@,
                output_text: opt_view(output.text),
            },
            ResponseItem::CustomToolCall { id, status, call_id, name, input } =>
                ResponseItemV::CustomToolCall {
                id: opt_view(*id),
                status: opt_view(*status),
                call_id: call_id@,
                name: name@,
                input: input@,
            },
            ResponseItem::CustomToolCallOutput { call_id, output } =>
                ResponseItemV::CustomToolCallOutput {
                call_id: call_id@,
                output_text: opt_view(output.text),
            },
            _ => ResponseItemV::Skipped,
        }
    }
}

/// A request in the Responses format.
pub struct ResponsesApiRequest {
    pub model: String,
    pub instructions: String,
    pub input: Vec<ResponseItem>,
    pub tools: Vec<Json>,
    pub tool_choice: String,
    pub parallel_tool_calls: bool,
    pub reasoning: Option<Reasoning>,
    pub store: bool,
    pub stream: bool,
    pub included_fields: Vec<String>,
    pub service_tier: Option<String>,
    pub prompt_cache_key: Option<String>,
    pub text: Option<Json>,
    pub client_metadata: Option<Vec<(String, String)>>,
}

/// Token counts of a finished response.
#[derive(Clone, Copy, Debug, PartialEq, Eq, Structural)]
pub struct TokenUsage {
    pub input_tokens: i64,
    pub cached_input_tokens: i64,
    pub output_tokens: i64,
    pub reasoning_output_tokens: i64,
    pub total_tokens: i64,
}

/// An event of a streamed response.
pub enum ResponseEvent {
    OutputItemAdded(ResponseItem),
    OutputTextDelta(String),
    ReasoningContentDelta { delta: String, content_index: i64 },
    ToolCallInputDelta { item_id: String, call_id: Option<String>, delta: String },
    OutputItemDone(ResponseItem),
    Completed { response_id: String, token_usage: Option<TokenUsage>, end_turn: Option<bool> },
}

pub enum ResponseEventV {
    OutputItemAdded(ResponseItemV),
    OutputTextDelta(Seq<char>),
    ReasoningContentDelta { delta: Seq<char>, content_index: i64 },
    ToolCallInputDelta { item_id: Seq<char>, call_id: Option<Seq<char>>, delta: Seq<char> },
    OutputItemDone(ResponseItemV),
    Completed { response_id: Seq<char>, token_usage: Option<TokenUsage>, end_turn: Option<bool> },
}

impl View for ResponseEvent {
    type V = ResponseEventV;

    open spec fn view(&self) -> ResponseEventV {
        match self {
            ResponseEvent::OutputItemAdded(item) => ResponseEventV::OutputItemAdded(item@),
            ResponseEvent::OutputTextDelta(t) => ResponseEventV::OutputTextDelta(t@),
            ResponseEvent::ReasoningContentDelta { delta, content_index } =>
                ResponseEventV::ReasoningContentDelta { delta: delta@, content_index: *content_index },
            ResponseEvent::ToolCallInputDelta { item_id, call_id, delta } =>
                ResponseEventV::ToolCallInputDelta {
                item_id: item_id@,
                call_id: opt_view(*call_id),
                delta: delta@,
            },
            ResponseEvent::OutputItemDone(item) => ResponseEventV::OutputItemDone(item@),
            ResponseEvent::Completed { response_id, token_usage, end_turn } =>
                ResponseEventV::Completed {
                response_id: response_id@,
                token_usage: *token_usage,
                end_turn: *end_turn,
            },
        }
    }
}

pub open spec fn events_view(events: Seq<ResponseEvent>) -> Seq<ResponseEventV> {
    events.map_values(|e: ResponseEvent| e@)
}

} // verus!
