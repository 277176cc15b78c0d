//! The conversion from a Responses request to a Chat Completions request,
//! and the JSON shape of the result.

use codex_api::json::Json;
use codex_api::protocol::ContentItem;
use codex_api::protocol::ResponseItem;
use codex_api::responses_to_chat_completions_request;
use codex_api::ChatCompletionsRequest;
use codex_api::ResponsesApiRequest;
use serde_json::Value;

fn to_value(j: &Json) -> Value {
    match j {
        Json::Null => Value::Null,
        Json::Bool(b) => Value::Bool(*b),
        Json::Number(n) => serde_json::from_str(n).unwrap(),
        Json::Str(s) => Value::String(s.clone()),
        Json::Array(a) => Value::Array(a.iter().map(to_value).collect()),
        Json::Object(m) => Value::Object(m.iter().map(|(k, v)| (k.clone(), to_value(v))).collect()),
    }
}

fn from_value(v: Value) -> Json {
    match v {
        Value::Null => Json::Null,
        Value::Bool(b) => Json::Bool(b),
        Value::Number(n) => Json::Number(n.to_string()),
        Value::String(s) => Json::Str(s),
        Value::Array(a) => Json::Array(a.into_iter().map(from_value).collect()),
        Value::Object(m) => Json::Object(m.into_iter().map(|(k, x)| (k, from_value(x))).collect()),
    }
}

fn serialize(cc: &ChatCompletionsRequest) -> Value {
    to_value(&cc.to_json())
}

#[test]
fn chat_completions_request_serializes_correctly() {
    let req = ResponsesApiRequest {
        model: "sarvam-30b".to_string(),
        instructions: "You are helpful.".to_string(),
        input: vec![ResponseItem::Message {
            id: None,
            role: "user".to_string(),
            content: vec![ContentItem::InputText {
                text: "Hello".to_string(),
            }],
            phase: None,
        }],
        tools: vec![],
        tool_choice: "auto".to_string(),
        parallel_tool_calls: false,
        reasoning: None,
        store: false,
        stream: true,
        included_fields: vec![],
        service_tier: None,
        prompt_cache_key: None,
        text: None,
        client_metadata: None,
    };

    let cc = responses_to_chat_completions_request(&req);

    // Verify structure
    assert_eq!(cc.model, "sarvam-30b");
    assert_eq!(cc.messages.len(), 2); // system + user
    assert_eq!(cc.messages[0].role, "system");
    assert_eq!(cc.messages[1].role, "user");
    assert_eq!(cc.messages[1].content, "Hello");
    assert!(cc.stream);
    assert!(cc.stream_options.is_some());

    // Serialize to JSON and verify Sarvam compatibility
    let json = serialize(&cc);
    assert_eq!(json["model"], "sarvam-30b");
    assert_eq!(json["stream"], true);
    assert_eq!(json["stream_options"]["include_usage"], true);

    // Verify all messages have plain string content (not arrays)
    for msg in json["messages"].as_array().unwrap() {
        let content = &msg["content"];
        assert!(
            content.is_string(),
            "Sarvam requires content to be a plain string, not an array. Got: {:?}",
            content
        );
    }

    println!(
        "Chat Completions request: {}",
        serde_json::to_string_pretty(&json).unwrap()
    );
}

#[test]
fn content_flattening_respects_sarvam_constraints() {
    let req = ResponsesApiRequest {
        model: "sarvam-30b".to_string(),
        instructions: String::new(),
        input: vec![ResponseItem::Message {
            id: None,
            role: "user".to_string(),
            content: vec![
                ContentItem::InputText {
                    text: "Part A".to_string(),
                },
                ContentItem::InputImage {
                    image_url: "https://example.com/img.png".to_string(),
                    detail: None,
                },
                ContentItem::InputText {
                    text: "Part B".to_string(),
                },
            ],
            phase: None,
        }],
        tools: vec![],
        tool_choice: "auto".to_string(),
        parallel_tool_calls: false,
        reasoning: None,
        store: false,
        stream: true,
        included_fields: vec![],
        service_tier: None,
        prompt_cache_key: None,
        text: None,
        client_metadata: None,
    };

    let cc = responses_to_chat_completions_request(&req);
    assert_eq!(cc.messages[0].content, "Part A\n[image]\nPart B");

    // Serialize and verify it's still a plain string in JSON
    let json = serialize(&cc);
    assert!(
        json["messages"][0]["content"].is_string(),
        "Content must be a string for Sarvam"
    );
}

#[test]
fn tool_calls_formatted_for_sarvam() {
    let req = ResponsesApiRequest {
        model: "sarvam-30b".to_string(),
        instructions: String::new(),
        input: vec![ResponseItem::FunctionCall {
            id: None,
            name: "get_weather".to_string(),
            namespace: None,
            arguments: r#"{"city":"San Francisco"}"#.to_string(),
            call_id: "call_123".to_string(),
        }],
        tools: vec![],
        tool_choice: "auto".to_string(),
        parallel_tool_calls: false,
        reasoning: None,
        store: false,
        stream: true,
        included_fields: vec![],
        service_tier: None,
        prompt_cache_key: None,
        text: None,
        client_metadata: None,
    };

    let cc = responses_to_chat_completions_request(&req);
    let json = serialize(&cc);

    // Verify the message has tool_calls
    let msg = &json["messages"][0];
    assert_eq!(msg["role"], "assistant");
    assert_eq!(msg["content"], ""); // Assistant tool calls have empty content
    assert!(msg["tool_calls"].is_array());
    assert_eq!(msg["tool_calls"][0]["id"], "call_123");
    assert_eq!(msg["tool_calls"][0]["type"], "function");
    assert_eq!(msg["tool_calls"][0]["function"]["name"], "get_weather");
    assert_eq!(
        msg["tool_calls"][0]["function"]["arguments"],
        r#"{"city":"San Francisco"}"#
    );
}

#[test]
fn tool_rewrapping_from_responses_to_chat_completions() {
    let responses_tool = from_value(
        serde_json::from_str(
            r#"{
                "type": "function",
                "name": "fetch_data",
                "description": "Fetch data from the API",
                "strict": false,
                "parameters": {
                    "type": "object",
                    "properties": {
                        "url": {"type": "string"}
                    }
                }
            }"#,
        )
        .unwrap(),
    );

    let req = ResponsesApiRequest {
        model: "sarvam-30b".to_string(),
        instructions: String::new(),
        input: vec![],
        tools: vec![responses_tool],
        tool_choice: "auto".to_string(),
        parallel_tool_calls: false,
        reasoning: None,
        store: false,
        stream: true,
        included_fields: vec![],
        service_tier: None,
        prompt_cache_key: None,
        text: None,
        client_metadata: None,
    };

    let cc = responses_to_chat_completions_request(&req);
    let json = serialize(&cc);

    // Verify the tool is rewrapped
    assert_eq!(json["tools"][0]["type"], "function");
    assert_eq!(json["tools"][0]["function"]["name"], "fetch_data");
    assert_eq!(
        json["tools"][0]["function"]["description"],
        "Fetch data from the API"
    );
    assert!(json["tools"][0]["function"]["parameters"].is_object());

    // Verify Responses-API-only fields are dropped
    assert!(json["tools"][0].get("strict").is_none());
}

#[test]
fn optional_fields_are_left_out_of_the_wire_form() {
    let req = ResponsesApiRequest {
        model: "m".to_string(),
        instructions: String::new(),
        input: vec![],
        tools: vec![],
        tool_choice: "none".to_string(),
        parallel_tool_calls: true,
        reasoning: None,
        store: true,
        stream: false,
        included_fields: vec!["x".to_string()],
        service_tier: Some("flex".to_string()),
        prompt_cache_key: Some("k".to_string()),
        text: None,
        client_metadata: None,
    };
    let cc = responses_to_chat_completions_request(&req);
    let json = serialize(&cc);
    let obj = json.as_object().unwrap();
    assert!(obj.get("tools").is_none());
    assert!(obj.get("stream_options").is_none());
    assert!(obj.get("reasoning_effort").is_none());
    assert!(obj.get("store").is_none());
    assert_eq!(json["tool_choice"], "none");
    assert_eq!(json["parallel_tool_calls"], true);
    assert_eq!(json["stream"], false);
    assert_eq!(json["messages"], serde_json::Value::Array(vec![]));
}
