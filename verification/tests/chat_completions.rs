use codex_api::chat_completions::ensure_json_arguments;
use codex_api::json::Json;
use codex_api::protocol::ContentItem;
use codex_api::protocol::FunctionCallOutputPayload;
use codex_api::protocol::Reasoning;
use codex_api::protocol::ReasoningEffort;
use codex_api::protocol::ResponseItem;
use codex_api::responses_to_chat_completions_request;
use codex_api::synth::edit_file_patch;
use codex_api::synth::glob_command_args;
use codex_api::synth::grep_command_args;
use codex_api::synth::read_file_command;
use codex_api::synth::synth_apply_patch_from_edit_file;
use codex_api::synth::write_file_patch;
use codex_api::text::header_value_text;
use codex_api::json::empty_object_text;
use codex_api::json::single_string_member_object;
use codex_api::sse::legacy_patch_of;
use codex_api::sse::upstream_error_of;
use codex_api::synth::synth_apply_patch_from_write_file;
use codex_api::synth::synth_shell_command_from_glob;
use codex_api::synth::synth_shell_command_from_grep;
use codex_api::synth::synth_shell_command_from_read_file;
use codex_api::ResponsesApiRequest;
use serde_json::Value;

fn json(text: &str) -> Json {
    from_value(serde_json::from_str(text).unwrap())
}

fn from_value(v: Value) -> Json {
    match v {
        Value::Null => Json::Null,
        Value::Bool(b) => Json::Bool(b),
        Value::Number(n) => Json::Number(n.to_string()),
        Value::String(s) => Json::Str(s),
        Value::Array(a) => Json::Array(a.into_iter().map(from_value).collect()),
        Value::Object(m) => Json::Object(m.into_iter().map(|(k, x)| (k, from_value(x))).collect()),
    }
}

fn field<'a>(v: &'a Json, key: &str) -> &'a Json {
    v.get(key).unwrap()
}

fn str_field<'a>(v: &'a Json, key: &str) -> Option<&'a str> {
    v.get(key).and_then(|x| x.as_str())
}

fn make_request(instructions: &str, input: Vec<ResponseItem>) -> ResponsesApiRequest {
    ResponsesApiRequest {
        model: "sarvam-m".to_string(),
        instructions: instructions.to_string(),
        input,
        tools: vec![],
        tool_choice: "auto".to_string(),
        parallel_tool_calls: false,
        reasoning: None,
        store: false,
        stream: true,
        included_fields: vec![],
        service_tier: None,
        prompt_cache_key: None,
        text: None,
        client_metadata: None,
    }
}

fn tool_names(tools: &[Json]) -> Vec<&str> {
    tools
        .iter()
        .map(|t| str_field(field(t, "function"), "name").unwrap())
        .collect()
}

#[test]
fn system_message_from_instructions() {
    let req = make_request("You are a helpful assistant.", vec![]);
    let cc = responses_to_chat_completions_request(&req);
    assert_eq!(cc.messages.len(), 1);
    assert_eq!(cc.messages[0].role, "system");
    assert_eq!(cc.messages[0].content, "You are a helpful assistant.");
}

#[test]
fn empty_instructions_omitted() {
    let req = make_request("", vec![]);
    let cc = responses_to_chat_completions_request(&req);
    assert!(cc.messages.is_empty());
}

#[test]
fn simple_user_message_flattened() {
    let req = make_request(
        "",
        vec![ResponseItem::Message {
            id: None,
            role: "user".to_string(),
            content: vec![ContentItem::InputText {
                text: "Hello, world!".to_string(),
            }],
            phase: None,
        }],
    );
    let cc = responses_to_chat_completions_request(&req);
    assert_eq!(cc.messages.len(), 1);
    assert_eq!(cc.messages[0].role, "user");
    assert_eq!(cc.messages[0].content, "Hello, world!");
}

#[test]
fn multi_part_content_joined() {
    let req = make_request(
        "",
        vec![ResponseItem::Message {
            id: None,
            role: "user".to_string(),
            content: vec![
                ContentItem::InputText {
                    text: "Part one.".to_string(),
                },
                ContentItem::InputText {
                    text: "Part two.".to_string(),
                },
            ],
            phase: None,
        }],
    );
    let cc = responses_to_chat_completions_request(&req);
    assert_eq!(cc.messages[0].content, "Part one.\nPart two.");
}

#[test]
fn image_item_becomes_placeholder() {
    let req = make_request(
        "",
        vec![ResponseItem::Message {
            id: None,
            role: "user".to_string(),
            content: vec![ContentItem::InputImage {
                image_url: "http://example.com/img.png".to_string(),
                detail: None,
            }],
            phase: None,
        }],
    );
    let cc = responses_to_chat_completions_request(&req);
    assert_eq!(cc.messages[0].content, "[image]");
}

#[test]
fn function_call_becomes_assistant_tool_calls() {
    let req = make_request(
        "",
        vec![ResponseItem::FunctionCall {
            id: None,
            name: "my_tool".to_string(),
            namespace: None,
            arguments: r#"{"x":1}"#.to_string(),
            call_id: "call_abc".to_string(),
        }],
    );
    let cc = responses_to_chat_completions_request(&req);
    assert_eq!(cc.messages[0].role, "assistant");
    assert_eq!(cc.messages[0].content, "");
    let tool_calls = cc.messages[0].tool_calls.as_ref().unwrap();
    assert_eq!(tool_calls[0].id, "call_abc");
    assert_eq!(tool_calls[0].function.name, "my_tool");
    assert_eq!(tool_calls[0].function.arguments, r#"{"x":1}"#);
}

#[test]
fn function_call_output_becomes_tool_message() {
    let req = make_request(
        "",
        vec![ResponseItem::FunctionCallOutput {
            call_id: "call_abc".to_string(),
            output: FunctionCallOutputPayload::from_text("result text".to_string()),
        }],
    );
    let cc = responses_to_chat_completions_request(&req);
    assert_eq!(cc.messages[0].role, "tool");
    assert_eq!(cc.messages[0].content, "result text");
    assert_eq!(cc.messages[0].tool_call_id.as_deref(), Some("call_abc"));
}

#[test]
fn multiturn_with_tool_call() {
    let req = make_request(
        "sys",
        vec![
            ResponseItem::Message {
                id: None,
                role: "user".to_string(),
                content: vec![ContentItem::InputText {
                    text: "run something".to_string(),
                }],
                phase: None,
            },
            ResponseItem::FunctionCall {
                id: None,
                name: "shell".to_string(),
                namespace: None,
                arguments: "{}".to_string(),
                call_id: "c1".to_string(),
            },
            ResponseItem::FunctionCallOutput {
                call_id: "c1".to_string(),
                output: FunctionCallOutputPayload::from_text("ok".to_string()),
            },
            ResponseItem::Message {
                id: None,
                role: "assistant".to_string(),
                content: vec![ContentItem::OutputText {
                    text: "Done!".to_string(),
                }],
                phase: None,
            },
        ],
    );
    let cc = responses_to_chat_completions_request(&req);
    assert_eq!(cc.messages.len(), 5); // system + user + assistant(tool) + tool + assistant
    assert_eq!(cc.messages[0].role, "system");
    assert_eq!(cc.messages[1].role, "user");
    assert_eq!(cc.messages[2].role, "assistant");
    assert!(cc.messages[2].tool_calls.is_some());
    assert_eq!(cc.messages[3].role, "tool");
    assert_eq!(cc.messages[4].role, "assistant");
    assert_eq!(cc.messages[4].content, "Done!");
}

#[test]
fn reasoning_items_skipped() {
    let req = make_request(
        "",
        vec![ResponseItem::Reasoning {
            id: "r1".to_string(),
            summary: vec![],
            content: None,
            encrypted_content: None,
        }],
    );
    let cc = responses_to_chat_completions_request(&req);
    assert!(cc.messages.is_empty());
}

#[test]
fn tool_rewrapped_correctly() {
    let responses_tool = json(
        r#"{
            "type": "function",
            "name": "get_weather",
            "description": "Get weather",
            "strict": false,
            "parameters": {"type": "object", "properties": {}}
        }"#,
    );
    let mut req = make_request("", vec![]);
    req.tools = vec![responses_tool];
    let cc = responses_to_chat_completions_request(&req);
    assert_eq!(cc.tools.len(), 1);
    let tool = &cc.tools[0];
    assert_eq!(str_field(tool, "type"), Some("function"));
    let func = field(tool, "function");
    assert_eq!(str_field(func, "name"), Some("get_weather"));
    assert_eq!(str_field(func, "description"), Some("Get weather"));
    assert!(func.get("strict").is_none(), "strict must not be forwarded");
    assert!(field(func, "parameters").is_object());
}

#[test]
fn non_function_tools_dropped() {
    let responses_tools = vec![
        json(r#"{"type": "local_shell"}"#),
        json(r#"{"type": "web_search"}"#),
        json(
            r#"{
                "type": "function",
                "name": "kept",
                "description": "",
                "parameters": {}
            }"#,
        ),
    ];
    let mut req = make_request("", vec![]);
    req.tools = responses_tools;
    let cc = responses_to_chat_completions_request(&req);
    assert_eq!(cc.tools.len(), 1);
    assert_eq!(str_field(field(&cc.tools[0], "function"), "name"), Some("kept"));
}

#[test]
fn apply_patch_custom_is_replaced_by_edit_and_write_tools() {
    let apply_patch_tool = json(r#"{"type": "custom", "name": "apply_patch"}"#);
    let mut req = make_request("", vec![]);
    req.tools = vec![apply_patch_tool];
    let cc = responses_to_chat_completions_request(&req);
    assert_eq!(cc.tools.len(), 2, "apply_patch is replaced by two simpler tools");
    let names = tool_names(&cc.tools);
    assert!(names.contains(&"edit_file"));
    assert!(names.contains(&"write_file"));
    for tool in &cc.tools {
        assert_eq!(str_field(tool, "type"), Some("function"));
        assert!(field(field(field(tool, "function"), "parameters"), "properties").is_object());
    }
}

#[test]
fn other_custom_tools_still_dropped() {
    let tools = vec![
        json(r#"{"type": "custom", "name": "some_other_custom"}"#),
        json(r#"{"type": "custom", "name": "apply_patch"}"#),
    ];
    let mut req = make_request("", vec![]);
    req.tools = tools;
    let cc = responses_to_chat_completions_request(&req);
    // apply_patch expands to two tools; the other custom is dropped.
    assert_eq!(cc.tools.len(), 2);
    let names = tool_names(&cc.tools);
    assert!(names.contains(&"edit_file"));
    assert!(names.contains(&"write_file"));
}

#[test]
fn synth_edit_file_builds_update_patch() {
    let args = r#"{"file_path":"src/lib.rs","old_string":"foo","new_string":"bar"}"#;
    let patch = synth_apply_patch_from_edit_file(args).unwrap();
    assert!(patch.starts_with("*** Begin Patch\n"));
    assert!(patch.contains("*** Update File: src/lib.rs\n"));
    assert!(patch.contains("@@\n-foo\n+bar\n"));
    assert!(patch.ends_with("*** End Patch\n"));
}

#[test]
fn synth_edit_file_handles_multiline_strings() {
    let args = r#"{"file_path":"a.txt","old_string":"line1\nline2","new_string":"newA\nnewB"}"#;
    let patch = synth_apply_patch_from_edit_file(args).unwrap();
    assert!(patch.contains("-line1\n-line2\n"));
    assert!(patch.contains("+newA\n+newB\n"));
}

#[test]
fn synth_edit_file_rejects_missing_fields() {
    let err = synth_apply_patch_from_edit_file(r#"{"file_path":"x"}"#).unwrap_err();
    assert!(err.contains("old_string"));
}

#[test]
fn synth_write_file_builds_add_patch() {
    let args = r#"{"file_path":"notes.md","content":"hello\nworld\n"}"#;
    let patch = synth_apply_patch_from_write_file(args).unwrap();
    assert!(patch.starts_with("*** Begin Patch\n"));
    assert!(patch.contains("*** Add File: notes.md\n"));
    assert!(patch.contains("+hello\n+world\n"));
    assert!(patch.ends_with("*** End Patch\n"));
}

#[test]
fn custom_tool_call_arguments_are_json_wrapped_on_replay() {
    let patch = "*** Begin Patch\n*** Update File: x\n@@\n-foo\n+bar\n*** End Patch\n";
    let req = make_request(
        "",
        vec![ResponseItem::CustomToolCall {
            id: None,
            status: None,
            call_id: "call_1".to_string(),
            name: "apply_patch".to_string(),
            input: patch.to_string(),
        }],
    );
    let cc = responses_to_chat_completions_request(&req);
    let tool_calls = cc.messages[0].tool_calls.as_ref().unwrap();
    let args = &tool_calls[0].function.arguments;
    // Must parse as JSON.
    let parsed: serde_json::Value =
        serde_json::from_str(args).expect("arguments must be valid JSON");
    assert_eq!(parsed["input"].as_str().unwrap(), patch);
}

#[test]
fn function_call_with_malformed_arguments_is_sanitized() {
    let req = make_request(
        "",
        vec![ResponseItem::FunctionCall {
            id: None,
            name: "shell_command".to_string(),
            namespace: None,
            arguments: "command='ls'".to_string(), // not JSON
            call_id: "c1".to_string(),
        }],
    );
    let cc = responses_to_chat_completions_request(&req);
    let args = &cc.messages[0].tool_calls.as_ref().unwrap()[0]
        .function
        .arguments;
    let parsed: serde_json::Value =
        serde_json::from_str(args).expect("arguments must be valid JSON");
    assert_eq!(parsed["raw_arguments"].as_str().unwrap(), "command='ls'");
}

#[test]
fn function_call_with_valid_json_is_unchanged() {
    let req = make_request(
        "",
        vec![ResponseItem::FunctionCall {
            id: None,
            name: "shell_command".to_string(),
            namespace: None,
            arguments: r#"{"command":"ls"}"#.to_string(),
            call_id: "c1".to_string(),
        }],
    );
    let cc = responses_to_chat_completions_request(&req);
    assert_eq!(
        cc.messages[0].tool_calls.as_ref().unwrap()[0]
            .function
            .arguments,
        r#"{"command":"ls"}"#
    );
}

#[test]
fn synth_write_file_rejects_invalid_json() {
    let err = synth_apply_patch_from_write_file("not json").unwrap_err();
    assert!(err.to_lowercase().contains("json"));
}

#[test]
fn read_search_tools_are_added_when_shell_command_present() {
    let shell_tool = json(
        r#"{
            "type": "function",
            "name": "shell_command",
            "description": "Run a shell command",
            "parameters": {"type": "object"}
        }"#,
    );
    let mut req = make_request("", vec![]);
    req.tools = vec![shell_tool];
    let cc = responses_to_chat_completions_request(&req);
    let names = tool_names(&cc.tools);
    assert!(names.contains(&"shell_command"));
    assert!(names.contains(&"read_file"));
    assert!(names.contains(&"glob"));
    assert!(names.contains(&"grep"));
}

#[test]
fn read_search_tools_not_added_when_no_shell() {
    let mut req = make_request("", vec![]);
    req.tools = vec![json(
        r#"{
            "type": "function",
            "name": "some_other_tool",
            "description": "x",
            "parameters": {}
        }"#,
    )];
    let cc = responses_to_chat_completions_request(&req);
    let names = tool_names(&cc.tools);
    assert!(!names.contains(&"read_file"));
    assert!(!names.contains(&"glob"));
    assert!(!names.contains(&"grep"));
}

fn command_of(out: &str) -> String {
    let v: Value = serde_json::from_str(out).unwrap();
    v["command"].as_str().unwrap().to_string()
}

#[test]
fn synth_read_file_full_uses_cat() {
    let args = r#"{"file_path":"src/lib.rs"}"#;
    let out = synth_shell_command_from_read_file(args).unwrap();
    assert_eq!(command_of(&out), "cat -- 'src/lib.rs'");
}

#[test]
fn synth_read_file_with_offset_and_limit_uses_sed() {
    let args = r#"{"file_path":"a.txt","offset":10,"limit":5}"#;
    let out = synth_shell_command_from_read_file(args).unwrap();
    assert_eq!(command_of(&out), "sed -n '10,14p' -- 'a.txt'");
}

#[test]
fn synth_read_file_quotes_single_quote_in_path() {
    let args = r#"{"file_path":"weird's name.txt"}"#;
    let out = synth_shell_command_from_read_file(args).unwrap();
    assert_eq!(command_of(&out), r"cat -- 'weird'\''s name.txt'");
}

#[test]
fn synth_glob_builds_rg_files_command() {
    let args = r#"{"pattern":"**/*.rs","path":"src"}"#;
    let out = synth_shell_command_from_glob(args).unwrap();
    assert_eq!(command_of(&out), "rg --files --hidden -g '**/*.rs' 'src'");
}

#[test]
fn synth_grep_builds_rg_command_with_include() {
    let args = r#"{"pattern":"TODO","path":".","include":"*.rs"}"#;
    let out = synth_shell_command_from_grep(args).unwrap();
    assert_eq!(command_of(&out), "rg -n --color never 'TODO' -g '*.rs' '.'");
}

#[test]
fn synth_grep_rejects_missing_pattern() {
    let err = synth_shell_command_from_grep(r#"{"path":"."}"#).unwrap_err();
    assert!(err.contains("pattern"));
}

#[test]
fn stream_options_included_when_streaming() {
    let req = make_request("", vec![]);
    let cc = responses_to_chat_completions_request(&req);
    assert!(cc.stream_options.is_some());
    assert!(cc.stream_options.unwrap().include_usage);
}

// ── Further cases ────────────────────────────────────────────────────────────

#[test]
fn blank_arguments_become_empty_object() {
    assert_eq!(ensure_json_arguments("   \n\t"), "{}");
    assert_eq!(ensure_json_arguments(""), "{}");
}

#[test]
fn malformed_arguments_are_escaped_exactly() {
    // Quotes, backslashes and control characters are escaped the way
    // serde_json writes them.
    assert_eq!(
        ensure_json_arguments("a\"b\\c\nd\u{1}"),
        "{\"raw_arguments\":\"a\\\"b\\\\c\\nd\\u0001\"}"
    );
}

#[test]
fn padded_valid_arguments_are_kept_with_their_padding() {
    assert_eq!(ensure_json_arguments("  {\"a\":1} "), "  {\"a\":1} ");
}

#[test]
fn padding_that_json_refuses_is_wrapped() {
    assert_eq!(
        ensure_json_arguments("\u{c}{}"),
        "{\"raw_arguments\":\"\\f{}\"}"
    );
    assert_eq!(
        ensure_json_arguments("{}\u{a0}"),
        "{\"raw_arguments\":\"{}\u{a0}\"}"
    );
}

#[test]
fn developer_role_becomes_system() {
    let req = make_request(
        "",
        vec![ResponseItem::Message {
            id: None,
            role: "developer".to_string(),
            content: vec![
                ContentItem::InputText {
                    text: "".to_string(),
                },
                ContentItem::OutputText {
                    text: "rules".to_string(),
                },
                ContentItem::InputImage {
                    image_url: "u".to_string(),
                    detail: None,
                },
            ],
            phase: None,
        }],
    );
    let cc = responses_to_chat_completions_request(&req);
    assert_eq!(cc.messages[0].role, "system");
    assert_eq!(cc.messages[0].content, "rules\n[image]");
}

#[test]
fn custom_tool_output_becomes_tool_message() {
    let req = make_request(
        "",
        vec![
            ResponseItem::CustomToolCallOutput {
                call_id: "c9".to_string(),
                output: FunctionCallOutputPayload { text: None },
            },
            ResponseItem::WebSearchCall,
            ResponseItem::Compaction,
        ],
    );
    let cc = responses_to_chat_completions_request(&req);
    assert_eq!(cc.messages.len(), 1);
    assert_eq!(cc.messages[0].role, "tool");
    assert_eq!(cc.messages[0].content, "");
    assert_eq!(cc.messages[0].tool_call_id.as_deref(), Some("c9"));
}

#[test]
fn reasoning_effort_levels() {
    let cases = [
        (ReasoningEffort::Disabled, "low"),
        (ReasoningEffort::Minimal, "low"),
        (ReasoningEffort::Low, "low"),
        (ReasoningEffort::Medium, "medium"),
        (ReasoningEffort::High, "high"),
        (ReasoningEffort::XHigh, "high"),
    ];
    for (effort, name) in cases {
        let mut req = make_request("", vec![]);
        req.reasoning = Some(Reasoning {
            effort: Some(effort),
        });
        let cc = responses_to_chat_completions_request(&req);
        assert_eq!(cc.reasoning_effort.as_deref(), Some(name));
    }
    let mut req = make_request("", vec![]);
    req.reasoning = Some(Reasoning { effort: None });
    req.stream = false;
    let cc = responses_to_chat_completions_request(&req);
    assert_eq!(cc.reasoning_effort, None);
    assert!(cc.stream_options.is_none());
    assert!(!cc.stream);
}

#[test]
fn read_file_line_ranges() {
    let cmd = |args: &str| command_of(&synth_shell_command_from_read_file(args).unwrap());
    assert_eq!(cmd(r#"{"file_path":"f","offset":3}"#), "sed -n '3,$p' -- 'f'");
    assert_eq!(cmd(r#"{"file_path":"f","limit":0}"#), "sed -n '1,1p' -- 'f'");
    assert_eq!(cmd(r#"{"file_path":"f","offset":-4,"limit":2}"#), "sed -n '1,2p' -- 'f'");
    assert_eq!(
        cmd(r#"{"file_path":"f","offset":9223372036854775807,"limit":5}"#),
        "sed -n '9223372036854775807,9223372036854775807p' -- 'f'"
    );
    // A fractional offset is not an integer and is ignored.
    assert_eq!(cmd(r#"{"file_path":"f","offset":2.5}"#), "cat -- 'f'");
    assert!(synth_shell_command_from_read_file(r#"{"offset":1}"#)
        .unwrap_err()
        .contains("file_path"));
}

#[test]
fn glob_and_grep_without_optional_parts() {
    let out = synth_shell_command_from_glob(r#"{"pattern":"*.md"}"#).unwrap();
    assert_eq!(command_of(&out), "rg --files --hidden -g '*.md'");
    let out = synth_shell_command_from_grep(r#"{"pattern":"a'b"}"#).unwrap();
    assert_eq!(command_of(&out), r"rg -n --color never 'a'\''b'");
    let err = synth_shell_command_from_glob("[").unwrap_err();
    assert!(err.starts_with("glob arguments are not valid JSON: "));
}

#[test]
fn write_file_without_trailing_newline() {
    let patch =
        synth_apply_patch_from_write_file(r#"{"file_path":"a","content":"x\ny"}"#).unwrap();
    assert_eq!(patch, "*** Begin Patch\n*** Add File: a\n+x\n+y\n*** End Patch\n");
    let patch = synth_apply_patch_from_write_file(r#"{"file_path":"a","content":""}"#).unwrap();
    assert_eq!(patch, "*** Begin Patch\n*** Add File: a\n+\n*** End Patch\n");
    let err = synth_apply_patch_from_write_file(r#"{"file_path":"a"}"#).unwrap_err();
    assert_eq!(err, "write_file requires `content`");
}

#[test]
fn edit_file_exact_patch() {
    let patch = synth_apply_patch_from_edit_file(
        r#"{"file_path":"p","old_string":"","new_string":"n\n"}"#,
    )
    .unwrap();
    assert_eq!(
        patch,
        "*** Begin Patch\n*** Update File: p\n@@\n-\n+n\n+\n*** End Patch\n"
    );
    assert_eq!(
        synth_apply_patch_from_edit_file(r#"{"old_string":"a"}"#).unwrap_err(),
        "edit_file requires `file_path`"
    );
    assert_eq!(
        synth_apply_patch_from_edit_file(r#"{"file_path":"a","old_string":"b","new_string":3}"#)
            .unwrap_err(),
        "edit_file requires `new_string`"
    );
}

#[test]
fn shell_single_quote_examples() {
    assert_eq!(codex_api::shell_single_quote(""), "''");
    assert_eq!(codex_api::shell_single_quote("a b"), "'a b'");
    assert_eq!(codex_api::shell_single_quote("''"), r"''\'''\'''");
}

#[test]
fn parsed_arguments_are_rewritten_directly() {
    let edit = json(r#"{"file_path":"a.txt","old_string":"x","new_string":"y"}"#);
    assert_eq!(
        edit_file_patch(&edit).unwrap(),
        "*** Begin Patch\n*** Update File: a.txt\n@@\n-x\n+y\n*** End Patch\n"
    );
    assert_eq!(
        edit_file_patch(&json(r#"{"file_path":"a.txt","old_string":"x"}"#)).unwrap_err(),
        "edit_file requires `new_string`"
    );
    assert_eq!(
        write_file_patch(&json(r#"{"file_path":"b","content":"hi"}"#)).unwrap(),
        "*** Begin Patch\n*** Add File: b\n+hi\n*** End Patch\n"
    );
    assert_eq!(
        write_file_patch(&json(r#"{"content":"hi"}"#)).unwrap_err(),
        "write_file requires `file_path`"
    );
    assert_eq!(
        read_file_command(&json(r#"{"file_path":"f","limit":3}"#)).unwrap(),
        r#"{"command":"sed -n '1,3p' -- 'f'"}"#
    );
    assert_eq!(
        glob_command_args(&json(r#"{"pattern":"*.rs"}"#)).unwrap(),
        r#"{"command":"rg --files --hidden -g '*.rs'"}"#
    );
    assert_eq!(
        grep_command_args(&json(r#"{"path":"src"}"#)).unwrap_err(),
        "grep requires `pattern`"
    );
}

#[test]
fn header_values_are_read_only_when_visible() {
    assert_eq!(header_value_text("req-123"), Some("req-123".to_string()));
    assert_eq!(header_value_text("a\tb c"), Some("a\tb c".to_string()));
    assert_eq!(header_value_text("caf\u{e9}"), None);
    assert_eq!(header_value_text("a\u{7f}"), None);
}

#[test]
fn written_objects_read_back() {
    assert_eq!(empty_object_text(), "{}");
    let text = single_string_member_object("raw_arguments", "  a\"b\u{c}");
    assert_eq!(text, "{\"raw_arguments\":\"  a\\\"b\\f\"}");
    let back: Value = serde_json::from_str(&text).unwrap();
    assert_eq!(back, serde_json::from_str::<Value>(r#"{"raw_arguments":"  a\"b\f"}"#).unwrap());
    let wrapped = ensure_json_arguments(" not json ");
    let back: Value = serde_json::from_str(&wrapped).unwrap();
    assert_eq!(back["raw_arguments"].as_str(), Some(" not json "));
}

#[test]
fn parsed_stream_payloads_are_read_directly() {
    assert_eq!(
        upstream_error_of(&json(r#"{"error":{"message":"rate limited","code":429}}"#)),
        Some("rate limited".to_string())
    );
    assert_eq!(upstream_error_of(&json(r#"{"error":"plain"}"#)), None);
    assert_eq!(upstream_error_of(&json(r#"{"choices":[]}"#)), None);
    assert_eq!(legacy_patch_of(&json(r#"{"patch":"P"}"#), "raw"), "P");
    assert_eq!(legacy_patch_of(&json(r#"{"patch":7}"#), "raw"), "raw");
    assert_eq!(legacy_patch_of(&json(r#"{"other":"x"}"#), "raw"), "raw");
}
