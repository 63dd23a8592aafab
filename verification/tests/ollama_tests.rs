use ollo_code::ollama::{
    assistant_tool_call_summary, base_url, finalize_models, standard_tools, system_prompt,
    ChatChunk, ChatDelta, ChatMessage, ChatStream, ChunkOutcome, Model, ModelDetails,
    OllamaToolCall, OllamaToolCallFunction,
};

fn model(name: &str, capabilities: &[&str]) -> Model {
    Model {
        name: name.to_string(),
        size: Some(1),
        modified_at: None,
        details: Some(ModelDetails { parameter_size: Some("2B".to_string()), quantization_level: None }),
        capabilities: capabilities.iter().map(|c| c.to_string()).collect(),
    }
}

fn call(name: &str, arguments: &str) -> OllamaToolCall {
    OllamaToolCall {
        id: None,
        kind: Some("function".to_string()),
        function: OllamaToolCallFunction {
            index: None,
            name: name.to_string(),
            arguments: arguments.to_string(),
        },
    }
}

fn piece(content: &str, thinking: Option<&str>) -> ChatMessage {
    ChatMessage {
        role: "assistant".to_string(),
        content: content.to_string(),
        thinking: thinking.map(|t| t.to_string()),
        tool_calls: Vec::new(),
        tool_name: None,
    }
}

#[test]
fn tool_capability_is_recognised() {
    assert!(model("a", &["completion", "tools"]).supports_tools());
    assert!(model("a", &["TOOLS"]).supports_tools());
    assert!(model("a", &["tool_use"]).supports_tools());
    assert!(!model("a", &["completion", "vision"]).supports_tools());
    assert!(!model("a", &[]).supports_tools());
}

#[test]
fn model_list_keeps_tool_models_sorted_by_name() {
    let models = vec![
        model("zephyr", &[]),
        model("llama", &[]),
        model("Alpha", &["tools"]),
        model("gemma", &[]),
    ];
    let capabilities = vec![
        ("zephyr".to_string(), vec!["tools".to_string()]),
        ("llama".to_string(), vec!["completion".to_string()]),
        ("gemma".to_string(), vec!["completion".to_string(), "tools".to_string()]),
    ];
    let kept = finalize_models(models, &capabilities);
    let names: Vec<&str> = kept.iter().map(|m| m.name.as_str()).collect();
    assert_eq!(names, vec!["Alpha", "gemma", "zephyr"]);
    assert_eq!(kept[2].capabilities, vec!["tools".to_string()]);
}

#[test]
fn base_url_drops_trailing_slashes() {
    assert_eq!(base_url("http://localhost:11434//"), "http://localhost:11434");
    assert_eq!(base_url("http://h"), "http://h");
}

#[test]
fn system_prompt_includes_trimmed_agents_md() {
    let with = system_prompt(Some("  be brief \n"));
    assert_eq!(with.role, "system");
    assert!(with.content.starts_with("You are ollo-code, a local autonomous coding agent"));
    assert!(with
        .content
        .ends_with("\n\nProject instructions from AGENTS.md:\n---\nbe brief\n---"));
    let without = system_prompt(None);
    assert!(without
        .content
        .ends_with("\n\nNo AGENTS.md was found. The user can run /init to create one."));
}

#[test]
fn tool_call_summary_lists_each_call() {
    let calls = vec![call("read", "{\"path\":\"a\"}"), call("bash", "null")];
    assert_eq!(
        assistant_tool_call_summary(&calls),
        "Requested tool: read {\"path\":\"a\"}\nRequested tool: bash"
    );
    assert_eq!(assistant_tool_call_summary(&Vec::new()), "");
}

#[test]
fn standard_tools_are_the_seven_functions() {
    let tools = standard_tools();
    let names: Vec<&str> = tools.iter().map(|t| t.function.name.as_str()).collect();
    assert_eq!(names, vec!["bash", "read", "write", "edit", "list", "search", "patch"]);
    assert!(tools.iter().all(|t| t.kind == "function"));
    let schema: serde_json::Value = serde_json::from_str(&tools[3].function.parameters).unwrap();
    assert_eq!(schema["required"], serde_json::Value::from(vec!["path", "old", "new"]));
}

#[test]
fn chat_stream_needs_a_model() {
    assert_eq!(ChatStream::start("").err(), Some("no model selected".to_string()));
    assert!(ChatStream::start("llama").is_ok());
}

#[test]
fn stream_lines_are_split_trimmed_and_blank_ones_dropped() {
    let mut stream = ChatStream::start("m").unwrap();
    stream.push_bytes(b"  {\"a\":1}  \n\n \n{\"b\"");
    assert_eq!(stream.next_line(), Some("{\"a\":1}".to_string()));
    assert_eq!(stream.next_line(), None);
    assert_eq!(stream.pending, "{\"b\"");
    stream.push_bytes(b":2}\n");
    assert_eq!(stream.next_line(), Some("{\"b\":2}".to_string()));
    assert_eq!(stream.remainder(), None);
    stream.push_bytes(b"  tail ");
    assert_eq!(stream.remainder(), Some("tail".to_string()));
}

#[test]
fn stream_decodes_malformed_bytes_with_replacement() {
    let mut stream = ChatStream::start("m").unwrap();
    stream.push_bytes(b"a\xffb\n");
    assert_eq!(stream.next_line(), Some("a\u{fffd}b".to_string()));
}

#[test]
fn chunks_gather_the_reply_and_hand_on_deltas() {
    let mut stream = ChatStream::start("m").unwrap();
    let (outcome, deltas) = stream.apply_chunk(ChatChunk {
        message: Some(piece("Hel", Some("hmm"))),
        done: false,
        error: None,
    });
    assert_eq!(outcome, ChunkOutcome::Continue);
    assert_eq!(
        deltas,
        vec![ChatDelta::Thinking("hmm".to_string()), ChatDelta::Content("Hel".to_string())]
    );
    let mut with_call = piece("lo", Some(""));
    with_call.tool_calls = vec![call("read", "{}")];
    let (outcome, deltas) = stream.apply_chunk(ChatChunk { message: Some(with_call), done: true, error: None });
    assert_eq!(outcome, ChunkOutcome::Done);
    assert_eq!(deltas, vec![ChatDelta::Content("lo".to_string())]);
    let message = stream.into_message();
    assert_eq!(message.role, "assistant");
    assert_eq!(message.content, "Hello");
    assert_eq!(message.thinking, Some("hmm".to_string()));
    assert_eq!(message.tool_calls, vec![call("read", "{}")]);
    assert_eq!(message.tool_name, None);
}

#[test]
fn chunk_error_ends_the_reply() {
    let mut stream = ChatStream::start("m").unwrap();
    let (outcome, deltas) = stream.apply_chunk(ChatChunk {
        message: Some(piece("ignored", None)),
        done: false,
        error: Some("model not found".to_string()),
    });
    assert_eq!(outcome, ChunkOutcome::Failed("model not found".to_string()));
    assert!(deltas.is_empty());
    assert_eq!(stream.content, "");
    let message = stream.into_message();
    assert_eq!(message.thinking, None);
}

#[test]
fn plain_message_constructor() {
    let m = ChatMessage::new("user", "hi".to_string());
    assert_eq!(m.role, "user");
    assert_eq!(m.content, "hi");
    assert!(m.tool_calls.is_empty());
}

#[test]
fn models_of_the_same_name_keep_their_order() {
    let mut first = model("same", &["tools"]);
    first.size = Some(1);
    let mut second = model("same", &["tools"]);
    second.size = Some(2);
    let kept = finalize_models(vec![model("zz", &["tools"]), first, second], &Vec::new());
    let sizes: Vec<(String, Option<u64>)> = kept.iter().map(|m| (m.name.clone(), m.size)).collect();
    assert_eq!(
        sizes,
        vec![
            ("same".to_string(), Some(1)),
            ("same".to_string(), Some(2)),
            ("zz".to_string(), Some(1))
        ]
    );
}

#[test]
fn valid_utf8_stream_bytes_decode_as_they_are() {
    let mut stream = ChatStream::start("m").unwrap();
    stream.push_bytes("héllo €\n".as_bytes());
    assert_eq!(stream.next_line(), Some("héllo €".to_string()));
}

#[test]
fn each_standard_tool_schema_describes_a_callable_tool() {
    let required: Vec<Vec<&str>> = vec![
        vec!["command"],
        vec!["path"],
        vec!["path", "content"],
        vec!["path", "old", "new"],
        vec!["path"],
        vec!["query"],
        vec!["patch"],
    ];
    for (tool, fields) in standard_tools().iter().zip(required) {
        let schema: serde_json::Value = serde_json::from_str(&tool.function.parameters).unwrap();
        assert_eq!(schema["type"], "object");
        let listed: Vec<&str> = schema["required"]
            .as_array()
            .unwrap()
            .iter()
            .map(|v| v.as_str().unwrap())
            .collect();
        assert_eq!(listed, fields);
        let mut request = serde_json::Map::new();
        request.insert("tool".to_string(), serde_json::Value::from(tool.function.name.clone()));
        for field in &fields {
            assert!(schema["properties"].get(*field).is_some());
            request.insert(field.to_string(), serde_json::Value::from("x"));
        }
        let text = serde_json::Value::Object(request).to_string();
        assert!(ollo_code::tools::ToolCall::from_json(&text).is_ok(), "{text}");
    }
}

#[test]
fn tool_schemas_are_compact_json_text() {
    let tools = standard_tools();
    assert_eq!(
        tools[0].function.parameters,
        "{\"properties\":{\"command\":{\"description\":\"Shell command to run\",\"type\":\"string\"}},\"required\":[\"command\"],\"type\":\"object\"}"
    );
    assert_eq!(
        tools[2].function.parameters,
        "{\"properties\":{\"content\":{\"description\":\"Full file content to write\",\"type\":\"string\"},\"path\":{\"description\":\"Workspace-relative file path\",\"type\":\"string\"}},\"required\":[\"path\",\"content\"],\"type\":\"object\"}"
    );
}
