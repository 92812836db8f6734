use serde_json::Value;
use tool_runtime::backend::{ToolApplicationError, ToolExecutionResult};
use tool_runtime::budget::RuntimeBudget;
use tool_runtime::calls::CollectedToolCalls;
use tool_runtime::config::{
    BuiltinTool, ManagedToolConfig, RuntimeLimits, ToolBackendConfig, ToolRuntimeConfig,
};
use tool_runtime::e2b::SandboxHosts;
use tool_runtime::json::Json;
use tool_runtime::messages::mapper::{prepare, MessagesActivation, PreparedMessagesRuntime};
use tool_runtime::messages::stream::encode_managed_streaming_response;
use tool_runtime::messages::usage::{aggregate_messages_usage, report_usage, MessagesUsage};
use tool_runtime::registry::ToolRegistry;
use tool_runtime::request::ModelRequest;
use tool_runtime::messages::schema_refs::walk_schema_refs;
use tool_runtime::rounds::{Conversing, MessagesRound, RequestStep, RoundReply};
use tool_runtime::runner::finalize_messages;
use tool_runtime::serde_value;
use tool_runtime::time::{Duration, Instant};

fn json(text: &str) -> Json {
    serde_value::parse(text).expect("valid JSON")
}

fn value(json: &Json) -> Value {
    serde_json::from_str(&serde_value::print(json)).unwrap()
}

fn parsed(text: &str) -> Value {
    serde_json::from_str(text).unwrap()
}

fn tool(name: &str, builtin: Option<BuiltinTool>) -> ManagedToolConfig {
    let backend = match builtin {
        Some(BuiltinTool::CodeInterpreter) => ToolBackendConfig::E2b {
            api_url: "https://api.sandbox.example".to_owned(),
            domain: "sandbox.example".to_owned(),
            timeout: Duration::from_secs(30),
            api_key: "key".to_owned(),
        },
        _ => ToolBackendConfig::Http {
            url: "https://tools.example/call".to_owned(),
            timeout: Duration::from_secs(30),
            bearer_token: None,
        },
    };
    ManagedToolConfig { name: name.to_owned(), builtin, backend }
}

fn registry(tools: Vec<ManagedToolConfig>) -> ToolRegistry {
    match ToolRegistry::compile(ToolRuntimeConfig { limits: RuntimeLimits::default(), tools }) {
        Ok(registry) => registry,
        Err(error) => panic!("valid configuration: {}", error.to_text()),
    }
}

fn managed_registry() -> ToolRegistry {
    registry(vec![
        tool("query_orders", None),
        tool("web_search", Some(BuiltinTool::WebSearch)),
        tool("code_interpreter", Some(BuiltinTool::CodeInterpreter)),
    ])
}

fn request(text: &str) -> ModelRequest {
    let mut fields = parsed(text).as_object().unwrap().clone();
    let stream = fields.remove("stream").and_then(|stream| stream.as_bool());
    let history = match fields.remove("messages") {
        Some(Value::Array(items)) => items.iter().map(|item| json(&item.to_string())).collect(),
        _ => Vec::new(),
    };
    ModelRequest { stream, history, rest: json(&Value::Object(fields).to_string()) }
}

fn whole(request: &ModelRequest) -> Value {
    let mut fields = value(&request.rest).as_object().unwrap().clone();
    fields.insert(
        "messages".to_owned(),
        Value::Array(request.history.iter().map(value).collect()),
    );
    if let Some(stream) = request.stream {
        fields.insert("stream".to_owned(), Value::Bool(stream));
    }
    Value::Object(fields)
}

fn declared(request: &ModelRequest) -> Vec<String> {
    match request.rest_field("tools").map(value) {
        Some(Value::Array(tools)) => tools
            .iter()
            .filter_map(|tool| tool["name"].as_str())
            .map(str::to_owned)
            .collect(),
        _ => Vec::new(),
    }
}

fn now() -> Instant {
    Instant { nanos: 0 }
}

fn active(text: &str) -> PreparedMessagesRuntime {
    match prepare(&request(text), Some(&managed_registry()), now()) {
        Ok(MessagesActivation::Active(runtime)) => runtime,
        Ok(MessagesActivation::Inactive) => panic!("request must activate the managed runtime"),
        Err(error) => panic!("{}", error.to_text()),
    }
}

fn rejection(text: &str) -> String {
    match prepare(&request(text), Some(&managed_registry()), now()) {
        Ok(_) => panic!("declaration must be rejected"),
        Err(error) => error.to_text(),
    }
}

fn tool_use(id: &str, name: &str, input: &str) -> String {
    format!(r#"{{"type": "tool_use", "id": "{id}", "name": "{name}", "input": {input}}}"#)
}

fn model_response(stop_reason: &str, content: &[&str]) -> Json {
    counted_response(stop_reason, content, r#"{"input_tokens": 5, "output_tokens": 2}"#)
}

fn counted_response(stop_reason: &str, content: &[&str], usage: &str) -> Json {
    json(&format!(
        r#"{{"id": "msg_1", "type": "message", "role": "assistant", "model": "smart",
            "stop_reason": "{stop_reason}", "content": [{}], "usage": {usage}}}"#,
        content.join(",")
    ))
}

fn blocks(response: &Json) -> Vec<Json> {
    match value(response)["content"].as_array() {
        Some(items) => items.iter().map(|item| json(&item.to_string())).collect(),
        None => Vec::new(),
    }
}

fn direct_runtime() -> PreparedMessagesRuntime {
    active(
        r#"{
            "model": "smart",
            "max_tokens": 16,
            "messages": [{"role": "user", "content": "orders"}],
            "tools": [{
                "name": "query_orders",
                "input_schema": {
                    "type": "object",
                    "properties": {"since": {"type": "string"}},
                    "required": ["since"]
                }
            }]
        }"#,
    )
}

fn stream(response: &Json) -> String {
    String::from_utf8(encode_managed_streaming_response(response)).unwrap()
}

fn frames(events: &[(&str, &str)]) -> String {
    events.iter().map(|(kind, data)| format!("event: {kind}\ndata: {data}\n\n")).collect()
}

#[test]
fn messages_runtime_records_the_messages_format_label() {
    let runtime = active(
        r#"{
            "model": "m",
            "max_tokens": 32,
            "messages": [{"role": "user", "content": "hi"}],
            "tools": [
                {"type": "code_execution_20260120", "name": "code_execution"},
                {
                    "name": "query_orders",
                    "input_schema": {"type": "object", "properties": {"since": {"type": "string"}}},
                    "allowed_callers": ["code_execution_20260120"]
                }
            ]
        }"#,
    );
    assert_eq!(
        runtime.format().as_str(),
        "messages",
        "the messages conversation must label its own format"
    );
}

#[test]
fn managed_messages_stream_encodes_a_text_only_final_round() {
    let response = counted_response(
        "end_turn",
        &[r#"{"type": "text", "text": "22 C"}"#],
        r#"{"input_tokens": 24, "output_tokens": 7, "cache_read_input_tokens": 2}"#,
    );
    let encoded = stream(&response);
    assert_eq!(
        encoded,
        frames(&[
            (
                "message_start",
                r#"{"message":{"content":[],"id":"msg_1","model":"smart","role":"assistant","stop_reason":null,"stop_sequence":null,"type":"message","usage":{"cache_read_input_tokens":2,"input_tokens":24,"output_tokens":0}},"type":"message_start"}"#,
            ),
            (
                "content_block_start",
                r#"{"content_block":{"text":"","type":"text"},"index":0,"type":"content_block_start"}"#,
            ),
            (
                "content_block_delta",
                r#"{"delta":{"text":"22 C","type":"text_delta"},"index":0,"type":"content_block_delta"}"#,
            ),
            ("content_block_stop", r#"{"index":0,"type":"content_block_stop"}"#),
            (
                "message_delta",
                r#"{"delta":{"stop_reason":"end_turn","stop_sequence":null},"type":"message_delta","usage":{"output_tokens":7}}"#,
            ),
            ("message_stop", r#"{"type":"message_stop"}"#),
        ])
    );
}

#[test]
fn managed_messages_stream_encodes_thinking_with_its_signature() {
    let response = model_response(
        "end_turn",
        &[
            r#"{"type": "thinking", "thinking": "step one", "signature": "sig-abc"}"#,
            r#"{"type": "text", "text": "done"}"#,
        ],
    );
    let encoded = stream(&response);
    assert_eq!(
        encoded,
        frames(&[
            (
                "message_start",
                r#"{"message":{"content":[],"id":"msg_1","model":"smart","role":"assistant","stop_reason":null,"stop_sequence":null,"type":"message","usage":{"input_tokens":5,"output_tokens":0}},"type":"message_start"}"#,
            ),
            (
                "content_block_start",
                r#"{"content_block":{"thinking":"","type":"thinking"},"index":0,"type":"content_block_start"}"#,
            ),
            (
                "content_block_delta",
                r#"{"delta":{"thinking":"step one","type":"thinking_delta"},"index":0,"type":"content_block_delta"}"#,
            ),
            (
                "content_block_delta",
                r#"{"delta":{"signature":"sig-abc","type":"signature_delta"},"index":0,"type":"content_block_delta"}"#,
            ),
            ("content_block_stop", r#"{"index":0,"type":"content_block_stop"}"#),
            (
                "content_block_start",
                r#"{"content_block":{"text":"","type":"text"},"index":1,"type":"content_block_start"}"#,
            ),
            (
                "content_block_delta",
                r#"{"delta":{"text":"done","type":"text_delta"},"index":1,"type":"content_block_delta"}"#,
            ),
            ("content_block_stop", r#"{"index":1,"type":"content_block_stop"}"#),
            (
                "message_delta",
                r#"{"delta":{"stop_reason":"end_turn","stop_sequence":null},"type":"message_delta","usage":{"output_tokens":2}}"#,
            ),
            ("message_stop", r#"{"type":"message_stop"}"#),
        ])
    );
}

#[test]
fn a_line_break_in_a_text_ends_no_frame() {
    let response = model_response(
        "end_turn",
        &[r#"{"type": "text", "text": "one\r\n\r\ndata: two\n\n"}"#],
    );
    let encoded = stream(&response);
    assert!(!encoded.contains('\r'));
    let lines: Vec<&str> = encoded.lines().collect();
    assert_eq!(lines.len(), 18);
    for frame in lines.chunks(3) {
        assert!(frame[0].starts_with("event: "));
        assert!(frame[1].starts_with("data: {"));
        assert_eq!(frame[2], "");
    }
    assert_eq!(
        parsed(lines[7].strip_prefix("data: ").unwrap())["delta"]["text"],
        "one\r\n\r\ndata: two\n\n"
    );
}

#[test]
fn managed_messages_stream_emits_unmodelled_blocks_whole() {
    let response =
        model_response("end_turn", &[r#"{"type": "redacted_thinking", "data": "opaque"}"#]);
    let encoded = stream(&response);
    assert!(encoded.contains("\"type\":\"redacted_thinking\""));
    assert!(!encoded.contains("content_block_delta"));
    assert!(encoded.contains("\"data\":\"opaque\""));
}

#[test]
fn managed_messages_stream_has_no_done_sentinel_and_splits_usage() {
    let response = counted_response(
        "end_turn",
        &[r#"{"type": "text", "text": "hi"}"#],
        r#"{"input_tokens": 11, "output_tokens": 5}"#,
    );
    let encoded = stream(&response);
    assert!(!encoded.contains("[DONE]"));
    assert!(encoded.ends_with("event: message_stop\ndata: {\"type\":\"message_stop\"}\n\n"));
    let start = encoded.lines().nth(1).unwrap();
    assert!(start.contains("\"input_tokens\":11"), "{start}");
    assert!(start.contains("\"output_tokens\":0"), "{start}");
    assert!(encoded.contains("\"output_tokens\":5"));
}

#[test]
fn append_round_history_writes_assistant_then_tool_results_in_call_order() {
    let mut runtime = direct_runtime();
    let round = model_response(
        "tool_use",
        &[
            r#"{"type": "text", "text": "checking"}"#,
            &tool_use("toolu_1", "query_orders", r#"{"since": "a"}"#),
            &tool_use("toolu_2", "query_orders", r#"{"since": "b"}"#),
        ],
    );
    let outputs = vec![
        runtime
            .tool_output_item(
                "toolu_1",
                ToolExecutionResult::function(json(r#"{"rows": 1}"#)),
                4096,
            )
            .ok()
            .unwrap(),
        runtime
            .tool_output_item(
                "toolu_2",
                ToolExecutionResult::ApplicationError(ToolApplicationError::new(
                    "tool_error".to_owned(),
                    "backend refused".to_owned(),
                    false,
                    String::new(),
                    String::new(),
                )),
                4096,
            )
            .ok()
            .unwrap(),
    ];
    runtime.append_round_history(blocks(&round), outputs);

    let serialized = whole(&runtime.canonical_request);
    let messages = serialized["messages"].as_array().unwrap();
    assert_eq!(messages.len(), 3);
    assert_eq!(messages[1]["role"], "assistant");
    assert_eq!(messages[1]["content"][1]["type"], "tool_use");
    assert_eq!(messages[2]["role"], "user");
    assert_eq!(messages[2]["content"][0]["tool_use_id"], "toolu_1");
    assert_eq!(messages[2]["content"][0].get("is_error"), None);
    assert_eq!(messages[2]["content"][1]["tool_use_id"], "toolu_2");
    assert_eq!(messages[2]["content"][1]["is_error"], true);
    assert_eq!(serialized["tool_choice"], parsed(r#"{"type": "auto"}"#));
}

#[test]
fn thinking_signature_and_cache_control_survive_an_appended_round() {
    let mut runtime = direct_runtime();
    let thinking = r#"{
        "type": "thinking",
        "thinking": "step one",
        "signature": "sig-abcdef0123456789"
    }"#;
    let cached = r#"{
        "type": "text",
        "text": "prefix",
        "cache_control": {"type": "ephemeral", "ttl": "5m"}
    }"#;
    let round = model_response(
        "tool_use",
        &[thinking, cached, &tool_use("toolu_1", "query_orders", r#"{"since": "a"}"#)],
    );
    let outputs = vec![runtime
        .tool_output_item(
            "toolu_1",
            ToolExecutionResult::function(json(r#"{"rows": 1}"#)),
            4096,
        )
        .ok()
        .unwrap()];
    runtime.append_round_history(blocks(&round), outputs);

    let serialized = whole(&runtime.canonical_request);
    let content = serialized["messages"][1]["content"].as_array().unwrap();
    assert_eq!(content[0], parsed(thinking));
    assert_eq!(content[1], parsed(cached));
}

fn counted(input: u64, output: u64, cache_read: Option<u64>) -> MessagesUsage {
    MessagesUsage {
        input_tokens: input,
        output_tokens: output,
        cache_creation_input_tokens: None,
        cache_read_input_tokens: cache_read,
        service_tier: None,
        rest: json("{}"),
    }
}

fn test_budget() -> RuntimeBudget {
    let hosts = SandboxHosts { domain_valid: true, loopback: false };
    let deadline = Instant { nanos: 30_000_000_000 };
    match RuntimeBudget::new_at(&managed_registry(), deadline, hosts, &mut Vec::new()) {
        Ok(budget) => budget,
        Err(error) => panic!("valid test budget: {}", error.to_text()),
    }
}

#[test]
fn accumulate_usage_sums_rounds_and_finalize_reports_the_aggregate() {
    let mut runtime = direct_runtime();
    let last = counted_response(
        "end_turn",
        &[r#"{"type": "text", "text": "22 C"}"#],
        r#"{"input_tokens": 14, "output_tokens": 4}"#,
    );

    runtime.accumulate_usage(&counted(10, 3, Some(2)));
    runtime.accumulate_usage(&counted(14, 4, None));
    let budget = test_budget();
    let (response, summary) =
        finalize_messages(last.clone(), runtime, counted(14, 4, None), &budget);

    let serialized = value(&response);
    assert_eq!(serialized["usage"]["input_tokens"], 24);
    assert_eq!(serialized["usage"]["output_tokens"], 7);
    assert_eq!(serialized["usage"]["cache_read_input_tokens"], 2);
    assert_eq!(serialized["stop_reason"], "end_turn");
    assert_eq!(serialized.get("tools"), None);
    assert_eq!(serialized.get("container"), None);
    assert_eq!(serialized["content"], value(&last)["content"]);

    assert_eq!(summary.usage.input_tokens, 24);
    assert_eq!(summary.usage.output_tokens, 7);
    assert_eq!(summary.usage.cache_read_input_tokens, Some(2));
    assert_eq!(summary.rounds, 0);
    assert_eq!(summary.tool_calls, 0);
    assert!(!summary.client_streaming);
}

#[test]
fn a_message_without_counted_rounds_is_left_as_it_is() {
    let message = model_response("end_turn", &[r#"{"type": "text", "text": "22 C"}"#]);
    let (response, summary) =
        finalize_messages(message.clone(), direct_runtime(), counted(5, 2, None), &test_budget());
    assert_eq!(value(&response), value(&message));
    assert_eq!(summary.usage.input_tokens, 5);
    assert_eq!(summary.usage.output_tokens, 2);
}

#[test]
fn usage_is_written_with_the_counts_that_are_there() {
    let mut usage = counted(24, 7, Some(2));
    assert_eq!(
        serde_value::print(&usage.to_json()),
        r#"{"cache_read_input_tokens":2,"input_tokens":24,"output_tokens":7}"#
    );
    usage.cache_creation_input_tokens = Some(1);
    usage.service_tier = Some("standard".to_owned());
    usage.rest = json(r#"{"server_tool_use":{"web_search_requests":1}}"#);
    assert_eq!(
        serde_value::print(&usage.to_json()),
        r#"{"cache_creation_input_tokens":1,"cache_read_input_tokens":2,"input_tokens":24,"output_tokens":7,"server_tool_use":{"web_search_requests":1},"service_tier":"standard"}"#
    );
    usage = counted(0, 0, None);
    usage.rest = Json::Null;
    let message = report_usage(json(r#"{"id":"m","usage":1}"#), usage.to_json());
    assert_eq!(
        serde_value::print(&message),
        r#"{"id":"m","usage":{"input_tokens":0,"output_tokens":0}}"#
    );
}

#[test]
fn collect_reads_object_input_and_uses_the_block_id_as_the_call_id() {
    let runtime = direct_runtime();
    let response = model_response(
        "tool_use",
        &[
            r#"{"type": "text", "text": "checking"}"#,
            &tool_use("toolu_1", "query_orders", r#"{"since": "2026-01-01"}"#),
        ],
    );
    let calls = match runtime.collect_model_calls(&response) {
        Ok(CollectedToolCalls::Direct(calls)) => calls,
        _ => panic!("direct calls expected"),
    };
    assert_eq!(calls.len(), 1);
    assert_eq!(calls[0].call_id.as_str(), "toolu_1");
    assert_eq!(calls[0].public_name.as_str(), "query_orders");
    assert_eq!(value(&calls[0].arguments), parsed(r#"{"since": "2026-01-01"}"#));
}

#[test]
fn a_round_without_tool_use_blocks_is_terminal() {
    let runtime = direct_runtime();
    let response = model_response("end_turn", &[r#"{"type": "text", "text": "done"}"#]);
    let calls = match runtime.collect_model_calls(&response) {
        Ok(CollectedToolCalls::Direct(calls)) => calls,
        _ => panic!("direct calls expected"),
    };
    assert!(calls.is_empty());
}

#[test]
fn collect_rejects_empty_duplicate_and_undeclared_tool_use_blocks() {
    let runtime = direct_runtime();
    for content in [
        vec![tool_use("", "query_orders", r#"{"since": "x"}"#)],
        vec![
            tool_use("toolu_1", "query_orders", r#"{"since": "x"}"#),
            tool_use("toolu_1", "query_orders", r#"{"since": "y"}"#),
        ],
        vec![tool_use("toolu_1", "not_declared", "{}")],
        vec![tool_use("toolu_1", "query_orders", r#"{"since": 5}"#)],
        vec![tool_use("toolu_1", "query_orders", r#""since""#)],
    ] {
        let content: Vec<&str> = content.iter().map(String::as_str).collect();
        assert!(runtime
            .collect_model_calls(&model_response("tool_use", &content))
            .is_err());
    }
}

#[test]
fn collect_rejects_a_tool_use_truncated_by_max_tokens() {
    let runtime = direct_runtime();
    let response = model_response(
        "max_tokens",
        &[&tool_use("toolu_1", "query_orders", r#"{"since": "x"}"#)],
    );
    let error = match runtime.collect_model_calls(&response) {
        Ok(_) => panic!("a truncated call must be rejected"),
        Err(error) => error.to_text(),
    };
    assert!(error.contains("max_tokens"), "{error}");
}

#[test]
fn collect_extracts_the_program_and_rejects_it_mixed_with_direct_calls() {
    let runtime = active(
        r#"{
            "model": "smart",
            "max_tokens": 16,
            "messages": [{"role": "user", "content": "orders"}],
            "tools": [
                {"type": "code_execution_20260120", "name": "code_execution"},
                {
                    "name": "query_orders",
                    "input_schema": {"type": "object"},
                    "allowed_callers": ["code_execution_20260120"]
                }
            ]
        }"#,
    );

    let program = tool_use(
        "toolu_p",
        "_agentgateway_programmatic_tool_calling",
        r#"{"code": "program_output(1)"}"#,
    );
    match runtime.collect_model_calls(&model_response("tool_use", &[&program])) {
        Ok(CollectedToolCalls::Programmatic { call_id, code }) => {
            assert_eq!(call_id.as_str(), "toolu_p");
            assert_eq!(code, "program_output(1)");
        }
        _ => panic!("programmatic call expected"),
    }

    let mixed = model_response(
        "tool_use",
        &[
            &program,
            &tool_use("toolu_1", "_agentgateway_code_interpreter", r#"{"code": "1"}"#),
        ],
    );
    assert!(runtime.collect_model_calls(&mixed).is_err());
}

#[test]
fn recursive_input_schema_ref_cycle_is_rejected() {
    let error = rejection(
        r##"{
            "model": "smart",
            "max_tokens": 16,
            "messages": [{"role": "user", "content": "orders"}],
            "tools": [{
                "name": "query_orders",
                "input_schema": {
                    "type": "object",
                    "properties": {"self": {"$ref": "#"}}
                }
            }]
        }"##,
    );
    assert!(error.contains("input_schema"), "{error}");
}

#[test]
fn indirect_input_schema_ref_cycle_is_rejected() {
    let error = rejection(
        r##"{
            "model": "smart",
            "max_tokens": 16,
            "messages": [{"role": "user", "content": "orders"}],
            "tools": [{
                "name": "query_orders",
                "input_schema": {
                    "type": "object",
                    "$defs": {
                        "a": {"$ref": "#/$defs/b"},
                        "b": {"$ref": "#/$defs/a"}
                    },
                    "properties": {"cycle": {"$ref": "#/$defs/a"}}
                }
            }]
        }"##,
    );
    assert!(error.contains("input_schema"), "{error}");
}

#[test]
fn unresolved_input_schema_local_ref_is_rejected() {
    let error = rejection(
        r##"{
            "model": "smart",
            "max_tokens": 16,
            "messages": [{"role": "user", "content": "orders"}],
            "tools": [{
                "name": "query_orders",
                "input_schema": {
                    "type": "object",
                    "properties": {"missing": {"$ref": "#/$defs/missing"}}
                }
            }]
        }"##,
    );
    assert!(error.contains("input_schema"), "{error}");
}

fn base(tools: &str, extra: &str) -> String {
    let mut fields = parsed(
        r#"{"model": "smart", "max_tokens": 16, "messages": [{"role": "user", "content": "x"}]}"#,
    )
    .as_object()
    .unwrap()
    .clone();
    fields.insert("tools".to_owned(), parsed(tools));
    for (key, field) in parsed(extra).as_object().unwrap() {
        fields.insert(key.clone(), field.clone());
    }
    Value::Object(fields).to_string()
}

#[test]
fn active_runtime_rejects_unsupported_declarations_and_fields() {
    let managed = r#"{"name": "query_orders", "input_schema": {"type": "object"}}"#;
    let code = r#"{"type": "code_execution_20260120", "name": "code_execution"}"#;

    assert!(rejection(&base(
        &format!(r#"[{managed}, {{"name": "unregistered", "input_schema": {{"type": "object"}}}}]"#),
        "{}"
    ))
    .contains("is not registered"));
    assert!(rejection(&base(
        &format!(
            r#"[{managed}, {{"name": "_agentgateway_x", "input_schema": {{"type": "object"}}}}]"#
        ),
        "{}"
    ))
    .contains("reserved"));
    for kind in ["mcp_toolset", "computer_toolset_20260120", "browser_toolset_20260120"] {
        assert!(
            rejection(&base(
                &format!(r#"[{managed}, {{"type": "{kind}", "name": "{kind}"}}]"#),
                "{}"
            ))
            .contains("is not supported"),
            "{kind}"
        );
    }
    assert!(rejection(&base(&format!("[{managed}]"), r#"{"container": "container_1"}"#))
        .contains("container"));
    assert!(rejection(&base(
        &format!("[{managed}]"),
        r#"{"mcp_servers": [{"type": "url", "url": "https://x", "name": "x"}]}"#
    ))
    .contains("mcp_servers"));
    assert!(rejection(&base(&format!("[{managed}, {managed}]"), "{}")).contains("duplicate"));
    let error = match prepare(
        &request(&base(&format!("[{code}, {managed}]"), "{}")),
        Some(&registry(vec![tool("query_orders", None)])),
        now(),
    ) {
        Ok(_) => panic!("code execution requires a backend"),
        Err(error) => error.to_text(),
    };
    assert!(error.contains("code execution"), "{error}");
}

#[test]
fn tool_choice_cannot_force_a_programmatic_only_tool() {
    let message = rejection(
        r#"{
            "model": "smart",
            "max_tokens": 16,
            "messages": [{"role": "user", "content": "x"}],
            "tool_choice": {"type": "tool", "name": "query_orders"},
            "tools": [
                {"type": "code_execution_20260120", "name": "code_execution"},
                {
                    "name": "query_orders",
                    "input_schema": {"type": "object"},
                    "allowed_callers": ["code_execution_20260120"]
                }
            ]
        }"#,
    );
    assert!(message.contains("query_orders"), "{message}");
}

#[test]
fn disable_parallel_tool_use_is_rejected_with_programmatic_tool_calling() {
    let message = rejection(
        r#"{
            "model": "smart",
            "max_tokens": 16,
            "messages": [{"role": "user", "content": "x"}],
            "tool_choice": {"type": "auto", "disable_parallel_tool_use": true},
            "tools": [
                {"type": "code_execution_20260120", "name": "code_execution"},
                {
                    "name": "query_orders",
                    "input_schema": {"type": "object"},
                    "allowed_callers": ["code_execution_20260120"]
                }
            ]
        }"#,
    );
    assert!(message.contains("disable_parallel_tool_use"), "{message}");
}

#[test]
fn a_programmatic_caller_without_code_execution_is_rejected() {
    let message = rejection(
        r#"{
            "model": "smart",
            "max_tokens": 16,
            "messages": [{"role": "user", "content": "x"}],
            "tools": [{
                "name": "query_orders",
                "input_schema": {"type": "object"},
                "allowed_callers": ["code_execution_20260120"]
            }]
        }"#,
    );
    assert!(message.contains("code execution"), "{message}");
}

#[test]
fn the_web_search_programmatic_default_is_rejected_without_code_execution() {
    let message = rejection(
        r#"{
            "model": "smart",
            "max_tokens": 16,
            "messages": [{"role": "user", "content": "x"}],
            "tools": [
                {"name": "query_orders", "input_schema": {"type": "object"}},
                {"type": "web_search_20260209", "name": "web_search"}
            ]
        }"#,
    );
    assert!(message.contains("allowed_callers"), "{message}");
    assert!(message.contains("direct"), "{message}");
}

#[test]
fn messages_request_extension_reads_replaces_and_preserves_unknown_fields() {
    let mut request = request(
        r#"{
            "model": "smart",
            "max_tokens": 16,
            "messages": [{"role": "user", "content": "hi"}],
            "future_request_field": {"nested": [1, true, null]}
        }"#,
    );

    assert_eq!(
        request.rest_field("future_request_field").map(value),
        Some(parsed(r#"{"nested": [1, true, null]}"#))
    );
    request.replace_rest_field("tool_choice", json(r#"{"type": "auto"}"#));

    let serialized = whole(&request);
    assert_eq!(serialized["tool_choice"], parsed(r#"{"type": "auto"}"#));
    assert_eq!(
        serialized["future_request_field"],
        parsed(r#"{"nested": [1, true, null]}"#)
    );
    assert_eq!(serialized["messages"][0]["content"], "hi");
}

#[test]
fn messages_request_extension_creates_rest_when_absent() {
    let mut request = request(r#"{"model": "smart", "max_tokens": 16, "messages": []}"#);

    assert!(request.rest_field("tools").is_none());
    request.replace_rest_field("tools", json(r#"[{"name": "x"}]"#));
    assert_eq!(
        request.rest_field("tools").map(value),
        Some(parsed(r#"[{"name": "x"}]"#))
    );

    request.remove_rest_field("tools");
    assert!(request.rest_field("tools").is_none());
    assert_eq!(whole(&request).get("tools"), None);
}

#[test]
fn messages_usage_aggregation_saturates_and_sums_cache_fields() {
    let aggregate = aggregate_messages_usage(
        MessagesUsage {
            input_tokens: u64::MAX - 1,
            output_tokens: 10,
            cache_creation_input_tokens: Some(3),
            cache_read_input_tokens: None,
            service_tier: Some("standard".to_owned()),
            rest: json(
                r#"{
                    "output_tokens_details": {"reasoning_tokens": 2},
                    "cache_creation": {"ephemeral_5m_input_tokens": 1},
                    "diagnostic": "first"
                }"#,
            ),
        },
        &MessagesUsage {
            input_tokens: 5,
            output_tokens: 7,
            cache_creation_input_tokens: Some(4),
            cache_read_input_tokens: Some(9),
            service_tier: Some("priority".to_owned()),
            rest: json(
                r#"{
                    "output_tokens_details": {"reasoning_tokens": 8},
                    "cache_creation": {"ephemeral_5m_input_tokens": 3},
                    "diagnostic": "second"
                }"#,
            ),
        },
    );

    assert_eq!(aggregate.input_tokens, u64::MAX);
    assert_eq!(aggregate.output_tokens, 17);
    assert_eq!(aggregate.cache_creation_input_tokens, Some(7));
    assert_eq!(aggregate.cache_read_input_tokens, Some(9));
    assert_eq!(aggregate.service_tier, None);
    assert!(aggregate.rest.get("output_tokens_details").is_none());
    assert!(aggregate.rest.get("cache_creation").is_none());
}

#[test]
fn no_managed_declaration_leaves_the_runtime_inactive() {
    let request = request(
        r#"{
            "model": "smart",
            "max_tokens": 16,
            "messages": [{"role": "user", "content": "hi"}],
            "tools": [{"type": "mcp_toolset", "mcp_server_name": "s"}]
        }"#,
    );
    assert!(matches!(
        prepare(&request, Some(&managed_registry()), now()),
        Ok(MessagesActivation::Inactive)
    ));
    assert_eq!(declared(&request), Vec::<String>::new());
    assert_eq!(
        request.rest_field("tools").map(value).unwrap()[0]["type"],
        "mcp_toolset"
    );
}

#[test]
fn programmatic_tool_is_withheld_and_the_program_runtime_is_declared() {
    let runtime = active(
        r#"{
            "model": "smart",
            "max_tokens": 16,
            "messages": [{"role": "user", "content": "total the orders"}],
            "tools": [
                {"type": "code_execution_20260120", "name": "code_execution"},
                {
                    "name": "query_orders",
                    "description": "Query orders.",
                    "input_schema": {"type": "object", "properties": {"since": {"type": "string"}}},
                    "allowed_callers": ["code_execution_20260120"]
                }
            ]
        }"#,
    );

    let names = declared(&runtime.canonical_request);
    assert!(names.contains(&"_agentgateway_programmatic_tool_calling".to_owned()));
    assert!(names.contains(&"_agentgateway_code_interpreter".to_owned()));
    assert!(!names.contains(&"query_orders".to_owned()));

    let tools = runtime.canonical_request.rest_field("tools").map(value).unwrap();
    let program = tools
        .as_array()
        .unwrap()
        .iter()
        .find(|tool| tool["name"] == "_agentgateway_programmatic_tool_calling")
        .unwrap();
    assert!(program["description"].as_str().unwrap().contains("query_orders"));
    assert_eq!(program["input_schema"]["required"], parsed(r#"["code"]"#));
    assert_eq!(program.get("type"), None);
    assert_eq!(program.get("allowed_callers"), None);
}

#[test]
fn direct_managed_function_keeps_its_client_visible_name_and_schema() {
    let runtime = active(
        r#"{
            "model": "smart",
            "max_tokens": 16,
            "messages": [{"role": "user", "content": "orders"}],
            "tools": [{
                "name": "query_orders",
                "description": "Query orders.",
                "input_schema": {"type": "object", "properties": {"since": {"type": "string"}}}
            }]
        }"#,
    );

    let tools = runtime.canonical_request.rest_field("tools").map(value).unwrap();
    assert_eq!(tools.as_array().unwrap().len(), 1);
    assert_eq!(tools[0]["name"], "query_orders");
    assert_eq!(tools[0]["input_schema"]["properties"]["since"]["type"], "string");
}

#[test]
fn code_execution_20260521_normalizes_to_20260120() {
    let runtime = active(
        r#"{
            "model": "smart",
            "max_tokens": 16,
            "messages": [{"role": "user", "content": "compute"}],
            "tools": [
                {"type": "code_execution_20260521", "name": "code_execution"},
                {
                    "name": "query_orders",
                    "input_schema": {"type": "object"},
                    "allowed_callers": ["code_execution_20260521"]
                }
            ]
        }"#,
    );
    let names = declared(&runtime.canonical_request);
    assert!(names.contains(&"_agentgateway_programmatic_tool_calling".to_owned()));
    assert!(!names.contains(&"query_orders".to_owned()));
}

#[test]
fn pre_ptc_code_execution_versions_declare_only_the_direct_interpreter() {
    for version in ["code_execution_20250522", "code_execution_20250825"] {
        let runtime = active(&format!(
            r#"{{
                "model": "smart",
                "max_tokens": 16,
                "messages": [{{"role": "user", "content": "compute"}}],
                "tools": [{{"type": "{version}", "name": "code_execution"}}]
            }}"#
        ));
        let names = declared(&runtime.canonical_request);
        assert_eq!(names, vec!["_agentgateway_code_interpreter".to_owned()]);
    }
}

#[test]
fn messages_web_search_retains_all_valid_trusted_options() {
    let runtime = active(
        r#"{
            "model": "smart",
            "max_tokens": 16,
            "messages": [{"role": "user", "content": "search"}],
            "tools": [{
                "type": "web_search_20250305",
                "name": "web_search",
                "allowed_domains": ["docs.example.com"],
                "blocked_domains": ["ads.example.com"],
                "user_location": {
                    "type": "approximate",
                    "country": "US",
                    "region": "California",
                    "city": "San Francisco",
                    "timezone": "America/Los_Angeles"
                },
                "max_uses": 3
            }]
        }"#,
    );

    assert_eq!(
        runtime
            .state
            .registry
            .trusted_options("_agentgateway_web_search")
            .map(value),
        Some(parsed(
            r#"{
                "allowed_domains": ["docs.example.com"],
                "blocked_domains": ["ads.example.com"],
                "user_location": {
                    "type": "approximate",
                    "country": "US",
                    "region": "California",
                    "city": "San Francisco",
                    "timezone": "America/Los_Angeles"
                },
                "max_uses": 3
            }"#
        ))
    );
}

#[test]
fn messages_web_search_rejects_malformed_trusted_options() {
    for (label, options) in [
        ("allowed_domains_string", r#"{"allowed_domains": "example.com"}"#),
        ("blocked_domains_string", r#"{"blocked_domains": "example.com"}"#),
        ("max_uses_fractional", r#"{"max_uses": 1.5}"#),
        ("max_uses_negative", r#"{"max_uses": -1}"#),
        ("location_type", r#"{"user_location": {"type": "precise"}}"#),
        (
            "location_member",
            r#"{"user_location": {"type": "approximate", "city": 3}}"#,
        ),
        ("allowed_domains_null", r#"{"allowed_domains": null}"#),
        ("blocked_domains_null", r#"{"blocked_domains": null}"#),
        ("user_location_null", r#"{"user_location": null}"#),
        ("max_uses_null", r#"{"max_uses": null}"#),
    ] {
        let mut declaration = parsed(r#"{"type": "web_search_20250305", "name": "web_search"}"#)
            .as_object()
            .unwrap()
            .clone();
        declaration.extend(parsed(options).as_object().unwrap().clone());
        let message = rejection(&format!(
            r#"{{
                "model": "smart",
                "max_tokens": 16,
                "messages": [{{"role": "user", "content": "search"}}],
                "tools": [{}]
            }}"#,
            Value::Object(declaration)
        ));
        assert!(message.contains("invalid web search"), "{label}: {message}");
    }
}

#[test]
fn duplicate_builtin_declarations_are_rejected_by_identity() {
    for (label, tools) in [
        (
            "same_code_execution_version",
            r#"[
                {"type": "code_execution_20260120", "name": "code_execution"},
                {"type": "code_execution_20260120", "name": "code_execution"}
            ]"#,
        ),
        (
            "mixed_code_execution",
            r#"[
                {"type": "code_execution_20260120", "name": "code_execution"},
                {"type": "code_execution_20250825", "name": "code_execution"}
            ]"#,
        ),
        (
            "mixed_web_search",
            r#"[
                {"type": "web_search_20250305", "name": "web_search"},
                {"type": "web_search_20260209", "name": "web_search"}
            ]"#,
        ),
    ] {
        let message = rejection(&base(tools, "{}"));
        assert!(message.contains("duplicate"), "{label}: {message}");
    }
}

#[test]
fn builtin_declarations_require_their_exact_names() {
    for (label, declaration, expected) in [
        ("code_missing", r#"{"type": "code_execution_20260120"}"#, "code_execution"),
        (
            "code_wrong",
            r#"{"type": "code_execution_20260120", "name": "python"}"#,
            "code_execution",
        ),
        ("search_missing", r#"{"type": "web_search_20250305"}"#, "web_search"),
        (
            "search_wrong",
            r#"{"type": "web_search_20250305", "name": "search"}"#,
            "web_search",
        ),
    ] {
        let message = rejection(&base(&format!("[{declaration}]"), "{}"));
        assert!(message.contains(expected), "{label}: {message}");
    }
}

#[test]
fn web_search_20260209_defaults_to_the_programmatic_caller() {
    let runtime = active(
        r#"{
            "model": "smart",
            "max_tokens": 16,
            "messages": [{"role": "user", "content": "search"}],
            "tools": [
                {"type": "code_execution_20260120", "name": "code_execution"},
                {
                    "type": "web_search_20260209",
                    "name": "web_search",
                    "allowed_domains": ["example.com"],
                    "max_uses": 3
                }
            ]
        }"#,
    );
    let names = declared(&runtime.canonical_request);
    assert!(names.contains(&"_agentgateway_programmatic_tool_calling".to_owned()));
    assert!(!names.contains(&"_agentgateway_web_search".to_owned()));
}

#[test]
fn earlier_web_search_versions_default_to_the_direct_caller() {
    let runtime = active(
        r#"{
            "model": "smart",
            "max_tokens": 16,
            "messages": [{"role": "user", "content": "search"}],
            "tools": [{"type": "web_search_20250305", "name": "web_search"}]
        }"#,
    );
    let tools = runtime.canonical_request.rest_field("tools").map(value).unwrap();
    assert_eq!(tools.as_array().unwrap().len(), 1);
    assert_eq!(tools[0]["name"], "_agentgateway_web_search");
    assert_eq!(tools[0]["input_schema"]["required"], parsed(r#"["query"]"#));
    assert_eq!(tools[0].get("allowed_domains"), None);
}

#[test]
fn streaming_requests_run_internal_rounds_non_streaming() {
    let runtime = active(
        r#"{
            "model": "smart",
            "max_tokens": 16,
            "stream": true,
            "messages": [{"role": "user", "content": "orders"}],
            "tools": [{"name": "query_orders", "input_schema": {"type": "object"}}]
        }"#,
    );
    assert!(runtime.client_streaming);
    assert_eq!(runtime.canonical_request.stream, Some(false));
}

#[test]
fn disable_parallel_tool_use_inverts_the_parallel_flag() {
    let runtime = active(
        r#"{
            "model": "smart",
            "max_tokens": 16,
            "messages": [{"role": "user", "content": "orders"}],
            "tool_choice": {"type": "auto", "disable_parallel_tool_use": true},
            "tools": [{"name": "query_orders", "input_schema": {"type": "object"}}]
        }"#,
    );
    assert!(!runtime.state.parallel);
}

#[test]
fn malformed_callers_and_searches_are_refused_with_what_is_wrong() {
    let tool = |fields: &str| {
        rejection(&format!(
            r#"{{"model":"m","max_tokens":1,"messages":[],"tools":[
                {{"type":"web_search_20250305","name":"web_search",{fields}}}]}}"#
        ))
    };
    let no_variant = "data did not match any variant of untagged enum Nullable";
    for (fields, words) in [
        (r#""allowed_callers":1"#, format!("invalid tool: {no_variant}")),
        (r#""allowed_callers":["direct",2]"#, format!("invalid tool: {no_variant}")),
        (
            r#""allowed_callers":["direct","other"]"#,
            "invalid tool allowed_callers: unknown variant `other`, expected `direct` or `programmatic`"
                .to_owned(),
        ),
        (r#""allowed_domains":[1]"#, format!("invalid web search: {no_variant}")),
        (r#""allowed_domains":null,"max_uses":-1"#, format!("invalid web search: {no_variant}")),
        (
            r#""allowed_domains":null"#,
            "invalid web search: allowed_domains must be an array of strings".to_owned(),
        ),
        (
            r#""max_uses":null"#,
            "invalid web search: max_uses must be a non-negative integer".to_owned(),
        ),
    ] {
        assert_eq!(tool(fields), format!("invalid managed tool request: {words}"));
    }
}

#[test]
fn the_brackets_of_a_catalog_of_messages_are_not_counted() {
    let runtime = active(
        r#"{
            "model": "m",
            "max_tokens": 32,
            "messages": [],
            "tools": [
                {"type": "code_execution_20260120", "name": "code_execution"},
                {
                    "name": "query_orders",
                    "input_schema": {"type": "object"},
                    "allowed_callers": ["code_execution_20260120"]
                }
            ]
        }"#,
    );
    let entry = r#"{"description":"","input_schema":{"type":"object"},"name":"query_orders"}"#;
    assert_eq!(runtime.state.programmatic_catalog_bytes, entry.len());
}

#[test]
fn a_schema_below_the_deepest_level_does_not_hold() {
    let node = json("{}");
    assert!(walk_schema_refs(&node, &node, 128, &vec![]));
    assert!(!walk_schema_refs(&node, &node, 129, &vec![]));
    assert!(!walk_schema_refs(&node, &node, usize::MAX, &vec![]));
}

#[test]
fn a_message_round_is_counted_and_told_before_the_next() {
    let runtime = direct_runtime();
    let mut budget = test_budget();
    let message = model_response(
        "tool_use",
        &[&tool_use("toolu_1", "query_orders", r#"{"since": "a"}"#)],
    );
    let (asked, _) = Conversing::new(runtime).begin_round(&mut budget, now()).ok().unwrap();
    let first = MessagesRound { message, usage: counted(10, 3, None) };
    let answered =
        asked.settle_round(RoundReply::Answered(first), &mut budget, now()).ok().unwrap();
    let pending = match answered.settle_calls(&mut budget, now()) {
        Ok(RequestStep::Execute(pending, CollectedToolCalls::Direct(_))) => pending,
        _ => panic!("the call is to be carried out"),
    };
    let conversing = pending.end_calls(Ok(vec![json("{}")]), &mut budget).ok().unwrap();
    let history = &conversing.conversation().canonical_request.history;
    assert_eq!(history.len(), 3);
    assert_eq!(value(&history[1])["content"][0]["id"], "toolu_1");
    let (asked, _) = conversing.begin_round(&mut budget, now()).ok().unwrap();
    let message = model_response("end_turn", &[r#"{"type": "text", "text": "done"}"#]);
    let last = MessagesRound { message, usage: counted(14, 4, None) };
    let answered = asked.settle_round(RoundReply::Answered(last), &mut budget, now()).ok().unwrap();
    let last = match answered.settle_calls(&mut budget, now()) {
        Ok(RequestStep::Finish(last)) => last,
        _ => panic!("a round without calls is the last"),
    };
    assert_eq!(value(&last.message)["usage"], parsed(r#"{"input_tokens":24,"output_tokens":7}"#));
    assert_eq!(last.summary.rounds, 2);
}
