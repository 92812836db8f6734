use serde_json::Value;
use tool_runtime::budget::RuntimeBudget;
use tool_runtime::calls::{CollectedToolCalls, FunctionCall};
use tool_runtime::config::{
    BuiltinTool, ManagedToolConfig, RuntimeLimits, ToolBackendConfig, ToolRuntimeConfig,
};
use tool_runtime::conversation::programmatic_catalog_bytes;
use tool_runtime::e2b::SandboxHosts;
use tool_runtime::error::ToolRuntimeError;
use tool_runtime::json::Json;
use tool_runtime::mapper::remote_mcp_options;
use tool_runtime::operations::build_operations;
use tool_runtime::registry::ToolRegistry;
use tool_runtime::remote_tool::RemoteMcpTool;
use tool_runtime::request::ModelRequest;
use tool_runtime::rounds::{Conversing, RequestStep, ResponsesRound, RoundReply};
use tool_runtime::runner::{finalize, RunError};
use tool_runtime::runtime::{prepare, Activation, PreparedToolRuntime};
use tool_runtime::serde_value;
use tool_runtime::streaming::{
    encode_managed_streaming_response, encode_streaming_response_value, encode_with_padding,
    finalize_managed_response, is_streamable, merge_final_output, serialize_managed_response,
};
use tool_runtime::telemetry::ToolBackendLabel;
use tool_runtime::time::{Duration, Instant};
use tool_runtime::usage::{aggregate_usage, InputDetails, OutputDetails, Usage};

const NOW: Instant = Instant { nanos: 0 };
const KNOWN: [&str; 3] = ["message", "function_call", "reasoning"];

fn json(text: &str) -> Json {
    serde_value::parse(text).expect("valid JSON")
}

fn value(json: &Json) -> Value {
    serde_json::from_str(&serde_value::print(json)).unwrap()
}

fn parsed(text: &str) -> Value {
    serde_json::from_str(text).unwrap()
}

fn tool(name: &str, builtin: Option<BuiltinTool>) -> ManagedToolConfig {
    let backend = match builtin {
        Some(BuiltinTool::CodeInterpreter) => ToolBackendConfig::E2b {
            api_url: "https://api.sandbox.example".to_owned(),
            domain: "sandbox.example".to_owned(),
            timeout: Duration::from_secs(30),
            api_key: "key".to_owned(),
        },
        _ => ToolBackendConfig::Http {
            url: "https://tools.example/call".to_owned(),
            timeout: Duration::from_secs(30),
            bearer_token: None,
        },
    };
    ManagedToolConfig { name: name.to_owned(), builtin, backend }
}

fn compile(tools: Vec<ManagedToolConfig>) -> Result<ToolRegistry, String> {
    ToolRegistry::compile(ToolRuntimeConfig { limits: RuntimeLimits::default(), tools })
        .map_err(|error| error.to_text())
}

fn registry() -> ToolRegistry {
    compile(vec![
        tool("orders", None),
        tool("web_search", Some(BuiltinTool::WebSearch)),
        tool("code_interpreter", Some(BuiltinTool::CodeInterpreter)),
    ])
    .unwrap()
}

fn request(rest: &str) -> ModelRequest {
    let mut fields = parsed(rest).as_object().unwrap().clone();
    let stream = fields.remove("stream").and_then(|stream| stream.as_bool());
    ModelRequest { stream, history: Vec::new(), rest: json(&Value::Object(fields).to_string()) }
}

fn activation(rest: &str) -> Result<Activation, String> {
    prepare(&request(rest), Some(&registry()), NOW, 4).map_err(|error| error.to_text())
}

fn active(rest: &str) -> PreparedToolRuntime {
    match activation(rest) {
        Ok(Activation::Active(runtime)) => runtime,
        Ok(Activation::Inactive) => panic!("the request declares managed tools"),
        Err(error) => panic!("{error}"),
    }
}

fn rejection(rest: &str) -> String {
    match activation(rest) {
        Ok(_) => panic!("the request must be rejected"),
        Err(error) => error,
    }
}

fn declared(runtime: &PreparedToolRuntime) -> Vec<Value> {
    match runtime.canonical_request.rest_field("tools").map(value) {
        Some(Value::Array(tools)) => tools,
        _ => Vec::new(),
    }
}

const ORDERS: &str =
    r#"{"type":"function","name":"orders","parameters":{"type":"object","required":["since"]}}"#;

#[test]
fn a_request_without_managed_tools_is_inactive() {
    for rest in ["{}", r#"{"tools":null}"#, r#"{"tools":[{"type":"image_generation"}]}"#] {
        assert!(matches!(activation(rest), Ok(Activation::Inactive)), "{rest}");
    }
}

#[test]
fn a_configuration_registers_each_name_once() {
    assert!(compile(vec![tool("a", None), tool("a", None)]).is_err());
    assert!(compile(vec![tool("_agentgateway_x", None)]).is_err());
    let registry = registry();
    assert!(registry.has_internal("_agentgateway_web_search"));
    assert!(registry.resolves_function("orders"));
    assert!(!registry.resolves_function("web_search"));
    assert_eq!(registry.len(), 3);
}

#[test]
fn managed_declarations_are_rewritten() {
    let runtime = active(&format!(
        r#"{{"stream":true,"tools":[{ORDERS},{{"type":"web_search"}},{{"type":"code_interpreter",
            "container":{{"type":"auto"}}}}]}}"#
    ));
    assert!(runtime.client_streaming);
    assert!(runtime.include_obfuscation);
    assert_eq!(runtime.canonical_request.stream, Some(false));
    let tools = declared(&runtime);
    let names: Vec<&str> = tools.iter().filter_map(|tool| tool["name"].as_str()).collect();
    assert_eq!(
        names,
        vec!["orders", "_agentgateway_web_search", "_agentgateway_code_interpreter"]
    );
    assert!(tools.iter().all(|tool| tool["type"] == "function"));
}

#[test]
fn namespaces_are_taken_apart_and_deferred_tools_are_kept_back() {
    let runtime = active(
        r#"{"tools":[{"type":"tool_search"},{"type":"namespace","name":"crm","description":"CRM",
            "tools":[{"type":"function","name":"orders","description":"List",
                "parameters":{"type":"object"},"defer_loading":true}]}]}"#,
    );
    assert!(declared(&runtime).iter().all(|tool| tool["name"] != "orders"));
    let deferred = runtime.tool_search.as_ref().unwrap();
    assert_eq!(deferred.len(), 1);
    assert_eq!(deferred[0].public_name, "orders");
    assert_eq!(deferred[0].description, "[crm] CRM\n\nList");
    assert_eq!(deferred[0].label.as_deref(), Some("crm"));
    assert_eq!(value(&deferred[0].declaration).get("defer_loading"), None);
}

#[test]
fn no_mark_of_deferred_loading_is_forwarded() {
    let runtime = active(
        r#"{"tools":[
            {"type":"function","name":"orders","parameters":{"type":"object"},"defer_loading":false},
            {"type":"image_generation","defer_loading":false}]}"#,
    );
    let tools = declared(&runtime);
    assert_eq!(tools.len(), 2);
    assert!(tools.iter().all(|tool| tool.get("defer_loading") != Some(&Value::Bool(true))));
    assert_eq!(tools[0].get("defer_loading"), None);
}

#[test]
fn a_catalog_that_is_put_together_is_counted_as_a_whole() {
    let runtime = active(
        r#"{"tools":[{"type":"programmatic_tool_calling"},
            {"type":"web_search","allowed_callers":["programmatic"]},
            {"type":"code_interpreter","container":{"type":"auto"},
                "allowed_callers":["direct","programmatic"]}]}"#,
    );
    assert_eq!(runtime.state.programmatic_tools.len(), 2);
    assert_eq!(
        programmatic_catalog_bytes(&runtime.state.programmatic_tools).ok(),
        Some(runtime.state.programmatic_catalog_bytes)
    );
}

#[test]
fn a_client_gets_its_tools_back_without_secrets() {
    let runtime = active(
        r#"{"tools":[{"type":"mcp","server_label":"s","server_url":"https://mcp.example/",
            "authorization":"secret","require_approval":"never"}]}"#,
    );
    let tools = value(runtime.client_tools.as_ref().unwrap());
    assert_eq!(tools[0].get("authorization"), None);
    assert_eq!(tools[0]["server_label"], "s");
    assert_eq!(runtime.pending_remote_mcp[0].authorization.as_deref(), Some("secret"));
}

#[test]
fn declarations_that_cannot_be_served_are_rejected() {
    for (rest, words) in [
        (r#"{"tools":1}"#, "tools must be an array"),
        (r#"{"tools":[1]}"#, "tool declarations must be objects"),
        (r#"{"tools":[{}]}"#, "tool declaration requires a string type"),
        (
            r#"{"tools":[{"type":"function","name":"_agentgateway_x"}]}"#,
            "reserved _agentgateway_ namespace",
        ),
        (
            r#"{"tools":[{"type":"web_search"},{"type":"web_search"}]}"#,
            "duplicate tool declaration for web_search",
        ),
        (
            r#"{"tools":[{"type":"web_search"},{"type":"function","name":"unknown"}]}"#,
            "unknown is not registered",
        ),
        (
            r#"{"tools":[{"type":"function","name":"orders"}]}"#,
            "managed function parameters must be a valid JSON Schema",
        ),
        (
            r#"{"tools":[{"type":"programmatic_tool_calling"}]}"#,
            "programmatic_tool_calling requires at least one programmatic tool",
        ),
        (
            r#"{"tools":[{"type":"programmatic_tool_calling","x":1}]}"#,
            "programmatic_tool_calling may be declared once without options",
        ),
        (
            r#"{"tools":[{"type":"image_generation","defer_loading":true}]}"#,
            "defer_loading is only supported on function, mcp and namespace tools",
        ),
        (
            r#"{"tools":[{"type":"web_search"}],"background":true}"#,
            "background is unsupported",
        ),
        (
            r#"{"tools":[{"type":"web_search"}],"parallel_tool_calls":1}"#,
            "parallel_tool_calls must be a boolean",
        ),
        (
            r#"{"stream":true,"tools":[{"type":"web_search"}],"stream_options":1}"#,
            "stream_options must be an object",
        ),
        (
            r#"{"tools":[{"type":"mcp","server_label":"s","server_url":"http://mcp.example/",
                "require_approval":"never"}]}"#,
            "mcp server_url must be a valid HTTPS URL",
        ),
        (
            r#"{"tools":[{"type":"mcp","server_label":"s","server_url":"https://mcp.example/"}]}"#,
            "mcp require_approval must be auto or never",
        ),
    ] {
        let message = rejection(rest);
        assert!(message.contains(words), "{message}");
    }
}

#[test]
fn a_malformed_declaration_is_refused_with_what_is_wrong() {
    for (declaration, words) in [
        (
            r#"{"type":"namespace","name":"n","tools":[],"zone":1}"#,
            "invalid namespace declaration: unknown field `zone`, expected one of `type`, `name`, `description`, `tools`, `defer_loading`",
        ),
        (
            r#"{"type":"namespace","tools":[]}"#,
            "invalid namespace declaration: missing field `name`",
        ),
        (r#"{"type":"namespace","name":"n"}"#, "invalid namespace declaration: missing field `tools`"),
        (
            r#"{"type":"namespace","name":"n","tools":{}}"#,
            "invalid namespace declaration: invalid type: map, expected a sequence",
        ),
        (
            r#"{"type":"namespace","name":null,"tools":[]}"#,
            "invalid namespace declaration: invalid type: null, expected a string",
        ),
        (
            r#"{"type":"namespace","name":"n","tools":[],"defer_loading":"yes","description":-3}"#,
            "invalid namespace declaration: invalid type: string \"yes\", expected a boolean",
        ),
        (
            r#"{"type":"namespace","name":"n","tools":[],"description":-3}"#,
            "invalid namespace declaration: invalid type: integer `-3`, expected a string",
        ),
        (
            r#"{"type":"web_search","engine":1}"#,
            "invalid web_search declaration: unknown field `engine`, expected one of `type`, `filters`, `search_context_size`, `user_location`, `allowed_callers`",
        ),
        (
            r#"{"type":"web_search","filters":{"blocked":[]}}"#,
            "invalid web_search declaration: data did not match any variant of untagged enum Nullable",
        ),
        (
            r#"{"type":"web_search","search_context_size":"huge"}"#,
            "invalid web_search declaration: data did not match any variant of untagged enum Nullable",
        ),
        (
            r#"{"type":"web_search","allowed_callers":["direct","other"],"filters":1}"#,
            "invalid web_search declaration: unknown variant `other`, expected `direct` or `programmatic`",
        ),
        (
            r#"{"type":"web_search","allowed_callers":[1.5]}"#,
            "invalid web_search declaration: invalid type: floating point `1.5`, expected string or map",
        ),
        (
            r#"{"type":"web_search","allowed_callers":[{}]}"#,
            "invalid web_search declaration: invalid value: map, expected map with a single key",
        ),
        (
            r#"{"type":"web_search","allowed_callers":[{"direct":true}]}"#,
            "invalid web_search declaration: invalid type: boolean `true`, expected unit",
        ),
        (
            r#"{"type":"mcp","server_label":"s"}"#,
            "invalid mcp declaration: missing field `server_url`",
        ),
        (
            r#"{"type":"mcp","server_url":7}"#,
            "invalid mcp declaration: invalid type: integer `7`, expected a string",
        ),
        (
            r#"{"type":"mcp","server_label":"s","server_url":"https://m.example/","allowed_tools":["a",null]}"#,
            "invalid mcp declaration: invalid type: null, expected a string",
        ),
        (
            r#"{"type":"mcp","port":1}"#,
            "invalid mcp declaration: unknown field `port`, expected one of `type`, `server_label`, `server_description`, `server_url`, `authorization`, `allowed_tools`, `require_approval`, `allowed_callers`, `defer_loading`",
        ),
        (
            r#"{"type":"code_interpreter","container":{"type":"auto"},"allowed_callers":null}"#,
            "invalid code_interpreter allowed_callers: invalid type: null, expected a sequence",
        ),
        (
            r#"{"type":"code_interpreter","container":{"type":"auto"},"allowed_callers":["x"]}"#,
            "invalid code_interpreter allowed_callers: unknown variant `x`, expected `direct` or `programmatic`",
        ),
    ] {
        assert_eq!(
            rejection(&format!(r#"{{"tools":[{declaration}]}}"#)),
            format!("invalid managed tool request: {words}"),
        );
    }
    let other = remote_mcp_options(&json(
        r#"{"type":"x","server_label":"s","server_url":"https://m.example/"}"#,
    ));
    assert_eq!(
        other.err().map(|error| error.to_text()).as_deref(),
        Some("invalid managed tool request: mcp declaration requires type mcp"),
    );
}

#[test]
fn a_wrong_type_is_told_in_the_words_of_the_json_library() {
    for text in ["null", "true", "7", "-7", "1.25e3", "\"a\\\"b\\u0007\"", "[1]", r#"{"a":1}"#] {
        let said = |expected: &str| serde_value::wrong_type(&json(text), expected);
        if let Err(error) = serde_json::from_str::<Value>(text).and_then(serde_json::from_value::<String>) {
            assert_eq!(said("a string"), error.to_string());
        }
        if let Err(error) = serde_json::from_str::<Value>(text).and_then(serde_json::from_value::<bool>) {
            assert_eq!(said("a boolean"), error.to_string());
        }
        if let Err(error) = serde_json::from_str::<Value>(text).and_then(serde_json::from_value::<Vec<Value>>) {
            assert_eq!(said("a sequence"), error.to_string());
        }
        if let Err(error) = serde_json::from_str::<Value>(text).and_then(serde_json::from_value::<()>) {
            assert_eq!(said("unit"), error.to_string());
        }
    }
}

#[test]
fn programs_are_offered_once_over_their_tools() {
    let runtime = active(
        r#"{"tools":[{"type":"programmatic_tool_calling"},
            {"type":"web_search","allowed_callers":["programmatic"]}]}"#,
    );
    let tools = declared(&runtime);
    assert_eq!(tools.len(), 1);
    assert_eq!(tools[0]["name"], "_agentgateway_programmatic_tool_calling");
    assert!(tools[0]["description"].as_str().unwrap().contains("web_search"));
    let again = runtime.refresh_programmatic_schema().ok().unwrap();
    assert_eq!(declared(&again), tools);
}

#[test]
fn remote_tools_are_imported() {
    let runtime = active(
        r#"{"tools":[{"type":"mcp","server_label":"crm","server_url":"https://mcp.example/",
            "require_approval":"never"}],
            "tool_choice":{"type":"mcp","server_label":"crm","name":"find"}}"#,
    );
    let found = RemoteMcpTool {
        remote_name: "find".to_owned(),
        description: Some("Find".to_owned()),
        input_schema: json(r#"{"type":"object"}"#),
        output_schema: None,
    };
    assert!(active(
        r#"{"tools":[{"type":"mcp","server_label":"crm","server_url":"https://mcp.example/",
            "require_approval":"never"}]}"#
    )
    .install_remote_mcp_tools(1, &vec![])
    .is_err());
    let runtime = runtime.install_remote_mcp_tools(0, &vec![found]).ok().unwrap();
    let runtime = runtime.finish_remote_mcp().ok().unwrap();
    assert!(runtime.pending_remote_mcp.is_empty());
    let tools = declared(&runtime);
    assert_eq!(tools.len(), 1);
    let name = tools[0]["name"].as_str().unwrap();
    assert!(name.starts_with("_agentgateway_mcp_"));
    let choice = runtime.canonical_request.rest_field("tool_choice").map(value).unwrap();
    assert_eq!(choice["type"], "function");
    assert_eq!(choice["name"], name);
    assert_eq!(runtime.state.registry.len(), 4);

    let hosts = SandboxHosts { domain_valid: true, loopback: false };
    let budget = RuntimeBudget::new_at(
        &runtime.state.registry,
        runtime.state.deadline,
        hosts,
        &mut Vec::new(),
    )
    .ok()
    .unwrap();
    let calls = runtime.collect_calls(&vec![model_call("r", name, "{}")]).ok().unwrap();
    assert_eq!(serde_value::print(&calls[0].trusted_options), r#"{"remote_tool_name":"find"}"#);
    let operations =
        build_operations(&runtime.state.registry, &calls, true, &budget.backends, 0).ok().unwrap();
    assert!(operations[0].backend.label == ToolBackendLabel::RemoteMcp);
    assert_eq!(operations[0].backend.server, Some(0));
    assert_eq!(operations[0].calls[0].tool, "remote_mcp");
}

fn model_call(id: &str, name: &str, arguments: &str) -> FunctionCall {
    FunctionCall {
        completed: true,
        call_id: id.to_owned(),
        name: name.to_owned(),
        namespace: None,
        arguments: arguments.to_owned(),
    }
}

#[test]
fn calls_are_authorized_by_their_declaration() {
    let runtime = active(&format!(r#"{{"tools":[{ORDERS}]}}"#));
    let calls = runtime
        .collect_calls(&vec![model_call("a", "orders", r#"{"since":"x"}"#)])
        .ok()
        .unwrap();
    assert_eq!(calls[0].call_id, "a");
    assert_eq!(calls[0].internal_name, "orders");

    for (calls, words) in [
        (
            vec![FunctionCall { completed: false, ..model_call("a", "orders", "{}") }],
            "without completed status",
        ),
        (vec![model_call("", "orders", "{}")], "empty or duplicate managed tool call id"),
        (
            vec![
                model_call("a", "orders", r#"{"since":"x"}"#),
                model_call("a", "orders", r#"{"since":"x"}"#),
            ],
            "empty or duplicate managed tool call id",
        ),
        (
            vec![model_call("a", "_agentgateway_web_search", r#"{"query":"x"}"#)],
            "undeclared managed tool _agentgateway_web_search",
        ),
        (vec![model_call("a", "orders", "{}")], "do not match"),
        (vec![model_call("a", "orders", "[]")], "tool arguments must be a JSON object"),
        (
            vec![model_call("a", "_agentgateway_programmatic_tool_calling", "{}")],
            "undeclared programmatic tool call",
        ),
    ] {
        let error = runtime.collect_calls(&calls).err().unwrap().to_text();
        assert!(error.contains(words), "{error}");
    }
}

#[test]
fn a_program_comes_alone() {
    let runtime = active(
        r#"{"tools":[{"type":"programmatic_tool_calling"},
            {"type":"web_search","allowed_callers":["direct","programmatic"]}]}"#,
    );
    let program =
        || model_call("p", "_agentgateway_programmatic_tool_calling", r#"{"code":"1"}"#);
    match runtime.collect_model_calls(&vec![program()]) {
        Ok(CollectedToolCalls::Programmatic { call_id, code }) => {
            assert_eq!(call_id, "p");
            assert_eq!(code, "1");
        }
        _ => panic!("a program was expected"),
    }
    let search = model_call("s", "_agentgateway_web_search", r#"{"query":"x"}"#);
    assert!(runtime.collect_model_calls(&vec![program(), search]).is_err());
    assert!(runtime.collect_calls(&vec![program()]).is_err());
}

#[test]
fn a_round_becomes_history_and_frees_the_choice() {
    let mut runtime = active(&format!(r#"{{"tools":[{ORDERS}],"tool_choice":"required"}}"#));
    runtime.append_round_history(vec![json(r#"{"a":1}"#)], vec![json(r#"{"b":2}"#)]);
    assert_eq!(runtime.canonical_request.history.len(), 2);
    assert_eq!(
        runtime.canonical_request.rest_field("tool_choice").map(value),
        Some(parsed(r#""auto""#))
    );
}

#[test]
fn usage_adds_up_and_saturates() {
    let round = Usage {
        input_tokens: u64::MAX,
        output_tokens: 2,
        total_tokens: Some(3),
        input_tokens_details: None,
        output_tokens_details: None,
    };
    let once = aggregate_usage(None, &round);
    assert_eq!(once.output_tokens, 2);
    let twice = aggregate_usage(Some(once), &round);
    assert_eq!(twice.input_tokens, u64::MAX);
    assert_eq!(twice.output_tokens, 4);
    assert_eq!(twice.total_tokens, Some(u64::MAX));
}

fn typed_response() -> Json {
    json(
        r#"{
            "id": "resp_typed",
            "object": "response",
            "created_at": 1,
            "status": "completed",
            "model": "gpt-test",
            "output": [
                {
                    "type": "message",
                    "id": "msg_typed_0",
                    "role": "assistant",
                    "status": "completed",
                    "content": [{"type": "output_text", "text": "typed first", "annotations": []}]
                },
                {
                    "type": "message",
                    "id": "msg_typed_2",
                    "role": "assistant",
                    "status": "completed",
                    "content": [{"type": "output_text", "text": "typed last", "annotations": []}]
                }
            ],
            "tools": [{"type": "function", "name": "client_tool"}],
            "usage": {"input_tokens": 20, "output_tokens": 22, "total_tokens": 42}
        }"#,
    )
}

fn raw_output() -> Vec<Json> {
    vec![
        json(
            r#"{
                "type": "message",
                "id": "msg_raw_0",
                "role": "assistant",
                "status": "completed",
                "content": [{"type": "output_text", "text": "raw first", "annotations": []}]
            }"#,
        ),
        json(
            r#"{
                "type": "future_output_item",
                "id": "future_1",
                "future": {"nested": [1, true, null]}
            }"#,
        ),
        json(
            r#"{
                "type": "message",
                "id": "msg_raw_2",
                "role": "assistant",
                "status": "completed",
                "content": [{"type": "output_text", "text": "raw last", "annotations": []}]
            }"#,
        ),
    ]
}

#[test]
fn managed_json_terminal_round_preserves_unknown_output_item_position() {
    let bytes = serialize_managed_response(&typed_response(), &raw_output(), &KNOWN.to_vec())
        .ok()
        .unwrap();
    let body: Value = serde_json::from_slice(&bytes).unwrap();
    assert_eq!(body["output"][0]["id"], "msg_typed_0");
    assert_eq!(body["output"][1]["type"], "future_output_item");
    assert_eq!(body["output"][1]["future"], parsed(r#"{"nested": [1, true, null]}"#));
    assert_eq!(body["output"][2]["id"], "msg_typed_2");
    assert_eq!(body["tools"][0]["name"], "client_tool");
    assert_eq!(body["usage"]["total_tokens"], 42);
    assert!(!body.to_string().contains("raw first"));
}

#[test]
fn managed_sse_terminal_round_preserves_unknown_output_item_position() {
    let bytes = encode_managed_streaming_response(
        &typed_response(),
        &raw_output(),
        &KNOWN.to_vec(),
        false,
    )
    .ok()
    .unwrap();
    let body = String::from_utf8(bytes).unwrap();
    assert!(body.contains("event: response.completed\n"), "{body}");
    assert!(body.contains("typed first"), "{body}");
    assert!(body.contains("typed last"), "{body}");
    assert!(body.contains("future_output_item"), "{body}");
    assert!(body.contains("client_tool"), "{body}");
    assert!(body.contains(r#""total_tokens":42"#), "{body}");
    assert!(!body.contains("raw first"), "{body}");
    assert!(!body.contains("_agentgateway_internal"), "{body}");
    let terminal = body
        .split("\n\n")
        .find(|frame| frame.starts_with("event: response.completed\n"))
        .unwrap();
    let data = terminal.lines().find_map(|line| line.strip_prefix("data: ")).unwrap();
    let event: Value = serde_json::from_str(data).unwrap();
    assert_eq!(event["response"]["output"][0]["id"], "msg_typed_0");
    assert_eq!(event["response"]["output"][1]["type"], "future_output_item");
    assert_eq!(event["response"]["output"][2]["id"], "msg_typed_2");
}

fn events(bytes: &[u8]) -> Vec<Value> {
    std::str::from_utf8(bytes)
        .unwrap()
        .lines()
        .filter_map(|line| line.strip_prefix("data: "))
        .filter_map(|data| serde_json::from_str(data).ok())
        .collect()
}

#[test]
fn events_are_numbered_in_order() {
    let bytes = encode_streaming_response_value(typed_response(), false).ok().unwrap();
    let events = events(&bytes);
    for (place, event) in events.iter().enumerate() {
        assert_eq!(event["sequence_number"], place + 1);
    }
    let kinds: Vec<&str> = events.iter().filter_map(|event| event["type"].as_str()).collect();
    assert_eq!(kinds[0], "response.created");
    assert_eq!(kinds[1], "response.in_progress");
    assert_eq!(*kinds.last().unwrap(), "response.completed");
    assert_eq!(
        kinds.iter().filter(|kind| **kind == "response.output_text.delta").count(),
        2
    );
}

#[test]
fn text_is_padded_where_that_is_asked_for() {
    let padding = Some(vec!["first-pad".to_owned(), "second-pad".to_owned()]);
    let bytes = encode_with_padding(typed_response(), &padding).ok().unwrap();
    let padded: Vec<Value> = events(&bytes)
        .into_iter()
        .filter(|event| event.get("obfuscation").is_some())
        .collect();
    assert_eq!(padded.len(), 2);
    assert_eq!(padded[0]["obfuscation"], "first-pad");
    assert_eq!(padded[1]["obfuscation"], "second-pad");
    let bytes = encode_streaming_response_value(typed_response(), true).ok().unwrap();
    let random: Vec<Value> = events(&bytes)
        .into_iter()
        .filter(|event| event.get("obfuscation").is_some())
        .collect();
    assert_eq!(random.len(), 2);
    assert_eq!(random[0]["obfuscation"].as_str().unwrap().len(), 32);
    assert_ne!(random[0]["obfuscation"], random[1]["obfuscation"]);
}

#[test]
fn a_final_response_reports_all_rounds() {
    let usage = json(r#"{"input_tokens":1}"#);
    let tools = json(r#"[{"type":"web_search"}]"#);
    let response = finalize_managed_response(typed_response(), Some(usage), Some(tools));
    let response = value(&response);
    assert_eq!(response["usage"], parsed(r#"{"input_tokens":1}"#));
    assert_eq!(response["tools"], parsed(r#"[{"type":"web_search"}]"#));
    let response = value(&finalize_managed_response(typed_response(), None, None));
    assert_eq!(response.get("usage"), None);
    assert_eq!(response["tools"][0]["name"], "client_tool");
}

#[test]
fn merging_refuses_outputs_that_do_not_match() {
    let one = vec![raw_output().remove(0)];
    for raw in [vec![], one] {
        assert_eq!(
            merge_final_output(&typed_response(), &raw, &KNOWN.to_vec()).err().as_deref(),
            Some("managed Responses output item count changed")
        );
    }
    let odd = json(r#"{"output":1}"#);
    assert_eq!(
        merge_final_output(&odd, &vec![], &KNOWN.to_vec()).err().as_deref(),
        Some("managed Responses output was not an array")
    );
    let merged = merge_final_output(&typed_response(), &raw_output(), &KNOWN.to_vec());
    assert_eq!(value(&merged.ok().unwrap())["output"].as_array().unwrap().len(), 3);
}

#[test]
fn a_line_break_in_an_output_ends_no_frame() {
    let response = json(
        r#"{
            "id": "resp_1",
            "status": "completed",
            "output": [{
                "type": "message",
                "id": "msg_1",
                "content": [{"type": "output_text", "text": "one\n\nevent: two\r\n"}]
            }]
        }"#,
    );
    let bytes = encode_streaming_response_value(response, true).ok().unwrap();
    let body = String::from_utf8(bytes).unwrap();
    assert!(!body.contains('\r'));
    let lines: Vec<&str> = body.lines().collect();
    assert_eq!(lines.len(), 27);
    for (place, frame) in lines.chunks(3).enumerate() {
        let kind = frame[0].strip_prefix("event: ").unwrap();
        let event = parsed(frame[1].strip_prefix("data: ").unwrap());
        assert_eq!(event["type"], kind);
        assert_eq!(event["sequence_number"], place + 1);
        assert_eq!(frame[2], "");
    }
    assert_eq!(
        parsed(lines[16].strip_prefix("data: ").unwrap())["text"],
        "one\n\nevent: two\r\n"
    );
}

#[test]
fn counts_are_written_where_they_are_there() {
    let usage = Usage {
        input_tokens: 3,
        output_tokens: 4,
        total_tokens: None,
        input_tokens_details: None,
        output_tokens_details: None,
    };
    assert_eq!(serde_value::print(&usage.to_json()), r#"{"input_tokens":3,"output_tokens":4}"#);
    let usage = Usage {
        total_tokens: Some(7),
        input_tokens_details: Some(InputDetails {
            cached_tokens: Some(2),
            cache_write_tokens: None,
        }),
        output_tokens_details: Some(OutputDetails { reasoning_tokens: Some(1) }),
        ..usage
    };
    assert_eq!(
        serde_value::print(&usage.to_json()),
        r#"{"input_tokens":3,"input_tokens_details":{"cached_tokens":2},"output_tokens":4,"output_tokens_details":{"reasoning_tokens":1},"total_tokens":7}"#
    );
}

#[test]
fn the_last_response_carries_what_all_rounds_used_and_the_tools_of_the_client() {
    let mut runtime = active(&format!(r#"{{"tools":[{ORDERS},{{"type":"web_search"}}]}}"#));
    let hosts = SandboxHosts { domain_valid: true, loopback: false };
    let budget = RuntimeBudget::new_at(
        &runtime.state.registry,
        runtime.state.deadline,
        hosts,
        &mut Vec::new(),
    )
    .ok()
    .unwrap();
    for (input, output) in [(10, 3), (14, 4)] {
        runtime.accumulate_usage(Some(Usage {
            input_tokens: input,
            output_tokens: output,
            total_tokens: None,
            input_tokens_details: None,
            output_tokens_details: None,
        }));
    }
    runtime.accumulate_usage(None);
    let (response, summary) = finalize(typed_response(), runtime, &budget);
    let response = value(&response);
    assert_eq!(
        response["usage"],
        parsed(r#"{"input_tokens":24,"output_tokens":7,"total_tokens":31}"#)
    );
    assert_eq!(response["tools"][0]["name"], "orders");
    assert_eq!(response["tools"][1]["type"], "web_search");
    assert_eq!(response["output"], value(&typed_response())["output"]);
    assert_eq!(summary.usage.map(|usage| usage.total_tokens), Some(Some(31)));
}

#[test]
fn a_response_can_be_streamed_where_its_items_can_be_given_fields() {
    assert!(is_streamable(&typed_response()));
    assert!(is_streamable(&json(r#"{"output":[null,{}]}"#)));
    assert!(is_streamable(&json("null")));
    assert!(!is_streamable(&json(r#"{"output":[1]}"#)));
    assert!(!is_streamable(&json("[]")));
}

fn round(calls: Vec<FunctionCall>, said: &str, tokens: u64) -> ResponsesRound {
    ResponsesRound {
        response: json(r#"{"id":"resp","status":"completed","output":[]}"#),
        usage: Some(Usage {
            input_tokens: tokens,
            output_tokens: 1,
            total_tokens: None,
            input_tokens_details: None,
            output_tokens_details: None,
        }),
        calls,
        raw_output: vec![json(said)],
    }
}

#[test]
fn rounds_are_taken_in_turn_until_one_has_no_calls() {
    let runtime = active(&format!(r#"{{"tools":[{ORDERS}]}}"#));
    let hosts = SandboxHosts { domain_valid: true, loopback: false };
    let registry = &runtime.state.registry;
    let mut budget =
        RuntimeBudget::new_at(registry, runtime.state.deadline, hosts, &mut Vec::new())
            .ok()
            .unwrap();
    let (asked, _) = Conversing::new(runtime).begin_round(&mut budget, NOW).ok().unwrap();
    assert!(asked.conversation().canonical_request.history.is_empty());
    let first = round(vec![model_call("c", "orders", r#"{"since":"x"}"#)], r#""asks""#, 10);
    let answered = asked.settle_round(RoundReply::Answered(first), &mut budget, NOW).ok().unwrap();
    let pending = match answered.settle_calls(&mut budget, NOW) {
        Ok(RequestStep::Execute(pending, CollectedToolCalls::Direct(calls))) => {
            assert_eq!(calls[0].call_id, "c");
            pending
        }
        _ => panic!("the call is to be carried out"),
    };
    let usage = pending.conversation().accumulated_usage.map(|usage| usage.input_tokens);
    assert_eq!(usage, Some(10));
    let conversing = pending.end_calls(Ok(vec![json(r#""given""#)]), &mut budget).ok().unwrap();
    let (asked, _) = conversing.begin_round(&mut budget, NOW).ok().unwrap();
    let history: Vec<Value> =
        asked.conversation().canonical_request.history.iter().map(value).collect();
    assert_eq!(history, vec!["asks", "given"]);
    assert_eq!(budget.rounds(), 2);
    let last = round(vec![], r#""answer""#, 14);
    let answered = asked.settle_round(RoundReply::Answered(last), &mut budget, NOW).ok().unwrap();
    let last = match answered.settle_calls(&mut budget, NOW) {
        Ok(RequestStep::Finish(last)) => last,
        _ => panic!("a round without calls is the last"),
    };
    assert_eq!(value(&last.response)["usage"]["input_tokens"], 24);
    assert_eq!(value(&last.response)["usage"]["output_tokens"], 2);
    assert_eq!(value(&last.raw_output[0]), "answer");
    assert_eq!(last.summary.rounds, 2);
}

#[test]
fn calls_that_fail_end_the_request() {
    let runtime = active(&format!(r#"{{"tools":[{ORDERS}]}}"#));
    let hosts = SandboxHosts { domain_valid: true, loopback: false };
    let registry = &runtime.state.registry;
    let mut budget =
        RuntimeBudget::new_at(registry, runtime.state.deadline, hosts, &mut Vec::new())
            .ok()
            .unwrap();
    let (asked, _) = Conversing::new(runtime).begin_round(&mut budget, NOW).ok().unwrap();
    let first = round(vec![model_call("c", "orders", r#"{"since":"x"}"#)], r#""asks""#, 10);
    let answered = asked.settle_round(RoundReply::Answered(first), &mut budget, NOW).ok().unwrap();
    let pending = match answered.settle_calls(&mut budget, NOW) {
        Ok(RequestStep::Execute(pending, _)) => pending,
        _ => panic!("the call is to be carried out"),
    };
    let (conversation, searching) = pending.begin_search();
    let pending = searching.end_search(conversation);
    match pending.end_calls(Err(ToolRuntimeError::internal()), &mut budget) {
        Err(RunError::Runtime(error)) => {
            assert_eq!(error.to_text(), ToolRuntimeError::internal().to_text())
        }
        _ => panic!("the failure ends the request"),
    }
    let (asked, _) = Conversing::new(active(&format!(r#"{{"tools":[{ORDERS}]}}"#)))
        .begin_round(&mut budget, NOW)
        .ok()
        .unwrap();
    assert!(matches!(
        asked.settle_round(RoundReply::UpstreamError, &mut budget, NOW),
        Err(RunError::UpstreamResponse)
    ));
}
