use base64::engine::general_purpose::{STANDARD, URL_SAFE_NO_PAD};
use base64::Engine;
use serde_json::Value;
use tool_runtime::config::SANDBOX_MAX_CODE_BYTES;
use tool_runtime::json::Json;
use tool_runtime::program::{
    build_sandbox_request, fit_replay_entry, has_replay_entry_capacity, parse_sandbox_outcome,
    program_protocol_stdout_max_bytes, sandbox_request, ProgramOutcome, ProgramReplayEntry,
    MAX_ERROR_BYTES, PROTOCOL_PREFIX,
};
use tool_runtime::serde_value;

const WRAPPER: &str = "class _Tools:\n    pass\n\ndef program_output(value):\n    json.dumps(value, allow_nan=False, sort_keys=True)\n";

fn json(text: &str) -> Json {
    serde_value::parse(text).expect("valid JSON")
}

fn protocol_line(nonce: &str, payload: &str) -> String {
    let payload: Value = serde_json::from_str(payload).unwrap();
    let payload = serde_json::to_vec(&payload).unwrap();
    format!("{PROTOCOL_PREFIX}{nonce}:{}", URL_SAFE_NO_PAD.encode(payload))
}

fn entry(sequence: usize, name: &str, arguments: &str, output: &str) -> ProgramReplayEntry {
    ProgramReplayEntry {
        sequence,
        public_name: name.to_owned(),
        arguments: json(arguments),
        output: json(output),
    }
}

#[test]
fn python_wrapper_requests_first_unresolved_call() {
    let request = build_sandbox_request(
        WRAPPER,
        "fact = tools.call('web_search', {'query':'AgentGateway'})\nprogram_output(fact)",
        &vec![],
        "nonce-1",
        1_048_576,
    )
    .ok()
    .unwrap();
    assert_eq!(request.env_vars.text_at("AGENTGATEWAY_PTC_NONCE"), Some("nonce-1"));
    assert!(request.source.contains("class _Tools"));
    assert!(request.source.contains("def program_output"));
    assert!(request.source.contains("allow_nan=False"));
    assert!(request.source.contains("sort_keys=True"));
    match &request.env_vars {
        Json::Object(fields) => assert_eq!(fields.len(), 3),
        _ => panic!("the environment is an object"),
    }
}

#[test]
fn protocol_parser_accepts_only_matching_nonce_and_version() {
    let line = protocol_line(
        "nonce-1",
        r#"{
            "version":1, "kind":"pending", "sequence":0,
            "name":"web_search", "arguments":{"query":"AgentGateway"}
        }"#,
    );
    match parse_sandbox_outcome(&line, "nonce-1", 4096) {
        Ok(ProgramOutcome::Pending { sequence, public_name, arguments }) => {
            assert_eq!(sequence, 0);
            assert_eq!(public_name, "web_search");
            assert_eq!(serde_value::print(&arguments), r#"{"query":"AgentGateway"}"#);
        }
        _ => panic!("expected a pending call"),
    }
    assert!(parse_sandbox_outcome(&line, "different", 4096).is_err());
    let wrong_version = protocol_line("nonce-1", r#"{"version":2,"kind":"completed"}"#);
    assert!(parse_sandbox_outcome(&wrong_version, "nonce-1", 4096).is_err());
    match parse_sandbox_outcome(
        &protocol_line(
            "nonce-1",
            r#"{"version":1,"kind":"contract_error","message":"replay diverged"}"#,
        ),
        "nonce-1",
        4096,
    ) {
        Ok(ProgramOutcome::ContractError { message }) => assert_eq!(message, "replay diverged"),
        _ => panic!("expected a contract error"),
    }
}

#[test]
fn builder_serializes_exact_replay_and_enforces_bounds() {
    let replay = vec![entry(
        0,
        "weather.get_forecast",
        r#"{"q":"Shanghai","days":3}"#,
        r#"{"forecast":[]}"#,
    )];
    let request = build_sandbox_request(WRAPPER, "program_output(1)", &replay, "n-1", 4096)
        .ok()
        .unwrap();
    let encoded = request.env_vars.text_at("AGENTGATEWAY_PTC_REPLAY").unwrap();
    let decoded: Value = serde_json::from_slice(&STANDARD.decode(encoded).unwrap()).unwrap();
    assert_eq!(decoded[0]["name"], "weather.get_forecast");
    let code = request.env_vars.text_at("AGENTGATEWAY_PTC_CODE").unwrap();
    assert_eq!(STANDARD.decode(code).unwrap(), b"program_output(1)");
    assert!(build_sandbox_request(
        WRAPPER,
        &"x".repeat(SANDBOX_MAX_CODE_BYTES + 1),
        &vec![],
        "n",
        4096
    )
    .is_err());
    assert!(build_sandbox_request(WRAPPER, "pass", &replay, "n", 1).is_err());
}

#[test]
fn builder_allows_independently_bounded_code_and_replay() {
    let output = format!(r#"{{"value": "{}"}}"#, "x".repeat(330));
    let replay = vec![entry(0, "tool", "{}", &output)];
    assert!(
        build_sandbox_request(WRAPPER, &"x".repeat(400), &replay, "n", 512).is_ok(),
        "bounded code and replay must fit independent environment limits"
    );
}

#[test]
fn parser_bounds_errors_and_rejects_ambiguous_frames() {
    let line = protocol_line(
        "n",
        &format!(
            r#"{{"version":1,"kind":"error","error_type":"{}","message":"{}"}}"#,
            "é".repeat(800),
            "m".repeat(2048)
        ),
    );
    match parse_sandbox_outcome(&line, "n", 8192) {
        Ok(ProgramOutcome::ApplicationError { error_type, message }) => {
            assert!(error_type.len() <= MAX_ERROR_BYTES);
            assert!(message.len() <= MAX_ERROR_BYTES);
        }
        _ => panic!("expected application error"),
    }
    assert!(parse_sandbox_outcome(&format!("{line}\n{line}"), "n", 16384).is_err());
}

#[test]
fn parser_accepts_encoded_frame_when_decoded_payload_fits_limit() {
    let line = protocol_line(
        "n",
        &format!(
            r#"{{"version":1,"kind":"completed","output":"{}"}}"#,
            "x".repeat(3500)
        ),
    );
    assert!(line.len() > 4096, "fixture must exercise base64 expansion");

    match parse_sandbox_outcome(&line, "n", 4096) {
        Ok(ProgramOutcome::Completed(Json::Text(text))) => assert_eq!(text, "x".repeat(3500)),
        _ => panic!("expected a completed program"),
    }
}

#[test]
fn a_frame_that_is_no_base64_or_no_payload_is_refused() {
    for body in ["!!!", "aGVsbG8"] {
        let line = format!("{PROTOCOL_PREFIX}n:{body}");
        match parse_sandbox_outcome(&line, "n", 4096) {
            Ok(_) => panic!("{body} is no outcome"),
            Err(error) => assert_eq!(
                error.to_text(),
                "invalid managed tool request: program sandbox returned an invalid protocol outcome"
            ),
        }
    }
    match parse_sandbox_outcome("nothing here", "n", 4096) {
        Ok(_) => panic!("there is no frame"),
        Err(error) => assert!(!error.to_text().is_empty()),
    }
    let long = "x".repeat(program_protocol_stdout_max_bytes(16) + 1);
    match parse_sandbox_outcome(&long, "n", 16) {
        Ok(_) => panic!("too much output"),
        Err(error) => assert_eq!(
            error.to_text(),
            "invalid managed tool request: programmatic protocol output exceeds the configured output limit"
        ),
    }
}

#[test]
fn a_fitted_entry_keeps_the_transcript_within_its_limit() {
    let replay = vec![entry(0, "tool", "{}", "{}")];
    let large = format!(r#"{{"ok":true,"value":"{}"}}"#, "x".repeat(2000));
    let next = entry(1, "tool", "{}", &large);
    assert!(has_replay_entry_capacity(&replay, &next, 512));
    let fitted = fit_replay_entry(&replay, next, 512).ok().unwrap();
    let mut whole = replay;
    whole.push(fitted);
    assert!(build_sandbox_request(WRAPPER, "pass", &whole, "n", 512).is_ok());
    assert!(!has_replay_entry_capacity(&whole, &entry(2, "tool", "{}", "null"), 64));
    assert!(fit_replay_entry(&whole, entry(2, "tool", "{}", "{}"), 64).is_err());
}

#[test]
fn a_small_entry_is_kept_as_it_is() {
    let fitted = fit_replay_entry(&vec![], entry(0, "tool", "{}", r#"{"a":1}"#), 4096)
        .ok()
        .unwrap();
    assert_eq!(serde_value::print(&fitted.output), r#"{"a":1}"#);
    assert_eq!(fitted.sequence, 0);
}

#[test]
fn an_entry_that_has_room_is_fitted() {
    let replay = vec![entry(0, "tool", r#"{"a":1}"#, "{}")];
    let large = format!(r#"{{"ok":true,"value":"{}"}}"#, "x".repeat(600));
    for max in 0..700 {
        let next = entry(1, "next", r#"{"q":"Shanghai"}"#, &large);
        let room = has_replay_entry_capacity(&replay, &next, max);
        match fit_replay_entry(&replay, next, max) {
            Ok(fitted) => {
                assert_eq!(fitted.sequence, 1);
                assert_eq!(fitted.public_name, "next");
                assert_eq!(serde_value::print(&fitted.arguments), r#"{"q":"Shanghai"}"#);
                if serde_value::print(&fitted.output) != serde_value::print(&json(&large)) {
                    assert_eq!(fitted.output.get("truncated").and_then(Json::as_bool), Some(true));
                }
                let mut whole = vec![entry(0, "tool", r#"{"a":1}"#, "{}")];
                whole.push(fitted);
                assert!(!room || sandbox_request(WRAPPER, "pass", &whole, "n", max).is_ok());
            }
            Err(_) => assert!(!room, "an entry of {max} bytes has room"),
        }
    }
}

#[test]
fn a_request_may_have_any_limit() {
    let replay = vec![entry(0, "tool", "{}", "{}")];
    for max in [4096, usize::MAX / 2 + 1, usize::MAX] {
        let request = sandbox_request(WRAPPER, "pass", &replay, "n-1", max).ok().unwrap();
        let encoded = request.env_vars.text_at("AGENTGATEWAY_PTC_REPLAY").unwrap();
        assert_eq!(
            STANDARD.decode(encoded).unwrap(),
            br#"[{"sequence":0,"name":"tool","arguments":{},"output":{}}]"#
        );
    }
    assert!(sandbox_request(WRAPPER, "pass", &replay, "n-1", 1).is_err());
    assert!(sandbox_request(WRAPPER, "pass", &replay, "n 1", 4096).is_err());
}
