use serde_json::Value;
use tool_runtime::backend::{
    ManagedToolCall, ToolExecutionContext, ToolExecutionResult, ToolInfrastructureError,
};
use tool_runtime::http_backend::{
    answer, parse_application_error, read_response, timeout_millis, validate_typed_result,
    web_search_request, HttpToolBackend,
};
use tool_runtime::json::Json;
use tool_runtime::serde_value;
use tool_runtime::time::{Duration, Instant};

const NOW: Instant = Instant { nanos: 0 };

fn json(text: &str) -> Json {
    serde_value::parse(text).expect("valid JSON")
}

fn value(json: &Json) -> Value {
    serde_json::from_str(&serde_value::print(json)).unwrap()
}

fn parsed(text: &str) -> Value {
    serde_json::from_str(text).unwrap()
}

fn backend() -> HttpToolBackend {
    HttpToolBackend::new(
        "https://tools.example/call".to_owned(),
        Duration::from_secs(5),
        Some("token".to_owned()),
        1024,
    )
    .ok()
    .unwrap()
}

fn call(internal: &str, arguments: &str, options: &str) -> ManagedToolCall {
    ManagedToolCall {
        public_name: "orders".to_owned(),
        internal_name: internal.to_owned(),
        call_id: "call_1".to_owned(),
        arguments: json(arguments),
        trusted_options: json(options),
    }
}

fn context(deadline: Option<u64>) -> ToolExecutionContext {
    ToolExecutionContext {
        request_id: Some("req_1".to_owned()),
        deadline: deadline.map(|nanos| Instant { nanos }),
    }
}

#[test]
fn a_backend_is_reached_over_http() {
    assert!(backend().tls);
    let plain = HttpToolBackend::new(
        "http://tools.example".to_owned(),
        Duration::from_secs(1),
        None,
        1,
    );
    assert!(!plain.ok().unwrap().tls);
    for (url, secs, max) in [
        ("https://tools.example", 0, 1),
        ("https://tools.example", 1, 0),
        ("/relative", 1, 1),
        ("ftp://tools.example", 1, 1),
        ("no uri at all", 1, 1),
    ] {
        assert_eq!(
            HttpToolBackend::new(url.to_owned(), Duration::from_secs(secs), None, max).err(),
            Some(ToolInfrastructureError::Configuration),
            "{url}"
        );
    }
}

#[test]
fn a_function_call_is_asked_with_its_context() {
    let (body, timeout) = backend()
        .ask(&call("orders", r#"{"since":1}"#, "{}"), &context(Some(2_500_000)), NOW)
        .ok()
        .unwrap();
    assert_eq!(timeout, Duration { nanos: 2_500_000 });
    assert_eq!(
        value(&body),
        parsed(
            r#"{"tool_name":"orders","call_id":"call_1","arguments":{"since":1},
                "context":{"request_id":"req_1","deadline_ms":2}}"#
        )
    );
    let without = ToolExecutionContext { request_id: None, deadline: None };
    let (body, timeout) = backend().ask(&call("orders", "{}", "{}"), &without, NOW).ok().unwrap();
    assert_eq!(timeout, Duration::from_secs(5));
    assert_eq!(value(&body)["context"], parsed(r#"{"request_id":null,"deadline_ms":5000}"#));
    assert_eq!(
        backend().ask(&call("orders", "{}", "{}"), &context(Some(0)), NOW).err(),
        Some(ToolInfrastructureError::Timeout)
    );
    assert_eq!(
        backend()
            .ask(&call("_agentgateway_code_interpreter", "{}", "{}"), &without, NOW)
            .err(),
        Some(ToolInfrastructureError::Configuration)
    );
}

#[test]
fn a_web_search_is_asked_with_its_options() {
    let search = "_agentgateway_web_search";
    let request =
        web_search_request(&call(search, r#"{"query":"x"}"#, r#"{"max_uses":3}"#)).ok().unwrap();
    assert_eq!(value(&request), parsed(r#"{"query":"x","max_uses":3}"#));
    for (arguments, options) in [
        (r#"{"query":"x","more":1}"#, "{}"),
        (r#"{"query":1}"#, "{}"),
        ("{}", "{}"),
        (r#"{"query":"x"}"#, r#"{"query":"y"}"#),
        (r#"{"query":"x"}"#, "[]"),
        ("[]", "{}"),
    ] {
        assert_eq!(
            web_search_request(&call(search, arguments, options)).err(),
            Some(ToolInfrastructureError::Configuration)
        );
    }
}

#[test]
fn times_are_at_least_a_millisecond() {
    assert_eq!(timeout_millis(Duration { nanos: 1 }), 1);
    assert_eq!(timeout_millis(Duration::from_secs(2)), 2000);
}

#[test]
fn responses_are_read_where_they_succeed() {
    let refusal = ToolInfrastructureError::Authentication;
    assert_eq!(
        value(&read_response(200, Some(b"{\"a\":1}"), refusal).ok().unwrap()),
        parsed(r#"{"a":1}"#)
    );
    assert_eq!(read_response(403, None, refusal).err(), Some(refusal));
    assert_eq!(
        read_response(200, Some(b"no json"), refusal).err(),
        Some(ToolInfrastructureError::Backend)
    );
    assert_eq!(
        read_response(200, None, refusal).err(),
        Some(ToolInfrastructureError::Backend)
    );
}

#[test]
fn application_errors_have_an_exact_form() {
    let whole = r#"{"ok":false,"error":{"type":"t","message":"m","retryable":true},
        "stdout":"o","stderr":"e"}"#;
    match parse_application_error(&json(whole)) {
        Ok(Some(ToolExecutionResult::ApplicationError(error))) => {
            assert_eq!(error.error_type, "t");
            assert_eq!(error.message, "m");
            assert!(error.retryable);
            assert_eq!(error.stdout, "o");
            assert_eq!(error.stderr, "e");
        }
        _ => panic!("an error is reported"),
    }
    assert!(matches!(parse_application_error(&json(r#"{"ok":true}"#)), Ok(None)));
    assert!(matches!(parse_application_error(&json("[]")), Ok(None)));
    for text in [
        r#"{"ok":false}"#,
        r#"{"ok":false,"error":{"type":"t","message":"m"},"stdout":"","stderr":""}"#,
        r#"{"ok":false,"error":{"type":"t","message":"m","retryable":true,"x":1},
            "stdout":"","stderr":""}"#,
        r#"{"ok":false,"error":{"type":"t","message":"m","retryable":true},
            "stdout":"","stderr":"","x":1}"#,
    ] {
        assert_eq!(
            parse_application_error(&json(text)).err(),
            Some(ToolInfrastructureError::Backend),
            "{text}"
        );
    }
}

#[test]
fn search_results_have_their_form() {
    let search = call("_agentgateway_web_search", "{}", "{}");
    let good = json(r#"{"results":[]}"#);
    assert!(validate_typed_result(&ToolExecutionResult::web_search(good.clone())).is_ok());
    assert!(matches!(answer(&search, good), Ok(ToolExecutionResult::WebSearch(_))));
    assert_eq!(answer(&search, json("[]")).err(), Some(ToolInfrastructureError::Backend));
    assert!(matches!(
        answer(&call("orders", "{}", "{}"), json("[]")),
        Ok(ToolExecutionResult::Function(_))
    ));
}
