use tool_runtime::gateway::{
    dotenv_candidates_for_manifest, query_requests_sse, response_prompt_guard_headers,
    validate_live_web_search_response, HeaderField, TRACEPARENT,
};

fn field(name: &str, value: &str) -> HeaderField {
    HeaderField { name: name.to_owned(), value: value.to_owned() }
}

fn get<'a>(headers: &'a [HeaderField], name: &str) -> Option<&'a str> {
    headers
        .iter()
        .find(|header| header.name == name)
        .map(|header| header.value.as_str())
}

#[test]
fn response_prompt_guard_headers_copies_request_traceparent() {
    let traceparent = "00-4bf92f3577b34da6a3ce929d0e0e4736-00f067aa0ba902b7-01";
    let response_headers = vec![field("x-upstream", "value")];

    let headers = response_prompt_guard_headers(&response_headers, Some(traceparent));

    assert_eq!(get(&headers, "x-upstream").unwrap(), "value");
    assert_eq!(
        get(&headers, TRACEPARENT).unwrap(),
        "00-4bf92f3577b34da6a3ce929d0e0e4736-00f067aa0ba902b7-01"
    );
    assert!(get(&response_headers, TRACEPARENT).is_none());
}

#[test]
fn response_prompt_guard_headers_overwrites_upstream_traceparent() {
    let traceparent = "00-4bf92f3577b34da6a3ce929d0e0e4736-00f067aa0ba902b7-01";
    let response_headers = vec![field(
        TRACEPARENT,
        "00-11111111111111111111111111111111-2222222222222222-01",
    )];

    let headers = response_prompt_guard_headers(&response_headers, Some(traceparent));

    assert_eq!(
        get(&headers, TRACEPARENT).unwrap(),
        "00-4bf92f3577b34da6a3ce929d0e0e4736-00f067aa0ba902b7-01"
    );
    assert_eq!(headers.len(), 1);
    assert_eq!(
        get(&response_headers, TRACEPARENT).unwrap(),
        "00-11111111111111111111111111111111-2222222222222222-01"
    );
    assert_eq!(response_prompt_guard_headers(&response_headers, None).len(), 1);
}

fn names(path: &str) -> Vec<String> {
    path.split('/').map(str::to_owned).collect()
}

#[test]
fn dotenv_candidates_normalize_worktree_and_main_checkout_roots() {
    let manifest = names("checkout/.worktrees/task12/crates/agentgateway");
    assert_eq!(
        dotenv_candidates_for_manifest(&manifest),
        vec![names("checkout/.worktrees/task12/.env"), names("checkout/.env")]
    );

    let main_manifest = names("checkout/crates/agentgateway");
    assert_eq!(
        dotenv_candidates_for_manifest(&main_manifest),
        vec![names("checkout/.env")]
    );
    assert!(dotenv_candidates_for_manifest(&names("alone")).is_empty());
}

#[test]
fn live_response_validation_errors_are_content_free() {
    const EXTERNAL_VALUE: &str = "external-content-must-not-escape";
    let body = format!(r#"{{"error": "{EXTERNAL_VALUE}"}}"#);
    let web_error = validate_live_web_search_response(502, body.as_bytes()).unwrap_err();
    assert_eq!(web_error, "live Web Search returned non-200 status");
    assert!(!web_error.contains(EXTERNAL_VALUE));
}

#[test]
fn a_live_response_needs_a_results_array() {
    assert_eq!(
        validate_live_web_search_response(200, b"nonsense"),
        Err("live FC response was not valid JSON")
    );
    assert_eq!(
        validate_live_web_search_response(200, br#"{"results": {}}"#),
        Err("live Web Search response omitted its results array")
    );
    assert_eq!(validate_live_web_search_response(200, br#"{"results": []}"#), Ok(()));
}

#[test]
fn query_requests_sse_matches_alt_query_parameter() {
    assert!(query_requests_sse(
        "/v1beta/models/gemini-2.5-flash:streamGenerateContent?alt=sse"
    ));
    assert!(query_requests_sse(
        "/v1beta/models/gemini-2.5-flash:streamGenerateContent?key=abc&alt=sse"
    ));
    assert!(!query_requests_sse(
        "/v1beta/models/gemini-2.5-flash:streamGenerateContent"
    ));
    assert!(!query_requests_sse(
        "/v1beta/models/gemini-2.5-flash:streamGenerateContent?alt=json"
    ));
    assert!(!query_requests_sse(
        "/v1beta/models/gemini-2.5-flash:streamGenerateContent?halt=sse"
    ));
}
