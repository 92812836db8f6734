use serde_json::Value;
use tool_runtime::backend::{
    ManagedToolCall, SandboxCleanupOutcome, ToolBatchExecution, ToolExecutionContext,
    ToolExecutionResult, ToolInfrastructureError,
};
use tool_runtime::e2b::{
    bounded_python_source, bounded_python_source_marked, parse_execution, provider_timeout_seconds,
    valid_sandbox_id, E2bSandboxBackend, Sandbox, SandboxHosts,
};
use tool_runtime::json::Json;
use tool_runtime::program::ProgramSandboxRequest;
use tool_runtime::sandbox_run::{
    after_termination, begin_calls, begin_program, program_result, termination_request,
    SandboxAuth, SandboxEvent, SandboxMethod, SandboxReply, SandboxRun, SandboxStep,
};
use tool_runtime::serde_value;
use tool_runtime::time::{Duration, Instant};

const NOW: Instant = Instant { nanos: 1_000_000_000 };

fn json(text: &str) -> Json {
    serde_value::parse(text).expect("valid JSON")
}

fn value(json: &Json) -> Value {
    serde_json::from_str(&serde_value::print(json)).unwrap()
}

fn parsed(text: &str) -> Value {
    serde_json::from_str(text).unwrap()
}

fn backend_at(url: &str, loopback: bool) -> Result<E2bSandboxBackend, ToolInfrastructureError> {
    E2bSandboxBackend::new(
        url,
        "sandbox.example.com".to_owned(),
        Duration::from_secs(20),
        "operator-key".to_owned(),
        4096,
        SandboxHosts { domain_valid: true, loopback },
    )
}

fn backend() -> E2bSandboxBackend {
    backend_at("https://api.example.com", false).ok().unwrap()
}

fn python_call(id: &str, code: &str) -> ManagedToolCall {
    ManagedToolCall {
        public_name: "code_interpreter".to_owned(),
        internal_name: "_agentgateway_code_interpreter".to_owned(),
        call_id: id.to_owned(),
        arguments: Json::object().having("code", Json::text(code)),
        trusted_options: json("{}"),
    }
}

fn context() -> ToolExecutionContext {
    ToolExecutionContext { request_id: None, deadline: None }
}

#[test]
fn output_marker_is_removed_and_sets_truncated() {
    let (_source, marker) = bounded_python_source("print('large')", 5);
    let body = format!(
        "{{\"type\":\"stdout\",\"text\":\"hello\",\"timestamp\":1}}\n{{\"type\":\"stderr\",\"text\":{},\"timestamp\":2}}\n",
        serde_json::to_string(&marker).unwrap()
    );
    let output = parse_execution(body.as_bytes(), 5, &marker)
        .ok()
        .unwrap()
        .into_model_output(1024)
        .ok()
        .unwrap();
    assert_eq!(
        value(&output),
        parsed(
            r#"{
                "ok": true, "exit_code": 0, "stdout": "hello", "stderr": "",
                "timed_out": false, "truncated": true, "artifacts": []
            }"#
        )
    );
}

#[test]
fn sandbox_termination_retries_exactly_once() {
    let backend = backend_at("http://127.0.0.1:9000", true).ok().unwrap();
    let request = termination_request(&backend, "sandbox_1", NOW).unwrap();
    assert!(request.method == SandboxMethod::Delete);
    assert_eq!(request.uri, "http://127.0.0.1:9000/sandboxes/sandbox_1");
    let mut attempts = 0;
    let mut gone = None;
    while gone.is_none() {
        let status = if attempts == 0 { 503 } else { 204 };
        gone = after_termination(attempts, Some(status));
        attempts += 1;
    }
    assert_eq!(gone, Some(true));
    assert_eq!(attempts, 2);
    assert_eq!(after_termination(1, Some(503)), Some(false));
    assert_eq!(after_termination(0, Some(404)), Some(true));
    assert_eq!(after_termination(0, None), None);
}

#[test]
fn a_sandbox_provider_is_reached_over_tls_or_on_this_machine() {
    assert!(backend_at("https://api.example.com", false).is_ok());
    assert!(backend_at("http://127.0.0.1:9000", true).is_ok());
    for url in [
        "http://api.example.com",
        "https://api.example.com/v1",
        "https://api.example.com/?a=1",
        "ftp://api.example.com",
        "not a uri",
    ] {
        assert_eq!(
            backend_at(url, false).err(),
            Some(ToolInfrastructureError::Configuration),
            "{url}"
        );
    }
    let refused = |timeout: Duration, key: &str, max: usize, domain_valid: bool| {
        E2bSandboxBackend::new(
            "https://api.example.com",
            "sandbox.example.com".to_owned(),
            timeout,
            key.to_owned(),
            max,
            SandboxHosts { domain_valid, loopback: false },
        )
        .is_err()
    };
    assert!(refused(Duration::zero(), "key", 1, true));
    assert!(refused(Duration::from_secs(86_401), "key", 1, true));
    assert!(refused(Duration::from_secs(1), "", 1, true));
    assert!(refused(Duration::from_secs(1), "key", 0, true));
    assert!(refused(Duration::from_secs(1), "key", 1, false));
    assert!(!refused(Duration::from_secs(86_400), "key", 1, true));
}

#[test]
fn a_batch_of_python_calls_is_checked() {
    let backend = backend();
    assert!(backend.validate_calls(&vec![python_call("a", "1"), python_call("b", "2")]).is_ok());
    assert!(backend.validate_calls(&vec![]).is_err());
    assert!(backend.validate_calls(&vec![python_call("a", "1"), python_call("a", "2")]).is_err());
    assert!(backend.validate_calls(&vec![python_call("", "1")]).is_err());
    assert!(backend.validate_calls(&vec![python_call(&"x".repeat(257), "1")]).is_err());
    assert!(backend.validate_calls(&vec![python_call("a", &"x".repeat(32_769))]).is_err());
    let many = (0..9).map(|i| python_call(&format!("c{i}"), "1")).collect();
    assert!(backend.validate_calls(&many).is_err());
}

#[test]
fn the_lifetime_of_a_sandbox_is_in_whole_seconds() {
    let end = Instant { nanos: NOW.nanos + 2_500_000_000 };
    assert_eq!(provider_timeout_seconds(Duration::from_secs(20), end, NOW), Ok(3));
    assert_eq!(provider_timeout_seconds(Duration::from_millis(1), end, NOW), Ok(1));
    assert_eq!(provider_timeout_seconds(Duration::from_secs(2), end, NOW), Ok(2));
    assert_eq!(
        provider_timeout_seconds(Duration::from_secs(2), NOW, NOW),
        Err(ToolInfrastructureError::Timeout)
    );
}

#[test]
fn sandbox_ids_are_path_segments() {
    assert!(valid_sandbox_id("sandbox_1-A"));
    assert!(!valid_sandbox_id(""));
    assert!(!valid_sandbox_id("a/b"));
    assert!(!valid_sandbox_id("é"));
    assert!(!valid_sandbox_id(&"x".repeat(129)));
}

#[test]
fn a_program_is_wrapped_with_its_bound_and_mark() {
    let (source, marker) = bounded_python_source_marked("print(1)", 77, "an-id");
    assert!(source.contains("__ag_budget = [77, False]"));
    assert!(source.contains(r#"b64decode("cHJpbnQoMSk=")"#));
    assert!(source.contains(r#"__ag_stderr.write("\n__AG_OUTPUT_TRUNCATED_an-id__\n")"#));
    assert_eq!(marker, "\n__AG_OUTPUT_TRUNCATED_an-id__\n");
    let (_, one) = bounded_python_source("1", 1);
    let (_, other) = bounded_python_source("1", 1);
    assert_ne!(one, other);
}

#[test]
fn an_execution_is_read_event_by_event() {
    let events = concat_lines(&[
        r#"{"type":"stdout","text":"a"}"#,
        "",
        r#"{"type":"number_of_executions","n":1}"#,
        r#"{"type":"stdout","text":"b"}"#,
        r#"{"type":"stderr","text":"warn"}"#,
        r#"{"type":"result"}"#,
    ]);
    match parse_execution(events.as_bytes(), 100, "MARK") {
        Ok(ToolExecutionResult::Python(output)) => {
            assert_eq!(output.text_at("stdout"), Some("ab"));
            assert_eq!(output.text_at("stderr"), Some("warn"));
        }
        _ => panic!("a program that ran"),
    }
    let failed = concat_lines(&[
        r#"{"type":"error","name":"ValueError","value":"bad"}"#,
        r#"{"type":"stdout","text":"x"}"#,
    ]);
    match parse_execution(failed.as_bytes(), 100, "MARK") {
        Ok(ToolExecutionResult::ApplicationError(error)) => {
            assert_eq!(error.error_type, "execution_error");
            assert_eq!(error.message, "ValueError: bad");
            assert_eq!(error.stdout, "x");
            assert!(!error.retryable);
        }
        _ => panic!("a program that failed"),
    }
    for (body, max) in [
        (r#"{"type":"stdout","text":"abc"}"#, 2),
        (r#"{"type":"stdout"}"#, 100),
        (r#"{"type":"surprise"}"#, 100),
        (r#"{"kind":"stdout"}"#, 100),
        ("no json", 100),
    ] {
        assert_eq!(
            parse_execution(body.as_bytes(), max, "").err(),
            Some(ToolInfrastructureError::Backend),
            "{body}"
        );
    }
    assert_eq!(
        parse_execution(&[0xff, 0xfe], 100, "MARK").err(),
        Some(ToolInfrastructureError::Backend)
    );
}

fn concat_lines(lines: &[&str]) -> String {
    let mut whole = String::new();
    for line in lines {
        whole.push_str(line);
        whole.push('\n');
    }
    whole
}

fn answered(status: u16, body: &str) -> SandboxEvent {
    SandboxEvent::Replied(SandboxReply::Answered {
        status,
        refusal: ToolInfrastructureError::Authentication,
        body: body.as_bytes().to_vec(),
    })
}

fn sent(step: &SandboxStep) -> (&str, &str) {
    match step {
        SandboxStep::Send(request) => (
            if request.method == SandboxMethod::Post { "POST" } else { "DELETE" },
            request.uri.as_str(),
        ),
        _ => panic!("a request was expected"),
    }
}

fn advance(run: SandboxRun, event: SandboxEvent) -> (SandboxRun, SandboxStep) {
    assert!(run.expects(&event));
    run.advance_marked(event, "an-id", Instant { nanos: NOW.nanos + 1_000 })
}

#[test]
fn a_sandbox_runs_its_sources_and_is_cleaned_up() {
    let calls = vec![python_call("a", "print(1)"), python_call("b", "print(2)")];
    let (run, step) = begin_calls(backend(), &calls, &context(), NOW).ok().unwrap().unwrap();
    assert_eq!(sent(&step), ("POST", "https://api.example.com/sandboxes"));
    match &step {
        SandboxStep::Send(request) => {
            assert_eq!(
                value(request.body.as_ref().unwrap()),
                parsed(r#"{"templateID": "code-interpreter-v1", "timeout": 18, "secure": true}"#)
            );
            assert_eq!(
                request.auth.headers(),
                vec![("X-API-Key".to_owned(), "operator-key".to_owned())]
            );
            assert!(request.reads_body(201));
            assert!(!request.reads_body(500));
            assert_eq!(request.time_left(NOW), Ok(Duration::from_secs(18)));
        }
        _ => panic!("a request was expected"),
    }
    let (run, step) = advance(
        run,
        answered(201, r#"{"sandboxID":"sb_1","domain":"other.example","envdAccessToken":"t"}"#),
    );
    match &step {
        SandboxStep::CheckDomain(domain) => assert_eq!(domain, "other.example"),
        _ => panic!("the domain is to be judged"),
    }
    let (mut run, mut step) = advance(run, SandboxEvent::DomainChecked(true));
    for code in ["cHJpbnQoMSk=", "cHJpbnQoMik="] {
        assert_eq!(sent(&step), ("POST", "https://49999-sb_1.other.example/contexts"));
        let (after, next) = advance(run, answered(200, r#"{"id":"ctx"}"#));
        assert_eq!(sent(&next), ("POST", "https://49999-sb_1.other.example/execute"));
        match &next {
            SandboxStep::Send(request) => {
                let body = value(request.body.as_ref().unwrap());
                assert!(body["code"].as_str().unwrap().contains(code));
                assert_eq!(body["context_id"], "ctx");
                assert_eq!(
                    request.auth.headers(),
                    vec![("X-Access-Token".to_owned(), "t".to_owned())]
                );
            }
            _ => panic!("a request was expected"),
        }
        let (after, next) = advance(after, answered(200, "{\"type\":\"stdout\",\"text\":\"ok\"}\n"));
        assert_eq!(sent(&next), ("DELETE", "https://49999-sb_1.other.example/contexts/ctx"));
        let (after, next) = advance(after, answered(204, ""));
        run = after;
        step = next;
    }
    assert_eq!(run.remaining_output, 4096 - 4);
    match &step {
        SandboxStep::CleanUp(id) => assert_eq!(id, "sb_1"),
        _ => panic!("the sandbox is to be cleaned up"),
    }
    let (_, step) = advance(run, SandboxEvent::CleanedUp(true));
    match step {
        SandboxStep::Finish(Ok(ToolBatchExecution { results, metadata })) => {
            assert_eq!(results.len(), 2);
            assert!(metadata.sandbox_cleanup == Some(SandboxCleanupOutcome::Success));
            assert!(metadata.sandbox_create.unwrap().outcome == SandboxCleanupOutcome::Success);
            assert!(metadata.sandbox_execute.unwrap().outcome == SandboxCleanupOutcome::Success);
            assert!(metadata.sandbox_terminate.unwrap().outcome == SandboxCleanupOutcome::Success);
        }
        _ => panic!("the run ends with its results"),
    }
}

#[test]
fn a_sandbox_that_was_made_is_cleaned_up_whatever_happens() {
    let calls = vec![python_call("a", "1")];
    let begin = || begin_calls(backend(), &calls, &context(), NOW).ok().unwrap().unwrap().0;

    let (_, step) = advance(begin(), answered(401, ""));
    match step {
        SandboxStep::Finish(Err(failure)) => {
            assert_eq!(failure.error, ToolInfrastructureError::Authentication);
            let create = failure.metadata.sandbox_create.unwrap();
            assert!(create.outcome == SandboxCleanupOutcome::Failure);
            assert!(failure.metadata.sandbox_cleanup.is_none());
        }
        _ => panic!("no sandbox was made"),
    }
    let (_, step) = advance(begin(), answered(201, r#"{"sandboxID":"../x"}"#));
    assert!(matches!(step, SandboxStep::Finish(Err(_))));

    let made = |event: SandboxEvent| {
        let (run, _) = advance(begin(), answered(201, r#"{"sandboxID":"sb"}"#));
        advance(run, event)
    };
    for event in [
        answered(500, ""),
        answered(200, "no json"),
        answered(200, r#"{"id":"../x"}"#),
        SandboxEvent::Replied(SandboxReply::Failed(ToolInfrastructureError::Timeout)),
    ] {
        let (run, step) = made(event);
        assert!(matches!(step, SandboxStep::CleanUp(_)));
        let (_, step) = advance(run, SandboxEvent::CleanedUp(true));
        match step {
            SandboxStep::Finish(Err(failure)) => {
                let execute = failure.metadata.sandbox_execute.unwrap();
                assert!(execute.outcome == SandboxCleanupOutcome::Failure);
                assert!(
                    failure.metadata.sandbox_cleanup == Some(SandboxCleanupOutcome::Success)
                );
            }
            _ => panic!("the run fails"),
        }
    }

    let (run, _) =
        advance(begin(), answered(201, r#"{"sandboxID":"sb","domain":"bad domain"}"#));
    let (run, step) = advance(run, SandboxEvent::DomainChecked(false));
    assert!(matches!(step, SandboxStep::CleanUp(_)));
    let (_, step) = advance(run, SandboxEvent::CleanedUp(false));
    match step {
        SandboxStep::Finish(Err(failure)) => {
            assert_eq!(failure.error, ToolInfrastructureError::Backend);
            assert!(failure.metadata.sandbox_cleanup == Some(SandboxCleanupOutcome::Failure));
        }
        _ => panic!("the run fails"),
    }
}

#[test]
fn a_context_is_removed_even_where_the_execution_failed() {
    let calls = vec![python_call("a", "1")];
    let (run, _) = begin_calls(backend(), &calls, &context(), NOW).ok().unwrap().unwrap();
    let (run, _) = advance(run, answered(201, r#"{"sandboxID":"sb"}"#));
    let (run, _) = advance(run, answered(200, r#"{"id":"ctx"}"#));
    let failed = SandboxEvent::Replied(SandboxReply::Failed(ToolInfrastructureError::Timeout));
    let (run, step) = advance(run, failed);
    assert_eq!(sent(&step).0, "DELETE");
    let (run, step) = advance(run, answered(204, ""));
    assert!(matches!(step, SandboxStep::CleanUp(_)));
    let (_, step) = advance(run, SandboxEvent::CleanedUp(true));
    match step {
        SandboxStep::Finish(Err(failure)) => {
            assert_eq!(failure.error, ToolInfrastructureError::Timeout)
        }
        _ => panic!("the run fails"),
    }
}

#[test]
fn a_sandbox_on_this_machine_is_reached_at_the_control_host() {
    let backend = backend_at("http://127.0.0.1:9000", true).ok().unwrap();
    let calls = vec![python_call("a", "1")];
    let (run, _) = begin_calls(backend, &calls, &context(), NOW).ok().unwrap().unwrap();
    let (_, step) = advance(run, answered(201, r#"{"sandboxID":"sb"}"#));
    assert_eq!(sent(&step), ("POST", "http://127.0.0.1:9000/contexts"));
}

#[test]
fn a_run_that_cannot_begin_says_why() {
    let late = ToolExecutionContext { request_id: None, deadline: Some(NOW) };
    let failure = begin_calls(backend(), &vec![python_call("a", "1")], &late, NOW).err().unwrap();
    assert_eq!(failure.error, ToolInfrastructureError::Timeout);
    let twice = vec![python_call("a", "1"), python_call("a", "1")];
    let failure = begin_calls(backend(), &twice, &context(), NOW).err().unwrap();
    assert_eq!(failure.error, ToolInfrastructureError::Configuration);
    assert!(matches!(begin_calls(backend(), &vec![], &context(), NOW), Ok(None)));
    let large = ProgramSandboxRequest {
        source: "pass".to_owned(),
        env_vars: Json::object().having("X", Json::text(&"x".repeat(9000))),
    };
    let failure = begin_program(backend(), large, &context(), NOW).err().unwrap();
    assert_eq!(failure.error, ToolInfrastructureError::Configuration);
}

#[test]
fn a_program_has_the_result_of_its_only_source() {
    let request =
        ProgramSandboxRequest { source: "pass".to_owned(), env_vars: json(r#"{"A":"b"}"#) };
    let (run, _) = begin_program(backend(), request, &context(), NOW).ok().unwrap();
    let (run, _) = advance(run, answered(201, r#"{"sandboxID":"sb"}"#));
    let (_, step) = advance(run, answered(200, r#"{"id":"ctx"}"#));
    match &step {
        SandboxStep::Send(request) => {
            let body = value(request.body.as_ref().unwrap());
            assert_eq!(body["env_vars"], parsed(r#"{"A":"b"}"#));
        }
        _ => panic!("a request was expected"),
    }
    let result = ToolExecutionResult::python(json("{}"));
    assert!(program_result(ToolBatchExecution::new(vec![result])).is_ok());
    assert_eq!(
        program_result(ToolBatchExecution::new(vec![])).err().unwrap().error,
        ToolInfrastructureError::Internal
    );
}

#[test]
fn headers_that_cannot_be_sent_are_failures_of_their_own() {
    let key = SandboxAuth::ApiKey("k".to_owned());
    assert_eq!(key.header_failure(), ToolInfrastructureError::Configuration);
    let tokens = SandboxAuth::Tokens { envd: None, traffic: Some("t".to_owned()) };
    assert_eq!(tokens.header_failure(), ToolInfrastructureError::Backend);
    assert_eq!(
        tokens.headers(),
        vec![("E2B-Traffic-Access-Token".to_owned(), "t".to_owned())]
    );
}

#[test]
fn a_sandbox_is_reached_only_under_a_valid_domain() {
    let sandbox = |domain: Option<&str>| Sandbox {
        sandbox_id: "abc".to_owned(),
        domain: domain.map(str::to_owned),
        envd_access_token: None,
        traffic_access_token: None,
    };
    let origin = |backend: &E2bSandboxBackend, domain: Option<&str>, valid: bool| {
        backend.data_plane_origin(&sandbox(domain), valid).map(|uri| uri.authority)
    };
    assert_eq!(
        origin(&backend(), None, true).ok().flatten().as_deref(),
        Some("49999-abc.sandbox.example.com")
    );
    assert_eq!(
        origin(&backend(), Some("eu.example.com"), true).ok().flatten().as_deref(),
        Some("49999-abc.eu.example.com")
    );
    assert_eq!(
        origin(&backend(), Some("eu.example.com"), false).err(),
        Some(ToolInfrastructureError::Backend)
    );
    let local = backend_at("http://127.0.0.1:3000", true).ok().unwrap();
    assert_eq!(origin(&local, None, false).ok().flatten().as_deref(), Some("127.0.0.1:3000"));
}
