use serde_json::Value;
use tool_runtime::backend::{
    ManagedToolCall, SandboxCleanupOutcome, SandboxOperationReport, ToolBatchExecution,
    ToolBatchInfrastructureError, ToolBatchMetadata, ToolExecutionResult, ToolInfrastructureError,
};
use tool_runtime::budget::{
    backend_construction_error, ProgramRunEnd, ProgramSandboxExecution, RuntimeBudget,
};
use tool_runtime::calls::CollectedToolCalls;
use tool_runtime::config::{
    BuiltinTool, ManagedToolConfig, RuntimeLimits, ToolBackendConfig, ToolRuntimeConfig,
};
use tool_runtime::conversation::{
    programmatic_catalog_bytes, programmatic_catalog_entry, ManagedToolState,
    ProgrammaticToolSpec,
};
use tool_runtime::direct::{begin_direct, DirectRun, DirectStep};
use tool_runtime::e2b::SandboxHosts;
use tool_runtime::error::ToolRuntimeError;
use tool_runtime::json::Json;
use tool_runtime::operations::{
    begin_batch, begin_operation, build_operations, end_batch, end_operation, BatchEnd,
    IndexedOutput, OperationQueue,
};
use tool_runtime::program::{ProgramOutcome, ProgramReplayEntry};
use tool_runtime::registry::ToolRegistry;
use tool_runtime::runner::{
    begin_round, settle_calls, settle_round, tool_output_item, ManagedFormat, NextStep,
    ProgramRun, ProgramStep, RoundEnd, RunError,
};
use tool_runtime::schema::ArgumentSchema;
use tool_runtime::serde_value;
use tool_runtime::telemetry::{Observation, ToolBackendLabel, ToolRuntimeOutcome};
use tool_runtime::time::{Duration, Instant};

const START: Instant = Instant { nanos: 1_000 };
const DEADLINE: Instant = Instant { nanos: 1_000_000 };
const HOSTS: SandboxHosts = SandboxHosts { domain_valid: true, loopback: false };

fn json(text: &str) -> Json {
    serde_value::parse(text).expect("valid JSON")
}

fn value(json: &Json) -> Value {
    serde_json::from_str(&serde_value::print(json)).unwrap()
}

fn parsed(text: &str) -> Value {
    serde_json::from_str(text).unwrap()
}

fn http_tool(name: &str, url: &str) -> ManagedToolConfig {
    ManagedToolConfig {
        name: name.to_owned(),
        builtin: None,
        backend: ToolBackendConfig::Http {
            url: url.to_owned(),
            timeout: Duration::from_secs(5),
            bearer_token: None,
        },
    }
}

fn sandbox_tool() -> ManagedToolConfig {
    ManagedToolConfig {
        name: "code_interpreter".to_owned(),
        builtin: Some(BuiltinTool::CodeInterpreter),
        backend: ToolBackendConfig::E2b {
            api_url: "https://api.sandbox.example".to_owned(),
            domain: "sandbox.example".to_owned(),
            timeout: Duration::from_secs(30),
            api_key: "key".to_owned(),
        },
    }
}

fn limits() -> RuntimeLimits {
    RuntimeLimits { max_rounds: 2, max_tool_calls: 5, ..Default::default() }
}

fn registry() -> ToolRegistry {
    let tools = vec![http_tool("orders", "https://tools.example/orders"), sandbox_tool()];
    match ToolRegistry::compile(ToolRuntimeConfig { limits: limits(), tools }) {
        Ok(registry) => registry,
        Err(error) => panic!("{}", error.to_text()),
    }
}

fn budget() -> RuntimeBudget {
    match RuntimeBudget::new_at(&registry(), DEADLINE, HOSTS, &mut Vec::new()) {
        Ok(budget) => budget,
        Err(error) => panic!("{}", error.to_text()),
    }
}

fn call(id: &str, internal: &str) -> ManagedToolCall {
    ManagedToolCall {
        public_name: "orders".to_owned(),
        internal_name: internal.to_owned(),
        call_id: id.to_owned(),
        arguments: Json::object().having("code", Json::text("1")),
        trusted_options: json("{}"),
    }
}

const PYTHON: &str = "_agentgateway_code_interpreter";

#[test]
fn a_backend_that_cannot_be_built_ends_the_request() {
    let tools = vec![http_tool("orders", "ftp://tools.example")];
    let registry = ToolRegistry::compile(ToolRuntimeConfig { limits: limits(), tools }).ok().unwrap();
    let mut log = Vec::new();
    let error = match RuntimeBudget::new_at(&registry, DEADLINE, HOSTS, &mut log) {
        Ok(_) => panic!("the backend has no HTTP scheme"),
        Err(error) => error,
    };
    let expected = backend_construction_error(ToolInfrastructureError::Configuration);
    assert_eq!(error.to_text(), expected.to_text());
    assert_eq!(log.len(), 1);
    assert!(matches!(log[0], Observation::Request { .. }));
    let other = backend_construction_error(ToolInfrastructureError::Timeout);
    assert_eq!(other.infrastructure_error(), Some(ToolInfrastructureError::Timeout));
}

#[test]
fn rounds_end_with_their_limit_and_with_the_deadline() {
    let mut budget = budget();
    assert!(budget.start_model_round(START).is_ok());
    assert!(budget.start_model_round(START).is_ok());
    let error = budget.start_model_round(START).err().unwrap();
    assert!(error.to_text().contains("managed tool round limit exceeded (maximum 2)"));
    assert_eq!(budget.rounds(), 2);
    let late = budget.start_model_round(DEADLINE).err().unwrap();
    assert_eq!(late.to_text(), ToolRuntimeError::deadline_exceeded().to_text());
    assert_eq!(
        budget.log.iter().filter(|seen| matches!(seen, Observation::Limit { .. })).count(),
        2
    );
}

#[test]
fn calls_end_with_their_limit() {
    let mut budget = budget();
    assert_eq!(budget.reserve_calls(3).ok(), Some(0));
    assert_eq!(budget.reserve_calls(2).ok(), Some(3));
    let error = budget.reserve_calls(1).err().unwrap();
    assert!(error.to_text().contains("managed tool call limit exceeded (maximum 5)"));
    assert_eq!(budget.tool_calls(), 5);
    assert!(budget.reserve_calls(usize::MAX).is_err());
}

#[test]
fn a_request_ends_once() {
    let mut budget = budget();
    budget.finish_request(ToolRuntimeOutcome::Success);
    budget.close(DEADLINE);
    assert_eq!(budget.log, vec![Observation::Request { outcome: ToolRuntimeOutcome::Success }]);
}

#[test]
fn sandbox_calls_share_an_operation() {
    let registry = registry();
    let budget = budget();
    let calls = vec![
        call("a", PYTHON),
        call("b", "orders"),
        call("c", PYTHON),
        call("d", PYTHON),
    ];
    let shape = |parallel: bool| -> Vec<Vec<usize>> {
        build_operations(&registry, &calls, parallel, &budget.backends, 10)
            .ok()
            .unwrap()
            .iter()
            .map(|operation| operation.calls.iter().map(|call| call.index).collect())
            .collect()
    };
    assert_eq!(shape(true), vec![vec![0, 2, 3], vec![1]]);
    assert_eq!(shape(false), vec![vec![0], vec![1], vec![2, 3]]);
    let operations = build_operations(&registry, &calls, true, &budget.backends, 10).ok().unwrap();
    assert_eq!(operations[1].calls[0].execution_index, 11);
    assert_eq!(operations[1].calls[0].tool, "orders");
    assert!(operations[0].backend.label == ToolBackendLabel::E2b);

    let unknown = build_operations(&registry, &vec![call("a", "nobody")], true, &budget.backends, 0);
    assert!(unknown.err().unwrap().to_text().contains("unregistered managed tool nobody"));
    let unbound = build_operations(&registry, &vec![call("a", "orders")], true, &vec![], 0);
    assert!(unbound
        .err()
        .unwrap()
        .to_text()
        .contains("managed tool backend orders is not bound"));
}

#[test]
fn a_batch_is_admitted_executed_and_answered_in_order() {
    let registry = registry();
    let mut budget = budget();
    budget.set_request_id(Some("req".to_owned()));
    let calls = vec![call("a", "orders"), call("b", "orders")];
    let plan = begin_batch(&registry, &calls, true, &mut budget, START).ok().unwrap();
    assert_eq!(plan.operations.len(), 2);
    assert_eq!(plan.max_parallel, 4);

    let mut queue = OperationQueue::new(&plan);
    assert_eq!(queue.begin_next(), Some(0));
    assert_eq!(queue.begin_next(), Some(1));
    assert_eq!(queue.begin_next(), None);
    assert!(!queue.is_idle());

    let mut outputs = Vec::new();
    for index in [1, 0] {
        let operation = &plan.operations[index];
        let order = begin_operation(operation, &mut budget, START).ok().unwrap();
        assert_eq!(order.context.request_id.as_deref(), Some("req"));
        assert_eq!(order.context.deadline, Some(DEADLINE));
        assert_eq!(order.calls.len(), 1);
        let result = ToolExecutionResult::function(json(&format!(r#"{{"n":{index}}}"#)));
        let answered = end_operation(
            operation,
            Ok(ToolBatchExecution::new(vec![result])),
            &mut budget,
            START,
        );
        outputs.extend(answered.ok().unwrap());
        queue.end_one();
    }
    assert!(queue.is_idle());
    let values = end_batch(&plan, BatchEnd::Completed(outputs), &mut budget, START).ok().unwrap();
    assert_eq!(
        value(&values[0]),
        parsed(
            r#"{"type":"function_call_output","call_id":"a","output":"{\"n\":0,\"ok\":true}"}"#
        )
    );
    assert_eq!(value(&values[1])["call_id"], "b");
}

#[test]
fn a_batch_that_may_not_run_is_refused() {
    let registry = registry();
    let many: Vec<ManagedToolCall> = (0..6).map(|i| call(&format!("c{i}"), "orders")).collect();
    let mut spent = budget();
    assert!(begin_batch(&registry, &many, true, &mut spent, START).is_err());
    assert_eq!(spent.tool_calls(), 0);
    let mut late = budget();
    let error = begin_batch(&registry, &vec![call("a", "orders")], true, &mut late, DEADLINE);
    assert_eq!(
        error.err().unwrap().to_text(),
        ToolRuntimeError::deadline_exceeded().to_text()
    );
    let mut idle = budget();
    let plan = begin_batch(&registry, &vec![], true, &mut idle, DEADLINE).ok().unwrap();
    assert!(plan.operations.is_empty());
    let mut one = budget();
    let plan = begin_batch(&registry, &vec![call("a", "orders")], false, &mut one, START);
    assert_eq!(plan.ok().unwrap().max_parallel, 1);
}

#[test]
fn a_failed_operation_fails_its_calls() {
    let registry = registry();
    let mut budget = budget();
    let plan =
        begin_batch(&registry, &vec![call("a", PYTHON)], true, &mut budget, START).ok().unwrap();
    let operation = &plan.operations[0];
    assert!(begin_operation(operation, &mut budget, START).is_ok());
    let failure = ToolBatchInfrastructureError::from(ToolInfrastructureError::Timeout);
    let error = match end_operation(operation, Err(failure), &mut budget, START) {
        Ok(_) => panic!("an infrastructure failure is no output"),
        Err(error) => error,
    };
    assert_eq!(error.infrastructure_error(), Some(ToolInfrastructureError::Timeout));
    let error = end_batch(&plan, BatchEnd::Failed(error), &mut budget, START).err().unwrap();
    assert_eq!(error.infrastructure_error(), Some(ToolInfrastructureError::Timeout));

    let short = end_operation(operation, Ok(ToolBatchExecution::new(vec![])), &mut budget, START);
    assert_eq!(
        short.err().unwrap().infrastructure_error(),
        Some(ToolInfrastructureError::Backend)
    );
    let late = end_batch(&plan, BatchEnd::OutOfTime, &mut budget, DEADLINE).err().unwrap();
    assert_eq!(late.to_text(), ToolRuntimeError::deadline_exceeded().to_text());
}

#[test]
fn outputs_of_one_place_keep_their_order() {
    let registry = registry();
    let mut budget = budget();
    let plan = begin_batch(&registry, &vec![], true, &mut budget, START).ok().unwrap();
    let output =
        |index: usize, text: &str| IndexedOutput { index, value: Json::text(text) };
    let outputs = vec![output(2, "c"), output(0, "a"), output(2, "d"), output(1, "b")];
    let values = end_batch(&plan, BatchEnd::Completed(outputs), &mut budget, START).ok().unwrap();
    let texts: Vec<Value> = values.iter().map(value).collect();
    assert_eq!(texts, vec!["a", "b", "c", "d"]);
}

#[test]
fn a_program_runs_in_a_bound_sandbox_and_in_time() {
    let mut budget = budget();
    let (index, context) = budget.begin_program(START).ok().unwrap();
    assert_eq!(index, 0);
    assert_eq!(context.deadline, Some(DEADLINE));
    let report = SandboxOperationReport {
        outcome: SandboxCleanupOutcome::Success,
        duration: Duration::from_secs(1),
    };
    let metadata = ToolBatchMetadata { sandbox_create: Some(report), ..Default::default() };
    let result = ToolExecutionResult::python(json("{}"));
    let end = ProgramRunEnd::Reported(Ok(ProgramSandboxExecution { result, metadata }));
    assert!(budget.end_program(index, end, START).is_ok());
    assert_eq!(budget.program_sandbox_executions(), 1);

    let (index, _) = budget.begin_program(START).ok().unwrap();
    assert_eq!(index, 1);
    let failure = ToolBatchInfrastructureError::from(ToolInfrastructureError::Backend);
    let error = budget.end_program(index, ProgramRunEnd::Reported(Err(failure)), START);
    assert_eq!(
        error.err().unwrap().infrastructure_error(),
        Some(ToolInfrastructureError::Backend)
    );
    let (index, _) = budget.begin_program(START).ok().unwrap();
    assert!(budget.end_program(index, ProgramRunEnd::OutOfTime, DEADLINE).is_err());
    assert!(budget.begin_program(DEADLINE).is_err());

    let tools = vec![http_tool("orders", "https://tools.example")];
    let plain = ToolRegistry::compile(ToolRuntimeConfig { limits: limits(), tools }).ok().unwrap();
    let mut unbound =
        RuntimeBudget::new_at(&plain, DEADLINE, HOSTS, &mut Vec::new()).ok().unwrap();
    assert!(unbound
        .begin_program(START)
        .err()
        .unwrap()
        .to_text()
        .contains("program sandbox backend is not bound"));
}

#[test]
fn a_round_is_settled_by_how_it_ended() {
    let mut fresh = budget();
    assert_eq!(begin_round(&mut fresh, START).ok(), Some(Duration { nanos: 999_000 }));
    assert!(settle_round(RoundEnd::Answered, &mut fresh, START, START).is_ok());
    assert!(matches!(
        settle_round(RoundEnd::UpstreamError, &mut fresh, START, START),
        Err(RunError::UpstreamResponse)
    ));

    let mut used = budget();
    assert!(begin_round(&mut used, START).is_ok());
    assert!(used.reserve_calls(1).is_ok());
    match settle_round(RoundEnd::UpstreamError, &mut used, START, START) {
        Err(RunError::Runtime(error)) => {
            assert_eq!(error.to_text(), ToolRuntimeError::internal().to_text())
        }
        _ => panic!("an upstream failure after calls is not passed on"),
    }
    let settle = |end: RoundEnd, now: Instant| {
        let mut budget = budget();
        assert!(begin_round(&mut budget, START).is_ok());
        settle_round(end, &mut budget, START, now)
    };
    assert!(matches!(
        settle(RoundEnd::InfrastructureError, START),
        Err(RunError::DirectResponse)
    ));
    assert!(matches!(settle(RoundEnd::TimedOut, START), Err(RunError::Runtime(_))));
    assert!(matches!(settle(RoundEnd::Answered, DEADLINE), Err(RunError::Runtime(_))));
    match settle(RoundEnd::Failed(ToolRuntimeError::invalid_request("x")), START) {
        Err(RunError::Runtime(error)) => assert!(error.to_text().contains("x")),
        _ => panic!("a failure is passed on"),
    }
}

#[test]
fn an_answer_without_calls_is_the_last() {
    let settle = |collected, now: Instant| {
        let mut budget = budget();
        assert!(begin_round(&mut budget, START).is_ok());
        settle_calls(collected, &mut budget, START, now)
    };
    assert!(matches!(
        settle(Ok(CollectedToolCalls::Direct(vec![])), START),
        Ok(NextStep::Finish)
    ));
    assert!(settle(Ok(CollectedToolCalls::Direct(vec![])), DEADLINE).is_err());
    assert!(matches!(
        settle(Ok(CollectedToolCalls::Direct(vec![call("a", "orders")])), START),
        Ok(NextStep::Execute(CollectedToolCalls::Direct(_)))
    ));
    let program =
        CollectedToolCalls::Programmatic { call_id: "p".to_owned(), code: "1".to_owned() };
    assert!(matches!(settle(Ok(program), START), Ok(NextStep::Execute(_))));
    assert!(settle(Err(ToolRuntimeError::internal()), START).is_err());
}

fn search(id: &str, arguments: &str) -> ManagedToolCall {
    let mut search = call(id, "find_tools");
    search.arguments = json(arguments);
    search
}

fn begin(calls: Vec<ManagedToolCall>, budget: &mut RuntimeBudget) -> DirectRun {
    match begin_direct(ManagedFormat::Responses, calls, "find_tools", budget) {
        Ok(run) => run,
        Err(error) => panic!("{}", error.to_text()),
    }
}

fn output(id: &str) -> Json {
    json(&format!(r#"{{"type":"function_call_output","call_id":"{id}","output":"{{}}"}}"#))
}

#[test]
fn searches_and_calls_are_answered_in_their_places() {
    let mut budget = budget();
    let calls = vec![
        call("a", "orders"),
        search("s", r#"{"query":"orders"}"#),
        call("b", "orders"),
        search("t", r#"{"query":"weather"}"#),
    ];
    let run = begin(calls, &mut budget);
    assert_eq!(budget.tool_calls(), 2);
    match run.step() {
        Ok(DirectStep::Search { query }) => assert_eq!(query, "orders"),
        _ => panic!("a search was expected"),
    }
    let run = run.after_search(ToolExecutionResult::function(json("{}"))).ok().unwrap();
    match run.step() {
        Ok(DirectStep::Search { query }) => assert_eq!(query, "weather"),
        _ => panic!("a search was expected"),
    }
    let run = run.after_search(ToolExecutionResult::function(json("{}"))).ok().unwrap();
    match run.step() {
        Ok(DirectStep::Execute(calls)) => {
            let ids: Vec<&str> = calls.iter().map(|call| call.call_id.as_str()).collect();
            assert_eq!(ids, vec!["a", "b"]);
        }
        _ => panic!("a batch was expected"),
    }
    let outputs = run.after_batch(&vec![output("a"), output("b")]).ok().unwrap();
    let ids: Vec<Option<&str>> = outputs.iter().map(|item| item.text_at("call_id")).collect();
    assert_eq!(ids, vec![Some("a"), Some("s"), Some("b"), Some("t")]);
    assert!(run.after_batch(&vec![output("a")]).is_err());
}

#[test]
fn a_search_without_a_query_fails_when_its_turn_comes() {
    let mut budget = budget();
    let calls = vec![search("s", r#"{"query":"orders"}"#), search("t", "{}")];
    let run = begin(calls, &mut budget);
    assert!(matches!(run.step(), Ok(DirectStep::Search { .. })));
    let run = run.after_search(ToolExecutionResult::function(json("{}"))).ok().unwrap();
    match run.step() {
        Ok(_) => panic!("the second search has no query"),
        Err(error) => assert_eq!(error.to_text(), ToolRuntimeError::internal().to_text()),
    }
}

#[test]
fn searches_alone_need_no_batch() {
    let mut budget = budget();
    let run = begin(vec![search("s", r#"{"query":"orders"}"#)], &mut budget);
    let run = run.after_search(ToolExecutionResult::function(json("{}"))).ok().unwrap();
    match run.step() {
        Ok(DirectStep::Answer(items)) => {
            assert_eq!(items.len(), 1);
            assert_eq!(items[0].text_at("call_id"), Some("s"));
        }
        _ => panic!("the answer was expected"),
    }
}

#[test]
fn calls_without_a_search_are_one_batch() {
    let mut budget = budget();
    let run = begin(vec![call("a", "orders"), call("b", "orders")], &mut budget);
    assert_eq!(budget.tool_calls(), 0);
    assert!(matches!(run.step(), Ok(DirectStep::Execute(calls)) if calls.len() == 2));
    let outputs = run.after_batch(&vec![output("a"), output("b")]).ok().unwrap();
    assert_eq!(outputs.len(), 2);
    let calls = vec![call("a", "orders")];
    let run = match begin_direct(ManagedFormat::Messages, calls, "find_tools", &mut budget) {
        Ok(run) => run,
        Err(error) => panic!("{}", error.to_text()),
    };
    let outputs = run.after_batch(&vec![output("a")]).ok().unwrap();
    assert_eq!(value(&outputs[0])["type"], "tool_result");
    assert!(run.after_batch(&vec![json("{}")]).is_err());
}

fn state() -> ManagedToolState {
    let schema = ArgumentSchema::compile(&json(r#"{"type":"object"}"#)).unwrap();
    let known = registry().with_request_data(&vec![], &vec![("orders".to_owned(), schema)]);
    ManagedToolState {
        registry: known,
        parallel: true,
        deadline: DEADLINE,
        programmatic_requested: true,
        programmatic_tools: vec![ProgrammaticToolSpec {
            public_name: "orders".to_owned(),
            internal_name: "orders".to_owned(),
            description: String::new(),
            input_schema: json("{}"),
            output_schema: None,
        }],
        programmatic_catalog_bytes: 2,
    }
}

fn program() -> ProgramRun {
    ProgramRun::new(
        ManagedFormat::Messages,
        "toolu_p".to_owned(),
        "program_output(1)".to_owned(),
        "exec".to_owned(),
        4096,
    )
}

#[test]
fn a_program_and_its_calls_take_turns() {
    let pending = || ProgramOutcome::Pending {
        sequence: 0,
        public_name: "orders".to_owned(),
        arguments: json(r#"{"since":"2026-01-01"}"#),
    };
    let run = program();
    let (call, entry) = match run.after_outcome(pending(), &state()) {
        Ok(ProgramStep::Call { call, entry }) => (call, entry),
        _ => panic!("a call was expected"),
    };
    assert_eq!(call.call_id, "programmatic_exec_0");
    let item = tool_output_item(
        ManagedFormat::Responses,
        &call.call_id,
        ToolExecutionResult::function(json(r#"{"total":1499}"#)),
        4096,
    );
    let run = run.after_tool(entry, &vec![item.ok().unwrap()]).ok().unwrap();
    assert_eq!(run.replay.len(), 1);
    assert_eq!(serde_value::print(&run.replay[0].output), r#"{"ok":true,"total":1499}"#);

    match run.after_outcome(pending(), &state()) {
        Err(error) => assert!(error.to_text().contains("divergent call sequence")),
        Ok(_) => panic!("the first call was made already"),
    }
    let completed = ProgramOutcome::Completed(json(r#"{"total":1499}"#));
    match run.after_outcome(completed, &state()) {
        Ok(ProgramStep::Answer(items)) => {
            let block = value(&items[0]);
            assert_eq!(block["type"], "tool_result");
            assert_eq!(block["tool_use_id"], "toolu_p");
            assert!(block["content"].as_str().unwrap().contains("1499"));
            assert_eq!(block.get("is_error"), None);
        }
        _ => panic!("the program is done"),
    }
}

#[test]
fn a_program_that_fails_is_told_to_the_model() {
    let failed = ProgramOutcome::ApplicationError {
        error_type: "program_error".to_owned(),
        message: "SyntaxError: invalid syntax".to_owned(),
    };
    match program().after_outcome(failed, &state()) {
        Ok(ProgramStep::Answer(items)) => {
            let block = value(&items[0]);
            assert_eq!(block["is_error"], true);
            assert!(block["content"].as_str().unwrap().contains("program_error"));
        }
        _ => panic!("a failure is an answer"),
    }
    let diverged = ProgramOutcome::ContractError { message: "replay diverged".to_owned() };
    match program().after_outcome(diverged, &state()) {
        Err(error) => assert!(error
            .to_text()
            .contains("programmatic replay contract failed: replay diverged")),
        Ok(_) => panic!("a broken contract ends the request"),
    }
    let undeclared = ProgramOutcome::Pending {
        sequence: 0,
        public_name: "nobody".to_owned(),
        arguments: json("{}"),
    };
    assert!(program().after_outcome(undeclared, &state()).is_err());
    let result = ToolExecutionResult::function(json("{}"));
    match program().after_sandbox(result, "n", &state()) {
        Err(error) => assert!(error.to_text().contains("non-Python result")),
        Ok(_) => panic!("a program runs in Python"),
    }
    let silent = ToolExecutionResult::python(json("{}"));
    match program().after_sandbox(silent, "n", &state()) {
        Err(error) => assert!(error.to_text().contains("omitted stdout")),
        Ok(_) => panic!("a program writes"),
    }
    let small = ProgramRun { max_output_bytes: 80, ..program() };
    let pending = ProgramOutcome::Pending {
        sequence: 0,
        public_name: "orders".to_owned(),
        arguments: json("{}"),
    };
    match small.after_outcome(pending, &state()) {
        Ok(_) => {}
        Err(error) => assert!(!error.to_text().is_empty()),
    }
}

#[test]
fn a_program_is_started_and_asked_for_under_fresh_ids() {
    let one = ProgramRun::start(ManagedFormat::Responses, "c".to_owned(), "1".to_owned(), 4096);
    let other = ProgramRun::start(ManagedFormat::Responses, "c".to_owned(), "1".to_owned(), 4096);
    assert_eq!(one.execution_id.len(), 32);
    assert_ne!(one.execution_id, other.execution_id);
    let (nonce, request) = one.next_request("wrapper");
    let request = request.ok().unwrap();
    assert_eq!(nonce.len(), 36);
    assert_eq!(request.source, "wrapper");
    assert_eq!(request.env_vars.text_at("AGENTGATEWAY_PTC_NONCE"), Some(nonce.as_str()));
    let entry = ProgramReplayEntry {
        sequence: 0,
        public_name: "orders".to_owned(),
        arguments: json("{}"),
        output: Json::Null,
    };
    assert!(one.after_tool(entry, &vec![]).is_err());
}

#[test]
fn the_formats_tell_a_result_in_their_own_form() {
    let told = tool_output_item(
        ManagedFormat::Responses,
        "c",
        ToolExecutionResult::function(json("[1]")),
        4096,
    );
    assert_eq!(
        value(&told.ok().unwrap()),
        parsed(
            r#"{"type":"function_call_output","call_id":"c",
                "output":"{\"ok\":true,\"result\":[1]}"}"#
        )
    );
    assert_eq!(ManagedFormat::Responses.as_str(), "responses");
}

fn spec(name: &str, description: &str) -> ProgrammaticToolSpec {
    ProgrammaticToolSpec {
        public_name: name.to_owned(),
        internal_name: name.to_owned(),
        description: description.to_owned(),
        input_schema: json(r#"{"type":"object"}"#),
        output_schema: None,
    }
}

#[test]
fn a_catalog_is_as_large_as_its_array() {
    assert_eq!(programmatic_catalog_bytes(&vec![]).ok(), Some(2));
    let mut tools = vec![spec("a", "first"), spec("b", "second"), spec("c", "")];
    let entries: Vec<Value> =
        tools.iter().map(|tool| value(&programmatic_catalog_entry(tool))).collect();
    let written = serde_json::to_vec(&entries).unwrap().len();
    assert_eq!(programmatic_catalog_bytes(&tools).ok(), Some(written));
    tools.reverse();
    assert_eq!(programmatic_catalog_bytes(&tools).ok(), Some(written));

    let rest = programmatic_catalog_bytes(&vec![spec("a", "")]).ok().unwrap();
    let full = vec![spec("a", &"x".repeat(2_097_152 - rest))];
    assert_eq!(programmatic_catalog_bytes(&full).ok(), Some(2_097_152));
    let over = vec![spec("a", &"x".repeat(2_097_153 - rest))];
    assert_eq!(
        programmatic_catalog_bytes(&over).err().map(|error| error.to_text()).as_deref(),
        Some("invalid managed tool request: programmatic tool catalog exceeds the 2097152-byte limit")
    );
}
