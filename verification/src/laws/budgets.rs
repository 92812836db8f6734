//! What a request may use up, which backend carries out its calls, and what is registered for it.

use vstd::prelude::*;
use vstd::string::*;
use crate::backend::{
    CallView, ToolBatchExecution, ToolBatchInfrastructureError, ToolInfrastructureError,
};
use crate::budget::{
    binding, bindings, bound_to, budget_of, buildable, construction_failure, BoundView, BudgetView,
};
use crate::config::{BackendConfigView, BuiltinTool};
use crate::direct::{
    adapted_item, all_adapted, backed_calls, search_count, searches_reserved, DirectStepView,
    DirectView,
};
use crate::e2b::{e2b_backend, SandboxHosts};
use crate::error::ErrorView;
use crate::http_backend::http_backend;
use crate::json::JsonView;
use crate::operations::{
    batch_complaint, operation_ended, operations_of, resolved, BackendOperation, OperationView,
};
use crate::output::ResultView;
use crate::registry::{
    by_internal, by_public, compiled, config_complaint, internal_name, remote_tool, with_options,
    with_schema, ConfigView, RegistryView, ToolView,
};
use crate::runner::{told_item, ManagedFormat};
use crate::schema;
use crate::telemetry::{
    Observation, Recorded, ToolBackendLabel, ToolRuntimeLimit, ToolRuntimeOutcome,
};
use crate::text;
use crate::time::{Duration, Instant};

verus! {

/// A backend that is found for a name is bound to it, and one is found where there is one.
pub proof fn a_bound_backend_is_found_by_its_name(backends: Seq<BoundView>, name: Seq<char>)
    ensures
        match bound_to(backends, name) {
            Some(bound) => bound.internal_name == name && backends.contains(bound),
            None => forall|i: int|
                0 <= i < backends.len() ==> (#[trigger] backends[i]).internal_name != name,
        },
    decreases backends.len(),
{
    if backends.len() > 0 {
        let rest = backends.drop_last();
        a_bound_backend_is_found_by_its_name(rest, name);
        if backends.last().internal_name == name {
            assert(backends[backends.len() - 1] == backends.last());
        } else if let Some(bound) = bound_to(rest, name) {
            let i = choose|i: int| 0 <= i < rest.len() && rest[i] == bound;
            assert(backends[i] == bound);
        } else {
            assert forall|i: int| 0 <= i < backends.len() implies (
            #[trigger] backends[i]).internal_name != name by {
                if i < rest.len() {
                    assert(rest[i] == backends[i]);
                }
            }
        }
    }
}

/// Whether an operation is one that carries out a call of it: the backend is the one that is bound to
/// the tool of the call, or a sandbox like it, and the call is counted under the name of the tool, or
/// for one of a remote server under the name that all of them share.
pub open spec fn carried_out_by(
    registry: RegistryView,
    backends: Seq<BoundView>,
    operation: OperationView,
    k: int,
) -> bool {
    let call = operation.calls[k];
    exists|tool: ToolView, bound: BoundView|
        {
            &&& #[trigger] registry.tools.contains(tool)
            &&& #[trigger] backends.contains(bound)
            &&& tool.internal_name == call.call.internal_name
            &&& bound.internal_name == call.call.internal_name
            &&& bound.label == operation.backend.label
            &&& bound.label != ToolBackendLabel::E2b || k == 0 ==> bound == operation.backend
            &&& bound.label == ToolBackendLabel::RemoteMcp ==> call.tool == "remote_mcp"@
            &&& bound.label != ToolBackendLabel::RemoteMcp ==> call.tool == tool.public_name
        }
}

/// Whether all calls of operations are carried out by what is bound for them.
pub open spec fn all_carried_out(
    registry: RegistryView,
    backends: Seq<BoundView>,
    operations: Seq<OperationView>,
) -> bool {
    forall|o: int, k: int|
        #![trigger operations[o].calls[k]]
        0 <= o < operations.len() && 0 <= k < operations[o].calls.len() ==> carried_out_by(
            registry,
            backends,
            operations[o],
            k,
        )
}

/// Whether a tool is registered, and a backend bound, for a call.
pub open spec fn has_backend(
    registry: RegistryView,
    backends: Seq<BoundView>,
    call: CallView,
) -> bool {
    &&& exists|i: int|
        0 <= i < registry.tools.len() && (#[trigger] registry.tools[i]).internal_name
            == call.internal_name
    &&& exists|i: int|
        0 <= i < backends.len() && (#[trigger] backends[i]).internal_name == call.internal_name
}

/// Calls are carried out by the backends that are bound to their tools, and are refused only where
/// one of them has none.
pub proof fn calls_are_carried_out_by_their_backends(
    registry: RegistryView,
    backends: Seq<BoundView>,
    calls: Seq<CallView>,
    parallel: bool,
    execution_start: nat,
)
    ensures
        match operations_of(registry, backends, calls, parallel, execution_start) {
            Ok(operations) => {
                &&& all_carried_out(registry, backends, operations)
                &&& forall|i: int|
                    0 <= i < calls.len() ==> has_backend(registry, backends, #[trigger] calls[i])
                &&& forall|o: int|
                    0 <= o < operations.len() ==> (#[trigger] operations[o]).calls.len() > 0
            },
            Err(_) => exists|i: int|
                0 <= i < calls.len() && !has_backend(registry, backends, #[trigger] calls[i]),
        },
    decreases calls.len(),
{
    if calls.len() > 0 {
        let earlier = calls.drop_last();
        let last = calls.last();
        let n = calls.len() - 1;
        calls_are_carried_out_by_their_backends(
            registry,
            backends,
            earlier,
            parallel,
            execution_start,
        );
        crate::laws::calls::a_tool_is_found_by_its_internal_name(
            registry.tools,
            last.internal_name,
        );
        a_bound_backend_is_found_by_its_name(backends, last.internal_name);
        match operations_of(registry, backends, earlier, parallel, execution_start) {
            Err(_) => {
                let i = choose|i: int|
                    0 <= i < earlier.len() && !has_backend(
                        registry,
                        backends,
                        #[trigger] earlier[i],
                    );
                assert(calls[i] == earlier[i]);
            },
            Ok(before) => {
                match resolved(registry, backends, last, n as nat, execution_start) {
                    Err(_) => {
                        assert(!has_backend(registry, backends, calls[n]));
                    },
                    Ok((bound, call)) => {
                        let tool = by_internal(registry.tools, last.internal_name)->0;
                        let t = choose|t: int|
                            0 <= t < registry.tools.len() && registry.tools[t] == tool;
                        let b = choose|b: int| 0 <= b < backends.len() && backends[b] == bound;
                        assert(registry.tools[t].internal_name == last.internal_name);
                        assert(backends[b].internal_name == last.internal_name);
                        assert(has_backend(registry, backends, calls[n]));
                        let after = operations_of(
                            registry,
                            backends,
                            calls,
                            parallel,
                            execution_start,
                        )->Ok_0;
                        lemma_sandbox_found(before);
                        assert forall|o: int, k: int|
                            #![trigger after[o].calls[k]]
                            0 <= o < after.len() && 0 <= k
                                < after[o].calls.len() implies carried_out_by(
                            registry,
                            backends,
                            after[o],
                            k,
                        ) by {
                            if o < before.len() && k < before[o].calls.len() {
                                assert(after[o].calls[k] == before[o].calls[k]);
                                assert(after[o].backend == before[o].backend);
                                assert(carried_out_by(registry, backends, before[o], k));
                            } else {
                                assert(after[o].calls[k] == call);
                                assert(registry.tools.contains(tool));
                                assert(backends.contains(bound));
                                assert(o < before.len() ==> before[o].calls.len() > 0);
                            }
                        }
                        assert forall|i: int| 0 <= i < calls.len() implies has_backend(
                            registry,
                            backends,
                            #[trigger] calls[i],
                        ) by {
                            if i < n {
                                assert(earlier[i] == calls[i]);
                            }
                        }
                        assert forall|o: int| 0 <= o < after.len() implies (
                        #[trigger] after[o]).calls.len() > 0 by {
                            if o < before.len() {
                                assert(before[o].calls.len() > 0);
                            }
                        }
                    },
                }
            },
        }
    }
}

proof fn lemma_sandbox_found(operations: Seq<OperationView>)
    ensures
        match crate::operations::first_sandbox(operations) {
            Some(k) => 0 <= k < operations.len() && operations[k].backend.label
                == ToolBackendLabel::E2b,
            None => true,
        },
    decreases operations.len(),
{
    if operations.len() > 0 {
        lemma_sandbox_found(operations.drop_last());
    }
}

/// What an operation gives is told of each of its calls; where the backend failed, or gave results
/// for more or fewer calls than it was given, that is the failure of the batch.
pub proof fn a_failed_operation_fails_its_batch(
    before: Recorded,
    operation: BackendOperation,
    result: Result<ToolBatchExecution, ToolBatchInfrastructureError>,
    max: nat,
    now: Instant,
)
    ensures
        ({
            let outputs = operation_ended(before, operation, result, max, now).1;
            match result {
                Err(failure) => outputs matches Err(error) && error.infrastructure == Some(
                    failure.error,
                ) && error.message == failure.error.message_view() && error.limit is None
                    && !error.deadline_exceeded,
                Ok(batch) => batch.results@.len() != operation.calls@.len() ==> (
                outputs matches Err(error) && error.infrastructure == Some(
                    ToolInfrastructureError::Backend,
                )),
            }
        }),
{
}

/// A tool of a request is carried out by the server that brought it, any other by what it is
/// configured with.
pub proof fn a_tool_is_bound_to_its_backend(tools: Seq<ToolView>)
    ensures
        bindings(tools).len() == tools.len(),
        forall|i: int|
            0 <= i < tools.len() ==> {
                let bound = #[trigger] bindings(tools)[i];
                &&& bound.internal_name == tools[i].internal_name
                &&& tools[i].request_backend matches Some(brought) ==> bound.server == Some(
                    brought.server,
                ) && bound.label == brought.label
                &&& tools[i].request_backend is None ==> bound.server is None && (bound.label
                    == ToolBackendLabel::E2b || bound.label == ToolBackendLabel::Http) && (
                bound.label == ToolBackendLabel::E2b <==> (tools[i].backend matches Some(
                    BackendConfigView::E2b { api_url, domain, timeout, api_key },
                )))
            },
{
}

/// A budget begins with nothing used up, under the limits of the registry, with a backend for each of
/// its tools, and a sandbox for programs where one of them is a sandbox.
pub proof fn a_budget_is_what_the_registry_allows(registry: RegistryView, deadline: Instant)
    ensures
        ({
            let budget = budget_of(registry, deadline);
            &&& budget.deadline == deadline
            &&& budget.rounds == 0 && budget.tool_calls == 0 && budget.next_execution_index == 0
                && budget.program_sandbox_executions == 0
            &&& budget.max_rounds == registry.limits.max_rounds
            &&& budget.max_tool_calls == registry.limits.max_tool_calls
            &&& budget.max_parallel_tool_calls == registry.limits.max_parallel_tool_calls
            &&& budget.max_output_bytes == registry.limits.max_output_bytes
            &&& budget.request_id is None
            &&& budget.backends == bindings(registry.tools)
            &&& budget.program_sandbox <==> exists|i: int|
                0 <= i < budget.backends.len() && (#[trigger] budget.backends[i]).label
                    == ToolBackendLabel::E2b
            &&& budget.log.len() == 0
            &&& budget.wf()
        }),
{
    let budget = budget_of(registry, deadline);
    let bound = bindings(registry.tools);
    assert(forall|i: int|
        0 <= i < registry.tools.len() ==> bound[i] == #[trigger] binding(registry.tools[i]));
    if budget.program_sandbox {
        let j = choose|j: int|
            0 <= j < registry.tools.len() && (#[trigger] binding(registry.tools[j])).label
                == ToolBackendLabel::E2b;
        assert(bound[j].label == ToolBackendLabel::E2b);
    }
}

/// A round begins while there is time and the limit is not reached, and uses up one round and nothing
/// else.
pub proof fn a_round_uses_up_one_round(budget: BudgetView, now: Instant)
    ensures
        budget.round_complaint(now) is None <==> now.nanos < budget.deadline.nanos && budget.rounds
            < budget.max_rounds,
        budget.round_complaint(now) matches Some(error) ==> if now.nanos >= budget.deadline.nanos {
            error.deadline_exceeded && error.limit == Some(ToolRuntimeLimit::Deadline)
        } else {
            !error.deadline_exceeded && error.limit == Some(ToolRuntimeLimit::Rounds)
        },
        budget.round_complaint(now) is None ==> {
            let after = budget.round_begun(now);
            &&& after.rounds == budget.rounds + 1
            &&& after == (BudgetView {
                rounds: after.rounds,
                telemetry: after.telemetry,
                ..budget
            })
        },
{
}

/// Calls are taken while their number stays within the limit, and use up as many calls and as many
/// execution indices as there are; taking some and then more is taking all of them.
pub proof fn calls_use_up_their_number(budget: BudgetView, count: nat, more: nat)
    ensures
        budget.calls_complaint(count) is None <==> budget.tool_calls + count
            <= budget.max_tool_calls && budget.next_execution_index + count <= usize::MAX,
        budget.tool_calls + count > budget.max_tool_calls ==> (
        budget.calls_complaint(count) matches Some(error) && error.limit == Some(
            ToolRuntimeLimit::ToolCalls,
        ) && error.infrastructure is None),
        budget.calls_complaint(count) is None ==> {
            let after = budget.calls_reserved(count);
            &&& after.tool_calls == budget.tool_calls + count
            &&& after.next_execution_index == budget.next_execution_index + count
            &&& after == (BudgetView {
                tool_calls: after.tool_calls,
                next_execution_index: after.next_execution_index,
                ..budget
            })
        },
        budget.calls_complaint(count + more) is None ==> {
            &&& budget.calls_complaint(count) is None
            &&& budget.calls_reserved(count).calls_complaint(more) is None
            &&& budget.calls_reserved(count).calls_reserved(more) == budget.calls_reserved(
                count + more,
            )
        },
{
}

/// A program is run while there is a sandbox for it and time is left, and uses up one execution index
/// and no call of a tool.
pub proof fn a_program_uses_up_one_execution(budget: BudgetView, now: Instant)
    ensures
        budget.program_complaint(now) is None <==> budget.program_sandbox && now.nanos
            < budget.deadline.nanos && budget.next_execution_index < usize::MAX
            && budget.program_sandbox_executions < usize::MAX,
        budget.program_complaint(now) is None ==> {
            let after = budget.program_begun(now);
            &&& after.next_execution_index == budget.next_execution_index + 1
            &&& after.program_sandbox_executions == budget.program_sandbox_executions + 1
            &&& after == (BudgetView {
                next_execution_index: after.next_execution_index,
                program_sandbox_executions: after.program_sandbox_executions,
                telemetry: after.telemetry,
                log: after.log,
                ..budget
            })
        },
        budget.program_complaint(now) is Some ==> {
            let after = budget.program_refused(now);
            after == (BudgetView {
                next_execution_index: after.next_execution_index,
                log: after.log,
                ..budget
            })
        },
{
}

/// A limit that was reached is observed once, and nothing else is.
pub proof fn a_reached_limit_is_observed(budget: BudgetView, error: ErrorView)
    ensures
        budget.with_error(error) == (BudgetView {
            log: budget.with_error(error).log,
            ..budget
        }),
        match error.limit {
            Some(limit) => budget.with_error(error).log =~= budget.log + seq![
                Observation::Limit { limit },
            ],
            None => budget.with_error(error).log == budget.log,
        },
{
}

/// A round and a request are observed when they end, with how they ended, and only once.
pub proof fn an_end_is_observed_once(
    budget: BudgetView,
    outcome: ToolRuntimeOutcome,
    later: ToolRuntimeOutcome,
    duration: Duration,
)
    ensures
        !budget.telemetry.recorded_rounds.contains(budget.rounds) ==> budget.round_ended(
            outcome,
            duration,
        ).log =~= budget.log + seq![Observation::ModelRound { outcome, duration }],
        budget.round_ended(outcome, duration).round_ended(later, duration).log
            =~= budget.round_ended(outcome, duration).log,
        !budget.telemetry.request_recorded ==> budget.request_ended(outcome).log =~= budget.log
            + seq![Observation::Request { outcome }],
        budget.request_ended(outcome).request_ended(later).log =~= budget.request_ended(
            outcome,
        ).log,
{
}

/// What a batch is refused for leaves the budget with the calls used up that were within its limits,
/// and nothing else but what is observed.
pub proof fn a_batch_is_taken_where_nothing_stands_against_it(
    registry: RegistryView,
    calls: Seq<CallView>,
    parallel: bool,
    budget: BudgetView,
    now: Instant,
)
    requires
        crate::calls::sandbox_checked(registry, calls, parallel) is Ok,
        budget.tool_calls + calls.len() <= budget.max_tool_calls,
        budget.next_execution_index + calls.len() <= usize::MAX,
        now.nanos < budget.deadline.nanos,
        forall|i: int|
            0 <= i < calls.len() ==> has_backend(registry, budget.backends, #[trigger] calls[i]),
    ensures
        batch_complaint(registry, calls, parallel, budget, now) is None,
{
    calls_are_carried_out_by_their_backends(
        registry,
        budget.backends,
        calls,
        parallel,
        budget.next_execution_index as nat,
    );
}

/// A batch that is taken was allowed in each respect.
pub proof fn a_taken_batch_was_allowed(
    registry: RegistryView,
    calls: Seq<CallView>,
    parallel: bool,
    budget: BudgetView,
    now: Instant,
)
    requires
        batch_complaint(registry, calls, parallel, budget, now) is None,
    ensures
        crate::calls::sandbox_checked(registry, calls, parallel) is Ok,
        budget.tool_calls + calls.len() <= budget.max_tool_calls,
        calls.len() > 0 ==> now.nanos < budget.deadline.nanos,
        forall|i: int|
            0 <= i < calls.len() ==> has_backend(registry, budget.backends, #[trigger] calls[i]),
{
    calls_are_carried_out_by_their_backends(
        registry,
        budget.backends,
        calls,
        parallel,
        budget.next_execution_index as nat,
    );
}

/// A backend can be made of a tool that a server brought, and of what a tool is configured with where
/// that is a usable provider.
pub proof fn a_backend_is_made_of_the_configuration(tool: ToolView, max: usize, hosts: SandboxHosts)
    ensures
        tool.request_backend is Some ==> buildable(tool, max, hosts),
        tool.request_backend is None && tool.backend is None ==> !buildable(tool, max, hosts),
        tool.request_backend is None ==> match tool.backend {
            Some(BackendConfigView::Http { url, timeout, bearer_token }) => buildable(
                tool,
                max,
                hosts,
            ) <==> http_backend(url, timeout, bearer_token, max) is Some,
            Some(BackendConfigView::E2b { api_url, domain, timeout, api_key }) => buildable(
                tool,
                max,
                hosts,
            ) <==> e2b_backend(api_url, domain, timeout, api_key, max, hosts) is Some,
            None => true,
        },
        construction_failure(ToolInfrastructureError::Configuration).infrastructure == Some(
            ToolInfrastructureError::Configuration,
        ),
        forall|error: ToolInfrastructureError| #[trigger]
            construction_failure(error).infrastructure == Some(error),
{
}

/// Every tool of a configuration is registered, in its order, under the name that it was given, with
/// the backend that it was given; a built-in tool has a reserved name inside and takes one text.
pub proof fn a_configured_tool_is_registered_as_it_was_given(configs: Seq<ConfigView>, i: int)
    requires
        compiled(configs) is Ok,
        0 <= i < configs.len(),
    ensures
        ({
            let tools = compiled(configs)->Ok_0;
            &&& tools.len() == configs.len()
            &&& tools[i].public_name == configs[i].name
            &&& tools[i].backend == Some(configs[i].backend)
            &&& tools[i].request_backend is None
            &&& tools[i].trusted_options is None
            &&& configs[i].builtin is None ==> tools[i].internal_name == configs[i].name
                && tools[i].argument_schema is None
            &&& configs[i].builtin == Some(BuiltinTool::WebSearch) ==> tools[i].internal_name
                == "_agentgateway_web_search"@ && tools[i].argument_schema == Some(
                schema::one_string("query"@),
            )
            &&& configs[i].builtin == Some(BuiltinTool::CodeInterpreter)
                ==> tools[i].internal_name == "_agentgateway_code_interpreter"@
                && tools[i].argument_schema == Some(schema::one_string("code"@))
        }),
{
    crate::registry::a_configuration_registers_distinct_names(configs);
    assert(compiled(configs)->Ok_0[i] == crate::registry::registered(configs[i]));
}

/// Whether a tool of a configuration is one that can be had: with a name that is not reserved, and
/// carried out by what can carry out its kind.
pub open spec fn can_be_had(config: ConfigView) -> bool {
    &&& config.name.len() > 0
    &&& !text::has_prefix(config.name, "_agentgateway_"@)
    &&& config.builtin == Some(BuiltinTool::CodeInterpreter) <==> config.backend is E2b
    &&& config.builtin == Some(BuiltinTool::WebSearch) ==> schema::schema_compiles(
        schema::one_string("query"@),
    )
    &&& config.builtin == Some(BuiltinTool::CodeInterpreter) ==> schema::schema_compiles(
        schema::one_string("code"@),
    )
}

/// A configuration is taken just where each of its tools can be had, no two have the same name, and
/// no two are the same built-in tool.
pub proof fn a_configuration_is_taken_where_its_tools_can_be_had(configs: Seq<ConfigView>)
    ensures
        compiled(configs) is Ok <==> {
            &&& forall|i: int| 0 <= i < configs.len() ==> can_be_had(#[trigger] configs[i])
            &&& forall|i: int, j: int|
                0 <= i < j < configs.len() ==> (#[trigger] configs[i]).name != (
                #[trigger] configs[j]).name && (configs[i].builtin is Some ==> configs[i].builtin
                    != configs[j].builtin)
        },
    decreases configs.len(),
{
    let good = |some: Seq<ConfigView>|
        {
            &&& forall|i: int| 0 <= i < some.len() ==> can_be_had(#[trigger] some[i])
            &&& forall|i: int, j: int|
                0 <= i < j < some.len() ==> (#[trigger] some[i]).name != (
                #[trigger] some[j]).name && (some[i].builtin is Some ==> some[i].builtin
                    != some[j].builtin)
        };
    if configs.len() > 0 {
        let rest = configs.drop_last();
        let n = configs.len() - 1;
        let last = configs.last();
        a_configuration_is_taken_where_its_tools_can_be_had(rest);
        assert(forall|i: int| 0 <= i < n ==> rest[i] == #[trigger] configs[i]);
        if compiled(rest) is Ok {
            let tools = compiled(rest)->Ok_0;
            crate::registry::a_configuration_registers_distinct_names(rest);
            crate::registry::lemma_builtin_names();
            crate::laws::calls::a_tool_is_found_by_its_internal_name(tools, internal_name(last));
            a_tool_is_found_by_its_public_name(tools, last.name);
            assert(forall|i: int|
                0 <= i < n ==> (#[trigger] tools[i]) == crate::registry::registered(rest[i]));
            if good(configs) {
                if by_public(tools, last.name) is Some {
                    let t = by_public(tools, last.name)->0;
                    let i = choose|i: int| 0 <= i < tools.len() && tools[i] == t;
                    assert(configs[i].name == configs[n].name);
                }
                if last.builtin is Some && by_internal(tools, internal_name(last)) is Some {
                    let t = by_internal(tools, internal_name(last))->0;
                    let i = choose|i: int| 0 <= i < tools.len() && tools[i] == t;
                    assert(can_be_had(configs[i]));
                    assert(configs[i].name != configs[n].name);
                }
                assert(can_be_had(configs[n]));
                assert(config_complaint(tools, last) is None);
            } else if compiled(configs) is Ok {
                assert(good(rest));
                assert forall|i: int| 0 <= i < configs.len() implies can_be_had(
                    #[trigger] configs[i],
                ) by {
                    if i < n {
                        assert(can_be_had(rest[i]));
                    }
                }
                assert forall|i: int, j: int| 0 <= i < j < configs.len() implies (
                #[trigger] configs[i]).name != (#[trigger] configs[j]).name && (
                configs[i].builtin is Some ==> configs[i].builtin != configs[j].builtin) by {
                    if j < n {
                        assert(rest[i].name != rest[j].name);
                    } else {
                        assert(tools[i] == crate::registry::registered(rest[i]));
                        assert(tools[i].public_name != last.name);
                        if last.builtin is Some {
                            assert(tools[i].internal_name != internal_name(last));
                        }
                    }
                }
            }
        } else {
            assert(!good(rest));
            if good(configs) {
                assert forall|i: int| 0 <= i < rest.len() implies can_be_had(
                    #[trigger] rest[i],
                ) by {
                    assert(can_be_had(configs[i]));
                }
                assert forall|i: int, j: int| 0 <= i < j < rest.len() implies (
                #[trigger] rest[i]).name != (#[trigger] rest[j]).name && (
                rest[i].builtin is Some ==> rest[i].builtin != rest[j].builtin) by {
                    assert(configs[i].name != configs[j].name);
                }
            }
        }
    } else {
        assert(compiled(configs) is Ok);
    }
}

/// A tool that is found for a public name has it, and one is found where there is one.
pub proof fn a_tool_is_found_by_its_public_name(tools: Seq<ToolView>, name: Seq<char>)
    ensures
        match by_public(tools, name) {
            Some(tool) => tool.public_name == name && tools.contains(tool),
            None => forall|i: int|
                0 <= i < tools.len() ==> (#[trigger] tools[i]).public_name != name,
        },
    decreases tools.len(),
{
    if tools.len() > 0 {
        let rest = tools.drop_last();
        a_tool_is_found_by_its_public_name(rest, name);
        if tools.last().public_name == name {
            assert(tools[tools.len() - 1] == tools.last());
        } else if let Some(tool) = by_public(rest, name) {
            let i = choose|i: int| 0 <= i < rest.len() && rest[i] == tool;
            assert(tools[i] == tool);
        } else {
            assert forall|i: int| 0 <= i < tools.len() implies (#[trigger] tools[i]).public_name
                != name by {
                if i < rest.len() {
                    assert(rest[i] == tools[i]);
                }
            }
        }
    }
}

/// A name is resolved where a tool has it as its name both outside and inside.
pub proof fn a_name_is_resolved_where_a_function_has_it(registry: RegistryView, name: Seq<char>)
    requires
        crate::registry::names_are_distinct(registry.tools),
    ensures
        registry.resolves(name) <==> exists|i: int|
            0 <= i < registry.tools.len() && (#[trigger] registry.tools[i]).public_name == name
                && registry.tools[i].internal_name == name,
{
    a_tool_is_found_by_its_public_name(registry.tools, name);
    if let Some(tool) = by_public(registry.tools, name) {
        let i = choose|i: int| 0 <= i < registry.tools.len() && registry.tools[i] == tool;
        if exists|j: int|
            0 <= j < registry.tools.len() && (#[trigger] registry.tools[j]).public_name == name
                && registry.tools[j].internal_name == name {
            let j = choose|j: int|
                0 <= j < registry.tools.len() && (#[trigger] registry.tools[j]).public_name
                    == name && registry.tools[j].internal_name == name;
            if i < j {
                assert(registry.tools[i].public_name != registry.tools[j].public_name);
            } else if j < i {
                assert(registry.tools[j].public_name != registry.tools[i].public_name);
            }
        }
    }
}

/// What a request gives a tool is what the tool has then, and other tools and everything else of it
/// stay as they are.
pub proof fn a_tool_has_what_a_request_gave_it(
    tools: Seq<ToolView>,
    name: Seq<char>,
    given: JsonView,
    i: int,
)
    requires
        0 <= i < tools.len(),
    ensures
        with_options(tools, name, given).len() == tools.len(),
        with_schema(tools, name, given).len() == tools.len(),
        tools[i].internal_name == name ==> with_options(tools, name, given)[i] == (ToolView {
            trusted_options: Some(given),
            ..tools[i]
        }) && with_schema(tools, name, given)[i] == (ToolView {
            argument_schema: Some(given),
            ..tools[i]
        }),
        tools[i].internal_name != name ==> with_options(tools, name, given)[i] == tools[i]
            && with_schema(tools, name, given)[i] == tools[i],
{
}

/// A tool of a remote server is called by the server that has it, under its names, with its schema
/// and its options.
pub proof fn a_remote_tool_is_carried_out_by_its_server(
    internal: Seq<char>,
    public: Seq<char>,
    schema: JsonView,
    options: JsonView,
    server: usize,
)
    ensures
        ({
            let tool = remote_tool(internal, public, schema, options, server);
            &&& tool.public_name == public
            &&& tool.internal_name == internal
            &&& tool.argument_schema == Some(schema)
            &&& tool.trusted_options == Some(options)
            &&& binding(tool) == (BoundView {
                internal_name: internal,
                label: ToolBackendLabel::RemoteMcp,
                server: Some(server),
            })
        }),
{
}

/// Whether a call is a search of the tools of a request.
pub open spec fn is_search(call: CallView, search: Seq<char>) -> bool {
    call.internal_name == search
}

/// The calls of a batch are all calls that are no searches, in their order.
pub proof fn a_batch_holds_all_calls_but_the_searches(calls: Seq<CallView>, search: Seq<char>)
    ensures
        backed_calls(calls, search) =~= calls.filter(|call: CallView| !is_search(call, search)),
        search_count(calls, search) == calls.filter(
            |call: CallView| is_search(call, search),
        ).len(),
        search_count(calls, search) + backed_calls(calls, search).len() == calls.len(),
    decreases calls.len(),
{
    reveal(Seq::filter);
    if calls.len() > 0 {
        a_batch_holds_all_calls_but_the_searches(calls.drop_last(), search);
    }
}

/// A round without searches is carried out as one batch of all its calls; else its searches are made
/// first, one after another, each with the query of its call.
pub proof fn searches_are_made_with_their_queries(run: DirectView)
    requires
        run.wf(),
    ensures
        match run.step() {
            Ok(DirectStepView::Search { query }) => exists|i: int|
                {
                    &&& run.outputs.len() <= i < run.calls.len()
                    &&& is_search(#[trigger] run.calls[i], run.search)
                    &&& run.calls[i].arguments.get("query"@) == Some(JsonView::Text(query))
                    &&& forall|j: int|
                        run.outputs.len() <= j < i ==> !is_search(
                            #[trigger] run.calls[j],
                            run.search,
                        )
                },
            Ok(DirectStepView::Execute(calls)) => {
                &&& calls =~= run.calls.filter(|call: CallView| !is_search(call, run.search))
                &&& forall|j: int|
                    run.outputs.len() <= j < run.calls.len() ==> !is_search(
                        #[trigger] run.calls[j],
                        run.search,
                    )
            },
            Ok(DirectStepView::Answer(items)) => {
                &&& items.len() == run.calls.len() == run.outputs.len()
                &&& forall|i: int|
                    0 <= i < items.len() ==> run.outputs[i] == Some(#[trigger] items[i])
            },
            Err(error) => error == ErrorView::internal(),
        },
{
    crate::direct::lemma_next_search(run.calls, run.search, run.outputs.len());
    a_batch_holds_all_calls_but_the_searches(run.calls, run.search);
    let searched = run.calls.filter(|call: CallView| is_search(call, run.search));
    let n = run.next();
    if search_count(run.calls, run.search) == 0 {
        assert forall|j: int| 0 <= j < run.calls.len() implies !is_search(
            #[trigger] run.calls[j],
            run.search,
        ) by {
            if is_search(run.calls[j], run.search) {
                lemma_filter_holds(run.calls, |call: CallView| is_search(call, run.search), j);
            }
        }
        lemma_filter_all(run.calls, |call: CallView| !is_search(call, run.search));
    } else if n < run.calls.len() {
        assert(is_search(run.calls[n as int], run.search));
    } else if backed_calls(run.calls, run.search).len() == 0 {
        if run.outputs.len() < run.calls.len() {
            let j = run.outputs.len() as int;
            assert(!is_search(run.calls[j], run.search));
            lemma_filter_holds(run.calls, |call: CallView| !is_search(call, run.search), j);
        }
        assert forall|i: int| 0 <= i < run.outputs.len() implies (#[trigger] run.outputs[i])
            is Some by {
            if !is_search(run.calls[i], run.search) {
                lemma_filter_holds(run.calls, |call: CallView| !is_search(call, run.search), i);
            }
        }
    }
}

proof fn lemma_filter_holds(
    calls: Seq<CallView>,
    wanted: spec_fn(CallView) -> bool,
    i: int,
)
    requires
        0 <= i < calls.len(),
        wanted(calls[i]),
    ensures
        calls.filter(wanted).len() > 0,
    decreases calls.len(),
{
    reveal(Seq::filter);
    if i < calls.len() - 1 {
        lemma_filter_holds(calls.drop_last(), wanted, i);
    }
}

proof fn lemma_filter_all(calls: Seq<CallView>, wanted: spec_fn(CallView) -> bool)
    requires
        forall|j: int| 0 <= j < calls.len() ==> wanted(#[trigger] calls[j]),
    ensures
        calls.filter(wanted) =~= calls,
    decreases calls.len(),
{
    reveal(Seq::filter);
    if calls.len() > 0 {
        let rest = calls.drop_last();
        assert(forall|j: int| 0 <= j < rest.len() ==> calls[j] == #[trigger] rest[j]);
        lemma_filter_all(rest, wanted);
    }
}

/// What a search gave is told in the place of its call, as any result is told of its call, and what
/// was told before stays.
pub proof fn a_search_is_told_in_its_place(run: DirectView, result: ResultView)
    requires
        run.wf(),
        run.step() is Ok,
        run.step()->Ok_0 is Search,
    ensures
        match run.after_search(result) {
            Ok(after) => {
                let i = run.next() as int;
                &&& is_search(run.calls[i], run.search)
                &&& after.calls == run.calls
                &&& after.search == run.search && after.format == run.format && after.max
                    == run.max
                &&& after.wf()
                &&& after.outputs.len() == i + 1
                &&& after.outputs[i] is Some
                &&& told_item(run.format, run.calls[i].call_id, result, run.max) == Ok::<
                    JsonView,
                    ErrorView,
                >(after.outputs[i]->0)
                &&& forall|j: int|
                    0 <= j < run.outputs.len() ==> after.outputs[j] == #[trigger] run.outputs[j]
            },
            Err(error) => told_item(
                run.format,
                run.calls[run.next() as int].call_id,
                result,
                run.max,
            ) == Err::<JsonView, ErrorView>(error),
        },
{
    crate::direct::lemma_next_search(run.calls, run.search, run.outputs.len());
    if let Ok(after) = run.after_search(result) {
        assert forall|i: int| 0 <= i < after.outputs.len() implies ((
        #[trigger] after.outputs[i]) is Some <==> after.calls[i].internal_name
            == after.search) by {
            if i < run.outputs.len() {
                assert(run.outputs[i] is Some <==> run.calls[i].internal_name == run.search);
            }
        }
    }
}

/// What a batch gave is told as it is in a round of responses, and as results of tool uses in one of
/// messages, each in its place.
pub proof fn what_a_batch_gave_is_told_in_its_order(
    run: DirectView,
    executed: Seq<JsonView>,
    i: int,
)
    requires
        search_count(run.calls, run.search) == 0,
        0 <= i < executed.len(),
        run.after_batch(executed) is Ok,
    ensures
        run.after_batch(executed)->Ok_0.len() == executed.len(),
        run.format is Responses ==> run.after_batch(executed)->Ok_0[i] == executed[i],
        run.format is Messages ==> adapted_item(ManagedFormat::Messages, executed[i]) == Ok::<
            JsonView,
            ErrorView,
        >(run.after_batch(executed)->Ok_0[i]),
{
    lemma_adapted_in_place(run.format, executed, i);
}

proof fn lemma_adapted_in_place(format: ManagedFormat, outputs: Seq<JsonView>, k: int)
    requires
        all_adapted(format, outputs) is Ok,
        0 <= k < outputs.len(),
    ensures
        all_adapted(format, outputs)->Ok_0.len() == outputs.len(),
        adapted_item(format, outputs[k]) == Ok::<JsonView, ErrorView>(
            all_adapted(format, outputs)->Ok_0[k],
        ),
    decreases outputs.len(),
{
    reveal_with_fuel(all_adapted, 2);
    let rest = outputs.drop_last();
    if rest.len() > 0 {
        if k < rest.len() {
            lemma_adapted_in_place(format, rest, k);
            assert(rest[k] == outputs[k]);
        } else {
            lemma_adapted_in_place(format, rest, rest.len() - 1);
        }
    }
}

/// Searches are calls of tools too, and use up their number.
pub proof fn searches_use_up_calls(budget: BudgetView, searches: nat)
    ensures
        ({
            let (after, refused) = searches_reserved(budget, searches);
            &&& refused is None ==> after.tool_calls == budget.tool_calls + searches
                && after.next_execution_index == budget.next_execution_index + searches
            &&& refused is Some ==> after.tool_calls == budget.tool_calls && searches > 0
            &&& searches > 0 && budget.tool_calls + searches > budget.max_tool_calls
                ==> refused is Some
            &&& budget.tool_calls + searches <= budget.max_tool_calls
                && budget.next_execution_index + searches <= usize::MAX ==> refused is None
        }),
{
}

/// Whether all calls of an operation come before those of another.
pub open spec fn precedes(a: OperationView, b: OperationView) -> bool {
    forall|j: int, k: int|
        0 <= j < a.calls.len() && 0 <= k < b.calls.len() ==> (#[trigger] a.calls[j]).index < (
        #[trigger] b.calls[k]).index
}

/// Whether no call of a later operation comes before one of an earlier operation, and no two sandboxes
/// follow one another.
pub open spec fn in_sequence(operations: Seq<OperationView>) -> bool {
    &&& forall|a: int, b: int|
        0 <= a < b < operations.len() ==> #[trigger] precedes(operations[a], operations[b])
    &&& forall|a: int, b: int|
        0 <= a < b < operations.len() && b == a + 1 ==> !((
        #[trigger] operations[a]).backend.label == ToolBackendLabel::E2b && (
        #[trigger] operations[b]).backend.label == ToolBackendLabel::E2b)
}

/// Calls that may not run at the same time run in their order, where neighbours share a sandbox.
pub proof fn sequential_calls_run_in_their_order(
    registry: RegistryView,
    backends: Seq<BoundView>,
    calls: Seq<CallView>,
    execution_start: nat,
)
    ensures
        match operations_of(registry, backends, calls, false, execution_start) {
            Ok(operations) => in_sequence(operations),
            Err(_) => true,
        },
    decreases calls.len(),
{
    if calls.len() > 0 && operations_of(registry, backends, calls, false, execution_start) is Ok {
        let earlier = calls.drop_last();
        sequential_calls_run_in_their_order(registry, backends, earlier, execution_start);
        crate::operations::execution_indices_are_those_reserved(
            registry,
            backends,
            earlier,
            false,
            execution_start,
        );
        let before = operations_of(registry, backends, earlier, false, execution_start)->Ok_0;
        let n = earlier.len();
        let (bound, call) = resolved(
            registry,
            backends,
            calls.last(),
            n,
            execution_start,
        )->Ok_0;
        assert(call.index == n);
        assert(operations_of(registry, backends, calls, false, execution_start)
            == Ok::<Seq<OperationView>, ErrorView>(
            crate::operations::with_call(before, bound, call, false),
        ));
        lemma_next_in_sequence(before, bound, call, execution_start);
    }
}

proof fn lemma_precedes(
    before: Seq<OperationView>,
    a: int,
    call: crate::operations::IndexedView,
    first: nat,
)
    requires
        crate::operations::indexed_from(before, first, call.index),
        0 <= a < before.len(),
    ensures
        forall|j: int|
            0 <= j < before[a].calls.len() ==> (#[trigger] before[a].calls[j]).index < call.index,
{
}

proof fn lemma_next_in_sequence(
    before: Seq<OperationView>,
    bound: BoundView,
    call: crate::operations::IndexedView,
    first: nat,
)
    requires
        in_sequence(before),
        crate::operations::indexed_from(before, first, call.index),
    ensures
        in_sequence(crate::operations::with_call(before, bound, call, false)),
{
    let after = crate::operations::with_call(before, bound, call, false);
    let m = before.len() - 1;
    let joins = bound.label == ToolBackendLabel::E2b && before.len() > 0
        && before[m].backend.label == ToolBackendLabel::E2b;
    if joins {
        assert(after.len() == before.len());
        assert(after[m].calls == before[m].calls.push(call));
        assert(after[m].backend == before[m].backend);
    } else {
        assert(after == before.push(OperationView { backend: bound, calls: seq![call] }));
    }
    assert forall|a: int, b: int| 0 <= a < b < after.len() implies #[trigger] precedes(
        after[a],
        after[b],
    ) by {
        assert(after[a] == before[a]);
        if b < before.len() {
            assert(precedes(before[a], before[b]));
        }
        lemma_precedes(before, a, call, first);
        assert forall|j: int, k: int|
            0 <= j < after[a].calls.len() && 0 <= k < after[b].calls.len() implies (
        #[trigger] after[a].calls[j]).index < (#[trigger] after[b].calls[k]).index by {
            if b < before.len() && k < before[b].calls.len() {
                assert(after[b].calls[k] == before[b].calls[k]);
            } else {
                assert(after[b].calls[k] == call);
            }
        }
    }
    assert forall|a: int, b: int| 0 <= a < b < after.len() && b == a + 1 implies !((
    #[trigger] after[a]).backend.label == ToolBackendLabel::E2b && (
    #[trigger] after[b]).backend.label == ToolBackendLabel::E2b) by {
        assert(after[a].backend == before[a].backend);
        if b < before.len() {
            assert(after[b].backend == before[b].backend);
        }
    }
}

/// Calls that may run at the same time share one sandbox.
pub proof fn parallel_calls_share_one_sandbox(
    registry: RegistryView,
    backends: Seq<BoundView>,
    calls: Seq<CallView>,
    execution_start: nat,
)
    ensures
        match operations_of(registry, backends, calls, true, execution_start) {
            Ok(operations) => forall|a: int, b: int|
                0 <= a < b < operations.len() ==> !((#[trigger] operations[a]).backend.label
                    == ToolBackendLabel::E2b && (#[trigger] operations[b]).backend.label
                    == ToolBackendLabel::E2b),
            Err(_) => true,
        },
    decreases calls.len(),
{
    if calls.len() > 0 && operations_of(registry, backends, calls, true, execution_start) is Ok {
        let earlier = calls.drop_last();
        parallel_calls_share_one_sandbox(registry, backends, earlier, execution_start);
        let before = operations_of(registry, backends, earlier, true, execution_start)->Ok_0;
        let after = operations_of(registry, backends, calls, true, execution_start)->Ok_0;
        lemma_sandbox_found(before);
        lemma_no_sandbox(before);
        assert forall|a: int, b: int| 0 <= a < b < after.len() implies !((
        #[trigger] after[a]).backend.label == ToolBackendLabel::E2b && (
        #[trigger] after[b]).backend.label == ToolBackendLabel::E2b) by {
            assert(after[a].backend == before[a].backend);
            if b < before.len() {
                assert(after[b].backend == before[b].backend);
            }
        }
    }
}

proof fn lemma_no_sandbox(operations: Seq<OperationView>)
    ensures
        crate::operations::first_sandbox(operations) is None ==> forall|j: int|
            0 <= j < operations.len() ==> (#[trigger] operations[j]).backend.label
                != ToolBackendLabel::E2b,
    decreases operations.len(),
{
    if operations.len() > 0 {
        let earlier = operations.drop_last();
        lemma_no_sandbox(earlier);
        assert(forall|j: int| 0 <= j < earlier.len() ==> #[trigger] operations[j] == earlier[j]);
    }
}

} // verus!
