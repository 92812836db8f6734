//! What is observed of calls, rounds and sandboxes, and what is counted of it.

use vstd::prelude::*;
use vstd::string::*;
use crate::backend::{SandboxCleanupOutcome, SandboxOperationReport, ToolBatchMetadata};
use crate::operations::{answered_call, IndexedCall};
use crate::output::{model_output, ResultView};
use crate::table::entries_hold;
use crate::telemetry::{
    cleanup_outcome, metadata_recorded, reported, updates_of, MetricUpdate, Observation, Recorded,
    SandboxKey, SandboxOperation, SandboxOperationOutcome, StartedCall, TelemetryView,
    ToolBackendLabel, ToolExecutionOutcome, ToolExecutionRecord, ToolRuntimeLimit,
    ToolRuntimeOutcome,
};
use crate::time::{Duration, Instant};
use crate::error::ErrorView;

verus! {

/// Everything that is observed is counted once under its labels, what takes time with the time that
/// it took, and an output that was cut once more, under its tool.
pub proof fn an_observation_is_counted_under_its_labels(observation: Observation)
    ensures
        ({
            let updates = updates_of(observation);
            match observation {
                Observation::ModelRound { outcome, duration } => updates.len() == 2 && (
                updates[0] matches MetricUpdate::ModelRounds(labels) && labels.outcome == outcome)
                    && updates[1] == MetricUpdate::ModelRoundDuration(duration),
                Observation::Transition { record } => updates.len() == 1 && (
                updates[0] matches MetricUpdate::Calls(labels) && labels.tool == record.tool
                    && labels.backend == record.backend && labels.outcome == record.outcome),
                Observation::Call { record, truncated, duration } => {
                    &&& updates.len() == if truncated {
                        3int
                    } else {
                        2
                    }
                    &&& updates[0] matches MetricUpdate::Calls(labels) && labels.tool
                        == record.tool && labels.backend == record.backend && labels.outcome
                        == record.outcome
                    &&& updates[1] matches MetricUpdate::CallDuration(labels, taken) && labels.tool
                        == record.tool && labels.backend == record.backend && taken == duration
                    &&& truncated ==> (updates[2] matches MetricUpdate::OutputTruncations(labels)
                        && labels.tool == record.tool)
                },
                Observation::Limit { limit } => updates.len() == 1 && (
                updates[0] matches MetricUpdate::LimitExhaustions(labels) && labels.limit
                    == limit),
                Observation::Request { outcome } => updates.len() == 1 && (
                updates[0] matches MetricUpdate::Requests(labels) && labels.outcome == outcome),
                Observation::Sandbox { operation, outcome, duration } => updates.len() == 2 && (
                updates[0] matches MetricUpdate::SandboxOperations(labels) && labels.operation
                    == operation && labels.outcome == outcome) && (
                updates[1] matches MetricUpdate::SandboxOperationDuration(labels, taken)
                    && labels.operation == operation && taken == duration),
            }
        }),
{
}

/// No two labels of a kind share a name.
pub proof fn labels_have_names_of_their_own()
    ensures
        forall|a: ToolBackendLabel, b: ToolBackendLabel|
            #![trigger a.name(), b.name()]
            a.name() == b.name() ==> a == b,
        forall|a: ToolExecutionOutcome, b: ToolExecutionOutcome|
            #![trigger a.name(), b.name()]
            a.name() == b.name() ==> a == b,
        forall|a: ToolRuntimeOutcome, b: ToolRuntimeOutcome|
            #![trigger a.name(), b.name()]
            a.name() == b.name() ==> a == b,
        forall|a: SandboxOperation, b: SandboxOperation|
            #![trigger a.name(), b.name()]
            a.name() == b.name() ==> a == b,
        forall|a: SandboxOperationOutcome, b: SandboxOperationOutcome|
            #![trigger a.name(), b.name()]
            a.name() == b.name() ==> a == b,
        forall|a: ToolRuntimeLimit, b: ToolRuntimeLimit|
            #![trigger a.name(), b.name()]
            a.name() == b.name() ==> a == b,
{
    lemma_label_names();
}

proof fn lemma_label_names()
    ensures
        forall|a: ToolBackendLabel, b: ToolBackendLabel|
            #![trigger a.name(), b.name()]
            a.name() == b.name() ==> a == b,
        forall|a: ToolExecutionOutcome, b: ToolExecutionOutcome|
            #![trigger a.name(), b.name()]
            a.name() == b.name() ==> a == b,
        forall|a: ToolRuntimeOutcome, b: ToolRuntimeOutcome|
            #![trigger a.name(), b.name()]
            a.name() == b.name() ==> a == b,
        forall|a: SandboxOperation, b: SandboxOperation|
            #![trigger a.name(), b.name()]
            a.name() == b.name() ==> a == b,
        forall|a: SandboxOperationOutcome, b: SandboxOperationOutcome|
            #![trigger a.name(), b.name()]
            a.name() == b.name() ==> a == b,
        forall|a: ToolRuntimeLimit, b: ToolRuntimeLimit|
            #![trigger a.name(), b.name()]
            a.name() == b.name() ==> a == b,
{
    reveal_strlit("application_error");
    reveal_strlit("arguments");
    reveal_strlit("cancelled");
    reveal_strlit("cleanup");
    reveal_strlit("create");
    reveal_strlit("deadline");
    reveal_strlit("e2b");
    reveal_strlit("execute");
    reveal_strlit("executing");
    reveal_strlit("failure");
    reveal_strlit("http");
    reveal_strlit("infrastructure_error");
    reveal_strlit("invalid_request");
    reveal_strlit("output");
    reveal_strlit("queued");
    reveal_strlit("remote_mcp");
    reveal_strlit("rounds");
    reveal_strlit("sandbox_batch");
    reveal_strlit("sandbox_call_id");
    reveal_strlit("sandbox_code");
    reveal_strlit("success");
    reveal_strlit("terminate");
    reveal_strlit("timeout");
    reveal_strlit("tool_calls");
    assert("application_error"@.len() != "cancelled"@.len());
    assert("application_error"@.len() != "executing"@.len());
    assert("application_error"@.len() != "infrastructure_error"@.len());
    assert("application_error"@.len() != "invalid_request"@.len());
    assert("application_error"@.len() != "queued"@.len());
    assert("application_error"@.len() != "success"@.len());
    assert("application_error"@.len() != "timeout"@.len());
    assert("arguments"@.len() != "deadline"@.len());
    assert("arguments"@.len() != "output"@.len());
    assert("arguments"@.len() != "rounds"@.len());
    assert("arguments"@.len() != "sandbox_batch"@.len());
    assert("arguments"@.len() != "sandbox_call_id"@.len());
    assert("arguments"@.len() != "sandbox_code"@.len());
    assert("arguments"@.len() != "tool_calls"@.len());
    assert("cancelled"@[0] != "executing"@[0]);
    assert("cancelled"@.len() != "failure"@.len());
    assert("cancelled"@.len() != "infrastructure_error"@.len());
    assert("cancelled"@.len() != "invalid_request"@.len());
    assert("cancelled"@.len() != "queued"@.len());
    assert("cancelled"@.len() != "success"@.len());
    assert("cancelled"@.len() != "timeout"@.len());
    assert("cleanup"@.len() != "create"@.len());
    assert("cleanup"@[0] != "execute"@[0]);
    assert("cleanup"@.len() != "terminate"@.len());
    assert("create"@.len() != "execute"@.len());
    assert("create"@.len() != "terminate"@.len());
    assert("deadline"@.len() != "output"@.len());
    assert("deadline"@.len() != "rounds"@.len());
    assert("deadline"@.len() != "sandbox_batch"@.len());
    assert("deadline"@.len() != "sandbox_call_id"@.len());
    assert("deadline"@.len() != "sandbox_code"@.len());
    assert("deadline"@.len() != "tool_calls"@.len());
    assert("e2b"@.len() != "http"@.len());
    assert("e2b"@.len() != "remote_mcp"@.len());
    assert("execute"@.len() != "terminate"@.len());
    assert("executing"@.len() != "infrastructure_error"@.len());
    assert("executing"@.len() != "queued"@.len());
    assert("executing"@.len() != "success"@.len());
    assert("executing"@.len() != "timeout"@.len());
    assert("failure"@[0] != "success"@[0]);
    assert("failure"@[0] != "timeout"@[0]);
    assert("http"@.len() != "remote_mcp"@.len());
    assert("infrastructure_error"@.len() != "invalid_request"@.len());
    assert("infrastructure_error"@.len() != "queued"@.len());
    assert("infrastructure_error"@.len() != "success"@.len());
    assert("infrastructure_error"@.len() != "timeout"@.len());
    assert("invalid_request"@.len() != "success"@.len());
    assert("invalid_request"@.len() != "timeout"@.len());
    assert("output"@[0] != "rounds"@[0]);
    assert("output"@.len() != "sandbox_batch"@.len());
    assert("output"@.len() != "sandbox_call_id"@.len());
    assert("output"@.len() != "sandbox_code"@.len());
    assert("output"@.len() != "tool_calls"@.len());
    assert("queued"@.len() != "success"@.len());
    assert("queued"@.len() != "timeout"@.len());
    assert("rounds"@.len() != "sandbox_batch"@.len());
    assert("rounds"@.len() != "sandbox_call_id"@.len());
    assert("rounds"@.len() != "sandbox_code"@.len());
    assert("rounds"@.len() != "tool_calls"@.len());
    assert("sandbox_batch"@.len() != "sandbox_call_id"@.len());
    assert("sandbox_batch"@.len() != "sandbox_code"@.len());
    assert("sandbox_batch"@.len() != "tool_calls"@.len());
    assert("sandbox_call_id"@.len() != "sandbox_code"@.len());
    assert("sandbox_call_id"@.len() != "tool_calls"@.len());
    assert("sandbox_code"@.len() != "tool_calls"@.len());
    assert("success"@[0] != "timeout"@[0]);
}

/// A call that is new is timed from when it was queued until it was answered, whenever it began to
/// run, and is observed as what it was and how it ended.
pub proof fn a_call_is_timed_from_when_it_was_queued(
    before: TelemetryView,
    index: usize,
    tool: String,
    backend: ToolBackendLabel,
    record: ToolExecutionRecord,
    truncated: bool,
    queued: Instant,
    now: Instant,
)
    requires
        !before.records.dom().contains(index),
        !before.started_calls.dom().contains(index),
        queued.nanos <= now.nanos,
    ensures
        ({
            let waiting = before.call_started(index, tool, backend, queued);
            let running = waiting.call_executing(index);
            &&& waiting.call_waits(index)
            &&& !running.call_waits(index)
            &&& waiting.started_calls[index].tool == tool
            &&& waiting.started_calls[index].backend == backend
            &&& running.started_calls[index].tool == tool
            &&& running.started_calls[index].backend == backend
            &&& waiting.call_started(index, tool, backend, now) == waiting
            &&& running.call_executing(index) == running
            &&& running.call_observed(index, record, truncated, now) =~= seq![
                Observation::Call {
                    record,
                    truncated,
                    duration: Duration { nanos: (now.nanos - queued.nanos) as u64 },
                },
            ]
            &&& waiting.call_observed(index, record, truncated, now) =~= running.call_observed(
                index,
                record,
                truncated,
                now,
            )
            &&& running.call_recorded(index, record).records[index] == record
            &&& running.call_recorded(index, record).records.dom().contains(index)
            &&& !running.call_recorded(index, record).started_calls.dom().contains(index)
        }),
{
}

/// What is done to one call of a request leaves what is known of the others.
pub proof fn other_calls_are_left_alone(
    before: TelemetryView,
    index: usize,
    other: usize,
    tool: String,
    backend: ToolBackendLabel,
    record: ToolExecutionRecord,
    now: Instant,
)
    requires
        index != other,
    ensures
        forall|after: TelemetryView|
            after == before.call_started(index, tool, backend, now) || after
                == before.call_executing(index) || after == before.call_recorded(index, record)
                ==> {
                &&& #[trigger] after.records.dom().contains(other) <==> before.records.dom().contains(
                    other,
                )
                &&& after.started_calls.dom().contains(other)
                    <==> before.started_calls.dom().contains(other)
                &&& before.records.dom().contains(other) ==> after.records[other]
                    == before.records[other]
                &&& before.started_calls.dom().contains(other) ==> after.started_calls[other]
                    == before.started_calls[other]
                &&& after.recorded_rounds == before.recorded_rounds
                &&& after.started_rounds == before.started_rounds
                &&& after.recorded_operations == before.recorded_operations
                &&& after.started_operations == before.started_operations
                &&& after.request_recorded == before.request_recorded
            },
{
}

/// A round is known from its begin until it is recorded, with the time at which it first began.
pub proof fn a_round_is_timed_from_its_begin(
    before: TelemetryView,
    round: usize,
    begun: Instant,
    later: Instant,
)
    requires
        !before.recorded_rounds.contains(round),
        !before.started_rounds.dom().contains(round),
    ensures
        ({
            let during = before.round_started(round, begun);
            let after = during.round_recorded(round);
            &&& during.started_rounds.dom().contains(round)
            &&& during.started_rounds[round] == begun
            &&& during.round_started(round, later) == during
            &&& after.recorded_rounds.contains(round)
            &&& !after.started_rounds.dom().contains(round)
            &&& after.round_started(round, later) == after
            &&& after.round_recorded(round) == after
            &&& after.started_rounds =~= before.started_rounds
            &&& after.recorded_rounds =~= before.recorded_rounds.insert(round)
            &&& after.records == before.records && after.started_calls == before.started_calls
                && after.recorded_operations == before.recorded_operations
                && after.started_operations == before.started_operations
        }),
{
}

/// A step of a sandbox takes the time that is reported of it, or else the time since it began, and is
/// observed once, with how it ended; one that must have begun and has not is not observed.
pub proof fn a_step_is_timed_from_its_begin(
    before: Recorded,
    execution_index: usize,
    operation: SandboxOperation,
    outcome: SandboxOperationOutcome,
    duration: Option<Duration>,
    must_have_started: bool,
    begun: Instant,
    now: Instant,
)
    requires
        !before.state.recorded_operations.contains(SandboxKey { execution_index, operation }),
        !before.state.started_operations.dom().contains(SandboxKey { execution_index, operation }),
        begun.nanos <= now.nanos,
    ensures
        ({
            let key = SandboxKey { execution_index, operation };
            let during = Recorded {
                state: before.state.operation_started(key, begun),
                log: before.log,
            };
            let after = during.ended(
                execution_index,
                operation,
                outcome,
                duration,
                must_have_started,
                now,
            );
            &&& during.state.started_operations.dom().contains(key)
            &&& during.state.started_operations[key] == begun
            &&& during.state.operation_started(key, now) == during.state
            &&& after.log =~= before.log + seq![
                Observation::Sandbox {
                    operation,
                    outcome,
                    duration: match duration {
                        Some(duration) => duration,
                        None => Duration { nanos: (now.nanos - begun.nanos) as u64 },
                    },
                },
            ]
            &&& after.state.recorded_operations.contains(key)
            &&& !after.state.started_operations.dom().contains(key)
            &&& before.ended(execution_index, operation, outcome, duration, true, now).log
                =~= before.log
            &&& before.ended(execution_index, operation, outcome, None, false, now).log
                =~= before.log + seq![
                Observation::Sandbox { operation, outcome, duration: Duration { nanos: 0 } },
            ]
            &&& during.state.operation_abandoned(key).started_operations
                =~= before.state.started_operations
        }),
{
}

/// How a provider says that a step ended is how it is observed, and how long it says that it took is
/// how long it is observed to have taken.
pub proof fn a_reported_step_is_observed_as_reported(
    before: Recorded,
    execution_index: usize,
    operation: SandboxOperation,
    report: SandboxOperationReport,
    fallback: Option<SandboxOperationOutcome>,
    now: Instant,
)
    requires
        !before.state.recorded_operations.contains(SandboxKey { execution_index, operation }),
    ensures
        ({
            let after = reported(before, execution_index, operation, Some(report), fallback, now);
            &&& after.log.len() == before.log.len() + 1
            &&& after.log.drop_last() =~= before.log
            &&& after.log.last() matches Observation::Sandbox {
                operation: seen,
                outcome,
                duration,
            } && seen == operation && duration == report.duration && (outcome
                == SandboxOperationOutcome::Success <==> report.outcome
                == SandboxCleanupOutcome::Success) && (outcome == SandboxOperationOutcome::Failure
                <==> report.outcome == SandboxCleanupOutcome::Failure)
        }),
        reported(before, execution_index, operation, None, None, now) == before,
{
}

/// All steps that a provider reports of a sandbox are observed, each as it was reported.
pub proof fn all_reported_steps_are_observed(
    before: Recorded,
    execution_index: usize,
    create: SandboxOperationReport,
    execute: SandboxOperationReport,
    terminate: SandboxOperationReport,
    cleanup: SandboxCleanupOutcome,
    cleanup_duration: Duration,
    fallback: Option<SandboxOperationOutcome>,
    now: Instant,
)
    requires
        forall|key: SandboxKey|
            key.execution_index == execution_index
                ==> !#[trigger] before.state.recorded_operations.contains(key),
    ensures
        ({
            let metadata = ToolBatchMetadata {
                sandbox_create: Some(create),
                sandbox_execute: Some(execute),
                sandbox_terminate: Some(terminate),
                sandbox_cleanup: Some(cleanup),
                sandbox_cleanup_duration: Some(cleanup_duration),
            };
            let log = metadata_recorded(before, execution_index, metadata, fallback, now).log;
            let seen = |operation: SandboxOperation, outcome: SandboxCleanupOutcome, duration|
                Observation::Sandbox { operation, outcome: cleanup_outcome(outcome), duration };
            log =~= before.log + seq![
                seen(SandboxOperation::Create, create.outcome, create.duration),
                seen(SandboxOperation::Execute, execute.outcome, execute.duration),
                seen(SandboxOperation::Terminate, terminate.outcome, terminate.duration),
                seen(SandboxOperation::Cleanup, cleanup, cleanup_duration),
            ]
        }),
        cleanup_outcome(SandboxCleanupOutcome::Success) == SandboxOperationOutcome::Success,
        cleanup_outcome(SandboxCleanupOutcome::Failure) == SandboxOperationOutcome::Failure,
{
    assert(!before.state.recorded_operations.contains(
        SandboxKey { execution_index, operation: SandboxOperation::Create },
    ));
    assert(!before.state.recorded_operations.contains(
        SandboxKey { execution_index, operation: SandboxOperation::Execute },
    ));
    assert(!before.state.recorded_operations.contains(
        SandboxKey { execution_index, operation: SandboxOperation::Terminate },
    ));
    assert(!before.state.recorded_operations.contains(
        SandboxKey { execution_index, operation: SandboxOperation::Cleanup },
    ));
}

/// A request that is dropped ends everything that it had begun, as cancelled, and loses nothing that
/// was recorded.
pub proof fn a_dropped_request_ends_all_that_it_began(before: TelemetryView)
    ensures
        ({
            let after = before.all_ended();
            &&& after.started_calls.dom() =~= Set::empty()
            &&& after.started_rounds.dom() =~= Set::empty()
            &&& after.started_operations.dom() =~= Set::empty()
            &&& forall|k: usize| #[trigger]
                after.records.dom().contains(k) <==> before.records.dom().contains(k)
                    || before.started_calls.dom().contains(k)
            &&& forall|k: usize|
                before.started_calls.dom().contains(k) ==> (#[trigger] after.records[k]).outcome
                    == ToolExecutionOutcome::Cancelled && after.records[k].tool
                    == before.started_calls[k].tool && after.records[k].backend
                    == before.started_calls[k].backend
            &&& forall|k: usize|
                before.records.dom().contains(k) && !before.started_calls.dom().contains(k)
                    ==> #[trigger] after.records[k] == before.records[k]
            &&& forall|k: usize| #[trigger]
                after.recorded_rounds.contains(k) <==> before.recorded_rounds.contains(k)
                    || before.started_rounds.dom().contains(k)
            &&& forall|k: SandboxKey| #[trigger]
                after.recorded_operations.contains(k) <==> before.recorded_operations.contains(k)
                    || before.started_operations.dom().contains(k)
        }),
{
}

/// Whether an observation tells that something was cancelled.
pub open spec fn tells_cancelled(observation: Observation) -> bool {
    match observation {
        Observation::ModelRound { outcome, duration } => outcome == ToolRuntimeOutcome::Cancelled,
        Observation::Call { record, truncated, duration } => record.outcome
            == ToolExecutionOutcome::Cancelled && !truncated,
        Observation::Sandbox { operation, outcome, duration } => outcome
            == SandboxOperationOutcome::Cancelled,
        _ => false,
    }
}

/// Of a dropped request everything that it had begun is observed, as cancelled, after the time that
/// it took, and nothing else is.
pub proof fn all_that_was_begun_is_observed_as_cancelled(
    before: TelemetryView,
    now: Instant,
    seen: Seq<Observation>,
)
    requires
        before.all_cancelled(now, seen),
    ensures
        forall|i: int| 0 <= i < seen.len() ==> tells_cancelled(#[trigger] seen[i]),
        forall|k: usize|
            #[trigger] before.started_calls.dom().contains(k) && before.started_calls[k].started.nanos
                <= now.nanos ==> {
                let begun = before.started_calls[k];
                seen.contains(
                    Observation::Call {
                        record: ToolExecutionRecord {
                            tool: begun.tool,
                            backend: begun.backend,
                            outcome: ToolExecutionOutcome::Cancelled,
                        },
                        truncated: false,
                        duration: Duration { nanos: (now.nanos - begun.started.nanos) as u64 },
                    },
                )
            },
        forall|k: usize|
            #[trigger] before.started_rounds.dom().contains(k) && before.started_rounds[k].nanos
                <= now.nanos ==> seen.contains(
                Observation::ModelRound {
                    outcome: ToolRuntimeOutcome::Cancelled,
                    duration: Duration {
                        nanos: (now.nanos - before.started_rounds[k].nanos) as u64,
                    },
                },
            ),
        forall|k: SandboxKey|
            #[trigger] before.started_operations.dom().contains(k)
                && before.started_operations[k].nanos <= now.nanos ==> seen.contains(
                Observation::Sandbox {
                    operation: k.operation,
                    outcome: SandboxOperationOutcome::Cancelled,
                    duration: Duration {
                        nanos: (now.nanos - before.started_operations[k].nanos) as u64,
                    },
                },
            ),
{
    let (rounds, calls, operations) = choose|
        rounds: Seq<(usize, Instant)>,
        calls: Seq<(usize, StartedCall)>,
        operations: Seq<(SandboxKey, Instant)>,
    |
        {
            &&& #[trigger] entries_hold(rounds, before.started_rounds)
            &&& #[trigger] entries_hold(calls, before.started_calls)
            &&& #[trigger] entries_hold(operations, before.started_operations)
            &&& seen == crate::telemetry::cancelled_rounds(rounds, now)
                + crate::telemetry::cancelled_calls(calls, now)
                + crate::telemetry::cancelled_operations(operations, now)
        };
    let r = rounds.len() as int;
    let c = calls.len() as int;
    assert forall|k: usize|
        #[trigger] before.started_calls.dom().contains(k) && before.started_calls[k].started.nanos
            <= now.nanos implies {
        let begun = before.started_calls[k];
        seen.contains(
            Observation::Call {
                record: ToolExecutionRecord {
                    tool: begun.tool,
                    backend: begun.backend,
                    outcome: ToolExecutionOutcome::Cancelled,
                },
                truncated: false,
                duration: Duration { nanos: (now.nanos - begun.started.nanos) as u64 },
            },
        )
    } by {
        let i = choose|i: int| 0 <= i < calls.len() && (#[trigger] calls[i]).0 == k;
        assert(before.started_calls[calls[i].0] == calls[i].1);
        assert(seen[r + i] == crate::telemetry::cancelled_calls(calls, now)[i]);
    }
    assert forall|k: usize|
        #[trigger] before.started_rounds.dom().contains(k) && before.started_rounds[k].nanos
            <= now.nanos implies seen.contains(
        Observation::ModelRound {
            outcome: ToolRuntimeOutcome::Cancelled,
            duration: Duration { nanos: (now.nanos - before.started_rounds[k].nanos) as u64 },
        },
    ) by {
        let i = choose|i: int| 0 <= i < rounds.len() && (#[trigger] rounds[i]).0 == k;
        assert(before.started_rounds[rounds[i].0] == rounds[i].1);
        assert(seen[i] == crate::telemetry::cancelled_rounds(rounds, now)[i]);
    }
    assert forall|k: SandboxKey|
        #[trigger] before.started_operations.dom().contains(k) && before.started_operations[k].nanos
            <= now.nanos implies seen.contains(
        Observation::Sandbox {
            operation: k.operation,
            outcome: SandboxOperationOutcome::Cancelled,
            duration: Duration { nanos: (now.nanos - before.started_operations[k].nanos) as u64 },
        },
    ) by {
        let i = choose|i: int| 0 <= i < operations.len() && (#[trigger] operations[i]).0 == k;
        assert(before.started_operations[operations[i].0] == operations[i].1);
        assert(seen[r + c + i] == crate::telemetry::cancelled_operations(operations, now)[i]);
    }
}

/// An answered call is observed as what it was: with its tool and its backend, as a failure of the
/// tool where that is what it gave, and as cut where what is told says so.
pub proof fn an_answered_call_is_observed_as_it_was_answered(
    before: Recorded,
    call: IndexedCall,
    result: ResultView,
    label: ToolBackendLabel,
    max: nat,
    now: Instant,
)
    requires
        !before.state.records.dom().contains(call.execution_index),
    ensures
        ({
            let (after, output) = answered_call(before, call, result, label, max, now);
            match output {
                Ok(output) => {
                    &&& model_output(result, max) is Ok
                    &&& output.index == call.index
                    &&& after.log.len() == before.log.len() + 1
                    &&& after.log.drop_last() =~= before.log
                    &&& after.log.last() matches Observation::Call { record, truncated, duration }
                        && record.tool == call.tool && record.backend == label && (record.outcome
                        == ToolExecutionOutcome::ApplicationError
                        <==> result is ApplicationError) && (record.outcome
                        == ToolExecutionOutcome::Success <==> !(result is ApplicationError)) && (
                    truncated <==> model_output(result, max)->Ok_0.get("truncated"@) == Some(
                        crate::json::JsonView::Bool(true),
                    ))
                    &&& after.state.records.dom().contains(call.execution_index)
                },
                Err(error) => after == before && model_output(result, max) == Err::<
                    crate::json::JsonView,
                    ErrorView,
                >(error),
            }
        }),
{
}

/// Once calls have ended, each is recorded: with how they ended, or as it was recorded before.
pub proof fn ended_calls_are_all_recorded(
    before: Recorded,
    calls: Seq<IndexedCall>,
    label: ToolBackendLabel,
    outcome: ToolExecutionOutcome,
    now: Instant,
)
    ensures
        ({
            let after = before.calls_ended(calls, label, outcome, now).state;
            &&& forall|i: int|
                0 <= i < calls.len() ==> after.records.dom().contains(
                    (#[trigger] calls[i]).execution_index,
                )
            &&& forall|k: usize|
                before.state.records.dom().contains(k) ==> #[trigger] after.records.dom().contains(
                    k,
                ) && after.records[k] == before.state.records[k]
            &&& forall|k: usize|
                #[trigger] after.records.dom().contains(k) && !before.state.records.dom().contains(k)
                    ==> after.records[k].outcome == outcome && after.records[k].backend == label
                    && exists|i: int|
                    0 <= i < calls.len() && (#[trigger] calls[i]).execution_index == k
                        && calls[i].tool == after.records[k].tool
        }),
    decreases calls.len(),
{
    if calls.len() > 0 {
        let rest = calls.drop_last();
        let n = calls.len() - 1;
        ended_calls_are_all_recorded(before, rest, label, outcome, now);
        let middle = before.calls_ended(rest, label, outcome, now).state;
        let after = before.calls_ended(calls, label, outcome, now).state;
        assert forall|i: int| 0 <= i < calls.len() implies after.records.dom().contains(
            (#[trigger] calls[i]).execution_index,
        ) by {
            if i < n {
                assert(rest[i] == calls[i]);
                assert(middle.records.dom().contains(rest[i].execution_index));
            }
        }
        assert forall|k: usize|
            before.state.records.dom().contains(k) implies #[trigger] after.records.dom().contains(
            k,
        ) && after.records[k] == before.state.records[k] by {
            assert(middle.records.dom().contains(k));
        }
        assert forall|k: usize|
            #[trigger] after.records.dom().contains(k) && !before.state.records.dom().contains(
                k,
            ) implies after.records[k].outcome == outcome && after.records[k].backend == label
            && exists|i: int|
            0 <= i < calls.len() && (#[trigger] calls[i]).execution_index == k && calls[i].tool
                == after.records[k].tool by {
            if middle.records.dom().contains(k) {
                let i = choose|i: int|
                    0 <= i < rest.len() && (#[trigger] rest[i]).execution_index == k
                        && rest[i].tool == middle.records[k].tool;
                assert(calls[i] == rest[i]);
            } else {
                assert(calls[n].execution_index == k);
            }
        }
    }
}

} // verus!
