//! What is observed of a managed request: closed sets of labels and one record of each event.

use vstd::prelude::*;
use vstd::string::*;
use crate::backend::{
    SandboxCleanupOutcome, SandboxOperationReport, ToolBatchMetadata,
};
use crate::table::{entries_hold, Key, Table};
use crate::time::{saturated, Duration, Instant};

verus! {

/// Which kind of backend ran a call.
#[derive(Clone, Copy, Debug, Hash, PartialEq, Eq, Structural)]
pub enum ToolBackendLabel {
    Http,
    E2b,
    RemoteMcp,
}

impl ToolBackendLabel {
    /// The name of the label.
    pub open spec fn name(self) -> Seq<char> {
        match self {
            ToolBackendLabel::Http => "http"@,
            ToolBackendLabel::E2b => "e2b"@,
            ToolBackendLabel::RemoteMcp => "remote_mcp"@,
        }
    }

    pub fn as_str(self) -> (r: &'static str)
        ensures
            r@ == self.name(),
    {
        match self {
            ToolBackendLabel::Http => "http",
            ToolBackendLabel::E2b => "e2b",
            ToolBackendLabel::RemoteMcp => "remote_mcp",
        }
    }
}

/// How far a call has come.
#[derive(Clone, Copy, Debug, Hash, PartialEq, Eq, Structural)]
pub enum ToolExecutionOutcome {
    Queued,
    Executing,
    Success,
    ApplicationError,
    InfrastructureError,
    Timeout,
    Cancelled,
}

impl ToolExecutionOutcome {
    /// The name of the label.
    pub open spec fn name(self) -> Seq<char> {
        match self {
            ToolExecutionOutcome::Queued => "queued"@,
            ToolExecutionOutcome::Executing => "executing"@,
            ToolExecutionOutcome::Success => "success"@,
            ToolExecutionOutcome::ApplicationError => "application_error"@,
            ToolExecutionOutcome::InfrastructureError => "infrastructure_error"@,
            ToolExecutionOutcome::Timeout => "timeout"@,
            ToolExecutionOutcome::Cancelled => "cancelled"@,
        }
    }

    pub fn as_str(self) -> (r: &'static str)
        ensures
            r@ == self.name(),
    {
        match self {
            ToolExecutionOutcome::Queued => "queued",
            ToolExecutionOutcome::Executing => "executing",
            ToolExecutionOutcome::Success => "success",
            ToolExecutionOutcome::ApplicationError => "application_error",
            ToolExecutionOutcome::InfrastructureError => "infrastructure_error",
            ToolExecutionOutcome::Timeout => "timeout",
            ToolExecutionOutcome::Cancelled => "cancelled",
        }
    }
}

/// How a request or a model round ended.
#[derive(Clone, Copy, Debug, Hash, PartialEq, Eq, Structural)]
pub enum ToolRuntimeOutcome {
    Success,
    ApplicationError,
    InvalidRequest,
    InfrastructureError,
    Timeout,
    Cancelled,
}

impl ToolRuntimeOutcome {
    /// The name of the label.
    pub open spec fn name(self) -> Seq<char> {
        match self {
            ToolRuntimeOutcome::Success => "success"@,
            ToolRuntimeOutcome::ApplicationError => "application_error"@,
            ToolRuntimeOutcome::InvalidRequest => "invalid_request"@,
            ToolRuntimeOutcome::InfrastructureError => "infrastructure_error"@,
            ToolRuntimeOutcome::Timeout => "timeout"@,
            ToolRuntimeOutcome::Cancelled => "cancelled"@,
        }
    }

    pub fn as_str(self) -> (r: &'static str)
        ensures
            r@ == self.name(),
    {
        match self {
            ToolRuntimeOutcome::Success => "success",
            ToolRuntimeOutcome::ApplicationError => "application_error",
            ToolRuntimeOutcome::InvalidRequest => "invalid_request",
            ToolRuntimeOutcome::InfrastructureError => "infrastructure_error",
            ToolRuntimeOutcome::Timeout => "timeout",
            ToolRuntimeOutcome::Cancelled => "cancelled",
        }
    }
}

/// A step in the life of a sandbox.
#[derive(Clone, Copy, Debug, Hash, PartialEq, Eq, Structural)]
pub enum SandboxOperation {
    Create,
    Execute,
    Terminate,
    Cleanup,
}

impl SandboxOperation {
    /// The name of the label.
    pub open spec fn name(self) -> Seq<char> {
        match self {
            SandboxOperation::Create => "create"@,
            SandboxOperation::Execute => "execute"@,
            SandboxOperation::Terminate => "terminate"@,
            SandboxOperation::Cleanup => "cleanup"@,
        }
    }

    pub fn as_str(self) -> (r: &'static str)
        ensures
            r@ == self.name(),
    {
        match self {
            SandboxOperation::Create => "create",
            SandboxOperation::Execute => "execute",
            SandboxOperation::Terminate => "terminate",
            SandboxOperation::Cleanup => "cleanup",
        }
    }
}

/// A limit that a request can exhaust.
#[derive(Clone, Copy, Debug, Hash, PartialEq, Eq, Structural)]
pub enum ToolRuntimeLimit {
    Deadline,
    Rounds,
    ToolCalls,
    Arguments,
    Output,
    SandboxBatch,
    SandboxCode,
    SandboxCallId,
}

impl ToolRuntimeLimit {
    /// The name of the label.
    pub open spec fn name(self) -> Seq<char> {
        match self {
            ToolRuntimeLimit::Deadline => "deadline"@,
            ToolRuntimeLimit::Rounds => "rounds"@,
            ToolRuntimeLimit::ToolCalls => "tool_calls"@,
            ToolRuntimeLimit::Arguments => "arguments"@,
            ToolRuntimeLimit::Output => "output"@,
            ToolRuntimeLimit::SandboxBatch => "sandbox_batch"@,
            ToolRuntimeLimit::SandboxCode => "sandbox_code"@,
            ToolRuntimeLimit::SandboxCallId => "sandbox_call_id"@,
        }
    }

    pub fn as_str(self) -> (r: &'static str)
        ensures
            r@ == self.name(),
    {
        match self {
            ToolRuntimeLimit::Deadline => "deadline",
            ToolRuntimeLimit::Rounds => "rounds",
            ToolRuntimeLimit::ToolCalls => "tool_calls",
            ToolRuntimeLimit::Arguments => "arguments",
            ToolRuntimeLimit::Output => "output",
            ToolRuntimeLimit::SandboxBatch => "sandbox_batch",
            ToolRuntimeLimit::SandboxCode => "sandbox_code",
            ToolRuntimeLimit::SandboxCallId => "sandbox_call_id",
        }
    }
}

/// How a step in the life of a sandbox ended.
#[derive(Clone, Copy, Debug, Hash, PartialEq, Eq, Structural)]
pub enum SandboxOperationOutcome {
    Success,
    Failure,
    Timeout,
    Cancelled,
}

impl SandboxOperationOutcome {
    /// The name of the label.
    pub open spec fn name(self) -> Seq<char> {
        match self {
            SandboxOperationOutcome::Success => "success"@,
            SandboxOperationOutcome::Failure => "failure"@,
            SandboxOperationOutcome::Timeout => "timeout"@,
            SandboxOperationOutcome::Cancelled => "cancelled"@,
        }
    }

    pub fn as_str(self) -> (r: &'static str)
        ensures
            r@ == self.name(),
    {
        match self {
            SandboxOperationOutcome::Success => "success",
            SandboxOperationOutcome::Failure => "failure",
            SandboxOperationOutcome::Timeout => "timeout",
            SandboxOperationOutcome::Cancelled => "cancelled",
        }
    }
}

#[derive(Clone, Debug, Hash, PartialEq, Eq)]
pub struct ToolRuntimeOutcomeLabels {
    pub outcome: ToolRuntimeOutcome,
}

#[derive(Clone, Debug, Hash, PartialEq, Eq)]
pub struct ToolCallLabels {
    pub tool: String,
    pub backend: ToolBackendLabel,
    pub outcome: ToolExecutionOutcome,
}

#[derive(Clone, Debug, Hash, PartialEq, Eq)]
pub struct ToolCallDurationLabels {
    pub tool: String,
    pub backend: ToolBackendLabel,
}

#[derive(Clone, Debug, Hash, PartialEq, Eq)]
pub struct SandboxOperationLabels {
    pub operation: SandboxOperation,
    pub outcome: SandboxOperationOutcome,
}

#[derive(Clone, Debug, Hash, PartialEq, Eq)]
pub struct SandboxOperationDurationLabels {
    pub operation: SandboxOperation,
}

#[derive(Clone, Debug, Hash, PartialEq, Eq)]
pub struct ToolRuntimeLimitLabels {
    pub limit: ToolRuntimeLimit,
}

#[derive(Clone, Debug, Hash, PartialEq, Eq)]
pub struct ToolLabels {
    pub tool: String,
}

/// Content-free execution observation. `tool` comes from operator configuration; model-controlled
/// call ids and arguments are absent.
#[derive(Debug, PartialEq, Eq)]
pub struct ToolExecutionRecord {
    pub tool: String,
    pub backend: ToolBackendLabel,
    pub outcome: ToolExecutionOutcome,
}

impl Clone for ToolExecutionRecord {
    fn clone(&self) -> (r: Self)
        ensures
            r == *self,
    {
        ToolExecutionRecord {
            tool: self.tool.clone(),
            backend: self.backend,
            outcome: self.outcome,
        }
    }
}

/// Something that happened once.
#[allow(inconsistent_fields)]
#[derive(Debug, PartialEq, Eq)]
pub enum Observation {
    ModelRound { outcome: ToolRuntimeOutcome, duration: Duration },
    Transition { record: ToolExecutionRecord },
    Call { record: ToolExecutionRecord, truncated: bool, duration: Duration },
    Limit { limit: ToolRuntimeLimit },
    Request { outcome: ToolRuntimeOutcome },
    Sandbox {
        operation: SandboxOperation,
        outcome: SandboxOperationOutcome,
        duration: Duration,
    },
}

/// One change of a metric.
#[derive(Debug, PartialEq, Eq)]
pub enum MetricUpdate {
    ModelRounds(ToolRuntimeOutcomeLabels),
    ModelRoundDuration(Duration),
    Calls(ToolCallLabels),
    CallDuration(ToolCallDurationLabels, Duration),
    OutputTruncations(ToolLabels),
    LimitExhaustions(ToolRuntimeLimitLabels),
    Requests(ToolRuntimeOutcomeLabels),
    SandboxOperations(SandboxOperationLabels),
    SandboxOperationDuration(SandboxOperationDurationLabels, Duration),
}

pub open spec fn call_labels(record: ToolExecutionRecord) -> MetricUpdate {
    MetricUpdate::Calls(
        ToolCallLabels { tool: record.tool, backend: record.backend, outcome: record.outcome },
    )
}

/// The changes that an observation makes to the metrics.
pub open spec fn updates_of(observation: Observation) -> Seq<MetricUpdate> {
    match observation {
        Observation::ModelRound { outcome, duration } => seq![
            MetricUpdate::ModelRounds(ToolRuntimeOutcomeLabels { outcome }),
            MetricUpdate::ModelRoundDuration(duration),
        ],
        Observation::Transition { record } => seq![call_labels(record)],
        Observation::Call { record, truncated, duration } => seq![
            call_labels(record),
            MetricUpdate::CallDuration(
                ToolCallDurationLabels { tool: record.tool, backend: record.backend },
                duration,
            ),
        ] + if truncated {
            seq![MetricUpdate::OutputTruncations(ToolLabels { tool: record.tool })]
        } else {
            Seq::empty()
        },
        Observation::Limit { limit } => seq![
            MetricUpdate::LimitExhaustions(ToolRuntimeLimitLabels { limit }),
        ],
        Observation::Request { outcome } => seq![
            MetricUpdate::Requests(ToolRuntimeOutcomeLabels { outcome }),
        ],
        Observation::Sandbox { operation, outcome, duration } => seq![
            MetricUpdate::SandboxOperations(SandboxOperationLabels { operation, outcome }),
            MetricUpdate::SandboxOperationDuration(
                SandboxOperationDurationLabels { operation },
                duration,
            ),
        ],
    }
}

impl Observation {
    /// The changes that the observation makes to the metrics.
    pub fn updates(&self) -> (r: Vec<MetricUpdate>)
        ensures
            r@ == updates_of(*self),
    {
        let mut r: Vec<MetricUpdate> = Vec::new();
        match self {
            Observation::ModelRound { outcome, duration } => {
                r.push(MetricUpdate::ModelRounds(ToolRuntimeOutcomeLabels { outcome: *outcome }));
                r.push(MetricUpdate::ModelRoundDuration(*duration));
            },
            Observation::Transition { record } => {
                r.push(
                    MetricUpdate::Calls(
                        ToolCallLabels {
                            tool: record.tool.clone(),
                            backend: record.backend,
                            outcome: record.outcome,
                        },
                    ),
                );
            },
            Observation::Call { record, truncated, duration } => {
                r.push(
                    MetricUpdate::Calls(
                        ToolCallLabels {
                            tool: record.tool.clone(),
                            backend: record.backend,
                            outcome: record.outcome,
                        },
                    ),
                );
                r.push(
                    MetricUpdate::CallDuration(
                        ToolCallDurationLabels {
                            tool: record.tool.clone(),
                            backend: record.backend,
                        },
                        *duration,
                    ),
                );
                if *truncated {
                    r.push(
                        MetricUpdate::OutputTruncations(ToolLabels { tool: record.tool.clone() }),
                    );
                }
            },
            Observation::Limit { limit } => {
                r.push(MetricUpdate::LimitExhaustions(ToolRuntimeLimitLabels { limit: *limit }));
            },
            Observation::Request { outcome } => {
                r.push(MetricUpdate::Requests(ToolRuntimeOutcomeLabels { outcome: *outcome }));
            },
            Observation::Sandbox { operation, outcome, duration } => {
                r.push(
                    MetricUpdate::SandboxOperations(
                        SandboxOperationLabels { operation: *operation, outcome: *outcome },
                    ),
                );
                r.push(
                    MetricUpdate::SandboxOperationDuration(
                        SandboxOperationDurationLabels { operation: *operation },
                        *duration,
                    ),
                );
            },
        }
        assert(r@ =~= updates_of(*self));
        r
    }
}

/// A call that has started and not ended.
pub struct StartedCall {
    pub started: Instant,
    pub tool: String,
    pub backend: ToolBackendLabel,
    pub executing: bool,
}

/// A step in the life of the sandbox of one execution.
#[derive(Clone, Copy, Debug, PartialEq, Eq, Structural)]
pub struct SandboxKey {
    pub execution_index: usize,
    pub operation: SandboxOperation,
}

impl Key for SandboxKey {
    fn same(&self, other: &Self) -> (r: bool) {
        *self == *other
    }
}

/// What has started and what has been recorded in one request.
pub struct ToolRuntimeTelemetry {
    records: Table<usize, ToolExecutionRecord>,
    started_calls: Table<usize, StartedCall>,
    recorded_rounds: Table<usize, ()>,
    started_rounds: Table<usize, Instant>,
    recorded_sandbox_operations: Table<SandboxKey, ()>,
    started_sandbox_operations: Table<SandboxKey, Instant>,
    request_recorded: bool,
}

pub struct TelemetryView {
    pub records: Map<usize, ToolExecutionRecord>,
    pub started_calls: Map<usize, StartedCall>,
    pub recorded_rounds: Set<usize>,
    pub started_rounds: Map<usize, Instant>,
    pub recorded_operations: Set<SandboxKey>,
    pub started_operations: Map<SandboxKey, Instant>,
    pub request_recorded: bool,
}

/// How long ago something started.
pub open spec fn elapsed(now: Instant, started: Instant) -> Duration {
    Duration { nanos: saturated(now.nanos - started.nanos) }
}

impl TelemetryView {
    /// Nothing that is recorded is still started.
    pub open spec fn consistent(self) -> bool {
        &&& self.records.dom().disjoint(self.started_calls.dom())
        &&& self.recorded_rounds.disjoint(self.started_rounds.dom())
        &&& self.recorded_operations.disjoint(self.started_operations.dom())
    }

    pub open spec fn none() -> TelemetryView {
        TelemetryView {
            records: Map::empty(),
            started_calls: Map::empty(),
            recorded_rounds: Set::empty(),
            started_rounds: Map::empty(),
            recorded_operations: Set::empty(),
            started_operations: Map::empty(),
            request_recorded: false,
        }
    }

    pub open spec fn round_started(self, round: usize, now: Instant) -> TelemetryView {
        if self.recorded_rounds.contains(round) || self.started_rounds.dom().contains(round) {
            self
        } else {
            TelemetryView { started_rounds: self.started_rounds.insert(round, now), ..self }
        }
    }

    pub open spec fn round_recorded(self, round: usize) -> TelemetryView {
        if self.recorded_rounds.contains(round) {
            self
        } else {
            TelemetryView {
                recorded_rounds: self.recorded_rounds.insert(round),
                started_rounds: self.started_rounds.remove(round),
                ..self
            }
        }
    }

    /// Whether a call may start.
    pub open spec fn call_is_new(self, index: usize) -> bool {
        !self.records.dom().contains(index) && !self.started_calls.dom().contains(index)
    }

    pub open spec fn call_started(
        self,
        index: usize,
        tool: String,
        backend: ToolBackendLabel,
        now: Instant,
    ) -> TelemetryView {
        if self.call_is_new(index) {
            TelemetryView {
                started_calls: self.started_calls.insert(
                    index,
                    StartedCall { started: now, tool, backend, executing: false },
                ),
                ..self
            }
        } else {
            self
        }
    }

    /// Whether a call waits to execute.
    pub open spec fn call_waits(self, index: usize) -> bool {
        self.started_calls.dom().contains(index) && !self.started_calls[index].executing
    }

    pub open spec fn call_executing(self, index: usize) -> TelemetryView {
        if self.call_waits(index) {
            TelemetryView {
                started_calls: self.started_calls.insert(
                    index,
                    StartedCall { executing: true, ..self.started_calls[index] },
                ),
                ..self
            }
        } else {
            self
        }
    }

    pub open spec fn call_recorded(self, index: usize, record: ToolExecutionRecord) -> TelemetryView {
        if self.records.dom().contains(index) {
            self
        } else {
            TelemetryView {
                records: self.records.insert(index, record),
                started_calls: self.started_calls.remove(index),
                ..self
            }
        }
    }

    pub open spec fn call_observed(
        self,
        index: usize,
        record: ToolExecutionRecord,
        truncated: bool,
        now: Instant,
    ) -> Seq<Observation> {
        if self.records.dom().contains(index) {
            Seq::empty()
        } else {
            seq![
                Observation::Call {
                    record,
                    truncated,
                    duration: if self.started_calls.dom().contains(index) {
                        elapsed(now, self.started_calls[index].started)
                    } else {
                        Duration { nanos: 0 }
                    },
                },
            ]
        }
    }

    pub open spec fn operation_started(self, key: SandboxKey, now: Instant) -> TelemetryView {
        if self.recorded_operations.contains(key) || self.started_operations.dom().contains(key) {
            self
        } else {
            TelemetryView {
                started_operations: self.started_operations.insert(key, now),
                ..self
            }
        }
    }

    /// Whether a step may end now.
    pub open spec fn operation_may_end(self, key: SandboxKey, must_have_started: bool) -> bool {
        !self.recorded_operations.contains(key) && (must_have_started
            ==> self.started_operations.dom().contains(key))
    }

    pub open spec fn operation_ended(self, key: SandboxKey, must_have_started: bool) -> TelemetryView {
        if self.operation_may_end(key, must_have_started) {
            TelemetryView {
                recorded_operations: self.recorded_operations.insert(key),
                started_operations: self.started_operations.remove(key),
                ..self
            }
        } else {
            self
        }
    }

    pub open spec fn operation_observed(
        self,
        key: SandboxKey,
        outcome: SandboxOperationOutcome,
        duration: Option<Duration>,
        must_have_started: bool,
        now: Instant,
    ) -> Seq<Observation> {
        if self.operation_may_end(key, must_have_started) {
            seq![
                Observation::Sandbox {
                    operation: key.operation,
                    outcome,
                    duration: match duration {
                        Some(duration) => duration,
                        None => if self.started_operations.dom().contains(key) {
                            elapsed(now, self.started_operations[key])
                        } else {
                            Duration { nanos: 0 }
                        },
                    },
                },
            ]
        } else {
            Seq::empty()
        }
    }

    pub open spec fn operation_abandoned(self, key: SandboxKey) -> TelemetryView {
        TelemetryView { started_operations: self.started_operations.remove(key), ..self }
    }
}

impl ToolRuntimeTelemetry {
    pub closed spec fn view(&self) -> TelemetryView {
        TelemetryView {
            records: self.records@,
            started_calls: self.started_calls@,
            recorded_rounds: self.recorded_rounds@.dom(),
            started_rounds: self.started_rounds@,
            recorded_operations: self.recorded_sandbox_operations@.dom(),
            started_operations: self.started_sandbox_operations@,
            request_recorded: self.request_recorded,
        }
    }

    pub fn new() -> (r: ToolRuntimeTelemetry)
        ensures
            r@ == TelemetryView::none(),
            r@.consistent(),
    {
        let r = ToolRuntimeTelemetry {
            records: Table::new(),
            started_calls: Table::new(),
            recorded_rounds: Table::new(),
            started_rounds: Table::new(),
            recorded_sandbox_operations: Table::new(),
            started_sandbox_operations: Table::new(),
            request_recorded: false,
        };
        assert(r@.recorded_rounds =~= Set::empty());
        assert(r@.recorded_operations =~= Set::empty());
        r
    }

    pub fn start_model_round(&mut self, round: usize, now: Instant)
        ensures
            final(self)@ == old(self)@.round_started(round, now),
            old(self)@.consistent() ==> final(self)@.consistent(),
    {
        if !self.recorded_rounds.contains_key(round) && !self.started_rounds.contains_key(round) {
            self.started_rounds.insert(round, now);
        }
    }

    pub fn record_model_round(
        &mut self,
        round: usize,
        outcome: ToolRuntimeOutcome,
        duration: Duration,
        log: &mut Vec<Observation>,
    )
        ensures
            final(self)@ == old(self)@.round_recorded(round),
            final(log)@ == old(log)@ + if old(self)@.recorded_rounds.contains(round) {
                Seq::empty()
            } else {
                seq![Observation::ModelRound { outcome, duration }]
            },
            old(self)@.consistent() ==> final(self)@.consistent(),
    {
        let ghost before = self@;
        if self.recorded_rounds.contains_key(round) {
            assert(log@ + Seq::empty() =~= log@);
            return ;
        }
        self.recorded_rounds.insert(round, ());
        let _ = self.started_rounds.remove(round);
        log.push(Observation::ModelRound { outcome, duration });
        assert(self@.recorded_rounds =~= before.recorded_rounds.insert(round));
    }

    pub fn start_call(
        &mut self,
        execution_index: usize,
        tool: &String,
        backend: ToolBackendLabel,
        now: Instant,
        log: &mut Vec<Observation>,
    )
        ensures
            final(self)@ == old(self)@.call_started(execution_index, *tool, backend, now),
            final(log)@ == old(log)@ + if old(self)@.call_is_new(execution_index) {
                seq![
                    Observation::Transition {
                        record: ToolExecutionRecord {
                            tool: *tool,
                            backend,
                            outcome: ToolExecutionOutcome::Queued,
                        },
                    },
                ]
            } else {
                Seq::empty()
            },
            old(self)@.consistent() ==> final(self)@.consistent(),
    {
        if self.records.contains_key(execution_index) || self.started_calls.contains_key(
            execution_index,
        ) {
            assert(log@ + Seq::empty() =~= log@);
            return ;
        }
        self.started_calls.insert(
            execution_index,
            StartedCall { started: now, tool: tool.clone(), backend, executing: false },
        );
        log.push(
            Observation::Transition {
                record: ToolExecutionRecord {
                    tool: tool.clone(),
                    backend,
                    outcome: ToolExecutionOutcome::Queued,
                },
            },
        );
    }

    pub fn mark_call_executing(&mut self, execution_index: usize, log: &mut Vec<Observation>)
        ensures
            final(self)@ == old(self)@.call_executing(execution_index),
            final(log)@ == old(log)@ + if old(self)@.call_waits(execution_index) {
                seq![
                    Observation::Transition {
                        record: ToolExecutionRecord {
                            tool: old(self)@.started_calls[execution_index].tool,
                            backend: old(self)@.started_calls[execution_index].backend,
                            outcome: ToolExecutionOutcome::Executing,
                        },
                    },
                ]
            } else {
                Seq::empty()
            },
            old(self)@.consistent() ==> final(self)@.consistent(),
    {
        let ghost before = self@.started_calls;
        let waits = match self.started_calls.get(execution_index) {
            Some(started) => !started.executing,
            None => false,
        };
        if !waits {
            assert(log@ + Seq::empty() =~= log@);
            return ;
        }
        match self.started_calls.remove(execution_index) {
            Some(started) => {
                let record = ToolExecutionRecord {
                    tool: started.tool.clone(),
                    backend: started.backend,
                    outcome: ToolExecutionOutcome::Executing,
                };
                let StartedCall { started: at, tool, backend, executing: _ } = started;
                self.started_calls.insert(
                    execution_index,
                    StartedCall { started: at, tool, backend, executing: true },
                );
                log.push(Observation::Transition { record });
                assert(self@.started_calls =~= before.insert(
                    execution_index,
                    StartedCall { executing: true, ..before[execution_index] },
                ));
            },
            None => {},
        }
    }

    pub fn record(
        &mut self,
        execution_index: usize,
        record: ToolExecutionRecord,
        truncated: bool,
        now: Instant,
        log: &mut Vec<Observation>,
    )
        ensures
            final(self)@ == old(self)@.call_recorded(execution_index, record),
            final(log)@ == old(log)@ + old(self)@.call_observed(
                execution_index,
                record,
                truncated,
                now,
            ),
            old(self)@.consistent() ==> final(self)@.consistent(),
    {
        if self.records.contains_key(execution_index) {
            assert(log@ + Seq::empty() =~= log@);
            return ;
        }
        let duration = match self.started_calls.remove(execution_index) {
            Some(started) => now.since(started.started),
            None => Duration::zero(),
        };
        self.records.insert(execution_index, record.clone());
        log.push(Observation::Call { record, truncated, duration });
    }

    pub fn record_limit(&self, limit: ToolRuntimeLimit, log: &mut Vec<Observation>)
        ensures
            final(log)@ == old(log)@.push(Observation::Limit { limit }),
    {
        log.push(Observation::Limit { limit });
    }

    /// Records how the request ended; only the first end counts.
    pub fn record_request(&mut self, outcome: ToolRuntimeOutcome, log: &mut Vec<Observation>)
        ensures
            final(self)@ == (TelemetryView { request_recorded: true, ..old(self)@ }),
            final(log)@ == old(log)@ + if old(self)@.request_recorded {
                Seq::empty()
            } else {
                seq![Observation::Request { outcome }]
            },
            old(self)@.consistent() ==> final(self)@.consistent(),
    {
        if self.request_recorded {
            assert(log@ + Seq::empty() =~= log@);
            return ;
        }
        self.request_recorded = true;
        log.push(Observation::Request { outcome });
    }

    pub fn start_sandbox_operation(
        &mut self,
        execution_index: usize,
        operation: SandboxOperation,
        now: Instant,
    )
        ensures
            final(self)@ == old(self)@.operation_started(
                SandboxKey { execution_index, operation },
                now,
            ),
            old(self)@.consistent() ==> final(self)@.consistent(),
    {
        let key = SandboxKey { execution_index, operation };
        if !self.recorded_sandbox_operations.contains_key(key)
            && !self.started_sandbox_operations.contains_key(key) {
            self.started_sandbox_operations.insert(key, now);
        }
    }

    fn finish_sandbox_operation_inner(
        &mut self,
        key: SandboxKey,
        outcome: SandboxOperationOutcome,
        duration: Option<Duration>,
        require_started: bool,
        now: Instant,
        log: &mut Vec<Observation>,
    )
        ensures
            final(self)@ == old(self)@.operation_ended(key, require_started),
            final(log)@ == old(log)@ + old(self)@.operation_observed(
                key,
                outcome,
                duration,
                require_started,
                now,
            ),
            old(self)@.consistent() ==> final(self)@.consistent(),
    {
        let ghost before = self@;
        if (require_started && !self.started_sandbox_operations.contains_key(key))
            || self.recorded_sandbox_operations.contains_key(key) {
            assert(log@ + Seq::empty() =~= log@);
            return ;
        }
        self.recorded_sandbox_operations.insert(key, ());
        let started = self.started_sandbox_operations.remove(key);
        let length = match duration {
            Some(duration) => duration,
            None => match started {
                Some(started) => now.since(started),
                None => Duration::zero(),
            },
        };
        log.push(Observation::Sandbox { operation: key.operation, outcome, duration: length });
        assert(self@.recorded_operations =~= before.recorded_operations.insert(key));
    }

    pub fn finish_sandbox_operation(
        &mut self,
        execution_index: usize,
        operation: SandboxOperation,
        outcome: SandboxOperationOutcome,
        now: Instant,
        log: &mut Vec<Observation>,
    )
        ensures
            final(self)@ == old(self)@.operation_ended(
                SandboxKey { execution_index, operation },
                false,
            ),
            final(log)@ == old(log)@ + old(self)@.operation_observed(
                SandboxKey { execution_index, operation },
                outcome,
                None,
                false,
                now,
            ),
            old(self)@.consistent() ==> final(self)@.consistent(),
    {
        self.finish_sandbox_operation_inner(
            SandboxKey { execution_index, operation },
            outcome,
            None,
            false,
            now,
            log,
        );
    }

    pub fn finish_sandbox_operation_with_duration(
        &mut self,
        execution_index: usize,
        operation: SandboxOperation,
        outcome: SandboxOperationOutcome,
        duration: Duration,
        now: Instant,
        log: &mut Vec<Observation>,
    )
        ensures
            final(self)@ == old(self)@.operation_ended(
                SandboxKey { execution_index, operation },
                false,
            ),
            final(log)@ == old(log)@ + old(self)@.operation_observed(
                SandboxKey { execution_index, operation },
                outcome,
                Some(duration),
                false,
                now,
            ),
            old(self)@.consistent() ==> final(self)@.consistent(),
    {
        self.finish_sandbox_operation_inner(
            SandboxKey { execution_index, operation },
            outcome,
            Some(duration),
            false,
            now,
            log,
        );
    }

    pub fn finish_started_sandbox_operation(
        &mut self,
        execution_index: usize,
        operation: SandboxOperation,
        outcome: SandboxOperationOutcome,
        now: Instant,
        log: &mut Vec<Observation>,
    )
        ensures
            final(self)@ == old(self)@.operation_ended(
                SandboxKey { execution_index, operation },
                true,
            ),
            final(log)@ == old(log)@ + old(self)@.operation_observed(
                SandboxKey { execution_index, operation },
                outcome,
                None,
                true,
                now,
            ),
            old(self)@.consistent() ==> final(self)@.consistent(),
    {
        self.finish_sandbox_operation_inner(
            SandboxKey { execution_index, operation },
            outcome,
            None,
            true,
            now,
            log,
        );
    }

    pub fn abandon_sandbox_operation(&mut self, execution_index: usize, operation: SandboxOperation)
        ensures
            final(self)@ == old(self)@.operation_abandoned(
                SandboxKey { execution_index, operation },
            ),
            old(self)@.consistent() ==> final(self)@.consistent(),
    {
        let _ = self.started_sandbox_operations.remove(SandboxKey { execution_index, operation });
    }
}

/// A call that ended because its request did.
pub open spec fn cancelled_record(started: StartedCall) -> ToolExecutionRecord {
    ToolExecutionRecord {
        tool: started.tool,
        backend: started.backend,
        outcome: ToolExecutionOutcome::Cancelled,
    }
}

pub open spec fn cancelled_rounds(rounds: Seq<(usize, Instant)>, now: Instant) -> Seq<Observation> {
    Seq::new(
        rounds.len(),
        |i: int|
            Observation::ModelRound {
                outcome: ToolRuntimeOutcome::Cancelled,
                duration: elapsed(now, rounds[i].1),
            },
    )
}

pub open spec fn cancelled_calls(calls: Seq<(usize, StartedCall)>, now: Instant) -> Seq<
    Observation,
> {
    Seq::new(
        calls.len(),
        |i: int|
            Observation::Call {
                record: cancelled_record(calls[i].1),
                truncated: false,
                duration: elapsed(now, calls[i].1.started),
            },
    )
}

pub open spec fn cancelled_operations(operations: Seq<(SandboxKey, Instant)>, now: Instant) -> Seq<
    Observation,
> {
    Seq::new(
        operations.len(),
        |i: int|
            Observation::Sandbox {
                operation: operations[i].0.operation,
                outcome: SandboxOperationOutcome::Cancelled,
                duration: elapsed(now, operations[i].1),
            },
    )
}

impl TelemetryView {
    /// Everything that had started is recorded as cancelled.
    pub open spec fn all_ended(self) -> TelemetryView {
        TelemetryView {
            records: Map::new(
                |k: usize| self.records.dom().contains(k) || self.started_calls.dom().contains(k),
                |k: usize|
                    if self.started_calls.dom().contains(k) {
                        cancelled_record(self.started_calls[k])
                    } else {
                        self.records[k]
                    },
            ),
            started_calls: Map::empty(),
            recorded_rounds: self.recorded_rounds.union(self.started_rounds.dom()),
            started_rounds: Map::empty(),
            recorded_operations: self.recorded_operations.union(self.started_operations.dom()),
            started_operations: Map::empty(),
            request_recorded: self.request_recorded,
        }
    }

    /// Observations of everything that had started, in some order of each kind.
    pub open spec fn all_cancelled(self, now: Instant, seen: Seq<Observation>) -> bool {
        exists|
            rounds: Seq<(usize, Instant)>,
            calls: Seq<(usize, StartedCall)>,
            operations: Seq<(SandboxKey, Instant)>,
        |
            {
                &&& #[trigger] entries_hold(rounds, self.started_rounds)
                &&& #[trigger] entries_hold(calls, self.started_calls)
                &&& #[trigger] entries_hold(operations, self.started_operations)
                &&& seen == cancelled_rounds(rounds, now) + cancelled_calls(calls, now)
                    + cancelled_operations(operations, now)
            }
    }
}

impl ToolRuntimeTelemetry {
    /// Records everything that has started and not ended as cancelled.
    pub fn finish_unfinished(&mut self, now: Instant, log: &mut Vec<Observation>)
        requires
            old(self)@.consistent(),
        ensures
            final(self)@ == old(self)@.all_ended(),
            final(self)@.consistent(),
            final(log)@.len() >= old(log)@.len(),
            final(log)@.take(old(log)@.len() as int) == old(log)@,
            old(self)@.all_cancelled(now, final(log)@.skip(old(log)@.len() as int)),
    {
        let ghost start = self@;
        let ghost logged = log@;
        let rounds = self.started_rounds.drain();
        let calls = self.started_calls.drain();
        let operations = self.started_sandbox_operations.drain();
        let ghost round_obs = cancelled_rounds(rounds@, now);
        let ghost call_obs = cancelled_calls(calls@, now);
        let ghost op_obs = cancelled_operations(operations@, now);
        let mut i: usize = 0;
        assert(logged + round_obs.take(0) =~= logged);
        while i < rounds.len()
            invariant
                start.consistent(),
                entries_hold(rounds@, start.started_rounds),
                round_obs == cancelled_rounds(rounds@, now),
                i <= rounds@.len(),
                log@ == logged + round_obs.take(i as int),
                self.records@ == start.records,
                self.recorded_sandbox_operations@.dom() == start.recorded_operations,
                self.request_recorded == start.request_recorded,
                self.started_rounds@ == Map::<usize, Instant>::empty(),
                self.started_calls@ == Map::<usize, StartedCall>::empty(),
                self.started_sandbox_operations@ == Map::<SandboxKey, Instant>::empty(),
                forall|k: usize| #[trigger]
                    self.recorded_rounds@.dom().contains(k) <==> start.recorded_rounds.contains(k)
                        || exists|j: int| 0 <= j < i && (#[trigger] rounds@[j]).0 == k,
            decreases rounds@.len() - i,
        {
            let (round, started) = rounds[i];
            assert(rounds@[i as int].0 == round);
            assert(start.started_rounds.dom().contains(round));
            self.recorded_rounds.insert(round, ());
            log.push(
                Observation::ModelRound {
                    outcome: ToolRuntimeOutcome::Cancelled,
                    duration: now.since(started),
                },
            );
            i += 1;
            assert(log@ =~= logged + round_obs.take(i as int));
        }
        proof {
            assert(round_obs.take(i as int) =~= round_obs);
            assert(self.recorded_rounds@.dom() =~= start.all_ended().recorded_rounds);
        }
        let ghost after_rounds = log@;
        let mut i: usize = 0;
        assert(after_rounds + call_obs.take(0) =~= after_rounds);
        while i < calls.len()
            invariant
                start.consistent(),
                entries_hold(calls@, start.started_calls),
                call_obs == cancelled_calls(calls@, now),
                i <= calls@.len(),
                log@ == after_rounds + call_obs.take(i as int),
                self.recorded_rounds@.dom() == start.all_ended().recorded_rounds,
                self.recorded_sandbox_operations@.dom() == start.recorded_operations,
                self.request_recorded == start.request_recorded,
                self.started_rounds@ == Map::<usize, Instant>::empty(),
                self.started_calls@ == Map::<usize, StartedCall>::empty(),
                self.started_sandbox_operations@ == Map::<SandboxKey, Instant>::empty(),
                forall|k: usize| #[trigger]
                    self.records@.dom().contains(k) <==> start.records.dom().contains(k) || exists|
                        j: int,
                    |
                        0 <= j < i && (#[trigger] calls@[j]).0 == k,
                forall|k: usize| #[trigger]
                    self.records@.dom().contains(k) ==> self.records@[k] == (
                    if start.started_calls.dom().contains(k) {
                        cancelled_record(start.started_calls[k])
                    } else {
                        start.records[k]
                    }),
            decreases calls@.len() - i,
        {
            let index: usize = calls[i].0;
            let record = ToolExecutionRecord {
                tool: calls[i].1.tool.clone(),
                backend: calls[i].1.backend,
                outcome: ToolExecutionOutcome::Cancelled,
            };
            proof {
                assert(calls@[i as int].0 == index);
                assert(start.started_calls.dom().contains(index));
                assert(start.started_calls[index] == calls@[i as int].1);
            }
            let duration = now.since(calls[i].1.started);
            self.records.insert(index, record.clone());
            log.push(Observation::Call { record, truncated: false, duration });
            i += 1;
            assert(log@ =~= after_rounds + call_obs.take(i as int));
        }
        proof {
            assert(call_obs.take(i as int) =~= call_obs);
            assert(self.records@ =~= start.all_ended().records);
        }
        let ghost after_calls = log@;
        let mut i: usize = 0;
        assert(after_calls + op_obs.take(0) =~= after_calls);
        while i < operations.len()
            invariant
                start.consistent(),
                entries_hold(operations@, start.started_operations),
                op_obs == cancelled_operations(operations@, now),
                i <= operations@.len(),
                log@ == after_calls + op_obs.take(i as int),
                self.recorded_rounds@.dom() == start.all_ended().recorded_rounds,
                self.records@ == start.all_ended().records,
                self.request_recorded == start.request_recorded,
                self.started_rounds@ == Map::<usize, Instant>::empty(),
                self.started_calls@ == Map::<usize, StartedCall>::empty(),
                self.started_sandbox_operations@ == Map::<SandboxKey, Instant>::empty(),
                forall|k: SandboxKey| #[trigger]
                    self.recorded_sandbox_operations@.dom().contains(k)
                        <==> start.recorded_operations.contains(k) || exists|j: int|
                        0 <= j < i && (#[trigger] operations@[j]).0 == k,
            decreases operations@.len() - i,
        {
            let (key, started) = operations[i];
            assert(operations@[i as int].0 == key);
            assert(start.started_operations.dom().contains(key));
            self.recorded_sandbox_operations.insert(key, ());
            log.push(
                Observation::Sandbox {
                    operation: key.operation,
                    outcome: SandboxOperationOutcome::Cancelled,
                    duration: now.since(started),
                },
            );
            i += 1;
            assert(log@ =~= after_calls + op_obs.take(i as int));
        }
        proof {
            assert(op_obs.take(i as int) =~= op_obs);
            assert(self.recorded_sandbox_operations@.dom()
                =~= start.all_ended().recorded_operations);
            assert(log@.take(logged.len() as int) =~= logged);
            assert(log@.skip(logged.len() as int) =~= round_obs + call_obs + op_obs);
            assert(entries_hold(rounds@, start.started_rounds));
            assert(entries_hold(calls@, start.started_calls));
            assert(entries_hold(operations@, start.started_operations));
        }
    }
}

/// A state of the telemetry and what was observed on the way to it.
pub struct Recorded {
    pub state: TelemetryView,
    pub log: Seq<Observation>,
}

impl Recorded {
    /// After one more step of a sandbox ended.
    pub open spec fn ended(
        self,
        execution_index: usize,
        operation: SandboxOperation,
        outcome: SandboxOperationOutcome,
        duration: Option<Duration>,
        must_have_started: bool,
        now: Instant,
    ) -> Recorded {
        let key = SandboxKey { execution_index, operation };
        Recorded {
            state: self.state.operation_ended(key, must_have_started),
            log: self.log + self.state.operation_observed(
                key,
                outcome,
                duration,
                must_have_started,
                now,
            ),
        }
    }

    /// After one more call ended.
    pub open spec fn call(
        self,
        execution_index: usize,
        record: ToolExecutionRecord,
        truncated: bool,
        now: Instant,
    ) -> Recorded {
        Recorded {
            state: self.state.call_recorded(execution_index, record),
            log: self.log + self.state.call_observed(execution_index, record, truncated, now),
        }
    }
}

pub open spec fn cleanup_outcome(outcome: SandboxCleanupOutcome) -> SandboxOperationOutcome {
    match outcome {
        SandboxCleanupOutcome::Success => SandboxOperationOutcome::Success,
        SandboxCleanupOutcome::Failure => SandboxOperationOutcome::Failure,
    }
}

fn outcome_of(outcome: SandboxCleanupOutcome) -> (r: SandboxOperationOutcome)
    ensures
        r == cleanup_outcome(outcome),
{
    match outcome {
        SandboxCleanupOutcome::Success => SandboxOperationOutcome::Success,
        SandboxCleanupOutcome::Failure => SandboxOperationOutcome::Failure,
    }
}

/// After a step ended as a backend reports it; where it reports nothing, a step that has started
/// ends with the fallback, if there is one.
pub open spec fn reported(
    before: Recorded,
    execution_index: usize,
    operation: SandboxOperation,
    report: Option<SandboxOperationReport>,
    fallback: Option<SandboxOperationOutcome>,
    now: Instant,
) -> Recorded {
    match (report, fallback) {
        (Some(report), _) => before.ended(
            execution_index,
            operation,
            cleanup_outcome(report.outcome),
            Some(report.duration),
            false,
            now,
        ),
        (None, Some(fallback)) => before.ended(
            execution_index,
            operation,
            fallback,
            None,
            true,
            now,
        ),
        (None, None) => before,
    }
}

/// After the steps of a sandbox ended as a backend reports them.
pub open spec fn metadata_recorded(
    before: Recorded,
    execution_index: usize,
    metadata: ToolBatchMetadata,
    fallback: Option<SandboxOperationOutcome>,
    now: Instant,
) -> Recorded {
    let created = reported(
        before,
        execution_index,
        SandboxOperation::Create,
        metadata.sandbox_create,
        fallback,
        now,
    );
    let executed = reported(
        created,
        execution_index,
        SandboxOperation::Execute,
        metadata.sandbox_execute,
        fallback,
        now,
    );
    let terminated = reported(
        executed,
        execution_index,
        SandboxOperation::Terminate,
        metadata.sandbox_terminate,
        fallback,
        now,
    );
    match (metadata.sandbox_cleanup, metadata.sandbox_cleanup_duration, fallback) {
        (Some(outcome), Some(duration), _) => terminated.ended(
            execution_index,
            SandboxOperation::Cleanup,
            cleanup_outcome(outcome),
            Some(duration),
            false,
            now,
        ),
        (Some(outcome), None, _) => terminated.ended(
            execution_index,
            SandboxOperation::Cleanup,
            cleanup_outcome(outcome),
            None,
            true,
            now,
        ),
        (None, _, Some(fallback)) => terminated.ended(
            execution_index,
            SandboxOperation::Cleanup,
            fallback,
            None,
            false,
            now,
        ),
        (None, _, None) => Recorded {
            state: terminated.state.operation_abandoned(
                SandboxKey { execution_index, operation: SandboxOperation::Cleanup },
            ),
            ..terminated
        },
    }
}

fn report_operation(
    telemetry: &mut ToolRuntimeTelemetry,
    execution_index: usize,
    operation: SandboxOperation,
    report: Option<SandboxOperationReport>,
    fallback: Option<SandboxOperationOutcome>,
    now: Instant,
    log: &mut Vec<Observation>,
)
    ensures
        (Recorded { state: final(telemetry)@, log: final(log)@ }) == reported(
            Recorded { state: old(telemetry)@, log: old(log)@ },
            execution_index,
            operation,
            report,
            fallback,
            now,
        ),
        old(telemetry)@.consistent() ==> final(telemetry)@.consistent(),
{
    match (report, fallback) {
        (Some(report), _) => {
            telemetry.finish_sandbox_operation_with_duration(
                execution_index,
                operation,
                outcome_of(report.outcome),
                report.duration,
                now,
                log,
            );
        },
        (None, Some(fallback)) => {
            telemetry.finish_started_sandbox_operation(
                execution_index,
                operation,
                fallback,
                now,
                log,
            );
        },
        (None, None) => {},
    }
}

/// Records the steps of a sandbox as a backend reports them.
pub fn finish_sandbox_metadata(
    telemetry: &mut ToolRuntimeTelemetry,
    execution_index: usize,
    metadata: ToolBatchMetadata,
    fallback: Option<SandboxOperationOutcome>,
    now: Instant,
    log: &mut Vec<Observation>,
)
    ensures
        (Recorded { state: final(telemetry)@, log: final(log)@ }) == metadata_recorded(
            Recorded { state: old(telemetry)@, log: old(log)@ },
            execution_index,
            metadata,
            fallback,
            now,
        ),
        old(telemetry)@.consistent() ==> final(telemetry)@.consistent(),
{
    report_operation(
        telemetry,
        execution_index,
        SandboxOperation::Create,
        metadata.sandbox_create,
        fallback,
        now,
        log,
    );
    report_operation(
        telemetry,
        execution_index,
        SandboxOperation::Execute,
        metadata.sandbox_execute,
        fallback,
        now,
        log,
    );
    report_operation(
        telemetry,
        execution_index,
        SandboxOperation::Terminate,
        metadata.sandbox_terminate,
        fallback,
        now,
        log,
    );
    match (metadata.sandbox_cleanup, metadata.sandbox_cleanup_duration, fallback) {
        (Some(outcome), Some(duration), _) => {
            telemetry.finish_sandbox_operation_with_duration(
                execution_index,
                SandboxOperation::Cleanup,
                outcome_of(outcome),
                duration,
                now,
                log,
            );
        },
        (Some(outcome), None, _) => {
            telemetry.finish_started_sandbox_operation(
                execution_index,
                SandboxOperation::Cleanup,
                outcome_of(outcome),
                now,
                log,
            );
        },
        (None, _, Some(fallback)) => {
            telemetry.finish_sandbox_operation(
                execution_index,
                SandboxOperation::Cleanup,
                fallback,
                now,
                log,
            );
        },
        (None, _, None) => {
            telemetry.abandon_sandbox_operation(execution_index, SandboxOperation::Cleanup);
        },
    }
}

/// A step of a sandbox that is recorded stays recorded, and is never observed again: whatever ends
/// it a second time changes nothing.
pub proof fn a_recorded_operation_is_never_observed_again(
    before: Recorded,
    execution_index: usize,
    operation: SandboxOperation,
    outcome: SandboxOperationOutcome,
    duration: Option<Duration>,
    must_have_started: bool,
    now: Instant,
)
    requires
        before.state.recorded_operations.contains(SandboxKey { execution_index, operation }),
    ensures
        before.ended(execution_index, operation, outcome, duration, must_have_started, now)
            == before,
{
    assert(before.log + Seq::empty() =~= before.log);
}

/// A call that is recorded is never observed again.
pub proof fn a_recorded_call_is_never_observed_again(
    before: Recorded,
    execution_index: usize,
    record: ToolExecutionRecord,
    truncated: bool,
    now: Instant,
)
    requires
        before.state.records.dom().contains(execution_index),
    ensures
        before.call(execution_index, record, truncated, now) == before,
{
    assert(before.log + Seq::empty() =~= before.log);
}

} // verus!
