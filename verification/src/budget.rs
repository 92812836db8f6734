//! One request-wide budget: its deadline, its rounds and its calls.

use vstd::prelude::*;
use vstd::string::*;
use crate::backend::{ToolBatchMetadata, ToolBatchInfrastructureError, ToolExecutionContext, ToolExecutionResult, ToolInfrastructureError};
use crate::config::{clone_optional, optional_text, BackendConfigView, ToolBackendConfig};
use crate::e2b::{e2b_backend, E2bSandboxBackend, SandboxHosts};
use crate::error::{joined3, ErrorView, ToolRuntimeError};
use crate::http_backend::{http_backend, HttpToolBackend};
use crate::registry::{RegisteredTool, RegistryView, ToolRegistry, ToolView};
use crate::telemetry::{
    metadata_recorded, Observation, Recorded, SandboxKey, SandboxOperation,
    SandboxOperationOutcome, TelemetryView, ToolBackendLabel, ToolRuntimeLimit, ToolRuntimeOutcome,
    ToolRuntimeTelemetry,
};
use crate::time::{saturated, Duration, Instant};
use crate::{telemetry, text};

verus! {

/// Where the calls of one tool go: how it is labelled, and the server that brought it, if any.
pub struct BoundBackend {
    pub internal_name: String,
    pub label: ToolBackendLabel,
    pub server: Option<usize>,
}

pub struct BoundView {
    pub internal_name: Seq<char>,
    pub label: ToolBackendLabel,
    pub server: Option<usize>,
}

impl BoundBackend {
    pub open spec fn view(&self) -> BoundView {
        BoundView {
            internal_name: self.internal_name@,
            label: self.label,
            server: self.server,
        }
    }
}

pub open spec fn bound_views(backends: Seq<BoundBackend>) -> Seq<BoundView> {
    Seq::new(backends.len(), |i: int| backends[i].view())
}

/// The backend of a tool, by its internal name.
pub open spec fn bound_to(backends: Seq<BoundView>, name: Seq<char>) -> Option<BoundView>
    decreases backends.len(),
{
    if backends.len() == 0 {
        None
    } else if backends.last().internal_name == name {
        Some(backends.last())
    } else {
        bound_to(backends.drop_last(), name)
    }
}

/// How a tool is bound: as a request brought it, else as it is configured.
pub open spec fn binding(tool: ToolView) -> BoundView {
    match tool.request_backend {
        Some(brought) => BoundView {
            internal_name: tool.internal_name,
            label: brought.label,
            server: Some(brought.server),
        },
        None => BoundView {
            internal_name: tool.internal_name,
            label: if tool.backend is Some && tool.backend->0 is E2b {
                ToolBackendLabel::E2b
            } else {
                ToolBackendLabel::Http
            },
            server: None,
        },
    }
}

fn bind(tool: &RegisteredTool) -> (r: BoundBackend)
    ensures
        r@ == binding(tool@),
{
    match tool.request_backend {
        Some(brought) => BoundBackend {
            internal_name: tool.internal_name.clone(),
            label: brought.label,
            server: Some(brought.server),
        },
        None => BoundBackend {
            internal_name: tool.internal_name.clone(),
            label: match &tool.backend {
                Some(ToolBackendConfig::E2b { .. }) => ToolBackendLabel::E2b,
                _ => ToolBackendLabel::Http,
            },
            server: None,
        },
    }
}

pub open spec fn bindings(tools: Seq<ToolView>) -> Seq<BoundView> {
    Seq::new(tools.len(), |i: int| binding(tools[i]))
}

/// The failure of a backend that cannot be built.
pub open spec fn construction_failure(error: ToolInfrastructureError) -> ErrorView {
    match error {
        ToolInfrastructureError::Configuration => ErrorView::invalid_configuration(
            error.message_view(),
        ),
        _ => ErrorView::infrastructure(error),
    }
}

/// The failure of a backend that cannot be built.
pub fn backend_construction_error(error: ToolInfrastructureError) -> (r: ToolRuntimeError)
    ensures
        r@ == construction_failure(error),
{
    match error {
        ToolInfrastructureError::Configuration => ToolRuntimeError::invalid_configuration(
            error.public_message(),
        ),
        _ => ToolRuntimeError::infrastructure(error),
    }
}

/// Whether the backend of a tool can be built. One that a request brought is built already.
pub open spec fn buildable(tool: ToolView, max_output_bytes: usize, hosts: SandboxHosts) -> bool {
    tool.request_backend is Some || match tool.backend {
        Some(BackendConfigView::Http { url, timeout, bearer_token }) => http_backend(
            url,
            timeout,
            bearer_token,
            max_output_bytes,
        ) is Some,
        Some(BackendConfigView::E2b { api_url, domain, timeout, api_key }) => e2b_backend(
            api_url,
            domain,
            timeout,
            api_key,
            max_output_bytes,
            hosts,
        ) is Some,
        None => false,
    }
}

/// Whether the backend of every tool can be built.
pub open spec fn all_buildable(registry: RegistryView, hosts: SandboxHosts) -> bool {
    forall|j: int|
        0 <= j < registry.tools.len() ==> buildable(
            #[trigger] registry.tools[j],
            registry.limits.max_output_bytes,
            hosts,
        )
}

fn can_build(tool: &RegisteredTool, max_output_bytes: usize, hosts: SandboxHosts) -> (r: bool)
    ensures
        r == buildable(tool@, max_output_bytes, hosts),
{
    if tool.request_backend.is_some() {
        return true;
    }
    match &tool.backend {
        Some(ToolBackendConfig::Http { url, timeout, bearer_token }) => HttpToolBackend::new(
            url.clone(),
            *timeout,
            clone_optional(bearer_token),
            max_output_bytes,
        ).is_ok(),
        Some(ToolBackendConfig::E2b { api_url, domain, timeout, api_key }) => E2bSandboxBackend::new(
            api_url.as_str(),
            domain.clone(),
            *timeout,
            api_key.clone(),
            max_output_bytes,
            hosts,
        ).is_ok(),
        None => false,
    }
}

/// The budget of one request. Made before the first model round and carried through every tool
/// batch, so that the deadline never moves.
pub struct RuntimeBudget {
    pub deadline: Instant,
    pub max_rounds: usize,
    pub rounds: usize,
    pub max_tool_calls: usize,
    pub tool_calls: usize,
    pub max_parallel_tool_calls: usize,
    pub max_output_bytes: usize,
    pub request_id: Option<String>,
    pub backends: Vec<BoundBackend>,
    pub program_sandbox: bool,
    pub program_sandbox_executions: usize,
    pub next_execution_index: usize,
    pub telemetry: ToolRuntimeTelemetry,
    pub log: Vec<Observation>,
}

pub struct BudgetView {
    pub deadline: Instant,
    pub max_rounds: usize,
    pub rounds: usize,
    pub max_tool_calls: usize,
    pub tool_calls: usize,
    pub max_parallel_tool_calls: usize,
    pub max_output_bytes: usize,
    pub request_id: Option<Seq<char>>,
    pub backends: Seq<BoundView>,
    pub program_sandbox: bool,
    pub program_sandbox_executions: usize,
    pub next_execution_index: usize,
    pub telemetry: TelemetryView,
    pub log: Seq<Observation>,
}

impl BudgetView {
    /// No limit is passed, and the telemetry is consistent.
    pub open spec fn wf(self) -> bool {
        &&& self.rounds <= self.max_rounds
        &&& self.tool_calls <= self.max_tool_calls
        &&& self.telemetry.consistent()
    }

    /// How long is left.
    pub open spec fn remaining(self, now: Instant) -> nat {
        saturated(self.deadline.nanos - now.nanos) as nat
    }

    /// With what a failure exhausted observed.
    pub open spec fn with_error(self, error: ErrorView) -> BudgetView {
        match error.limit {
            Some(limit) => BudgetView {
                log: self.log.push(Observation::Limit { limit }),
                ..self
            },
            None => self,
        }
    }

    pub open spec fn with_recorded(self, recorded: Recorded) -> BudgetView {
        BudgetView { telemetry: recorded.state, log: recorded.log, ..self }
    }

    pub open spec fn recorded(self) -> Recorded {
        Recorded { state: self.telemetry, log: self.log }
    }

    /// The failure of another round, where there may be none.
    pub open spec fn round_complaint(self, now: Instant) -> Option<ErrorView> {
        if self.remaining(now) == 0 {
            Some(ErrorView::deadline())
        } else if self.rounds == usize::MAX {
            Some(ErrorView::limit("managed tool round limit exceeded"@, ToolRuntimeLimit::Rounds))
        } else if self.rounds + 1 > self.max_rounds {
            Some(
                ErrorView::limit(
                    "managed tool round limit exceeded (maximum "@ + text::decimal(
                        self.max_rounds as nat,
                    ) + ")"@,
                    ToolRuntimeLimit::Rounds,
                ),
            )
        } else {
            None
        }
    }

    /// After one more round began.
    pub open spec fn round_begun(self, now: Instant) -> BudgetView {
        BudgetView {
            rounds: (self.rounds + 1) as usize,
            telemetry: self.telemetry.round_started((self.rounds + 1) as usize, now),
            ..self
        }
    }

    /// The failure of so many more calls, where there may not be so many.
    pub open spec fn calls_complaint(self, count: nat) -> Option<ErrorView> {
        if self.tool_calls + count > usize::MAX {
            Some(
                ErrorView::limit("managed tool call limit exceeded"@, ToolRuntimeLimit::ToolCalls),
            )
        } else if self.tool_calls + count > self.max_tool_calls {
            Some(
                ErrorView::limit(
                    "managed tool call limit exceeded (maximum "@ + text::decimal(
                        self.max_tool_calls as nat,
                    ) + ")"@,
                    ToolRuntimeLimit::ToolCalls,
                ),
            )
        } else if self.next_execution_index + count > usize::MAX {
            Some(ErrorView::invalid_configuration("tool execution index overflow"@))
        } else {
            None
        }
    }

    pub open spec fn calls_reserved(self, count: nat) -> BudgetView {
        BudgetView {
            tool_calls: (self.tool_calls + count) as usize,
            next_execution_index: (self.next_execution_index + count) as usize,
            ..self
        }
    }
}

/// A number in brackets behind words, as limits are reported.
fn maximum(words: &str, n: usize) -> (r: String)
    ensures
        r@ == words@ + text::decimal(n as nat) + ")"@,
{
    joined3(words, text::decimal_text(n as u64).as_str(), ")")
}

impl RuntimeBudget {
    pub open spec fn view(&self) -> BudgetView {
        BudgetView {
            deadline: self.deadline,
            max_rounds: self.max_rounds,
            rounds: self.rounds,
            max_tool_calls: self.max_tool_calls,
            tool_calls: self.tool_calls,
            max_parallel_tool_calls: self.max_parallel_tool_calls,
            max_output_bytes: self.max_output_bytes,
            request_id: optional_text(self.request_id),
            backends: bound_views(self.backends@),
            program_sandbox: self.program_sandbox,
            program_sandbox_executions: self.program_sandbox_executions,
            next_execution_index: self.next_execution_index,
            telemetry: self.telemetry@,
            log: self.log@,
        }
    }

    /// The budget of a request that may call the tools of a registry until a deadline. Where a
    /// backend cannot be built, the end of the request is observed.
    pub fn new_at(
        registry: &ToolRegistry,
        deadline: Instant,
        hosts: SandboxHosts,
        log: &mut Vec<Observation>,
    ) -> (r: Result<RuntimeBudget, ToolRuntimeError>)
        ensures
            match r {
                Ok(budget) => all_buildable(registry@, hosts) && budget@ == budget_of(
                    registry@,
                    deadline,
                ) && budget@.wf() && final(log)@ == old(log)@,
                Err(error) => !all_buildable(registry@, hosts) && error@ == construction_failure(
                    ToolInfrastructureError::Configuration,
                ) && final(log)@ == old(log)@.push(
                    Observation::Request { outcome: error@.outcome() },
                ),
            },
    {
        let limits = registry.limits();
        let mut backends: Vec<BoundBackend> = Vec::new();
        let mut program_sandbox = false;
        let count: usize = registry.len();
        let ghost tools = registry@.tools;
        let mut i: usize = 0;
        while i < count
            invariant
                tools == registry@.tools,
                limits == registry@.limits,
                count == tools.len(),
                i <= count,
                log@ == old(log)@,
                backends@.len() == i,
                forall|j: int| 0 <= j < i ==> (#[trigger] backends@[j])@ == binding(tools[j]),
                forall|j: int|
                    0 <= j < i ==> buildable(#[trigger] tools[j], limits.max_output_bytes, hosts),
                program_sandbox <==> exists|j: int|
                    0 <= j < i && (#[trigger] binding(tools[j])).label == ToolBackendLabel::E2b,
            decreases count - i,
        {
            let tool = registry.tool(i);
            assert(tool@ == tools[i as int]);
            if !can_build(tool, limits.max_output_bytes, hosts) {
                let error = backend_construction_error(ToolInfrastructureError::configuration());
                let mut telemetry = ToolRuntimeTelemetry::new();
                telemetry.record_request(error.telemetry_outcome(), log);
                assert(log@ =~= old(log)@.push(Observation::Request { outcome: error@.outcome() }));
                return Err(error);
            }
            let bound = bind(tool);
            match bound.label {
                ToolBackendLabel::E2b => {
                    program_sandbox = true;
                },
                _ => {},
            }
            assert(bound@ == binding(tools[i as int]));
            backends.push(bound);
            i += 1;
        }
        let r = RuntimeBudget {
            deadline,
            max_rounds: limits.max_rounds,
            rounds: 0,
            max_tool_calls: limits.max_tool_calls,
            tool_calls: 0,
            max_parallel_tool_calls: limits.max_parallel_tool_calls,
            max_output_bytes: limits.max_output_bytes,
            request_id: None,
            backends,
            program_sandbox,
            program_sandbox_executions: 0,
            next_execution_index: 0,
            telemetry: ToolRuntimeTelemetry::new(),
            log: Vec::new(),
        };
        assert(r@.backends =~= bindings(tools));
        Ok(r)
    }

    pub fn set_request_id(&mut self, request_id: Option<String>)
        ensures
            final(self)@ == (BudgetView { request_id: optional_text(request_id), ..old(self)@ }),
    {
        self.request_id = request_id;
    }

    /// How long is left.
    pub fn remaining(&self, now: Instant) -> (r: Duration)
        ensures
            r.nanos == self@.remaining(now),
    {
        self.deadline.since(now)
    }

    pub fn tool_calls(&self) -> (r: usize)
        ensures
            r == self@.tool_calls,
    {
        self.tool_calls
    }

    pub fn max_output_bytes(&self) -> (r: usize)
        ensures
            r == self@.max_output_bytes,
    {
        self.max_output_bytes
    }

    pub fn rounds(&self) -> (r: usize)
        ensures
            r == self@.rounds,
    {
        self.rounds
    }

    pub fn program_sandbox_executions(&self) -> (r: usize)
        ensures
            r == self@.program_sandbox_executions,
    {
        self.program_sandbox_executions
    }

    /// Observes the limit that a failure exhausted, if it did.
    pub fn record_error(&mut self, error: &ToolRuntimeError)
        ensures
            final(self)@ == old(self)@.with_error(error@),
    {
        if let Some(limit) = error.exhausted_limit() {
            self.telemetry.record_limit(limit, &mut self.log);
        }
    }

    /// Reserves the next model round against the deadline and the round limit of the request.
    pub fn start_model_round(&mut self, now: Instant) -> (r: Result<(), ToolRuntimeError>)
        ensures
            match old(self)@.round_complaint(now) {
                Some(error) => r is Err && r->Err_0@ == error && final(self)@
                    == old(self)@.with_error(error),
                None => r is Ok && final(self)@ == old(self)@.round_begun(now),
            },
            old(self)@.wf() ==> final(self)@.wf(),
    {
        if self.remaining(now).is_zero() {
            let error = ToolRuntimeError::deadline_exceeded();
            self.record_error(&error);
            return Err(error);
        }
        let next: usize = match self.rounds.checked_add(1) {
            Some(next) => next,
            None => {
                let error = ToolRuntimeError::limit(
                    "managed tool round limit exceeded",
                    ToolRuntimeLimit::Rounds,
                );
                self.record_error(&error);
                return Err(error);
            },
        };
        if next > self.max_rounds {
            let message = maximum("managed tool round limit exceeded (maximum ", self.max_rounds);
            let error = ToolRuntimeError::limit(message.as_str(), ToolRuntimeLimit::Rounds);
            self.record_error(&error);
            return Err(error);
        }
        self.rounds = next;
        self.telemetry.start_model_round(next, now);
        Ok(())
    }

    pub fn record_model_round(&mut self, outcome: ToolRuntimeOutcome, duration: Duration)
        ensures
            final(self)@ == old(self)@.round_ended(outcome, duration),
            old(self)@.wf() ==> final(self)@.wf(),
    {
        self.telemetry.record_model_round(self.rounds, outcome, duration, &mut self.log);
    }

    pub fn finish_request(&mut self, outcome: ToolRuntimeOutcome)
        ensures
            final(self)@ == old(self)@.request_ended(outcome),
            old(self)@.wf() ==> final(self)@.wf(),
    {
        self.telemetry.record_request(outcome, &mut self.log);
    }

    /// Ends the request, however it came to that: what has not ended is cancelled.
    pub fn close(&mut self, now: Instant)
        requires
            old(self)@.wf(),
        ensures
            final(self)@.wf(),
            final(self)@.telemetry == (TelemetryView {
                request_recorded: true,
                ..old(self)@.telemetry.all_ended()
            }),
            exists|cancelled: Seq<Observation>| #[trigger]
                old(self)@.telemetry.all_cancelled(now, cancelled) && final(self)@.log == old(self)@.log + cancelled + if old(self)@.telemetry.request_recorded {
                    Seq::empty()
                } else {
                    seq![Observation::Request { outcome: ToolRuntimeOutcome::Cancelled }]
                },
    {
        let ghost start = self@;
        self.telemetry.finish_unfinished(now, &mut self.log);
        let ghost cancelled = self.log@.skip(start.log.len() as int);
        assert(self.log@ =~= start.log + cancelled);
        self.telemetry.record_request(ToolRuntimeOutcome::Cancelled, &mut self.log);
        assert(start.telemetry.all_cancelled(now, cancelled));
    }

    /// Reserves calls, and says from which execution index on.
    pub fn reserve_calls(&mut self, count: usize) -> (r: Result<usize, ToolRuntimeError>)
        ensures
            match old(self)@.calls_complaint(count as nat) {
                Some(error) => r is Err && r->Err_0@ == error && final(self)@ == old(self)@,
                None => r == Ok::<usize, ToolRuntimeError>(old(self)@.next_execution_index)
                    && final(self)@ == old(self)@.calls_reserved(count as nat),
            },
            old(self)@.wf() ==> final(self)@.wf(),
    {
        let start: usize = self.next_execution_index;
        let total: usize = match self.tool_calls.checked_add(count) {
            Some(total) => total,
            None => {
                return Err(
                    ToolRuntimeError::limit(
                        "managed tool call limit exceeded",
                        ToolRuntimeLimit::ToolCalls,
                    ),
                );
            },
        };
        if total > self.max_tool_calls {
            let message = maximum(
                "managed tool call limit exceeded (maximum ",
                self.max_tool_calls,
            );
            return Err(
                ToolRuntimeError::limit(message.as_str(), ToolRuntimeLimit::ToolCalls),
            );
        }
        let next: usize = match self.next_execution_index.checked_add(count) {
            Some(next) => next,
            None => {
                return Err(
                    ToolRuntimeError::invalid_configuration("tool execution index overflow"),
                );
            },
        };
        self.tool_calls = total;
        self.next_execution_index = next;
        Ok(start)
    }
}

/// The budget of a request before its first round.
pub open spec fn budget_of(registry: RegistryView, deadline: Instant) -> BudgetView {
    BudgetView {
        deadline,
        max_rounds: registry.limits.max_rounds,
        rounds: 0,
        max_tool_calls: registry.limits.max_tool_calls,
        tool_calls: 0,
        max_parallel_tool_calls: registry.limits.max_parallel_tool_calls,
        max_output_bytes: registry.limits.max_output_bytes,
        request_id: None,
        backends: bindings(registry.tools),
        program_sandbox: exists|j: int|
            0 <= j < registry.tools.len() && (#[trigger] binding(registry.tools[j])).label
                == ToolBackendLabel::E2b,
        program_sandbox_executions: 0,
        next_execution_index: 0,
        telemetry: TelemetryView::none(),
        log: Seq::empty(),
    }
}

impl BudgetView {
    /// After the current round ended.
    pub open spec fn round_ended(self, outcome: ToolRuntimeOutcome, duration: Duration) -> BudgetView {
        BudgetView {
            telemetry: self.telemetry.round_recorded(self.rounds),
            log: self.log + if self.telemetry.recorded_rounds.contains(self.rounds) {
                Seq::empty()
            } else {
                seq![Observation::ModelRound { outcome, duration }]
            },
            ..self
        }
    }

    /// After the request ended.
    pub open spec fn request_ended(self, outcome: ToolRuntimeOutcome) -> BudgetView {
        BudgetView {
            telemetry: TelemetryView { request_recorded: true, ..self.telemetry },
            log: self.log + if self.telemetry.request_recorded {
                Seq::empty()
            } else {
                seq![Observation::Request { outcome }]
            },
            ..self
        }
    }
}

impl Recorded {
    /// After the steps of a sandbox began, each in its turn.
    pub open spec fn steps_begun(self, index: usize, steps: Seq<SandboxOperation>, now: Instant) -> Recorded
        decreases steps.len(),
    {
        if steps.len() == 0 {
            self
        } else {
            let before = self.steps_begun(index, steps.drop_last(), now);
            Recorded {
                state: before.state.operation_started(
                    SandboxKey { execution_index: index, operation: steps.last() },
                    now,
                ),
                ..before
            }
        }
    }

    /// After the unfinished steps of a sandbox ended with it.
    pub open spec fn sandbox_unfinished(
        self,
        index: usize,
        outcome: SandboxOperationOutcome,
        now: Instant,
    ) -> Recorded {
        self.ended(index, SandboxOperation::Execute, outcome, None, false, now).ended(
            index,
            SandboxOperation::Cleanup,
            outcome,
            None,
            true,
            now,
        ).ended(index, SandboxOperation::Create, outcome, None, true, now).ended(
            index,
            SandboxOperation::Terminate,
            outcome,
            None,
            true,
            now,
        )
    }
}

/// Ends the unfinished steps of a sandbox.
pub fn record_unfinished_sandbox(
    telemetry: &mut ToolRuntimeTelemetry,
    execution_index: usize,
    outcome: SandboxOperationOutcome,
    now: Instant,
    log: &mut Vec<Observation>,
)
    ensures
        (Recorded { state: final(telemetry)@, log: final(log)@ }) == (Recorded {
            state: old(telemetry)@,
            log: old(log)@,
        }).sandbox_unfinished(execution_index, outcome, now),
        old(telemetry)@.consistent() ==> final(telemetry)@.consistent(),
{
    telemetry.finish_sandbox_operation(
        execution_index,
        SandboxOperation::Execute,
        outcome,
        now,
        log,
    );
    telemetry.finish_started_sandbox_operation(
        execution_index,
        SandboxOperation::Cleanup,
        outcome,
        now,
        log,
    );
    telemetry.finish_started_sandbox_operation(
        execution_index,
        SandboxOperation::Create,
        outcome,
        now,
        log,
    );
    telemetry.finish_started_sandbox_operation(
        execution_index,
        SandboxOperation::Terminate,
        outcome,
        now,
        log,
    );
}

/// How the run of a program ended: with a report, or not before the deadline of its request.
pub enum ProgramRunEnd {
    Reported(Result<ProgramSandboxExecution, ToolBatchInfrastructureError>),
    OutOfTime,
}

/// What the run of a program gave, and what is known of its sandbox.
pub struct ProgramSandboxExecution {
    pub result: ToolExecutionResult,
    pub metadata: ToolBatchMetadata,
}

impl BudgetView {
    /// The failure of a program that may not run now.
    pub open spec fn program_complaint(self, now: Instant) -> Option<ErrorView> {
        if !self.program_sandbox {
            Some(ErrorView::invalid_configuration("program sandbox backend is not bound"@))
        } else if self.remaining(now) == 0 {
            Some(ErrorView::deadline())
        } else if self.next_execution_index == usize::MAX {
            Some(ErrorView::invalid_configuration("program execution index overflow"@))
        } else if self.program_sandbox_executions == usize::MAX {
            Some(ErrorView::invalid_configuration("program sandbox execution count overflow"@))
        } else {
            None
        }
    }

    /// After the run of a program began, at the index that was next.
    pub open spec fn program_begun(self, now: Instant) -> BudgetView {
        BudgetView {
            next_execution_index: (self.next_execution_index + 1) as usize,
            program_sandbox_executions: (self.program_sandbox_executions + 1) as usize,
            ..self
        }.with_recorded(
            self.recorded().steps_begun(
                self.next_execution_index,
                seq![
                    SandboxOperation::Execute,
                    SandboxOperation::Create,
                    SandboxOperation::Cleanup,
                    SandboxOperation::Terminate,
                ],
                now,
            ),
        )
    }

    /// After a program did not begin.
    pub open spec fn program_refused(self, now: Instant) -> BudgetView {
        match self.program_complaint(now) {
            None => self,
            Some(error) => BudgetView {
                next_execution_index: if self.program_sandbox && self.remaining(now) > 0
                    && self.next_execution_index < usize::MAX {
                    (self.next_execution_index + 1) as usize
                } else {
                    self.next_execution_index
                },
                ..self
            }.with_error(error),
        }
    }

    /// After the run of a program ended, and the failure where it did not end well.
    pub open spec fn program_ended(
        self,
        index: usize,
        failure: Option<ToolInfrastructureError>,
        metadata: ToolBatchMetadata,
        now: Instant,
    ) -> BudgetView {
        match failure {
            None => self.with_recorded(
                metadata_recorded(self.recorded(), index, metadata, None, now),
            ),
            Some(failure) => self.with_recorded(
                metadata_recorded(
                    self.recorded(),
                    index,
                    metadata,
                    Some(
                        if failure == ToolInfrastructureError::Timeout {
                            SandboxOperationOutcome::Timeout
                        } else {
                            SandboxOperationOutcome::Failure
                        },
                    ),
                    now,
                ),
            ).with_error(ErrorView::infrastructure(failure)),
        }
    }

    /// After the run of a program did not end before the deadline.
    pub open spec fn program_timed_out(self, index: usize, now: Instant) -> BudgetView {
        self.with_recorded(
            self.recorded().sandbox_unfinished(index, SandboxOperationOutcome::Timeout, now),
        ).with_error(ErrorView::deadline())
    }
}

impl RuntimeBudget {
    /// Reserves the run of a program: its index, and what its sandbox is told of the request.
    pub fn begin_program(&mut self, now: Instant) -> (r: Result<
        (usize, ToolExecutionContext),
        ToolRuntimeError,
    >)
        ensures
            match r {
                Ok((index, context)) => {
                    &&& old(self)@.program_complaint(now) is None
                    &&& index == old(self)@.next_execution_index
                    &&& optional_text(context.request_id) == old(self)@.request_id
                    &&& context.deadline == Some(old(self)@.deadline)
                    &&& final(self)@ == old(self)@.program_begun(now)
                },
                Err(error) => {
                    &&& old(self)@.program_complaint(now) == Some(error@)
                    &&& final(self)@ == old(self)@.program_refused(now)
                },
            },
            old(self)@.wf() ==> final(self)@.wf(),
    {
        if !self.program_sandbox {
            return Err(
                ToolRuntimeError::invalid_configuration("program sandbox backend is not bound"),
            );
        }
        if self.remaining(now).is_zero() {
            let error = ToolRuntimeError::deadline_exceeded();
            self.record_error(&error);
            return Err(error);
        }
        let index: usize = self.next_execution_index;
        self.next_execution_index = match index.checked_add(1) {
            Some(next) => next,
            None => {
                return Err(
                    ToolRuntimeError::invalid_configuration("program execution index overflow"),
                );
            },
        };
        self.program_sandbox_executions = match self.program_sandbox_executions.checked_add(1) {
            Some(next) => next,
            None => {
                return Err(
                    ToolRuntimeError::invalid_configuration(
                        "program sandbox execution count overflow",
                    ),
                );
            },
        };
        let ghost start = self@.recorded();
        let ghost steps = seq![
            SandboxOperation::Execute,
            SandboxOperation::Create,
            SandboxOperation::Cleanup,
            SandboxOperation::Terminate,
        ];
        self.telemetry.start_sandbox_operation(index, SandboxOperation::Execute, now);
        self.telemetry.start_sandbox_operation(index, SandboxOperation::Create, now);
        self.telemetry.start_sandbox_operation(index, SandboxOperation::Cleanup, now);
        self.telemetry.start_sandbox_operation(index, SandboxOperation::Terminate, now);
        proof {
            reveal_with_fuel(Recorded::steps_begun, 5);
            assert(steps.drop_last().drop_last().drop_last().drop_last() =~= Seq::empty());
        }
        Ok(
            (
                index,
                ToolExecutionContext {
                    request_id: clone_optional(&self.request_id),
                    deadline: Some(self.deadline),
                },
            ),
        )
    }

    /// Ends the run of a program.
    pub fn end_program(&mut self, index: usize, end: ProgramRunEnd, now: Instant) -> (r: Result<
        ProgramSandboxExecution,
        ToolRuntimeError,
    >)
        ensures
            match end {
                ProgramRunEnd::Reported(Ok(execution)) => r is Ok && r->Ok_0 == execution && final(self)@ == old(self)@.program_ended(index, None, execution.metadata, now),
                ProgramRunEnd::Reported(Err(error)) => r is Err && r->Err_0@
                    == ErrorView::infrastructure(error.error) && final(self)@ == old(self)@.program_ended(index, Some(error.error), error.metadata, now),
                ProgramRunEnd::OutOfTime => r is Err && r->Err_0@ == ErrorView::deadline() && final(self)@ == old(self)@.program_timed_out(index, now),
            },
            old(self)@.wf() ==> final(self)@.wf(),
    {
        match end {
            ProgramRunEnd::Reported(Ok(execution)) => {
                telemetry::finish_sandbox_metadata(
                    &mut self.telemetry,
                    index,
                    execution.metadata,
                    None,
                    now,
                    &mut self.log,
                );
                Ok(execution)
            },
            ProgramRunEnd::Reported(Err(failure)) => {
                let fallback = match failure.error {
                    ToolInfrastructureError::Timeout => SandboxOperationOutcome::Timeout,
                    _ => SandboxOperationOutcome::Failure,
                };
                telemetry::finish_sandbox_metadata(
                    &mut self.telemetry,
                    index,
                    failure.metadata,
                    Some(fallback),
                    now,
                    &mut self.log,
                );
                let error = ToolRuntimeError::infrastructure(failure.error);
                self.record_error(&error);
                Err(error)
            },
            ProgramRunEnd::OutOfTime => {
                record_unfinished_sandbox(
                    &mut self.telemetry,
                    index,
                    SandboxOperationOutcome::Timeout,
                    now,
                    &mut self.log,
                );
                let error = ToolRuntimeError::deadline_exceeded();
                self.record_error(&error);
                Err(error)
            },
        }
    }
}

impl Clone for BoundBackend {
    fn clone(&self) -> (r: Self)
        ensures
            r@ == self@,
    {
        BoundBackend {
            internal_name: self.internal_name.clone(),
            label: self.label,
            server: self.server,
        }
    }
}

/// Finds the backend of a tool by its internal name.
pub fn find_bound(backends: &Vec<BoundBackend>, name: &str) -> (r: Option<BoundBackend>)
    ensures
        bound_to(bound_views(backends@), name@) == (match r {
            Some(bound) => Some(bound@),
            None => None,
        }),
{
    let ghost all = bound_views(backends@);
    let mut i: usize = backends.len();
    assert(all.take(i as int) =~= all);
    while i > 0
        invariant
            all == bound_views(backends@),
            i <= backends@.len(),
            bound_to(all, name@) == bound_to(all.take(i as int), name@),
        decreases i,
    {
        i -= 1;
        proof {
            assert(all.take(i + 1).drop_last() =~= all.take(i as int));
            assert(all.take(i + 1).last() == backends@[i as int]@);
        }
        if text::same_text(backends[i].internal_name.as_str(), name) {
            return Some(backends[i].clone());
        }
    }
    None
}

/// Whether two budgets have the same deadline and the same limits.
pub open spec fn same_bounds(a: BudgetView, b: BudgetView) -> bool {
    &&& a.deadline == b.deadline
    &&& a.max_rounds == b.max_rounds
    &&& a.max_tool_calls == b.max_tool_calls
    &&& a.max_parallel_tool_calls == b.max_parallel_tool_calls
    &&& a.max_output_bytes == b.max_output_bytes
    &&& a.backends == b.backends
}

/// Whatever happens to a request, its deadline and its limits never move.
pub proof fn a_budget_keeps_its_deadline_and_limits(
    budget: BudgetView,
    now: Instant,
    outcome: ToolRuntimeOutcome,
    duration: Duration,
    error: ErrorView,
    count: nat,
    index: usize,
    failure: Option<ToolInfrastructureError>,
    metadata: ToolBatchMetadata,
)
    ensures
        same_bounds(budget.with_error(error), budget),
        same_bounds(budget.round_begun(now), budget),
        same_bounds(budget.round_ended(outcome, duration), budget),
        same_bounds(budget.request_ended(outcome), budget),
        same_bounds(budget.calls_reserved(count), budget),
        same_bounds(budget.program_begun(now), budget),
        same_bounds(budget.program_refused(now), budget),
        same_bounds(budget.program_ended(index, failure, metadata, now), budget),
        same_bounds(budget.program_timed_out(index, now), budget),
{
}

} // verus!
