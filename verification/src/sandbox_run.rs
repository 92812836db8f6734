//! The life of one sandbox: it is made, runs its sources one after the other, and is cleaned up.
//!
//! A run says what to do next; whoever drives it does that and reports what came of it.

use vstd::prelude::*;
use vstd::string::*;
use crate::backend::{
    call_views, CallView, ManagedToolCall, ToolBatchExecution, ToolBatchInfrastructureError,
    ToolBatchMetadata, ToolExecutionContext, ToolExecutionResult, ToolInfrastructureError,
};
use crate::config::{
    clone_optional, optional_text, SANDBOX_MAX_BATCH_EXECUTIONS, SANDBOX_MAX_CODE_BYTES,
};
use crate::e2b::{
    bounded_python_source_marked, bounded_source, context_of, counted, cut_mark, execution_read,
    fresh_id, is_fresh_id, lifetime_seconds, operation_report, output_bytes, parse_execution,
    provider_timeout_seconds, read_context, read_sandbox, report_of, result_output_bytes,
    runnable_batch, sandbox_of, E2bSandboxBackend, E2bView, Sandbox, SandboxView, CLEANUP_ATTEMPTS,
    CLEANUP_NANOS, CONTROL_BODY_LIMIT, PROTOCOL_OVERHEAD, PYTHON_CWD, TEMPLATE,
};
use crate::http_backend::is_success;
use crate::json::{Json, JsonView, NumberView};
use crate::output::ResultView;
use crate::program::{program_protocol_stdout_max_bytes, ProgramSandboxRequest};
use crate::registry::optional_json;
use crate::serde_value::{json_parsed_bytes, json_size, parse_bytes, size};
use crate::time::{saturated, Duration, Instant};
use crate::uri::{join_uri, joined_uri};
use crate::text;

verus! {

/// A Python program and the environment that it runs in.
pub struct PythonSource {
    pub code: String,
    pub env_vars: Option<Json>,
}

pub struct SourceView {
    pub code: Seq<char>,
    pub env_vars: Option<JsonView>,
}

impl PythonSource {
    pub open spec fn view(&self) -> SourceView {
        SourceView { code: self.code@, env_vars: optional_json(self.env_vars) }
    }
}

pub open spec fn source_views(sources: Seq<PythonSource>) -> Seq<SourceView> {
    Seq::new(sources.len(), |i: int| sources[i].view())
}

pub open spec fn result_views(results: Seq<ToolExecutionResult>) -> Seq<ResultView> {
    Seq::new(results.len(), |i: int| results[i].view())
}

/// Whether a program and its environment are not too large.
pub open spec fn acceptable_source(source: SourceView, max_response_bytes: usize) -> bool {
    &&& text::byte_len(source.code) <= SANDBOX_MAX_CODE_BYTES
    &&& source.env_vars is Some ==> json_size(source.env_vars->0) <= counted(
        max_response_bytes as nat * 2,
    )
}

/// Whether one sandbox may run these programs.
pub open spec fn acceptable_sources(sources: Seq<SourceView>, max_response_bytes: usize) -> bool {
    &&& 0 < sources.len() <= SANDBOX_MAX_BATCH_EXECUTIONS
    &&& forall|i: int|
        0 <= i < sources.len() ==> acceptable_source(#[trigger] sources[i], max_response_bytes)
}

#[derive(Clone, Copy, Debug, PartialEq, Eq, Structural)]
pub enum SandboxMethod {
    Post,
    Delete,
}

/// How a request says who asks: the provider by the key of the operator, a sandbox by the tokens
/// that it came with.
pub enum SandboxAuth {
    ApiKey(String),
    Tokens { envd: Option<String>, traffic: Option<String> },
}

pub enum AuthView {
    ApiKey(Seq<char>),
    Tokens { envd: Option<Seq<char>>, traffic: Option<Seq<char>> },
}

impl SandboxAuth {
    pub open spec fn view(&self) -> AuthView {
        match *self {
            SandboxAuth::ApiKey(key) => AuthView::ApiKey(key@),
            SandboxAuth::Tokens { envd, traffic } => AuthView::Tokens {
                envd: optional_text(envd),
                traffic: optional_text(traffic),
            },
        }
    }
}

/// A header by its name and its value.
pub open spec fn optional_header(name: Seq<char>, value: Option<Seq<char>>) -> Seq<
    (Seq<char>, Seq<char>),
> {
    match value {
        Some(value) => seq![(name, value)],
        None => Seq::empty(),
    }
}

/// The headers that say who asks.
pub open spec fn auth_headers(auth: AuthView) -> Seq<(Seq<char>, Seq<char>)> {
    match auth {
        AuthView::ApiKey(key) => seq![("X-API-Key"@, key)],
        AuthView::Tokens { envd, traffic } => optional_header("X-Access-Token"@, envd)
            + optional_header("E2B-Traffic-Access-Token"@, traffic),
    }
}

pub open spec fn header_views(headers: Seq<(String, String)>) -> Seq<(Seq<char>, Seq<char>)> {
    Seq::new(headers.len(), |i: int| (headers[i].0@, headers[i].1@))
}

impl SandboxAuth {
    /// The headers that say who asks.
    pub fn headers(&self) -> (r: Vec<(String, String)>)
        ensures
            header_views(r@) == auth_headers(self@),
    {
        let mut headers: Vec<(String, String)> = Vec::new();
        match self {
            SandboxAuth::ApiKey(key) => {
                headers.push(("X-API-Key".to_owned(), key.clone()));
            },
            SandboxAuth::Tokens { envd, traffic } => {
                if let Some(token) = envd {
                    headers.push(("X-Access-Token".to_owned(), token.clone()));
                }
                if let Some(token) = traffic {
                    headers.push(("E2B-Traffic-Access-Token".to_owned(), token.clone()));
                }
            },
        }
        assert(header_views(headers@) =~= auth_headers(self@));
        headers
    }

    /// The failure of a request where such a header cannot be sent.
    pub fn header_failure(&self) -> (r: ToolInfrastructureError)
        ensures
            r == (match self@ {
                AuthView::ApiKey(_) => ToolInfrastructureError::Configuration,
                AuthView::Tokens { .. } => ToolInfrastructureError::Backend,
            }),
    {
        match self {
            SandboxAuth::ApiKey(_) => ToolInfrastructureError::configuration(),
            SandboxAuth::Tokens { .. } => ToolInfrastructureError::backend(),
        }
    }
}

/// One request to the provider or to a sandbox.
pub struct SandboxRequest {
    pub method: SandboxMethod,
    pub uri: String,
    pub body: Option<Json>,
    pub auth: SandboxAuth,
    pub body_limit: usize,
    pub deadline: Instant,
}

pub struct RequestStepView {
    pub method: SandboxMethod,
    pub uri: Seq<char>,
    pub body: Option<JsonView>,
    pub auth: AuthView,
    pub body_limit: usize,
    pub deadline: Instant,
}

impl SandboxRequest {
    pub open spec fn view(&self) -> RequestStepView {
        RequestStepView {
            method: self.method,
            uri: self.uri@,
            body: optional_json(self.body),
            auth: self.auth@,
            body_limit: self.body_limit,
            deadline: self.deadline,
        }
    }

    /// How long the request may take.
    pub fn time_left(&self, now: Instant) -> (r: Result<Duration, ToolInfrastructureError>)
        ensures
            r == (if self@.deadline.nanos <= now.nanos {
                Err(ToolInfrastructureError::Timeout)
            } else {
                Ok(Duration { nanos: (self@.deadline.nanos - now.nanos) as u64 })
            }),
    {
        let remaining = self.deadline.since(now);
        if remaining.is_zero() {
            Err(ToolInfrastructureError::timeout())
        } else {
            Ok(remaining)
        }
    }

    /// Whether the body of an answer with this status is read.
    pub fn reads_body(&self, status: u16) -> (r: bool)
        ensures
            r == (self@.body_limit != 0 && is_success(status)),
    {
        self.body_limit != 0 && 200 <= status && status < 300
    }
}

/// What came of a request: an answer, with the failure that its status would be, or none.
pub enum SandboxReply {
    Answered { status: u16, refusal: ToolInfrastructureError, body: Vec<u8> },
    Failed(ToolInfrastructureError),
}

pub enum ReplyView {
    Answered { status: u16, refusal: ToolInfrastructureError, body: Seq<u8> },
    Failed(ToolInfrastructureError),
}

impl SandboxReply {
    pub open spec fn view(&self) -> ReplyView {
        match *self {
            SandboxReply::Answered { status, refusal, body } => ReplyView::Answered {
                status,
                refusal,
                body: body@,
            },
            SandboxReply::Failed(error) => ReplyView::Failed(error),
        }
    }
}

/// What was done since the last step.
pub enum SandboxEvent {
    Replied(SandboxReply),
    DomainChecked(bool),
    CleanedUp(bool),
}

pub enum EventView {
    Replied(ReplyView),
    DomainChecked(bool),
    CleanedUp(bool),
}

impl SandboxEvent {
    pub open spec fn view(&self) -> EventView {
        match *self {
            SandboxEvent::Replied(reply) => EventView::Replied(reply@),
            SandboxEvent::DomainChecked(valid) => EventView::DomainChecked(valid),
            SandboxEvent::CleanedUp(terminated) => EventView::CleanedUp(terminated),
        }
    }
}

/// What to do next: send a request, judge a domain, clean a sandbox up, or nothing more.
pub enum SandboxStep {
    Send(SandboxRequest),
    CheckDomain(String),
    CleanUp(String),
    Finish(Result<ToolBatchExecution, ToolBatchInfrastructureError>),
}

pub enum StepView {
    Send(RequestStepView),
    CheckDomain(Seq<char>),
    CleanUp(Seq<char>),
    Finish(Result<(Seq<ResultView>, ToolBatchMetadata), ToolBatchInfrastructureError>),
}

impl SandboxStep {
    pub open spec fn view(&self) -> StepView {
        match *self {
            SandboxStep::Send(request) => StepView::Send(request@),
            SandboxStep::CheckDomain(domain) => StepView::CheckDomain(domain@),
            SandboxStep::CleanUp(id) => StepView::CleanUp(id@),
            SandboxStep::Finish(Ok(batch)) => StepView::Finish(
                Ok((result_views(batch.results@), batch.metadata)),
            ),
            SandboxStep::Finish(Err(error)) => StepView::Finish(Err(error)),
        }
    }
}

/// How far a run has come.
pub enum SandboxPhase {
    Creating,
    Checking(Sandbox),
    Opening(Sandbox),
    Executing { sandbox: Sandbox, context: String, marker: String },
    Removing { sandbox: Sandbox, marker: String, execution: SandboxReply },
    Cleaning(Option<ToolInfrastructureError>),
    Finished,
}

pub enum PhaseView {
    Creating,
    Checking(SandboxView),
    Opening(SandboxView),
    Executing { sandbox: SandboxView, context: Seq<char>, marker: Seq<char> },
    Removing { sandbox: SandboxView, marker: Seq<char>, execution: ReplyView },
    Cleaning(Option<ToolInfrastructureError>),
    Finished,
}

impl SandboxPhase {
    pub open spec fn view(&self) -> PhaseView {
        match *self {
            SandboxPhase::Creating => PhaseView::Creating,
            SandboxPhase::Checking(sandbox) => PhaseView::Checking(sandbox@),
            SandboxPhase::Opening(sandbox) => PhaseView::Opening(sandbox@),
            SandboxPhase::Executing { sandbox, context, marker } => PhaseView::Executing {
                sandbox: sandbox@,
                context: context@,
                marker: marker@,
            },
            SandboxPhase::Removing { sandbox, marker, execution } => PhaseView::Removing {
                sandbox: sandbox@,
                marker: marker@,
                execution: execution@,
            },
            SandboxPhase::Cleaning(error) => PhaseView::Cleaning(error),
            SandboxPhase::Finished => PhaseView::Finished,
        }
    }
}

/// One sandbox and what it has done so far.
pub struct SandboxRun {
    pub backend: E2bSandboxBackend,
    pub sources: Vec<PythonSource>,
    pub operation_deadline: Instant,
    pub deadline: Instant,
    pub remaining_output: usize,
    pub results: Vec<ToolExecutionResult>,
    pub metadata: ToolBatchMetadata,
    /// When the current part of the run began.
    pub started: Instant,
    pub phase: SandboxPhase,
}

pub struct RunView {
    pub backend: E2bView,
    pub sources: Seq<SourceView>,
    pub operation_deadline: Instant,
    pub deadline: Instant,
    pub remaining_output: usize,
    pub results: Seq<ResultView>,
    pub metadata: ToolBatchMetadata,
    pub started: Instant,
    pub phase: PhaseView,
}

impl SandboxRun {
    pub open spec fn view(&self) -> RunView {
        RunView {
            backend: self.backend@,
            sources: source_views(self.sources@),
            operation_deadline: self.operation_deadline,
            deadline: self.deadline,
            remaining_output: self.remaining_output,
            results: result_views(self.results@),
            metadata: self.metadata,
            started: self.started,
            phase: self.phase@,
        }
    }
}

/// The request that makes a sandbox.
pub open spec fn creation(backend: E2bView, deadline: Instant, now: Instant) -> Result<
    RequestStepView,
    ToolInfrastructureError,
> {
    match joined_uri(backend.api, "/sandboxes"@) {
        None => Err(ToolInfrastructureError::Configuration),
        Some(uri) => match lifetime_seconds(backend.timeout, deadline, now) {
            Err(error) => Err(error),
            Ok(seconds) => Ok(
                RequestStepView {
                    method: SandboxMethod::Post,
                    uri,
                    body: Some(
                        JsonView::empty().with("templateID"@, JsonView::Text(TEMPLATE@)).with(
                            "timeout"@,
                            JsonView::Number(NumberView::Unsigned(seconds)),
                        ).with("secure"@, JsonView::Bool(true)),
                    ),
                    auth: AuthView::ApiKey(backend.api_key),
                    body_limit: CONTROL_BODY_LIMIT,
                    deadline,
                },
            ),
        },
    }
}

/// A request to a sandbox.
pub open spec fn sandbox_request(
    sandbox: SandboxView,
    method: SandboxMethod,
    uri: Seq<char>,
    body: Option<JsonView>,
    body_limit: usize,
    deadline: Instant,
) -> RequestStepView {
    RequestStepView {
        method,
        uri,
        body,
        auth: AuthView::Tokens {
            envd: sandbox.envd_access_token,
            traffic: sandbox.traffic_access_token,
        },
        body_limit,
        deadline,
    }
}

/// The end of a batch by the earlier of its own timeout and the deadline of its request.
pub open spec fn batch_deadline(timeout: Duration, deadline: Option<Instant>, now: Instant) -> Instant {
    let own = Instant { nanos: saturated(now.nanos + timeout.nanos) };
    match deadline {
        Some(deadline) => if deadline.nanos <= own.nanos {
            deadline
        } else {
            own
        },
        None => own,
    }
}

/// How much of the time left is kept for the cleanup.
pub open spec fn cleanup_reserve(remaining: u64) -> u64 {
    if CLEANUP_NANOS <= remaining / 4 {
        CLEANUP_NANOS
    } else {
        remaining / 4
    }
}

/// The first step of a run.
pub open spec fn run_begun(
    backend: E2bView,
    sources: Seq<SourceView>,
    deadline: Option<Instant>,
    max_output_bytes: usize,
    now: Instant,
) -> Result<(RunView, StepView), ToolBatchInfrastructureError> {
    let end = batch_deadline(backend.timeout, deadline, now);
    let remaining = saturated(end.nanos - now.nanos);
    let operation_deadline = Instant { nanos: (end.nanos - cleanup_reserve(remaining)) as u64 };
    if !acceptable_sources(sources, backend.max_response_bytes) {
        Err(
            ToolBatchInfrastructureError {
                error: ToolInfrastructureError::Configuration,
                metadata: ToolBatchMetadata::nothing(),
            },
        )
    } else if remaining == 0 {
        Err(
            ToolBatchInfrastructureError {
                error: ToolInfrastructureError::Timeout,
                metadata: ToolBatchMetadata::nothing(),
            },
        )
    } else {
        match creation(backend, operation_deadline, now) {
            Err(error) => Err(
                ToolBatchInfrastructureError {
                    error,
                    metadata: ToolBatchMetadata {
                        sandbox_create: Some(report_of(false, now, now)),
                        ..ToolBatchMetadata::nothing()
                    },
                },
            ),
            Ok(request) => Ok(
                (
                    RunView {
                        backend,
                        sources,
                        operation_deadline,
                        deadline: end,
                        remaining_output: max_output_bytes,
                        results: Seq::empty(),
                        metadata: ToolBatchMetadata::nothing(),
                        started: now,
                        phase: PhaseView::Creating,
                    },
                    StepView::Send(request),
                ),
            ),
        }
    }
}

impl RunView {
    /// A run has a source left to run while it runs one, and no source is too large.
    pub open spec fn wf(self) -> bool {
        &&& acceptable_sources(self.sources, self.backend.max_response_bytes)
        &&& self.results.len() <= self.sources.len()
        &&& (self.phase is Opening || self.phase is Executing || self.phase is Removing)
            ==> self.results.len() < self.sources.len()
    }

    /// Whether a run waits for this event.
    pub open spec fn expects(self, event: EventView) -> bool {
        match self.phase {
            PhaseView::Creating => event is Replied,
            PhaseView::Checking(_) => event is DomainChecked,
            PhaseView::Opening(_) => event is Replied,
            PhaseView::Executing { .. } => event is Replied,
            PhaseView::Removing { .. } => event is Replied,
            PhaseView::Cleaning(_) => event is CleanedUp,
            PhaseView::Finished => false,
        }
    }

    /// Whether a step leaves a run waiting for what the step leads to.
    pub open spec fn awaits(self, step: StepView) -> bool {
        match step {
            StepView::Send(_) => self.phase is Creating || self.phase is Opening
                || self.phase is Executing || self.phase is Removing,
            StepView::CheckDomain(_) => self.phase is Checking,
            StepView::CleanUp(_) => self.phase is Cleaning,
            StepView::Finish(_) => self.phase is Finished,
        }
    }

    /// The end of a run, with nothing to clean up.
    pub open spec fn failed(self, error: ToolInfrastructureError, metadata: ToolBatchMetadata) -> (
        RunView,
        StepView,
    ) {
        (
            RunView { phase: PhaseView::Finished, metadata, ..self },
            StepView::Finish(Err(ToolBatchInfrastructureError { error, metadata })),
        )
    }

    /// The execution is over, well or not: the sandbox is cleaned up.
    pub open spec fn closed_up(
        self,
        sandbox: SandboxView,
        error: Option<ToolInfrastructureError>,
        now: Instant,
    ) -> (RunView, StepView) {
        (
            RunView {
                metadata: ToolBatchMetadata {
                    sandbox_execute: Some(report_of(error is None, self.started, now)),
                    ..self.metadata
                },
                started: now,
                phase: PhaseView::Cleaning(error),
                ..self
            },
            StepView::CleanUp(sandbox.sandbox_id),
        )
    }

    /// Asks for a context for the next source, or ends the execution where none is left.
    pub open spec fn opened(self, sandbox: SandboxView, now: Instant) -> (RunView, StepView) {
        if self.results.len() >= self.sources.len() {
            self.closed_up(sandbox, None, now)
        } else {
            match self.backend.origin(sandbox, true) {
                Err(error) => self.closed_up(sandbox, Some(error), now),
                Ok(origin) => match joined_uri(origin, "/contexts"@) {
                    None => self.closed_up(
                        sandbox,
                        Some(ToolInfrastructureError::Configuration),
                        now,
                    ),
                    Some(uri) => (
                        RunView { phase: PhaseView::Opening(sandbox), ..self },
                        StepView::Send(
                            sandbox_request(
                                sandbox,
                                SandboxMethod::Post,
                                uri,
                                Some(
                                    JsonView::empty().with(
                                        "language"@,
                                        JsonView::Text("python"@),
                                    ).with("cwd"@, JsonView::Text(PYTHON_CWD@)),
                                ),
                                CONTROL_BODY_LIMIT,
                                self.operation_deadline,
                            ),
                        ),
                    ),
                },
            }
        }
    }

    /// A sandbox is made and may be used.
    pub open spec fn made(self, sandbox: SandboxView, now: Instant) -> (RunView, StepView) {
        RunView {
            metadata: ToolBatchMetadata {
                sandbox_create: Some(report_of(true, self.started, now)),
                ..self.metadata
            },
            started: now,
            ..self
        }.opened(sandbox, now)
    }

    /// The creation of the sandbox was answered.
    pub open spec fn creation_answered(self, reply: ReplyView, now: Instant) -> (RunView, StepView) {
        let unmade = ToolBatchMetadata {
            sandbox_create: Some(report_of(false, self.started, now)),
            ..self.metadata
        };
        match reply {
            ReplyView::Failed(error) => self.failed(error, unmade),
            ReplyView::Answered { status, refusal, body } => if status != 201 {
                self.failed(refusal, unmade)
            } else {
                match created_sandbox(body) {
                    None => self.failed(ToolInfrastructureError::Backend, unmade),
                    Some(sandbox) => match sandbox.domain {
                        Some(domain) => (
                            RunView { phase: PhaseView::Checking(sandbox), ..self },
                            StepView::CheckDomain(domain),
                        ),
                        None => self.made(sandbox, now),
                    },
                }
            },
        }
    }

    /// The domain of the sandbox was judged.
    pub open spec fn domain_judged(self, sandbox: SandboxView, valid: bool, now: Instant) -> (
        RunView,
        StepView,
    ) {
        if valid {
            self.made(sandbox, now)
        } else {
            (
                RunView {
                    metadata: ToolBatchMetadata {
                        sandbox_create: Some(report_of(false, self.started, now)),
                        ..self.metadata
                    },
                    started: now,
                    phase: PhaseView::Cleaning(Some(ToolInfrastructureError::Backend)),
                    ..self
                },
                StepView::CleanUp(sandbox.sandbox_id),
            )
        }
    }

    /// The request for a context was answered: the source is run there.
    pub open spec fn context_answered(
        self,
        sandbox: SandboxView,
        reply: ReplyView,
        id: Seq<char>,
        now: Instant,
    ) -> (RunView, StepView) {
        match context_read(reply) {
            Err(error) => self.closed_up(sandbox, Some(error), now),
            Ok(context) => match self.backend.origin(sandbox, true) {
                Err(error) => self.closed_up(sandbox, Some(error), now),
                Ok(origin) => match joined_uri(origin, "/execute"@) {
                    None => self.closed_up(
                        sandbox,
                        Some(ToolInfrastructureError::Configuration),
                        now,
                    ),
                    Some(uri) => {
                        let source = self.sources[self.results.len() as int];
                        (
                            RunView {
                                phase: PhaseView::Executing {
                                    sandbox,
                                    context,
                                    marker: cut_mark(id),
                                },
                                ..self
                            },
                            StepView::Send(
                                sandbox_request(
                                    sandbox,
                                    SandboxMethod::Post,
                                    uri,
                                    Some(
                                        execution_body(
                                            bounded_source(
                                                source.code,
                                                self.remaining_output as nat,
                                                id,
                                            ),
                                            context,
                                            source.env_vars,
                                        ),
                                    ),
                                    counted(
                                        self.remaining_output as nat + PROTOCOL_OVERHEAD as nat,
                                    ) as usize,
                                    self.operation_deadline,
                                ),
                            ),
                        )
                    },
                },
            },
        }
    }

    /// The execution was answered: the context is removed, whatever the answer is.
    pub open spec fn execution_answered(
        self,
        sandbox: SandboxView,
        context: Seq<char>,
        marker: Seq<char>,
        reply: ReplyView,
        now: Instant,
    ) -> (RunView, StepView) {
        match self.backend.origin(sandbox, true) {
            Err(error) => self.closed_up(sandbox, Some(error), now),
            Ok(origin) => match joined_uri(origin, "/contexts/"@ + context) {
                None => self.closed_up(
                    sandbox,
                    Some(ToolInfrastructureError::Configuration),
                    now,
                ),
                Some(uri) => (
                    RunView {
                        phase: PhaseView::Removing { sandbox, marker, execution: reply },
                        ..self
                    },
                    StepView::Send(
                        sandbox_request(
                            sandbox,
                            SandboxMethod::Delete,
                            uri,
                            None,
                            0,
                            self.operation_deadline,
                        ),
                    ),
                ),
            },
        }
    }

    /// The removal of the context was answered: the source has its result, and the next one runs.
    pub open spec fn removal_answered(
        self,
        sandbox: SandboxView,
        marker: Seq<char>,
        execution: ReplyView,
        removal: ReplyView,
        now: Instant,
    ) -> (RunView, StepView) {
        match source_result(execution, removal, self.remaining_output, marker) {
            Err(error) => self.closed_up(sandbox, Some(error), now),
            Ok(result) => RunView {
                results: self.results.push(result),
                remaining_output: saturated_difference(self.remaining_output, output_bytes(result)),
                ..self
            }.opened(sandbox, now),
        }
    }

    /// The sandbox was cleaned up, or not.
    pub open spec fn cleaned_up(
        self,
        error: Option<ToolInfrastructureError>,
        terminated: bool,
        now: Instant,
    ) -> (RunView, StepView) {
        let report = report_of(terminated, self.started, now);
        let metadata = ToolBatchMetadata {
            sandbox_terminate: Some(report),
            sandbox_cleanup: Some(report.outcome),
            sandbox_cleanup_duration: Some(report.duration),
            ..self.metadata
        };
        match error {
            Some(error) => self.failed(error, metadata),
            None => if !terminated {
                self.failed(ToolInfrastructureError::Backend, metadata)
            } else {
                (
                    RunView {
                        phase: PhaseView::Finished,
                        metadata,
                        results: Seq::empty(),
                        ..self
                    },
                    StepView::Finish(Ok((self.results, metadata))),
                )
            },
        }
    }

    /// What follows an event.
    pub open spec fn after(self, event: EventView, id: Seq<char>, now: Instant) -> (
        RunView,
        StepView,
    ) {
        match (self.phase, event) {
            (PhaseView::Creating, EventView::Replied(reply)) => self.creation_answered(reply, now),
            (PhaseView::Checking(sandbox), EventView::DomainChecked(valid)) => self.domain_judged(
                sandbox,
                valid,
                now,
            ),
            (PhaseView::Opening(sandbox), EventView::Replied(reply)) => self.context_answered(
                sandbox,
                reply,
                id,
                now,
            ),
            (
                PhaseView::Executing { sandbox, context, marker },
                EventView::Replied(reply),
            ) => self.execution_answered(sandbox, context, marker, reply, now),
            (
                PhaseView::Removing { sandbox, marker, execution },
                EventView::Replied(reply),
            ) => self.removal_answered(sandbox, marker, execution, reply, now),
            (PhaseView::Cleaning(error), EventView::CleanedUp(terminated)) => self.cleaned_up(
                error,
                terminated,
                now,
            ),
            _ => arbitrary(),
        }
    }
}

/// The sandbox that an answer names, where it does.
pub open spec fn created_sandbox(body: Seq<u8>) -> Option<SandboxView> {
    match json_parsed_bytes(body) {
        Ok(value) => sandbox_of(value),
        Err(_) => None,
    }
}

/// The context that an answer names.
pub open spec fn context_read(reply: ReplyView) -> Result<Seq<char>, ToolInfrastructureError> {
    match reply {
        ReplyView::Failed(error) => Err(error),
        ReplyView::Answered { status, refusal, body } => if !is_success(status) {
            Err(refusal)
        } else {
            match json_parsed_bytes(body) {
                Err(_) => Err(ToolInfrastructureError::Backend),
                Ok(value) => match context_of(value) {
                    Some(id) => Ok(id),
                    None => Err(ToolInfrastructureError::Backend),
                },
            }
        },
    }
}

/// The body of the request that runs a program in a context.
pub open spec fn execution_body(code: Seq<char>, context: Seq<char>, env_vars: Option<JsonView>) -> JsonView {
    JsonView::empty().with("code"@, JsonView::Text(code)).with(
        "context_id"@,
        JsonView::Text(context),
    ).with("language"@, JsonView::Null).with(
        "env_vars"@,
        match env_vars {
            Some(env_vars) => env_vars,
            None => JsonView::Null,
        },
    )
}

/// The result of a source, from the answers to its execution and to the removal of its context.
pub open spec fn source_result(
    execution: ReplyView,
    removal: ReplyView,
    max: usize,
    marker: Seq<char>,
) -> Result<ResultView, ToolInfrastructureError> {
    match (execution, removal) {
        (ReplyView::Failed(error), _) => Err(error),
        (_, ReplyView::Failed(error)) => Err(error),
        (
            ReplyView::Answered { status, refusal, body },
            ReplyView::Answered { status: removed, refusal: unremoved, body: _ },
        ) => if !is_success(removed) {
            Err(unremoved)
        } else if !is_success(status) {
            Err(refusal)
        } else {
            execution_read(body, max, marker)
        },
    }
}

/// What is left of a number of bytes.
pub open spec fn saturated_difference(n: usize, m: nat) -> usize {
    if m >= n {
        0
    } else {
        (n - m) as usize
    }
}

/// Whether one sandbox may run these programs.
fn check_sources(sources: &Vec<PythonSource>, max_response_bytes: usize) -> (r: bool)
    ensures
        r == acceptable_sources(source_views(sources@), max_response_bytes),
{
    let ghost all = source_views(sources@);
    if sources.len() == 0 || sources.len() > SANDBOX_MAX_BATCH_EXECUTIONS {
        return false;
    }
    let allowed: usize = max_response_bytes.saturating_add(max_response_bytes);
    let mut i: usize = 0;
    while i < sources.len()
        invariant
            all == source_views(sources@),
            allowed == counted(max_response_bytes as nat * 2),
            i <= sources@.len(),
            forall|k: int| 0 <= k < i ==> acceptable_source(#[trigger] all[k], max_response_bytes),
        decreases sources@.len() - i,
    {
        assert(all[i as int] == sources@[i as int]@);
        if text::byte_length(sources[i].code.as_str()) > SANDBOX_MAX_CODE_BYTES {
            return false;
        }
        if let Some(env_vars) = &sources[i].env_vars {
            if size(env_vars) > allowed {
                return false;
            }
        }
        i += 1;
    }
    true
}

fn creation_request(backend: &E2bSandboxBackend, deadline: Instant, now: Instant) -> (r: Result<
    SandboxRequest,
    ToolInfrastructureError,
>)
    ensures
        creation(backend@, deadline, now) == (match r {
            Ok(request) => Ok(request@),
            Err(error) => Err(error),
        }),
{
    let uri = match join_uri(&backend.api, "/sandboxes") {
        Ok(uri) => uri,
        Err(error) => {
            return Err(error);
        },
    };
    let seconds: u64 = match provider_timeout_seconds(backend.timeout, deadline, now) {
        Ok(seconds) => seconds,
        Err(error) => {
            return Err(error);
        },
    };
    let body = Json::object().having("templateID", Json::text(TEMPLATE)).having(
        "timeout",
        Json::unsigned(seconds),
    ).having("secure", Json::Bool(true));
    Ok(
        SandboxRequest {
            method: SandboxMethod::Post,
            uri,
            body: Some(body),
            auth: SandboxAuth::ApiKey(backend.api_key.clone()),
            body_limit: CONTROL_BODY_LIMIT,
            deadline,
        },
    )
}

fn request_to(
    sandbox: &Sandbox,
    method: SandboxMethod,
    uri: String,
    body: Option<Json>,
    body_limit: usize,
    deadline: Instant,
) -> (r: SandboxRequest)
    ensures
        r@ == sandbox_request(
            sandbox@,
            method,
            uri@,
            optional_json(body),
            body_limit,
            deadline,
        ),
{
    SandboxRequest {
        method,
        uri,
        body,
        auth: SandboxAuth::Tokens {
            envd: clone_optional(&sandbox.envd_access_token),
            traffic: clone_optional(&sandbox.traffic_access_token),
        },
        body_limit,
        deadline,
    }
}

fn read_context_reply(reply: &SandboxReply) -> (r: Result<String, ToolInfrastructureError>)
    ensures
        crate::uri::text_result(r) == context_read(reply@),
{
    match reply {
        SandboxReply::Failed(error) => Err(*error),
        SandboxReply::Answered { status, refusal, body } => {
            if *status < 200 || *status >= 300 {
                return Err(*refusal);
            }
            let value = match parse_bytes(body.as_slice()) {
                Ok(value) => value,
                Err(_) => {
                    return Err(ToolInfrastructureError::backend());
                },
            };
            match read_context(&value) {
                Some(id) => Ok(id),
                None => Err(ToolInfrastructureError::backend()),
            }
        },
    }
}

/// Reads the result of a source from the answers to its execution and to the removal of its
/// context.
pub fn read_source_result(
    execution: &SandboxReply,
    removal: &SandboxReply,
    max_output_bytes: usize,
    marker: &str,
) -> (r: Result<ToolExecutionResult, ToolInfrastructureError>)
    ensures
        crate::http_backend::execution_result(r) == source_result(
            execution@,
            removal@,
            max_output_bytes,
            marker@,
        ),
{
    match (execution, removal) {
        (SandboxReply::Failed(error), _) => Err(*error),
        (_, SandboxReply::Failed(error)) => Err(*error),
        (
            SandboxReply::Answered { status, refusal, body },
            SandboxReply::Answered { status: removed, refusal: unremoved, body: _ },
        ) => {
            if *removed < 200 || *removed >= 300 {
                return Err(*unremoved);
            }
            if *status < 200 || *status >= 300 {
                return Err(*refusal);
            }
            parse_execution(body.as_slice(), max_output_bytes, marker)
        },
    }
}

impl SandboxRun {
    /// Begins a run, or says why it cannot begin.
    pub fn begin(
        backend: E2bSandboxBackend,
        sources: Vec<PythonSource>,
        deadline: Option<Instant>,
        max_output_bytes: usize,
        now: Instant,
    ) -> (r: Result<(SandboxRun, SandboxStep), ToolBatchInfrastructureError>)
        ensures
            run_begun(backend@, source_views(sources@), deadline, max_output_bytes, now) == (match r {
                Ok((run, step)) => Ok((run@, step@)),
                Err(error) => Err(error),
            }),
            match r {
                Ok((run, step)) => run@.wf() && run@.awaits(step@),
                Err(_) => true,
            },
    {
        if !check_sources(&sources, backend.max_response_bytes) {
            return Err(
                ToolBatchInfrastructureError::from(ToolInfrastructureError::configuration()),
            );
        }
        let own = now.after(backend.timeout);
        let end = match deadline {
            Some(deadline) => if deadline.nanos <= own.nanos {
                deadline
            } else {
                own
            },
            None => own,
        };
        let remaining = end.since(now);
        if remaining.is_zero() {
            return Err(ToolBatchInfrastructureError::from(ToolInfrastructureError::timeout()));
        }
        let quarter: u64 = remaining.nanos / 4;
        let reserve: u64 = if CLEANUP_NANOS <= quarter {
            CLEANUP_NANOS
        } else {
            quarter
        };
        let operation_deadline = Instant { nanos: end.nanos - reserve };
        let mut metadata = ToolBatchMetadata::default();
        let request = match creation_request(&backend, operation_deadline, now) {
            Ok(request) => request,
            Err(error) => {
                metadata.sandbox_create = Some(operation_report(false, now, now));
                return Err(ToolBatchInfrastructureError::new(error, metadata));
            },
        };
        let run = SandboxRun {
            backend,
            sources,
            operation_deadline,
            deadline: end,
            remaining_output: max_output_bytes,
            results: Vec::new(),
            metadata,
            started: now,
            phase: SandboxPhase::Creating,
        };
        assert(run@.results =~= Seq::empty());
        Ok((run, SandboxStep::Send(request)))
    }

    fn fail(self, error: ToolInfrastructureError, metadata: ToolBatchMetadata) -> (r: (
        SandboxRun,
        SandboxStep,
    ))
        ensures
            (r.0@, r.1@) == self@.failed(error, metadata),
    {
        let mut run = self;
        run.metadata = metadata;
        run.phase = SandboxPhase::Finished;
        (run, SandboxStep::Finish(Err(ToolBatchInfrastructureError::new(error, metadata))))
    }

    fn close_up(self, sandbox: Sandbox, error: Option<ToolInfrastructureError>, now: Instant) -> (r:
        (SandboxRun, SandboxStep))
        ensures
            (r.0@, r.1@) == self@.closed_up(sandbox@, error, now),
    {
        let mut run = self;
        run.metadata.sandbox_execute = Some(operation_report(error.is_none(), run.started, now));
        run.started = now;
        run.phase = SandboxPhase::Cleaning(error);
        (run, SandboxStep::CleanUp(sandbox.sandbox_id))
    }

    /// The URI of a path at a sandbox. Its domain is valid: the one that a sandbox names was judged
    /// before the sandbox was used, and the provider's with the backend.
    fn address(&self, sandbox: &Sandbox, path: &str) -> (r: Result<String, ToolInfrastructureError>)
        ensures
            crate::uri::text_result(r) == (match self@.backend.origin(sandbox@, true) {
                Err(error) => Err(error),
                Ok(origin) => match joined_uri(origin, path@) {
                    None => Err(ToolInfrastructureError::Configuration),
                    Some(uri) => Ok(uri),
                },
            }),
    {
        match self.backend.data_plane_origin(sandbox, true) {
            Ok(origin) => join_uri(&origin, path),
            Err(error) => Err(error),
        }
    }

    fn open(self, sandbox: Sandbox, now: Instant) -> (r: (SandboxRun, SandboxStep))
        ensures
            (r.0@, r.1@) == self@.opened(sandbox@, now),
    {
        if self.results.len() >= self.sources.len() {
            return self.close_up(sandbox, None, now);
        }
        let uri = match self.address(&sandbox, "/contexts") {
            Ok(uri) => uri,
            Err(error) => {
                return self.close_up(sandbox, Some(error), now);
            },
        };
        let body = Json::object().having("language", Json::text("python")).having(
            "cwd",
            Json::text(PYTHON_CWD),
        );
        let request = request_to(
            &sandbox,
            SandboxMethod::Post,
            uri,
            Some(body),
            CONTROL_BODY_LIMIT,
            self.operation_deadline,
        );
        let mut run = self;
        run.phase = SandboxPhase::Opening(sandbox);
        (run, SandboxStep::Send(request))
    }

    fn use_sandbox(self, sandbox: Sandbox, now: Instant) -> (r: (SandboxRun, SandboxStep))
        ensures
            (r.0@, r.1@) == self@.made(sandbox@, now),
    {
        let mut run = self;
        run.metadata.sandbox_create = Some(operation_report(true, run.started, now));
        run.started = now;
        run.open(sandbox, now)
    }

    fn answer_creation(self, reply: SandboxReply, now: Instant) -> (r: (SandboxRun, SandboxStep))
        ensures
            (r.0@, r.1@) == self@.creation_answered(reply@, now),
    {
        let mut unmade = self.metadata;
        unmade.sandbox_create = Some(operation_report(false, self.started, now));
        match reply {
            SandboxReply::Failed(error) => self.fail(error, unmade),
            SandboxReply::Answered { status, refusal, body } => {
                if status != 201 {
                    return self.fail(refusal, unmade);
                }
                let found = match parse_bytes(body.as_slice()) {
                    Ok(value) => read_sandbox(&value),
                    Err(_) => None,
                };
                let sandbox = match found {
                    Some(sandbox) => sandbox,
                    None => {
                        return self.fail(ToolInfrastructureError::backend(), unmade);
                    },
                };
                match clone_optional(&sandbox.domain) {
                    Some(domain) => {
                        let mut run = self;
                        run.phase = SandboxPhase::Checking(sandbox);
                        (run, SandboxStep::CheckDomain(domain))
                    },
                    None => self.use_sandbox(sandbox, now),
                }
            },
        }
    }

    fn judge_domain(self, sandbox: Sandbox, valid: bool, now: Instant) -> (r: (
        SandboxRun,
        SandboxStep,
    ))
        ensures
            (r.0@, r.1@) == self@.domain_judged(sandbox@, valid, now),
    {
        if valid {
            return self.use_sandbox(sandbox, now);
        }
        let mut run = self;
        run.metadata.sandbox_create = Some(operation_report(false, run.started, now));
        run.started = now;
        run.phase = SandboxPhase::Cleaning(Some(ToolInfrastructureError::backend()));
        (run, SandboxStep::CleanUp(sandbox.sandbox_id))
    }

    fn answer_context(self, sandbox: Sandbox, reply: SandboxReply, id: &str, now: Instant) -> (r: (
        SandboxRun,
        SandboxStep,
    ))
        requires
            self@.wf(),
            self@.results.len() < self@.sources.len(),
        ensures
            (r.0@, r.1@) == self@.context_answered(sandbox@, reply@, id@, now),
    {
        let context = match read_context_reply(&reply) {
            Ok(context) => context,
            Err(error) => {
                return self.close_up(sandbox, Some(error), now);
            },
        };
        let uri = match self.address(&sandbox, "/execute") {
            Ok(uri) => uri,
            Err(error) => {
                return self.close_up(sandbox, Some(error), now);
            },
        };
        let place: usize = self.results.len();
        proof {
            assert(self@.sources[place as int] == self.sources@[place as int]@);
            assert(acceptable_source(
                self@.sources[place as int],
                self@.backend.max_response_bytes,
            ));
        }
        let (wrapped, marker) = bounded_python_source_marked(
            self.sources[place].code.as_str(),
            self.remaining_output,
            id,
        );
        let env_vars = match &self.sources[place].env_vars {
            Some(env_vars) => env_vars.clone(),
            None => Json::Null,
        };
        let body = Json::object().having("code", Json::Text(wrapped)).having(
            "context_id",
            Json::Text(context.clone()),
        ).having("language", Json::Null).having("env_vars", env_vars);
        let request = request_to(
            &sandbox,
            SandboxMethod::Post,
            uri,
            Some(body),
            self.remaining_output.saturating_add(PROTOCOL_OVERHEAD),
            self.operation_deadline,
        );
        let mut run = self;
        run.phase = SandboxPhase::Executing { sandbox, context, marker };
        (run, SandboxStep::Send(request))
    }

    fn answer_execution(
        self,
        sandbox: Sandbox,
        context: String,
        marker: String,
        reply: SandboxReply,
        now: Instant,
    ) -> (r: (SandboxRun, SandboxStep))
        ensures
            (r.0@, r.1@) == self@.execution_answered(sandbox@, context@, marker@, reply@, now),
    {
        let mut path = "/contexts/".to_owned();
        path.append(context.as_str());
        let uri = match self.address(&sandbox, path.as_str()) {
            Ok(uri) => uri,
            Err(error) => {
                return self.close_up(sandbox, Some(error), now);
            },
        };
        let request = request_to(
            &sandbox,
            SandboxMethod::Delete,
            uri,
            None,
            0,
            self.operation_deadline,
        );
        let mut run = self;
        run.phase = SandboxPhase::Removing { sandbox, marker, execution: reply };
        (run, SandboxStep::Send(request))
    }

    fn answer_removal(
        self,
        sandbox: Sandbox,
        marker: String,
        execution: SandboxReply,
        removal: SandboxReply,
        now: Instant,
    ) -> (r: (SandboxRun, SandboxStep))
        ensures
            (r.0@, r.1@) == self@.removal_answered(
                sandbox@,
                marker@,
                execution@,
                removal@,
                now,
            ),
    {
        let result = match read_source_result(
            &execution,
            &removal,
            self.remaining_output,
            marker.as_str(),
        ) {
            Ok(result) => result,
            Err(error) => {
                return self.close_up(sandbox, Some(error), now);
            },
        };
        let ghost before = self@;
        let mut run = self;
        run.remaining_output = run.remaining_output.saturating_sub(result_output_bytes(&result));
        let ghost added = result@;
        run.results.push(result);
        assert(run@.results =~= before.results.push(added));
        run.open(sandbox, now)
    }

    fn finish(self, error: Option<ToolInfrastructureError>, terminated: bool, now: Instant) -> (r: (
        SandboxRun,
        SandboxStep,
    ))
        ensures
            (r.0@, r.1@) == self@.cleaned_up(error, terminated, now),
    {
        let report = operation_report(terminated, self.started, now);
        let mut metadata = self.metadata;
        metadata.sandbox_terminate = Some(report);
        metadata.sandbox_cleanup = Some(report.outcome);
        metadata.sandbox_cleanup_duration = Some(report.duration);
        match error {
            Some(error) => self.fail(error, metadata),
            None => {
                if !terminated {
                    return self.fail(ToolInfrastructureError::backend(), metadata);
                }
                let SandboxRun {
                    backend,
                    sources,
                    operation_deadline,
                    deadline,
                    remaining_output,
                    results,
                    metadata: _,
                    started,
                    phase: _,
                } = self;
                let run = SandboxRun {
                    backend,
                    sources,
                    operation_deadline,
                    deadline,
                    remaining_output,
                    results: Vec::new(),
                    metadata,
                    started,
                    phase: SandboxPhase::Finished,
                };
                assert(run@.results =~= Seq::empty());
                (run, SandboxStep::Finish(Ok(ToolBatchExecution { results, metadata })))
            },
        }
    }
}

/// Whatever happens, a run that waits for something waits for what its step leads to, and stays
/// sound.
pub proof fn a_run_awaits_what_it_asked_for(run: RunView, event: EventView, id: Seq<char>, now: Instant)
    requires
        run.wf(),
        run.expects(event),
    ensures
        run.after(event, id, now).0.wf(),
        run.after(event, id, now).0.awaits(run.after(event, id, now).1),
{
    match run.phase {
        PhaseView::Creating => {},
        PhaseView::Checking(_) => {},
        PhaseView::Opening(_) => {},
        PhaseView::Executing { .. } => {},
        PhaseView::Removing { .. } => {},
        PhaseView::Cleaning(_) => {},
        PhaseView::Finished => {},
    }
}

/// Whatever a sandbox does once it is made, it is cleaned up before the run ends: the only step
/// that ends a run in which a sandbox was made follows a cleanup.
pub proof fn a_sandbox_that_was_made_is_cleaned_up(
    run: RunView,
    event: EventView,
    id: Seq<char>,
    now: Instant,
)
    requires
        run.wf(),
        run.expects(event),
        run.after(event, id, now).1 is Finish,
    ensures
        event is CleanedUp || (run.phase is Creating && event is Replied && (match event->Replied_0 {
            ReplyView::Failed(_) => true,
            ReplyView::Answered { status, refusal, body } => status != 201 || created_sandbox(
                body,
            ) is None,
        })),
{
}

impl RunView {
    /// How many events a run waits for at most until it ends.
    pub open spec fn events_left(self) -> int {
        let sources = 3 * (self.sources.len() - self.results.len());
        match self.phase {
            PhaseView::Creating => sources + 3,
            PhaseView::Checking(_) => sources + 2,
            PhaseView::Opening(_) => sources + 1,
            PhaseView::Executing { .. } => sources,
            PhaseView::Removing { .. } => sources - 1,
            PhaseView::Cleaning(_) => 1,
            PhaseView::Finished => 0,
        }
    }
}

/// Every run ends: each event brings it closer to its end.
pub proof fn every_event_brings_a_run_closer_to_its_end(
    run: RunView,
    event: EventView,
    id: Seq<char>,
    now: Instant,
)
    requires
        run.wf(),
        run.expects(event),
    ensures
        0 <= run.after(event, id, now).0.events_left() < run.events_left(),
{
    a_run_awaits_what_it_asked_for(run, event, id, now);
}

/// The output that the sources of a run may still write never grows.
pub proof fn the_output_left_never_grows(run: RunView, event: EventView, id: Seq<char>, now: Instant)
    requires
        run.wf(),
        run.expects(event),
    ensures
        run.after(event, id, now).0.remaining_output <= run.remaining_output,
{
}

impl RunView {
    /// The sandbox that the run uses, where it has one.
    pub open spec fn sandbox(self) -> Option<SandboxView> {
        match self.phase {
            PhaseView::Checking(sandbox) => Some(sandbox),
            PhaseView::Opening(sandbox) => Some(sandbox),
            PhaseView::Executing { sandbox, .. } => Some(sandbox),
            PhaseView::Removing { sandbox, .. } => Some(sandbox),
            _ => None,
        }
    }
}

impl SandboxRun {
    /// The id of the sandbox that the run uses, where it has one.
    pub fn sandbox_id(&self) -> (r: Option<&str>)
        ensures
            match r {
                Some(id) => self@.sandbox() is Some && self@.sandbox()->0.sandbox_id == id@,
                None => self@.sandbox() is None,
            },
    {
        match &self.phase {
            SandboxPhase::Checking(sandbox) => Some(sandbox.sandbox_id.as_str()),
            SandboxPhase::Opening(sandbox) => Some(sandbox.sandbox_id.as_str()),
            SandboxPhase::Executing { sandbox, .. } => Some(sandbox.sandbox_id.as_str()),
            SandboxPhase::Removing { sandbox, .. } => Some(sandbox.sandbox_id.as_str()),
            _ => None,
        }
    }

    /// Whether the run waits for this event.
    pub fn expects(&self, event: &SandboxEvent) -> (r: bool)
        ensures
            r == self@.expects(event@),
    {
        match (&self.phase, event) {
            (SandboxPhase::Creating, SandboxEvent::Replied(_)) => true,
            (SandboxPhase::Checking(_), SandboxEvent::DomainChecked(_)) => true,
            (SandboxPhase::Opening(_), SandboxEvent::Replied(_)) => true,
            (SandboxPhase::Executing { .. }, SandboxEvent::Replied(_)) => true,
            (SandboxPhase::Removing { .. }, SandboxEvent::Replied(_)) => true,
            (SandboxPhase::Cleaning(_), SandboxEvent::CleanedUp(_)) => true,
            _ => false,
        }
    }

    /// What to do after an event; a program that is run next marks cut-off output with this id.
    pub fn advance_marked(self, event: SandboxEvent, id: &str, now: Instant) -> (r: (
        SandboxRun,
        SandboxStep,
    ))
        requires
            self@.wf(),
            self@.expects(event@),
        ensures
            (r.0@, r.1@) == self@.after(event@, id@, now),
            r.0@.wf(),
            r.0@.awaits(r.1@),
    {
        proof {
            a_run_awaits_what_it_asked_for(self@, event@, id@, now);
        }
        let ghost before = self@;
        let SandboxRun {
            backend,
            sources,
            operation_deadline,
            deadline,
            remaining_output,
            results,
            metadata,
            started,
            phase,
        } = self;
        let run = SandboxRun {
            backend,
            sources,
            operation_deadline,
            deadline,
            remaining_output,
            results,
            metadata,
            started,
            phase: SandboxPhase::Finished,
        };
        match (phase, event) {
            (SandboxPhase::Creating, SandboxEvent::Replied(reply)) => run.answer_creation(
                reply,
                now,
            ),
            (SandboxPhase::Checking(sandbox), SandboxEvent::DomainChecked(valid)) =>
            run.judge_domain(sandbox, valid, now),
            (SandboxPhase::Opening(sandbox), SandboxEvent::Replied(reply)) => run.answer_context(
                sandbox,
                reply,
                id,
                now,
            ),
            (
                SandboxPhase::Executing { sandbox, context, marker },
                SandboxEvent::Replied(reply),
            ) => run.answer_execution(sandbox, context, marker, reply, now),
            (
                SandboxPhase::Removing { sandbox, marker, execution },
                SandboxEvent::Replied(reply),
            ) => run.answer_removal(sandbox, marker, execution, reply, now),
            (SandboxPhase::Cleaning(error), SandboxEvent::CleanedUp(terminated)) => run.finish(
                error,
                terminated,
                now,
            ),
            (phase, _) => {
                assert(false);
                run.fail(ToolInfrastructureError::internal(), metadata)
            },
        }
    }

    /// What to do after an event.
    pub fn advance(self, event: SandboxEvent, now: Instant) -> (r: (SandboxRun, SandboxStep))
        requires
            self@.wf(),
            self@.expects(event@),
        ensures
            exists|id: Seq<char>| #[trigger]
                is_fresh_id(id) && (r.0@, r.1@) == self@.after(event@, id, now),
            r.0@.wf(),
            r.0@.awaits(r.1@),
    {
        let id = fresh_id();
        self.advance_marked(event, id.as_str(), now)
    }
}

/// The programs of calls.
pub open spec fn call_sources(calls: Seq<CallView>) -> Seq<SourceView> {
    Seq::new(
        calls.len(),
        |i: int|
            SourceView { code: calls[i].arguments.text_at("code"@)->0, env_vars: None },
    )
}

/// The first step of a batch of calls. A batch without calls has no results and needs no sandbox.
pub open spec fn batch_begun(
    backend: E2bView,
    calls: Seq<CallView>,
    deadline: Option<Instant>,
    now: Instant,
) -> Result<Option<(RunView, StepView)>, ToolBatchInfrastructureError> {
    if calls.len() == 0 {
        Ok(None)
    } else if !runnable_batch(calls) {
        Err(
            ToolBatchInfrastructureError {
                error: ToolInfrastructureError::Configuration,
                metadata: ToolBatchMetadata::nothing(),
            },
        )
    } else {
        match run_begun(backend, call_sources(calls), deadline, backend.max_response_bytes, now) {
            Ok(begun) => Ok(Some(begun)),
            Err(error) => Err(error),
        }
    }
}

/// What a begun run is, or why it could not begin.
pub open spec fn begun_result(
    r: Result<(SandboxRun, SandboxStep), ToolBatchInfrastructureError>,
) -> Result<(RunView, StepView), ToolBatchInfrastructureError> {
    match r {
        Ok((run, step)) => Ok((run@, step@)),
        Err(error) => Err(error),
    }
}

/// Begins a batch of calls. A batch without calls has no results and needs no sandbox.
pub fn begin_calls(
    backend: E2bSandboxBackend,
    calls: &Vec<ManagedToolCall>,
    context: &ToolExecutionContext,
    now: Instant,
) -> (r: Result<Option<(SandboxRun, SandboxStep)>, ToolBatchInfrastructureError>)
    ensures
        batch_begun(backend@, call_views(calls@), context.deadline, now) == (match r {
            Ok(Some((run, step))) => Ok(Some((run@, step@))),
            Ok(None) => Ok(None),
            Err(error) => Err(error),
        }),
        match r {
            Ok(Some((run, step))) => run@.wf() && run@.awaits(step@),
            _ => true,
        },
{
    if calls.len() == 0 {
        return Ok(None);
    }
    let ghost all = call_views(calls@);
    match backend.validate_calls(calls) {
        Ok(()) => {},
        Err(error) => {
            return Err(ToolBatchInfrastructureError::from(error));
        },
    }
    let mut sources: Vec<PythonSource> = Vec::new();
    let mut i: usize = 0;
    while i < calls.len()
        invariant
            all == call_views(calls@),
            runnable_batch(all),
            i <= calls@.len(),
            source_views(sources@) == call_sources(all).take(i as int),
        decreases calls@.len() - i,
    {
        assert(all[i as int] == calls@[i as int]@);
        assert(crate::e2b::runnable(all[i as int]));
        let code = match calls[i].arguments.text_at("code") {
            Some(code) => code.to_owned(),
            None => String::new(),
        };
        let ghost before = source_views(sources@);
        let ghost next = call_sources(all)[i as int];
        assert(next.code == code@);
        sources.push(PythonSource { code, env_vars: None });
        proof {
            assert(source_views(sources@) =~= before.push(next));
            assert(call_sources(all).take(i + 1) =~= call_sources(all).take(i as int).push(next));
        }
        i += 1;
    }
    assert(call_sources(all).take(i as int) =~= call_sources(all));
    let max: usize = backend.max_response_bytes;
    match SandboxRun::begin(backend, sources, context.deadline, max, now) {
        Ok(begun) => Ok(Some(begun)),
        Err(error) => Err(error),
    }
}

/// Begins the run of a program under the protocol of replays.
pub fn begin_program(
    backend: E2bSandboxBackend,
    request: ProgramSandboxRequest,
    context: &ToolExecutionContext,
    now: Instant,
) -> (r: Result<(SandboxRun, SandboxStep), ToolBatchInfrastructureError>)
    ensures
        begun_result(r) == run_begun(
            backend@,
            seq![SourceView { code: request.source@, env_vars: Some(request.env_vars@) }],
            context.deadline,
            crate::program::stdout_limit(
                backend@.max_response_bytes as nat,
                crate::program::MAX_NONCE_BYTES as nat,
            ),
            now,
        ),
        match r {
            Ok((run, step)) => run@.wf() && run@.awaits(step@),
            Err(_) => true,
        },
{
    let max: usize = program_protocol_stdout_max_bytes(backend.max_response_bytes);
    let mut sources: Vec<PythonSource> = Vec::new();
    let ProgramSandboxRequest { source, env_vars } = request;
    sources.push(PythonSource { code: source, env_vars: Some(env_vars) });
    assert(source_views(sources@) =~= seq![
        SourceView { code: request.source@, env_vars: Some(request.env_vars@) },
    ]);
    SandboxRun::begin(backend, sources, context.deadline, max, now)
}

/// The result of a program, from the end of the run in which it was the only source.
pub fn program_result(batch: ToolBatchExecution) -> (r: Result<
    ToolExecutionResult,
    ToolBatchInfrastructureError,
>)
    ensures
        match r {
            Ok(result) => batch.results@.len() > 0 && result == batch.results@.last(),
            Err(error) => batch.results@.len() == 0 && error == (ToolBatchInfrastructureError {
                error: ToolInfrastructureError::Internal,
                metadata: batch.metadata,
            }),
        },
{
    let ToolBatchExecution { mut results, metadata } = batch;
    match results.pop() {
        Some(result) => Ok(result),
        None => Err(
            ToolBatchInfrastructureError::new(ToolInfrastructureError::internal(), metadata),
        ),
    }
}

/// The request that ends a sandbox.
pub open spec fn termination(backend: E2bView, sandbox_id: Seq<char>, deadline: Instant) -> Option<
    RequestStepView,
> {
    match joined_uri(backend.api, "/sandboxes/"@ + sandbox_id) {
        None => None,
        Some(uri) => Some(
            RequestStepView {
                method: SandboxMethod::Delete,
                uri,
                body: None,
                auth: AuthView::ApiKey(backend.api_key),
                body_limit: 0,
                deadline,
            },
        ),
    }
}

/// The request that ends a sandbox, within the time that a cleanup may take.
pub fn termination_request(backend: &E2bSandboxBackend, sandbox_id: &str, now: Instant) -> (r: Option<
    SandboxRequest,
>)
    ensures
        termination(
            backend@,
            sandbox_id@,
            Instant { nanos: saturated(now.nanos + CLEANUP_NANOS) },
        ) == (match r {
            Some(request) => Some(request@),
            None => None,
        }),
{
    let mut path = "/sandboxes/".to_owned();
    path.append(sandbox_id);
    match join_uri(&backend.api, path.as_str()) {
        Ok(uri) => Some(
            SandboxRequest {
                method: SandboxMethod::Delete,
                uri,
                body: None,
                auth: SandboxAuth::ApiKey(backend.api_key.clone()),
                body_limit: 0,
                deadline: now.after(Duration { nanos: CLEANUP_NANOS }),
            },
        ),
        Err(_) => None,
    }
}

/// Whether an answer says that a sandbox is gone.
pub open spec fn says_gone(status: Option<u16>) -> bool {
    status == Some(204u16) || status == Some(404u16)
}

/// What to do after this answer to an attempt, the first of which is attempt zero: `Some` says
/// whether the sandbox is gone, `None` that it is to be asked for again.
pub fn after_termination(attempt: usize, status: Option<u16>) -> (r: Option<bool>)
    ensures
        r == (if says_gone(status) {
            Some(true)
        } else if attempt + 1 < CLEANUP_ATTEMPTS {
            None
        } else {
            Some(false)
        }),
{
    let gone = match status {
        Some(status) => status == 204 || status == 404,
        None => false,
    };
    if gone {
        Some(true)
    } else if attempt < CLEANUP_ATTEMPTS - 1 {
        None
    } else {
        Some(false)
    }
}

} // verus!
