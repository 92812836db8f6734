//! The decisions of a managed request: when another model round begins, what a round leads to, how
//! direct calls are carried out, and how a program and its calls take turns.

use vstd::prelude::*;
use vstd::string::*;
use crate::backend::{
    call_views, CallView, ManagedToolCall, ToolApplicationError, ToolExecutionResult,
};
use crate::budget::{BudgetView, RuntimeBudget};
use crate::calls::{CollectedToolCalls, CollectedView};
use crate::conversation::{ManagedToolState, StateView};
use crate::e2b::{fresh_id, fresh_simple_id, is_fresh_id, is_simple_id};
use crate::error::{joined, json_result, ErrorView, ToolRuntimeError};
use crate::json::{Json, JsonView};
use crate::messages::calls::{adapted, result_block, tool_result_block};
use crate::messages::mapper::PreparedMessagesRuntime;
use crate::messages::usage::{messages_usage_json, report_usage, MessagesUsage};
use crate::operations::function_call_output;
use crate::output::{
    a_model_is_told_whether_a_call_succeeded, is_ordered, model_output, ApplicationErrorView,
    ResultView,
};
use crate::program::{
    fit_replay_entry, fitted, has_capacity, has_replay_entry_capacity, is_endless,
    parse_sandbox_outcome, program_complaint, program_environment, replay_size, replay_views,
    sandbox_outcome, sandbox_request, EntryView, OutcomeView, ProgramOutcome, ProgramReplayEntry,
    ProgramSandboxRequest,
};
use crate::registry::{clone_optional_json, optional_json};
use crate::runtime::PreparedToolRuntime;
use crate::serde_value::{is_plain, json_parsed, json_text, reads_back, MAX_NESTING};
use crate::streaming::{finalize_managed_response, finalized};
use crate::telemetry::{elapsed, ToolRuntimeOutcome};
use crate::time::{Duration, Instant};
use crate::usage::{usage_json, Usage};
use crate::{json, serde_value, text};

verus! {

/// The wire format of a conversation.
#[derive(Clone, Copy, Debug, PartialEq, Eq, Structural)]
pub enum ManagedFormat {
    Responses,
    Messages,
}

impl ManagedFormat {
    /// The name of the format.
    pub open spec fn name(self) -> Seq<char> {
        match self {
            ManagedFormat::Responses => "responses"@,
            ManagedFormat::Messages => "messages"@,
        }
    }

    pub fn as_str(self) -> (r: &'static str)
        ensures
            r@ == self.name(),
    {
        match self {
            ManagedFormat::Responses => "responses",
            ManagedFormat::Messages => "messages",
        }
    }
}

impl PreparedToolRuntime {
    pub fn format(&self) -> (r: ManagedFormat)
        ensures
            r == ManagedFormat::Responses,
    {
        ManagedFormat::Responses
    }
}

impl PreparedMessagesRuntime {
    pub fn format(&self) -> (r: ManagedFormat)
        ensures
            r == ManagedFormat::Messages,
    {
        ManagedFormat::Messages
    }
}

/// How a model round ended, as far as it is not about what the model said.
pub enum RoundEnd {
    TimedOut,
    Failed(ToolRuntimeError),
    /// The upstream could not be reached; there is a response that says so.
    InfrastructureError,
    /// The upstream answered with a failure of its own.
    UpstreamError,
    Answered,
}

pub enum RoundEndView {
    TimedOut,
    Failed(ErrorView),
    InfrastructureError,
    UpstreamError,
    Answered,
}

impl RoundEnd {
    pub open spec fn view(&self) -> RoundEndView {
        match *self {
            RoundEnd::TimedOut => RoundEndView::TimedOut,
            RoundEnd::Failed(error) => RoundEndView::Failed(error@),
            RoundEnd::InfrastructureError => RoundEndView::InfrastructureError,
            RoundEnd::UpstreamError => RoundEndView::UpstreamError,
            RoundEnd::Answered => RoundEndView::Answered,
        }
    }
}

/// Why a request ended without a result: a failure of the runtime, or a response that is passed on.
pub enum RunError {
    Runtime(ToolRuntimeError),
    UpstreamResponse,
    DirectResponse,
}

pub enum RunErrorView {
    Runtime(ErrorView),
    UpstreamResponse,
    DirectResponse,
}

impl RunError {
    pub open spec fn view(&self) -> RunErrorView {
        match *self {
            RunError::Runtime(error) => RunErrorView::Runtime(error@),
            RunError::UpstreamResponse => RunErrorView::UpstreamResponse,
            RunError::DirectResponse => RunErrorView::DirectResponse,
        }
    }
}

impl BudgetView {
    /// After a failure of the runtime ended the request.
    pub open spec fn stopped(self, error: ErrorView) -> BudgetView {
        self.request_ended(error.outcome())
    }

    /// What a model round leads to, and the budget after it: nothing where the model answered in
    /// time.
    pub open spec fn round_settled(self, end: RoundEndView, duration: Duration, now: Instant) -> (
        BudgetView,
        Option<RunErrorView>,
    ) {
        match end {
            RoundEndView::TimedOut => (
                self.round_ended(ToolRuntimeOutcome::Timeout, duration).with_error(
                    ErrorView::deadline(),
                ).request_ended(ToolRuntimeOutcome::Timeout),
                Some(RunErrorView::Runtime(ErrorView::deadline())),
            ),
            RoundEndView::Failed(error) => (
                self.round_ended(error.outcome(), duration).stopped(error),
                Some(RunErrorView::Runtime(error)),
            ),
            RoundEndView::InfrastructureError => (
                self.round_ended(
                    ToolRuntimeOutcome::InfrastructureError,
                    duration,
                ).request_ended(ToolRuntimeOutcome::InfrastructureError),
                Some(RunErrorView::DirectResponse),
            ),
            RoundEndView::UpstreamError => {
                let ended = self.round_ended(ToolRuntimeOutcome::ApplicationError, duration);
                if self.tool_calls > 0 {
                    (
                        ended.stopped(ErrorView::internal()),
                        Some(RunErrorView::Runtime(ErrorView::internal())),
                    )
                } else {
                    (
                        ended.request_ended(ToolRuntimeOutcome::ApplicationError),
                        Some(RunErrorView::UpstreamResponse),
                    )
                }
            },
            RoundEndView::Answered => if self.remaining(now) == 0 {
                (
                    self.round_ended(ToolRuntimeOutcome::Timeout, duration).stopped(
                        ErrorView::deadline(),
                    ),
                    Some(RunErrorView::Runtime(ErrorView::deadline())),
                )
            } else {
                (self, None)
            },
        }
    }

    /// What the calls of an answer lead to, and the budget after it.
    pub open spec fn calls_settled(
        self,
        collected: Result<CollectedView, ErrorView>,
        duration: Duration,
        now: Instant,
    ) -> (BudgetView, Result<NextView, ErrorView>) {
        match collected {
            Err(error) => (
                self.with_error(error).round_ended(error.outcome(), duration).request_ended(
                    error.outcome(),
                ),
                Err(error),
            ),
            Ok(collected) => {
                let ended = self.round_ended(ToolRuntimeOutcome::Success, duration);
                if collected is Direct && collected->Direct_0.len() == 0 {
                    if self.remaining(now) == 0 {
                        (ended.stopped(ErrorView::deadline()), Err(ErrorView::deadline()))
                    } else {
                        (ended.request_ended(ToolRuntimeOutcome::Success), Ok(NextView::Finish))
                    }
                } else {
                    (ended, Ok(NextView::Execute(collected)))
                }
            },
        }
    }
}

/// Ends a request with a failure of the runtime.
pub fn finish_runtime_error(budget: &mut RuntimeBudget, error: ToolRuntimeError) -> (r: RunError)
    ensures
        r@ == RunErrorView::Runtime(error@),
        final(budget)@ == old(budget)@.stopped(error@),
        old(budget)@.wf() ==> final(budget)@.wf(),
{
    budget.finish_request(error.telemetry_outcome());
    RunError::Runtime(error)
}

/// Begins another model round: how long it may take.
pub fn begin_round(budget: &mut RuntimeBudget, now: Instant) -> (r: Result<Duration, RunError>)
    ensures
        match r {
            Ok(remaining) => {
                &&& old(budget)@.round_complaint(now) is None
                &&& remaining.nanos == old(budget)@.remaining(now) > 0
                &&& final(budget)@ == old(budget)@.round_begun(now)
            },
            Err(stop) => {
                &&& old(budget)@.round_complaint(now) is Some
                &&& stop@ == RunErrorView::Runtime(old(budget)@.round_complaint(now)->0)
                &&& final(budget)@ == ({
                    let error = old(budget)@.round_complaint(now)->0;
                    old(budget)@.with_error(error).stopped(error)
                })
            },
        },
        old(budget)@.wf() ==> final(budget)@.wf(),
{
    match budget.start_model_round(now) {
        Ok(()) => Ok(budget.remaining(now)),
        Err(error) => Err(finish_runtime_error(budget, error)),
    }
}

/// Settles how a model round ended.
pub fn settle_round(end: RoundEnd, budget: &mut RuntimeBudget, started: Instant, now: Instant) -> (r:
    Result<(), RunError>)
    ensures
        (
            final(budget)@,
            match r {
                Ok(_) => None,
                Err(stop) => Some(stop@),
            },
        ) == old(budget)@.round_settled(end@, elapsed(now, started), now),
        old(budget)@.wf() ==> final(budget)@.wf(),
{
    let duration = now.since(started);
    match end {
        RoundEnd::TimedOut => {
            budget.record_model_round(ToolRuntimeOutcome::Timeout, duration);
            let error = ToolRuntimeError::deadline_exceeded();
            budget.record_error(&error);
            budget.finish_request(ToolRuntimeOutcome::Timeout);
            Err(RunError::Runtime(error))
        },
        RoundEnd::Failed(error) => {
            budget.record_model_round(error.telemetry_outcome(), duration);
            Err(finish_runtime_error(budget, error))
        },
        RoundEnd::InfrastructureError => {
            budget.record_model_round(ToolRuntimeOutcome::InfrastructureError, duration);
            budget.finish_request(ToolRuntimeOutcome::InfrastructureError);
            Err(RunError::DirectResponse)
        },
        RoundEnd::UpstreamError => {
            budget.record_model_round(ToolRuntimeOutcome::ApplicationError, duration);
            if budget.tool_calls() > 0 {
                return Err(finish_runtime_error(budget, ToolRuntimeError::internal()));
            }
            budget.finish_request(ToolRuntimeOutcome::ApplicationError);
            Err(RunError::UpstreamResponse)
        },
        RoundEnd::Answered => {
            if budget.remaining(now).is_zero() {
                budget.record_model_round(ToolRuntimeOutcome::Timeout, duration);
                return Err(finish_runtime_error(budget, ToolRuntimeError::deadline_exceeded()));
            }
            Ok(())
        },
    }
}

/// What follows an answer: its calls are carried out, or it is the last.
pub enum NextStep {
    Finish,
    Execute(CollectedToolCalls),
}

pub enum NextView {
    Finish,
    Execute(CollectedView),
}

/// Settles what the calls of an answer lead to.
pub fn settle_calls(
    collected: Result<CollectedToolCalls, ToolRuntimeError>,
    budget: &mut RuntimeBudget,
    started: Instant,
    now: Instant,
) -> (r: Result<NextStep, RunError>)
    ensures
        ({
            let (after, next) = old(budget)@.calls_settled(
                crate::calls::collected_result(collected),
                elapsed(now, started),
                now,
            );
            &&& final(budget)@ == after
            &&& match r {
                Ok(NextStep::Finish) => next == Ok::<NextView, ErrorView>(NextView::Finish),
                Ok(NextStep::Execute(calls)) => next == Ok::<NextView, ErrorView>(
                    NextView::Execute(calls@),
                ),
                Err(stop) => next is Err && stop@ == RunErrorView::Runtime(next->Err_0),
            }
        }),
        old(budget)@.wf() ==> final(budget)@.wf(),
{
    let duration = now.since(started);
    let collected = match collected {
        Ok(collected) => collected,
        Err(error) => {
            let outcome = error.telemetry_outcome();
            budget.record_error(&error);
            budget.record_model_round(outcome, duration);
            budget.finish_request(outcome);
            return Err(RunError::Runtime(error));
        },
    };
    budget.record_model_round(ToolRuntimeOutcome::Success, duration);
    let empty = match &collected {
        CollectedToolCalls::Direct(calls) => calls.len() == 0,
        CollectedToolCalls::Programmatic { .. } => false,
    };
    if empty {
        if budget.remaining(now).is_zero() {
            return Err(finish_runtime_error(budget, ToolRuntimeError::deadline_exceeded()));
        }
        budget.finish_request(ToolRuntimeOutcome::Success);
        return Ok(NextStep::Finish);
    }
    Ok(NextStep::Execute(collected))
}

/// The item that tells a model the result of a call.
pub open spec fn told_item(
    format: ManagedFormat,
    call_id: Seq<char>,
    result: ResultView,
    max: nat,
) -> Result<JsonView, ErrorView> {
    match model_output(result, max) {
        Err(error) => Err(error),
        Ok(output) => Ok(
            match format {
                ManagedFormat::Responses => function_call_output(call_id, output),
                ManagedFormat::Messages => result_block(
                    call_id,
                    json_text(output),
                    result is ApplicationError,
                ),
            },
        ),
    }
}

/// The item that tells a model the result of a call.
pub fn tool_output_item(
    format: ManagedFormat,
    call_id: &str,
    result: ToolExecutionResult,
    max_output_bytes: usize,
) -> (r: Result<Json, ToolRuntimeError>)
    ensures
        json_result(r) == told_item(format, call_id@, result@, max_output_bytes as nat),
{
    let is_error = match &result {
        ToolExecutionResult::ApplicationError(_) => true,
        _ => false,
    };
    let output = match result.into_model_output(max_output_bytes) {
        Ok(output) => serde_value::print(&output),
        Err(error) => {
            return Err(error);
        },
    };
    match format {
        ManagedFormat::Responses => Ok(
            Json::object().having("type", Json::text("function_call_output")).having(
                "call_id",
                Json::text(call_id),
            ).having("output", Json::Text(output)),
        ),
        ManagedFormat::Messages => Ok(tool_result_block(call_id, output.as_str(), is_error)),
    }
}

/// The output of a program: one item.
pub fn synthetic_program_output(
    format: ManagedFormat,
    call_id: &str,
    result: ToolExecutionResult,
    max_output_bytes: usize,
) -> (r: Result<Vec<Json>, ToolRuntimeError>)
    ensures
        match told_item(format, call_id@, result@, max_output_bytes as nat) {
            Ok(item) => r is Ok && json::views(r->Ok_0@) == seq![item],
            Err(error) => r is Err && r->Err_0@ == error,
        },
{
    match tool_output_item(format, call_id, result, max_output_bytes) {
        Ok(item) => {
            let mut items: Vec<Json> = Vec::new();
            let ghost told = item@;
            items.push(item);
            assert(json::views(items@) =~= seq![told]);
            Ok(items)
        },
        Err(error) => Err(error),
    }
}

/// A program that a model wrote, and the calls that it has made so far.
pub struct ProgramRun {
    pub format: ManagedFormat,
    pub call_id: String,
    pub code: String,
    pub execution_id: String,
    pub max_output_bytes: usize,
    pub replay: Vec<ProgramReplayEntry>,
}

pub struct ProgramRunView {
    pub format: ManagedFormat,
    pub call_id: Seq<char>,
    pub code: Seq<char>,
    pub execution_id: Seq<char>,
    pub max_output_bytes: nat,
    pub replay: Seq<EntryView>,
}

impl ProgramRunView {
    /// The calls are numbered in order, and their transcript is within its limit.
    pub open spec fn wf(self) -> bool {
        &&& forall|i: int| 0 <= i < self.replay.len() ==> (#[trigger] self.replay[i]).sequence == i
        &&& self.replay.len() > 0 ==> replay_size(self.replay) <= self.max_output_bytes
    }

    /// What is wrong with asking for the program under a nonce. A transcript that no text can hold
    /// cannot be asked for.
    pub open spec fn request_complaint(self, nonce: Seq<char>) -> Option<ErrorView> {
        if is_endless(self.replay) {
            Some(ErrorView::internal())
        } else {
            program_complaint(self.code, self.replay, nonce, self.max_output_bytes)
        }
    }

    /// The end of a program with a result.
    pub open spec fn answer(self, result: ResultView) -> Result<ProgramStepView, ErrorView> {
        match told_item(self.format, self.call_id, result, self.max_output_bytes) {
            Ok(item) => Ok(ProgramStepView::Answer(seq![item])),
            Err(error) => Err(error),
        }
    }

    /// What follows from what a program reported.
    pub open spec fn after_outcome(self, outcome: OutcomeView, state: StateView) -> Result<
        ProgramStepView,
        ErrorView,
    > {
        match outcome {
            OutcomeView::Pending { sequence, public_name, arguments } => {
                let entry = EntryView { sequence, public_name, arguments, output: JsonView::Null };
                if sequence != self.replay.len() {
                    Err(
                        ErrorView::invalid_request(
                            "program sandbox returned a divergent call sequence"@,
                        ),
                    )
                } else if !has_capacity(self.replay, entry, self.max_output_bytes) {
                    self.answer(
                        ResultView::ApplicationError(
                            ApplicationErrorView {
                                error_type: "program_replay_limit"@,
                                message: "program replay transcript has no capacity for another tool result"@,
                                retryable: false,
                                stdout: Seq::empty(),
                                stderr: Seq::empty(),
                            },
                        ),
                    )
                } else {
                    match state.programmatic_call(
                        self.execution_id,
                        sequence,
                        public_name,
                        arguments,
                    ) {
                        Ok(call) => Ok(ProgramStepView::Call { call, entry }),
                        Err(error) => Err(error),
                    }
                }
            },
            OutcomeView::Completed(value) => self.answer(
                ResultView::Function(JsonView::empty().with("result"@, value)),
            ),
            OutcomeView::ContractError { message } => Err(
                ErrorView::invalid_request("programmatic replay contract failed: "@ + message),
            ),
            OutcomeView::ApplicationError { error_type, message } => self.answer(
                ResultView::ApplicationError(
                    ApplicationErrorView {
                        error_type,
                        message,
                        retryable: false,
                        stdout: Seq::empty(),
                        stderr: Seq::empty(),
                    },
                ),
            ),
        }
    }

    /// What follows from what a sandbox gave for a program.
    pub open spec fn after_sandbox(self, result: ResultView, nonce: Seq<char>, state: StateView) -> Result<
        ProgramStepView,
        ErrorView,
    > {
        match result {
            ResultView::Python(value) => match value.text_at("stdout"@) {
                None => Err(ErrorView::invalid_request("program sandbox omitted stdout"@)),
                Some(stdout) => match sandbox_outcome(stdout, nonce, self.max_output_bytes) {
                    Err(error) => Err(error),
                    Ok(outcome) => self.after_outcome(outcome, state),
                },
            },
            ResultView::ApplicationError(_) => self.answer(result),
            _ => Err(
                ErrorView::invalid_configuration("program sandbox returned a non-Python result"@),
            ),
        }
    }

    /// With one more call and what it gave back.
    pub open spec fn with_output(self, entry: EntryView, output: JsonView) -> Result<
        ProgramRunView,
        ErrorView,
    > {
        match fitted(self.replay, EntryView { output, ..entry }, self.max_output_bytes) {
            Ok(entry) => Ok(ProgramRunView { replay: self.replay.push(entry), ..self }),
            Err(error) => Err(error),
        }
    }

    /// After the batch of one call of the program: the text of its output, read as JSON.
    pub open spec fn after_tool(self, entry: EntryView, outputs: Seq<JsonView>) -> Result<
        ProgramRunView,
        ErrorView,
    > {
        if outputs.len() == 0 || outputs.last().text_at("output"@) is None {
            Err(ErrorView::internal())
        } else {
            match json_parsed(outputs.last().text_at("output"@)->0) {
                Err(_) => Err(ErrorView::internal()),
                Ok(output) => self.with_output(entry, output),
            }
        }
    }
}

/// What a program leads to: a call of a tool, or the items that answer the model.
pub enum ProgramStep {
    Call { call: ManagedToolCall, entry: ProgramReplayEntry },
    Answer(Vec<Json>),
}

pub enum ProgramStepView {
    Call { call: CallView, entry: EntryView },
    Answer(Seq<JsonView>),
}

pub open spec fn program_step_result(r: Result<ProgramStep, ToolRuntimeError>) -> Result<
    ProgramStepView,
    ErrorView,
> {
    match r {
        Ok(ProgramStep::Call { call, entry }) => Ok(
            ProgramStepView::Call { call: call@, entry: entry@ },
        ),
        Ok(ProgramStep::Answer(items)) => Ok(ProgramStepView::Answer(json::views(items@))),
        Err(error) => Err(error@),
    }
}

pub open spec fn program_run_result(r: Result<ProgramRun, ToolRuntimeError>) -> Result<
    ProgramRunView,
    ErrorView,
> {
    match r {
        Ok(run) => Ok(run@),
        Err(error) => Err(error@),
    }
}

impl ProgramRun {
    pub open spec fn view(&self) -> ProgramRunView {
        ProgramRunView {
            format: self.format,
            call_id: self.call_id@,
            code: self.code@,
            execution_id: self.execution_id@,
            max_output_bytes: self.max_output_bytes as nat,
            replay: replay_views(self.replay@),
        }
    }

    /// A program that has made no call.
    pub fn new(
        format: ManagedFormat,
        call_id: String,
        code: String,
        execution_id: String,
        max_output_bytes: usize,
    ) -> (r: ProgramRun)
        ensures
            r@ == (ProgramRunView {
                format,
                call_id: call_id@,
                code: code@,
                execution_id: execution_id@,
                max_output_bytes: max_output_bytes as nat,
                replay: Seq::empty(),
            }),
            r@.wf(),
    {
        let r = ProgramRun {
            format,
            call_id,
            code,
            execution_id,
            max_output_bytes,
            replay: Vec::new(),
        };
        assert(r@.replay =~= Seq::empty());
        r
    }

    /// What a sandbox is asked to run next, under this nonce.
    pub fn request(&self, wrapper: &str, nonce: &str) -> (r: Result<
        ProgramSandboxRequest,
        ToolRuntimeError,
    >)
        ensures
            match self@.request_complaint(nonce@) {
                Some(error) => r is Err && r->Err_0@ == error,
                None => r is Ok && r->Ok_0.source@ == wrapper@ && r->Ok_0.env_vars@
                    == program_environment(self@.code, self@.replay, nonce@),
            },
    {
        sandbox_request(wrapper, self.code.as_str(), &self.replay, nonce, self.max_output_bytes)
    }

    /// A program that has made no call, under an execution id of its own.
    pub fn start(format: ManagedFormat, call_id: String, code: String, max_output_bytes: usize) -> (r:
        ProgramRun)
        ensures
            exists|id: Seq<char>| #[trigger]
                is_simple_id(id) && r@ == (ProgramRunView {
                    format,
                    call_id: call_id@,
                    code: code@,
                    execution_id: id,
                    max_output_bytes: max_output_bytes as nat,
                    replay: Seq::empty(),
                }),
            r@.wf(),
    {
        ProgramRun::new(format, call_id, code, fresh_simple_id(), max_output_bytes)
    }

    /// What a sandbox is asked to run next, under a nonce of its own.
    pub fn next_request(&self, wrapper: &str) -> (r: (String, Result<
        ProgramSandboxRequest,
        ToolRuntimeError,
    >))
        ensures
            is_fresh_id(r.0@),
            match self@.request_complaint(r.0@) {
                Some(error) => r.1 is Err && r.1->Err_0@ == error,
                None => r.1 is Ok && r.1->Ok_0.source@ == wrapper@ && r.1->Ok_0.env_vars@
                    == program_environment(self@.code, self@.replay, r.0@),
            },
    {
        let nonce = fresh_id();
        let request = self.request(wrapper, nonce.as_str());
        (nonce, request)
    }

    fn answer(&self, result: ToolExecutionResult) -> (r: Result<ProgramStep, ToolRuntimeError>)
        ensures
            program_step_result(r) == self@.answer(result@),
    {
        match synthetic_program_output(
            self.format,
            self.call_id.as_str(),
            result,
            self.max_output_bytes,
        ) {
            Ok(items) => Ok(ProgramStep::Answer(items)),
            Err(error) => Err(error),
        }
    }

    /// What follows from what a program reported.
    pub fn after_outcome(&self, outcome: ProgramOutcome, state: &ManagedToolState) -> (r: Result<
        ProgramStep,
        ToolRuntimeError,
    >)
        ensures
            program_step_result(r) == self@.after_outcome(outcome@, state@),
    {
        match outcome {
            ProgramOutcome::Pending { sequence, public_name, arguments } => {
                if sequence != self.replay.len() {
                    return Err(
                        ToolRuntimeError::invalid_request(
                            "program sandbox returned a divergent call sequence",
                        ),
                    );
                }
                let entry = ProgramReplayEntry {
                    sequence,
                    public_name,
                    arguments,
                    output: Json::Null,
                };
                if !has_replay_entry_capacity(&self.replay, &entry, self.max_output_bytes) {
                    return self.answer(
                        application_error(
                            "program_replay_limit",
                            "program replay transcript has no capacity for another tool result",
                        ),
                    );
                }
                match state.resolve_programmatic_call(
                    self.execution_id.as_str(),
                    sequence,
                    entry.public_name.as_str(),
                    entry.arguments.clone(),
                ) {
                    Ok(call) => Ok(ProgramStep::Call { call, entry }),
                    Err(error) => Err(error),
                }
            },
            ProgramOutcome::Completed(value) => self.answer(
                ToolExecutionResult::function(Json::object().having("result", value)),
            ),
            ProgramOutcome::ContractError { message } => Err(
                ToolRuntimeError::invalid_request(
                    joined("programmatic replay contract failed: ", message.as_str()).as_str(),
                ),
            ),
            ProgramOutcome::ApplicationError { error_type, message } => self.answer(
                application_error(error_type.as_str(), message.as_str()),
            ),
        }
    }

    /// What follows from what a sandbox gave for the program.
    pub fn after_sandbox(
        &self,
        result: ToolExecutionResult,
        nonce: &str,
        state: &ManagedToolState,
    ) -> (r: Result<ProgramStep, ToolRuntimeError>)
        ensures
            program_step_result(r) == self@.after_sandbox(result@, nonce@, state@),
    {
        match result {
            ToolExecutionResult::Python(value) => {
                let stdout = match value.text_at("stdout") {
                    Some(stdout) => stdout,
                    None => {
                        return Err(
                            ToolRuntimeError::invalid_request("program sandbox omitted stdout"),
                        );
                    },
                };
                match parse_sandbox_outcome(stdout, nonce, self.max_output_bytes) {
                    Ok(outcome) => self.after_outcome(outcome, state),
                    Err(error) => Err(error),
                }
            },
            ToolExecutionResult::ApplicationError(error) => self.answer(
                ToolExecutionResult::ApplicationError(error),
            ),
            _ => Err(
                ToolRuntimeError::invalid_configuration(
                    "program sandbox returned a non-Python result",
                ),
            ),
        }
    }

    /// Adds one more call and what it gave back.
    pub fn with_output(self, entry: ProgramReplayEntry, output: Json) -> (r: Result<
        ProgramRun,
        ToolRuntimeError,
    >)
        requires
            self@.wf(),
            entry@.sequence == self@.replay.len(),
            has_capacity(self@.replay, entry@, self@.max_output_bytes),
        ensures
            program_run_result(r) == self@.with_output(entry@, output@),
            r is Ok ==> r->Ok_0@.wf(),
    {
        let ghost before = self@;
        let ghost whole = EntryView { output: output@, ..entry@ };
        let ProgramReplayEntry { sequence, public_name, arguments, output: _ } = entry;
        let entry = ProgramReplayEntry { sequence, public_name, arguments, output };
        let mut run = self;
        match fit_replay_entry(&run.replay, entry, run.max_output_bytes) {
            Ok(entry) => {
                let ghost added = entry@;
                run.replay.push(entry);
                assert(run@.replay =~= before.replay.push(added));
                Ok(run)
            },
            Err(error) => Err(error),
        }
    }

    /// Adds one more call and the output of the batch that carried it out.
    pub fn after_tool(self, entry: ProgramReplayEntry, outputs: &Vec<Json>) -> (r: Result<
        ProgramRun,
        ToolRuntimeError,
    >)
        requires
            self@.wf(),
            entry@.sequence == self@.replay.len(),
            has_capacity(self@.replay, entry@, self@.max_output_bytes),
        ensures
            program_run_result(r) == self@.after_tool(entry@, json::views(outputs@)),
            r is Ok ==> r->Ok_0@.wf(),
    {
        if outputs.len() == 0 {
            return Err(ToolRuntimeError::internal());
        }
        let last: usize = outputs.len() - 1;
        assert(json::views(outputs@).last() == outputs@[last as int]@);
        let written = match outputs[last].text_at("output") {
            Some(written) => written,
            None => {
                return Err(ToolRuntimeError::internal());
            },
        };
        match serde_value::parse(written) {
            Ok(output) => self.with_output(entry, output),
            Err(_) => Err(ToolRuntimeError::internal()),
        }
    }
}

fn application_error(error_type: &str, message: &str) -> (r: ToolExecutionResult)
    ensures
        r@ == ResultView::ApplicationError(
            ApplicationErrorView {
                error_type: error_type@,
                message: message@,
                retryable: false,
                stdout: Seq::empty(),
                stderr: Seq::empty(),
            },
        ),
{
    let stdout = String::new();
    let stderr = String::new();
    assert(stdout@ =~= Seq::empty());
    assert(stderr@ =~= Seq::empty());
    ToolExecutionResult::ApplicationError(
        ToolApplicationError::new(error_type.to_owned(), message.to_owned(), false, stdout, stderr),
    )
}

/// A call that a program may make is the next one of its transcript, with capacity for it.
pub proof fn a_program_calls_in_sequence(run: ProgramRunView, outcome: OutcomeView, state: StateView)
    requires
        run.wf(),
        run.after_outcome(outcome, state) is Ok,
        run.after_outcome(outcome, state)->Ok_0 is Call,
    ensures
        ({
            let entry = run.after_outcome(outcome, state)->Ok_0->entry;
            &&& entry.sequence == run.replay.len()
            &&& has_capacity(run.replay, entry, run.max_output_bytes)
        }),
{
}

/// What is reported of a managed request.
pub struct ToolRuntimeSummary {
    pub usage: Option<Usage>,
    pub rounds: usize,
    pub tool_calls: usize,
    pub client_streaming: bool,
    pub include_obfuscation: bool,
    pub client_tools: Option<Json>,
}

/// Sums up a managed request.
pub fn summarize(runtime: PreparedToolRuntime, budget: &RuntimeBudget) -> (r: ToolRuntimeSummary)
    ensures
        r.usage == runtime@.usage,
        r.rounds == budget@.rounds,
        r.tool_calls == budget@.tool_calls,
        r.client_streaming == runtime@.client_streaming,
        r.include_obfuscation == runtime@.include_obfuscation,
        optional_json(r.client_tools) == runtime@.client_tools,
{
    ToolRuntimeSummary {
        usage: runtime.accumulated_usage,
        rounds: budget.rounds(),
        tool_calls: budget.tool_calls(),
        client_streaming: runtime.client_streaming,
        include_obfuscation: runtime.include_obfuscation,
        client_tools: runtime.client_tools,
    }
}

/// Ends a managed request: the response with the usage of all rounds and the client's own tools,
/// and what is reported of the request.
pub fn finalize(response: Json, runtime: PreparedToolRuntime, budget: &RuntimeBudget) -> (r: (
    Json,
    ToolRuntimeSummary,
))
    ensures
        r.0@ == finalized(
            response@,
            match runtime@.usage {
                Some(usage) => Some(usage_json(usage)),
                None => None,
            },
            runtime@.client_tools,
        ),
        r.1.usage == runtime@.usage,
        r.1.rounds == budget@.rounds,
        r.1.tool_calls == budget@.tool_calls,
        r.1.client_streaming == runtime@.client_streaming,
        r.1.include_obfuscation == runtime@.include_obfuscation,
        optional_json(r.1.client_tools) == runtime@.client_tools,
{
    let summary = summarize(runtime, budget);
    let usage = match &summary.usage {
        Some(usage) => Some(usage.to_json()),
        None => None,
    };
    let client_tools = clone_optional_json(&summary.client_tools);
    (finalize_managed_response(response, usage, client_tools), summary)
}

/// What is reported of a managed request over the Messages format.
pub struct MessagesRuntimeSummary {
    pub usage: MessagesUsage,
    pub rounds: usize,
    pub tool_calls: usize,
    pub client_streaming: bool,
}

/// Sums up a managed request over the Messages format, whose last round used this much.
pub fn summarize_messages(
    runtime: PreparedMessagesRuntime,
    last: MessagesUsage,
    budget: &RuntimeBudget,
) -> (r: MessagesRuntimeSummary)
    ensures
        r.usage@ == (match runtime@.usage {
            Some(usage) => usage,
            None => last@,
        }),
        r.rounds == budget@.rounds,
        r.tool_calls == budget@.tool_calls,
        r.client_streaming == runtime@.client_streaming,
{
    let client_streaming = runtime.client_streaming;
    MessagesRuntimeSummary {
        usage: runtime.final_usage(last),
        rounds: budget.rounds(),
        tool_calls: budget.tool_calls(),
        client_streaming,
    }
}

/// Ends a managed request over the Messages format: the message with the usage of all rounds, and
/// what is reported of the request. The last round used this much.
pub fn finalize_messages(
    message: Json,
    runtime: PreparedMessagesRuntime,
    last: MessagesUsage,
    budget: &RuntimeBudget,
) -> (r: (Json, MessagesRuntimeSummary))
    ensures
        r.0@ == (match runtime@.usage {
            Some(usage) => message@.with("usage"@, messages_usage_json(usage)),
            None => message@,
        }),
        r.1.usage@ == (match runtime@.usage {
            Some(usage) => usage,
            None => last@,
        }),
        r.1.rounds == budget@.rounds,
        r.1.tool_calls == budget@.tool_calls,
        r.1.client_streaming == runtime@.client_streaming,
{
    let message = match &runtime.accumulated_usage {
        Some(usage) => report_usage(message, usage.to_json()),
        None => message,
    };
    (message, summarize_messages(runtime, last, budget))
}

/// What an item that answers a call holds.
proof fn lemma_output_item(call_id: Seq<char>, output: JsonView)
    ensures
        function_call_output(call_id, output).text_at("call_id"@) == Some(call_id),
        function_call_output(call_id, output).text_at("output"@) == Some(json_text(output)),
{
    let kind = JsonView::Text("function_call_output"@);
    let typed = JsonView::empty().with("type"@, kind);
    let called = typed.with("call_id"@, JsonView::Text(call_id));
    reveal_strlit("call_id");
    reveal_strlit("output");
    assert("call_id"@.len() != "output"@.len());
    json::a_field_reads_back_what_was_set(
        typed->Object_0,
        "call_id"@,
        JsonView::Text(call_id),
        "call_id"@,
    );
    json::a_field_reads_back_what_was_set(
        called->Object_0,
        "output"@,
        JsonView::Text(json_text(output)),
        "call_id"@,
    );
}

/// A program is given what the tool that it called gave, wherever that can be read back from its
/// text.
pub proof fn a_program_is_given_what_its_tool_gave(
    run: ProgramRunView,
    entry: EntryView,
    call_id: Seq<char>,
    output: JsonView,
)
    ensures
        reads_back(output) && is_plain(output, MAX_NESTING as nat) ==> run.after_tool(
            entry,
            seq![function_call_output(call_id, output)],
        ) == run.with_output(entry, output),
{
    lemma_output_item(call_id, output);
    let outputs = seq![function_call_output(call_id, output)];
    assert(outputs.last() == function_call_output(call_id, output));
}

/// Over the Messages format a call that was part of a batch is told as one that was not: with its
/// output, and marked where it failed, wherever its output can be read back from its text.
pub proof fn batched_results_are_told_like_others(call_id: Seq<char>, result: ResultView, max: nat)
    requires
        is_ordered(result),
        model_output(result, max) is Ok,
    ensures
        ({
            let output = model_output(result, max)->Ok_0;
            let item = function_call_output(call_id, output);
            reads_back(output) && is_plain(output, MAX_NESTING as nat) ==> adapted(
                item,
                json_parsed(item.text_at("output"@)->0),
            ) == told_item(ManagedFormat::Messages, call_id, result, max)
        }),
{
    let output = model_output(result, max)->Ok_0;
    lemma_output_item(call_id, output);
    a_model_is_told_whether_a_call_succeeded(result, max);
}

} // verus!
