//! Tool calls, what their backends report, and the bounded output that a model sees.

use vstd::prelude::*;
use vstd::string::*;
use crate::json::{Json, JsonView};
use crate::time::{Duration, Instant};

verus! {

/// A model-selected call after the runtime has authorized its tool name.
///
/// Destinations, credentials and other operator configuration are absent: they belong to the
/// backend, not to a model call.
pub struct ManagedToolCall {
    pub public_name: String,
    pub internal_name: String,
    pub call_id: String,
    pub arguments: Json,
    pub trusted_options: Json,
}

/// What a call holds.
pub struct CallView {
    pub public_name: Seq<char>,
    pub internal_name: Seq<char>,
    pub call_id: Seq<char>,
    pub arguments: JsonView,
    pub trusted_options: JsonView,
}

impl ManagedToolCall {
    pub open spec fn view(&self) -> CallView {
        CallView {
            public_name: self.public_name@,
            internal_name: self.internal_name@,
            call_id: self.call_id@,
            arguments: self.arguments@,
            trusted_options: self.trusted_options@,
        }
    }
}

/// The views of calls.
pub open spec fn call_views(calls: Seq<ManagedToolCall>) -> Seq<CallView> {
    Seq::new(calls.len(), |i: int| calls[i].view())
}

impl Clone for ManagedToolCall {
    fn clone(&self) -> (r: Self)
        ensures
            r@ == self@,
    {
        ManagedToolCall {
            public_name: self.public_name.clone(),
            internal_name: self.internal_name.clone(),
            call_id: self.call_id.clone(),
            arguments: self.arguments.clone(),
            trusted_options: self.trusted_options.clone(),
        }
    }
}

/// Request-scoped information a backend may use for correlation and deadlines.
#[derive(Debug)]
pub struct ToolExecutionContext {
    pub request_id: Option<String>,
    pub deadline: Option<Instant>,
}

/// An application-level failure is returned to the model as a structured value.
#[derive(Debug)]
pub struct ToolApplicationError {
    pub error_type: String,
    pub message: String,
    pub retryable: bool,
    pub stdout: String,
    pub stderr: String,
}

impl Clone for ToolApplicationError {
    fn clone(&self) -> (r: Self)
        ensures
            r == *self,
    {
        ToolApplicationError {
            error_type: self.error_type.clone(),
            message: self.message.clone(),
            retryable: self.retryable,
            stdout: self.stdout.clone(),
            stderr: self.stderr.clone(),
        }
    }
}

impl ToolApplicationError {
    pub fn new(
        error_type: String,
        message: String,
        retryable: bool,
        stdout: String,
        stderr: String,
    ) -> (r: ToolApplicationError)
        ensures
            r == (ToolApplicationError { error_type, message, retryable, stdout, stderr }),
    {
        ToolApplicationError { error_type, message, retryable, stdout, stderr }
    }

    pub fn execution_error(
        message: String,
        retryable: bool,
        stdout: String,
        stderr: String,
    ) -> (r: ToolApplicationError)
        ensures
            r.error_type@ == "execution_error"@,
            r.message == message,
            r.retryable == retryable,
            r.stdout == stdout,
            r.stderr == stderr,
    {
        ToolApplicationError::new("execution_error".to_owned(), message, retryable, stdout, stderr)
    }
}

/// An infrastructure failure terminates the request and is never model output.
///
/// It stores no provider response body, URL, credential or other raw detail.
#[derive(Clone, Copy, Debug, PartialEq, Eq, Structural)]
pub enum ToolInfrastructureError {
    Authentication,
    Timeout,
    Backend,
    Configuration,
    Internal,
}

impl ToolInfrastructureError {
    pub fn authentication() -> (r: ToolInfrastructureError)
        ensures
            r == ToolInfrastructureError::Authentication,
    {
        ToolInfrastructureError::Authentication
    }

    pub fn timeout() -> (r: ToolInfrastructureError)
        ensures
            r == ToolInfrastructureError::Timeout,
    {
        ToolInfrastructureError::Timeout
    }

    pub fn backend() -> (r: ToolInfrastructureError)
        ensures
            r == ToolInfrastructureError::Backend,
    {
        ToolInfrastructureError::Backend
    }

    pub fn configuration() -> (r: ToolInfrastructureError)
        ensures
            r == ToolInfrastructureError::Configuration,
    {
        ToolInfrastructureError::Configuration
    }

    pub fn internal() -> (r: ToolInfrastructureError)
        ensures
            r == ToolInfrastructureError::Internal,
    {
        ToolInfrastructureError::Internal
    }

    /// What a client may read of the failure.
    pub open spec fn message_view(self) -> Seq<char> {
        match self {
            ToolInfrastructureError::Authentication => "managed tool backend authentication failed"@,
            ToolInfrastructureError::Timeout => "managed tool execution timed out"@,
            ToolInfrastructureError::Backend => "managed tool backend request failed"@,
            ToolInfrastructureError::Configuration => "managed tool backend configuration is invalid"@,
            ToolInfrastructureError::Internal => "managed tool runtime failed"@,
        }
    }

    /// The code of the failure for a client.
    pub open spec fn code_view(self) -> Seq<char> {
        match self {
            ToolInfrastructureError::Authentication => "tool_backend_authentication_failed"@,
            ToolInfrastructureError::Timeout => "tool_execution_timeout"@,
            ToolInfrastructureError::Backend => "tool_backend_request_failed"@,
            ToolInfrastructureError::Configuration => "tool_backend_configuration_invalid"@,
            ToolInfrastructureError::Internal => "tool_runtime_internal_error"@,
        }
    }

    /// The only representation suitable for an OpenAI-compatible client.
    pub open spec fn openai_view(self) -> JsonView {
        JsonView::empty().with(
            "error"@,
            JsonView::empty().with("type"@, JsonView::Text("tool_infrastructure_error"@)).with(
                "message"@,
                JsonView::Text(self.message_view()),
            ).with("code"@, JsonView::Text(self.code_view())),
        )
    }

    /// The only representation suitable for an OpenAI-compatible client.
    pub fn to_openai_error(self) -> (r: Json)
        ensures
            r@ == self.openai_view(),
    {
        let mut error = Json::object();
        error.set("type", Json::text("tool_infrastructure_error"));
        error.set("message", Json::text(self.public_message()));
        error.set("code", Json::text(self.public_code()));
        let mut body = Json::object();
        body.set("error", error);
        body
    }

    pub fn public_message(self) -> (r: &'static str)
        ensures
            r@ == self.message_view(),
    {
        match self {
            ToolInfrastructureError::Authentication => "managed tool backend authentication failed",
            ToolInfrastructureError::Timeout => "managed tool execution timed out",
            ToolInfrastructureError::Backend => "managed tool backend request failed",
            ToolInfrastructureError::Configuration => "managed tool backend configuration is invalid",
            ToolInfrastructureError::Internal => "managed tool runtime failed",
        }
    }

    pub fn public_code(self) -> (r: &'static str)
        ensures
            r@ == self.code_view(),
    {
        match self {
            ToolInfrastructureError::Authentication => "tool_backend_authentication_failed",
            ToolInfrastructureError::Timeout => "tool_execution_timeout",
            ToolInfrastructureError::Backend => "tool_backend_request_failed",
            ToolInfrastructureError::Configuration => "tool_backend_configuration_invalid",
            ToolInfrastructureError::Internal => "tool_runtime_internal_error",
        }
    }
}

/// Normalized backend output. Application errors remain values; infrastructure errors end the
/// batch.
pub enum ToolExecutionResult {
    Function(Json),
    WebSearch(Json),
    Python(Json),
    ApplicationError(ToolApplicationError),
}

/// How the cleanup of a sandbox ended, carried outside of model-visible results.
#[derive(Clone, Copy, Debug, PartialEq, Eq, Structural)]
pub enum SandboxCleanupOutcome {
    Success,
    Failure,
}

#[derive(Clone, Copy, Debug, PartialEq, Eq, Structural)]
pub struct SandboxOperationReport {
    pub outcome: SandboxCleanupOutcome,
    pub duration: Duration,
}

#[derive(Clone, Copy, Debug, PartialEq, Eq)]
pub struct ToolBatchMetadata {
    pub sandbox_create: Option<SandboxOperationReport>,
    pub sandbox_execute: Option<SandboxOperationReport>,
    pub sandbox_terminate: Option<SandboxOperationReport>,
    pub sandbox_cleanup: Option<SandboxCleanupOutcome>,
    pub sandbox_cleanup_duration: Option<Duration>,
}

impl ToolBatchMetadata {
    /// Nothing reported.
    pub open spec fn nothing() -> ToolBatchMetadata {
        ToolBatchMetadata {
            sandbox_create: None,
            sandbox_execute: None,
            sandbox_terminate: None,
            sandbox_cleanup: None,
            sandbox_cleanup_duration: None,
        }
    }
}

impl Default for ToolBatchMetadata {
    fn default() -> (r: Self)
        ensures
            r == ToolBatchMetadata::nothing(),
    {
        ToolBatchMetadata {
            sandbox_create: None,
            sandbox_execute: None,
            sandbox_terminate: None,
            sandbox_cleanup: None,
            sandbox_cleanup_duration: None,
        }
    }
}

pub struct ToolBatchExecution {
    pub results: Vec<ToolExecutionResult>,
    pub metadata: ToolBatchMetadata,
}

impl ToolBatchExecution {
    pub fn new(results: Vec<ToolExecutionResult>) -> (r: ToolBatchExecution)
        ensures
            r.results == results,
            r.metadata == ToolBatchMetadata::nothing(),
    {
        ToolBatchExecution { results, metadata: ToolBatchMetadata::default() }
    }
}

#[derive(Clone, Copy, Debug)]
pub struct ToolBatchInfrastructureError {
    pub error: ToolInfrastructureError,
    pub metadata: ToolBatchMetadata,
}

impl ToolBatchInfrastructureError {
    pub fn new(error: ToolInfrastructureError, metadata: ToolBatchMetadata) -> (r:
        ToolBatchInfrastructureError)
        ensures
            r == (ToolBatchInfrastructureError { error, metadata }),
    {
        ToolBatchInfrastructureError { error, metadata }
    }
}

impl From<ToolInfrastructureError> for ToolBatchInfrastructureError {
    fn from(error: ToolInfrastructureError) -> (r: Self) {
        ToolBatchInfrastructureError::new(error, ToolBatchMetadata::default())
    }
}

impl vstd::std_specs::convert::FromSpecImpl<ToolInfrastructureError> for ToolBatchInfrastructureError {
    open spec fn obeys_from_spec() -> bool {
        true
    }

    open spec fn from_spec(error: ToolInfrastructureError) -> Self {
        ToolBatchInfrastructureError { error, metadata: ToolBatchMetadata::nothing() }
    }
}

} // verus!
