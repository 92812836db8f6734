//! The failures that end a managed request.

use vstd::prelude::*;
use vstd::string::*;
use crate::backend::ToolInfrastructureError;
use crate::json::{Json, JsonView};
use crate::telemetry::{ToolRuntimeLimit, ToolRuntimeOutcome};

verus! {

/// A failure of a managed request.
#[derive(Clone, Debug)]
pub struct ToolRuntimeError {
    pub message: String,
    pub infrastructure: Option<ToolInfrastructureError>,
    pub deadline_exceeded: bool,
    pub limit: Option<ToolRuntimeLimit>,
}

/// What a failure says.
pub struct ErrorView {
    pub message: Seq<char>,
    pub infrastructure: Option<ToolInfrastructureError>,
    pub deadline_exceeded: bool,
    pub limit: Option<ToolRuntimeLimit>,
}

impl ErrorView {
    pub open spec fn invalid_configuration(message: Seq<char>) -> ErrorView {
        ErrorView {
            message: "invalid managed tool configuration: "@ + message,
            infrastructure: Some(ToolInfrastructureError::Configuration),
            deadline_exceeded: false,
            limit: None,
        }
    }

    pub open spec fn invalid_request(message: Seq<char>) -> ErrorView {
        ErrorView {
            message: "invalid managed tool request: "@ + message,
            infrastructure: None,
            deadline_exceeded: false,
            limit: None,
        }
    }

    pub open spec fn limit(message: Seq<char>, limit: ToolRuntimeLimit) -> ErrorView {
        ErrorView {
            message: "invalid managed tool request: "@ + message,
            infrastructure: None,
            deadline_exceeded: false,
            limit: Some(limit),
        }
    }

    pub open spec fn unsupported(field: Seq<char>) -> ErrorView {
        ErrorView::invalid_request(
            field + " is unsupported while managed tool runtime is active"@,
        )
    }

    pub open spec fn infrastructure(error: ToolInfrastructureError) -> ErrorView {
        ErrorView {
            message: error.message_view(),
            infrastructure: Some(error),
            deadline_exceeded: false,
            limit: None,
        }
    }

    pub open spec fn deadline() -> ErrorView {
        ErrorView {
            message: ToolInfrastructureError::Timeout.message_view(),
            infrastructure: Some(ToolInfrastructureError::Timeout),
            deadline_exceeded: true,
            limit: Some(ToolRuntimeLimit::Deadline),
        }
    }

    pub open spec fn internal() -> ErrorView {
        ErrorView::infrastructure(ToolInfrastructureError::Internal)
    }

    /// How a request that ends with this failure is counted.
    pub open spec fn outcome(self) -> ToolRuntimeOutcome {
        if self.deadline_exceeded || self.infrastructure == Some(ToolInfrastructureError::Timeout) {
            ToolRuntimeOutcome::Timeout
        } else if self.infrastructure is Some {
            ToolRuntimeOutcome::InfrastructureError
        } else {
            ToolRuntimeOutcome::InvalidRequest
        }
    }

    /// The status and the body of the answer to the client.
    pub open spec fn answer(self) -> (u16, JsonView) {
        if self.deadline_exceeded {
            (504, ToolInfrastructureError::Timeout.openai_view())
        } else if self.infrastructure is Some {
            (502, self.infrastructure->0.openai_view())
        } else {
            (
                400,
                JsonView::empty().with(
                    "error"@,
                    JsonView::empty().with(
                        "type"@,
                        JsonView::Text("invalid_request_error"@),
                    ).with("message"@, JsonView::Text(self.message)).with(
                        "code"@,
                        JsonView::Text("managed_tool_request_invalid"@),
                    ),
                ),
            )
        }
    }
}

/// Three texts one after the other.
pub(crate) fn joined3(a: &str, b: &str, c: &str) -> (r: String)
    ensures
        r@ == a@ + b@ + c@,
{
    let mut r = a.to_owned();
    r.append(b);
    r.append(c);
    r
}

/// A text followed by another.
pub(crate) fn joined(head: &str, tail: &str) -> (r: String)
    ensures
        r@ == head@ + tail@,
{
    let mut r = head.to_owned();
    r.append(tail);
    r
}

impl ToolRuntimeError {
    pub open spec fn view(&self) -> ErrorView {
        ErrorView {
            message: self.message@,
            infrastructure: self.infrastructure,
            deadline_exceeded: self.deadline_exceeded,
            limit: self.limit,
        }
    }

    pub fn invalid_configuration(message: &str) -> (r: ToolRuntimeError)
        ensures
            r@ == ErrorView::invalid_configuration(message@),
    {
        ToolRuntimeError {
            message: joined("invalid managed tool configuration: ", message),
            infrastructure: Some(ToolInfrastructureError::Configuration),
            deadline_exceeded: false,
            limit: None,
        }
    }

    pub fn invalid_request(message: &str) -> (r: ToolRuntimeError)
        ensures
            r@ == ErrorView::invalid_request(message@),
    {
        ToolRuntimeError {
            message: joined("invalid managed tool request: ", message),
            infrastructure: None,
            deadline_exceeded: false,
            limit: None,
        }
    }

    pub fn limit(message: &str, limit: ToolRuntimeLimit) -> (r: ToolRuntimeError)
        ensures
            r@ == ErrorView::limit(message@, limit),
    {
        ToolRuntimeError {
            message: joined("invalid managed tool request: ", message),
            infrastructure: None,
            deadline_exceeded: false,
            limit: Some(limit),
        }
    }

    pub fn unsupported(field: &str) -> (r: ToolRuntimeError)
        ensures
            r@ == ErrorView::unsupported(field@),
    {
        let message = joined(field, " is unsupported while managed tool runtime is active");
        ToolRuntimeError::invalid_request(message.as_str())
    }

    pub fn infrastructure(error: ToolInfrastructureError) -> (r: ToolRuntimeError)
        ensures
            r@ == ErrorView::infrastructure(error),
    {
        ToolRuntimeError {
            message: error.public_message().to_owned(),
            infrastructure: Some(error),
            deadline_exceeded: false,
            limit: None,
        }
    }

    pub fn deadline_exceeded() -> (r: ToolRuntimeError)
        ensures
            r@ == ErrorView::deadline(),
    {
        ToolRuntimeError {
            message: ToolInfrastructureError::Timeout.public_message().to_owned(),
            infrastructure: Some(ToolInfrastructureError::Timeout),
            deadline_exceeded: true,
            limit: Some(ToolRuntimeLimit::Deadline),
        }
    }

    pub fn internal() -> (r: ToolRuntimeError)
        ensures
            r@ == ErrorView::internal(),
    {
        ToolRuntimeError::infrastructure(ToolInfrastructureError::Internal)
    }

    pub fn infrastructure_error(&self) -> (r: Option<ToolInfrastructureError>)
        ensures
            r == self@.infrastructure,
    {
        self.infrastructure
    }

    pub fn exhausted_limit(&self) -> (r: Option<ToolRuntimeLimit>)
        ensures
            r == self@.limit,
    {
        self.limit
    }

    /// The failure in words.
    pub fn to_text(&self) -> (r: String)
        ensures
            r@ == self@.message,
    {
        self.message.clone()
    }

    pub fn telemetry_outcome(&self) -> (r: ToolRuntimeOutcome)
        ensures
            r == self@.outcome(),
    {
        if self.deadline_exceeded {
            return ToolRuntimeOutcome::Timeout;
        }
        match self.infrastructure {
            Some(ToolInfrastructureError::Timeout) => ToolRuntimeOutcome::Timeout,
            Some(_) => ToolRuntimeOutcome::InfrastructureError,
            None => ToolRuntimeOutcome::InvalidRequest,
        }
    }

    /// The status and the JSON body of the answer to an OpenAI-compatible client.
    pub fn into_openai_response(self) -> (r: (u16, Json))
        ensures
            (r.0, r.1@) == self@.answer(),
    {
        if self.deadline_exceeded {
            return (504, ToolInfrastructureError::Timeout.to_openai_error());
        }
        match self.infrastructure {
            Some(infrastructure) => (502, infrastructure.to_openai_error()),
            None => {
                let mut error = Json::object();
                error.set("type", Json::text("invalid_request_error"));
                error.set("message", Json::Text(self.message));
                error.set("code", Json::text("managed_tool_request_invalid"));
                let mut body = Json::object();
                body.set("error", error);
                (400, body)
            },
        }
    }
}

/// What a fallible step with a JSON result came to.
pub open spec fn json_result(r: Result<Json, ToolRuntimeError>) -> Result<JsonView, ErrorView> {
    match r {
        Ok(v) => Ok(v@),
        Err(e) => Err(e@),
    }
}

/// What a check came to.
pub open spec fn unit_result(r: Result<(), ToolRuntimeError>) -> Result<(), ErrorView> {
    match r {
        Ok(_) => Ok(()),
        Err(e) => Err(e@),
    }
}

/// What was found wrong.
pub open spec fn complaint(r: Option<ToolRuntimeError>) -> Option<ErrorView> {
    match r {
        Some(e) => Some(e@),
        None => None,
    }
}

} // verus!
