//! A backend that answers each call over HTTP: what it is asked, and what its answer means.

use vstd::prelude::*;
use vstd::string::*;
use crate::backend::{
    CallView, ManagedToolCall, ToolApplicationError, ToolExecutionContext, ToolExecutionResult,
    ToolInfrastructureError,
};
use crate::config::{optional_text, CODE_INTERPRETER_FUNCTION, WEB_SEARCH_FUNCTION};
use crate::decode::{read_record, record};
use crate::json::{Json, JsonView, NumberView};
use crate::output::{model_output, ApplicationErrorView, ResultView};
use crate::serde_value::{json_parsed_bytes, parse_bytes};
use crate::time::{saturated, Duration, Instant};
use crate::uri::{parse_uri, uri_parsed, UriView};
use crate::{json, text};

verus! {

/// Where an HTTP backend is, and how it may be asked.
pub struct HttpToolBackend {
    pub url: String,
    pub timeout: Duration,
    pub bearer_token: Option<String>,
    pub max_response_bytes: usize,
    pub tls: bool,
}

pub struct HttpBackendView {
    pub url: Seq<char>,
    pub timeout: Duration,
    pub bearer_token: Option<Seq<char>>,
    pub max_response_bytes: usize,
    pub tls: bool,
}

/// Whether a URI names a host that is reached over HTTP: over TLS, or not, or not at all.
pub open spec fn http_transport(uri: Option<UriView>) -> Option<bool> {
    match uri {
        Some(uri) => if uri.host is None {
            None
        } else if uri.scheme == Some("http"@) {
            Some(false)
        } else if uri.scheme == Some("https"@) {
            Some(true)
        } else {
            None
        },
        None => None,
    }
}

/// The backend of a configuration, where one can be built.
pub open spec fn http_backend(
    url: Seq<char>,
    timeout: Duration,
    bearer_token: Option<Seq<char>>,
    max_response_bytes: usize,
) -> Option<HttpBackendView> {
    if timeout.nanos == 0 || max_response_bytes == 0 {
        None
    } else {
        match http_transport(uri_parsed(url)) {
            Some(tls) => Some(
                HttpBackendView { url, timeout, bearer_token, max_response_bytes, tls },
            ),
            None => None,
        }
    }
}

/// The JSON value of a result, with the failure where there is none.
pub open spec fn value_result(r: Result<Json, ToolInfrastructureError>) -> Result<
    JsonView,
    ToolInfrastructureError,
> {
    match r {
        Ok(value) => Ok(value@),
        Err(error) => Err(error),
    }
}

/// The request of a web search: its trusted options and its query.
pub open spec fn searched(call: CallView) -> Result<JsonView, ToolInfrastructureError> {
    match (call.arguments, call.trusted_options) {
        (JsonView::Object(arguments), JsonView::Object(options)) => {
            let query = json::field(arguments, "query"@);
            if arguments.len() != 1 || !(query is Some && query->0 is Text) || json::field(
                options,
                "query"@,
            ) is Some {
                Err(ToolInfrastructureError::Configuration)
            } else {
                Ok(call.trusted_options.with("query"@, query->0))
            }
        },
        _ => Err(ToolInfrastructureError::Configuration),
    }
}

/// The body of the request that answers a call in time.
pub open spec fn requested(call: CallView, request_id: Option<Seq<char>>, timeout: Duration) -> Result<
    JsonView,
    ToolInfrastructureError,
> {
    if call.internal_name == CODE_INTERPRETER_FUNCTION@ {
        Err(ToolInfrastructureError::Configuration)
    } else if call.internal_name == WEB_SEARCH_FUNCTION@ {
        searched(call)
    } else {
        Ok(
            JsonView::empty().with("tool_name"@, JsonView::Text(call.public_name)).with(
                "call_id"@,
                JsonView::Text(call.call_id),
            ).with("arguments"@, call.arguments).with(
                "context"@,
                JsonView::empty().with(
                    "request_id"@,
                    match request_id {
                        Some(id) => JsonView::Text(id),
                        None => JsonView::Null,
                    },
                ).with("deadline_ms"@, JsonView::Number(NumberView::Unsigned(millis(timeout)))),
            ),
        )
    }
}

/// A time in whole milliseconds, at least one.
pub open spec fn millis(timeout: Duration) -> u64 {
    if timeout.nanos < 1_000_000 {
        1
    } else {
        timeout.nanos / 1_000_000
    }
}

/// A time in whole milliseconds, at least one.
pub fn timeout_millis(timeout: Duration) -> (r: u64)
    ensures
        r == millis(timeout),
        r >= 1,
{
    if timeout.nanos < 1_000_000 {
        1
    } else {
        timeout.nanos / 1_000_000
    }
}

/// How long a call may take: not past the deadline of its request.
pub open spec fn time_allowed(timeout: Duration, deadline: Option<Instant>, now: Instant) -> Result<
    Duration,
    ToolInfrastructureError,
> {
    match deadline {
        None => Ok(timeout),
        Some(deadline) => {
            let remaining = saturated(deadline.nanos - now.nanos);
            if remaining == 0 {
                Err(ToolInfrastructureError::Timeout)
            } else if timeout.nanos <= remaining {
                Ok(timeout)
            } else {
                Ok(Duration { nanos: remaining })
            }
        },
    }
}

/// What a call asks of its backend: in this time, with this body.
pub open spec fn asked(
    call: CallView,
    request_id: Option<Seq<char>>,
    timeout: Duration,
    deadline: Option<Instant>,
    now: Instant,
) -> Result<(JsonView, Duration), ToolInfrastructureError> {
    match time_allowed(timeout, deadline, now) {
        Err(error) => Err(error),
        Ok(allowed) => match requested(call, request_id, allowed) {
            Err(error) => Err(error),
            Ok(body) => Ok((body, allowed)),
        },
    }
}

/// Writes the request of a web search.
pub fn web_search_request(call: &ManagedToolCall) -> (r: Result<Json, ToolInfrastructureError>)
    ensures
        value_result(r) == searched(call@),
{
    match (&call.arguments, &call.trusted_options) {
        (Json::Object(arguments), Json::Object(options)) => {
            let query = match arguments.get("query") {
                Some(Json::Text(query)) => query,
                _ => {
                    return Err(ToolInfrastructureError::configuration());
                },
            };
            if arguments.len() != 1 || options.get("query").is_some() {
                return Err(ToolInfrastructureError::configuration());
            }
            let mut flattened = call.trusted_options.clone();
            flattened.set("query", Json::Text(query.clone()));
            Ok(flattened)
        },
        _ => Err(ToolInfrastructureError::configuration()),
    }
}

impl HttpToolBackend {
    pub open spec fn view(&self) -> HttpBackendView {
        HttpBackendView {
            url: self.url@,
            timeout: self.timeout,
            bearer_token: optional_text(self.bearer_token),
            max_response_bytes: self.max_response_bytes,
            tls: self.tls,
        }
    }

    /// The backend at a URL, where one can be asked there.
    pub fn new(
        url: String,
        timeout: Duration,
        bearer_token: Option<String>,
        max_response_bytes: usize,
    ) -> (r: Result<HttpToolBackend, ToolInfrastructureError>)
        ensures
            match http_backend(url@, timeout, optional_text(bearer_token), max_response_bytes) {
                Some(view) => r is Ok && r->Ok_0@ == view,
                None => r == Err::<HttpToolBackend, ToolInfrastructureError>(
                    ToolInfrastructureError::Configuration,
                ),
            },
    {
        if timeout.is_zero() || max_response_bytes == 0 {
            return Err(ToolInfrastructureError::configuration());
        }
        let parts = match parse_uri(url.as_str()) {
            Some(parts) => parts,
            None => {
                return Err(ToolInfrastructureError::configuration());
            },
        };
        if parts.host.is_none() {
            return Err(ToolInfrastructureError::configuration());
        }
        let tls = match &parts.scheme {
            Some(scheme) => {
                if text::same_text(scheme.as_str(), "http") {
                    false
                } else if text::same_text(scheme.as_str(), "https") {
                    true
                } else {
                    return Err(ToolInfrastructureError::configuration());
                }
            },
            None => {
                return Err(ToolInfrastructureError::configuration());
            },
        };
        Ok(HttpToolBackend { url, timeout, bearer_token, max_response_bytes, tls })
    }

    /// How long a call may take.
    pub fn effective_timeout(&self, context: &ToolExecutionContext, now: Instant) -> (r: Result<
        Duration,
        ToolInfrastructureError,
    >)
        ensures
            r == time_allowed(self@.timeout, context.deadline, now),
    {
        match context.deadline {
            None => Ok(self.timeout),
            Some(deadline) => {
                let remaining = deadline.since(now);
                if remaining.is_zero() {
                    Err(ToolInfrastructureError::timeout())
                } else {
                    Ok(self.timeout.min(remaining))
                }
            },
        }
    }

    /// The body that asks for an answer to a call within a time.
    pub fn request_body(
        &self,
        call: &ManagedToolCall,
        context: &ToolExecutionContext,
        timeout: Duration,
    ) -> (r: Result<Json, ToolInfrastructureError>)
        ensures
            value_result(r) == requested(call@, optional_text(context.request_id), timeout),
    {
        if text::same_text(call.internal_name.as_str(), CODE_INTERPRETER_FUNCTION) {
            return Err(ToolInfrastructureError::configuration());
        }
        if text::same_text(call.internal_name.as_str(), WEB_SEARCH_FUNCTION) {
            return web_search_request(call);
        }
        let mut about = Json::object();
        match &context.request_id {
            Some(id) => {
                about.set("request_id", Json::Text(id.clone()));
            },
            None => {
                about.set("request_id", Json::Null);
            },
        }
        about.set("deadline_ms", Json::unsigned(timeout_millis(timeout)));
        let mut body = Json::object();
        body.set("tool_name", Json::Text(call.public_name.clone()));
        body.set("call_id", Json::Text(call.call_id.clone()));
        body.set("arguments", call.arguments.clone());
        body.set("context", about);
        Ok(body)
    }

    /// What to ask for a call, and how long to wait for the answer.
    pub fn ask(&self, call: &ManagedToolCall, context: &ToolExecutionContext, now: Instant) -> (r:
        Result<(Json, Duration), ToolInfrastructureError>)
        ensures
            asked(call@, optional_text(context.request_id), self@.timeout, context.deadline, now)
                == (match r {
                Ok((body, allowed)) => Ok((body@, allowed)),
                Err(error) => Err(error),
            }),
    {
        let timeout = match self.effective_timeout(context, now) {
            Ok(timeout) => timeout,
            Err(error) => {
                return Err(error);
            },
        };
        match self.request_body(call, context, timeout) {
            Ok(body) => Ok((body, timeout)),
            Err(error) => Err(error),
        }
    }
}

/// Whether a status of HTTP is a success.
pub open spec fn is_success(status: u16) -> bool {
    200 <= status < 300
}

/// What a response is worth: its body, read as JSON, where the status is a success and the body
/// could be read. Of any other status the failure says how it is classed.
pub open spec fn response_read(
    status: u16,
    body: Option<Seq<u8>>,
    refusal: ToolInfrastructureError,
) -> Result<JsonView, ToolInfrastructureError> {
    if !is_success(status) {
        Err(refusal)
    } else {
        match body {
            None => Err(ToolInfrastructureError::Backend),
            Some(bytes) => match json_parsed_bytes(bytes) {
                Ok(value) => Ok(value),
                Err(_) => Err(ToolInfrastructureError::Backend),
            },
        }
    }
}

/// Reads a response.
pub fn read_response(
    status: u16,
    body: Option<&[u8]>,
    refusal: ToolInfrastructureError,
) -> (r: Result<Json, ToolInfrastructureError>)
    ensures
        value_result(r) == response_read(
            status,
            match body {
                Some(bytes) => Some(bytes@),
                None => None,
            },
            refusal,
        ),
{
    if status < 200 || status >= 300 {
        return Err(refusal);
    }
    match body {
        None => Err(ToolInfrastructureError::backend()),
        Some(bytes) => match parse_bytes(bytes) {
            Ok(value) => Ok(value),
            Err(_) => Err(ToolInfrastructureError::backend()),
        },
    }
}

/// Whether an object has no field but these.
pub open spec fn only(value: JsonView, names: Seq<Seq<char>>) -> bool {
    value is Object && json::first_other_key(value->Object_0, names) is None
}

pub open spec fn detail_names() -> Seq<Seq<char>> {
    seq!["type"@, "message"@, "retryable"@]
}

pub open spec fn envelope_names() -> Seq<Seq<char>> {
    seq!["ok"@, "error"@, "stdout"@, "stderr"@]
}

/// What an error report says: its type, its message and whether to try again.
pub open spec fn error_detail(value: JsonView) -> Option<(Seq<char>, Seq<char>, bool)> {
    match record(value, detail_names()) {
        Some(found) => match (
            found.get("type"@),
            found.get("message"@),
            found.get("retryable"@),
        ) {
            (
                Some(JsonView::Text(error_type)),
                Some(JsonView::Text(message)),
                Some(JsonView::Bool(retryable)),
            ) => if only(found, detail_names()) {
                Some((error_type, message, retryable))
            } else {
                None
            },
            _ => None,
        },
        None => None,
    }
}

/// The failure that a response reports, where it does.
pub open spec fn reported_error(value: JsonView) -> Result<
    Option<ApplicationErrorView>,
    ToolInfrastructureError,
> {
    if value.get("ok"@) != Some(JsonView::Bool(false)) {
        Ok(None)
    } else {
        match (value.get("error"@), value.get("stdout"@), value.get("stderr"@)) {
            (Some(error), Some(JsonView::Text(stdout)), Some(JsonView::Text(stderr))) => match error_detail(
                error,
            ) {
                Some((error_type, message, retryable)) => if only(value, envelope_names()) {
                    Ok(Some(ApplicationErrorView { error_type, message, retryable, stdout, stderr }))
                } else {
                    Err(ToolInfrastructureError::Backend)
                },
                None => Err(ToolInfrastructureError::Backend),
            },
            _ => Err(ToolInfrastructureError::Backend),
        }
    }
}

fn read_error_detail(value: &Json) -> (r: Option<(String, String, bool)>)
    ensures
        match r {
            Some((error_type, message, retryable)) => error_detail(value@) == Some(
                (error_type@, message@, retryable),
            ),
            None => error_detail(value@) is None,
        },
{
    let names: Vec<&str> = vec!["type", "message", "retryable"];
    assert(text::texts(names@) =~= detail_names());
    let found = match read_record(value, &names) {
        Some(Json::Object(found)) => found,
        _ => {
            return None;
        },
    };
    if found.first_other_key(&names).is_some() {
        return None;
    }
    match (found.get("type"), found.get("message"), found.get("retryable")) {
        (Some(Json::Text(error_type)), Some(Json::Text(message)), Some(Json::Bool(retryable))) => Some(
            (error_type.clone(), message.clone(), *retryable),
        ),
        _ => None,
    }
}

/// Reads the failure that a response reports, where it does.
pub fn parse_application_error(value: &Json) -> (r: Result<
    Option<ToolExecutionResult>,
    ToolInfrastructureError,
>)
    ensures
        match reported_error(value@) {
            Ok(Some(error)) => r is Ok && r->Ok_0 is Some && r->Ok_0->0@
                == ResultView::ApplicationError(error),
            Ok(None) => r is Ok && r->Ok_0 is None,
            Err(error) => r is Err && r->Err_0 == error,
        },
{
    match value.get("ok") {
        Some(Json::Bool(false)) => {},
        _ => {
            return Ok(None);
        },
    }
    let fields = match value {
        Json::Object(fields) => fields,
        _ => {
            return Ok(None);
        },
    };
    let names: Vec<&str> = vec!["ok", "error", "stdout", "stderr"];
    assert(text::texts(names@) =~= envelope_names());
    if fields.first_other_key(&names).is_some() {
        return Err(ToolInfrastructureError::backend());
    }
    match (fields.get("error"), fields.get("stdout"), fields.get("stderr")) {
        (Some(error), Some(Json::Text(stdout)), Some(Json::Text(stderr))) => match read_error_detail(
            error,
        ) {
            Some((error_type, message, retryable)) => Ok(
                Some(
                    ToolExecutionResult::ApplicationError(
                        ToolApplicationError::new(
                            error_type,
                            message,
                            retryable,
                            stdout.clone(),
                            stderr.clone(),
                        ),
                    ),
                ),
            ),
            None => Err(ToolInfrastructureError::backend()),
        },
        _ => Err(ToolInfrastructureError::backend()),
    }
}

/// Whether a result has the form that its kind calls for.
pub fn validate_typed_result(result: &ToolExecutionResult) -> (r: Result<
    (),
    ToolInfrastructureError,
>)
    ensures
        r == (if model_output(result@, usize::MAX as nat) is Ok {
            Ok::<(), ToolInfrastructureError>(())
        } else {
            Err(ToolInfrastructureError::Backend)
        }),
{
    match result.clone().into_model_output(usize::MAX) {
        Ok(_) => Ok(()),
        Err(_) => Err(ToolInfrastructureError::backend()),
    }
}

/// The result of a call, as its response gives it.
pub open spec fn answered(internal_name: Seq<char>, response: JsonView) -> Result<
    ResultView,
    ToolInfrastructureError,
> {
    match reported_error(response) {
        Err(error) => Err(error),
        Ok(Some(error)) => Ok(ResultView::ApplicationError(error)),
        Ok(None) => if internal_name != WEB_SEARCH_FUNCTION@ {
            Ok(ResultView::Function(response))
        } else if model_output(ResultView::WebSearch(response), usize::MAX as nat) is Ok {
            Ok(ResultView::WebSearch(response))
        } else {
            Err(ToolInfrastructureError::Backend)
        },
    }
}

/// The result view of a call, with the failure where there is none.
pub open spec fn execution_result(r: Result<ToolExecutionResult, ToolInfrastructureError>) -> Result<
    ResultView,
    ToolInfrastructureError,
> {
    match r {
        Ok(result) => Ok(result@),
        Err(error) => Err(error),
    }
}

/// The result of a call, from its response.
pub fn answer(call: &ManagedToolCall, response: Json) -> (r: Result<
    ToolExecutionResult,
    ToolInfrastructureError,
>)
    ensures
        execution_result(r) == answered(call@.internal_name, response@),
{
    match parse_application_error(&response) {
        Err(error) => {
            return Err(error);
        },
        Ok(Some(result)) => {
            return Ok(result);
        },
        Ok(None) => {},
    }
    if text::same_text(call.internal_name.as_str(), WEB_SEARCH_FUNCTION) {
        let result = ToolExecutionResult::web_search(response);
        match validate_typed_result(&result) {
            Ok(()) => Ok(result),
            Err(error) => Err(error),
        }
    } else {
        Ok(ToolExecutionResult::function(response))
    }
}

} // verus!
