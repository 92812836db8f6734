//! A backend that runs Python in a fresh sandbox: what it is asked, and what its answers mean.

use vstd::prelude::*;
use vstd::string::*;
use vstd::utf8::*;
use crate::backend::{
    call_views, CallView, ManagedToolCall, SandboxCleanupOutcome, SandboxOperationReport,
    ToolApplicationError, ToolExecutionResult, ToolInfrastructureError,
};
use crate::config::{
    optional_text, CODE_INTERPRETER_FUNCTION, SANDBOX_MAX_BATCH_EXECUTIONS, SANDBOX_MAX_BATCH_NANOS,
    SANDBOX_MAX_CALL_ID_BYTES, SANDBOX_MAX_CODE_BYTES,
};
use crate::decode::{read_record, record};
use crate::http_backend::execution_result;
use crate::json::{Json, JsonView, NumberView};
use crate::output::{ApplicationErrorView, ResultView};
use crate::program::{base64_encoded, encode_base64};
use crate::serde_value::{json_parsed, parse, text_of_bytes};
use crate::time::{saturated, Duration, Instant};
use crate::uri::{join_uri, joined_uri, parse_uri, uri_parsed, UriParts, UriView};
use crate::{json, text};

verus! {

pub const TEMPLATE: &'static str = "code-interpreter-v1";

pub const PYTHON_CWD: &'static str = "/home/user";

pub const JUPYTER_PORT: &'static str = "49999";

pub const CONTROL_BODY_LIMIT: usize = 65536;

pub const PROTOCOL_OVERHEAD: usize = 65536;

pub const CLEANUP_ATTEMPTS: usize = 2;

/// How long the cleanup of a sandbox may take: two seconds.
pub const CLEANUP_NANOS: u64 = 2_000_000_000;

pub const MAX_ERROR_MESSAGE_BYTES: usize = 1024;

/// What is known of the hosts of a sandbox provider: whether its domain is a valid name, and
/// whether its control host is this machine.
#[derive(Clone, Copy, Debug, PartialEq, Eq)]
pub struct SandboxHosts {
    pub domain_valid: bool,
    pub loopback: bool,
}

/// Where sandboxes are made, and how they may be used.
pub struct E2bSandboxBackend {
    pub api: UriParts,
    pub domain: String,
    pub timeout: Duration,
    pub api_key: String,
    pub max_response_bytes: usize,
    pub loopback: bool,
}

pub struct E2bView {
    pub api: UriView,
    pub domain: Seq<char>,
    pub timeout: Duration,
    pub api_key: Seq<char>,
    pub max_response_bytes: usize,
    pub loopback: bool,
}

impl Clone for E2bSandboxBackend {
    fn clone(&self) -> (r: Self)
        ensures
            r@ == self@,
    {
        E2bSandboxBackend {
            api: self.api.clone(),
            domain: self.domain.clone(),
            timeout: self.timeout,
            api_key: self.api_key.clone(),
            max_response_bytes: self.max_response_bytes,
            loopback: self.loopback,
        }
    }
}

/// The backend of a configuration, where one can be built: its control host is reached over TLS,
/// or is this machine.
pub open spec fn e2b_backend(
    api_url: Seq<char>,
    domain: Seq<char>,
    timeout: Duration,
    api_key: Seq<char>,
    max_response_bytes: usize,
    hosts: SandboxHosts,
) -> Option<E2bView> {
    match uri_parsed(api_url) {
        None => None,
        Some(api) => if timeout.nanos == 0 || timeout.nanos > SANDBOX_MAX_BATCH_NANOS
            || max_response_bytes == 0 || api.host is None || api.path != "/"@ || api.query is Some
            || api_key.len() == 0 || !hosts.domain_valid {
            None
        } else if api.scheme == Some("https"@) || (api.scheme == Some("http"@) && hosts.loopback) {
            Some(
                E2bView {
                    api,
                    domain,
                    timeout,
                    api_key,
                    max_response_bytes,
                    loopback: hosts.loopback,
                },
            )
        } else {
            None
        },
    }
}

/// A call that a sandbox may run, whose id differs from those of the calls before it.
pub open spec fn runnable(call: CallView) -> bool {
    &&& call.arguments is Object
    &&& call.internal_name == CODE_INTERPRETER_FUNCTION@
    &&& text::byte_len(call.call_id) <= SANDBOX_MAX_CALL_ID_BYTES
    &&& call.call_id.len() > 0
    &&& call.trusted_options == JsonView::empty()
    &&& call.arguments->Object_0.len() == 1
    &&& call.arguments.text_at("code"@) is Some
    &&& text::byte_len(call.arguments.text_at("code"@)->0) <= SANDBOX_MAX_CODE_BYTES
}

/// Calls that one sandbox may run.
pub open spec fn runnable_batch(calls: Seq<CallView>) -> bool {
    &&& 0 < calls.len() <= SANDBOX_MAX_BATCH_EXECUTIONS
    &&& forall|i: int| 0 <= i < calls.len() ==> runnable(#[trigger] calls[i])
    &&& forall|i: int, j: int|
        0 <= i < j < calls.len() ==> (#[trigger] calls[i]).call_id != (#[trigger] calls[j]).call_id
}

fn is_runnable(call: &ManagedToolCall) -> (r: bool)
    ensures
        r == runnable(call@),
{
    let arguments = match &call.arguments {
        Json::Object(arguments) => arguments,
        _ => {
            return false;
        },
    };
    let no_options = match &call.trusted_options {
        Json::Object(options) => options.len() == 0,
        _ => false,
    };
    assert(no_options ==> call@.trusted_options->Object_0 =~= Seq::empty());
    if !text::same_text(call.internal_name.as_str(), CODE_INTERPRETER_FUNCTION)
        || text::byte_length(call.call_id.as_str()) > SANDBOX_MAX_CALL_ID_BYTES || !no_options
        || arguments.len() != 1 || text::chars_of(call.call_id.as_str()).len() == 0 {
        return false;
    }
    match call.arguments.text_at("code") {
        Some(code) => text::byte_length(code) <= SANDBOX_MAX_CODE_BYTES,
        None => false,
    }
}

/// A sandbox that was made.
pub struct Sandbox {
    pub sandbox_id: String,
    pub domain: Option<String>,
    pub envd_access_token: Option<String>,
    pub traffic_access_token: Option<String>,
}

pub struct SandboxView {
    pub sandbox_id: Seq<char>,
    pub domain: Option<Seq<char>>,
    pub envd_access_token: Option<Seq<char>>,
    pub traffic_access_token: Option<Seq<char>>,
}

impl Sandbox {
    pub open spec fn view(&self) -> SandboxView {
        SandboxView {
            sandbox_id: self.sandbox_id@,
            domain: optional_text(self.domain),
            envd_access_token: optional_text(self.envd_access_token),
            traffic_access_token: optional_text(self.traffic_access_token),
        }
    }
}

/// Whether a text can be part of a path: letters, digits, `-` and `_`, and not too many.
pub open spec fn path_segment(s: Seq<char>) -> bool {
    &&& 0 < s.len() <= 128
    &&& forall|i: int| 0 <= i < s.len() ==> segment_char(#[trigger] s[i])
}

pub open spec fn segment_char(c: char) -> bool {
    text::is_alphanumeric(c) || c == '-' || c == '_'
}

/// Whether a text can name a sandbox.
pub fn valid_sandbox_id(value: &str) -> (r: bool)
    ensures
        r == path_segment(value@),
{
    let chars = text::chars_of(value);
    if chars.len() == 0 || chars.len() > 128 {
        return false;
    }
    let mut i: usize = 0;
    while i < chars.len()
        invariant
            i <= chars@.len(),
            chars@ == value@,
            forall|j: int| 0 <= j < i ==> segment_char(#[trigger] value@[j]),
        decreases chars@.len() - i,
    {
        let c = chars[i];
        assert(value@[i as int] == c);
        if !(text::alphanumeric(c) || c == '-' || c == '_') {
            return false;
        }
        i += 1;
    }
    true
}

/// A text that may be absent or null.
pub open spec fn optional_field(value: JsonView, key: Seq<char>) -> Option<Option<Seq<char>>> {
    match value.get(key) {
        None => Some(None),
        Some(JsonView::Null) => Some(None),
        Some(JsonView::Text(s)) => Some(Some(s)),
        _ => None,
    }
}

fn read_optional_field(value: &Json, key: &str) -> (r: Option<Option<String>>)
    ensures
        optional_field(value@, key@) == (match r {
            Some(found) => Some(optional_text(found)),
            None => None,
        }),
{
    match value.get(key) {
        None => Some(None),
        Some(Json::Null) => Some(None),
        Some(Json::Text(s)) => Some(Some(s.clone())),
        _ => None,
    }
}

pub open spec fn sandbox_names() -> Seq<Seq<char>> {
    seq!["sandboxID"@, "domain"@, "envdAccessToken"@, "trafficAccessToken"@]
}

/// The sandbox that the answer to its creation names.
pub open spec fn sandbox_of(value: JsonView) -> Option<SandboxView> {
    match record(value, sandbox_names()) {
        None => None,
        Some(found) => match (
            found.get("sandboxID"@),
            optional_field(found, "domain"@),
            optional_field(found, "envdAccessToken"@),
            optional_field(found, "trafficAccessToken"@),
        ) {
            (
                Some(JsonView::Text(sandbox_id)),
                Some(domain),
                Some(envd_access_token),
                Some(traffic_access_token),
            ) => if path_segment(sandbox_id) {
                Some(SandboxView { sandbox_id, domain, envd_access_token, traffic_access_token })
            } else {
                None
            },
            _ => None,
        },
    }
}

/// Reads the answer to the creation of a sandbox.
pub fn read_sandbox(value: &Json) -> (r: Option<Sandbox>)
    ensures
        sandbox_of(value@) == (match r {
            Some(sandbox) => Some(sandbox@),
            None => None,
        }),
{
    let names: Vec<&str> = vec!["sandboxID", "domain", "envdAccessToken", "trafficAccessToken"];
    assert(text::texts(names@) =~= sandbox_names());
    let found = match read_record(value, &names) {
        Some(found) => found,
        None => {
            return None;
        },
    };
    let sandbox_id = match found.get("sandboxID") {
        Some(Json::Text(id)) => id.clone(),
        _ => {
            return None;
        },
    };
    if !valid_sandbox_id(sandbox_id.as_str()) {
        return None;
    }
    match (
        read_optional_field(&found, "domain"),
        read_optional_field(&found, "envdAccessToken"),
        read_optional_field(&found, "trafficAccessToken"),
    ) {
        (Some(domain), Some(envd_access_token), Some(traffic_access_token)) => Some(
            Sandbox { sandbox_id, domain, envd_access_token, traffic_access_token },
        ),
        _ => None,
    }
}

/// The id of a context that the answer to its creation names.
pub open spec fn context_of(value: JsonView) -> Option<Seq<char>> {
    match record(value, seq!["id"@]) {
        None => None,
        Some(found) => match found.get("id"@) {
            Some(JsonView::Text(id)) => if path_segment(id) {
                Some(id)
            } else {
                None
            },
            _ => None,
        },
    }
}

/// Reads the answer to the creation of a context.
pub fn read_context(value: &Json) -> (r: Option<String>)
    ensures
        context_of(value@) == optional_text(r),
{
    let names: Vec<&str> = vec!["id"];
    assert(text::texts(names@) =~= seq!["id"@]);
    let found = match read_record(value, &names) {
        Some(found) => found,
        None => {
            return None;
        },
    };
    match found.get("id") {
        Some(Json::Text(id)) => {
            if valid_sandbox_id(id.as_str()) {
                Some(id.clone())
            } else {
                None
            }
        },
        _ => None,
    }
}

/// The lifetime that a sandbox is made with, in whole seconds, rounded up.
pub open spec fn lifetime_seconds(timeout: Duration, deadline: Instant, now: Instant) -> Result<
    u64,
    ToolInfrastructureError,
> {
    let remaining = saturated(deadline.nanos - now.nanos);
    if remaining == 0 {
        Err(ToolInfrastructureError::Timeout)
    } else {
        let lifetime = if timeout.nanos <= remaining {
            timeout.nanos
        } else {
            remaining
        };
        Ok(
            if lifetime == 0 {
                1
            } else {
                ((lifetime + 999_999_999) / 1_000_000_000) as u64
            },
        )
    }
}

/// The lifetime that a sandbox is made with, in whole seconds, rounded up.
pub fn provider_timeout_seconds(configured_timeout: Duration, deadline: Instant, now: Instant) -> (r:
    Result<u64, ToolInfrastructureError>)
    ensures
        r == lifetime_seconds(configured_timeout, deadline, now),
        r is Ok ==> r->Ok_0 >= 1,
{
    let remaining = deadline.since(now);
    if remaining.is_zero() {
        return Err(ToolInfrastructureError::timeout());
    }
    let lifetime: u64 = configured_timeout.min(remaining).nanos;
    let whole: u64 = lifetime / 1_000_000_000;
    let seconds: u64 = if lifetime % 1_000_000_000 != 0 {
        whole + 1
    } else {
        whole
    };
    Ok(
        if seconds == 0 {
            1
        } else {
            seconds
        },
    )
}

/// A number of bytes as far as the machine can count.
pub open spec fn counted(n: nat) -> nat {
    if n > usize::MAX {
        usize::MAX as nat
    } else {
        n
    }
}

/// What a program wrote and how it failed, as far as its events tell.
pub struct EventsView {
    pub stdout: Seq<char>,
    pub stderr: Seq<char>,
    pub error: Option<(Seq<char>, Seq<char>)>,
}

impl EventsView {
    pub open spec fn bytes(self) -> nat {
        counted(text::byte_len(self.stdout) + text::byte_len(self.stderr))
    }

    /// After one more event, where it is one.
    pub open spec fn after(self, event: JsonView) -> Option<EventsView> {
        match event.text_at("type"@) {
            None => None,
            Some(kind) => if kind == "stdout"@ {
                match event.text_at("text"@) {
                    Some(s) => Some(EventsView { stdout: self.stdout + s, ..self }),
                    None => None,
                }
            } else if kind == "stderr"@ {
                match event.text_at("text"@) {
                    Some(s) => Some(EventsView { stderr: self.stderr + s, ..self }),
                    None => None,
                }
            } else if kind == "error"@ {
                match (event.text_at("name"@), event.text_at("value"@)) {
                    (Some(name), Some(value)) => Some(
                        EventsView { error: Some((name, value)), ..self },
                    ),
                    _ => None,
                }
            } else if kind == "result"@ || kind == "number_of_executions"@ {
                Some(self)
            } else {
                None
            },
        }
    }
}

/// What these lines tell, where each is empty or an event, and never more is written than allowed.
pub open spec fn events_read(lines: Seq<Seq<char>>, allowed: nat) -> Option<EventsView>
    decreases lines.len(),
{
    if lines.len() == 0 {
        Some(EventsView { stdout: Seq::empty(), stderr: Seq::empty(), error: None })
    } else {
        match events_read(lines.drop_last(), allowed) {
            None => None,
            Some(before) => if lines.last().len() == 0 {
                Some(before)
            } else {
                match json_parsed(lines.last()) {
                    Err(_) => None,
                    Ok(event) => match before.after(event) {
                        Some(after) => if after.bytes() <= allowed {
                            Some(after)
                        } else {
                            None
                        },
                        None => None,
                    },
                }
            },
        }
    }
}

/// The result of a program, from what its events tell: its output without the mark that says that
/// some was cut off, and within its limit.
pub open spec fn events_result(events: EventsView, max: usize, marker: Seq<char>) -> Result<
    ResultView,
    ToolInfrastructureError,
> {
    let rest = text::without_suffix(events.stderr, marker);
    let kept = match rest {
        Some(rest) => EventsView { stderr: rest, ..events },
        None => events,
    };
    if kept.bytes() > max {
        Err(ToolInfrastructureError::Backend)
    } else {
        match kept.error {
            Some((name, value)) => Ok(
                ResultView::ApplicationError(
                    ApplicationErrorView {
                        error_type: "execution_error"@,
                        message: text::truncated(
                            name + ": "@ + value,
                            MAX_ERROR_MESSAGE_BYTES as nat,
                        ),
                        retryable: false,
                        stdout: kept.stdout,
                        stderr: kept.stderr,
                    },
                ),
            ),
            None => Ok(
                ResultView::Python(
                    JsonView::empty().with(
                        "exit_code"@,
                        JsonView::Number(NumberView::Unsigned(0)),
                    ).with("stdout"@, JsonView::Text(kept.stdout)).with(
                        "stderr"@,
                        JsonView::Text(kept.stderr),
                    ).with("timed_out"@, JsonView::Bool(false)).with(
                        "truncated"@,
                        JsonView::Bool(rest is Some),
                    ).with("artifacts"@, JsonView::Array(Seq::empty())),
                ),
            ),
        }
    }
}

/// The result of a program, from the body of the answer to its execution.
pub open spec fn execution_read(body: Seq<u8>, max: usize, marker: Seq<char>) -> Result<
    ResultView,
    ToolInfrastructureError,
> {
    if !valid_utf8(body) {
        Err(ToolInfrastructureError::Backend)
    } else {
        match events_read(
            text::lines(decode_utf8(body)),
            counted(max as nat + text::byte_len(marker)),
        ) {
            None => Err(ToolInfrastructureError::Backend),
            Some(events) => events_result(events, max, marker),
        }
    }
}

/// One more event, where it is one.
fn read_event(events: ParsedExecution, event: &Json) -> (r: Option<ParsedExecution>)
    ensures
        events@.after(event@) == (match r {
            Some(after) => Some(after@),
            None => None,
        }),
{
    let kind = match event.text_at("type") {
        Some(kind) => kind,
        None => {
            return None;
        },
    };
    let ParsedExecution { mut stdout, mut stderr, error } = events;
    if text::same_text(kind, "stdout") {
        match event.text_at("text") {
            Some(s) => {
                stdout.append(s);
                Some(ParsedExecution { stdout, stderr, error })
            },
            None => None,
        }
    } else if text::same_text(kind, "stderr") {
        match event.text_at("text") {
            Some(s) => {
                stderr.append(s);
                Some(ParsedExecution { stdout, stderr, error })
            },
            None => None,
        }
    } else if text::same_text(kind, "error") {
        match (event.text_at("name"), event.text_at("value")) {
            (Some(name), Some(value)) => Some(
                ParsedExecution {
                    stdout,
                    stderr,
                    error: Some((name.to_owned(), value.to_owned())),
                },
            ),
            _ => None,
        }
    } else if text::same_text(kind, "result") || text::same_text(kind, "number_of_executions") {
        Some(ParsedExecution { stdout, stderr, error })
    } else {
        None
    }
}

/// What a program wrote and how it failed.
struct ParsedExecution {
    stdout: String,
    stderr: String,
    error: Option<(String, String)>,
}

impl ParsedExecution {
    spec fn view(&self) -> EventsView {
        EventsView {
            stdout: self.stdout@,
            stderr: self.stderr@,
            error: match self.error {
                Some((name, value)) => Some((name@, value@)),
                None => None,
            },
        }
    }

    fn bytes(&self) -> (r: usize)
        ensures
            r == self@.bytes(),
    {
        text::byte_length(self.stdout.as_str()).saturating_add(
            text::byte_length(self.stderr.as_str()),
        )
    }
}

/// Lines of which a part cannot be read cannot be read.
proof fn lemma_events_stop(lines: Seq<Seq<char>>, n: int, allowed: nat)
    requires
        0 <= n <= lines.len(),
        events_read(lines.take(n), allowed) is None,
    ensures
        events_read(lines, allowed) is None,
    decreases lines.len() - n,
{
    if n < lines.len() {
        assert(lines.take(n + 1).drop_last() =~= lines.take(n));
        lemma_events_stop(lines, n + 1, allowed);
    } else {
        assert(lines.take(n) =~= lines);
    }
}

fn read_events(lines: &Vec<String>, allowed: usize) -> (r: Option<ParsedExecution>)
    ensures
        events_read(text::strings(lines@), allowed as nat) == (match r {
            Some(events) => Some(events@),
            None => None,
        }),
{
    let ghost all = text::strings(lines@);
    let mut events = ParsedExecution { stdout: String::new(), stderr: String::new(), error: None };
    assert(events@.stdout =~= Seq::empty());
    assert(events@.stderr =~= Seq::empty());
    let mut i: usize = 0;
    while i < lines.len()
        invariant
            all == text::strings(lines@),
            i <= lines@.len(),
            events_read(all.take(i as int), allowed as nat) == Some(events@),
        decreases lines@.len() - i,
    {
        let line = &lines[i];
        proof {
            assert(all.take(i + 1).drop_last() =~= all.take(i as int));
            assert(all.take(i + 1).last() == line@);
        }
        if text::chars_of(line.as_str()).len() > 0 {
            let event = match parse(line.as_str()) {
                Ok(event) => event,
                Err(_) => {
                    proof {
                        lemma_events_stop(all, i + 1, allowed as nat);
                    }
                    return None;
                },
            };
            match read_event(events, &event) {
                Some(after) => {
                    events = after;
                },
                None => {
                    proof {
                        lemma_events_stop(all, i + 1, allowed as nat);
                    }
                    return None;
                },
            }
            if events.bytes() > allowed {
                proof {
                    lemma_events_stop(all, i + 1, allowed as nat);
                }
                return None;
            }
        }
        i += 1;
    }
    assert(all.take(i as int) =~= all);
    Some(events)
}

/// The result of a program, from the body of the answer to its execution.
pub fn parse_execution(body: &[u8], max_output_bytes: usize, truncation_marker: &str) -> (r: Result<
    ToolExecutionResult,
    ToolInfrastructureError,
>)
    ensures
        execution_result(r) == execution_read(body@, max_output_bytes, truncation_marker@),
{
    let written = match text_of_bytes(body) {
        Some(written) => written,
        None => {
            return Err(ToolInfrastructureError::backend());
        },
    };
    proof {
        encode_utf8_decode_utf8(written@);
    }
    let lines = text::split_lines(written);
    let marker_bytes: usize = text::byte_length(truncation_marker);
    let events = match read_events(&lines, max_output_bytes.saturating_add(marker_bytes)) {
        Some(events) => events,
        None => {
            return Err(ToolInfrastructureError::backend());
        },
    };
    let ghost told = events@;
    let ParsedExecution { stdout, mut stderr, error } = events;
    let mut truncated = false;
    match text::strip_suffix(stderr.as_str(), truncation_marker) {
        Some(rest) => {
            truncated = true;
            stderr = rest.to_owned();
        },
        None => {},
    }
    let kept = ParsedExecution { stdout, stderr, error };
    if kept.bytes() > max_output_bytes {
        return Err(ToolInfrastructureError::backend());
    }
    let ParsedExecution { stdout, stderr, error } = kept;
    match error {
        Some((name, value)) => {
            let mut message = name;
            message.append(": ");
            message.append(value.as_str());
            let message = text::truncate_utf8(message.as_str(), MAX_ERROR_MESSAGE_BYTES);
            Ok(
                ToolExecutionResult::ApplicationError(
                    ToolApplicationError::execution_error(message, false, stdout, stderr),
                ),
            )
        },
        None => {
            let mut output = Json::object();
            output.set("exit_code", Json::unsigned(0));
            output.set("stdout", Json::Text(stdout));
            output.set("stderr", Json::Text(stderr));
            output.set("timed_out", Json::Bool(false));
            output.set("truncated", Json::Bool(truncated));
            let artifacts: Vec<Json> = Vec::new();
            assert(json::views(artifacts@) =~= Seq::<JsonView>::empty());
            output.set("artifacts", Json::array(artifacts));
            Ok(ToolExecutionResult::python(output))
        },
    }
}

/// How many bytes a program wrote, as far as the machine can count.
pub open spec fn output_bytes(result: ResultView) -> nat {
    match result {
        ResultView::Python(value) => counted(
            (match value.text_at("stdout"@) {
                Some(s) => text::byte_len(s),
                None => 0,
            }) + (match value.text_at("stderr"@) {
                Some(s) => text::byte_len(s),
                None => 0,
            }),
        ),
        ResultView::ApplicationError(error) => counted(
            text::byte_len(error.stdout) + text::byte_len(error.stderr),
        ),
        _ => 0,
    }
}

fn text_bytes(value: &Json, key: &str) -> (r: usize)
    ensures
        r == (match value@.text_at(key@) {
            Some(s) => text::byte_len(s),
            None => 0,
        }),
{
    match value.text_at(key) {
        Some(s) => text::byte_length(s),
        None => 0,
    }
}

/// How many bytes a program wrote.
pub fn result_output_bytes(result: &ToolExecutionResult) -> (r: usize)
    ensures
        r == output_bytes(result@),
{
    match result {
        ToolExecutionResult::Python(value) => text_bytes(value, "stdout").saturating_add(
            text_bytes(value, "stderr"),
        ),
        ToolExecutionResult::ApplicationError(error) => text::byte_length(
            error.stdout.as_str(),
        ).saturating_add(text::byte_length(error.stderr.as_str())),
        _ => 0,
    }
}

/// How a step of a sandbox ended.
pub open spec fn report_of(success: bool, started: Instant, now: Instant) -> SandboxOperationReport {
    SandboxOperationReport {
        outcome: if success {
            SandboxCleanupOutcome::Success
        } else {
            SandboxCleanupOutcome::Failure
        },
        duration: Duration { nanos: saturated(now.nanos - started.nanos) },
    }
}

/// How a step of a sandbox ended.
pub fn operation_report(success: bool, started: Instant, now: Instant) -> (r: SandboxOperationReport)
    ensures
        r == report_of(success, started, now),
{
    SandboxOperationReport {
        outcome: if success {
            SandboxCleanupOutcome::Success
        } else {
            SandboxCleanupOutcome::Failure
        },
        duration: now.since(started),
    }
}

/// The Python program that runs another with bounded output begins like this, up to the bound.
pub const BOUNDED_HEAD: &'static str = r#"import base64 as __ag_base64
import sys as __ag_sys

class __AGWriter:
    def __init__(self, target, budget):
        self.target = target
        self.budget = budget
    def write(self, value):
        encoded = value.encode("utf-8", errors="replace")
        remaining = self.budget[0]
        chunk = encoded[:remaining].decode("utf-8", errors="ignore")
        self.budget[0] -= len(chunk.encode("utf-8"))
        if len(encoded) > remaining:
            self.budget[1] = True
        self.target.write(chunk)
        return len(value)
    def flush(self):
        return self.target.flush()
    def isatty(self):
        return False
    @property
    def encoding(self):
        return "utf-8"

__ag_budget = ["#;

/// From the bound up to the encoded program.
pub const BOUNDED_BODY: &'static str = r#", False]
__ag_stdout, __ag_stderr = __ag_sys.stdout, __ag_sys.stderr
__ag_sys.stdout = __AGWriter(__ag_stdout, __ag_budget)
__ag_sys.stderr = __AGWriter(__ag_stderr, __ag_budget)
try:
    exec(compile(__ag_base64.b64decode(""#;

/// From the encoded program up to the id of the mark.
pub const BOUNDED_TAIL: &'static str = r#"").decode("utf-8"), "<agentgateway>", "exec"), {"__name__": "__main__"})
finally:
    __ag_sys.stdout, __ag_sys.stderr = __ag_stdout, __ag_stderr
    if __ag_budget[1]:
        __ag_stderr.write("\n__AG_OUTPUT_TRUNCATED_"#;

/// What follows the id of the mark.
pub const BOUNDED_END: &'static str = r#"__\n")
"#;

/// What a program writes last where its output was cut off.
pub open spec fn cut_mark(id: Seq<char>) -> Seq<char> {
    "\n__AG_OUTPUT_TRUNCATED_"@ + id + "__\n"@
}

/// The program that runs another, lets it write so many bytes, and marks what it cut off.
pub open spec fn bounded_source(code: Seq<char>, max: nat, id: Seq<char>) -> Seq<char> {
    BOUNDED_HEAD@ + text::decimal(max) + BOUNDED_BODY@ + base64_encoded(encode_utf8(code))
        + BOUNDED_TAIL@ + id + BOUNDED_END@
}

/// Writes the program that runs another with bounded output, and the mark that it uses.
pub fn bounded_python_source_marked(code: &str, max_output_bytes: usize, id: &str) -> (r: (
    String,
    String,
))
    requires
        text::byte_len(code@) <= usize::MAX / 2,
    ensures
        r.0@ == bounded_source(code@, max_output_bytes as nat, id@),
        r.1@ == cut_mark(id@),
{
    let mut source = BOUNDED_HEAD.to_owned();
    source.append(text::decimal_text(max_output_bytes as u64).as_str());
    source.append(BOUNDED_BODY);
    source.append(encode_base64(code.as_bytes()).as_str());
    source.append(BOUNDED_TAIL);
    source.append(id);
    source.append(BOUNDED_END);
    let mut marker = "\n__AG_OUTPUT_TRUNCATED_".to_owned();
    marker.append(id);
    marker.append("__\n");
    (source, marker)
}

/// Whether a text looks like an id: groups of lower-case hexadecimal digits with hyphens between.
pub open spec fn is_fresh_id(s: Seq<char>) -> bool {
    &&& s.len() == 36
    &&& forall|i: int|
        0 <= i < 36 ==> ('0' <= #[trigger] s[i] <= '9') || ('a' <= s[i] <= 'f') || s[i] == '-'
}

/// `uuid::Uuid::new_v4`, in its hyphenated form: 36 lower-case hexadecimal digits and hyphens.
/// Which id comes is left to chance.
#[verifier::external_body]
pub(crate) fn fresh_id() -> (r: String)
    ensures
        is_fresh_id(r@),
{
    uuid::Uuid::new_v4().to_string()
}

/// Whether a text looks like an id without hyphens: lower-case hexadecimal digits.
pub open spec fn is_simple_id(s: Seq<char>) -> bool {
    &&& s.len() == 32
    &&& forall|i: int| 0 <= i < 32 ==> ('0' <= #[trigger] s[i] <= '9') || ('a' <= s[i] <= 'f')
}

/// `uuid::Uuid::new_v4`, in its simple form: 32 lower-case hexadecimal digits. Which id comes is
/// left to chance.
#[verifier::external_body]
pub(crate) fn fresh_simple_id() -> (r: String)
    ensures
        is_simple_id(r@),
{
    uuid::Uuid::new_v4().simple().to_string()
}

/// Writes the program that runs another with bounded output, and a mark of its own.
pub fn bounded_python_source(code: &str, max_output_bytes: usize) -> (r: (String, String))
    requires
        text::byte_len(code@) <= usize::MAX / 2,
    ensures
        exists|id: Seq<char>| #[trigger]
            is_fresh_id(id) && r.0@ == bounded_source(code@, max_output_bytes as nat, id) && r.1@
                == cut_mark(id),
{
    let id = fresh_id();
    bounded_python_source_marked(code, max_output_bytes, id.as_str())
}

impl E2bView {
    /// The domain that a sandbox is reached under: its own, or else the provider's.
    pub open spec fn domain_of(self, sandbox: SandboxView) -> Seq<char> {
        match sandbox.domain {
            Some(domain) => domain,
            None => self.domain,
        }
    }

    /// Where a sandbox is reached: at the control host where that is this machine, else under its
    /// domain, where that is valid.
    pub open spec fn origin(self, sandbox: SandboxView, domain_valid: bool) -> Result<
        UriView,
        ToolInfrastructureError,
    > {
        if self.loopback {
            match joined_uri(self.api, "/"@) {
                Some(uri) => Ok(uri_parsed(uri)->0),
                None => Err(ToolInfrastructureError::Configuration),
            }
        } else if !domain_valid {
            Err(ToolInfrastructureError::Backend)
        } else {
            match uri_parsed(
                "https://"@ + JUPYTER_PORT@ + "-"@ + sandbox.sandbox_id + "."@ + self.domain_of(
                    sandbox,
                ),
            ) {
                Some(uri) => Ok(uri),
                None => Err(ToolInfrastructureError::Backend),
            }
        }
    }
}

impl E2bSandboxBackend {
    pub open spec fn view(&self) -> E2bView {
        E2bView {
            api: self.api@,
            domain: self.domain@,
            timeout: self.timeout,
            api_key: self.api_key@,
            max_response_bytes: self.max_response_bytes,
            loopback: self.loopback,
        }
    }

    /// The backend of a provider, where one can be asked there.
    pub fn new(
        api_url: &str,
        domain: String,
        timeout: Duration,
        api_key: String,
        max_response_bytes: usize,
        hosts: SandboxHosts,
    ) -> (r: Result<E2bSandboxBackend, ToolInfrastructureError>)
        ensures
            match e2b_backend(api_url@, domain@, timeout, api_key@, max_response_bytes, hosts) {
                Some(view) => r is Ok && r->Ok_0@ == view,
                None => r == Err::<E2bSandboxBackend, ToolInfrastructureError>(
                    ToolInfrastructureError::Configuration,
                ),
            },
    {
        let api = match parse_uri(api_url) {
            Some(api) => api,
            None => {
                return Err(ToolInfrastructureError::configuration());
            },
        };
        if timeout.is_zero() || timeout.nanos > SANDBOX_MAX_BATCH_NANOS || max_response_bytes == 0
            || api.host.is_none() || !text::same_text(api.path.as_str(), "/")
            || api.query.is_some() || text::chars_of(api_key.as_str()).len() == 0
            || !hosts.domain_valid {
            return Err(ToolInfrastructureError::configuration());
        }
        let reached = match &api.scheme {
            Some(scheme) => text::same_text(scheme.as_str(), "https") || (hosts.loopback
                && text::same_text(scheme.as_str(), "http")),
            None => false,
        };
        if !reached {
            return Err(ToolInfrastructureError::configuration());
        }
        Ok(
            E2bSandboxBackend {
                api,
                domain,
                timeout,
                api_key,
                max_response_bytes,
                loopback: hosts.loopback,
            },
        )
    }

    /// Whether one sandbox may run these calls.
    pub fn validate_calls(&self, calls: &Vec<ManagedToolCall>) -> (r: Result<
        (),
        ToolInfrastructureError,
    >)
        ensures
            r == (if runnable_batch(call_views(calls@)) {
                Ok::<(), ToolInfrastructureError>(())
            } else {
                Err(ToolInfrastructureError::Configuration)
            }),
    {
        let ghost all = call_views(calls@);
        if calls.len() == 0 || calls.len() > SANDBOX_MAX_BATCH_EXECUTIONS {
            return Err(ToolInfrastructureError::configuration());
        }
        let mut i: usize = 0;
        while i < calls.len()
            invariant
                all == call_views(calls@),
                i <= calls@.len(),
                forall|k: int| 0 <= k < i ==> runnable(#[trigger] all[k]),
                forall|k: int, j: int|
                    0 <= k < j < i ==> (#[trigger] all[k]).call_id != (#[trigger] all[j]).call_id,
            decreases calls@.len() - i,
        {
            assert(all[i as int] == calls@[i as int]@);
            if !is_runnable(&calls[i]) {
                return Err(ToolInfrastructureError::configuration());
            }
            let mut j: usize = 0;
            while j < i
                invariant
                    all == call_views(calls@),
                    j <= i < calls@.len(),
                    forall|k: int|
                        0 <= k < j ==> (#[trigger] all[k]).call_id != all[i as int].call_id,
                decreases i - j,
            {
                assert(all[j as int] == calls@[j as int]@);
                if text::same_text(calls[j].call_id.as_str(), calls[i].call_id.as_str()) {
                    return Err(ToolInfrastructureError::configuration());
                }
                j += 1;
            }
            i += 1;
        }
        Ok(())
    }

    /// Where a sandbox is reached, given whether the domain that it is reached under is valid.
    pub fn data_plane_origin(&self, sandbox: &Sandbox, domain_valid: bool) -> (r: Result<
        UriParts,
        ToolInfrastructureError,
    >)
        ensures
            self@.origin(sandbox@, domain_valid) == (match r {
                Ok(uri) => Ok(uri@),
                Err(error) => Err(error),
            }),
    {
        if self.loopback {
            let uri = match join_uri(&self.api, "/") {
                Ok(uri) => uri,
                Err(error) => {
                    return Err(error);
                },
            };
            return match parse_uri(uri.as_str()) {
                Some(parts) => Ok(parts),
                None => Err(ToolInfrastructureError::configuration()),
            };
        }
        if !domain_valid {
            return Err(ToolInfrastructureError::backend());
        }
        let mut origin = "https://".to_owned();
        origin.append(JUPYTER_PORT);
        origin.append("-");
        origin.append(sandbox.sandbox_id.as_str());
        origin.append(".");
        match &sandbox.domain {
            Some(domain) => {
                origin.append(domain.as_str());
            },
            None => {
                origin.append(self.domain.as_str());
            },
        }
        match parse_uri(origin.as_str()) {
            Some(parts) => Ok(parts),
            None => Err(ToolInfrastructureError::backend()),
        }
    }
}

} // verus!
