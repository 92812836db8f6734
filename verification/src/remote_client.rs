//! A remote server and the calls to its tools: where it is, how long it may take, and what its
//! answers mean.

use vstd::prelude::*;
use vstd::string::*;
use crate::address::{is_public_ip, public_address, IpAddress};
use crate::backend::{
    CallView, ManagedToolCall, ToolApplicationError, ToolExecutionResult, ToolInfrastructureError,
};
use crate::config::optional_text;
use crate::http_backend::execution_result;
use crate::json::{Json, JsonView};
use crate::output::{ApplicationErrorView, ResultView};
use crate::remote_tool::{acceptable, remote_views, validate_tools, RemoteMcpTool};
use crate::time::{saturated, Duration, Instant};
use crate::url::{parse_url, url_parsed, UrlParts, UrlView};
use crate::text;

verus! {

/// How long the beginning of a session may take: ten seconds.
pub const CONNECT_NANOS: u64 = 10_000_000_000;

/// How long any other request may take: a minute.
pub const REQUEST_NANOS: u64 = 60_000_000_000;

/// The end of a phase: the earlier of its own end and that of the request.
pub fn phase_deadline(request_deadline: Instant, phase_timeout: Duration, now: Instant) -> (r: Instant)
    ensures
        r.nanos == (if request_deadline.nanos <= saturated(now.nanos + phase_timeout.nanos) {
            request_deadline.nanos
        } else {
            saturated(now.nanos + phase_timeout.nanos)
        }),
{
    let own = now.after(phase_timeout);
    if request_deadline.nanos <= own.nanos {
        request_deadline
    } else {
        own
    }
}

/// How long a call may take: a minute, or less where the deadline comes earlier. A deadline that
/// has passed does not count.
pub open spec fn call_time(deadline: Option<Instant>, now: Instant) -> u64 {
    match deadline {
        Some(deadline) => if deadline.nanos < now.nanos || deadline.nanos - now.nanos
            > REQUEST_NANOS {
            REQUEST_NANOS
        } else {
            (deadline.nanos - now.nanos) as u64
        },
        None => REQUEST_NANOS,
    }
}

/// How long a call may take.
pub fn call_timeout(deadline: Option<Instant>, now: Instant) -> (r: Duration)
    ensures
        r.nanos == call_time(deadline, now),
{
    match deadline {
        Some(deadline) => {
            if deadline.nanos < now.nanos {
                Duration { nanos: REQUEST_NANOS }
            } else {
                deadline.since(now).min(Duration { nanos: REQUEST_NANOS })
            }
        },
        None => Duration { nanos: REQUEST_NANOS },
    }
}

/// The value of the header that authorizes a request.
pub open spec fn bearer(authorization: Seq<char>) -> Seq<char> {
    if text::has_prefix(authorization, "Bearer "@) {
        authorization
    } else {
        "Bearer "@ + authorization
    }
}

/// The value of the header that authorizes a request.
pub fn authorization_header(authorization: &str) -> (r: String)
    ensures
        r@ == bearer(authorization@),
{
    if text::starts_with(authorization, "Bearer ") {
        authorization.to_owned()
    } else {
        let mut value = "Bearer ".to_owned();
        value.append(authorization);
        value
    }
}

/// Why a server cannot be reached.
#[derive(Clone, Copy, Debug, PartialEq, Eq, Structural)]
pub enum EndpointError {
    InvalidUrl,
    NoHost,
    NoPort,
    NotPublic,
}

/// Where a server is: its host and port, and how requests name them.
pub struct Endpoint {
    pub host: String,
    pub port: u16,
    pub host_header: String,
    pub path: String,
    pub https: bool,
}

pub struct EndpointView {
    pub host: Seq<char>,
    pub port: u16,
    pub host_header: Seq<char>,
    pub path: Seq<char>,
    pub https: bool,
}

impl Endpoint {
    pub open spec fn view(&self) -> EndpointView {
        EndpointView {
            host: self.host@,
            port: self.port,
            host_header: self.host_header@,
            path: self.path@,
            https: self.https,
        }
    }
}

/// A host as an authority names it.
pub open spec fn authority_host(host: Seq<char>) -> Seq<char> {
    if host.contains(':') {
        "["@ + host + "]"@
    } else {
        host
    }
}

/// A host and port as a header names them: without the port where the scheme implies it.
pub open spec fn named_host(scheme: Seq<char>, host: Seq<char>, port: u16) -> Seq<char> {
    if (scheme == "https"@ && port == 443) || (scheme == "http"@ && port == 80) {
        authority_host(host)
    } else {
        authority_host(host) + ":"@ + text::decimal(port as nat)
    }
}

/// The path of a request, never empty, with its query.
pub open spec fn request_path(path: Seq<char>, query: Option<Seq<char>>) -> Seq<char> {
    let rooted = if path.len() == 0 {
        "/"@
    } else {
        path
    };
    match query {
        Some(query) => rooted + "?"@ + query,
        None => rooted,
    }
}

/// The endpoint of a URL, where it may be used.
pub open spec fn endpoint_of(url: Option<UrlView>, allow_private_http: bool) -> Result<
    EndpointView,
    EndpointError,
> {
    match url {
        None => Err(EndpointError::InvalidUrl),
        Some(url) => if !(url.scheme == "https"@ || (allow_private_http && url.scheme == "http"@))
            || url.username.len() > 0 || url.password is Some || url.fragment is Some {
            Err(EndpointError::InvalidUrl)
        } else {
            match (url.host, url.port) {
                (None, _) => Err(EndpointError::NoHost),
                (_, None) => Err(EndpointError::NoPort),
                (Some(host), Some(port)) => Ok(
                    EndpointView {
                        host,
                        port,
                        host_header: named_host(url.scheme, host, port),
                        path: request_path(url.path, url.query),
                        https: url.scheme == "https"@,
                    },
                ),
            }
        },
    }
}

fn has_colon(host: &str) -> (r: bool)
    ensures
        r == host@.contains(':'),
{
    let chars = text::chars_of(host);
    let mut i: usize = 0;
    while i < chars.len()
        invariant
            chars@ == host@,
            i <= chars@.len(),
            forall|k: int| 0 <= k < i ==> #[trigger] host@[k] != ':',
        decreases chars@.len() - i,
    {
        if chars[i] == ':' {
            assert(host@[i as int] == ':');
            return true;
        }
        i += 1;
    }
    false
}

/// What an endpoint is, or why there is none.
pub open spec fn endpoint_result(r: Result<Endpoint, EndpointError>) -> Result<
    EndpointView,
    EndpointError,
> {
    match r {
        Ok(endpoint) => Ok(endpoint@),
        Err(error) => Err(error),
    }
}

/// The endpoint of a URL, given its parts.
pub fn endpoint_at(url: Option<UrlParts>, allow_private_http: bool) -> (r: Result<
    Endpoint,
    EndpointError,
>)
    ensures
        endpoint_result(r) == endpoint_of(
            match url {
                Some(url) => Some(url@),
                None => None,
            },
            allow_private_http,
        ),
{
    let url = match url {
        Some(url) => url,
        None => {
            return Err(EndpointError::InvalidUrl);
        },
    };
    let https = text::same_text(url.scheme.as_str(), "https");
    let http = text::same_text(url.scheme.as_str(), "http");
    if !(https || (allow_private_http && http)) || text::chars_of(url.username.as_str()).len() > 0
        || url.password.is_some() || url.fragment.is_some() {
        return Err(EndpointError::InvalidUrl);
    }
    let host = match url.host {
        Some(host) => host,
        None => {
            return Err(EndpointError::NoHost);
        },
    };
    let port: u16 = match url.port {
        Some(port) => port,
        None => {
            return Err(EndpointError::NoPort);
        },
    };
    let mut host_header = if has_colon(host.as_str()) {
        let mut bracketed = "[".to_owned();
        bracketed.append(host.as_str());
        bracketed.append("]");
        bracketed
    } else {
        host.clone()
    };
    if !((https && port == 443) || (http && port == 80)) {
        host_header.append(":");
        host_header.append(text::decimal_text(port as u64).as_str());
    }
    let mut path = if text::chars_of(url.path.as_str()).len() == 0 {
        "/".to_owned()
    } else {
        url.path
    };
    if let Some(query) = url.query {
        path.append("?");
        path.append(query.as_str());
    }
    Ok(Endpoint { host, port, host_header, path, https })
}

/// The endpoint of the server at a URL.
pub fn resolve_endpoint(server_url: &str, allow_private_http: bool) -> (r: Result<
    Endpoint,
    EndpointError,
>)
    ensures
        endpoint_result(r) == endpoint_of(url_parsed(server_url@), allow_private_http),
{
    endpoint_at(parse_url(server_url), allow_private_http)
}

/// Whether a host that has these addresses may be connected to: it has one, and unless private
/// ones are allowed, all of them are public.
pub open spec fn may_connect(addresses: Seq<IpAddress>, allow_private: bool) -> bool {
    &&& addresses.len() > 0
    &&& allow_private || forall|i: int|
        0 <= i < addresses.len() ==> public_address(#[trigger] addresses[i])
}

/// The address to connect to: the first, where the host may be connected to.
pub fn choose_address(addresses: &Vec<IpAddress>, allow_private: bool) -> (r: Result<
    IpAddress,
    EndpointError,
>)
    ensures
        r == (if may_connect(addresses@, allow_private) {
            Ok::<IpAddress, EndpointError>(addresses@[0])
        } else {
            Err(EndpointError::NotPublic)
        }),
{
    if addresses.len() == 0 {
        return Err(EndpointError::NotPublic);
    }
    if !allow_private {
        let mut i: usize = 0;
        while i < addresses.len()
            invariant
                i <= addresses@.len(),
                !allow_private,
                forall|k: int| 0 <= k < i ==> public_address(#[trigger] addresses@[k]),
            decreases addresses@.len() - i,
        {
            if !is_public_ip(addresses[i]) {
                assert(!public_address(addresses@[i as int]));
                return Err(EndpointError::NotPublic);
            }
            i += 1;
        }
    }
    Ok(addresses[0])
}

/// One message of a session, as far as a request waits for it.
#[derive(Clone, Copy, Debug, PartialEq, Eq, Structural)]
pub enum SessionMessage {
    /// The answer to the request.
    Answer,
    /// The failure of the request.
    Failure,
    /// A request of the server's own.
    Request,
    /// The session ended, or a message could not be read.
    End,
    /// Anything else.
    Other,
}

/// How a request ended.
#[derive(Clone, Copy, Debug, PartialEq, Eq, Structural)]
pub enum RemoteCallEnd {
    Answered,
    Application,
    Infrastructure,
}

/// What a message means for a request that waits; `None` where it waits on.
pub open spec fn message_end(message: SessionMessage) -> Option<RemoteCallEnd> {
    match message {
        SessionMessage::Answer => Some(RemoteCallEnd::Answered),
        SessionMessage::Failure => Some(RemoteCallEnd::Application),
        SessionMessage::Request => Some(RemoteCallEnd::Infrastructure),
        SessionMessage::End => Some(RemoteCallEnd::Infrastructure),
        SessionMessage::Other => None,
    }
}

/// What a message means for a request that waits; `None` where it waits on.
pub fn after_message(message: SessionMessage) -> (r: Option<RemoteCallEnd>)
    ensures
        r == message_end(message),
{
    match message {
        SessionMessage::Answer => Some(RemoteCallEnd::Answered),
        SessionMessage::Failure => Some(RemoteCallEnd::Application),
        SessionMessage::Request => Some(RemoteCallEnd::Infrastructure),
        SessionMessage::End => Some(RemoteCallEnd::Infrastructure),
        SessionMessage::Other => None,
    }
}

/// What a call asks of a remote server: the tool by its name there, and its arguments, which are an
/// object.
pub open spec fn remote_request(call: CallView) -> Result<
    (Seq<char>, JsonView),
    ToolInfrastructureError,
> {
    match call.trusted_options.text_at("remote_tool_name"@) {
        None => Err(ToolInfrastructureError::Configuration),
        Some(name) => Ok(
            (
                name,
                if call.arguments is Object {
                    call.arguments
                } else {
                    JsonView::empty()
                },
            ),
        ),
    }
}

/// What a call asks of a remote server.
pub fn request_of(call: &ManagedToolCall) -> (r: Result<(String, Json), ToolInfrastructureError>)
    ensures
        remote_request(call@) == (match r {
            Ok((name, arguments)) => Ok((name@, arguments@)),
            Err(error) => Err(error),
        }),
{
    match call.trusted_options.text_at("remote_tool_name") {
        None => Err(ToolInfrastructureError::configuration()),
        Some(name) => {
            let arguments = if call.arguments.is_object() {
                call.arguments.clone()
            } else {
                Json::object()
            };
            Ok((name.to_owned(), arguments))
        },
    }
}

/// What a remote server gave for a call.
pub enum RemoteAnswer {
    Result(Json),
    Application,
    Infrastructure,
}

/// The result of a call, as a remote server gave it.
pub open spec fn remote_result(answer: RemoteAnswer) -> Result<ResultView, ToolInfrastructureError> {
    match answer {
        RemoteAnswer::Result(value) => Ok(ResultView::Function(value@)),
        RemoteAnswer::Application => Ok(
            ResultView::ApplicationError(
                ApplicationErrorView {
                    error_type: "mcp_tool_error"@,
                    message: "remote MCP tool call failed"@,
                    retryable: false,
                    stdout: Seq::empty(),
                    stderr: Seq::empty(),
                },
            ),
        ),
        RemoteAnswer::Infrastructure => Err(ToolInfrastructureError::Backend),
    }
}

/// The result of a call, as a remote server gave it.
pub fn result_of(answer: RemoteAnswer) -> (r: Result<ToolExecutionResult, ToolInfrastructureError>)
    ensures
        execution_result(r) == remote_result(answer),
{
    match answer {
        RemoteAnswer::Result(value) => Ok(ToolExecutionResult::function(value)),
        RemoteAnswer::Application => {
            let stdout = String::new();
            let stderr = String::new();
            assert(stdout@ =~= Seq::empty());
            assert(stderr@ =~= Seq::empty());
            Ok(
                ToolExecutionResult::ApplicationError(
                    ToolApplicationError::new(
                        "mcp_tool_error".to_owned(),
                        "remote MCP tool call failed".to_owned(),
                        false,
                        stdout,
                        stderr,
                    ),
                ),
            )
        },
        RemoteAnswer::Infrastructure => Err(ToolInfrastructureError::backend()),
    }
}

/// How connecting to a server ended: with its tools, with a failure, or not before the deadline.
pub enum ConnectEnd {
    Connected(Vec<RemoteMcpTool>),
    Failed,
    OutOfTime,
}

/// The tools of a server, once connecting to it ended. A failure after the deadline is a timeout.
pub fn settle_connect(end: ConnectEnd, deadline: Instant, now: Instant) -> (r: Result<
    Vec<RemoteMcpTool>,
    ToolInfrastructureError,
>)
    ensures
        match end {
            ConnectEnd::OutOfTime => r is Err && r->Err_0 == ToolInfrastructureError::Timeout,
            ConnectEnd::Failed => r is Err && r->Err_0 == (if deadline.nanos <= now.nanos {
                ToolInfrastructureError::Timeout
            } else {
                ToolInfrastructureError::Backend
            }),
            ConnectEnd::Connected(tools) => if acceptable(remote_views(tools@)) {
                r is Ok && remote_views(r->Ok_0@) == remote_views(tools@)
            } else {
                r is Err && r->Err_0 == ToolInfrastructureError::Backend
            },
        },
{
    match end {
        ConnectEnd::OutOfTime => Err(ToolInfrastructureError::timeout()),
        ConnectEnd::Failed => {
            if deadline.since(now).is_zero() {
                Err(ToolInfrastructureError::timeout())
            } else {
                Err(ToolInfrastructureError::backend())
            }
        },
        ConnectEnd::Connected(tools) => validate_tools(tools),
    }
}

/// A session with a remote server: where it is, how requests are authorized, and the id of the
/// next request.
pub struct RemoteMcpBackend {
    pub endpoint: Endpoint,
    pub authorization: Option<String>,
    pub next_id: i64,
}

impl RemoteMcpBackend {
    /// A session that has not begun.
    pub fn new(server_url: &str, authorization: Option<&str>, allow_private_http: bool) -> (r: Result<
        RemoteMcpBackend,
        EndpointError,
    >)
        ensures
            match endpoint_of(url_parsed(server_url@), allow_private_http) {
                Ok(endpoint) => r is Ok && r->Ok_0.endpoint@ == endpoint && r->Ok_0.next_id == 1
                    && optional_text(r->Ok_0.authorization) == (match authorization {
                    Some(authorization) => Some(bearer(authorization@)),
                    None => None,
                }),
                Err(error) => r is Err && r->Err_0 == error,
            },
    {
        match resolve_endpoint(server_url, allow_private_http) {
            Ok(endpoint) => {
                let authorization = match authorization {
                    Some(authorization) => Some(authorization_header(authorization)),
                    None => None,
                };
                Ok(RemoteMcpBackend { endpoint, authorization, next_id: 1 })
            },
            Err(error) => Err(error),
        }
    }

    /// The id of the next request; after the last id the first comes again.
    pub fn next_request_id(&mut self) -> (r: i64)
        ensures
            r == old(self).next_id,
            *final(self) == (RemoteMcpBackend {
                next_id: if r == i64::MAX {
                    i64::MIN
                } else {
                    (r + 1) as i64
                },
                ..*old(self)
            }),
    {
        let id: i64 = self.next_id;
        self.next_id = if id == i64::MAX {
            i64::MIN
        } else {
            id + 1
        };
        id
    }
}

} // verus!
