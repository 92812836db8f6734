//! Operator-owned configuration of the managed tool runtime.

use vstd::prelude::*;
use vstd::string::*;
use crate::time::Duration;

verus! {

/// The names under which a model is offered built-in tools.
pub const WEB_SEARCH_FUNCTION: &'static str = "_agentgateway_web_search";

pub const CODE_INTERPRETER_FUNCTION: &'static str = "_agentgateway_code_interpreter";

pub const PROGRAMMATIC_FUNCTION: &'static str = "_agentgateway_programmatic_tool_calling";

pub const REMOTE_MCP_FUNCTION_PREFIX: &'static str = "_agentgateway_mcp_";

/// No tool of an operator or of a client may have a name that begins like this.
pub const RESERVED_PREFIX: &'static str = "_agentgateway_";

pub const SANDBOX_MAX_BATCH_EXECUTIONS: usize = 8;

pub const SANDBOX_MAX_CALL_ID_BYTES: usize = 256;

pub const SANDBOX_MAX_CODE_BYTES: usize = 32768;

/// The longest time that a sandbox may be asked for: one day.
pub const SANDBOX_MAX_BATCH_NANOS: u64 = 86_400_000_000_000;

/// The limits of one managed request.
#[derive(Clone, Copy, Debug, PartialEq, Eq)]
pub struct RuntimeLimits {
    pub max_rounds: usize,
    pub max_tool_calls: usize,
    pub max_parallel_tool_calls: usize,
    pub total_timeout: Duration,
    pub max_arguments_bytes: usize,
    pub max_output_bytes: usize,
}

impl RuntimeLimits {
    /// The limits where none are configured.
    pub open spec fn standard() -> RuntimeLimits {
        RuntimeLimits {
            max_rounds: 8,
            max_tool_calls: 16,
            max_parallel_tool_calls: 4,
            total_timeout: Duration { nanos: 120_000_000_000 },
            max_arguments_bytes: 65_536,
            max_output_bytes: 1_048_576,
        }
    }

    /// The limits of a configuration that may leave each of them out.
    pub fn configured(
        max_rounds: Option<usize>,
        max_tool_calls: Option<usize>,
        max_parallel_tool_calls: Option<usize>,
        total_timeout: Option<Duration>,
        max_arguments_bytes: Option<usize>,
        max_output_bytes: Option<usize>,
    ) -> (r: RuntimeLimits)
        ensures
            r.max_rounds == (match max_rounds {
                Some(n) => n,
                None => RuntimeLimits::standard().max_rounds,
            }),
            r.max_tool_calls == (match max_tool_calls {
                Some(n) => n,
                None => RuntimeLimits::standard().max_tool_calls,
            }),
            r.max_parallel_tool_calls == (match max_parallel_tool_calls {
                Some(n) => n,
                None => RuntimeLimits::standard().max_parallel_tool_calls,
            }),
            r.total_timeout == (match total_timeout {
                Some(n) => n,
                None => RuntimeLimits::standard().total_timeout,
            }),
            r.max_arguments_bytes == (match max_arguments_bytes {
                Some(n) => n,
                None => RuntimeLimits::standard().max_arguments_bytes,
            }),
            r.max_output_bytes == (match max_output_bytes {
                Some(n) => n,
                None => RuntimeLimits::standard().max_output_bytes,
            }),
    {
        let standard = RuntimeLimits::default();
        RuntimeLimits {
            max_rounds: max_rounds.unwrap_or(standard.max_rounds),
            max_tool_calls: max_tool_calls.unwrap_or(standard.max_tool_calls),
            max_parallel_tool_calls: max_parallel_tool_calls.unwrap_or(
                standard.max_parallel_tool_calls,
            ),
            total_timeout: total_timeout.unwrap_or(standard.total_timeout),
            max_arguments_bytes: max_arguments_bytes.unwrap_or(standard.max_arguments_bytes),
            max_output_bytes: max_output_bytes.unwrap_or(standard.max_output_bytes),
        }
    }
}

impl Default for RuntimeLimits {
    fn default() -> (r: Self)
        ensures
            r == RuntimeLimits::standard(),
    {
        RuntimeLimits {
            max_rounds: 8,
            max_tool_calls: 16,
            max_parallel_tool_calls: 4,
            total_timeout: Duration { nanos: 120_000_000_000 },
            max_arguments_bytes: 65_536,
            max_output_bytes: 1_048_576,
        }
    }
}

/// A tool that the runtime knows by itself.
#[derive(Clone, Copy, Debug, PartialEq, Eq, Structural)]
pub enum BuiltinTool {
    WebSearch,
    CodeInterpreter,
}

/// Where the calls of a tool go. The texts of tokens and keys are secret.
pub enum ToolBackendConfig {
    Http { url: String, timeout: Duration, bearer_token: Option<String> },
    E2b { api_url: String, domain: String, timeout: Duration, api_key: String },
}

/// What a backend configuration says.
pub enum BackendConfigView {
    Http { url: Seq<char>, timeout: Duration, bearer_token: Option<Seq<char>> },
    E2b { api_url: Seq<char>, domain: Seq<char>, timeout: Duration, api_key: Seq<char> },
}

/// The characters of a text that may be absent.
pub open spec fn optional_text(s: Option<String>) -> Option<Seq<char>> {
    match s {
        Some(s) => Some(s@),
        None => None,
    }
}

pub fn clone_optional(s: &Option<String>) -> (r: Option<String>)
    ensures
        optional_text(r) == optional_text(*s),
{
    match s {
        Some(s) => Some(s.clone()),
        None => None,
    }
}

impl ToolBackendConfig {
    pub open spec fn view(&self) -> BackendConfigView {
        match *self {
            ToolBackendConfig::Http { url, timeout, bearer_token } => BackendConfigView::Http {
                url: url@,
                timeout,
                bearer_token: optional_text(bearer_token),
            },
            ToolBackendConfig::E2b { api_url, domain, timeout, api_key } => BackendConfigView::E2b {
                api_url: api_url@,
                domain: domain@,
                timeout,
                api_key: api_key@,
            },
        }
    }
}

impl Clone for ToolBackendConfig {
    fn clone(&self) -> (r: Self)
        ensures
            r@ == self@,
    {
        match self {
            ToolBackendConfig::Http { url, timeout, bearer_token } => ToolBackendConfig::Http {
                url: url.clone(),
                timeout: *timeout,
                bearer_token: clone_optional(bearer_token),
            },
            ToolBackendConfig::E2b { api_url, domain, timeout, api_key } => ToolBackendConfig::E2b {
                api_url: api_url.clone(),
                domain: domain.clone(),
                timeout: *timeout,
                api_key: api_key.clone(),
            },
        }
    }
}

/// One tool of the operator.
pub struct ManagedToolConfig {
    pub name: String,
    pub builtin: Option<BuiltinTool>,
    pub backend: ToolBackendConfig,
}

/// The tools and limits of the operator.
pub struct ToolRuntimeConfig {
    pub limits: RuntimeLimits,
    pub tools: Vec<ManagedToolConfig>,
}

} // verus!
