//! What a sandbox provider is asked, in which order, and what is read of what a program wrote.

use vstd::prelude::*;
use vstd::string::*;
use crate::backend::{CallView, SandboxCleanupOutcome, ToolInfrastructureError};
use crate::config::SANDBOX_MAX_BATCH_NANOS;
use crate::e2b::{
    bounded_source, context_of, cut_mark, e2b_backend, events_read, events_result, execution_read,
    lifetime_seconds, output_bytes, path_segment, report_of, sandbox_of, E2bView, EventsView,
    SandboxHosts, SandboxView, MAX_ERROR_MESSAGE_BYTES,
};
use crate::json::{group_fields_read_back, JsonView, NumberView};
use crate::output::ResultView;
use crate::program::base64_encoded;
use crate::sandbox_run::{
    auth_headers, batch_begun, context_read, created_sandbox, creation, run_begun, says_gone,
    source_result, termination, AuthView, EventView, PhaseView, ReplyView, RequestStepView, RunView,
    SandboxMethod, SourceView, StepView,
};
use crate::serde_value::{json_parsed, json_parsed_bytes};
use crate::time::{Duration, Instant};
use crate::uri::{joined_uri, uri_parsed, UriView};
use crate::text;

verus! {

/// A provider is asked only where its URL, its key and its limits allow it, and keeps what was
/// configured.
pub proof fn a_provider_is_what_was_configured(
    api_url: Seq<char>,
    domain: Seq<char>,
    timeout: Duration,
    api_key: Seq<char>,
    max: usize,
    hosts: SandboxHosts,
)
    ensures
        ({
            let api = uri_parsed(api_url);
            let secure = api is Some && (api->0.scheme == Some("https"@) || (api->0.scheme == Some(
                "http"@,
            ) && hosts.loopback));
            let usable = api is Some && secure && api->0.host is Some && api->0.path == "/"@
                && api->0.query is None && 0 < timeout.nanos <= SANDBOX_MAX_BATCH_NANOS && max > 0
                && api_key.len() > 0 && hosts.domain_valid;
            match e2b_backend(api_url, domain, timeout, api_key, max, hosts) {
                Some(backend) => {
                    &&& usable
                    &&& Some(backend.api) == api
                    &&& backend.domain == domain
                    &&& backend.timeout == timeout
                    &&& backend.api_key == api_key
                    &&& backend.max_response_bytes == max
                    &&& backend.loopback == hosts.loopback
                },
                None => !usable,
            }
        }),
{
}

/// A URI of a path has the scheme and the authority of the base and then the path.
pub proof fn a_joined_uri_is_the_path_at_the_base(base: UriView, path: Seq<char>)
    ensures
        match joined_uri(base, path) {
            Some(uri) => base.scheme is Some && base.authority is Some && uri == base.scheme->0
                + "://"@ + base.authority->0 + path && uri_parsed(uri) is Some,
            None => base.scheme is None || base.authority is None || uri_parsed(
                base.scheme->0 + "://"@ + base.authority->0 + path,
            ) is None,
        },
{
}

/// A sandbox is asked for with the key of the operator, from the template of the interpreter, as a
/// secure one, for as many seconds as it may live, rounded up.
pub proof fn a_sandbox_is_asked_for_as_configured(backend: E2bView, deadline: Instant, now: Instant)
    ensures
        match creation(backend, deadline, now) {
            Ok(request) => {
                let body = request.body->0;
                &&& request.method == SandboxMethod::Post
                &&& joined_uri(backend.api, "/sandboxes"@) == Some(request.uri)
                &&& request.auth == AuthView::ApiKey(backend.api_key)
                &&& request.deadline == deadline
                &&& request.body is Some
                &&& body.get("templateID"@) == Some(JsonView::Text("code-interpreter-v1"@))
                &&& body.get("secure"@) == Some(JsonView::Bool(true))
                &&& body.get("timeout"@) matches Some(JsonView::Number(NumberView::Unsigned(
                    seconds,
                ))) && lifetime_seconds(backend.timeout, deadline, now) == Ok::<
                    u64,
                    ToolInfrastructureError,
                >(seconds)
            },
            Err(_) => joined_uri(backend.api, "/sandboxes"@) is None || now.nanos
                >= deadline.nanos,
        },
{
    broadcast use group_fields_read_back;

    lemma_creation_keys();
}

/// A sandbox lives as long as its provider allows and the deadline lets it, in whole seconds, and at
/// least one.
pub proof fn a_sandbox_lives_for_whole_seconds(timeout: Duration, deadline: Instant, now: Instant)
    ensures
        match lifetime_seconds(timeout, deadline, now) {
            Ok(seconds) => {
                let left = deadline.nanos - now.nanos;
                let allowed = if timeout.nanos <= left {
                    timeout.nanos as int
                } else {
                    left
                };
                &&& now.nanos < deadline.nanos
                &&& seconds >= 1
                &&& allowed > 0 ==> (seconds - 1) * 1_000_000_000 < allowed <= seconds
                    * 1_000_000_000
            },
            Err(error) => now.nanos >= deadline.nanos && error == ToolInfrastructureError::Timeout,
        },
{
}

/// Code that a model wants run is run as it is: one source for each call, in their order, with the
/// code of the call and no environment.
pub proof fn code_is_run_as_it_was_written(
    backend: E2bView,
    calls: Seq<CallView>,
    deadline: Option<Instant>,
    now: Instant,
)
    ensures
        match batch_begun(backend, calls, deadline, now) {
            Ok(Some((run, step))) => {
                &&& run.sources.len() == calls.len()
                &&& forall|i: int|
                    0 <= i < calls.len() ==> calls[i].arguments.get("code"@) == Some(
                        JsonView::Text((#[trigger] run.sources[i]).code),
                    ) && run.sources[i].env_vars is None
                &&& run.backend == backend
                &&& run.results.len() == 0
                &&& run.phase is Creating
                &&& run.remaining_output == backend.max_response_bytes
                &&& step is Send
                &&& creation(backend, run.operation_deadline, now) == Ok::<
                    RequestStepView,
                    ToolInfrastructureError,
                >(step->Send_0)
            },
            Ok(None) => calls.len() == 0,
            Err(_) => calls.len() > 0,
        },
{
    if let Ok(Some((run, step))) = batch_begun(backend, calls, deadline, now) {
        assert forall|i: int| 0 <= i < calls.len() implies calls[i].arguments.get("code"@) == Some(
            JsonView::Text((#[trigger] run.sources[i]).code),
        ) && run.sources[i].env_vars is None by {
            assert(crate::e2b::runnable(calls[i]));
        }
    }
}

/// A run ends with its request and no later than its provider allows, and keeps some of its time for
/// cleaning up.
pub proof fn a_run_ends_with_its_request(
    backend: E2bView,
    sources: Seq<SourceView>,
    deadline: Instant,
    max: usize,
    now: Instant,
)
    ensures
        match run_begun(backend, sources, Some(deadline), max, now) {
            Ok((run, step)) => {
                &&& run.sources == sources
                &&& run.backend == backend
                &&& run.remaining_output == max
                &&& run.started == now
                &&& run.deadline.nanos <= deadline.nanos
                &&& run.deadline.nanos <= now.nanos + backend.timeout.nanos
                &&& run.deadline.nanos == deadline.nanos || run.deadline.nanos == now.nanos
                    + backend.timeout.nanos || run.deadline.nanos == u64::MAX
                &&& now.nanos < run.deadline.nanos
                &&& run.operation_deadline.nanos <= run.deadline.nanos
                &&& run.deadline.nanos - run.operation_deadline.nanos <= 2_000_000_000
                &&& 4 * (run.deadline.nanos - run.operation_deadline.nanos) <= run.deadline.nanos
                    - now.nanos
            },
            Err(_) => true,
        },
{
}

/// A sandbox is the one that the provider says it made.
pub proof fn a_sandbox_is_the_one_that_was_made(value: JsonView)
    requires
        value is Object,
    ensures
        match sandbox_of(value) {
            Some(sandbox) => {
                &&& value.get("sandboxID"@) == Some(JsonView::Text(sandbox.sandbox_id))
                &&& path_segment(sandbox.sandbox_id)
                &&& sandbox.domain == value.text_at("domain"@)
                &&& sandbox.envd_access_token == value.text_at("envdAccessToken"@)
                &&& sandbox.traffic_access_token == value.text_at("trafficAccessToken"@)
            },
            None => true,
        },
        match context_of(value) {
            Some(context) => value.get("id"@) == Some(JsonView::Text(context)) && path_segment(
                context,
            ),
            None => value.text_at("id"@) is None || !path_segment(value.text_at("id"@)->0),
        },
{
}

/// A sandbox is used once the provider says with a 201 that it made it, and where it names a domain
/// once that is judged; any other answer ends the run with what it was.
pub proof fn a_sandbox_is_used_once_it_was_made(run: RunView, reply: ReplyView, now: Instant)
    ensures
        ({
            let (after, step) = run.creation_answered(reply, now);
            match reply {
                ReplyView::Failed(error) => step matches StepView::Finish(Err(failure))
                    && failure.error == error,
                ReplyView::Answered { status, refusal, body } => {
                    &&& status != 201 ==> (step matches StepView::Finish(Err(failure))
                        && failure.error == refusal)
                    &&& status == 201 && created_sandbox(body) is None ==> (
                    step matches StepView::Finish(Err(failure)) && failure.error
                        == ToolInfrastructureError::Backend)
                    &&& status == 201 && created_sandbox(body) is Some ==> {
                        let sandbox = created_sandbox(body)->0;
                        &&& json_parsed_bytes(body) is Ok
                        &&& sandbox_of(json_parsed_bytes(body)->Ok_0) == Some(sandbox)
                        &&& sandbox.domain matches Some(domain) ==> step == StepView::CheckDomain(
                            domain,
                        ) && after.phase == PhaseView::Checking(sandbox)
                        &&& sandbox.domain is None ==> step is Send || step is CleanUp
                    }
                },
            }
        }),
{
}

/// Whether a text holds another.
pub open spec fn holds(s: Seq<char>, part: Seq<char>) -> bool {
    exists|before: Seq<char>, after: Seq<char>| s == #[trigger] (before + part + after)
}

/// The program that bounds another holds it, encoded, and how much it may write, and the mark that
/// it writes where it wrote too much.
pub proof fn a_bounded_program_holds_the_program(code: Seq<char>, max: nat, id: Seq<char>)
    ensures
        holds(bounded_source(code, max, id), base64_encoded(vstd::utf8::encode_utf8(code))),
        holds(bounded_source(code, max, id), text::decimal(max)),
        holds(bounded_source(code, max, id), id),
        holds(cut_mark(id), id),
{
    let head = crate::e2b::BOUNDED_HEAD@;
    let body = crate::e2b::BOUNDED_BODY@;
    let tail = crate::e2b::BOUNDED_TAIL@;
    let end = crate::e2b::BOUNDED_END@;
    let number = text::decimal(max);
    let written = base64_encoded(vstd::utf8::encode_utf8(code));
    let s = bounded_source(code, max, id);
    assert(s =~= (head + number + body) + written + (tail + id + end));
    assert(s =~= head + number + (body + written + tail + id + end));
    assert(s =~= (head + number + body + written + tail) + id + end);
    assert(cut_mark(id) =~= "\n__AG_OUTPUT_TRUNCATED_"@ + id + "__\n"@);
}

/// Whether a request is for a sandbox: with the tokens of the sandbox, at a path of it.
pub open spec fn is_for_sandbox(
    request: RequestStepView,
    backend: E2bView,
    sandbox: SandboxView,
    path: Seq<char>,
) -> bool {
    &&& request.auth == (AuthView::Tokens {
        envd: sandbox.envd_access_token,
        traffic: sandbox.traffic_access_token,
    })
    &&& backend.origin(sandbox, true) is Ok
    &&& joined_uri(backend.origin(sandbox, true)->Ok_0, path) == Some(request.uri)
}

/// A sandbox is reached on this machine where the provider is there, and else over TLS under its own
/// name and its domain.
pub proof fn a_sandbox_is_reached_under_its_name(backend: E2bView, sandbox: SandboxView)
    ensures
        match backend.origin(sandbox, true) {
            Ok(uri) => {
                let domain = match sandbox.domain {
                    Some(domain) => domain,
                    None => backend.domain,
                };
                &&& !backend.loopback ==> uri_parsed(
                    "https://49999-"@ + sandbox.sandbox_id + "."@ + domain,
                ) == Some(uri)
                &&& backend.loopback ==> joined_uri(backend.api, "/"@) is Some && uri_parsed(
                    joined_uri(backend.api, "/"@)->0,
                ) == Some(uri)
            },
            Err(_) => true,
        },
        !backend.loopback ==> backend.origin(sandbox, false) is Err,
{
    reveal_strlit("https://");
    reveal_strlit("49999");
    reveal_strlit("-");
    reveal_strlit("https://49999-");
    assert("https://49999-"@ =~= "https://"@ + "49999"@ + "-"@);
    let domain = backend.domain_of(sandbox);
    assert("https://49999-"@ + sandbox.sandbox_id + "."@ + domain =~= "https://"@
        + crate::e2b::JUPYTER_PORT@ + "-"@ + sandbox.sandbox_id + "."@ + domain);
}

/// For every source a context of its own is opened, and nothing more once all have run.
pub proof fn a_source_runs_in_a_context_of_its_own(
    run: RunView,
    sandbox: SandboxView,
    now: Instant,
)
    ensures
        ({
            let (after, step) = run.opened(sandbox, now);
            match step {
                StepView::Send(request) => {
                    &&& run.results.len() < run.sources.len()
                    &&& after == (RunView { phase: PhaseView::Opening(sandbox), ..run })
                    &&& request.method == SandboxMethod::Post
                    &&& is_for_sandbox(request, run.backend, sandbox, "/contexts"@)
                    &&& request.body is Some
                    &&& request.body->0.get("language"@) == Some(JsonView::Text("python"@))
                    &&& request.body->0.get("cwd"@) == Some(JsonView::Text("/home/user"@))
                    &&& request.deadline == run.operation_deadline
                },
                StepView::CleanUp(id) => {
                    &&& id == sandbox.sandbox_id
                    &&& after.phase is Cleaning
                    &&& after.results == run.results
                    &&& after.phase->Cleaning_0 is None <==> run.results.len()
                        >= run.sources.len()
                },
                _ => false,
            }
        }),
{
    broadcast use group_fields_read_back;

    lemma_context_keys();
}

/// The next source is run in the context that was opened for it: its code, bounded by what may still
/// be written, with its environment.
pub proof fn the_next_source_is_run_in_its_context(
    run: RunView,
    sandbox: SandboxView,
    reply: ReplyView,
    id: Seq<char>,
    now: Instant,
)
    ensures
        ({
            let (after, step) = run.context_answered(sandbox, reply, id, now);
            match step {
                StepView::Send(request) => {
                    let source = run.sources[run.results.len() as int];
                    let body = request.body->0;
                    let context = context_read(reply)->Ok_0;
                    &&& context_read(reply) is Ok
                    &&& after == (RunView {
                        phase: PhaseView::Executing { sandbox, context, marker: cut_mark(id) },
                        ..run
                    })
                    &&& request.method == SandboxMethod::Post
                    &&& is_for_sandbox(request, run.backend, sandbox, "/execute"@)
                    &&& request.deadline == run.operation_deadline
                    &&& request.body is Some
                    &&& body.get("code"@) == Some(
                        JsonView::Text(
                            bounded_source(source.code, run.remaining_output as nat, id),
                        ),
                    )
                    &&& body.get("context_id"@) == Some(JsonView::Text(context))
                    &&& body.get("env_vars"@) == Some(
                        match source.env_vars {
                            Some(env_vars) => env_vars,
                            None => JsonView::Null,
                        },
                    )
                },
                StepView::CleanUp(cleaned) => cleaned == sandbox.sandbox_id && after.phase
                    is Cleaning && after.phase->Cleaning_0 is Some,
                _ => false,
            }
        }),
        context_read(reply) matches Ok(context) ==> (reply matches ReplyView::Answered {
            status,
            refusal,
            body,
        } && 200 <= status <= 299 && json_parsed_bytes(body) is Ok && context_of(
            json_parsed_bytes(body)->Ok_0,
        ) == Some(context)),
{
    broadcast use group_fields_read_back;

    lemma_execution_keys();
}

/// Once a source was run, its context is removed; what running it gave is kept until then.
pub proof fn a_context_is_removed_once_its_source_was_run(
    run: RunView,
    sandbox: SandboxView,
    context: Seq<char>,
    marker: Seq<char>,
    reply: ReplyView,
    now: Instant,
)
    ensures
        ({
            let (after, step) = run.execution_answered(sandbox, context, marker, reply, now);
            match step {
                StepView::Send(request) => {
                    &&& after == (RunView {
                        phase: PhaseView::Removing { sandbox, marker, execution: reply },
                        ..run
                    })
                    &&& request.method == SandboxMethod::Delete
                    &&& request.body is None
                    &&& is_for_sandbox(request, run.backend, sandbox, "/contexts/"@ + context)
                },
                StepView::CleanUp(id) => id == sandbox.sandbox_id && after.phase is Cleaning
                    && after.phase->Cleaning_0 is Some,
                _ => false,
            }
        }),
{
}

/// What running a source gave is the next result, and what it wrote is taken off what may still be
/// written; a source that could not be run or whose context could not be removed ends the run.
pub proof fn what_a_source_gave_is_the_next_result(
    run: RunView,
    sandbox: SandboxView,
    marker: Seq<char>,
    execution: ReplyView,
    removal: ReplyView,
    now: Instant,
)
    requires
        run.results.len() < run.sources.len(),
    ensures
        ({
            let (after, step) = run.removal_answered(sandbox, marker, execution, removal, now);
            let given = source_result(execution, removal, run.remaining_output, marker);
            match given {
                Ok(result) => {
                    &&& after.results == run.results.push(result)
                    &&& after.remaining_output == if output_bytes(result) >= run.remaining_output {
                        0
                    } else {
                        run.remaining_output - output_bytes(result)
                    }
                    &&& after.sources == run.sources
                },
                Err(error) => {
                    &&& after.results == run.results
                    &&& after.phase == PhaseView::Cleaning(Some(error))
                    &&& step == StepView::CleanUp(sandbox.sandbox_id)
                },
            }
        }),
        source_result(execution, removal, run.remaining_output, marker) matches Ok(result) ==> (
        execution matches ReplyView::Answered { status, refusal, body } && 200 <= status <= 299
            && execution_read(body, run.remaining_output, marker) == Ok::<
            ResultView,
            ToolInfrastructureError,
        >(result)),
{
}

/// A run that is cleaned up without a failure has run all of its sources, and it gives their
/// results, in their order; one with a failure, or whose sandbox is not gone, gives that failure.
pub proof fn a_cleaned_run_gives_all_of_its_results(
    run: RunView,
    terminated: bool,
    now: Instant,
    error: Option<ToolInfrastructureError>,
)
    ensures
        ({
            let (after, step) = run.cleaned_up(error, terminated, now);
            let outcome = if terminated {
                SandboxCleanupOutcome::Success
            } else {
                SandboxCleanupOutcome::Failure
            };
            &&& after.phase is Finished
            &&& after.metadata.sandbox_cleanup == Some(outcome)
            &&& after.metadata.sandbox_terminate matches Some(report) && report.outcome == outcome
            &&& error is None && terminated ==> step == StepView::Finish(
                Ok((run.results, after.metadata)),
            )
            &&& error matches Some(error) ==> (step matches StepView::Finish(Err(failure))
                && failure.error == error && failure.metadata == after.metadata)
            &&& error is None && !terminated ==> (step matches StepView::Finish(Err(failure))
                && failure.error == ToolInfrastructureError::Backend)
        }),
{
}

/// A sandbox is terminated with the key of the operator, under its own id; it is gone where the
/// provider says that it is or that there is none.
pub proof fn a_sandbox_is_terminated_under_its_id(
    backend: E2bView,
    sandbox_id: Seq<char>,
    deadline: Instant,
    status: u16,
)
    ensures
        termination(backend, sandbox_id, deadline) matches Some(request) ==> {
            &&& request.method == SandboxMethod::Delete
            &&& request.body is None
            &&& request.auth == AuthView::ApiKey(backend.api_key)
            &&& joined_uri(backend.api, "/sandboxes/"@ + sandbox_id) == Some(request.uri)
            &&& request.deadline == deadline
        },
        says_gone(Some(status)) <==> status == 204 || status == 404,
        !says_gone(None),
{
}

/// A request carries the key of the operator, or the tokens that the sandbox has, and nothing else.
pub proof fn a_request_carries_its_own_secrets(key: Seq<char>, envd: Seq<char>, traffic: Seq<char>)
    ensures
        auth_headers(AuthView::ApiKey(key)) =~= seq![("X-API-Key"@, key)],
        auth_headers(AuthView::Tokens { envd: Some(envd), traffic: Some(traffic) }) =~= seq![
            ("X-Access-Token"@, envd),
            ("E2B-Traffic-Access-Token"@, traffic),
        ],
        auth_headers(AuthView::Tokens { envd: Some(envd), traffic: None }) =~= seq![
            ("X-Access-Token"@, envd),
        ],
        auth_headers(AuthView::Tokens { envd: None, traffic: Some(traffic) }) =~= seq![
            ("E2B-Traffic-Access-Token"@, traffic),
        ],
        auth_headers(AuthView::Tokens { envd: None, traffic: None }).len() == 0,
{
}

/// What the lines of an execution say of a kind, joined in their order.
pub open spec fn written(lines: Seq<Seq<char>>, kind: Seq<char>) -> Seq<char>
    decreases lines.len(),
{
    if lines.len() == 0 {
        Seq::empty()
    } else {
        let before = written(lines.drop_last(), kind);
        match json_parsed(lines.last()) {
            Ok(event) => if lines.last().len() > 0 && event.text_at("type"@) == Some(kind)
                && event.text_at("text"@) is Some {
                before + event.text_at("text"@)->0
            } else {
                before
            },
            Err(_) => before,
        }
    }
}

/// Whether a line reports a failure of the program.
pub open spec fn reports_error(line: Seq<char>, name: Seq<char>, value: Seq<char>) -> bool {
    &&& line.len() > 0
    &&& json_parsed(line) matches Ok(event) && event.get("type"@) == Some(JsonView::Text("error"@))
        && event.get("name"@) == Some(JsonView::Text(name)) && event.get("value"@) == Some(
        JsonView::Text(value),
    )
}

/// Everything that a program wrote is read, in its order, and so is how it failed.
pub proof fn everything_that_was_written_is_read(lines: Seq<Seq<char>>, allowed: nat)
    ensures
        match events_read(lines, allowed) {
            Some(events) => {
                &&& events.stdout == written(lines, "stdout"@)
                &&& events.stderr == written(lines, "stderr"@)
                &&& events.error matches Some((name, value)) ==> exists|i: int|
                    0 <= i < lines.len() && reports_error(#[trigger] lines[i], name, value)
                &&& events.error is None ==> forall|i: int, name: Seq<char>, value: Seq<char>|
                    0 <= i < lines.len() ==> !#[trigger] reports_error(lines[i], name, value)
            },
            None => true,
        },
    decreases lines.len(),
{
    lemma_event_types();
    if lines.len() > 0 {
        let rest = lines.drop_last();
        let n = lines.len() - 1;
        everything_that_was_written_is_read(rest, allowed);
        if events_read(lines, allowed) is Some {
            let before = events_read(rest, allowed)->0;
            let events = events_read(lines, allowed)->0;
            if let Some((name, value)) = events.error {
                if events.error == before.error && !reports_error(lines[n], name, value) {
                    let i = choose|i: int|
                        0 <= i < rest.len() && reports_error(#[trigger] rest[i], name, value);
                    assert(reports_error(lines[i], name, value));
                } else {
                    assert(reports_error(lines[n], name, value));
                }
            } else {
                assert forall|i: int, name: Seq<char>, value: Seq<char>|
                    0 <= i < lines.len() implies !#[trigger] reports_error(
                    lines[i],
                    name,
                    value,
                ) by {
                    if i < n {
                        assert(rest[i] == lines[i]);
                        assert(!reports_error(rest[i], name, value));
                    }
                }
            }
        }
    }
}

/// What running a program gives is what it wrote, without the mark of a cut, which it only tells of;
/// a program that failed is told as a failure, with its words and with what it wrote.
pub proof fn running_gives_what_was_written(events: EventsView, max: usize, marker: Seq<char>)
    requires
        marker.len() > 0,
    ensures
        ({
            let was_cut = text::has_suffix(events.stderr, marker);
            let stderr = if was_cut {
                events.stderr.take(events.stderr.len() - marker.len())
            } else {
                events.stderr
            };
            match events_result(events, max, marker) {
                Ok(ResultView::Python(value)) => {
                    &&& events.error is None
                    &&& value.get("stdout"@) == Some(JsonView::Text(events.stdout))
                    &&& value.get("stderr"@) == Some(JsonView::Text(stderr))
                    &&& value.get("exit_code"@) == Some(JsonView::Number(NumberView::Unsigned(0)))
                    &&& value.get("timed_out"@) == Some(JsonView::Bool(false))
                    &&& value.get("truncated"@) == Some(JsonView::Bool(was_cut))
                    &&& value.get("artifacts"@) == Some(JsonView::Array(Seq::empty()))
                },
                Ok(ResultView::ApplicationError(error)) => {
                    &&& events.error is Some
                    &&& error.error_type == "execution_error"@
                    &&& error.stdout == events.stdout
                    &&& error.stderr == stderr
                    &&& !error.retryable
                    &&& events.error matches Some((name, value)) ==> (text::byte_len(
                        name + ": "@ + value,
                    ) <= MAX_ERROR_MESSAGE_BYTES ==> error.message == name + ": "@ + value)
                },
                Ok(_) => false,
                Err(error) => error == ToolInfrastructureError::Backend && text::byte_len(
                    events.stdout,
                ) + text::byte_len(stderr) > max,
            }
        }),
{
    broadcast use group_fields_read_back;

    lemma_result_keys();
    if let Some((name, value)) = events.error {
        let words = name + ": "@ + value;
        text::truncated_is_the_longest_fitting_prefix(words, MAX_ERROR_MESSAGE_BYTES as nat);
        assert(words.take(words.len() as int) =~= words);
    }
}

/// The answer of an execution is read as the lines of its text.
pub proof fn an_execution_is_read_line_by_line(written: Seq<char>, max: usize, marker: Seq<char>)
    ensures
        match execution_read(vstd::utf8::encode_utf8(written), max, marker) {
            Ok(result) => exists|allowed: nat|
                {
                    &&& (#[trigger] events_read(text::lines(written), allowed)) is Some
                    &&& events_result(
                        events_read(text::lines(written), allowed)->0,
                        max,
                        marker,
                    ) == Ok::<ResultView, ToolInfrastructureError>(result)
                },
            Err(error) => error == ToolInfrastructureError::Backend,
        },
{
    vstd::utf8::encode_utf8_decode_utf8(written);
    vstd::utf8::encode_utf8_valid_utf8(written);
    let allowed = crate::e2b::counted(max as nat + text::byte_len(marker));
    let bytes = vstd::utf8::encode_utf8(written);
    if let Ok(result) = execution_read(bytes, max, marker) {
        assert(events_read(text::lines(written), allowed) is Some);
    }
}

/// What a result took of what may be written is what it holds of it.
pub proof fn a_result_takes_what_it_holds(
    value: JsonView,
    stdout: Seq<char>,
    stderr: Seq<char>,
)
    requires
        value.get("stdout"@) == Some(JsonView::Text(stdout)),
        value.get("stderr"@) == Some(JsonView::Text(stderr)),
        text::byte_len(stdout) + text::byte_len(stderr) <= usize::MAX,
    ensures
        output_bytes(ResultView::Python(value)) == text::byte_len(stdout) + text::byte_len(stderr),
{
}

proof fn lemma_creation_keys()
    ensures
        "templateID"@ != "timeout"@,
        "templateID"@ != "secure"@,
        "timeout"@ != "secure"@,
{
    reveal_strlit("templateID");
    reveal_strlit("timeout");
    reveal_strlit("secure");
    assert("templateID"@.len() == 10);
    assert("timeout"@.len() == 7);
    assert("secure"@.len() == 6);
}

proof fn lemma_context_keys()
    ensures
        "language"@ != "cwd"@,
{
    reveal_strlit("language");
    reveal_strlit("cwd");
    assert("language"@.len() == 8);
    assert("cwd"@.len() == 3);
}

proof fn lemma_execution_keys()
    ensures
        "code"@ != "context_id"@,
        "code"@ != "language"@,
        "code"@ != "env_vars"@,
        "context_id"@ != "language"@,
        "context_id"@ != "env_vars"@,
        "language"@ != "env_vars"@,
{
    reveal_strlit("code");
    reveal_strlit("context_id");
    reveal_strlit("language");
    reveal_strlit("env_vars");
    assert("code"@.len() == 4);
    assert("context_id"@.len() == 10);
    assert("language"@.len() == 8);
    assert("env_vars"@.len() == 8);
    assert("language"@[0] != "env_vars"@[0]);
}

proof fn lemma_event_types()
    ensures
        "stdout"@ != "stderr"@,
        "stdout"@ != "error"@,
        "stdout"@ != "result"@,
        "stdout"@ != "number_of_executions"@,
        "stderr"@ != "error"@,
        "stderr"@ != "result"@,
        "stderr"@ != "number_of_executions"@,
        "error"@ != "result"@,
        "error"@ != "number_of_executions"@,
        "result"@ != "number_of_executions"@,
{
    reveal_strlit("stdout");
    reveal_strlit("stderr");
    reveal_strlit("error");
    reveal_strlit("result");
    reveal_strlit("number_of_executions");
    assert("stdout"@.len() == 6);
    assert("stderr"@.len() == 6);
    assert("error"@.len() == 5);
    assert("result"@.len() == 6);
    assert("number_of_executions"@.len() == 20);
    assert("stdout"@[3] != "stderr"@[3]);
    assert("stdout"@[0] != "result"@[0]);
    assert("stderr"@[0] != "result"@[0]);
}

proof fn lemma_result_keys()
    ensures
        "exit_code"@ != "stdout"@,
        "exit_code"@ != "stderr"@,
        "exit_code"@ != "timed_out"@,
        "exit_code"@ != "truncated"@,
        "exit_code"@ != "artifacts"@,
        "stdout"@ != "stderr"@,
        "stdout"@ != "timed_out"@,
        "stdout"@ != "truncated"@,
        "stdout"@ != "artifacts"@,
        "stderr"@ != "timed_out"@,
        "stderr"@ != "truncated"@,
        "stderr"@ != "artifacts"@,
        "timed_out"@ != "truncated"@,
        "timed_out"@ != "artifacts"@,
        "truncated"@ != "artifacts"@,
{
    reveal_strlit("exit_code");
    reveal_strlit("stdout");
    reveal_strlit("stderr");
    reveal_strlit("timed_out");
    reveal_strlit("truncated");
    reveal_strlit("artifacts");
    assert("exit_code"@.len() == 9);
    assert("stdout"@.len() == 6);
    assert("stderr"@.len() == 6);
    assert("timed_out"@.len() == 9);
    assert("truncated"@.len() == 9);
    assert("artifacts"@.len() == 9);
    assert("exit_code"@[0] != "timed_out"@[0]);
    assert("exit_code"@[0] != "truncated"@[0]);
    assert("exit_code"@[0] != "artifacts"@[0]);
    assert("timed_out"@[1] != "truncated"@[1]);
    assert("timed_out"@[0] != "artifacts"@[0]);
    assert("truncated"@[0] != "artifacts"@[0]);
    assert("stdout"@[3] != "stderr"@[3]);
}

/// A step is reported with whether it succeeded and how long it took.
pub proof fn a_step_is_reported_with_the_time_that_it_took(
    success: bool,
    started: Instant,
    now: Instant,
)
    requires
        started.nanos <= now.nanos,
    ensures
        ({
            let report = report_of(success, started, now);
            &&& report.outcome == SandboxCleanupOutcome::Success <==> success
            &&& report.outcome == SandboxCleanupOutcome::Failure <==> !success
            &&& started.nanos + report.duration.nanos == now.nanos
        }),
{
}

/// A sandbox under a domain is used only where the domain is a valid one; under any other it is
/// cleaned up at once, and the run fails.
pub proof fn a_sandbox_under_no_valid_domain_is_not_used(
    run: RunView,
    sandbox: SandboxView,
    id: Seq<char>,
    now: Instant,
)
    requires
        run.phase == PhaseView::Checking(sandbox),
    ensures
        ({
            let (after, step) = run.after(EventView::DomainChecked(false), id, now);
            &&& step == StepView::CleanUp(sandbox.sandbox_id)
            &&& after.phase == PhaseView::Cleaning(Some(ToolInfrastructureError::Backend))
            &&& after.metadata.sandbox_create matches Some(report) && report.outcome
                == SandboxCleanupOutcome::Failure
            &&& after.sources == run.sources && after.results == run.results
        }),
        ({
            let (after, step) = run.after(EventView::DomainChecked(true), id, now);
            &&& after.metadata.sandbox_create matches Some(report) && report.outcome
                == SandboxCleanupOutcome::Success
            &&& after.sources == run.sources && after.results == run.results
            &&& run.results.len() < run.sources.len() && step is Send ==> after.phase
                == PhaseView::Opening(sandbox)
            &&& step is Send || step == StepView::CleanUp(sandbox.sandbox_id)
        }),
{
}

/// What an event answers is what the run was waiting for in its phase.
pub proof fn an_event_answers_what_was_asked(
    run: RunView,
    reply: ReplyView,
    terminated: bool,
    id: Seq<char>,
    now: Instant,
)
    ensures
        run.phase is Creating ==> run.after(EventView::Replied(reply), id, now)
            == run.creation_answered(reply, now),
        run.phase matches PhaseView::Opening(sandbox) ==> run.after(
            EventView::Replied(reply),
            id,
            now,
        ) == run.context_answered(sandbox, reply, id, now),
        run.phase matches PhaseView::Executing { sandbox, context, marker } ==> run.after(
            EventView::Replied(reply),
            id,
            now,
        ) == run.execution_answered(sandbox, context, marker, reply, now),
        run.phase matches PhaseView::Removing { sandbox, marker, execution } ==> run.after(
            EventView::Replied(reply),
            id,
            now,
        ) == run.removal_answered(sandbox, marker, execution, reply, now),
        run.phase matches PhaseView::Cleaning(error) ==> run.after(
            EventView::CleanedUp(terminated),
            id,
            now,
        ) == run.cleaned_up(error, terminated, now),
{
}

/// A source that was not run, or whose context is not gone, gives the failure that was reported.
pub proof fn a_source_that_failed_gives_its_failure(
    execution: ReplyView,
    removal: ReplyView,
    max: usize,
    marker: Seq<char>,
)
    ensures
        execution matches ReplyView::Failed(error) ==> source_result(
            execution,
            removal,
            max,
            marker,
        ) == Err::<ResultView, ToolInfrastructureError>(error),
        removal matches ReplyView::Failed(error) ==> source_result(
            execution,
            removal,
            max,
            marker,
        ) is Err,
        execution matches ReplyView::Answered { status, refusal, body } ==> !(200 <= status <= 299)
            ==> source_result(execution, removal, max, marker) is Err,
        removal matches ReplyView::Answered { status, refusal, body } ==> !(200 <= status <= 299)
            ==> source_result(execution, removal, max, marker) is Err,
        execution matches ReplyView::Answered { status, refusal, body } ==> (
        removal matches ReplyView::Answered { status: removed, refusal: kept, body: rest } ==> (200
            <= status <= 299 && 200 <= removed <= 299 ==> source_result(
            execution,
            removal,
            max,
            marker,
        ) == execution_read(body, max, marker))),
{
}

} // verus!
