//! What a backend is asked, and what a model is told of what it answered.

use vstd::prelude::*;
use vstd::string::*;
use crate::backend::{CallView, ToolInfrastructureError};
use crate::config::{CODE_INTERPRETER_FUNCTION, WEB_SEARCH_FUNCTION};
use crate::error::ErrorView;
use crate::http_backend::{answered, asked, http_backend, requested, response_read, time_allowed};
use crate::json::{
    a_removed_field_is_gone, ascending, field, first_other_key, group_fields_read_back,
    without_field, Fields, JsonView, NumberView,
};
use crate::output::{
    application_error_fields, function_fields, model_output, python_fields, web_search_fields,
    ApplicationErrorView, ResultView,
};
use crate::serde_value::{json_parsed_bytes, json_size};
use crate::text::text_less;
use crate::time::{Duration, Instant};
use crate::uri::uri_parsed;

verus! {

/// Whether an output tells all of a value: every field of an object, or anything else as a result.
pub open spec fn tells_all(output: JsonView, value: JsonView) -> bool {
    &&& output.get("ok"@) == Some(JsonView::Bool(true))
    &&& value is Object ==> forall|key: Seq<char>|
        key != "ok"@ ==> #[trigger] output.get(key) == value.get(key)
    &&& !(value is Object) ==> output.get("result"@) == Some(value)
}

/// Whether a model is told an output wherever there is room for it.
pub open spec fn told_where_it_fits(result: ResultView, output: JsonView, max: nat) -> bool {
    0 < max && json_size(output) <= max ==> model_output(result, max) == Ok::<JsonView, ErrorView>(
        output,
    )
}

/// A function result reaches the model whole: a value that is an object with all of its fields, and
/// any other value under one field.
pub proof fn a_function_result_reaches_the_model(value: JsonView, max: nat)
    ensures
        exists|output: JsonView| #[trigger]
            tells_all(output, value) && told_where_it_fits(
                ResultView::Function(value),
                output,
                max,
            ),
{
    broadcast use group_fields_read_back;

    lemma_output_keys();
    let output = function_fields(value);
    assert(tells_all(output, value));
}

/// Whatever a backend answers to a call of a function, unless it reports a failure, is the result
/// of the call, and reaches the model whole.
pub proof fn an_answer_is_the_result_of_its_call(name: Seq<char>, answer: JsonView, max: nat)
    requires
        name != WEB_SEARCH_FUNCTION@,
        answer.get("ok"@) != Some(JsonView::Bool(false)),
    ensures
        answered(name, answer) is Ok,
        answered(name, answer)->Ok_0 == ResultView::Function(answer),
        exists|output: JsonView| #[trigger]
            tells_all(output, answer) && told_where_it_fits(
                answered(name, answer)->Ok_0,
                output,
                max,
            ),
{
    a_function_result_reaches_the_model(answer, max);
}

/// Whether a failure is the one that an answer describes, field by field.
pub open spec fn describes(answer: JsonView, error: ApplicationErrorView) -> bool {
    let detail = answer.get("error"@)->0;
    &&& answer.get("ok"@) == Some(JsonView::Bool(false))
    &&& answer.get("error"@) is Some
    &&& answer.get("stdout"@) == Some(JsonView::Text(error.stdout))
    &&& answer.get("stderr"@) == Some(JsonView::Text(error.stderr))
    &&& detail is Object ==> {
        &&& detail.get("type"@) == Some(JsonView::Text(error.error_type))
        &&& detail.get("message"@) == Some(JsonView::Text(error.message))
        &&& detail.get("retryable"@) == Some(JsonView::Bool(error.retryable))
    }
}

/// Whether an object has no other fields than these.
pub open spec fn has_only(value: JsonView, keys: Seq<Seq<char>>) -> bool {
    value is Object && forall|key: Seq<char>| #[trigger]
        value.get(key) is Some ==> keys.contains(key)
}

pub proof fn lemma_has_only(value: JsonView, keys: Seq<Seq<char>>)
    ensures
        has_only(value, keys) <==> value is Object && first_other_key(
            value->Object_0,
            keys,
        ) is None,
{
    if value is Object {
        let fields = value->Object_0;
        lemma_no_other_key(fields, keys);
        if has_only(value, keys) {
            assert forall|key: Seq<char>| #[trigger] field(fields, key) is Some implies keys.contains(
                key,
            ) by {
                assert(value.get(key) is Some);
            }
        } else {
            let key = choose|key: Seq<char>| #[trigger]
                value.get(key) is Some && !keys.contains(key);
            assert(field(fields, key) is Some);
        }
    }
}

proof fn lemma_no_other_key(fields: Fields, keys: Seq<Seq<char>>)
    ensures
        first_other_key(fields, keys) is None <==> (forall|key: Seq<char>| #[trigger]
            field(fields, key) is Some ==> keys.contains(key)),
    decreases fields.len(),
{
    if fields.len() > 0 {
        let rest = fields.drop_first();
        lemma_no_other_key(rest, keys);
        if first_other_key(fields, keys) is None {
            assert forall|key: Seq<char>| #[trigger] field(fields, key) is Some implies keys.contains(
                key,
            ) by {
                if fields[0].0 != key {
                    assert(field(rest, key) is Some);
                }
            }
        } else if keys.contains(fields[0].0) {
            let key = choose|key: Seq<char>| #[trigger]
                field(rest, key) is Some && !keys.contains(key);
            assert(field(fields, key) is Some);
        } else {
            assert(field(fields, fields[0].0) is Some);
        }
    }
}

/// An answer that reports a failure in full is a failure of the tool with just what it reports, for
/// whatever tool was called; one that reports it otherwise is a failure of the backend.
pub proof fn a_reported_failure_is_passed_on(
    name: Seq<char>,
    answer: JsonView,
    error: ApplicationErrorView,
)
    requires
        answer.get("ok"@) == Some(JsonView::Bool(false)),
    ensures
        match answered(name, answer) {
            Ok(result) => result is ApplicationError && describes(
                answer,
                result->ApplicationError_0,
            ),
            Err(failure) => failure == ToolInfrastructureError::Backend,
        },
        describes(answer, error) && answer.get("error"@)->0 is Object && has_only(
            answer,
            seq!["ok"@, "error"@, "stdout"@, "stderr"@],
        ) && has_only(answer.get("error"@)->0, seq!["type"@, "message"@, "retryable"@])
            ==> answered(name, answer) == Ok::<ResultView, ToolInfrastructureError>(
            ResultView::ApplicationError(error),
        ),
{
    lemma_has_only(answer, seq!["ok"@, "error"@, "stdout"@, "stderr"@]);
    if answer.get("error"@) is Some {
        lemma_has_only(answer.get("error"@)->0, seq!["type"@, "message"@, "retryable"@]);
    }
}

/// A failure of a tool reaches the model with its kind, its words and what was written.
pub proof fn a_failure_reaches_the_model(error: ApplicationErrorView, max: nat)
    ensures
        exists|output: JsonView|
            {
                &&& #[trigger] describes(output, error)
                &&& output.get("error"@)->0 is Object
                &&& told_where_it_fits(ResultView::ApplicationError(error), output, max)
            },
{
    broadcast use group_fields_read_back;

    lemma_output_keys();
    lemma_error_keys();
    let output = application_error_fields(error);
    assert(describes(output, error));
}

/// Whether an answer to a search is one: a list of results, perhaps a flag, and nothing else.
pub open spec fn is_search_answer(answer: JsonView) -> bool {
    &&& answer is Object
    &&& answer.get("results"@) matches Some(results) && results is Array
    &&& answer.get("truncated"@) is Some ==> answer.get("truncated"@)->0 is Bool
    &&& has_only(answer, seq!["results"@, "truncated"@])
}

/// A search answer reaches the model with its results, and any other is a failure of the backend.
pub proof fn a_search_answer_reaches_the_model(answer: JsonView, max: nat)
    requires
        answer.get("ok"@) != Some(JsonView::Bool(false)),
        answer is Object ==> ascending(answer->Object_0),
        json_size(web_search_fields(answer)->Ok_0) <= usize::MAX,
    ensures
        answered(WEB_SEARCH_FUNCTION@, answer) == (if is_search_answer(answer) {
            Ok(ResultView::WebSearch(answer))
        } else {
            Err(ToolInfrastructureError::Backend)
        }),
        is_search_answer(answer) ==> exists|output: JsonView|
            {
                &&& #[trigger] output.get("ok"@) == Some(JsonView::Bool(true))
                &&& output.get("results"@) == answer.get("results"@)
                &&& output.get("truncated"@) == answer.get("truncated"@)
                &&& told_where_it_fits(ResultView::WebSearch(answer), output, max)
            },
{
    broadcast use group_fields_read_back;

    lemma_output_keys();
    lemma_search_complaints(answer);
    if is_search_answer(answer) {
        let output = web_search_fields(answer)->Ok_0;
        assert(output.get("ok"@) == Some(JsonView::Bool(true)));
    }
}

proof fn lemma_search_complaints(answer: JsonView)
    requires
        answer is Object ==> ascending(answer->Object_0),
    ensures
        web_search_fields(answer) is Ok <==> is_search_answer(answer),
        answer is Object ==> answer.without("results"@).get("truncated"@) == answer.get(
            "truncated"@,
        ),
{
    lemma_output_keys();
    if answer is Object {
        let fields = answer->Object_0;
        let rest = without_field(fields, "results"@);
        let others = without_field(rest, "truncated"@);
        let keys = seq!["results"@, "truncated"@];
        assert(keys[0] == "results"@ && keys[1] == "truncated"@);
        a_removed_field_is_gone(fields, "results"@, "truncated"@);
        lemma_removed_ascending(fields, "results"@);
        a_removed_field_is_gone(rest, "truncated"@, "results"@);
        if others.len() > 0 {
            let key = others[0].0;
            assert(field(others, key) is Some);
            a_removed_field_is_gone(rest, "truncated"@, key);
            a_removed_field_is_gone(fields, "results"@, key);
            assert(answer.get(key) is Some);
            assert(!keys.contains(key));
        } else {
            assert forall|key: Seq<char>| #[trigger] answer.get(key) is Some implies keys.contains(
                key,
            ) by {
                a_removed_field_is_gone(rest, "truncated"@, key);
                a_removed_field_is_gone(fields, "results"@, key);
            }
        }
    }
}

proof fn lemma_removed_ascending(fields: Fields, key: Seq<char>)
    requires
        ascending(fields),
    ensures
        ascending(without_field(fields, key)),
{
    let i = lemma_removed_place(fields, key);
    let after = without_field(fields, key);
    assert forall|a: int, b: int| 0 <= a < b < after.len() implies text_less(
        (#[trigger] after[a]).0,
        (#[trigger] after[b]).0,
    ) by {
        let p = if a < i {
            a
        } else {
            a + 1
        };
        let q = if b < i {
            b
        } else {
            b + 1
        };
        assert(after[a] == fields[p] && after[b] == fields[q]);
        assert(text_less(fields[p].0, fields[q].0));
    }
}

/// The place from which fields move up once one is removed.
proof fn lemma_removed_place(fields: Fields, key: Seq<char>) -> (i: int)
    ensures
        0 <= i <= fields.len(),
        without_field(fields, key).len() == if i < fields.len() {
            fields.len() - 1
        } else {
            fields.len() as int
        },
        forall|j: int|
            0 <= j < without_field(fields, key).len() ==> #[trigger] without_field(fields, key)[j]
                == (if j < i {
                fields[j]
            } else {
                fields[j + 1]
            }),
    decreases fields.len(),
{
    if fields.len() == 0 {
        0
    } else if fields[0].0 == key {
        0
    } else {
        let rest = fields.drop_first();
        let i = lemma_removed_place(rest, key);
        let after = without_field(fields, key);
        let fewer = without_field(rest, key);
        assert forall|j: int| 0 <= j < after.len() implies #[trigger] after[j] == (if j < i + 1 {
            fields[j]
        } else {
            fields[j + 1]
        }) by {
            if j > 0 {
                assert(after[j] == fewer[j - 1]);
            }
        }
        i + 1
    }
}

/// What running a program gave reaches the model field by field.
pub proof fn a_program_result_reaches_the_model(value: JsonView, max: nat)
    requires
        python_fields(value) is Ok,
    ensures
        value.get("exit_code"@) is Some && value.get("stdout"@) is Some && value.get(
            "stderr"@,
        ) is Some && value.get("timed_out"@) is Some && value.get("truncated"@) is Some
            && value.get("artifacts"@) is Some,
        exists|output: JsonView|
            {
                &&& #[trigger] output.get("ok"@) == Some(JsonView::Bool(true))
                &&& output.get("exit_code"@) == value.get("exit_code"@)
                &&& output.get("stdout"@) == value.get("stdout"@)
                &&& output.get("stderr"@) == value.get("stderr"@)
                &&& output.get("timed_out"@) == value.get("timed_out"@)
                &&& output.get("truncated"@) == value.get("truncated"@)
                &&& output.get("artifacts"@) == value.get("artifacts"@)
                &&& told_where_it_fits(ResultView::Python(value), output, max)
            },
{
    broadcast use group_fields_read_back;

    lemma_output_keys();
    let output = python_fields(value)->Ok_0;
    assert(output.get("ok"@) == Some(JsonView::Bool(true)));
}

/// What running a program gives is taken where it has the six fields of a run, each of its kind, and
/// no others.
pub proof fn a_program_result_is_taken_where_it_is_complete(value: JsonView)
    ensures
        python_fields(value) is Ok <==> {
            &&& value.get("exit_code"@) matches Some(code) && code.is_integer()
            &&& value.get("stdout"@) matches Some(stdout) && stdout is Text
            &&& value.get("stderr"@) matches Some(stderr) && stderr is Text
            &&& value.get("timed_out"@) matches Some(timed_out) && timed_out is Bool
            &&& value.get("truncated"@) matches Some(truncated) && truncated is Bool
            &&& value.get("artifacts"@) matches Some(artifacts) && artifacts is Array
            &&& has_only(
                value,
                seq!["exit_code"@, "stdout"@, "stderr"@, "timed_out"@, "truncated"@, "artifacts"@],
            )
        },
{
    lemma_has_only(
        value,
        seq!["exit_code"@, "stdout"@, "stderr"@, "timed_out"@, "truncated"@, "artifacts"@],
    );
}

/// What a function is asked over HTTP: the tool that was called by its public name, the call by its
/// id, the arguments as they are, the request, and how many milliseconds are left, at least one.
pub proof fn a_function_is_asked_what_was_called(
    call: CallView,
    request_id: Option<Seq<char>>,
    timeout: Duration,
)
    requires
        call.internal_name != CODE_INTERPRETER_FUNCTION@,
        call.internal_name != WEB_SEARCH_FUNCTION@,
    ensures
        requested(call, request_id, timeout) is Ok,
        ({
            let body = requested(call, request_id, timeout)->Ok_0;
            let context = body.get("context"@)->0;
            &&& body.get("tool_name"@) == Some(JsonView::Text(call.public_name))
            &&& body.get("call_id"@) == Some(JsonView::Text(call.call_id))
            &&& body.get("arguments"@) == Some(call.arguments)
            &&& body.get("context"@) is Some
            &&& context.get("request_id"@) == Some(
                match request_id {
                    Some(id) => JsonView::Text(id),
                    None => JsonView::Null,
                },
            )
            &&& context.get("deadline_ms"@) matches Some(JsonView::Number(NumberView::Unsigned(
                millis,
            ))) && millis >= 1 && (timeout.nanos >= 1_000_000 ==> 0 <= timeout.nanos - millis
                * 1_000_000 < 1_000_000)
        }),
{
    broadcast use group_fields_read_back;

    lemma_request_keys();
}

/// What a search is asked: the query of the model, and every option of the client, which the model
/// cannot override. Only a call with a query and nothing else can be asked.
pub proof fn a_search_is_asked_with_the_options_of_the_client(
    call: CallView,
    request_id: Option<Seq<char>>,
    timeout: Duration,
    key: Seq<char>,
)
    requires
        call.internal_name == WEB_SEARCH_FUNCTION@,
    ensures
        match requested(call, request_id, timeout) {
            Ok(body) => {
                &&& call.arguments.get("query"@) matches Some(query) && query is Text
                &&& call.arguments->Object_0.len() == 1
                &&& body.get("query"@) == call.arguments.get("query"@)
                &&& key != "query"@ ==> body.get(key) == call.trusted_options.get(key)
            },
            Err(error) => {
                &&& error == ToolInfrastructureError::Configuration
                &&& !(call.arguments is Object && call.trusted_options is Object
                    && call.arguments->Object_0.len() == 1 && call.arguments.text_at(
                    "query"@,
                ) is Some && call.trusted_options.get("query"@) is None)
            },
        },
{
    broadcast use group_fields_read_back;

    lemma_function_names();
}

/// Code is never sent to an HTTP backend.
pub proof fn code_is_never_sent_to_an_http_backend(
    call: CallView,
    request_id: Option<Seq<char>>,
    timeout: Duration,
)
    requires
        call.internal_name == CODE_INTERPRETER_FUNCTION@,
    ensures
        requested(call, request_id, timeout) is Err,
{
}

/// A call may take as long as its backend allows, and never past the deadline of its request; past
/// the deadline it is not made.
pub proof fn a_call_ends_with_its_deadline(timeout: Duration, deadline: Instant, now: Instant)
    ensures
        match time_allowed(timeout, Some(deadline), now) {
            Ok(allowed) => {
                &&& allowed.nanos <= timeout.nanos
                &&& now.nanos + allowed.nanos <= deadline.nanos
                &&& allowed.nanos == timeout.nanos || now.nanos + allowed.nanos == deadline.nanos
            },
            Err(error) => error == ToolInfrastructureError::Timeout,
        },
        time_allowed(timeout, Some(deadline), now) is Ok <==> now.nanos < deadline.nanos,
        time_allowed(timeout, None, now) == Ok::<Duration, ToolInfrastructureError>(timeout),
{
}

/// A call is sent with the time that is left for it, and its body says so.
pub proof fn a_call_is_sent_with_its_time(
    call: CallView,
    request_id: Option<Seq<char>>,
    timeout: Duration,
    deadline: Option<Instant>,
    now: Instant,
)
    ensures
        match asked(call, request_id, timeout, deadline, now) {
            Ok((body, allowed)) => {
                &&& time_allowed(timeout, deadline, now) == Ok::<Duration, ToolInfrastructureError>(
                    allowed,
                )
                &&& requested(call, request_id, allowed) == Ok::<JsonView, ToolInfrastructureError>(
                    body,
                )
            },
            Err(error) => time_allowed(timeout, deadline, now) is Err || requested(
                call,
                request_id,
                time_allowed(timeout, deadline, now)->Ok_0,
            ) is Err,
        },
{
}

/// A response is the JSON value of its body where its status is a success; any other status is
/// refused as its kind, and a body that is absent or no JSON is a failure of the backend.
pub proof fn a_response_is_the_value_of_its_body(
    status: u16,
    body: Option<Seq<u8>>,
    refusal: ToolInfrastructureError,
)
    ensures
        match response_read(status, body, refusal) {
            Ok(value) => 200 <= status <= 299 && body is Some && json_parsed_bytes(body->0) == Ok::<
                JsonView,
                Seq<char>,
            >(value),
            Err(error) => if 200 <= status <= 299 {
                error == ToolInfrastructureError::Backend && (body is None || json_parsed_bytes(
                    body->0,
                ) is Err)
            } else {
                error == refusal
            },
        },
{
}

/// A backend keeps what it was configured with, and is asked over TLS exactly where its URL says so.
pub proof fn a_backend_is_what_was_configured(
    url: Seq<char>,
    timeout: Duration,
    bearer_token: Option<Seq<char>>,
    max: usize,
)
    ensures
        ({
            let uri = uri_parsed(url);
            let usable = uri is Some && uri->0.host is Some && (uri->0.scheme == Some("http"@)
                || uri->0.scheme == Some("https"@)) && timeout.nanos > 0 && max > 0;
            match http_backend(url, timeout, bearer_token, max) {
                Some(backend) => {
                    &&& usable
                    &&& backend.url == url
                    &&& backend.timeout == timeout
                    &&& backend.bearer_token == bearer_token
                    &&& backend.max_response_bytes == max
                    &&& backend.tls <==> uri->0.scheme == Some("https"@)
                },
                None => !usable,
            }
        }),
{
    reveal_strlit("http");
    reveal_strlit("https");
    assert("http"@.len() == 4 && "https"@.len() == 5);
}

proof fn lemma_output_keys()
    ensures
        "ok"@ != "result"@,
        "ok"@ != "results"@,
        "ok"@ != "truncated"@,
        "ok"@ != "exit_code"@,
        "ok"@ != "stdout"@,
        "ok"@ != "stderr"@,
        "ok"@ != "timed_out"@,
        "ok"@ != "artifacts"@,
        "ok"@ != "error"@,
        "result"@ != "results"@,
        "result"@ != "truncated"@,
        "result"@ != "exit_code"@,
        "result"@ != "stdout"@,
        "result"@ != "stderr"@,
        "result"@ != "timed_out"@,
        "result"@ != "artifacts"@,
        "result"@ != "error"@,
        "results"@ != "truncated"@,
        "results"@ != "exit_code"@,
        "results"@ != "stdout"@,
        "results"@ != "stderr"@,
        "results"@ != "timed_out"@,
        "results"@ != "artifacts"@,
        "results"@ != "error"@,
        "truncated"@ != "exit_code"@,
        "truncated"@ != "stdout"@,
        "truncated"@ != "stderr"@,
        "truncated"@ != "timed_out"@,
        "truncated"@ != "artifacts"@,
        "truncated"@ != "error"@,
        "exit_code"@ != "stdout"@,
        "exit_code"@ != "stderr"@,
        "exit_code"@ != "timed_out"@,
        "exit_code"@ != "artifacts"@,
        "exit_code"@ != "error"@,
        "stdout"@ != "stderr"@,
        "stdout"@ != "timed_out"@,
        "stdout"@ != "artifacts"@,
        "stdout"@ != "error"@,
        "stderr"@ != "timed_out"@,
        "stderr"@ != "artifacts"@,
        "stderr"@ != "error"@,
        "timed_out"@ != "artifacts"@,
        "timed_out"@ != "error"@,
        "artifacts"@ != "error"@,
{
    reveal_strlit("ok");
    reveal_strlit("result");
    reveal_strlit("results");
    reveal_strlit("truncated");
    reveal_strlit("exit_code");
    reveal_strlit("stdout");
    reveal_strlit("stderr");
    reveal_strlit("timed_out");
    reveal_strlit("artifacts");
    reveal_strlit("error");
    assert("ok"@.len() == 2);
    assert("result"@.len() == 6);
    assert("results"@.len() == 7);
    assert("truncated"@.len() == 9);
    assert("exit_code"@.len() == 9);
    assert("stdout"@.len() == 6);
    assert("stderr"@.len() == 6);
    assert("timed_out"@.len() == 9);
    assert("artifacts"@.len() == 9);
    assert("error"@.len() == 5);
    assert("result"@[0] != "stdout"@[0]);
    assert("result"@[0] != "stderr"@[0]);
    assert("stdout"@[3] != "stderr"@[3]);
    assert("truncated"@[0] != "exit_code"@[0]);
    assert("truncated"@[1] != "timed_out"@[1]);
    assert("truncated"@[0] != "artifacts"@[0]);
    assert("exit_code"@[0] != "timed_out"@[0]);
    assert("exit_code"@[0] != "artifacts"@[0]);
    assert("timed_out"@[0] != "artifacts"@[0]);
}

proof fn lemma_error_keys()
    ensures
        "type"@ != "message"@,
        "type"@ != "retryable"@,
        "message"@ != "retryable"@,
{
    reveal_strlit("type");
    reveal_strlit("message");
    reveal_strlit("retryable");
    assert("type"@.len() == 4);
    assert("message"@.len() == 7);
    assert("retryable"@.len() == 9);
}

proof fn lemma_request_keys()
    ensures
        "tool_name"@ != "call_id"@,
        "tool_name"@ != "arguments"@,
        "tool_name"@ != "context"@,
        "tool_name"@ != "request_id"@,
        "tool_name"@ != "deadline_ms"@,
        "call_id"@ != "arguments"@,
        "call_id"@ != "context"@,
        "call_id"@ != "request_id"@,
        "call_id"@ != "deadline_ms"@,
        "arguments"@ != "context"@,
        "arguments"@ != "request_id"@,
        "arguments"@ != "deadline_ms"@,
        "context"@ != "request_id"@,
        "context"@ != "deadline_ms"@,
        "request_id"@ != "deadline_ms"@,
{
    reveal_strlit("tool_name");
    reveal_strlit("call_id");
    reveal_strlit("arguments");
    reveal_strlit("context");
    reveal_strlit("request_id");
    reveal_strlit("deadline_ms");
    assert("tool_name"@.len() == 9);
    assert("call_id"@.len() == 7);
    assert("arguments"@.len() == 9);
    assert("context"@.len() == 7);
    assert("request_id"@.len() == 10);
    assert("deadline_ms"@.len() == 11);
    assert("tool_name"@[0] != "arguments"@[0]);
    assert("call_id"@[1] != "context"@[1]);
}

proof fn lemma_function_names()
    ensures
        WEB_SEARCH_FUNCTION@ != CODE_INTERPRETER_FUNCTION@,
{
    reveal_strlit("_agentgateway_web_search");
    reveal_strlit("_agentgateway_code_interpreter");
    assert("_agentgateway_web_search"@.len() == 24);
    assert("_agentgateway_code_interpreter"@.len() == 30);
}

} // verus!
