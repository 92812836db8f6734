//! How a program of a model is run, what it may call, and what it and the model are told.

use vstd::prelude::*;
use vstd::string::*;
use crate::budget::BudgetView;
use crate::calls::CollectedView;
use crate::config::SANDBOX_MAX_CODE_BYTES;
use crate::conversation::StateView;
use crate::error::ErrorView;
use crate::json::{group_fields_read_back, JsonView, NumberView};
use crate::laws::backends::has_only;
use crate::laws::calls::{a_call_of_a_program_is_made_as_it_was_written, is_authorized};
use crate::operations::function_call_output;
use crate::output::{cut, model_output, ApplicationErrorView, ResultView};
use crate::program::{
    base64_encoded, base64_url_decoded, entry_texts, fitted, frames, has_capacity, is_nonce,
    only_frame, payload_outcome, program_complaint, program_environment, replay_size, replay_text,
    sandbox_outcome, EntryView, OutcomeView, MAX_ERROR_BYTES, PROTOCOL_PREFIX,
};
use crate::runner::{
    told_item, ManagedFormat, NextView, ProgramRunView, ProgramStepView, RoundEndView, RunErrorView,
};
use crate::serde_value::{comma_joined, json_parsed, json_parsed_bytes, json_text};
use crate::time::{Duration, Instant};
use crate::text;

verus! {

/// What a sandbox is told of a program: its code, what its calls gave so far, and the word by which
/// it marks what it reports; and nothing else.
pub proof fn a_sandbox_is_told_the_program(
    code: Seq<char>,
    replay: Seq<EntryView>,
    nonce: Seq<char>,
)
    ensures
        ({
            let environment = program_environment(code, replay, nonce);
            &&& environment.get("AGENTGATEWAY_PTC_CODE"@) == Some(
                JsonView::Text(base64_encoded(vstd::utf8::encode_utf8(code))),
            )
            &&& environment.get("AGENTGATEWAY_PTC_REPLAY"@) == Some(
                JsonView::Text(base64_encoded(vstd::utf8::encode_utf8(replay_text(replay)))),
            )
            &&& environment.get("AGENTGATEWAY_PTC_NONCE"@) == Some(JsonView::Text(nonce))
            &&& has_only(
                environment,
                seq![
                    "AGENTGATEWAY_PTC_CODE"@,
                    "AGENTGATEWAY_PTC_REPLAY"@,
                    "AGENTGATEWAY_PTC_NONCE"@,
                ],
            )
        }),
{
    broadcast use group_fields_read_back;

    lemma_environment_keys();
    let keys = seq![
        "AGENTGATEWAY_PTC_CODE"@,
        "AGENTGATEWAY_PTC_REPLAY"@,
        "AGENTGATEWAY_PTC_NONCE"@,
    ];
    assert(keys[0] == "AGENTGATEWAY_PTC_CODE"@ && keys[1] == "AGENTGATEWAY_PTC_REPLAY"@ && keys[2]
        == "AGENTGATEWAY_PTC_NONCE"@);
    let environment = program_environment(code, replay, nonce);
    assert forall|key: Seq<char>| #[trigger] environment.get(key) is Some implies keys.contains(
        key,
    ) by {
        if key == keys[0] {
        } else if key == keys[1] {
        } else if key == keys[2] {
        }
    }
}

/// What a transcript says of a call: its place, its tool, its arguments and what it gave, one after
/// the other, each as JSON.
pub proof fn a_transcript_tells_every_call(replay: Seq<EntryView>, i: int)
    requires
        0 <= i < replay.len(),
    ensures
        replay_text(replay) == "["@ + comma_joined(entry_texts(replay)) + "]"@,
        entry_texts(replay).len() == replay.len(),
        entry_texts(replay)[i] == "{\"sequence\":"@ + text::decimal(replay[i].sequence)
            + ",\"name\":"@ + json_text(JsonView::Text(replay[i].public_name)) + ",\"arguments\":"@
            + json_text(replay[i].arguments) + ",\"output\":"@ + json_text(replay[i].output) + "}"@,
{
}

/// A program is run where its code and its transcript fit and its mark is one.
pub proof fn a_program_is_run_where_it_fits(
    code: Seq<char>,
    replay: Seq<EntryView>,
    nonce: Seq<char>,
    max: nat,
)
    ensures
        program_complaint(code, replay, nonce, max) is None <==> text::byte_len(code)
            <= SANDBOX_MAX_CODE_BYTES && is_nonce(nonce) && text::byte_len(replay_text(replay))
            <= max,
{
}

/// What a program reports is what its report says, field by field.
pub proof fn a_report_is_read_field_by_field(payload: JsonView)
    ensures
        match payload_outcome(payload) {
            Ok(outcome) => {
                &&& payload.get("version"@) == Some(JsonView::Number(NumberView::Unsigned(1)))
                &&& match outcome {
                    OutcomeView::Pending { sequence, public_name, arguments } => {
                        &&& payload.get("kind"@) == Some(JsonView::Text("pending"@))
                        &&& payload.get("sequence"@) == Some(
                            JsonView::Number(NumberView::Unsigned(sequence as u64)),
                        )
                        &&& sequence <= u64::MAX
                        &&& payload.get("name"@) == Some(JsonView::Text(public_name))
                        &&& public_name.len() > 0
                        &&& payload.get("arguments"@) == Some(arguments)
                        &&& arguments is Object
                    },
                    OutcomeView::Completed(value) => {
                        &&& payload.get("kind"@) == Some(JsonView::Text("completed"@))
                        &&& payload.get("output"@) is Some ==> payload.get("output"@) == Some(value)
                        &&& payload.get("output"@) is None ==> value is Null
                    },
                    OutcomeView::ContractError { message } => {
                        &&& payload.get("kind"@) == Some(JsonView::Text("contract_error"@))
                        &&& payload.text_at("message"@) is Some ==> is_cut_text(
                            message,
                            payload.text_at("message"@)->0,
                        )
                    },
                    OutcomeView::ApplicationError { error_type, message } => {
                        &&& payload.get("kind"@) == Some(JsonView::Text("error"@))
                        &&& payload.text_at("error_type"@) is Some ==> is_cut_text(
                            error_type,
                            payload.text_at("error_type"@)->0,
                        )
                        &&& payload.text_at("message"@) is Some ==> is_cut_text(
                            message,
                            payload.text_at("message"@)->0,
                        )
                    },
                }
            },
            Err(_) => true,
        },
{
    lemma_report_kinds();
    if let Some(s) = payload.text_at("message"@) {
        lemma_cut_text(s);
    }
    if let Some(s) = payload.text_at("error_type"@) {
        lemma_cut_text(s);
    }
}

/// Whether a text is another, or the beginning of it that fits.
pub open spec fn is_cut_text(given: Seq<char>, whole: Seq<char>) -> bool {
    &&& given.len() <= whole.len()
    &&& given == whole.take(given.len() as int)
    &&& text::byte_len(given) <= MAX_ERROR_BYTES
    &&& text::byte_len(whole) <= MAX_ERROR_BYTES ==> given == whole
}

proof fn lemma_cut_text(s: Seq<char>)
    ensures
        is_cut_text(text::truncated(s, MAX_ERROR_BYTES as nat), s),
{
    text::truncated_is_the_longest_fitting_prefix(s, MAX_ERROR_BYTES as nat);
    assert(s.take(s.len() as int) =~= s);
}

/// A complete report of a call, of an end or of a failure is read.
pub proof fn a_complete_report_is_read(payload: JsonView, sequence: u64)
    requires
        payload.get("version"@) == Some(JsonView::Number(NumberView::Unsigned(1))),
    ensures
        payload.text_at("kind"@) == Some("completed"@) ==> payload_outcome(payload) is Ok,
        payload.text_at("kind"@) == Some("error"@) ==> payload_outcome(payload) is Ok,
        payload.text_at("kind"@) == Some("contract_error"@) ==> payload_outcome(payload) is Ok,
        payload.text_at("kind"@) == Some("pending"@) && payload.get("sequence"@) == Some(
            JsonView::Number(NumberView::Unsigned(sequence)),
        ) && sequence <= usize::MAX && payload.text_at("name"@) is Some && payload.text_at(
            "name"@,
        )->0.len() > 0 && payload.get("arguments"@) is Some && payload.get("arguments"@)->0
            is Object ==> payload_outcome(payload) is Ok,
{
    lemma_report_kinds();
}

proof fn lemma_frames(lines: Seq<Seq<char>>, prefix: Seq<char>)
    ensures
        frames(lines, prefix).len() == 0 <==> forall|i: int|
            0 <= i < lines.len() ==> !text::has_prefix(#[trigger] lines[i], prefix),
        frames(lines, prefix).len() == 1 ==> exists|i: int|
            0 <= i < lines.len() && #[trigger] lines[i] =~= prefix + frames(lines, prefix)[0]
                && forall|j: int|
                0 <= j < lines.len() && j != i ==> !text::has_prefix(#[trigger] lines[j], prefix),
    decreases lines.len(),
{
    if lines.len() > 0 {
        let rest = lines.drop_last();
        let n = lines.len() - 1;
        let last = lines.last();
        lemma_frames(rest, prefix);
        let found = frames(lines, prefix);
        if text::has_prefix(last, prefix) {
            assert(found.len() == frames(rest, prefix).len() + 1);
            assert(text::has_prefix(lines[n], prefix));
            if found.len() == 1 {
                assert(lines[n] =~= prefix + found[0]) by {
                    assert(last.take(prefix.len() as int) =~= prefix);
                    assert(found[0] =~= last.skip(prefix.len() as int));
                }
                assert forall|j: int| 0 <= j < lines.len() && j != n implies !text::has_prefix(
                    #[trigger] lines[j],
                    prefix,
                ) by {
                    assert(rest[j] == lines[j]);
                }
            }
        } else {
            assert(found == frames(rest, prefix));
            if found.len() == 0 {
                assert forall|i: int| 0 <= i < lines.len() implies !text::has_prefix(
                    #[trigger] lines[i],
                    prefix,
                ) by {
                    if i < n {
                        assert(rest[i] == lines[i]);
                    }
                }
            } else {
                let k = choose|k: int| 0 <= k < rest.len() && text::has_prefix(
                    #[trigger] rest[k],
                    prefix,
                );
                assert(text::has_prefix(lines[k], prefix));
            }
            if found.len() == 1 {
                let i = choose|i: int|
                    0 <= i < rest.len() && #[trigger] rest[i] =~= prefix + found[0] && forall|j: int|
                        0 <= j < rest.len() && j != i ==> !text::has_prefix(
                            #[trigger] rest[j],
                            prefix,
                        );
                assert(lines[i] =~= prefix + found[0]);
                assert forall|j: int| 0 <= j < lines.len() && j != i implies !text::has_prefix(
                    #[trigger] lines[j],
                    prefix,
                ) by {
                    if j < n {
                        assert(rest[j] == lines[j]);
                    }
                }
            }
        }
    }
}

/// Whether a line is the only one under the mark of a run, and this is what stands behind the mark.
pub open spec fn is_only_marked(
    lines: Seq<Seq<char>>,
    nonce: Seq<char>,
    i: int,
    frame: Seq<char>,
) -> bool {
    let prefix = PROTOCOL_PREFIX@ + nonce + ":"@;
    &&& 0 <= i < lines.len()
    &&& lines[i] == prefix + frame
    &&& forall|j: int|
        0 <= j < lines.len() && j != i ==> !text::has_prefix(#[trigger] lines[j], prefix)
}

/// A report is the only line under the mark of the run: what stands behind the mark is the payload,
/// which is not larger than output may be.
pub proof fn a_report_is_the_only_marked_line(stdout: Seq<char>, nonce: Seq<char>, max: nat)
    requires
        sandbox_outcome(stdout, nonce, max) is Ok,
    ensures
        exists|i: int, frame: Seq<char>|
            {
                &&& #[trigger] is_only_marked(text::lines(stdout), nonce, i, frame)
                &&& base64_url_decoded(frame) is Some
                &&& base64_url_decoded(frame)->0.len() <= max
                &&& json_parsed_bytes(base64_url_decoded(frame)->0) is Ok
                &&& payload_outcome(json_parsed_bytes(base64_url_decoded(frame)->0)->Ok_0)
                    == sandbox_outcome(stdout, nonce, max)
            },
{
    let lines = text::lines(stdout);
    let prefix = PROTOCOL_PREFIX@ + nonce + ":"@;
    lemma_frames(lines, prefix);
    let frame = only_frame(stdout, nonce)->Ok_0;
    let i = choose|i: int|
        0 <= i < lines.len() && #[trigger] lines[i] =~= prefix + frame && forall|j: int|
            0 <= j < lines.len() && j != i ==> !text::has_prefix(#[trigger] lines[j], prefix);
    assert(is_only_marked(lines, nonce, i, frame));
}

/// A call that a program asks for is the next of its transcript; it is made as the program wrote it,
/// and is remembered as it was made.
pub proof fn a_program_makes_the_call_that_it_asks_for(
    run: ProgramRunView,
    sequence: nat,
    name: Seq<char>,
    arguments: JsonView,
    state: StateView,
)
    ensures
        match run.after_outcome(
            OutcomeView::Pending { sequence, public_name: name, arguments },
            state,
        ) {
            Ok(ProgramStepView::Call { call, entry }) => {
                &&& call.arguments == arguments
                &&& is_authorized(call, state.registry.tools)
                &&& entry.sequence == sequence == run.replay.len()
                &&& entry.public_name == name
                &&& entry.arguments == arguments
                &&& state.programmatic_call(run.execution_id, sequence, name, arguments) == Ok::<
                    crate::backend::CallView,
                    ErrorView,
                >(call)
            },
            Ok(ProgramStepView::Answer(items)) => items.len() == 1 && !has_capacity(
                run.replay,
                EntryView { sequence, public_name: name, arguments, output: JsonView::Null },
                run.max_output_bytes,
            ),
            Err(_) => true,
        },
        sequence == run.replay.len() && has_capacity(
            run.replay,
            EntryView { sequence, public_name: name, arguments, output: JsonView::Null },
            run.max_output_bytes,
        ) && state.programmatic_call(run.execution_id, sequence, name, arguments) is Ok
            ==> run.after_outcome(
            OutcomeView::Pending { sequence, public_name: name, arguments },
            state,
        ) is Ok,
{
    a_call_of_a_program_is_made_as_it_was_written(
        state,
        run.execution_id,
        sequence,
        name,
        arguments,
    );
}

/// Whether a program is answered with a result: as an item for its own call.
pub open spec fn answers_with(
    run: ProgramRunView,
    step: Result<ProgramStepView, ErrorView>,
    result: ResultView,
) -> bool {
    match told_item(run.format, run.call_id, result, run.max_output_bytes) {
        Ok(item) => step == Ok::<ProgramStepView, ErrorView>(ProgramStepView::Answer(seq![item])),
        Err(error) => step == Err::<ProgramStepView, ErrorView>(error),
    }
}

/// What a program gave in the end is told to the model, in answer to its call and under one field;
/// a failure of the program is told as one.
pub proof fn what_a_program_gave_is_told(
    run: ProgramRunView,
    value: JsonView,
    error_type: Seq<char>,
    message: Seq<char>,
    state: StateView,
)
    ensures
        exists|result: JsonView|
            {
                &&& #[trigger] result.get("result"@) == Some(value)
                &&& has_only(result, seq!["result"@])
                &&& answers_with(
                    run,
                    run.after_outcome(OutcomeView::Completed(value), state),
                    ResultView::Function(result),
                )
            },
        exists|error: ApplicationErrorView|
            {
                &&& error.error_type == error_type
                &&& error.message == message
                &&& !error.retryable
                &&& #[trigger] answers_with(
                    run,
                    run.after_outcome(OutcomeView::ApplicationError { error_type, message }, state),
                    ResultView::ApplicationError(error),
                )
            },
        run.after_outcome(OutcomeView::ContractError { message }, state) is Err,
{
    broadcast use group_fields_read_back;

    let result = JsonView::empty().with("result"@, value);
    assert(seq!["result"@][0] == "result"@);
    assert(has_only(result, seq!["result"@]));
    assert(result.get("result"@) == Some(value));
    let error = ApplicationErrorView {
        error_type,
        message,
        retryable: false,
        stdout: Seq::empty(),
        stderr: Seq::empty(),
    };
    assert(answers_with(
        run,
        run.after_outcome(OutcomeView::ApplicationError { error_type, message }, state),
        ResultView::ApplicationError(error),
    ));
}

/// What a sandbox wrote is read as the report of the program; a failure of the sandbox is told to
/// the model as it is; nothing else is a result of a program.
pub proof fn a_sandbox_result_is_the_report_of_the_program(
    run: ProgramRunView,
    result: ResultView,
    nonce: Seq<char>,
    state: StateView,
)
    ensures
        match result {
            ResultView::Python(value) => match value.get("stdout"@) {
                Some(JsonView::Text(stdout)) => match sandbox_outcome(
                    stdout,
                    nonce,
                    run.max_output_bytes,
                ) {
                    Ok(outcome) => run.after_sandbox(result, nonce, state) == run.after_outcome(
                        outcome,
                        state,
                    ),
                    Err(error) => run.after_sandbox(result, nonce, state) == Err::<
                        ProgramStepView,
                        ErrorView,
                    >(error),
                },
                _ => run.after_sandbox(result, nonce, state) is Err,
            },
            ResultView::ApplicationError(_) => answers_with(
                run,
                run.after_sandbox(result, nonce, state),
                result,
            ),
            _ => run.after_sandbox(result, nonce, state) is Err,
        },
{
}

/// Once a call of a program was answered, its transcript is longer by that call, with what the tool
/// gave wherever there is room for it; everything before stays.
pub proof fn a_transcript_grows_by_what_a_tool_gave(
    run: ProgramRunView,
    entry: EntryView,
    outputs: Seq<JsonView>,
    output: JsonView,
)
    requires
        outputs.len() > 0,
        outputs.last().get("output"@) matches Some(JsonView::Text(written)) && json_parsed(written)
            == Ok::<JsonView, Seq<char>>(output),
    ensures
        match run.after_tool(entry, outputs) {
            Ok(after) => {
                let kept = after.replay.last();
                &&& after == (ProgramRunView { replay: after.replay, ..run })
                &&& after.replay.len() == run.replay.len() + 1
                &&& after.replay.drop_last() =~= run.replay
                &&& kept.sequence == entry.sequence
                &&& kept.public_name == entry.public_name
                &&& kept.arguments == entry.arguments
                &&& replay_size(run.replay.push(EntryView { output, ..entry }))
                    <= run.max_output_bytes ==> kept.output == output
            },
            Err(_) => replay_size(run.replay.push(EntryView { output, ..entry }))
                > run.max_output_bytes,
        },
{
}

/// What a model is told of a call names the call and holds its output as JSON; over the Messages
/// format it is marked exactly where the call failed.
pub proof fn a_told_result_names_its_call(
    format: ManagedFormat,
    call_id: Seq<char>,
    result: ResultView,
    max: nat,
)
    ensures
        match told_item(format, call_id, result, max) {
            Ok(item) => {
                &&& model_output(result, max) is Ok
                &&& format == ManagedFormat::Responses ==> {
                    &&& item.get("type"@) == Some(JsonView::Text("function_call_output"@))
                    &&& item.get("call_id"@) == Some(JsonView::Text(call_id))
                    &&& item.get("output"@) == Some(
                        JsonView::Text(json_text(model_output(result, max)->Ok_0)),
                    )
                }
                &&& format == ManagedFormat::Messages ==> {
                    &&& item.get("type"@) == Some(JsonView::Text("tool_result"@))
                    &&& item.get("tool_use_id"@) == Some(JsonView::Text(call_id))
                    &&& item.get("content"@) == Some(
                        JsonView::Text(json_text(model_output(result, max)->Ok_0)),
                    )
                    &&& item.get("is_error"@) == (if result is ApplicationError {
                        Some(JsonView::Bool(true))
                    } else {
                        None
                    })
                }
            },
            Err(error) => model_output(result, max) == Err::<JsonView, ErrorView>(error),
        },
{
    broadcast use group_fields_read_back;

    lemma_item_keys();
}

/// What a batch says of a call names the call and holds its output as JSON.
pub proof fn an_output_names_its_call(call_id: Seq<char>, output: JsonView)
    ensures
        ({
            let item = function_call_output(call_id, output);
            &&& item.get("type"@) == Some(JsonView::Text("function_call_output"@))
            &&& item.get("call_id"@) == Some(JsonView::Text(call_id))
            &&& item.get("output"@) == Some(JsonView::Text(json_text(output)))
        }),
{
    broadcast use group_fields_read_back;

    lemma_item_keys();
}

/// A text that is cut loses its end and nothing else; of a list or an object one value is cut, or
/// one is left out; nothing else can be cut.
pub proof fn a_cut_takes_away_and_adds_nothing(value: JsonView)
    ensures
        match (value, cut(value)) {
            (JsonView::Text(s), Some(after)) => after is Text && after->Text_0.len() < s.len()
                && after->Text_0 == s.take(after->Text_0.len() as int),
            (JsonView::Text(s), None) => s.len() == 0,
            (JsonView::Array(items), Some(after)) => {
                ||| after == JsonView::Array(items.drop_last()) && items.len() > 0
                ||| exists|k: int|
                    0 <= k < items.len() && cut(#[trigger] items[k]) is Some && after
                        == JsonView::Array(items.update(k, cut(items[k])->0))
            },
            (JsonView::Array(items), None) => items.len() == 0,
            (JsonView::Object(fields), Some(after)) => {
                ||| after == JsonView::Object(fields.drop_first()) && fields.len() > 0
                ||| exists|k: int|
                    0 <= k < fields.len() && cut((#[trigger] fields[k]).1) is Some && after
                        == JsonView::Object(fields.update(k, (fields[k].0, cut(fields[k].1)->0)))
            },
            (JsonView::Object(fields), None) => fields.len() == 0,
            (_, after) => after is None,
        },
{
    match value {
        JsonView::Text(s) => {
            if s.len() > 0 {
                let target = crate::output::cut_target(text::byte_len(s));
                text::truncated_is_the_longest_fitting_prefix(s, target);
                text::lemma_byte_len_take(s, 0, s.len() as int);
                assert(s.take(s.len() as int) =~= s);
            }
        },
        JsonView::Array(items) => {
            let k = crate::output::largest(items);
            lemma_largest(items);
            if items.len() > 0 {
                assert(cut(items[k]) is Some || cut(items[k]) is None);
            }
        },
        JsonView::Object(fields) => {
            let values = crate::output::field_values(fields);
            let k = crate::output::largest(values);
            lemma_largest(values);
            if fields.len() > 0 {
                assert(fields[k].1 == values[k]);
            }
        },
        _ => {},
    }
}

proof fn lemma_largest(items: Seq<JsonView>)
    ensures
        items.len() > 0 ==> 0 <= crate::output::largest(items) < items.len(),
    decreases items.len(),
{
    if items.len() > 1 {
        lemma_largest(items.drop_last());
    }
}

/// A round that the model answered in time goes on; any other ends the request, with the failure
/// that it was, or with the response that says so where no call was made yet.
pub proof fn a_round_that_was_answered_in_time_goes_on(
    budget: BudgetView,
    end: RoundEndView,
    duration: Duration,
    now: Instant,
)
    ensures
        ({
            let stop = budget.round_settled(end, duration, now).1;
            let in_time = now.nanos < budget.deadline.nanos;
            &&& stop is None <==> end is Answered && in_time
            &&& end is TimedOut ==> stop == Some(RunErrorView::Runtime(ErrorView::deadline()))
            &&& end is Answered && !in_time ==> stop == Some(
                RunErrorView::Runtime(ErrorView::deadline()),
            )
            &&& end matches RoundEndView::Failed(error) ==> stop == Some(
                RunErrorView::Runtime(error),
            )
            &&& end is InfrastructureError ==> stop == Some(RunErrorView::DirectResponse)
            &&& end is UpstreamError && budget.tool_calls == 0 ==> stop == Some(
                RunErrorView::UpstreamResponse,
            )
            &&& end is UpstreamError && budget.tool_calls > 0 ==> stop == Some(
                RunErrorView::Runtime(ErrorView::internal()),
            )
        }),
{
}

/// A request ends with the first answer that asks for nothing, if there is time left; an answer that
/// asks for something is followed by just that; a refused one ends the request with its failure.
pub proof fn a_request_ends_with_an_answer_that_asks_for_nothing(
    budget: BudgetView,
    collected: Result<CollectedView, ErrorView>,
    duration: Duration,
    now: Instant,
)
    ensures
        ({
            let next = budget.calls_settled(collected, duration, now).1;
            match collected {
                Err(error) => next == Err::<NextView, ErrorView>(error),
                Ok(CollectedView::Direct(calls)) => if calls.len() > 0 {
                    next == Ok::<NextView, ErrorView>(NextView::Execute(collected->Ok_0))
                } else if now.nanos < budget.deadline.nanos {
                    next == Ok::<NextView, ErrorView>(NextView::Finish)
                } else {
                    next == Err::<NextView, ErrorView>(ErrorView::deadline())
                },
                Ok(CollectedView::Programmatic { .. }) => next == Ok::<NextView, ErrorView>(
                    NextView::Execute(collected->Ok_0),
                ),
            }
        }),
{
}

proof fn lemma_environment_keys()
    ensures
        "AGENTGATEWAY_PTC_CODE"@ != "AGENTGATEWAY_PTC_REPLAY"@,
        "AGENTGATEWAY_PTC_CODE"@ != "AGENTGATEWAY_PTC_NONCE"@,
        "AGENTGATEWAY_PTC_REPLAY"@ != "AGENTGATEWAY_PTC_NONCE"@,
{
    reveal_strlit("AGENTGATEWAY_PTC_CODE");
    reveal_strlit("AGENTGATEWAY_PTC_REPLAY");
    reveal_strlit("AGENTGATEWAY_PTC_NONCE");
    assert("AGENTGATEWAY_PTC_CODE"@.len() == 21);
    assert("AGENTGATEWAY_PTC_REPLAY"@.len() == 23);
    assert("AGENTGATEWAY_PTC_NONCE"@.len() == 22);
}

proof fn lemma_report_kinds()
    ensures
        "pending"@ != "completed"@,
        "pending"@ != "contract_error"@,
        "pending"@ != "error"@,
        "completed"@ != "contract_error"@,
        "completed"@ != "error"@,
        "contract_error"@ != "error"@,
{
    reveal_strlit("pending");
    reveal_strlit("completed");
    reveal_strlit("contract_error");
    reveal_strlit("error");
    assert("pending"@.len() == 7);
    assert("completed"@.len() == 9);
    assert("contract_error"@.len() == 14);
    assert("error"@.len() == 5);
}

proof fn lemma_item_keys()
    ensures
        "type"@ != "call_id"@,
        "type"@ != "output"@,
        "type"@ != "tool_use_id"@,
        "type"@ != "content"@,
        "type"@ != "is_error"@,
        "call_id"@ != "output"@,
        "call_id"@ != "tool_use_id"@,
        "call_id"@ != "content"@,
        "call_id"@ != "is_error"@,
        "output"@ != "tool_use_id"@,
        "output"@ != "content"@,
        "output"@ != "is_error"@,
        "tool_use_id"@ != "content"@,
        "tool_use_id"@ != "is_error"@,
        "content"@ != "is_error"@,
{
    reveal_strlit("type");
    reveal_strlit("call_id");
    reveal_strlit("output");
    reveal_strlit("tool_use_id");
    reveal_strlit("content");
    reveal_strlit("is_error");
    assert("type"@.len() == 4);
    assert("call_id"@.len() == 7);
    assert("output"@.len() == 6);
    assert("tool_use_id"@.len() == 11);
    assert("content"@.len() == 7);
    assert("is_error"@.len() == 8);
    assert("call_id"@[1] != "content"@[1]);
}

/// An output that fits into a transcript stands in it as it is; one that does not is cut to the room
/// that is left beside everything else, where it can be, and is else said to have been left out. The
/// call that it is of stays as it was.
pub proof fn an_output_is_kept_as_far_as_it_fits(
    replay: Seq<EntryView>,
    entry: EntryView,
    max: nat,
    room: nat,
)
    requires
        replay_size(replay.push(EntryView { output: JsonView::Null, ..entry })) + room == max + 4,
        room <= usize::MAX,
        replay_size(replay.push(EntryView { output: JsonView::Null, ..entry })) <= max,
    ensures
        match fitted(replay, entry, max) {
            Ok(kept) => {
                &&& kept.sequence == entry.sequence
                &&& kept.public_name == entry.public_name
                &&& kept.arguments == entry.arguments
                &&& replay_size(replay.push(entry)) <= max ==> kept == entry
                &&& replay_size(replay.push(entry)) > max ==> match entry.output {
                    JsonView::Object(fields) => match crate::output::bounded(fields, room, true) {
                        Ok(smaller) => kept.output == JsonView::Object(smaller),
                        Err(_) => kept.output.get("ok"@) == Some(JsonView::Bool(false))
                            && kept.output.get("truncated"@) == Some(JsonView::Bool(true)),
                    },
                    _ => kept.output.get("ok"@) == Some(JsonView::Bool(false)) && kept.output.get(
                        "truncated"@,
                    ) == Some(JsonView::Bool(true)),
                }
            },
            Err(_) => false,
        },
{
    broadcast use group_fields_read_back;

    lemma_left_out_keys();
}

proof fn lemma_left_out_keys()
    ensures
        "ok"@ != "error"@,
        "ok"@ != "truncated"@,
        "error"@ != "truncated"@,
{
    reveal_strlit("ok");
    reveal_strlit("error");
    reveal_strlit("truncated");
    assert("ok"@.len() == 2);
    assert("error"@.len() == 5);
    assert("truncated"@.len() == 9);
}

} // verus!
