//! What a client is answered in the end: its failures, its token counts and its final response.

use vstd::prelude::*;
use vstd::string::*;
use crate::backend::{ToolBatchMetadata, ToolInfrastructureError};
use crate::budget::BudgetView;
use crate::error::ErrorView;
use crate::json::{group_fields_read_back, JsonView, NumberView};
use crate::messages::mapper::{PreparedMessagesRuntime, PreparedMessagesView};
use crate::messages::usage::{
    messages_usage_added, messages_usage_json, messages_usage_sum, MessagesUsageView,
};
use crate::registry::optional_json;
use crate::rounds::{
    usage_added, ManagedConversation, ManagedFinalResponse, ManagedMessagesResponse,
    MessagesRoundView, ResponsesRoundView,
};
use crate::runtime::{PreparedToolRuntime, PreparedView};
use crate::telemetry::{ToolRuntimeLimit, ToolRuntimeOutcome};
use crate::usage::{optional_sum, usage_json, usage_sum, InputDetails, OutputDetails, Usage};

verus! {

/// What a client is answered where a request fails: that it ran out of time, that the tools failed,
/// or what is wrong with the request, each with a status, a code and words of its own.
pub proof fn a_failure_is_answered_with_its_words(error: ErrorView)
    ensures
        ({
            let (status, body) = error.answer();
            let told = body.get("error"@)->0;
            &&& body.get("error"@) is Some
            &&& error.deadline_exceeded <==> status == 504
            &&& !error.deadline_exceeded && error.infrastructure is Some <==> status == 502
            &&& !error.deadline_exceeded && error.infrastructure is None <==> status == 400
            &&& status == 400 ==> {
                &&& told.get("type"@) == Some(JsonView::Text("invalid_request_error"@))
                &&& told.get("message"@) == Some(JsonView::Text(error.message))
                &&& told.get("code"@) == Some(JsonView::Text("managed_tool_request_invalid"@))
            }
            &&& status == 502 ==> {
                &&& told.get("type"@) == Some(JsonView::Text("tool_infrastructure_error"@))
                &&& told.get("message"@) == Some(
                    JsonView::Text(error.infrastructure->0.message_view()),
                )
                &&& told.get("code"@) == Some(JsonView::Text(error.infrastructure->0.code_view()))
            }
            &&& status == 504 ==> {
                &&& told.get("type"@) == Some(JsonView::Text("tool_infrastructure_error"@))
                &&& told.get("code"@) == Some(
                    JsonView::Text(ToolInfrastructureError::Timeout.code_view()),
                )
                &&& told.get("message"@) == Some(
                    JsonView::Text(ToolInfrastructureError::Timeout.message_view()),
                )
            }
        }),
{
    broadcast use group_fields_read_back;

    lemma_error_keys();
}

/// A failure of a provider is told in words that say no more than which of them it was, and no two of
/// them share their words or their code.
pub proof fn failures_of_providers_have_words_of_their_own(
    a: ToolInfrastructureError,
    b: ToolInfrastructureError,
)
    ensures
        a.message_view() == b.message_view() ==> a == b,
        a.code_view() == b.code_view() ==> a == b,
        ErrorView::infrastructure(a).infrastructure == Some(a),
        ErrorView::infrastructure(a).message == a.message_view(),
        ErrorView::infrastructure(a).limit is None,
        !ErrorView::infrastructure(a).deadline_exceeded,
{
    lemma_failure_words();
}

/// How a failed request is counted: as out of time, as a failure of the tools, or as one that was
/// wrong.
pub proof fn a_failure_is_counted_as_what_it_is(
    words: Seq<char>,
    limit: ToolRuntimeLimit,
    error: ToolInfrastructureError,
)
    ensures
        ErrorView::deadline().outcome() == ToolRuntimeOutcome::Timeout,
        ErrorView::deadline().limit == Some(ToolRuntimeLimit::Deadline),
        ErrorView::deadline().deadline_exceeded,
        ErrorView::infrastructure(error).outcome() == if error
            == ToolInfrastructureError::Timeout {
            ToolRuntimeOutcome::Timeout
        } else {
            ToolRuntimeOutcome::InfrastructureError
        },
        ErrorView::invalid_request(words).outcome() == ToolRuntimeOutcome::InvalidRequest,
        ErrorView::invalid_configuration(words).outcome()
            == ToolRuntimeOutcome::InfrastructureError,
        ErrorView::limit(words, limit).outcome() == ToolRuntimeOutcome::InvalidRequest,
        ErrorView::limit(words, limit).limit == Some(limit),
        ErrorView::invalid_request(words).limit is None,
        ErrorView::internal().infrastructure == Some(ToolInfrastructureError::Internal),
        ErrorView::invalid_request(words).message == "invalid managed tool request: "@ + words,
        ErrorView::limit(words, limit).message == ErrorView::invalid_request(words).message,
        ErrorView::invalid_configuration(words).message
            == "invalid managed tool configuration: "@ + words,
        crate::text::has_prefix(
            ErrorView::unsupported(words).message,
            "invalid managed tool request: "@ + words,
        ),
{
    let prefix = "invalid managed tool request: "@ + words;
    let rest = " is unsupported while managed tool runtime is active"@;
    assert("invalid managed tool request: "@ + (words + rest) =~= prefix + rest);
    assert((prefix + rest).take(prefix.len() as int) =~= prefix);
}

/// A count that at least one of two has is had by their sum, which adds up those that are there.
pub proof fn a_sum_counts_what_is_there(left: Option<u64>, right: Option<u64>)
    ensures
        optional_sum(left, right) is Some <==> left is Some || right is Some,
        optional_sum(left, right) == optional_sum(right, left),
        optional_sum(left, None) == left,
        optional_sum(left, Some(0)) == (if left is Some {
            left
        } else {
            Some(0u64)
        }),
        left matches Some(l) ==> right matches Some(r) ==> optional_sum(left, right) == Some(
            if l + r <= u64::MAX {
                (l + r) as u64
            } else {
                u64::MAX
            },
        ),
{
}

/// The number of cached tokens that details tell, if they do.
pub open spec fn cached(details: Option<InputDetails>) -> Option<u64> {
    match details {
        Some(details) => details.cached_tokens,
        None => None,
    }
}

/// The number of tokens written to a cache that details tell, if they do.
pub open spec fn cache_written(details: Option<InputDetails>) -> Option<u64> {
    match details {
        Some(details) => details.cache_write_tokens,
        None => None,
    }
}

/// The number of reasoning tokens that details tell, if they do.
pub open spec fn reasoned(details: Option<OutputDetails>) -> Option<u64> {
    match details {
        Some(details) => details.reasoning_tokens,
        None => None,
    }
}

/// Every count of a round is added to the same count of those before it; the total is that of input
/// and output together.
pub proof fn every_count_of_a_round_is_added(aggregate: Usage, round: Usage)
    ensures
        ({
            let sum = usage_sum(Some(aggregate), round);
            &&& cached(sum.input_tokens_details) == optional_sum(
                cached(aggregate.input_tokens_details),
                cached(round.input_tokens_details),
            )
            &&& cache_written(sum.input_tokens_details) == optional_sum(
                cache_written(aggregate.input_tokens_details),
                cache_written(round.input_tokens_details),
            )
            &&& reasoned(sum.output_tokens_details) == optional_sum(
                reasoned(aggregate.output_tokens_details),
                reasoned(round.output_tokens_details),
            )
            &&& sum.input_tokens_details is Some <==> aggregate.input_tokens_details is Some
                || round.input_tokens_details is Some
            &&& sum.output_tokens_details is Some <==> aggregate.output_tokens_details is Some
                || round.output_tokens_details is Some
            &&& Some(sum.input_tokens) == optional_sum(
                Some(aggregate.input_tokens),
                Some(round.input_tokens),
            )
            &&& Some(sum.output_tokens) == optional_sum(
                Some(aggregate.output_tokens),
                Some(round.output_tokens),
            )
            &&& sum.total_tokens == optional_sum(Some(sum.input_tokens), Some(sum.output_tokens))
        }),
        usage_sum(None, round) == round,
        usage_added(Some(aggregate), None) == Some(aggregate),
        usage_added(None, None) is None,
        usage_added(Some(aggregate), Some(round)) == Some(usage_sum(Some(aggregate), round)),
{
}

/// What a client is told of a count that may be missing.
pub open spec fn tells_count(value: JsonView, key: Seq<char>, count: Option<u64>) -> bool {
    match count {
        Some(n) => value.get(key) == Some(JsonView::Number(NumberView::Unsigned(n))),
        None => value.get(key) is None,
    }
}

/// A client is told every count that there is, and none that there is not.
pub proof fn a_client_is_told_every_count(usage: Usage)
    ensures
        ({
            let told = usage_json(usage);
            let input = told.get("input_tokens_details"@);
            let output = told.get("output_tokens_details"@);
            &&& tells_count(told, "input_tokens"@, Some(usage.input_tokens))
            &&& tells_count(told, "output_tokens"@, Some(usage.output_tokens))
            &&& tells_count(told, "total_tokens"@, usage.total_tokens)
            &&& input is Some <==> usage.input_tokens_details is Some
            &&& usage.input_tokens_details matches Some(details) ==> tells_count(
                input->0,
                "cached_tokens"@,
                details.cached_tokens,
            ) && tells_count(input->0, "cache_write_tokens"@, details.cache_write_tokens)
            &&& output is Some <==> usage.output_tokens_details is Some
            &&& usage.output_tokens_details matches Some(details) ==> tells_count(
                output->0,
                "reasoning_tokens"@,
                details.reasoning_tokens,
            )
        }),
{
    broadcast use group_fields_read_back;

    lemma_usage_keys();
}

/// Every count of a round of messages is added to the same count of those before it; the tier is told
/// where all rounds had it, and what a sum cannot break down is not.
pub proof fn every_count_of_a_message_is_added(
    aggregate: MessagesUsageView,
    round: MessagesUsageView,
    key: Seq<char>,
)
    requires
        aggregate.rest is Object,
        crate::json::ascending(aggregate.rest->Object_0),
    ensures
        ({
            let sum = messages_usage_sum(aggregate, round);
            &&& Some(sum.input_tokens) == optional_sum(
                Some(aggregate.input_tokens),
                Some(round.input_tokens),
            )
            &&& Some(sum.output_tokens) == optional_sum(
                Some(aggregate.output_tokens),
                Some(round.output_tokens),
            )
            &&& sum.cache_creation_input_tokens == optional_sum(
                aggregate.cache_creation_input_tokens,
                round.cache_creation_input_tokens,
            )
            &&& sum.cache_read_input_tokens == optional_sum(
                aggregate.cache_read_input_tokens,
                round.cache_read_input_tokens,
            )
            &&& sum.service_tier is Some ==> sum.service_tier == aggregate.service_tier
                && sum.service_tier == round.service_tier
            &&& aggregate.service_tier == round.service_tier ==> sum.service_tier
                == round.service_tier
            &&& sum.rest.get("input_tokens_details"@) is None
            &&& sum.rest.get("output_tokens_details"@) is None
            &&& sum.rest.get("cache_creation"@) is None
            &&& key != "input_tokens_details"@ && key != "output_tokens_details"@ && key
                != "cache_creation"@ ==> sum.rest.get(key) == aggregate.rest.get(key)
        }),
        messages_usage_added(Some(aggregate), round) == messages_usage_sum(aggregate, round),
        messages_usage_added(None, round) == round,
{
    lemma_breakdown_keys();
    let first = aggregate.rest.without("input_tokens_details"@);
    let second = first.without("output_tokens_details"@);
    let third = second.without("cache_creation"@);
    lemma_without(aggregate.rest, "input_tokens_details"@);
    lemma_without(first, "output_tokens_details"@);
    lemma_without(second, "cache_creation"@);
    lemma_taken(aggregate.rest, "input_tokens_details"@, key);
    lemma_taken(first, "output_tokens_details"@, key);
    lemma_taken(second, "cache_creation"@, key);
    lemma_taken(aggregate.rest, "input_tokens_details"@, "input_tokens_details"@);
    lemma_taken(first, "output_tokens_details"@, "input_tokens_details"@);
    lemma_taken(second, "cache_creation"@, "input_tokens_details"@);
    lemma_taken(first, "output_tokens_details"@, "output_tokens_details"@);
    lemma_taken(second, "cache_creation"@, "output_tokens_details"@);
    lemma_taken(second, "cache_creation"@, "cache_creation"@);
    if third->Object_0.len() == 0 {
        assert(third.get(key) is None);
    }
}

proof fn lemma_taken(value: JsonView, key: Seq<char>, other: Seq<char>)
    requires
        value is Object,
        crate::json::ascending(value->Object_0),
    ensures
        value.without(key).get(other) == (if other == key {
            None
        } else {
            value.get(other)
        }),
{
    crate::json::a_removed_field_is_gone(value->Object_0, key, other);
}

proof fn lemma_without(value: JsonView, key: Seq<char>)
    requires
        value is Object,
        crate::json::ascending(value->Object_0),
    ensures
        value.without(key) is Object,
        crate::json::ascending(value.without(key)->Object_0),
{
    lemma_without_ascends(value->Object_0, key);
}

proof fn lemma_without_ascends(fields: crate::json::Fields, key: Seq<char>)
    requires
        crate::json::ascending(fields),
    ensures
        crate::json::ascending(crate::json::without_field(fields, key)),
        forall|i: int|
            0 <= i < crate::json::without_field(fields, key).len() ==> fields.contains(
                #[trigger] crate::json::without_field(fields, key)[i],
            ),
    decreases fields.len(),
{
    let left = crate::json::without_field(fields, key);
    if fields.len() > 0 {
        let rest = fields.drop_first();
        assert forall|i: int, j: int| 0 <= i < j < rest.len() implies crate::text::text_less(
            (#[trigger] rest[i]).0,
            (#[trigger] rest[j]).0,
        ) by {
            assert(rest[i] == fields[i + 1] && rest[j] == fields[j + 1]);
        }
        lemma_without_ascends(rest, key);
        if fields[0].0 == key {
            assert forall|i: int| 0 <= i < left.len() implies fields.contains(
                #[trigger] left[i],
            ) by {
                assert(left[i] == fields[i + 1]);
            }
        } else {
            let after = crate::json::without_field(rest, key);
            assert forall|i: int| 0 <= i < left.len() implies fields.contains(
                #[trigger] left[i],
            ) by {
                if i == 0 {
                    assert(left[0] == fields[0]);
                } else {
                    assert(left[i] == after[i - 1]);
                    let k = choose|k: int| 0 <= k < rest.len() && rest[k] == after[i - 1];
                    assert(fields[k + 1] == left[i]);
                }
            }
            assert forall|i: int, j: int| 0 <= i < j < left.len() implies crate::text::text_less(
                (#[trigger] left[i]).0,
                (#[trigger] left[j]).0,
            ) by {
                assert(left[j] == after[j - 1]);
                if i == 0 {
                    let k = choose|k: int| 0 <= k < rest.len() && rest[k] == after[j - 1];
                    assert(fields[k + 1] == left[j]);
                    assert(left[0] == fields[0]);
                } else {
                    assert(left[i] == after[i - 1]);
                }
            }
        }
    }
}

/// A client of messages is told every count that there is, the tier, and whatever else its model
/// told.
pub proof fn a_client_of_messages_is_told_every_count(usage: MessagesUsageView, key: Seq<char>)
    requires
        usage.rest is Object ==> {
            &&& usage.rest.get("service_tier"@) is None
            &&& usage.rest.get("cache_creation_input_tokens"@) is None
            &&& usage.rest.get("cache_read_input_tokens"@) is None
        },
    ensures
        ({
            let told = messages_usage_json(usage);
            &&& tells_count(told, "input_tokens"@, Some(usage.input_tokens))
            &&& tells_count(told, "output_tokens"@, Some(usage.output_tokens))
            &&& tells_count(
                told,
                "cache_creation_input_tokens"@,
                usage.cache_creation_input_tokens,
            )
            &&& tells_count(told, "cache_read_input_tokens"@, usage.cache_read_input_tokens)
            &&& told.text_at("service_tier"@) == usage.service_tier
            &&& key != "input_tokens"@ && key != "output_tokens"@ && key
                != "cache_creation_input_tokens"@ && key != "cache_read_input_tokens"@ && key
                != "service_tier"@ ==> told.get(key) == usage.rest.get(key)
        }),
{
    broadcast use group_fields_read_back;

    lemma_message_usage_keys();
}

/// What a client is given in the end is the last response of the model, with the token counts of all
/// rounds and the tools that the client declared; and the summary tells what was used.
pub proof fn a_client_is_given_the_last_response(
    model: PreparedView,
    round: ResponsesRoundView,
    budget: BudgetView,
    last: ManagedFinalResponse,
    key: Seq<char>,
)
    requires
        <PreparedToolRuntime as ManagedConversation>::concluded(model, round, budget, last),
        round.response is Object,
        crate::json::ascending(round.response->Object_0),
    ensures
        key != "usage"@ && key != "tools"@ ==> last.response@.get(key) == round.response.get(key),
        model.usage is None ==> last.response@.get("usage"@) is None,
        model.usage matches Some(usage) ==> last.response@.get("usage"@) == Some(usage_json(usage)),
        model.client_tools is Some ==> last.response@.get("tools"@) == model.client_tools,
        model.client_tools is None ==> last.response@.get("tools"@) == round.response.get("tools"@),
        crate::json::views(last.raw_output@) == round.raw_output,
        last.summary.usage == model.usage,
        last.summary.rounds == budget.rounds,
        last.summary.tool_calls == budget.tool_calls,
        last.summary.client_streaming == model.client_streaming,
        last.summary.include_obfuscation == model.include_obfuscation,
        optional_json(last.summary.client_tools) == model.client_tools,
{
    reveal_strlit("usage");
    reveal_strlit("tools");
    assert("usage"@[0] != "tools"@[0]);
    let usage = match model.usage {
        Some(usage) => Some(usage_json(usage)),
        None => None,
    };
    crate::streaming::a_final_response_has_the_given_usage_and_tools(
        round.response,
        usage,
        model.client_tools,
        key,
    );
    crate::streaming::a_final_response_has_the_given_usage_and_tools(
        round.response,
        usage,
        model.client_tools,
        "tools"@,
    );
}

/// What a client of messages is given in the end is the last message of the model, with the token
/// counts of all rounds; and the summary tells what was used.
pub proof fn a_client_is_given_the_last_message(
    model: PreparedMessagesView,
    round: MessagesRoundView,
    budget: BudgetView,
    last: ManagedMessagesResponse,
    key: Seq<char>,
)
    requires
        <PreparedMessagesRuntime as ManagedConversation>::concluded(model, round, budget, last),
        round.message is Object,
    ensures
        key != "usage"@ ==> last.message@.get(key) == round.message.get(key),
        model.usage matches Some(usage) ==> last.message@.get("usage"@) == Some(
            messages_usage_json(usage),
        ) && last.summary.usage@ == usage,
        model.usage is None ==> last.message@ == round.message && last.summary.usage@
            == round.usage,
        last.summary.rounds == budget.rounds,
        last.summary.tool_calls == budget.tool_calls,
        last.summary.client_streaming == model.client_streaming,
{
    broadcast use group_fields_read_back;

}

/// Counting a round changes nothing of a conversation but its counts, and the round is asked what the
/// conversation holds.
pub proof fn counting_a_round_changes_the_counts_alone(
    model: PreparedView,
    round: ResponsesRoundView,
    messages: PreparedMessagesView,
    message: MessagesRoundView,
)
    ensures
        <PreparedToolRuntime as ManagedConversation>::counted(model, round) == (PreparedView {
            usage: usage_added(model.usage, round.usage),
            ..model
        }),
        <PreparedToolRuntime as ManagedConversation>::asked(model) == model.request,
        <PreparedToolRuntime as ManagedConversation>::permitted(model) == model.state,
        <PreparedMessagesRuntime as ManagedConversation>::counted(messages, message) == (
        PreparedMessagesView {
            usage: Some(messages_usage_added(messages.usage, message.usage)),
            ..messages
        }),
        <PreparedMessagesRuntime as ManagedConversation>::asked(messages) == messages.request,
        <PreparedMessagesRuntime as ManagedConversation>::permitted(messages) == messages.state,
{
}

/// A failure of a whole batch tells nothing of a sandbox.
pub proof fn nothing_is_reported_by_default(metadata: ToolBatchMetadata)
    ensures
        metadata == ToolBatchMetadata::nothing() <==> metadata.sandbox_create is None
            && metadata.sandbox_execute is None && metadata.sandbox_terminate is None
            && metadata.sandbox_cleanup is None && metadata.sandbox_cleanup_duration is None,
{
}

proof fn lemma_failure_words()
    ensures
        forall|a: ToolInfrastructureError, b: ToolInfrastructureError|
            #![trigger a.message_view(), b.message_view()]
            a.message_view() == b.message_view() ==> a == b,
        forall|a: ToolInfrastructureError, b: ToolInfrastructureError|
            #![trigger a.code_view(), b.code_view()]
            a.code_view() == b.code_view() ==> a == b,
{
    reveal_strlit("managed tool backend authentication failed");
    reveal_strlit("managed tool execution timed out");
    reveal_strlit("managed tool backend request failed");
    reveal_strlit("managed tool backend configuration is invalid");
    reveal_strlit("managed tool runtime failed");
    assert("managed tool backend authentication failed"@.len() != "managed tool execution timed out"@.len());
    assert("managed tool backend authentication failed"@.len() != "managed tool backend request failed"@.len());
    assert("managed tool backend authentication failed"@.len() != "managed tool backend configuration is invalid"@.len());
    assert("managed tool backend authentication failed"@.len() != "managed tool runtime failed"@.len());
    assert("managed tool execution timed out"@.len() != "managed tool backend request failed"@.len());
    assert("managed tool execution timed out"@.len() != "managed tool backend configuration is invalid"@.len());
    assert("managed tool execution timed out"@.len() != "managed tool runtime failed"@.len());
    assert("managed tool backend request failed"@.len() != "managed tool backend configuration is invalid"@.len());
    assert("managed tool backend request failed"@.len() != "managed tool runtime failed"@.len());
    assert("managed tool backend configuration is invalid"@.len() != "managed tool runtime failed"@.len());
    reveal_strlit("tool_backend_authentication_failed");
    reveal_strlit("tool_execution_timeout");
    reveal_strlit("tool_backend_request_failed");
    reveal_strlit("tool_backend_configuration_invalid");
    reveal_strlit("tool_runtime_internal_error");
    assert("tool_backend_authentication_failed"@.len() != "tool_execution_timeout"@.len());
    assert("tool_backend_authentication_failed"@.len() != "tool_backend_request_failed"@.len());
    assert("tool_backend_authentication_failed"@[13] != "tool_backend_configuration_invalid"@[13]);
    assert("tool_backend_authentication_failed"@.len() != "tool_runtime_internal_error"@.len());
    assert("tool_execution_timeout"@.len() != "tool_backend_request_failed"@.len());
    assert("tool_execution_timeout"@.len() != "tool_backend_configuration_invalid"@.len());
    assert("tool_execution_timeout"@.len() != "tool_runtime_internal_error"@.len());
    assert("tool_backend_request_failed"@.len() != "tool_backend_configuration_invalid"@.len());
    assert("tool_backend_request_failed"@[5] != "tool_runtime_internal_error"@[5]);
    assert("tool_backend_configuration_invalid"@.len() != "tool_runtime_internal_error"@.len());
}

proof fn lemma_error_keys()
    ensures
        "type"@ != "message"@,
        "type"@ != "code"@,
        "type"@ != "error"@,
        "message"@ != "code"@,
        "message"@ != "error"@,
        "code"@ != "error"@,
{
    reveal_strlit("type");
    reveal_strlit("message");
    reveal_strlit("code");
    reveal_strlit("error");
    assert("type"@.len() == 4);
    assert("message"@.len() == 7);
    assert("code"@.len() == 4);
    assert("error"@.len() == 5);
    assert("type"@[0] != "code"@[0]);
}

proof fn lemma_usage_keys()
    ensures
        "input_tokens"@ != "output_tokens"@,
        "input_tokens"@ != "total_tokens"@,
        "input_tokens"@ != "input_tokens_details"@,
        "input_tokens"@ != "output_tokens_details"@,
        "input_tokens"@ != "cached_tokens"@,
        "input_tokens"@ != "cache_write_tokens"@,
        "input_tokens"@ != "reasoning_tokens"@,
        "output_tokens"@ != "total_tokens"@,
        "output_tokens"@ != "input_tokens_details"@,
        "output_tokens"@ != "output_tokens_details"@,
        "output_tokens"@ != "cached_tokens"@,
        "output_tokens"@ != "cache_write_tokens"@,
        "output_tokens"@ != "reasoning_tokens"@,
        "total_tokens"@ != "input_tokens_details"@,
        "total_tokens"@ != "output_tokens_details"@,
        "total_tokens"@ != "cached_tokens"@,
        "total_tokens"@ != "cache_write_tokens"@,
        "total_tokens"@ != "reasoning_tokens"@,
        "input_tokens_details"@ != "output_tokens_details"@,
        "input_tokens_details"@ != "cached_tokens"@,
        "input_tokens_details"@ != "cache_write_tokens"@,
        "input_tokens_details"@ != "reasoning_tokens"@,
        "output_tokens_details"@ != "cached_tokens"@,
        "output_tokens_details"@ != "cache_write_tokens"@,
        "output_tokens_details"@ != "reasoning_tokens"@,
        "cached_tokens"@ != "cache_write_tokens"@,
        "cached_tokens"@ != "reasoning_tokens"@,
        "cache_write_tokens"@ != "reasoning_tokens"@,
{
    reveal_strlit("input_tokens");
    reveal_strlit("output_tokens");
    reveal_strlit("total_tokens");
    reveal_strlit("input_tokens_details");
    reveal_strlit("output_tokens_details");
    reveal_strlit("cached_tokens");
    reveal_strlit("cache_write_tokens");
    reveal_strlit("reasoning_tokens");
    assert("input_tokens"@.len() == 12);
    assert("output_tokens"@.len() == 13);
    assert("total_tokens"@.len() == 12);
    assert("input_tokens_details"@.len() == 20);
    assert("output_tokens_details"@.len() == 21);
    assert("cached_tokens"@.len() == 13);
    assert("cache_write_tokens"@.len() == 18);
    assert("reasoning_tokens"@.len() == 16);
    assert("input_tokens"@[0] != "total_tokens"@[0]);
    assert("output_tokens"@[0] != "cached_tokens"@[0]);
}

proof fn lemma_breakdown_keys()
    ensures
        "input_tokens_details"@ != "output_tokens_details"@,
        "input_tokens_details"@ != "cache_creation"@,
        "output_tokens_details"@ != "cache_creation"@,
{
    reveal_strlit("input_tokens_details");
    reveal_strlit("output_tokens_details");
    reveal_strlit("cache_creation");
    assert("input_tokens_details"@.len() == 20);
    assert("output_tokens_details"@.len() == 21);
    assert("cache_creation"@.len() == 14);
}

proof fn lemma_message_usage_keys()
    ensures
        "input_tokens"@ != "output_tokens"@,
        "input_tokens"@ != "cache_creation_input_tokens"@,
        "input_tokens"@ != "cache_read_input_tokens"@,
        "input_tokens"@ != "service_tier"@,
        "output_tokens"@ != "cache_creation_input_tokens"@,
        "output_tokens"@ != "cache_read_input_tokens"@,
        "output_tokens"@ != "service_tier"@,
        "cache_creation_input_tokens"@ != "cache_read_input_tokens"@,
        "cache_creation_input_tokens"@ != "service_tier"@,
        "cache_read_input_tokens"@ != "service_tier"@,
{
    reveal_strlit("input_tokens");
    reveal_strlit("output_tokens");
    reveal_strlit("cache_creation_input_tokens");
    reveal_strlit("cache_read_input_tokens");
    reveal_strlit("service_tier");
    assert("input_tokens"@.len() == 12);
    assert("output_tokens"@.len() == 13);
    assert("cache_creation_input_tokens"@.len() == 27);
    assert("cache_read_input_tokens"@.len() == 23);
    assert("service_tier"@.len() == 12);
    assert("input_tokens"@[0] != "service_tier"@[0]);
}

} // verus!
