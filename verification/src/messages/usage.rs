//! Token counts of the Messages wire format, added up over the rounds of a request.

use vstd::prelude::*;
use vstd::string::*;
use crate::config::optional_text;
use crate::json::{Json, JsonView};
use crate::time::saturated;
use crate::usage::{
    count_json, having_count, lemma_counts_read_back, lemma_sum_of, optional_sum,
    saturating_add_optional, sum_of, with_count,
};
use crate::{json, text};

verus! {

/// The token counts of a message.
pub struct MessagesUsage {
    pub input_tokens: u64,
    pub output_tokens: u64,
    pub cache_creation_input_tokens: Option<u64>,
    pub cache_read_input_tokens: Option<u64>,
    pub service_tier: Option<String>,
    pub rest: Json,
}

pub struct MessagesUsageView {
    pub input_tokens: u64,
    pub output_tokens: u64,
    pub cache_creation_input_tokens: Option<u64>,
    pub cache_read_input_tokens: Option<u64>,
    pub service_tier: Option<Seq<char>>,
    pub rest: JsonView,
}

impl MessagesUsage {
    pub open spec fn view(&self) -> MessagesUsageView {
        MessagesUsageView {
            input_tokens: self.input_tokens,
            output_tokens: self.output_tokens,
            cache_creation_input_tokens: self.cache_creation_input_tokens,
            cache_read_input_tokens: self.cache_read_input_tokens,
            service_tier: optional_text(self.service_tier),
            rest: self.rest@,
        }
    }
}

impl Clone for MessagesUsage {
    fn clone(&self) -> (r: Self)
        ensures
            r@ == self@,
    {
        MessagesUsage {
            input_tokens: self.input_tokens,
            output_tokens: self.output_tokens,
            cache_creation_input_tokens: self.cache_creation_input_tokens,
            cache_read_input_tokens: self.cache_read_input_tokens,
            service_tier: crate::config::clone_optional(&self.service_tier),
            rest: self.rest.clone(),
        }
    }
}

/// Fields beside the counts, without those that cannot be added up.
pub open spec fn without_breakdowns(rest: JsonView) -> JsonView {
    let left = rest.without("input_tokens_details"@).without("output_tokens_details"@).without(
        "cache_creation"@,
    );
    if left is Object && left->Object_0.len() == 0 {
        JsonView::Null
    } else {
        left
    }
}

/// The counts once those of one more round are added.
pub open spec fn messages_usage_sum(
    aggregate: MessagesUsageView,
    round: MessagesUsageView,
) -> MessagesUsageView {
    MessagesUsageView {
        input_tokens: saturated(aggregate.input_tokens + round.input_tokens),
        output_tokens: saturated(aggregate.output_tokens + round.output_tokens),
        cache_creation_input_tokens: optional_sum(
            aggregate.cache_creation_input_tokens,
            round.cache_creation_input_tokens,
        ),
        cache_read_input_tokens: optional_sum(
            aggregate.cache_read_input_tokens,
            round.cache_read_input_tokens,
        ),
        service_tier: if aggregate.service_tier == round.service_tier {
            aggregate.service_tier
        } else {
            None
        },
        rest: without_breakdowns(aggregate.rest),
    }
}

fn remove_unaggregated_usage_breakdowns(rest: Json) -> (r: Json)
    ensures
        r@ == without_breakdowns(rest@),
{
    let mut rest = rest;
    let _ = rest.take("input_tokens_details");
    let _ = rest.take("output_tokens_details");
    let _ = rest.take("cache_creation");
    let empty = match &rest {
        Json::Object(object) => object.len() == 0,
        _ => false,
    };
    if empty {
        Json::Null
    } else {
        rest
    }
}

/// Adds the counts of one more round.
pub fn aggregate_messages_usage(aggregate: MessagesUsage, round: &MessagesUsage) -> (r: MessagesUsage)
    ensures
        r@ == messages_usage_sum(aggregate@, round@),
{
    let same_tier = match (&aggregate.service_tier, &round.service_tier) {
        (Some(a), Some(b)) => text::same_text(a.as_str(), b.as_str()),
        (None, None) => true,
        _ => false,
    };
    MessagesUsage {
        input_tokens: aggregate.input_tokens.saturating_add(round.input_tokens),
        output_tokens: aggregate.output_tokens.saturating_add(round.output_tokens),
        cache_creation_input_tokens: saturating_add_optional(
            aggregate.cache_creation_input_tokens,
            round.cache_creation_input_tokens,
        ),
        cache_read_input_tokens: saturating_add_optional(
            aggregate.cache_read_input_tokens,
            round.cache_read_input_tokens,
        ),
        service_tier: if same_tier {
            aggregate.service_tier
        } else {
            None
        },
        rest: remove_unaggregated_usage_breakdowns(aggregate.rest),
    }
}

/// What is reported beside the two counts that are always there.
pub open spec fn further_json(usage: MessagesUsageView) -> JsonView {
    let rest = if usage.rest is Object {
        usage.rest
    } else {
        JsonView::empty()
    };
    let tiered = match usage.service_tier {
        Some(tier) => rest.with("service_tier"@, JsonView::Text(tier)),
        None => rest,
    };
    with_count(
        with_count(tiered, "cache_creation_input_tokens"@, usage.cache_creation_input_tokens),
        "cache_read_input_tokens"@,
        usage.cache_read_input_tokens,
    )
}

/// The counts as JSON, beside the other fields. Counts that are absent have no field.
pub open spec fn messages_usage_json(usage: MessagesUsageView) -> JsonView {
    further_json(usage).with("input_tokens"@, count_json(usage.input_tokens)).with(
        "output_tokens"@,
        count_json(usage.output_tokens),
    )
}

impl MessagesUsage {
    /// The counts as JSON, beside the other fields.
    pub fn to_json(&self) -> (r: Json)
        ensures
            r@ == messages_usage_json(self@),
    {
        let mut r = if self.rest.is_object() {
            self.rest.clone()
        } else {
            Json::object()
        };
        if let Some(tier) = &self.service_tier {
            r.set("service_tier", Json::text(tier.as_str()));
        }
        let created = having_count(
            r,
            "cache_creation_input_tokens",
            self.cache_creation_input_tokens,
        );
        having_count(created, "cache_read_input_tokens", self.cache_read_input_tokens).having(
            "input_tokens",
            Json::unsigned(self.input_tokens),
        ).having("output_tokens", Json::unsigned(self.output_tokens))
    }
}

/// Puts the usage of all rounds into the final message.
pub fn report_usage(message: Json, usage: Json) -> (r: Json)
    ensures
        r@ == message@.with("usage"@, usage@),
{
    message.having("usage", usage)
}

/// The counts so far once those of one more round are added.
pub open spec fn messages_usage_added(
    aggregate: Option<MessagesUsageView>,
    round: MessagesUsageView,
) -> MessagesUsageView {
    match aggregate {
        Some(aggregate) => messages_usage_sum(aggregate, round),
        None => round,
    }
}

/// The counts of all rounds.
pub open spec fn messages_usage_total(rounds: Seq<MessagesUsageView>) -> Option<MessagesUsageView>
    decreases rounds.len(),
{
    if rounds.len() == 0 {
        None
    } else {
        Some(messages_usage_added(messages_usage_total(rounds.drop_last()), rounds.last()))
    }
}

pub open spec fn input_counts(rounds: Seq<MessagesUsageView>) -> Seq<u64> {
    Seq::new(rounds.len(), |i: int| rounds[i].input_tokens)
}

pub open spec fn output_counts(rounds: Seq<MessagesUsageView>) -> Seq<u64> {
    Seq::new(rounds.len(), |i: int| rounds[i].output_tokens)
}

proof fn lemma_total_counts(rounds: Seq<MessagesUsageView>)
    requires
        rounds.len() > 0,
    ensures
        messages_usage_total(rounds) is Some,
        messages_usage_total(rounds)->0.input_tokens == saturated(sum_of(input_counts(rounds))),
        messages_usage_total(rounds)->0.output_tokens == saturated(sum_of(output_counts(rounds))),
    decreases rounds.len(),
{
    let rest = rounds.drop_last();
    assert(input_counts(rounds).drop_last() =~= input_counts(rest));
    assert(output_counts(rounds).drop_last() =~= output_counts(rest));
    assert(input_counts(rounds).last() == rounds.last().input_tokens);
    assert(output_counts(rounds).last() == rounds.last().output_tokens);
    lemma_sum_of(input_counts(rest));
    lemma_sum_of(output_counts(rest));
    if rest.len() > 0 {
        lemma_total_counts(rest);
    }
}

/// A message that is given the usage of all rounds reports what all of them counted, up to the
/// largest number that fits, and is otherwise as it was.
pub proof fn a_final_message_counts_all_rounds(
    message: JsonView,
    rounds: Seq<MessagesUsageView>,
    key: Seq<char>,
)
    requires
        message is Object,
        rounds.len() > 0,
    ensures
        messages_usage_total(rounds) is Some,
        ({
            let usage = messages_usage_json(messages_usage_total(rounds)->0);
            let reported = message.with("usage"@, usage);
            &&& reported.get("usage"@) == Some(usage)
            &&& usage.get("input_tokens"@) == Some(
                count_json(saturated(sum_of(input_counts(rounds)))),
            )
            &&& usage.get("output_tokens"@) == Some(
                count_json(saturated(sum_of(output_counts(rounds)))),
            )
            &&& key != "usage"@ ==> reported.get(key) == message.get(key)
        }),
{
    lemma_total_counts(rounds);
    let total = messages_usage_total(rounds)->0;
    let usage = messages_usage_json(total);
    lemma_counts_read_back(further_json(total), total.input_tokens, total.output_tokens);
    json::a_field_reads_back_what_was_set(message->Object_0, "usage"@, usage, key);
}

} // verus!
