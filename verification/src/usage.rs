//! Token counts, added up over the rounds of a request.

use vstd::prelude::*;
use vstd::string::*;
use crate::json::{Json, JsonView, NumberView};
use crate::time::saturated;
use crate::json;

verus! {

#[derive(Clone, Copy, Debug, PartialEq, Eq)]
pub struct InputDetails {
    pub cached_tokens: Option<u64>,
    pub cache_write_tokens: Option<u64>,
}

#[derive(Clone, Copy, Debug, PartialEq, Eq)]
pub struct OutputDetails {
    pub reasoning_tokens: Option<u64>,
}

/// The token counts of a response.
#[derive(Clone, Copy, Debug, PartialEq, Eq)]
pub struct Usage {
    pub input_tokens: u64,
    pub output_tokens: u64,
    pub total_tokens: Option<u64>,
    pub input_tokens_details: Option<InputDetails>,
    pub output_tokens_details: Option<OutputDetails>,
}

/// The sum of counts that may be absent: absent only where both are.
pub open spec fn optional_sum(left: Option<u64>, right: Option<u64>) -> Option<u64> {
    match (left, right) {
        (None, None) => None,
        (Some(l), None) => Some(l),
        (None, Some(r)) => Some(r),
        (Some(l), Some(r)) => Some(saturated(l + r)),
    }
}

pub open spec fn input_sum(left: Option<InputDetails>, right: Option<InputDetails>) -> Option<
    InputDetails,
> {
    match (left, right) {
        (Some(l), Some(r)) => Some(
            InputDetails {
                cached_tokens: optional_sum(l.cached_tokens, r.cached_tokens),
                cache_write_tokens: optional_sum(l.cache_write_tokens, r.cache_write_tokens),
            },
        ),
        (Some(l), None) => Some(l),
        (None, r) => r,
    }
}

pub open spec fn output_sum(left: Option<OutputDetails>, right: Option<OutputDetails>) -> Option<
    OutputDetails,
> {
    match (left, right) {
        (Some(l), Some(r)) => Some(
            OutputDetails { reasoning_tokens: optional_sum(l.reasoning_tokens, r.reasoning_tokens) },
        ),
        (Some(l), None) => Some(l),
        (None, r) => r,
    }
}

/// The token counts once those of one more round are added.
pub open spec fn usage_sum(aggregate: Option<Usage>, round: Usage) -> Usage {
    match aggregate {
        None => round,
        Some(current) => Usage {
            input_tokens: saturated(current.input_tokens + round.input_tokens),
            output_tokens: saturated(current.output_tokens + round.output_tokens),
            total_tokens: Some(
                saturated(
                    saturated(current.input_tokens + round.input_tokens) + saturated(
                        current.output_tokens + round.output_tokens,
                    ),
                ),
            ),
            input_tokens_details: input_sum(
                current.input_tokens_details,
                round.input_tokens_details,
            ),
            output_tokens_details: output_sum(
                current.output_tokens_details,
                round.output_tokens_details,
            ),
        },
    }
}

pub fn saturating_add_optional(left: Option<u64>, right: Option<u64>) -> (r: Option<u64>)
    ensures
        r == optional_sum(left, right),
{
    match (left, right) {
        (None, None) => None,
        (Some(l), None) => Some(l),
        (None, Some(r)) => Some(r),
        (Some(l), Some(r)) => Some(l.saturating_add(r)),
    }
}

/// Adds the token counts of one more round.
pub fn aggregate_usage(aggregate: Option<Usage>, round: &Usage) -> (r: Usage)
    ensures
        r == usage_sum(aggregate, *round),
{
    let current = match aggregate {
        Some(current) => current,
        None => {
            return *round;
        },
    };
    let input_tokens = current.input_tokens.saturating_add(round.input_tokens);
    let output_tokens = current.output_tokens.saturating_add(round.output_tokens);
    let input_tokens_details = match (current.input_tokens_details, round.input_tokens_details) {
        (Some(l), Some(r)) => Some(
            InputDetails {
                cached_tokens: saturating_add_optional(l.cached_tokens, r.cached_tokens),
                cache_write_tokens: saturating_add_optional(
                    l.cache_write_tokens,
                    r.cache_write_tokens,
                ),
            },
        ),
        (Some(l), None) => Some(l),
        (None, r) => r,
    };
    let output_tokens_details = match (current.output_tokens_details, round.output_tokens_details) {
        (Some(l), Some(r)) => Some(
            OutputDetails {
                reasoning_tokens: saturating_add_optional(l.reasoning_tokens, r.reasoning_tokens),
            },
        ),
        (Some(l), None) => Some(l),
        (None, r) => r,
    };
    Usage {
        input_tokens,
        output_tokens,
        total_tokens: Some(input_tokens.saturating_add(output_tokens)),
        input_tokens_details,
        output_tokens_details,
    }
}

/// A token count as JSON.
pub open spec fn count_json(n: u64) -> JsonView {
    JsonView::Number(NumberView::Unsigned(n))
}

/// An object with a count that may be absent.
pub open spec fn with_count(value: JsonView, key: Seq<char>, count: Option<u64>) -> JsonView {
    match count {
        Some(n) => value.with(key, count_json(n)),
        None => value,
    }
}

/// The details of token counts as JSON. Counts that are absent have no field.
pub open spec fn details_json(usage: Usage) -> JsonView {
    let input = match usage.input_tokens_details {
        Some(details) => JsonView::empty().with(
            "input_tokens_details"@,
            with_count(
                with_count(JsonView::empty(), "cached_tokens"@, details.cached_tokens),
                "cache_write_tokens"@,
                details.cache_write_tokens,
            ),
        ),
        None => JsonView::empty(),
    };
    let output = match usage.output_tokens_details {
        Some(details) => input.with(
            "output_tokens_details"@,
            with_count(JsonView::empty(), "reasoning_tokens"@, details.reasoning_tokens),
        ),
        None => input,
    };
    with_count(output, "total_tokens"@, usage.total_tokens)
}

/// Token counts as JSON. Counts that are absent have no field.
pub open spec fn usage_json(usage: Usage) -> JsonView {
    details_json(usage).with(
        "input_tokens"@,
        count_json(usage.input_tokens),
    ).with("output_tokens"@, count_json(usage.output_tokens))
}

pub fn having_count(value: Json, key: &str, count: Option<u64>) -> (r: Json)
    ensures
        r@ == with_count(value@, key@, count),
{
    match count {
        Some(n) => value.having(key, Json::unsigned(n)),
        None => value,
    }
}

impl Usage {
    /// The token counts as JSON.
    pub fn to_json(&self) -> (r: Json)
        ensures
            r@ == usage_json(*self),
    {
        let mut r = Json::object();
        if let Some(details) = self.input_tokens_details {
            let cached = having_count(Json::object(), "cached_tokens", details.cached_tokens);
            let input = having_count(cached, "cache_write_tokens", details.cache_write_tokens);
            r.set("input_tokens_details", input);
        }
        if let Some(details) = self.output_tokens_details {
            let output = having_count(Json::object(), "reasoning_tokens", details.reasoning_tokens);
            r.set("output_tokens_details", output);
        }
        having_count(r, "total_tokens", self.total_tokens).having(
            "input_tokens",
            Json::unsigned(self.input_tokens),
        ).having("output_tokens", Json::unsigned(self.output_tokens))
    }
}

/// An object that is given the two counts holds them.
pub proof fn lemma_counts_read_back(value: JsonView, input: u64, output: u64)
    requires
        value is Object,
    ensures
        ({
            let r = value.with("input_tokens"@, count_json(input)).with(
                "output_tokens"@,
                count_json(output),
            );
            &&& r.get("input_tokens"@) == Some(count_json(input))
            &&& r.get("output_tokens"@) == Some(count_json(output))
        }),
{
    reveal_strlit("input_tokens");
    reveal_strlit("output_tokens");
    assert("input_tokens"@.len() != "output_tokens"@.len());
    let counted = value.with("input_tokens"@, count_json(input));
    json::a_field_reads_back_what_was_set(
        value->Object_0,
        "input_tokens"@,
        count_json(input),
        "input_tokens"@,
    );
    json::a_field_reads_back_what_was_set(
        counted->Object_0,
        "output_tokens"@,
        count_json(output),
        "input_tokens"@,
    );
}

/// The token counts of all rounds that reported any.
pub open spec fn usage_total(rounds: Seq<Usage>) -> Option<Usage>
    decreases rounds.len(),
{
    if rounds.len() == 0 {
        None
    } else {
        Some(usage_sum(usage_total(rounds.drop_last()), rounds.last()))
    }
}

/// What the counts add up to.
pub open spec fn sum_of(counts: Seq<u64>) -> int
    decreases counts.len(),
{
    if counts.len() == 0 {
        0
    } else {
        sum_of(counts.drop_last()) + counts.last()
    }
}

pub open spec fn input_counts(rounds: Seq<Usage>) -> Seq<u64> {
    Seq::new(rounds.len(), |i: int| rounds[i].input_tokens)
}

pub open spec fn output_counts(rounds: Seq<Usage>) -> Seq<u64> {
    Seq::new(rounds.len(), |i: int| rounds[i].output_tokens)
}

/// The total of rounds counts what all of them counted, up to the largest number that fits, and
/// its JSON says so.
pub proof fn usage_counts_all_rounds(rounds: Seq<Usage>)
    requires
        rounds.len() > 0,
    ensures
        ({
            let input = saturated(sum_of(input_counts(rounds)));
            let output = saturated(sum_of(output_counts(rounds)));
            &&& usage_total(rounds) is Some
            &&& usage_total(rounds)->0.input_tokens == input
            &&& usage_total(rounds)->0.output_tokens == output
            &&& usage_json(usage_total(rounds)->0).get("input_tokens"@) == Some(count_json(input))
            &&& usage_json(usage_total(rounds)->0).get("output_tokens"@) == Some(count_json(output))
        }),
    decreases rounds.len(),
{
    let rest = rounds.drop_last();
    assert(input_counts(rounds).drop_last() =~= input_counts(rest));
    assert(output_counts(rounds).drop_last() =~= output_counts(rest));
    assert(input_counts(rounds).last() == rounds.last().input_tokens);
    assert(output_counts(rounds).last() == rounds.last().output_tokens);
    lemma_sum_of(input_counts(rest));
    lemma_sum_of(output_counts(rest));
    if rest.len() > 0 {
        usage_counts_all_rounds(rest);
    }
    let total = usage_total(rounds)->0;
    lemma_counts_read_back(details_json(total), total.input_tokens, total.output_tokens);
}

pub proof fn lemma_sum_of(counts: Seq<u64>)
    ensures
        sum_of(counts) >= 0,
    decreases counts.len(),
{
    if counts.len() > 0 {
        lemma_sum_of(counts.drop_last());
    }
}

/// Adding a round never makes a count smaller.
pub proof fn usage_never_shrinks(aggregate: Usage, round: Usage)
    ensures
        usage_sum(Some(aggregate), round).input_tokens >= aggregate.input_tokens,
        usage_sum(Some(aggregate), round).input_tokens >= round.input_tokens,
        usage_sum(Some(aggregate), round).output_tokens >= aggregate.output_tokens,
        usage_sum(Some(aggregate), round).output_tokens >= round.output_tokens,
        usage_sum(Some(aggregate), round).total_tokens is Some,
{
}

} // verus!
