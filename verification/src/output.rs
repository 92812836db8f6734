//! Model-visible tool output, brought under its byte limit.

use vstd::prelude::*;
use vstd::string::*;
use crate::backend::{ToolApplicationError, ToolExecutionResult};
use crate::error::{joined, joined3, json_result, ErrorView, ToolRuntimeError};
use crate::json::{Fields, Json, JsonView, Object};
use crate::telemetry::ToolRuntimeLimit;
use crate::{json, serde_value, text};

verus! {

/// The place of the last among the largest values.
pub open spec fn largest(items: Seq<JsonView>) -> int
    decreases items.len(),
{
    if items.len() <= 1 {
        0
    } else {
        let k = largest(items.drop_last());
        if serde_value::json_size(items.last()) >= serde_value::json_size(items[k]) {
            items.len() - 1
        } else {
            k
        }
    }
}

/// The values of fields.
pub open spec fn field_values(fields: Fields) -> Seq<JsonView> {
    Seq::new(fields.len(), |i: int| fields[i].1)
}

/// How much text of a given length one cut keeps: three quarters, and always less than before.
pub open spec fn cut_target(len: nat) -> nat {
    (len - (if len / 4 >= 1 {
        len / 4
    } else {
        1
    })) as nat
}

/// A value after one cut; nothing where nothing is left to cut.
///
/// A text loses its tail. An array or object has its largest value cut; where that cannot be cut,
/// an array loses its last item and an object its first field.
pub open spec fn cut(value: JsonView) -> Option<JsonView>
    decreases value,
{
    match value {
        JsonView::Text(s) => if s.len() == 0 {
            None
        } else {
            Some(JsonView::Text(text::truncated(s, cut_target(text::byte_len(s)))))
        },
        JsonView::Array(items) => {
            let k = largest(items);
            if !(0 <= k < items.len()) {
                None
            } else {
                match cut(items[k]) {
                    Some(smaller) => Some(JsonView::Array(items.update(k, smaller))),
                    None => Some(JsonView::Array(items.drop_last())),
                }
            }
        },
        JsonView::Object(fields) => {
            let k = largest(field_values(fields));
            if !(0 <= k < fields.len()) {
                None
            } else {
                match cut(fields[k].1) {
                    Some(smaller) => Some(
                        JsonView::Object(fields.update(k, (fields[k].0, smaller))),
                    ),
                    None => Some(JsonView::Object(fields.drop_first())),
                }
            }
        },
        _ => None,
    }
}

/// Fields after one cut of the largest value among them; no field is lost.
pub open spec fn cut_largest(fields: Fields) -> Option<Fields> {
    let k = largest(field_values(fields));
    if !(0 <= k < fields.len()) {
        None
    } else {
        match cut(fields[k].1) {
            Some(smaller) => Some(fields.update(k, (fields[k].0, smaller))),
            None => None,
        }
    }
}

/// How much there is to cut in a value.
pub open spec fn weight(value: JsonView) -> nat
    decreases value,
{
    match value {
        JsonView::Text(s) => 1 + text::byte_len(s),
        JsonView::Array(items) => 1 + weights(items),
        JsonView::Object(fields) => 1 + field_weights(fields),
        _ => 1,
    }
}

pub open spec fn weights(items: Seq<JsonView>) -> nat
    decreases items,
{
    if items.len() == 0 {
        0
    } else {
        weights(items.drop_last()) + weight(items.last())
    }
}

pub open spec fn field_weights(fields: Fields) -> nat
    decreases fields,
{
    if fields.len() == 0 {
        0
    } else {
        field_weights(fields.drop_last()) + weight(fields.last().1)
    }
}

/// Fields cut until their object takes at most `max` bytes.
pub open spec fn shrunk(fields: Fields, max: nat) -> Option<Fields>
    decreases field_weights(fields),
{
    if serde_value::json_size(JsonView::Object(fields)) <= max {
        Some(fields)
    } else {
        match cut_largest(fields) {
            Some(smaller) => {
                if field_weights(smaller) < field_weights(fields) {
                    shrunk(smaller, max)
                } else {
                    None
                }
            },
            None => None,
        }
    }
}

pub proof fn lemma_largest(items: Seq<JsonView>)
    requires
        items.len() > 0,
    ensures
        0 <= largest(items) < items.len(),
    decreases items.len(),
{
    if items.len() > 1 {
        lemma_largest(items.drop_last());
    }
}

pub proof fn lemma_weights_update(items: Seq<JsonView>, k: int, value: JsonView)
    requires
        0 <= k < items.len(),
    ensures
        weights(items.update(k, value)) == weights(items) - weight(items[k]) + weight(value),
    decreases items.len(),
{
    let after = items.update(k, value);
    if k == items.len() - 1 {
        assert(after.drop_last() =~= items.drop_last());
    } else {
        assert(after.drop_last() =~= items.drop_last().update(k, value));
        lemma_weights_update(items.drop_last(), k, value);
    }
}

pub proof fn lemma_field_weights_update(fields: Fields, k: int, value: JsonView)
    requires
        0 <= k < fields.len(),
    ensures
        field_weights(fields.update(k, (fields[k].0, value))) == field_weights(fields) - weight(
            fields[k].1,
        ) + weight(value),
    decreases fields.len(),
{
    let after = fields.update(k, (fields[k].0, value));
    if k == fields.len() - 1 {
        assert(after.drop_last() =~= fields.drop_last());
    } else {
        assert(after.drop_last() =~= fields.drop_last().update(k, (fields[k].0, value)));
        lemma_field_weights_update(fields.drop_last(), k, value);
    }
}

pub proof fn lemma_field_weights_drop_first(fields: Fields)
    requires
        fields.len() > 0,
    ensures
        field_weights(fields) == weight(fields[0].1) + field_weights(fields.drop_first()),
    decreases fields.len(),
{
    if fields.len() > 1 {
        lemma_field_weights_drop_first(fields.drop_last());
        assert(fields.drop_last().drop_first() =~= fields.drop_first().drop_last());
    } else {
        assert(fields.drop_last() =~= Seq::empty());
        assert(fields.drop_first() =~= Seq::empty());
    }
}

/// Every cut leaves less to cut, so cutting comes to an end.
pub proof fn a_cut_makes_a_value_lighter(value: JsonView)
    ensures
        cut(value) is Some ==> weight(cut(value)->0) < weight(value),
        weight(value) >= 1,
    decreases value,
{
    match value {
        JsonView::Text(s) => {
            if s.len() > 0 {
                let len = text::byte_len(s);
                text::lemma_byte_len_take(s, 0, s.len() as int);
                assert(s.take(s.len() as int) =~= s);
                text::truncated_is_the_longest_fitting_prefix(s, cut_target(len));
            }
        },
        JsonView::Array(items) => {
            if items.len() > 0 {
                let k = largest(items);
                lemma_largest(items);
                a_cut_makes_a_value_lighter(items[k]);
                match cut(items[k]) {
                    Some(smaller) => lemma_weights_update(items, k, smaller),
                    None => a_cut_makes_a_value_lighter(items[items.len() - 1]),
                }
            }
        },
        JsonView::Object(fields) => {
            if fields.len() > 0 {
                let k = largest(field_values(fields));
                lemma_largest(field_values(fields));
                a_cut_makes_a_value_lighter(fields[k].1);
                match cut(fields[k].1) {
                    Some(smaller) => lemma_field_weights_update(fields, k, smaller),
                    None => {
                        a_cut_makes_a_value_lighter(fields[0].1);
                        lemma_field_weights_drop_first(fields);
                    },
                }
            }
        },
        _ => {},
    }
}

pub proof fn lemma_cut_largest(fields: Fields)
    ensures
        cut_largest(fields) is Some ==> field_weights(cut_largest(fields)->0) < field_weights(
            fields,
        ),
{
    if fields.len() > 0 {
        let k = largest(field_values(fields));
        lemma_largest(field_values(fields));
        a_cut_makes_a_value_lighter(fields[k].1);
        if cut(fields[k].1) is Some {
            lemma_field_weights_update(fields, k, cut(fields[k].1)->0);
        }
    }
}

/// The place of the last among the largest items.
fn largest_item(items: &Vec<Json>) -> (k: usize)
    requires
        items@.len() > 0,
    ensures
        k == largest(json::views(items@)),
        k < items@.len(),
{
    let ghost all = json::views(items@);
    let mut k: usize = 0;
    let mut best: usize = serde_value::size(&items[0]);
    let mut i: usize = 1;
    assert(all.take(1).drop_last() =~= Seq::empty());
    while i < items.len()
        invariant
            all == json::views(items@),
            1 <= i <= items@.len(),
            k < i,
            k == largest(all.take(i as int)),
            best == serde_value::json_size(all[k as int]),
        decreases items@.len() - i,
    {
        let size = serde_value::size(&items[i]);
        assert(all.take(i + 1).drop_last() =~= all.take(i as int));
        assert(all.take(i + 1).last() == all[i as int]);
        assert(all.take(i + 1)[k as int] == all[k as int]);
        if size >= best {
            best = size;
            k = i;
        }
        i += 1;
    }
    assert(all.take(i as int) =~= all);
    k
}

/// The place of the last among the largest field values.
fn largest_field(object: &Object) -> (k: usize)
    requires
        object@.len() > 0,
    ensures
        k == largest(field_values(object@)),
        k < object@.len(),
{
    let ghost all = field_values(object@);
    let count: usize = object.len();
    let mut k: usize = 0;
    let mut best: usize = serde_value::size(object.value(0));
    let mut i: usize = 1;
    assert(all.take(1).drop_last() =~= Seq::empty());
    while i < count
        invariant
            all == field_values(object@),
            count == object@.len(),
            1 <= i <= count,
            k < i,
            k == largest(all.take(i as int)),
            best == serde_value::json_size(all[k as int]),
        decreases count - i,
    {
        let size = serde_value::size(object.value(i));
        assert(all.take(i + 1).drop_last() =~= all.take(i as int));
        assert(all.take(i + 1).last() == all[i as int]);
        assert(all.take(i + 1)[k as int] == all[k as int]);
        if size >= best {
            best = size;
            k = i;
        }
        i += 1;
    }
    assert(all.take(i as int) =~= all);
    k
}

/// Cuts a value once; says whether there was anything to cut.
pub fn trim_value(value: &mut Json) -> (r: bool)
    ensures
        r == (cut(old(value)@) is Some),
        match cut(old(value)@) {
            Some(smaller) => final(value)@ == smaller,
            None => final(value)@ == old(value)@,
        },
    decreases old(value)@,
{
    let ghost before = value@;
    match value {
        Json::Text(s) => {
            if s.as_str().is_empty() {
                return false;
            }
            let len: usize = text::byte_length(s.as_str());
            proof {
                text::lemma_byte_len_take(s@, 0, s@.len() as int);
                assert(s@.take(s@.len() as int) =~= s@);
            }
            let quarter: usize = len / 4;
            let target: usize = if quarter >= 1 {
                len - quarter
            } else {
                len - 1
            };
            *s = text::truncate_utf8(s.as_str(), target);
            true
        },
        Json::Array(items) => {
            if items.len() == 0 {
                return false;
            }
            let ghost all = json::views(items@);
            assert(before->Array_0 =~= all);
            let k = largest_item(items);
            let mut chosen = Json::Null;
            std::mem::swap(&mut chosen, &mut items[k]);
            proof {
                assert(decreases_to!(before => before->Array_0));
                assert(decreases_to!(before->Array_0 => before->Array_0[k as int]));
            }
            let trimmed = trim_value(&mut chosen);
            std::mem::swap(&mut chosen, &mut items[k]);
            if !trimmed {
                items.pop();
            }
            proof {
                json::lemma_array_view(*items);
                if trimmed {
                    assert(json::views(items@) =~= all.update(k as int, items@[k as int]@));
                } else {
                    assert(json::views(items@) =~= all.drop_last());
                }
            }
            true
        },
        Json::Object(object) => {
            if object.len() == 0 {
                return false;
            }
            let k = largest_field(object);
            let mut chosen = object.exchange(k, Json::Null);
            proof {
                assert(decreases_to!(before => before->Object_0));
                assert(decreases_to!(before->Object_0 => before->Object_0[k as int]));
                assert(decreases_to!(before->Object_0[k as int] => before->Object_0[k as int].1));
            }
            let trimmed = trim_value(&mut chosen);
            let ghost replaced = chosen@;
            let _ = object.exchange(k, chosen);
            assert(object@ =~= before->Object_0.update(
                k as int,
                (before->Object_0[k as int].0, replaced),
            ));
            if !trimmed {
                assert(object@ =~= before->Object_0);
                object.remove_first();
            }
            true
        },
        _ => false,
    }
}

/// The failure of output that no cutting brings under its limit.
pub open spec fn too_large() -> ErrorView {
    ErrorView::limit("tool output exceeds the configured byte limit"@, ToolRuntimeLimit::Output)
}

/// Output under its limit: as it is where it fits, else marked and cut.
pub open spec fn bounded(fields: Fields, max: nat, typed: bool) -> Result<Fields, ErrorView> {
    if max == 0 {
        Err(too_large())
    } else if serde_value::json_size(JsonView::Object(fields)) <= max {
        Ok(fields)
    } else {
        match shrunk(json::with_field(fields, "truncated"@, JsonView::Bool(true)), max) {
            Some(smaller) => Ok(
                if typed {
                    json::with_field(smaller, "truncated"@, JsonView::Bool(true))
                } else {
                    smaller
                },
            ),
            None => Err(too_large()),
        }
    }
}

/// Cutting keeps every key, and every value that is no text, array or object.
pub proof fn lemma_shrunk(fields: Fields, max: nat)
    ensures
        match shrunk(fields, max) {
            Some(smaller) => {
                &&& serde_value::json_size(JsonView::Object(smaller)) <= max
                &&& smaller.len() == fields.len()
                &&& forall|i: int|
                    0 <= i < fields.len() ==> (#[trigger] smaller[i]).0 == fields[i].0
                &&& forall|i: int|
                    0 <= i < fields.len() && fields[i].1 is Bool ==> (#[trigger] smaller[i]).1
                        == fields[i].1
            },
            None => true,
        },
    decreases field_weights(fields),
{
    if serde_value::json_size(JsonView::Object(fields)) > max {
        lemma_cut_largest(fields);
        if cut_largest(fields) is Some {
            lemma_shrunk(cut_largest(fields)->0, max);
        }
    }
}

/// Bounded output takes at most its limit, and a boolean that it held before it still holds.
pub proof fn bounded_output_fits(fields: Fields, max: nat, typed: bool, key: Seq<char>, flag: bool)
    requires
        json::ascending(fields),
    ensures
        match bounded(fields, max, typed) {
            Ok(smaller) => {
                &&& serde_value::json_size(JsonView::Object(smaller)) <= max
                &&& json::ascending(smaller)
                &&& key != "truncated"@ && json::field(fields, key) == Some(JsonView::Bool(flag))
                    ==> json::field(smaller, key) == Some(JsonView::Bool(flag))
                &&& smaller != fields ==> json::field(smaller, "truncated"@) == Some(
                    JsonView::Bool(true),
                )
            },
            Err(_) => true,
        },
{
    let yes = JsonView::Bool(true);
    if max > 0 && serde_value::json_size(JsonView::Object(fields)) > max {
        let marked = json::with_field(fields, "truncated"@, yes);
        json::lemma_with_field_ascending(fields, "truncated"@, yes);
        lemma_shrunk(marked, max);
        if shrunk(marked, max) is Some {
            let smaller = shrunk(marked, max)->0;
            assert(json::ascending(smaller)) by {
                assert forall|i: int, j: int| 0 <= i < j < smaller.len() implies text::text_less(
                    (#[trigger] smaller[i]).0,
                    (#[trigger] smaller[j]).0,
                ) by {
                    assert(text::text_less(marked[i].0, marked[j].0));
                }
            }
            json::a_field_reads_back_what_was_set(fields, "truncated"@, yes, key);
            lemma_flag_kept(marked, smaller, "truncated"@, true);
            if json::field(marked, key) == Some(JsonView::Bool(flag)) {
                lemma_flag_kept(marked, smaller, key, flag);
            }
            json::setting_a_field_to_its_value_changes_nothing(smaller, "truncated"@, yes);
        }
    }
}

proof fn lemma_flag_kept(before: Fields, after: Fields, key: Seq<char>, flag: bool)
    requires
        json::field(before, key) == Some(JsonView::Bool(flag)),
        before.len() == after.len(),
        forall|i: int| 0 <= i < before.len() ==> (#[trigger] after[i]).0 == before[i].0,
        forall|i: int|
            0 <= i < before.len() && before[i].1 is Bool ==> (#[trigger] after[i]).1
                == before[i].1,
    ensures
        json::field(after, key) == Some(JsonView::Bool(flag)),
{
    let i = json::lemma_field_place(before, key);
    assert forall|j: int| 0 <= j < i implies (#[trigger] after[j]).0 != key by {
        assert(before[j].0 != key);
    }
    assert(after[i].0 == before[i].0);
    json::lemma_field_at(after, key, i);
}

/// Cuts the largest value of an object once; says whether there was anything to cut.
fn trim_largest_value(output: &mut Object) -> (r: bool)
    ensures
        r == (cut_largest(old(output)@) is Some),
        match cut_largest(old(output)@) {
            Some(smaller) => final(output)@ == smaller,
            None => final(output)@ == old(output)@,
        },
{
    if output.len() == 0 {
        return false;
    }
    let ghost before = output@;
    let k = largest_field(output);
    let mut chosen = output.exchange(k, Json::Null);
    let trimmed = trim_value(&mut chosen);
    let ghost replaced = chosen@;
    let _ = output.exchange(k, chosen);
    assert(output@ =~= before.update(k as int, (before[k as int].0, replaced)));
    if !trimmed {
        assert(output@ =~= before);
    }
    trimmed
}

fn trim_largest_of(output: &mut Json) -> (r: bool)
    requires
        old(output)@ is Object,
    ensures
        final(output)@ is Object,
        r == (cut_largest(old(output)@->Object_0) is Some),
        r ==> final(output)@->Object_0 == cut_largest(old(output)@->Object_0)->0,
{
    match output {
        Json::Object(object) => trim_largest_value(object),
        _ => false,
    }
}

proof fn lemma_shrunk_step(fields: Fields, max: nat)
    requires
        serde_value::json_size(JsonView::Object(fields)) > max,
    ensures
        match cut_largest(fields) {
            Some(smaller) => shrunk(fields, max) == shrunk(smaller, max) && field_weights(smaller)
                < field_weights(fields),
            None => shrunk(fields, max) is None,
        },
{
    lemma_cut_largest(fields);
}

/// Brings the output of a tool under its byte limit.
#[verifier::loop_isolation(false)]
pub fn bound_output(output: Object, max_bytes: usize, typed: bool) -> (r: Result<
    Object,
    ToolRuntimeError,
>)
    ensures
        match r {
            Ok(o) => bounded(output@, max_bytes as nat, typed) == Ok::<Fields, ErrorView>(o@),
            Err(e) => bounded(output@, max_bytes as nat, typed) == Err::<Fields, ErrorView>(e@),
        },
        r is Ok ==> serde_value::json_size(JsonView::Object(r->Ok_0@)) <= max_bytes,
{
    if max_bytes == 0 {
        return Err(
            ToolRuntimeError::limit(
                "tool output exceeds the configured byte limit",
                ToolRuntimeLimit::Output,
            ),
        );
    }
    // The fields of every object ascend.
    let _ = output.len();
    let ghost start = output@;
    proof {
        bounded_output_fits(start, max_bytes as nat, typed, Seq::empty(), true);
    }
    let mut whole = Json::Object(output);
    if serde_value::size(&whole) <= max_bytes {
        return match whole {
            Json::Object(object) => Ok(object),
            _ => Err(ToolRuntimeError::internal()),
        };
    }
    whole.set("truncated", Json::Bool(true));
    let ghost marked = whole@->Object_0;
    while serde_value::size(&whole) > max_bytes
        invariant
            whole@ is Object,
            shrunk(marked, max_bytes as nat) == shrunk(whole@->Object_0, max_bytes as nat),
        decreases field_weights(whole@->Object_0),
    {
        proof {
            lemma_shrunk_step(whole@->Object_0, max_bytes as nat);
        }
        if !trim_largest_of(&mut whole) {
            return Err(
                ToolRuntimeError::limit(
                    "tool output exceeds the configured byte limit",
                    ToolRuntimeLimit::Output,
                ),
            );
        }
    }
    if typed {
        whole.set("truncated", Json::Bool(true));
    }
    match whole {
        Json::Object(object) => Ok(object),
        _ => Err(ToolRuntimeError::internal()),
    }
}

/// Brings a replayed tool output under its byte limit.
pub fn bound_replay_output(output: Json, max_bytes: usize) -> (r: Result<Json, ToolRuntimeError>)
    ensures
        match r {
            Ok(o) => output@ is Object && bounded(output@->Object_0, max_bytes as nat, true) == Ok::<
                Fields,
                ErrorView,
            >(o@->Object_0) && o@ is Object,
            Err(e) => if output@ is Object {
                bounded(output@->Object_0, max_bytes as nat, true) == Err::<Fields, ErrorView>(e@)
            } else {
                e@ == ErrorView::internal()
            },
        },
        r is Ok ==> serde_value::json_size(r->Ok_0@) <= max_bytes,
{
    match output {
        Json::Object(object) => match bound_output(object, max_bytes, true) {
            Ok(object) => Ok(Json::Object(object)),
            Err(error) => Err(error),
        },
        _ => Err(ToolRuntimeError::internal()),
    }
}

/// What a backend reports of one call.
pub enum ResultView {
    Function(JsonView),
    WebSearch(JsonView),
    Python(JsonView),
    ApplicationError(ApplicationErrorView),
}

/// An application-level failure.
pub struct ApplicationErrorView {
    pub error_type: Seq<char>,
    pub message: Seq<char>,
    pub retryable: bool,
    pub stdout: Seq<char>,
    pub stderr: Seq<char>,
}

impl ToolApplicationError {
    pub open spec fn view(&self) -> ApplicationErrorView {
        ApplicationErrorView {
            error_type: self.error_type@,
            message: self.message@,
            retryable: self.retryable,
            stdout: self.stdout@,
            stderr: self.stderr@,
        }
    }
}

/// The fields of a successful function call: those of an object, or `result`, and `ok`.
pub open spec fn function_fields(value: JsonView) -> JsonView {
    (match value {
        JsonView::Object(_) => value,
        _ => JsonView::empty().with("result"@, value),
    }).with("ok"@, JsonView::Bool(true))
}

/// The fields of a search result: `results`, an array, and perhaps `truncated`, a boolean.
pub open spec fn web_search_fields(value: JsonView) -> Result<JsonView, ErrorView> {
    let rest = value.without("results"@);
    let others = rest.without("truncated"@);
    if !(value is Object) {
        Err(ErrorView::invalid_request("web search result must be a JSON object"@))
    } else if value.get("results"@) is None {
        Err(ErrorView::invalid_request("web search result requires a results array"@))
    } else if !(value.get("results"@)->0 is Array) {
        Err(ErrorView::invalid_request("web search result results must be an array"@))
    } else if rest.get("truncated"@) is Some && !(rest.get("truncated"@)->0 is Bool) {
        Err(ErrorView::invalid_request("web search result truncated must be a boolean"@))
    } else if others->Object_0.len() > 0 {
        Err(
            ErrorView::invalid_request(
                "web search result contains unsupported field "@ + others->Object_0[0].0,
            ),
        )
    } else {
        let output = JsonView::empty().with("ok"@, JsonView::Bool(true)).with(
            "results"@,
            value.get("results"@)->0,
        );
        Ok(
            match rest.get("truncated"@) {
                Some(truncated) => output.with("truncated"@, truncated),
                None => output,
            },
        )
    }
}

/// What a field of a Python result holds.
#[derive(Clone, Copy)]
pub enum FieldKind {
    Integer,
    Text,
    Flag,
    List,
}

impl FieldKind {
    pub open spec fn matches(self, value: JsonView) -> bool {
        match self {
            FieldKind::Integer => value.is_integer(),
            FieldKind::Text => value is Text,
            FieldKind::Flag => value is Bool,
            FieldKind::List => value is Array,
        }
    }

    pub open spec fn words(self) -> Seq<char> {
        match self {
            FieldKind::Integer => "an integer"@,
            FieldKind::Text => "a string"@,
            FieldKind::Flag => "a boolean"@,
            FieldKind::List => "an array"@,
        }
    }

    fn accepts(self, value: &Json) -> (r: bool)
        ensures
            r == self.matches(value@),
    {
        match self {
            FieldKind::Integer => value.is_integer(),
            FieldKind::Text => value.as_str().is_some(),
            FieldKind::Flag => value.as_bool().is_some(),
            FieldKind::List => value.as_array().is_some(),
        }
    }

    fn text(self) -> (r: &'static str)
        ensures
            r@ == self.words(),
    {
        match self {
            FieldKind::Integer => "an integer",
            FieldKind::Text => "a string",
            FieldKind::Flag => "a boolean",
            FieldKind::List => "an array",
        }
    }
}

/// What is wrong with a required field of a Python result.
pub open spec fn python_complaint(value: JsonView, key: Seq<char>, kind: FieldKind) -> Option<
    ErrorView,
> {
    match value.get(key) {
        None => Some(
            ErrorView::invalid_request(
                "python result requires "@ + key + " ("@ + kind.words() + ")"@,
            ),
        ),
        Some(found) => if kind.matches(found) {
            None
        } else {
            Some(ErrorView::invalid_request("python result "@ + key + " must be "@ + kind.words()))
        },
    }
}

fn python_field(value: &Json, key: &str, kind: FieldKind) -> (r: Result<Json, ToolRuntimeError>)
    ensures
        match python_complaint(value@, key@, kind) {
            Some(complaint) => json_result(r) == Err::<JsonView, ErrorView>(complaint),
            None => json_result(r) == Ok::<JsonView, ErrorView>(value@.get(key@)->0),
        },
{
    match value.get(key) {
        None => {
            let mut message = joined("python result requires ", key);
            message.append(" (");
            message.append(kind.text());
            message.append(")");
            Err(ToolRuntimeError::invalid_request(message.as_str()))
        },
        Some(found) => {
            if kind.accepts(found) {
                Ok(found.clone())
            } else {
                let mut message = joined("python result ", key);
                message.append(" must be ");
                message.append(kind.text());
                Err(ToolRuntimeError::invalid_request(message.as_str()))
            }
        },
    }
}

/// The fields that a Python result has.
pub open spec fn python_keys() -> Seq<Seq<char>> {
    seq!["exit_code"@, "stdout"@, "stderr"@, "timed_out"@, "truncated"@, "artifacts"@]
}

/// The fields of a Python result: all of `python_keys`, each of its kind, and `ok`.
pub open spec fn python_fields(value: JsonView) -> Result<JsonView, ErrorView> {
    let other = json::first_other_key(value->Object_0, python_keys());
    if !(value is Object) {
        Err(ErrorView::invalid_request("python result must be a JSON object"@))
    } else if other is Some {
        Err(ErrorView::invalid_request("python result contains unsupported field "@ + other->0))
    } else if let Some(e) = python_complaint(value, "exit_code"@, FieldKind::Integer) {
        Err(e)
    } else if let Some(e) = python_complaint(value, "stdout"@, FieldKind::Text) {
        Err(e)
    } else if let Some(e) = python_complaint(value, "stderr"@, FieldKind::Text) {
        Err(e)
    } else if let Some(e) = python_complaint(value, "timed_out"@, FieldKind::Flag) {
        Err(e)
    } else if let Some(e) = python_complaint(value, "truncated"@, FieldKind::Flag) {
        Err(e)
    } else if let Some(e) = python_complaint(value, "artifacts"@, FieldKind::List) {
        Err(e)
    } else {
        Ok(
            JsonView::empty().with("ok"@, JsonView::Bool(true)).with(
                "exit_code"@,
                value.get("exit_code"@)->0,
            ).with("stdout"@, value.get("stdout"@)->0).with(
                "stderr"@,
                value.get("stderr"@)->0,
            ).with("timed_out"@, value.get("timed_out"@)->0).with(
                "truncated"@,
                value.get("truncated"@)->0,
            ).with("artifacts"@, value.get("artifacts"@)->0),
        )
    }
}

/// The fields that tell a model of an application-level failure.
pub open spec fn application_error_fields(error: ApplicationErrorView) -> JsonView {
    JsonView::empty().with("ok"@, JsonView::Bool(false)).with(
        "error"@,
        JsonView::empty().with("type"@, JsonView::Text(error.error_type)).with(
            "message"@,
            JsonView::Text(error.message),
        ).with("retryable"@, JsonView::Bool(error.retryable)),
    ).with("stdout"@, JsonView::Text(error.stdout)).with("stderr"@, JsonView::Text(error.stderr))
}

/// The fields that a model is told of a result, before they are bounded.
pub open spec fn result_fields(result: ResultView) -> Result<JsonView, ErrorView> {
    match result {
        ResultView::Function(value) => Ok(function_fields(value)),
        ResultView::WebSearch(value) => web_search_fields(value),
        ResultView::Python(value) => python_fields(value),
        ResultView::ApplicationError(error) => Ok(application_error_fields(error)),
    }
}

/// What a model is told of a result.
pub open spec fn model_output(result: ResultView, max: nat) -> Result<JsonView, ErrorView> {
    match result_fields(result) {
        Ok(value) => match bounded(
            value->Object_0,
            max,
            !(result is ApplicationError),
        ) {
            Ok(fields) => Ok(JsonView::Object(fields)),
            Err(e) => Err(e),
        },
        Err(e) => Err(e),
    }
}

fn ordinary_success_output(value: Json) -> (r: Json)
    ensures
        r@ == function_fields(value@),
{
    let mut output = if value.is_object() {
        value
    } else {
        let mut wrapped = Json::object();
        wrapped.set("result", value);
        wrapped
    };
    output.set("ok", Json::Bool(true));
    output
}

fn web_search_output(value: Json) -> (r: Result<Json, ToolRuntimeError>)
    ensures
        json_result(r) == web_search_fields(value@),
{
    if !value.is_object() {
        return Err(ToolRuntimeError::invalid_request("web search result must be a JSON object"));
    }
    let mut value = value;
    let results = match value.take("results") {
        Some(results) => results,
        None => {
            return Err(
                ToolRuntimeError::invalid_request("web search result requires a results array"),
            );
        },
    };
    if results.as_array().is_none() {
        return Err(ToolRuntimeError::invalid_request("web search result results must be an array"));
    }
    let mut output = Json::object();
    output.set("ok", Json::Bool(true));
    output.set("results", results);
    match value.take("truncated") {
        Some(truncated) => {
            if truncated.as_bool().is_none() {
                return Err(
                    ToolRuntimeError::invalid_request(
                        "web search result truncated must be a boolean",
                    ),
                );
            }
            output.set("truncated", truncated);
        },
        None => {},
    }
    if let Some(rest) = value.as_object() {
        if rest.len() > 0 {
            let message = joined("web search result contains unsupported field ", rest.key(0));
            return Err(ToolRuntimeError::invalid_request(message.as_str()));
        }
    }
    Ok(output)
}

fn python_output(value: Json) -> (r: Result<Json, ToolRuntimeError>)
    ensures
        json_result(r) == python_fields(value@),
{
    let keys = vec!["exit_code", "stdout", "stderr", "timed_out", "truncated", "artifacts"];
    assert(text::texts(keys@) =~= python_keys());
    match value.as_object() {
        None => {
            return Err(ToolRuntimeError::invalid_request("python result must be a JSON object"));
        },
        Some(object) => {
            if let Some(other) = object.first_other_key(&keys) {
                let message = joined("python result contains unsupported field ", other);
                return Err(ToolRuntimeError::invalid_request(message.as_str()));
            }
        },
    }
    let mut output = Json::object();
    output.set("ok", Json::Bool(true));
    match python_field(&value, "exit_code", FieldKind::Integer) {
        Ok(found) => output.set("exit_code", found),
        Err(error) => return Err(error),
    }
    match python_field(&value, "stdout", FieldKind::Text) {
        Ok(found) => output.set("stdout", found),
        Err(error) => return Err(error),
    }
    match python_field(&value, "stderr", FieldKind::Text) {
        Ok(found) => output.set("stderr", found),
        Err(error) => return Err(error),
    }
    match python_field(&value, "timed_out", FieldKind::Flag) {
        Ok(found) => output.set("timed_out", found),
        Err(error) => return Err(error),
    }
    match python_field(&value, "truncated", FieldKind::Flag) {
        Ok(found) => output.set("truncated", found),
        Err(error) => return Err(error),
    }
    match python_field(&value, "artifacts", FieldKind::List) {
        Ok(found) => output.set("artifacts", found),
        Err(error) => return Err(error),
    }
    Ok(output)
}

fn application_error_output(error: ToolApplicationError) -> (r: Json)
    ensures
        r@ == application_error_fields(error@),
{
    let mut detail = Json::object();
    detail.set("type", Json::Text(error.error_type));
    detail.set("message", Json::Text(error.message));
    detail.set("retryable", Json::Bool(error.retryable));
    let mut output = Json::object();
    output.set("ok", Json::Bool(false));
    output.set("error", detail);
    output.set("stdout", Json::Text(error.stdout));
    output.set("stderr", Json::Text(error.stderr));
    output
}

impl ToolExecutionResult {
    pub open spec fn view(&self) -> ResultView {
        match *self {
            ToolExecutionResult::Function(value) => ResultView::Function(value@),
            ToolExecutionResult::WebSearch(value) => ResultView::WebSearch(value@),
            ToolExecutionResult::Python(value) => ResultView::Python(value@),
            ToolExecutionResult::ApplicationError(error) => ResultView::ApplicationError(error@),
        }
    }

    pub fn web_search(value: Json) -> (r: ToolExecutionResult)
        ensures
            r@ == ResultView::WebSearch(value@),
    {
        ToolExecutionResult::WebSearch(value)
    }

    pub fn python(value: Json) -> (r: ToolExecutionResult)
        ensures
            r@ == ResultView::Python(value@),
    {
        ToolExecutionResult::Python(value)
    }

    pub fn function(value: Json) -> (r: ToolExecutionResult)
        ensures
            r@ == ResultView::Function(value@),
    {
        ToolExecutionResult::Function(value)
    }

    /// What the model is told of the result, at most `max_bytes` bytes of JSON.
    pub fn into_model_output(self, max_bytes: usize) -> (r: Result<Json, ToolRuntimeError>)
        ensures
            json_result(r) == model_output(self@, max_bytes as nat),
            r is Ok ==> r->Ok_0@ is Object && serde_value::json_size(r->Ok_0@) <= max_bytes,
    {
        let (output, typed) = match self {
            ToolExecutionResult::Function(value) => (ordinary_success_output(value), true),
            ToolExecutionResult::WebSearch(value) => match web_search_output(value) {
                Ok(output) => (output, true),
                Err(error) => return Err(error),
            },
            ToolExecutionResult::Python(value) => match python_output(value) {
                Ok(output) => (output, true),
                Err(error) => return Err(error),
            },
            ToolExecutionResult::ApplicationError(error) => (application_error_output(error), false),
        };
        match output {
            Json::Object(object) => match bound_output(object, max_bytes, typed) {
                Ok(object) => Ok(Json::Object(object)),
                Err(error) => Err(error),
            },
            _ => Err(ToolRuntimeError::internal()),
        }
    }
}

impl Clone for ToolExecutionResult {
    fn clone(&self) -> (r: Self)
        ensures
            r@ == self@,
    {
        match self {
            ToolExecutionResult::Function(value) => ToolExecutionResult::Function(value.clone()),
            ToolExecutionResult::WebSearch(value) => ToolExecutionResult::WebSearch(value.clone()),
            ToolExecutionResult::Python(value) => ToolExecutionResult::Python(value.clone()),
            ToolExecutionResult::ApplicationError(error) => ToolExecutionResult::ApplicationError(
                error.clone(),
            ),
        }
    }
}

/// Parsed arguments of a call, by their bytes.
pub open spec fn arguments_parsed(input: Seq<u8>, max: nat) -> Result<JsonView, ErrorView> {
    if input.len() > max {
        Err(
            ErrorView::limit(
                "tool arguments exceed the configured "@ + text::decimal(max) + " byte limit"@,
                ToolRuntimeLimit::Arguments,
            ),
        )
    } else if !vstd::utf8::valid_utf8(input) {
        Err(ErrorView::invalid_request("tool arguments must be valid UTF-8 JSON"@))
    } else {
        arguments_read(serde_value::json_parsed(vstd::utf8::decode_utf8(input)))
    }
}

/// Arguments from what reading their text as JSON gave.
pub open spec fn arguments_read(parsed: Result<JsonView, Seq<char>>) -> Result<
    JsonView,
    ErrorView,
> {
    match parsed {
        Err(why) => Err(ErrorView::invalid_request("invalid tool arguments JSON: "@ + why)),
        Ok(value) => if value is Object {
            Ok(value)
        } else {
            Err(ErrorView::invalid_request("tool arguments must be a JSON object"@))
        },
    }
}

/// Takes arguments over from what reading their text as JSON gave.
pub fn read_arguments(parsed: Result<Json, String>) -> (r: Result<Json, ToolRuntimeError>)
    ensures
        json_result(r) == arguments_read(
            match parsed {
                Ok(value) => Ok(value@),
                Err(why) => Err(why@),
            },
        ),
{
    match parsed {
        Err(why) => {
            let message = joined("invalid tool arguments JSON: ", why.as_str());
            Err(ToolRuntimeError::invalid_request(message.as_str()))
        },
        Ok(value) => {
            if value.is_object() {
                Ok(value)
            } else {
                Err(ToolRuntimeError::invalid_request("tool arguments must be a JSON object"))
            }
        },
    }
}

/// Parses model-supplied arguments with a byte bound and an object requirement.
pub fn parse_arguments(input: &[u8], max_bytes: usize) -> (r: Result<Json, ToolRuntimeError>)
    ensures
        json_result(r) == arguments_parsed(input@, max_bytes as nat),
{
    if input.len() > max_bytes {
        let count = text::decimal_text(max_bytes as u64);
        let message = joined3("tool arguments exceed the configured ", count.as_str(), " byte limit");
        return Err(ToolRuntimeError::limit(message.as_str(), ToolRuntimeLimit::Arguments));
    }
    match serde_value::text_of_bytes(input) {
        None => Err(ToolRuntimeError::invalid_request("tool arguments must be valid UTF-8 JSON")),
        Some(source) => {
            proof {
                vstd::utf8::encode_utf8_decode_utf8(source@);
            }
            read_arguments(serde_value::parse(source))
        },
    }
}

/// Whether the fields of a result are in order, as those of every JSON value are.
pub open spec fn is_ordered(result: ResultView) -> bool {
    match result {
        ResultView::Function(JsonView::Object(fields)) => json::ascending(fields),
        _ => true,
    }
}

/// An object stays in order, and keeps what its other fields hold, once one of them is set.
proof fn lemma_field_set(value: JsonView, key: Seq<char>, to: JsonView, other: Seq<char>)
    requires
        value is Object,
        json::ascending(value->Object_0),
    ensures
        value.with(key, to) is Object,
        json::ascending(value.with(key, to)->Object_0),
        value.with(key, to).get(key) == Some(to),
        other != key ==> value.with(key, to).get(other) == value.get(other),
{
    json::lemma_with_field_ascending(value->Object_0, key, to);
    json::a_field_reads_back_what_was_set(value->Object_0, key, to, other);
}

proof fn lemma_other_keys()
    ensures
        "ok"@ != "result"@,
        "ok"@ != "results"@,
        "ok"@ != "truncated"@,
        "ok"@ != "exit_code"@,
        "ok"@ != "stdout"@,
        "ok"@ != "stderr"@,
        "ok"@ != "timed_out"@,
        "ok"@ != "artifacts"@,
        "ok"@ != "error"@,
{
    reveal_strlit("ok");
    reveal_strlit("result");
    reveal_strlit("results");
    reveal_strlit("truncated");
    reveal_strlit("exit_code");
    reveal_strlit("stdout");
    reveal_strlit("stderr");
    reveal_strlit("timed_out");
    reveal_strlit("artifacts");
    reveal_strlit("error");
    let length = "ok"@.len();
    assert(length != "result"@.len());
    assert(length != "results"@.len());
    assert(length != "truncated"@.len());
    assert(length != "exit_code"@.len());
    assert(length != "stdout"@.len());
    assert(length != "stderr"@.len());
    assert(length != "timed_out"@.len());
    assert(length != "artifacts"@.len());
    assert(length != "error"@.len());
}

/// The fields of a result say whether the call succeeded.
proof fn lemma_result_flag(result: ResultView)
    requires
        is_ordered(result),
    ensures
        match result_fields(result) {
            Ok(value) => {
                &&& value is Object
                &&& json::ascending(value->Object_0)
                &&& value.get("ok"@) == Some(JsonView::Bool(!(result is ApplicationError)))
            },
            Err(_) => true,
        },
{
    lemma_other_keys();
    let ok = "ok"@;
    let none = JsonView::empty();
    let yes = JsonView::Bool(true);
    match result {
        ResultView::Function(value) => {
            if !(value is Object) {
                lemma_field_set(none, "result"@, value, ok);
                lemma_field_set(none.with("result"@, value), ok, yes, ok);
            } else {
                lemma_field_set(value, ok, yes, ok);
            }
        },
        ResultView::WebSearch(value) => {
            if web_search_fields(value) is Ok {
                let found = value.get("results"@)->0;
                let marked = none.with(ok, yes);
                lemma_field_set(none, ok, yes, ok);
                lemma_field_set(marked, "results"@, found, ok);
                let rest = value.without("results"@);
                if rest.get("truncated"@) is Some {
                    lemma_field_set(
                        marked.with("results"@, found),
                        "truncated"@,
                        rest.get("truncated"@)->0,
                        ok,
                    );
                }
            }
        },
        ResultView::Python(value) => {
            if python_fields(value) is Ok {
                let marked = none.with(ok, yes);
                lemma_field_set(none, ok, yes, ok);
                let a = marked.with("exit_code"@, value.get("exit_code"@)->0);
                lemma_field_set(marked, "exit_code"@, value.get("exit_code"@)->0, ok);
                let b = a.with("stdout"@, value.get("stdout"@)->0);
                lemma_field_set(a, "stdout"@, value.get("stdout"@)->0, ok);
                let c = b.with("stderr"@, value.get("stderr"@)->0);
                lemma_field_set(b, "stderr"@, value.get("stderr"@)->0, ok);
                let d = c.with("timed_out"@, value.get("timed_out"@)->0);
                lemma_field_set(c, "timed_out"@, value.get("timed_out"@)->0, ok);
                let e = d.with("truncated"@, value.get("truncated"@)->0);
                lemma_field_set(d, "truncated"@, value.get("truncated"@)->0, ok);
                lemma_field_set(e, "artifacts"@, value.get("artifacts"@)->0, ok);
            }
        },
        ResultView::ApplicationError(error) => {
            let told = JsonView::empty().with("type"@, JsonView::Text(error.error_type)).with(
                "message"@,
                JsonView::Text(error.message),
            ).with("retryable"@, JsonView::Bool(error.retryable));
            let marked = none.with(ok, JsonView::Bool(false));
            lemma_field_set(none, ok, JsonView::Bool(false), ok);
            let a = marked.with("error"@, told);
            lemma_field_set(marked, "error"@, told, ok);
            let b = a.with("stdout"@, JsonView::Text(error.stdout));
            lemma_field_set(a, "stdout"@, JsonView::Text(error.stdout), ok);
            lemma_field_set(b, "stderr"@, JsonView::Text(error.stderr), ok);
        },
    }
}

/// Whatever a model is told of a call, and however much was cut, it is told whether the call
/// succeeded.
pub proof fn a_model_is_told_whether_a_call_succeeded(result: ResultView, max: nat)
    requires
        is_ordered(result),
    ensures
        match model_output(result, max) {
            Ok(output) => output.get("ok"@) == Some(JsonView::Bool(!(result is ApplicationError))),
            Err(_) => true,
        },
{
    lemma_other_keys();
    lemma_result_flag(result);
    if let Ok(value) = result_fields(result) {
        let success = !(result is ApplicationError);
        bounded_output_fits(value->Object_0, max, success, "ok"@, success);
    }
}

} // verus!
