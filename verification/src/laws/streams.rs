//! What a client puts together from a stream of events.

use vstd::prelude::*;
use vstd::string::*;
use crate::json::{group_fields_read_back, JsonView};
use crate::streaming::{
    item_events, item_id, item_parts, items_deltas, items_events, number, output_items, part_deltas,
    part_events, parts_deltas, parts_events, sent, stream_events, with_usage_details, EventView,
};

verus! {

/// Whether an event is about a part of an item.
pub open spec fn is_about(event: EventView, kind: Seq<char>, item: int, part: int) -> bool {
    &&& event.0 == kind
    &&& event.1.get("output_index"@) == Some(number(item))
    &&& event.1.get("content_index"@) == Some(number(part))
}

/// What the events of a kind say of a part of an item in a field, joined in their order.
pub open spec fn said(
    events: Seq<EventView>,
    kind: Seq<char>,
    field: Seq<char>,
    item: int,
    part: int,
) -> Seq<char>
    decreases events.len(),
{
    if events.len() == 0 {
        Seq::empty()
    } else {
        let before = said(events.drop_last(), kind, field, item, part);
        if is_about(events.last(), kind, item, part) && events.last().1.text_at(field) is Some {
            before + events.last().1.text_at(field)->0
        } else {
            before
        }
    }
}

/// How many events of a kind are about a part of an item.
pub open spec fn mentions(events: Seq<EventView>, kind: Seq<char>, item: int, part: int) -> nat
    decreases events.len(),
{
    if events.len() == 0 {
        0
    } else {
        mentions(events.drop_last(), kind, item, part) + if is_about(
            events.last(),
            kind,
            item,
            part,
        ) {
            1nat
        } else {
            0
        }
    }
}

proof fn lemma_said_joined(
    a: Seq<EventView>,
    b: Seq<EventView>,
    kind: Seq<char>,
    field: Seq<char>,
    item: int,
    part: int,
)
    ensures
        said(a + b, kind, field, item, part) == said(a, kind, field, item, part) + said(
            b,
            kind,
            field,
            item,
            part,
        ),
        mentions(a + b, kind, item, part) == mentions(a, kind, item, part) + mentions(
            b,
            kind,
            item,
            part,
        ),
    decreases b.len(),
{
    if b.len() == 0 {
        assert(a + b =~= a);
        assert(said(a, kind, field, item, part) + Seq::<char>::empty() =~= said(
            a,
            kind,
            field,
            item,
            part,
        ));
    } else {
        assert((a + b).drop_last() =~= a + b.drop_last());
        assert((a + b).last() == b.last());
        lemma_said_joined(a, b.drop_last(), kind, field, item, part);
        let x = said(a, kind, field, item, part);
        let y = said(b.drop_last(), kind, field, item, part);
        if b.last().1.text_at(field) is Some {
            let z = b.last().1.text_at(field)->0;
            assert((x + y) + z =~= x + (y + z));
        }
    }
}

/// One of the four ways in which a stream tells the text of a part: in pieces or as a whole, as a
/// text or as a refusal.
pub open spec fn tells_text(kind: Seq<char>, field: Seq<char>) -> bool {
    ||| kind == "response.output_text.delta"@ && field == "delta"@
    ||| kind == "response.output_text.done"@ && field == "text"@
    ||| kind == "response.refusal.delta"@ && field == "delta"@
    ||| kind == "response.refusal.done"@ && field == "refusal"@
}

/// What a part says in this way: its text, or its refusal where it has no text.
pub open spec fn text_of(part: JsonView, kind: Seq<char>) -> Option<Seq<char>> {
    if kind == "response.output_text.delta"@ || kind == "response.output_text.done"@ {
        part.text_at("text"@)
    } else if part.text_at("text"@) is None {
        part.text_at("refusal"@)
    } else {
        None
    }
}

spec fn or_nothing(s: Option<Seq<char>>) -> Seq<char> {
    match s {
        Some(s) => s,
        None => Seq::empty(),
    }
}

spec fn count_of(s: Option<Seq<char>>) -> nat {
    match s {
        Some(_) => 1,
        None => 0,
    }
}

proof fn lemma_part_says(
    part: JsonView,
    id: Seq<char>,
    output_index: int,
    content_index: int,
    tokens: Option<Seq<Seq<char>>>,
    at: nat,
    kind: Seq<char>,
    field: Seq<char>,
    i: int,
    j: int,
)
    requires
        tells_text(kind, field),
        0 <= output_index <= u64::MAX,
        0 <= content_index <= u64::MAX,
        0 <= i <= u64::MAX,
        0 <= j <= u64::MAX,
    ensures
        ({
            let events = part_events(part, id, output_index, content_index, tokens, at);
            let here = output_index == i && content_index == j;
            &&& said(events, kind, field, i, j) == (if here {
                or_nothing(text_of(part, kind))
            } else {
                Seq::empty()
            })
            &&& mentions(events, kind, i, j) == (if here {
                count_of(text_of(part, kind))
            } else {
                0
            })
        }),
{
    broadcast use group_fields_read_back;

    lemma_event_kinds();
    lemma_event_keys();
    reveal_with_fuel(said, 5);
    reveal_with_fuel(mentions, 5);
    let events = part_events(part, id, output_index, content_index, tokens, at);
    assert(number(output_index) == number(i) <==> output_index == i);
    assert(number(content_index) == number(j) <==> content_index == j);
    if part.text_at("text"@) is Some || part.text_at("refusal"@) is Some {
        assert(events.len() == 4);
        assert(events =~= seq![events[0], events[1], events[2], events[3]]);
        assert(events.drop_last() =~= seq![events[0], events[1], events[2]]);
        assert(events.drop_last().drop_last() =~= seq![events[0], events[1]]);
        assert(events.drop_last().drop_last().drop_last() =~= seq![events[0]]);
        assert(events.drop_last().drop_last().drop_last().drop_last() =~= Seq::empty());
    } else {
        assert(events.len() == 2);
        assert(events =~= seq![events[0], events[1]]);
        assert(events.drop_last() =~= seq![events[0]]);
        assert(events.drop_last().drop_last() =~= Seq::empty());
    }
    assert(said(events, kind, field, i, j) =~= (if output_index == i && content_index == j {
        or_nothing(text_of(part, kind))
    } else {
        Seq::empty()
    }));
}

proof fn lemma_parts_say(
    parts: Seq<JsonView>,
    n: nat,
    id: Seq<char>,
    output_index: int,
    tokens: Option<Seq<Seq<char>>>,
    at: nat,
    kind: Seq<char>,
    field: Seq<char>,
    i: int,
    j: int,
)
    requires
        tells_text(kind, field),
        0 <= output_index <= u64::MAX,
        n <= u64::MAX,
        0 <= i <= u64::MAX,
        0 <= j <= u64::MAX,
    ensures
        ({
            let events = parts_events(parts, n, id, output_index, tokens, at);
            let here = output_index == i && j < n;
            &&& said(events, kind, field, i, j) == (if here {
                or_nothing(text_of(parts[j], kind))
            } else {
                Seq::empty()
            })
            &&& mentions(events, kind, i, j) == (if here {
                count_of(text_of(parts[j], kind))
            } else {
                0
            })
        }),
    decreases n,
{
    if n > 0 {
        let m = (n - 1) as nat;
        let before = parts_events(parts, m, id, output_index, tokens, at);
        let offset = at + parts_deltas(parts, m);
        let last = part_events(parts[n - 1], id, output_index, n - 1, tokens, offset);
        lemma_parts_say(parts, m, id, output_index, tokens, at, kind, field, i, j);
        lemma_part_says(
            parts[n - 1],
            id,
            output_index,
            n - 1,
            tokens,
            offset,
            kind,
            field,
            i,
            j,
        );
        lemma_said_joined(before, last, kind, field, i, j);
        let x = said(before, kind, field, i, j);
        let y = said(last, kind, field, i, j);
        assert(x + Seq::<char>::empty() =~= x);
        assert(Seq::<char>::empty() + y =~= y);
    }
}

proof fn lemma_item_says(
    item: JsonView,
    output_index: int,
    tokens: Option<Seq<Seq<char>>>,
    at: nat,
    kind: Seq<char>,
    field: Seq<char>,
    i: int,
    j: int,
)
    requires
        tells_text(kind, field),
        0 <= output_index <= u64::MAX,
        item_parts(item).len() <= u64::MAX,
        0 <= i <= u64::MAX,
        0 <= j <= u64::MAX,
    ensures
        ({
            let events = item_events(item, output_index, tokens, at);
            let here = output_index == i && j < item_parts(item).len();
            &&& said(events, kind, field, i, j) == (if here {
                or_nothing(text_of(item_parts(item)[j], kind))
            } else {
                Seq::empty()
            })
            &&& mentions(events, kind, i, j) == (if here {
                count_of(text_of(item_parts(item)[j], kind))
            } else {
                0
            })
        }),
{
    lemma_event_kinds();
    reveal_with_fuel(said, 2);
    reveal_with_fuel(mentions, 2);
    let parts = item_parts(item);
    let events = item_events(item, output_index, tokens, at);
    let first = seq![events[0]];
    let inner = parts_events(parts, parts.len(), item_id(item), output_index, tokens, at);
    let last = seq![events[events.len() - 1]];
    assert(events =~= (first + inner) + last);
    lemma_parts_say(
        parts,
        parts.len(),
        item_id(item),
        output_index,
        tokens,
        at,
        kind,
        field,
        i,
        j,
    );
    lemma_said_joined(first + inner, last, kind, field, i, j);
    lemma_said_joined(first, inner, kind, field, i, j);
    assert(first.drop_last() =~= Seq::empty());
    assert(last.drop_last() =~= Seq::empty());
    let x = said(inner, kind, field, i, j);
    assert((Seq::<char>::empty() + x) + Seq::<char>::empty() =~= x);
}

proof fn lemma_items_say(
    items: Seq<JsonView>,
    n: nat,
    tokens: Option<Seq<Seq<char>>>,
    kind: Seq<char>,
    field: Seq<char>,
    i: int,
    j: int,
)
    requires
        tells_text(kind, field),
        n <= items.len() <= u64::MAX,
        forall|k: int| 0 <= k < items.len() ==> item_parts(#[trigger] items[k]).len() <= u64::MAX,
        0 <= i <= u64::MAX,
        0 <= j <= u64::MAX,
    ensures
        ({
            let events = items_events(items, n, tokens);
            let here = i < n && j < item_parts(items[i]).len();
            &&& said(events, kind, field, i, j) == (if here {
                or_nothing(text_of(item_parts(items[i])[j], kind))
            } else {
                Seq::empty()
            })
            &&& mentions(events, kind, i, j) == (if here {
                count_of(text_of(item_parts(items[i])[j], kind))
            } else {
                0
            })
        }),
    decreases n,
{
    if n > 0 {
        let m = (n - 1) as nat;
        let at = items_deltas(items, m);
        let before = items_events(items, m, tokens);
        let last = item_events(items[n - 1], n - 1, tokens, at);
        lemma_items_say(items, m, tokens, kind, field, i, j);
        lemma_item_says(items[n - 1], n - 1, tokens, at, kind, field, i, j);
        lemma_said_joined(before, last, kind, field, i, j);
        let x = said(before, kind, field, i, j);
        let y = said(last, kind, field, i, j);
        assert(x + Seq::<char>::empty() =~= x);
        assert(Seq::<char>::empty() + y =~= y);
    }
}

/// Whether a response is no larger than can be counted.
pub open spec fn is_countable(response: JsonView) -> bool {
    &&& output_items(response).len() <= u64::MAX
    &&& forall|k: int|
        0 <= k < output_items(response).len() ==> item_parts(
            #[trigger] output_items(response)[k],
        ).len() <= u64::MAX
}

/// What a client puts together from the pieces of a part is the text of the part, and so is what it
/// is told in the end; the same holds of a refusal. Of a part that says nothing there are no pieces.
pub proof fn pieces_of_a_part_make_up_its_text(
    response: JsonView,
    tokens: Option<Seq<Seq<char>>>,
    kind: Seq<char>,
    field: Seq<char>,
    i: int,
    j: int,
)
    requires
        tells_text(kind, field),
        is_countable(with_usage_details(response)),
        stream_events(response, tokens) is Ok,
        0 <= i < output_items(with_usage_details(response)).len(),
        0 <= j < item_parts(output_items(with_usage_details(response))[i]).len(),
    ensures
        ({
            let events = stream_events(response, tokens)->Ok_0;
            let part = item_parts(output_items(with_usage_details(response))[i])[j];
            &&& text_of(part, kind) matches Some(s) ==> said(events, kind, field, i, j) == s
                && mentions(events, kind, i, j) == 1
            &&& text_of(part, kind) is None ==> mentions(events, kind, i, j) == 0
        }),
{
    lemma_event_kinds();
    let full = with_usage_details(response);
    let items = output_items(full);
    let events = stream_events(response, tokens)->Ok_0;
    let inner = items_events(items, items.len(), tokens);
    let first = seq![events[0], events[1]];
    let last = seq![events[events.len() - 1]];
    assert(events =~= (first + inner) + last);
    lemma_items_say(items, items.len(), tokens, kind, field, i, j);
    lemma_said_joined(first + inner, last, kind, field, i, j);
    lemma_said_joined(first, inner, kind, field, i, j);
    reveal_with_fuel(said, 3);
    reveal_with_fuel(mentions, 3);
    assert(first.drop_last() =~= seq![events[0]]);
    assert(first.drop_last().drop_last() =~= Seq::empty());
    assert(last.drop_last() =~= Seq::empty());
    let x = said(inner, kind, field, i, j);
    assert((Seq::<char>::empty() + x) + Seq::<char>::empty() =~= x);
}

/// What the output of a response is, is not changed by naming the details of its usage.
pub proof fn details_change_nothing_but_the_usage(response: JsonView, key: Seq<char>)
    requires
        response is Object,
    ensures
        ({
            let full = with_usage_details(response);
            let usage = response.get("usage"@);
            &&& key != "usage"@ ==> full.get(key) == response.get(key)
            &&& !(usage is Some && usage->0 is Object) ==> full == response
            &&& usage is Some && usage->0 is Object ==> {
                let named = full.get("usage"@)->0;
                &&& full.get("usage"@) is Some
                &&& usage->0.get(key) is Some ==> named.get(key) == usage->0.get(key)
                &&& named.get("input_tokens_details"@) is Some
                &&& named.get("output_tokens_details"@) is Some
                &&& usage->0.get("input_tokens_details"@) is None ==> named.get(
                    "input_tokens_details"@,
                )->0.get("cached_tokens"@) == Some(number(0))
                &&& usage->0.get("output_tokens_details"@) is None ==> named.get(
                    "output_tokens_details"@,
                )->0.get("reasoning_tokens"@) == Some(number(0))
            }
        }),
{
    broadcast use group_fields_read_back;

    lemma_usage_keys();
}

/// A stream begins with the response as it stood before there was any output: in progress, with no
/// output, usage or end, and otherwise as it is; and this is said twice.
pub proof fn a_stream_begins_before_the_output(
    response: JsonView,
    tokens: Option<Seq<Seq<char>>>,
    key: Seq<char>,
)
    requires
        response is Object,
        stream_events(response, tokens) is Ok,
    ensures
        ({
            let events = stream_events(response, tokens)->Ok_0;
            let start = events[0].1.get("response"@)->0;
            &&& events.len() >= 3
            &&& events[0].0 == "response.created"@
            &&& events[1].0 == "response.in_progress"@
            &&& events[0].1.get("response"@) is Some
            &&& events[1].1.get("response"@) == Some(start)
            &&& start.get("status"@) == Some(JsonView::Text("in_progress"@))
            &&& start.get("output"@) matches Some(JsonView::Array(items)) && items.len() == 0
            &&& start.get("usage"@) == Some(JsonView::Null)
            &&& start.get("completed_at"@) == Some(JsonView::Null)
            &&& start.get("error"@) == Some(JsonView::Null)
            &&& start.get("incomplete_details"@) == Some(JsonView::Null)
            &&& key != "status"@ && key != "output"@ && key != "usage"@ && key != "completed_at"@
                && key != "error"@ && key != "incomplete_details"@ ==> start.get(key)
                == response.get(key)
        }),
{
    broadcast use group_fields_read_back;

    lemma_usage_keys();
    lemma_initial_keys();
    details_change_nothing_but_the_usage(response, key);
}

/// A stream ends with the whole response, under the kind that its status says, and a response that
/// has not ended has no stream.
pub proof fn a_stream_ends_with_the_whole_response(
    response: JsonView,
    tokens: Option<Seq<Seq<char>>>,
)
    requires
        response is Object,
    ensures
        ({
            let status = response.text_at("status"@);
            match stream_events(response, tokens) {
                Ok(events) => {
                    let last = events[events.len() - 1];
                    &&& last.1.get("response"@) == Some(with_usage_details(response))
                    &&& status == Some("completed"@) ==> last.0 == "response.completed"@
                    &&& status == Some("incomplete"@) ==> last.0 == "response.incomplete"@
                    &&& status == Some("failed"@) ==> last.0 == "response.failed"@
                    &&& status == Some("completed"@) || status == Some("incomplete"@) || status
                        == Some("failed"@)
                },
                Err(_) => status != Some("completed"@) && status != Some("incomplete"@) && status
                    != Some("failed"@),
            }
        }),
{
    broadcast use group_fields_read_back;

    lemma_usage_keys();
    lemma_initial_keys();
    lemma_states();
    details_change_nothing_but_the_usage(response, "status"@);
}

/// The first event of an item says that it was added, without what it will hold, and the last says
/// the item as it is. Between them stand the events of its parts.
pub proof fn an_item_is_added_and_then_done(
    item: JsonView,
    output_index: int,
    tokens: Option<Seq<Seq<char>>>,
    at: nat,
    key: Seq<char>,
)
    requires
        item is Object,
    ensures
        ({
            let events = item_events(item, output_index, tokens, at);
            let n = events.len() - 1;
            let added = events[0].1.get("item"@)->0;
            &&& n >= 1
            &&& events[0].0 == "response.output_item.added"@
            &&& events[0].1.get("output_index"@) == Some(number(output_index))
            &&& events[0].1.get("item"@) is Some
            &&& added.get("status"@) == Some(JsonView::Text("in_progress"@))
            &&& key != "status"@ && key != "content"@ && key != "summary"@ ==> added.get(key)
                == item.get(key)
            &&& item.text_at("type"@) == Some("message"@) ==> added.get("content"@) == Some(
                JsonView::Array(Seq::empty()),
            )
            &&& events[n].0 == "response.output_item.done"@
            &&& events[n].1.get("output_index"@) == Some(number(output_index))
            &&& events[n].1.get("item"@) == Some(item)
        }),
{
    broadcast use group_fields_read_back;

    lemma_event_keys();
    lemma_item_keys();
    lemma_item_types();
}

/// The events of a part all say where it belongs; the first says that it was added, without its
/// text, and the last says the part as it is.
pub proof fn a_part_is_added_and_then_done(
    part: JsonView,
    id: Seq<char>,
    output_index: int,
    content_index: int,
    tokens: Option<Seq<Seq<char>>>,
    at: nat,
    k: int,
    key: Seq<char>,
)
    requires
        part is Object,
        0 <= k < part_events(part, id, output_index, content_index, tokens, at).len(),
    ensures
        ({
            let events = part_events(part, id, output_index, content_index, tokens, at);
            let n = events.len() - 1;
            let added = events[0].1.get("part"@)->0;
            &&& n == if part.text_at("text"@) is Some || part.text_at("refusal"@) is Some {
                3int
            } else {
                1
            }
            &&& events[k].1.get("item_id"@) == Some(JsonView::Text(id))
            &&& events[k].1.get("output_index"@) == Some(number(output_index))
            &&& events[k].1.get("content_index"@) == Some(number(content_index))
            &&& events[0].0 == "response.content_part.added"@
            &&& events[0].1.get("part"@) is Some
            &&& part.text_at("type"@) == Some("output_text"@) ==> added.get("text"@) == Some(
                JsonView::Text(""@),
            )
            &&& part.text_at("type"@) == Some("refusal"@) ==> added.get("refusal"@) == Some(
                JsonView::Text(""@),
            )
            &&& key != "text"@ && key != "refusal"@ ==> added.get(key) == part.get(key)
            &&& events[n].0 == "response.content_part.done"@
            &&& events[n].1.get("part"@) == Some(part)
        }),
{
    broadcast use group_fields_read_back;

    lemma_event_keys();
    lemma_part_types();
}

/// A text is told with the probabilities of its tokens, where the part has them.
pub proof fn a_text_is_told_with_its_probabilities(
    part: JsonView,
    id: Seq<char>,
    output_index: int,
    content_index: int,
    tokens: Option<Seq<Seq<char>>>,
    at: nat,
)
    requires
        part.text_at("text"@) is Some,
    ensures
        ({
            let events = part_events(part, id, output_index, content_index, tokens, at);
            let known = match part.get("logprobs"@) {
                Some(found) => found,
                None => JsonView::Null,
            };
            &&& events[1].0 == "response.output_text.delta"@
            &&& events[1].1.get("logprobs"@) == Some(known)
            &&& events[2].0 == "response.output_text.done"@
            &&& events[2].1.get("logprobs"@) == Some(known)
        }),
{
    broadcast use group_fields_read_back;

    lemma_event_keys();
}

/// Padding is given to the pieces of a text and to nothing else, and each piece is given its own.
pub proof fn padding_is_given_to_pieces_alone(
    part: JsonView,
    id: Seq<char>,
    output_index: int,
    content_index: int,
    tokens: Option<Seq<Seq<char>>>,
    at: nat,
    k: int,
)
    requires
        0 <= k < part_events(part, id, output_index, content_index, tokens, at).len(),
    ensures
        ({
            let event = part_events(part, id, output_index, content_index, tokens, at)[k];
            let is_piece = event.0 == "response.output_text.delta"@ || event.0
                == "response.refusal.delta"@;
            event.1.get("obfuscation"@) == (if is_piece && tokens is Some {
                Some(JsonView::Text(tokens->0[at as int]))
            } else {
                None
            })
        }),
        part_deltas(part) == mentions_pieces(
            part_events(part, id, output_index, content_index, tokens, at),
        ),
{
    broadcast use group_fields_read_back;

    lemma_event_keys();
    lemma_event_kinds();
    reveal_with_fuel(mentions_pieces, 5);
    let events = part_events(part, id, output_index, content_index, tokens, at);
    if part.text_at("text"@) is Some || part.text_at("refusal"@) is Some {
        assert(events.len() == 4);
        assert(events.drop_last() =~= seq![events[0], events[1], events[2]]);
        assert(events.drop_last().drop_last() =~= seq![events[0], events[1]]);
        assert(events.drop_last().drop_last().drop_last() =~= seq![events[0]]);
        assert(events.drop_last().drop_last().drop_last().drop_last() =~= Seq::empty());
    } else {
        assert(events.len() == 2);
        assert(events.drop_last() =~= seq![events[0]]);
        assert(events.drop_last().drop_last() =~= Seq::empty());
    }
}

/// How many events carry a piece of text.
pub open spec fn mentions_pieces(events: Seq<EventView>) -> nat
    decreases events.len(),
{
    if events.len() == 0 {
        0
    } else {
        let kind = events.last().0;
        mentions_pieces(events.drop_last()) + if kind == "response.output_text.delta"@ || kind
            == "response.refusal.delta"@ {
            1nat
        } else {
            0
        }
    }
}

/// The parts of a message are those of its content, and no other item has any.
pub proof fn the_parts_of_a_message_are_its_content(item: JsonView)
    ensures
        item.text_at("type"@) == Some("message"@) ==> match item.get("content"@) {
            Some(JsonView::Array(parts)) => item_parts(item) == parts,
            _ => item_parts(item).len() == 0,
        },
        item.text_at("type"@) != Some("message"@) ==> item_parts(item).len() == 0,
{
}

/// Every item of a response is streamed, in order: the events of an item follow those of the items
/// before it and stand before those of the items behind it.
pub proof fn every_item_is_streamed_in_order(
    response: JsonView,
    tokens: Option<Seq<Seq<char>>>,
    i: int,
)
    requires
        stream_events(response, tokens) is Ok,
        0 <= i < output_items(with_usage_details(response)).len(),
    ensures
        ({
            let events = stream_events(response, tokens)->Ok_0;
            let items = output_items(with_usage_details(response));
            let own = item_events(items[i], i, tokens, items_deltas(items, i as nat));
            let from = 2 + items_events(items, i as nat, tokens).len();
            &&& from + own.len() < events.len()
            &&& events.subrange(from as int, (from + own.len()) as int) =~= own
            &&& items_events(items, (i + 1) as nat, tokens).len() == items_events(
                items,
                i as nat,
                tokens,
            ).len() + own.len()
        }),
{
    let items = output_items(with_usage_details(response));
    lemma_items_prefix(items, (i + 1) as nat, items.len(), tokens);
    let events = stream_events(response, tokens)->Ok_0;
    let whole = items_events(items, items.len(), tokens);
    let before = items_events(items, i as nat, tokens);
    let upto = items_events(items, (i + 1) as nat, tokens);
    let own = item_events(items[i], i, tokens, items_deltas(items, i as nat));
    let from = 2 + before.len() as int;
    assert(upto =~= before + own);
    assert forall|k: int| 0 <= k < own.len() implies events[from + k] == own[k] by {
        assert(events[from + k] == whole[before.len() + k]);
        assert(whole.take(upto.len() as int)[before.len() + k] == upto[before.len() + k]);
    }
    assert(events.subrange(from, from + own.len()) =~= own);
}

proof fn lemma_items_prefix(
    items: Seq<JsonView>,
    n: nat,
    m: nat,
    tokens: Option<Seq<Seq<char>>>,
)
    requires
        n <= m,
    ensures
        items_events(items, n, tokens).len() <= items_events(items, m, tokens).len(),
        items_events(items, m, tokens).take(items_events(items, n, tokens).len() as int)
            =~= items_events(items, n, tokens),
    decreases m,
{
    if n < m {
        lemma_items_prefix(items, n, (m - 1) as nat, tokens);
    }
}

/// What is sent of an event is its kind and its body, with its kind and its number among the fields.
pub proof fn a_sent_event_names_its_kind_and_number(
    events: Seq<EventView>,
    i: int,
    key: Seq<char>,
)
    requires
        0 <= i < events.len(),
        events[i].1 is Object,
    ensures
        sent(events).len() == events.len(),
        exists|body: JsonView|
            {
                &&& #[trigger] crate::serde_value::json_text(body) == sent(events)[i].1
                &&& body.get("type"@) == Some(JsonView::Text(events[i].0))
                &&& body.get("sequence_number"@) == Some(number(i + 1))
                &&& key != "type"@ && key != "sequence_number"@ ==> body.get(key)
                    == events[i].1.get(key)
            },
        sent(events)[i].0 == events[i].0,
{
    broadcast use group_fields_read_back;

    lemma_sent_keys();
    let body = events[i].1.with("type"@, JsonView::Text(events[i].0)).with(
        "sequence_number"@,
        number(i + 1),
    );
    assert(crate::serde_value::json_text(body) == sent(events)[i].1);
}

proof fn lemma_event_kinds()
    ensures
        "response.output_text.delta"@ != "response.created"@,
        "response.output_text.delta"@ != "response.in_progress"@,
        "response.output_text.delta"@ != "response.output_item.added"@,
        "response.output_text.delta"@ != "response.output_item.done"@,
        "response.output_text.delta"@ != "response.content_part.added"@,
        "response.output_text.delta"@ != "response.content_part.done"@,
        "response.output_text.delta"@ != "response.output_text.done"@,
        "response.output_text.delta"@ != "response.refusal.delta"@,
        "response.output_text.delta"@ != "response.refusal.done"@,
        "response.output_text.delta"@ != "response.completed"@,
        "response.output_text.delta"@ != "response.incomplete"@,
        "response.output_text.delta"@ != "response.failed"@,
        "response.output_text.done"@ != "response.created"@,
        "response.output_text.done"@ != "response.in_progress"@,
        "response.output_text.done"@ != "response.output_item.added"@,
        "response.output_text.done"@ != "response.output_item.done"@,
        "response.output_text.done"@ != "response.content_part.added"@,
        "response.output_text.done"@ != "response.content_part.done"@,
        "response.output_text.done"@ != "response.refusal.delta"@,
        "response.output_text.done"@ != "response.refusal.done"@,
        "response.output_text.done"@ != "response.completed"@,
        "response.output_text.done"@ != "response.incomplete"@,
        "response.output_text.done"@ != "response.failed"@,
        "response.refusal.delta"@ != "response.created"@,
        "response.refusal.delta"@ != "response.in_progress"@,
        "response.refusal.delta"@ != "response.output_item.added"@,
        "response.refusal.delta"@ != "response.output_item.done"@,
        "response.refusal.delta"@ != "response.content_part.added"@,
        "response.refusal.delta"@ != "response.content_part.done"@,
        "response.refusal.delta"@ != "response.refusal.done"@,
        "response.refusal.delta"@ != "response.completed"@,
        "response.refusal.delta"@ != "response.incomplete"@,
        "response.refusal.delta"@ != "response.failed"@,
        "response.refusal.done"@ != "response.created"@,
        "response.refusal.done"@ != "response.in_progress"@,
        "response.refusal.done"@ != "response.output_item.added"@,
        "response.refusal.done"@ != "response.output_item.done"@,
        "response.refusal.done"@ != "response.content_part.added"@,
        "response.refusal.done"@ != "response.content_part.done"@,
        "response.refusal.done"@ != "response.completed"@,
        "response.refusal.done"@ != "response.incomplete"@,
        "response.refusal.done"@ != "response.failed"@,
{
    reveal_strlit("response.output_text.delta");
    assert("response.output_text.delta"@.len() == 26);
    reveal_strlit("response.output_text.done");
    assert("response.output_text.done"@.len() == 25);
    reveal_strlit("response.refusal.delta");
    assert("response.refusal.delta"@.len() == 22);
    reveal_strlit("response.refusal.done");
    assert("response.refusal.done"@.len() == 21);
    reveal_strlit("response.created");
    assert("response.created"@.len() == 16);
    reveal_strlit("response.in_progress");
    assert("response.in_progress"@.len() == 20);
    reveal_strlit("response.output_item.added");
    assert("response.output_item.added"@.len() == 26);
    reveal_strlit("response.output_item.done");
    assert("response.output_item.done"@.len() == 25);
    reveal_strlit("response.content_part.added");
    assert("response.content_part.added"@.len() == 27);
    reveal_strlit("response.content_part.done");
    assert("response.content_part.done"@.len() == 26);
    reveal_strlit("response.completed");
    assert("response.completed"@.len() == 18);
    reveal_strlit("response.incomplete");
    assert("response.incomplete"@.len() == 19);
    reveal_strlit("response.failed");
    assert("response.failed"@.len() == 15);
    assert("response.output_text.delta"@[16] != "response.output_item.added"@[16]);
    assert("response.output_text.delta"@[9] != "response.content_part.done"@[9]);
    assert("response.output_text.done"@[16] != "response.output_item.done"@[16]);
}

proof fn lemma_event_keys()
    ensures
        "item_id"@ != "output_index"@,
        "item_id"@ != "content_index"@,
        "item_id"@ != "delta"@,
        "item_id"@ != "logprobs"@,
        "item_id"@ != "obfuscation"@,
        "item_id"@ != "text"@,
        "item_id"@ != "refusal"@,
        "item_id"@ != "part"@,
        "item_id"@ != "item"@,
        "output_index"@ != "content_index"@,
        "output_index"@ != "delta"@,
        "output_index"@ != "logprobs"@,
        "output_index"@ != "obfuscation"@,
        "output_index"@ != "text"@,
        "output_index"@ != "refusal"@,
        "output_index"@ != "part"@,
        "output_index"@ != "item"@,
        "content_index"@ != "delta"@,
        "content_index"@ != "logprobs"@,
        "content_index"@ != "obfuscation"@,
        "content_index"@ != "text"@,
        "content_index"@ != "refusal"@,
        "content_index"@ != "part"@,
        "content_index"@ != "item"@,
        "delta"@ != "logprobs"@,
        "delta"@ != "obfuscation"@,
        "delta"@ != "text"@,
        "delta"@ != "refusal"@,
        "delta"@ != "part"@,
        "delta"@ != "item"@,
        "logprobs"@ != "obfuscation"@,
        "logprobs"@ != "text"@,
        "logprobs"@ != "refusal"@,
        "logprobs"@ != "part"@,
        "logprobs"@ != "item"@,
        "obfuscation"@ != "text"@,
        "obfuscation"@ != "refusal"@,
        "obfuscation"@ != "part"@,
        "obfuscation"@ != "item"@,
        "text"@ != "refusal"@,
        "text"@ != "part"@,
        "text"@ != "item"@,
        "refusal"@ != "part"@,
        "refusal"@ != "item"@,
        "part"@ != "item"@,
{
    reveal_strlit("item_id");
    reveal_strlit("output_index");
    reveal_strlit("content_index");
    reveal_strlit("delta");
    reveal_strlit("logprobs");
    reveal_strlit("obfuscation");
    reveal_strlit("text");
    reveal_strlit("refusal");
    reveal_strlit("part");
    reveal_strlit("item");
    assert("item_id"@.len() == 7);
    assert("output_index"@.len() == 12);
    assert("content_index"@.len() == 13);
    assert("delta"@.len() == 5);
    assert("logprobs"@.len() == 8);
    assert("obfuscation"@.len() == 11);
    assert("text"@.len() == 4);
    assert("refusal"@.len() == 7);
    assert("part"@.len() == 4);
    assert("item"@.len() == 4);
    assert("item_id"@[0] != "refusal"@[0]);
    assert("text"@[0] != "part"@[0]);
    assert("text"@[0] != "item"@[0]);
    assert("part"@[0] != "item"@[0]);
}

proof fn lemma_usage_keys()
    ensures
        "usage"@ != "status"@,
        "usage"@ != "output"@,
        "usage"@ != "input_tokens_details"@,
        "usage"@ != "output_tokens_details"@,
        "status"@ != "output"@,
        "status"@ != "input_tokens_details"@,
        "status"@ != "output_tokens_details"@,
        "output"@ != "input_tokens_details"@,
        "output"@ != "output_tokens_details"@,
        "input_tokens_details"@ != "output_tokens_details"@,
{
    reveal_strlit("usage");
    reveal_strlit("status");
    reveal_strlit("output");
    reveal_strlit("input_tokens_details");
    reveal_strlit("output_tokens_details");
    assert("usage"@.len() == 5);
    assert("status"@.len() == 6);
    assert("output"@.len() == 6);
    assert("input_tokens_details"@.len() == 20);
    assert("output_tokens_details"@.len() == 21);
    assert("status"@[0] != "output"@[0]);
}

proof fn lemma_initial_keys()
    ensures
        "status"@ != "output"@,
        "status"@ != "usage"@,
        "status"@ != "completed_at"@,
        "status"@ != "error"@,
        "status"@ != "incomplete_details"@,
        "status"@ != "response"@,
        "output"@ != "usage"@,
        "output"@ != "completed_at"@,
        "output"@ != "error"@,
        "output"@ != "incomplete_details"@,
        "output"@ != "response"@,
        "usage"@ != "completed_at"@,
        "usage"@ != "error"@,
        "usage"@ != "incomplete_details"@,
        "usage"@ != "response"@,
        "completed_at"@ != "error"@,
        "completed_at"@ != "incomplete_details"@,
        "completed_at"@ != "response"@,
        "error"@ != "incomplete_details"@,
        "error"@ != "response"@,
        "incomplete_details"@ != "response"@,
{
    reveal_strlit("status");
    reveal_strlit("output");
    reveal_strlit("usage");
    reveal_strlit("completed_at");
    reveal_strlit("error");
    reveal_strlit("incomplete_details");
    reveal_strlit("response");
    assert("status"@.len() == 6);
    assert("output"@.len() == 6);
    assert("usage"@.len() == 5);
    assert("completed_at"@.len() == 12);
    assert("error"@.len() == 5);
    assert("incomplete_details"@.len() == 18);
    assert("response"@.len() == 8);
    assert("status"@[0] != "output"@[0]);
    assert("usage"@[0] != "error"@[0]);
}

proof fn lemma_states()
    ensures
        "completed"@ != "incomplete"@,
        "completed"@ != "failed"@,
        "incomplete"@ != "failed"@,
{
    reveal_strlit("completed");
    reveal_strlit("incomplete");
    reveal_strlit("failed");
    assert("completed"@.len() == 9);
    assert("incomplete"@.len() == 10);
    assert("failed"@.len() == 6);
}

proof fn lemma_item_keys()
    ensures
        "status"@ != "content"@,
        "status"@ != "summary"@,
        "status"@ != "type"@,
        "content"@ != "summary"@,
        "content"@ != "type"@,
        "summary"@ != "type"@,
{
    reveal_strlit("status");
    reveal_strlit("content");
    reveal_strlit("summary");
    reveal_strlit("type");
    assert("status"@.len() == 6);
    assert("content"@.len() == 7);
    assert("summary"@.len() == 7);
    assert("type"@.len() == 4);
    assert("content"@[0] != "summary"@[0]);
}

proof fn lemma_item_types()
    ensures
        "message"@ != "reasoning"@,
{
    reveal_strlit("message");
    reveal_strlit("reasoning");
    assert("message"@.len() == 7);
    assert("reasoning"@.len() == 9);
}

proof fn lemma_part_types()
    ensures
        "output_text"@ != "refusal"@,
{
    reveal_strlit("output_text");
    reveal_strlit("refusal");
    assert("output_text"@.len() == 11);
    assert("refusal"@.len() == 7);
}

proof fn lemma_sent_keys()
    ensures
        "type"@ != "sequence_number"@,
{
    reveal_strlit("type");
    reveal_strlit("sequence_number");
    assert("type"@.len() == 4);
    assert("sequence_number"@.len() == 15);
}

} // verus!
