//! A finished message as a stream of server-sent events.

use vstd::prelude::*;
use vstd::string::*;
use crate::json::{Json, JsonView};
use crate::streaming::{
    event_views, is_framed, lemma_frame, list, number, plain_kinds, EventView, FrameView,
    StreamEvent,
};
use crate::{json, serde_value, text};

verus! {

/// Events, each as its kind and its compact JSON.
pub open spec fn rendered(events: Seq<EventView>) -> Seq<char>
    decreases events.len(),
{
    if events.len() == 0 {
        Seq::empty()
    } else {
        rendered(events.drop_last()) + "event: "@ + events.last().0 + "\ndata: "@
            + serde_value::json_text(events.last().1) + "\n\n"@
    }
}

/// What each event is sent as.
pub open spec fn sent(events: Seq<EventView>) -> Seq<FrameView> {
    Seq::new(events.len(), |i: int| (events[i].0, serde_value::json_text(events[i].1)))
}

/// An event whose body names its type.
pub open spec fn typed(kind: Seq<char>) -> JsonView {
    JsonView::empty().with("type"@, JsonView::Text(kind))
}

/// A message as it stood before there was any content.
pub open spec fn shell(message: JsonView) -> JsonView {
    let blank = message.with("content"@, list(Seq::empty())).with("stop_reason"@, JsonView::Null).with(
        "stop_sequence"@,
        JsonView::Null,
    );
    match blank.get("usage"@) {
        Some(JsonView::Object(usage)) => blank.with(
            "usage"@,
            JsonView::Object(usage).with("output_tokens"@, number(0)),
        ),
        _ => blank,
    }
}

/// The text of a field, where it has one.
pub open spec fn text_or_empty(value: JsonView, key: Seq<char>) -> JsonView {
    JsonView::Text(
        match value.text_at(key) {
            Some(s) => s,
            None => ""@,
        },
    )
}

pub open spec fn field_or(value: JsonView, key: Seq<char>, other: JsonView) -> JsonView {
    match value.get(key) {
        Some(found) => found,
        None => other,
    }
}

/// A block as it stood before it had any content.
pub open spec fn started_block(block: JsonView) -> JsonView {
    let kind = block.text_at("type"@);
    if kind == Some("text"@) {
        typed("text"@).with("text"@, JsonView::Text(""@))
    } else if kind == Some("thinking"@) {
        typed("thinking"@).with("thinking"@, JsonView::Text(""@))
    } else if kind == Some("tool_use"@) {
        typed("tool_use"@).with("id"@, field_or(block, "id"@, JsonView::Null)).with(
            "name"@,
            field_or(block, "name"@, JsonView::Null),
        ).with("input"@, JsonView::empty())
    } else {
        block
    }
}

/// The pieces in which the content of a block arrives.
pub open spec fn block_deltas(block: JsonView) -> Seq<JsonView> {
    let kind = block.text_at("type"@);
    if kind == Some("text"@) {
        seq![typed("text_delta"@).with("text"@, text_or_empty(block, "text"@))]
    } else if kind == Some("thinking"@) {
        let thought = typed("thinking_delta"@).with(
            "thinking"@,
            text_or_empty(block, "thinking"@),
        );
        match block.text_at("signature"@) {
            Some(signature) => seq![
                thought,
                typed("signature_delta"@).with("signature"@, JsonView::Text(signature)),
            ],
            None => seq![thought],
        }
    } else if kind == Some("tool_use"@) {
        seq![
            typed("input_json_delta"@).with(
                "partial_json"@,
                JsonView::Text(
                    serde_value::json_text(field_or(block, "input"@, JsonView::empty())),
                ),
            ),
        ]
    } else {
        Seq::empty()
    }
}

pub open spec fn at_index(kind: Seq<char>, index: int) -> JsonView {
    typed(kind).with("index"@, number(index))
}

pub open spec fn delta_events(deltas: Seq<JsonView>, index: int) -> Seq<EventView> {
    Seq::new(
        deltas.len(),
        |i: int|
            (
                "content_block_delta"@,
                at_index("content_block_delta"@, index).with("delta"@, deltas[i]),
            ),
    )
}

pub open spec fn block_events(block: JsonView, index: int) -> Seq<EventView> {
    seq![
        (
            "content_block_start"@,
            at_index("content_block_start"@, index).with("content_block"@, started_block(block)),
        ),
    ] + delta_events(block_deltas(block), index) + seq![
        ("content_block_stop"@, at_index("content_block_stop"@, index)),
    ]
}

pub open spec fn blocks_events(blocks: Seq<JsonView>) -> Seq<EventView>
    decreases blocks.len(),
{
    if blocks.len() == 0 {
        Seq::empty()
    } else {
        blocks_events(blocks.drop_last()) + block_events(blocks.last(), blocks.len() - 1)
    }
}

/// The blocks of a message.
pub open spec fn blocks_of(message: JsonView) -> Seq<JsonView> {
    match message.get("content"@) {
        Some(JsonView::Array(blocks)) => blocks,
        _ => Seq::empty(),
    }
}

/// How many tokens a message cost, by its usage.
pub open spec fn output_tokens(message: JsonView) -> JsonView {
    match message.get("usage"@) {
        Some(usage) => field_or(usage, "output_tokens"@, number(0)),
        None => number(0),
    }
}

pub open spec fn ending(message: JsonView) -> JsonView {
    typed("message_delta"@).with(
        "delta"@,
        JsonView::empty().with("stop_reason"@, field_or(message, "stop_reason"@, JsonView::Null)).with(
            "stop_sequence"@,
            field_or(message, "stop_sequence"@, JsonView::Null),
        ),
    ).with("usage"@, JsonView::empty().with("output_tokens"@, output_tokens(message)))
}

/// The events of a message, in order.
pub open spec fn message_events(message: JsonView) -> Seq<EventView> {
    seq![("message_start"@, typed("message_start"@).with("message"@, shell(message)))]
        + blocks_events(blocks_of(message)) + seq![
        ("message_delta"@, ending(message)),
        ("message_stop"@, typed("message_stop"@)),
    ]
}

fn typed_body(kind: &str) -> (r: Json)
    ensures
        r@ == typed(kind@),
{
    Json::object().having("type", Json::text(kind))
}

fn push_event(events: &mut Vec<StreamEvent>, kind: &'static str, body: Json)
    ensures
        event_views(final(events)@) == event_views(old(events)@).push((kind@, body@)),
{
    let ghost before = event_views(events@);
    events.push(StreamEvent { kind, body });
    assert(event_views(events@) =~= before.push((kind@, body@)));
}

fn message_shell(message: &Json) -> (r: Json)
    ensures
        r@ == shell(message@),
{
    assert(json::views(Seq::<Json>::empty()) =~= Seq::empty());
    let blank = message.clone().having("content", Json::array(Vec::new())).having(
        "stop_reason",
        Json::Null,
    ).having("stop_sequence", Json::Null);
    let usage = match blank.get("usage") {
        Some(usage) => {
            if !usage.is_object() {
                return blank;
            }
            usage.clone()
        },
        None => {
            return blank;
        },
    };
    blank.having("usage", usage.having("output_tokens", Json::unsigned(0)))
}

fn text_value(value: &Json, key: &str) -> (r: Json)
    ensures
        r@ == text_or_empty(value@, key@),
{
    match value.text_at(key) {
        Some(s) => Json::text(s),
        None => Json::text(""),
    }
}

fn value_or(value: &Json, key: &str, other: Json) -> (r: Json)
    ensures
        r@ == field_or(value@, key@, other@),
{
    match value.get(key) {
        Some(found) => found.clone(),
        None => other,
    }
}

fn is_kind(block: &Json, kind: &str) -> (r: bool)
    ensures
        r == (block@.text_at("type"@) == Some(kind@)),
{
    match block.text_at("type") {
        Some(found) => text::same_text(found, kind),
        None => false,
    }
}

fn start_block(block: &Json) -> (r: Json)
    ensures
        r@ == started_block(block@),
{
    if is_kind(block, "text") {
        typed_body("text").having("text", Json::text(""))
    } else if is_kind(block, "thinking") {
        typed_body("thinking").having("thinking", Json::text(""))
    } else if is_kind(block, "tool_use") {
        typed_body("tool_use").having("id", value_or(block, "id", Json::Null)).having(
            "name",
            value_or(block, "name", Json::Null),
        ).having("input", Json::object())
    } else {
        block.clone()
    }
}

fn deltas_of(block: &Json) -> (r: Vec<Json>)
    ensures
        json::views(r@) == block_deltas(block@),
{
    let mut r: Vec<Json> = Vec::new();
    if is_kind(block, "text") {
        r.push(typed_body("text_delta").having("text", text_value(block, "text")));
    } else if is_kind(block, "thinking") {
        r.push(typed_body("thinking_delta").having("thinking", text_value(block, "thinking")));
        if let Some(signature) = block.text_at("signature") {
            r.push(typed_body("signature_delta").having("signature", Json::text(signature)));
        }
    } else if is_kind(block, "tool_use") {
        let input = value_or(block, "input", Json::object());
        r.push(
            typed_body("input_json_delta").having(
                "partial_json",
                Json::Text(serde_value::print(&input)),
            ),
        );
    }
    assert(json::views(r@) =~= block_deltas(block@));
    r
}

fn index_body(kind: &str, index: usize) -> (r: Json)
    ensures
        r@ == at_index(kind@, index as int),
{
    typed_body(kind).having("index", Json::unsigned(index as u64))
}

fn push_block(events: &mut Vec<StreamEvent>, block: &Json, index: usize)
    ensures
        event_views(final(events)@) == event_views(old(events)@) + block_events(
            block@,
            index as int,
        ),
{
    let ghost before = event_views(events@);
    let start = index_body("content_block_start", index).having("content_block", start_block(block));
    push_event(events, "content_block_start", start);
    let ghost opened = event_views(events@);
    let deltas = deltas_of(block);
    let ghost all = block_deltas(block@);
    let ghost wanted = delta_events(all, index as int);
    let mut i: usize = 0;
    assert(opened + wanted.take(0) =~= opened);
    while i < deltas.len()
        invariant
            json::views(deltas@) == all,
            wanted == delta_events(all, index as int),
            i <= deltas@.len(),
            event_views(events@) == opened + wanted.take(i as int),
        decreases deltas@.len() - i,
    {
        assert(all[i as int] == deltas@[i as int]@);
        let body = index_body("content_block_delta", index).having("delta", deltas[i].clone());
        push_event(events, "content_block_delta", body);
        i += 1;
        assert(event_views(events@) =~= opened + wanted.take(i as int));
    }
    assert(wanted.take(i as int) =~= wanted);
    push_event(events, "content_block_stop", index_body("content_block_stop", index));
    assert(event_views(events@) =~= before + block_events(block@, index as int));
}

proof fn lemma_kinds_are_lines()
    ensures
        text::one_line("message_start"@),
        text::one_line("content_block_start"@),
        text::one_line("content_block_delta"@),
        text::one_line("content_block_stop"@),
        text::one_line("message_delta"@),
        text::one_line("message_stop"@),
{
    reveal_strlit("message_start");
    reveal_strlit("content_block_start");
    reveal_strlit("content_block_delta");
    reveal_strlit("content_block_stop");
    reveal_strlit("message_delta");
    reveal_strlit("message_stop");
}

proof fn lemma_blocks_kinds(blocks: Seq<JsonView>)
    ensures
        plain_kinds(blocks_events(blocks)),
    decreases blocks.len(),
{
    lemma_kinds_are_lines();
    if blocks.len() > 0 {
        lemma_blocks_kinds(blocks.drop_last());
    }
}

/// The events of a message are of kinds that break no line.
pub proof fn lemma_message_kinds(message: JsonView)
    ensures
        plain_kinds(message_events(message)),
{
    lemma_kinds_are_lines();
    lemma_blocks_kinds(blocks_of(message));
}

fn render(events: &Vec<StreamEvent>) -> (r: String)
    requires
        plain_kinds(event_views(events@)),
    ensures
        r@ == rendered(event_views(events@)),
        is_framed(r@, sent(event_views(events@))),
{
    let ghost views = event_views(events@);
    let mut r = String::new();
    let mut i: usize = 0;
    assert(sent(views.take(0)) =~= Seq::empty());
    while i < events.len()
        invariant
            views == event_views(events@),
            plain_kinds(views),
            i <= events@.len(),
            r@ == rendered(views.take(i as int)),
            r@.len() > 0 ==> r@.last() == '\n',
            is_framed(r@, sent(views.take(i as int))),
        decreases events@.len() - i,
    {
        let ghost before = r@;
        r.append("event: ");
        r.append(events[i].kind);
        r.append("\ndata: ");
        let written = serde_value::print(&events[i].body);
        r.append(written.as_str());
        r.append("\n\n");
        proof {
            assert(text::one_line(views[i as int].0));
            lemma_frame(before, views[i as int].0, written@);
            let frames = sent(views.take(i + 1));
            assert(frames.drop_last() =~= sent(views.take(i as int)));
            assert(frames.last() == (views[i as int].0, written@));
            assert forall|k: int| 0 <= k < frames.len() implies text::one_line(
                (#[trigger] frames[k]).0,
            ) && text::one_line(frames[k].1) by {
                if k < i {
                    assert(frames[k] == frames.drop_last()[k]);
                }
            }
        }
        i += 1;
        assert(views.take(i as int).drop_last() =~= views.take(i - 1));
        assert(views.take(i as int).last() == views[i - 1]);
    }
    assert(views.take(i as int) =~= views);
    r
}

/// Encodes a finished message as events. Every event is one frame.
pub fn encode_managed_streaming_response(message: &Json) -> (r: Vec<u8>)
    requires
        message@ is Object,
    ensures
        r@ == vstd::utf8::encode_utf8(rendered(message_events(message@))),
        is_framed(rendered(message_events(message@)), sent(message_events(message@))),
{
    let mut events: Vec<StreamEvent> = Vec::new();
    assert(event_views(events@) =~= Seq::empty());
    push_event(
        &mut events,
        "message_start",
        typed_body("message_start").having("message", message_shell(message)),
    );
    let ghost opened = event_views(events@);
    let ghost blocks = blocks_of(message@);
    let found = match message.get("content") {
        Some(content) => content.as_array(),
        None => None,
    };
    if let Some(list) = found {
        let mut i: usize = 0;
        assert(opened + blocks_events(blocks.take(0)) =~= opened);
        while i < list.len()
            invariant
                blocks == json::views(list@),
                i <= list@.len(),
                event_views(events@) == opened + blocks_events(blocks.take(i as int)),
            decreases list@.len() - i,
        {
            assert(blocks.take(i + 1).drop_last() =~= blocks.take(i as int));
            assert(blocks.take(i + 1).last() == list@[i as int]@);
            push_block(&mut events, &list[i], i);
            i += 1;
            assert(event_views(events@) =~= opened + blocks_events(blocks.take(i as int)));
        }
        assert(blocks.take(i as int) =~= blocks);
    }
    assert(event_views(events@) =~= opened + blocks_events(blocks));
    let delta = Json::object().having("stop_reason", value_or(message, "stop_reason", Json::Null)).having(
        "stop_sequence",
        value_or(message, "stop_sequence", Json::Null),
    );
    let tokens = match message.get("usage") {
        Some(usage) => value_or(usage, "output_tokens", Json::unsigned(0)),
        None => Json::unsigned(0),
    };
    let end = typed_body("message_delta").having("delta", delta).having(
        "usage",
        Json::object().having("output_tokens", tokens),
    );
    push_event(&mut events, "message_delta", end);
    push_event(&mut events, "message_stop", typed_body("message_stop"));
    assert(event_views(events@) =~= message_events(message@));
    proof {
        lemma_message_kinds(message@);
    }
    render(&events).as_str().as_bytes_vec()
}

/// Writes a finished message as JSON.
pub fn serialize_managed_response(message: &Json) -> (r: Vec<u8>)
    ensures
        r@ == vstd::utf8::encode_utf8(serde_value::json_text(message@)),
{
    serde_value::print(message).as_str().as_bytes_vec()
}

} // verus!
