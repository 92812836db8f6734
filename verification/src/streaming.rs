//! A finished response as a stream of server-sent events.
//!
//! Managed execution buffers model rounds so that intermediate calls and reserved tool names never
//! reach the client. The final response is then emitted as one valid event stream.

use vstd::prelude::*;
use vstd::string::*;
use rand::RngExt;
use crate::error::joined;
use crate::json::{Json, JsonView, NumberView};
use crate::{json, serde_value, text};

verus! {

/// One event before it is numbered.
pub struct StreamEvent {
    pub kind: &'static str,
    pub body: Json,
}

/// The kind and the body of an event.
pub type EventView = (Seq<char>, JsonView);

pub open spec fn event_views(events: Seq<StreamEvent>) -> Seq<EventView> {
    Seq::new(events.len(), |i: int| (events[i].kind@, events[i].body@))
}

pub open spec fn number(n: int) -> JsonView {
    JsonView::Number(NumberView::Unsigned(n as u64))
}

pub open spec fn list(items: Seq<JsonView>) -> JsonView {
    JsonView::Array(items)
}

/// Numbered events from 1 on, each as its kind and its compact JSON.
pub open spec fn rendered(events: Seq<EventView>) -> Seq<char>
    decreases events.len(),
{
    if events.len() == 0 {
        Seq::empty()
    } else {
        rendered(events.drop_last()) + "event: "@ + events.last().0 + "\ndata: "@
            + serde_value::json_text(
            events.last().1.with("type"@, JsonView::Text(events.last().0)).with(
                "sequence_number"@,
                number(events.len() as int),
            ),
        ) + "\n\n"@
    }
}

/// The kind of an event and the text that it carries.
pub type FrameView = (Seq<char>, Seq<char>);

/// The lines of a stream: each event is one frame of a line for its kind, a line for its text and
/// an empty line.
pub open spec fn frame_lines(frames: Seq<FrameView>) -> Seq<Seq<char>>
    decreases frames.len(),
{
    if frames.len() == 0 {
        Seq::empty()
    } else {
        frame_lines(frames.drop_last()) + seq![
            "event: "@ + frames.last().0,
            "data: "@ + frames.last().1,
            Seq::empty(),
        ]
    }
}

/// Whether neither the kind nor the text of any event breaks a line.
pub open spec fn unbroken(frames: Seq<FrameView>) -> bool {
    forall|i: int|
        0 <= i < frames.len() ==> text::one_line((#[trigger] frames[i]).0) && text::one_line(
            frames[i].1,
        )
}

/// Whether a text is the given frames, one after the other, and nothing else.
pub open spec fn is_framed(s: Seq<char>, frames: Seq<FrameView>) -> bool {
    unbroken(frames) && text::lines(s) == frame_lines(frames)
}

/// What each of the numbered events is sent as.
pub open spec fn sent(events: Seq<EventView>) -> Seq<FrameView> {
    Seq::new(
        events.len(),
        |i: int|
            (
                events[i].0,
                serde_value::json_text(
                    events[i].1.with("type"@, JsonView::Text(events[i].0)).with(
                        "sequence_number"@,
                        number(i + 1),
                    ),
                ),
            ),
    )
}

/// Whether the kinds of events break no line.
pub open spec fn plain_kinds(events: Seq<EventView>) -> bool {
    forall|i: int| 0 <= i < events.len() ==> text::one_line((#[trigger] events[i]).0)
}

/// One more event is one more frame.
pub proof fn lemma_frame(before: Seq<char>, kind: Seq<char>, data: Seq<char>)
    requires
        before.len() > 0 ==> before.last() == '\n',
        text::one_line(kind),
        text::one_line(data),
    ensures
        ({
            let s = before + "event: "@ + kind + "\ndata: "@ + data + "\n\n"@;
            &&& s.last() == '\n'
            &&& text::lines(s) == text::lines(before) + seq![
                "event: "@ + kind,
                "data: "@ + data,
                Seq::empty(),
            ]
        }),
{
    reveal_strlit("event: ");
    reveal_strlit("data: ");
    reveal_strlit("\ndata: ");
    reveal_strlit("\n");
    reveal_strlit("\n\n");
    let first = "event: "@ + kind;
    let second = "data: "@ + data;
    let none = Seq::<char>::empty();
    let tail = first + "\n"@ + (second + "\n"@ + (none + "\n"@ + none));
    let s = before + "event: "@ + kind + "\ndata: "@ + data + "\n\n"@;
    assert("\ndata: "@ =~= "\n"@ + "data: "@);
    assert("\n\n"@ =~= "\n"@ + "\n"@);
    assert(s =~= before + tail);
    assert(text::one_line(first));
    assert(text::one_line(second));
    text::lemma_lines_concat(before, tail);
    text::lemma_line_first(first, second + "\n"@ + (none + "\n"@ + none));
    text::lemma_line_first(second, none + "\n"@ + none);
    text::lemma_line_first(none, none);
    assert(text::lines(none) =~= Seq::empty());
    assert(text::lines(tail) =~= seq![first, second, none]);
}

/// An object in which `key` has a value, the given one where it had none.
pub open spec fn defaulted(value: JsonView, key: Seq<char>, default: JsonView) -> JsonView {
    if value.get(key) is Some {
        value
    } else {
        value.with(key, default)
    }
}

/// A response whose usage names its details.
pub open spec fn with_usage_details(response: JsonView) -> JsonView {
    match response.get("usage"@) {
        Some(JsonView::Object(fields)) => response.with(
            "usage"@,
            defaulted(
                defaulted(
                    JsonView::Object(fields),
                    "input_tokens_details"@,
                    JsonView::empty().with("cached_tokens"@, number(0)),
                ),
                "output_tokens_details"@,
                JsonView::empty().with("reasoning_tokens"@, number(0)),
            ),
        ),
        _ => response,
    }
}

/// A response as it stood before there was any output.
pub open spec fn initial(response: JsonView) -> JsonView {
    response.put("status"@, JsonView::Text("in_progress"@)).with("output"@, list(Seq::empty())).with(
        "usage"@,
        JsonView::Null,
    ).with("completed_at"@, JsonView::Null).with("error"@, JsonView::Null).with(
        "incomplete_details"@,
        JsonView::Null,
    )
}

/// The items of the output of a response.
pub open spec fn output_items(response: JsonView) -> Seq<JsonView> {
    match response.get("output"@) {
        Some(JsonView::Array(items)) => items,
        _ => Seq::empty(),
    }
}

pub open spec fn is_message(item: JsonView) -> bool {
    item.text_at("type"@) == Some("message"@)
}

/// The parts of a message item; other items have none.
pub open spec fn item_parts(item: JsonView) -> Seq<JsonView> {
    match item.get("content"@) {
        Some(JsonView::Array(parts)) => if is_message(item) {
            parts
        } else {
            Seq::empty()
        },
        _ => Seq::empty(),
    }
}

/// An item as it stood before it had any content.
pub open spec fn added_item(item: JsonView) -> JsonView {
    let started = item.put("status"@, JsonView::Text("in_progress"@));
    if is_message(item) {
        started.with("content"@, list(Seq::empty()))
    } else if started.text_at("type"@) == Some("reasoning"@) {
        let summarised = if started.get("summary"@) is Some {
            started.with("summary"@, list(Seq::empty()))
        } else {
            started
        };
        if summarised.get("content"@) is Some {
            summarised.with("content"@, list(Seq::empty()))
        } else {
            summarised
        }
    } else {
        started
    }
}

/// A part as it stood before it had any text.
pub open spec fn added_part(part: JsonView) -> JsonView {
    if part.text_at("type"@) == Some("output_text"@) {
        part.with("text"@, JsonView::Text(""@))
    } else if part.text_at("type"@) == Some("refusal"@) {
        part.with("refusal"@, JsonView::Text(""@))
    } else {
        part
    }
}

/// Where an event belongs: its item and the place of the part in it.
pub open spec fn place(id: Seq<char>, output_index: int, content_index: int) -> JsonView {
    JsonView::empty().with("item_id"@, JsonView::Text(id)).with(
        "output_index"@,
        number(output_index),
    ).with("content_index"@, number(content_index))
}

pub open spec fn logprobs(part: JsonView) -> JsonView {
    match part.get("logprobs"@) {
        Some(found) => found,
        None => JsonView::Null,
    }
}

/// How many of the events of a part carry a piece of text.
pub open spec fn part_deltas(part: JsonView) -> nat {
    if part.text_at("text"@) is Some || part.text_at("refusal"@) is Some {
        1
    } else {
        0
    }
}

pub open spec fn parts_deltas(parts: Seq<JsonView>, n: nat) -> nat
    decreases n,
{
    if n == 0 {
        0
    } else {
        parts_deltas(parts, (n - 1) as nat) + part_deltas(parts[n - 1])
    }
}

pub open spec fn items_deltas(items: Seq<JsonView>, n: nat) -> nat
    decreases n,
{
    if n == 0 {
        0
    } else {
        items_deltas(items, (n - 1) as nat) + parts_deltas(
            item_parts(items[n - 1]),
            item_parts(items[n - 1]).len(),
        )
    }
}

/// How many events of a response carry a piece of text.
pub open spec fn deltas(response: JsonView) -> nat {
    items_deltas(output_items(response), output_items(response).len())
}

/// A piece of text with its padding, where there is padding.
pub open spec fn padded(body: JsonView, tokens: Option<Seq<Seq<char>>>, at: nat) -> JsonView {
    match tokens {
        Some(tokens) => body.with("obfuscation"@, JsonView::Text(tokens[at as int])),
        None => body,
    }
}

pub open spec fn part_events(
    part: JsonView,
    id: Seq<char>,
    output_index: int,
    content_index: int,
    tokens: Option<Seq<Seq<char>>>,
    at: nat,
) -> Seq<EventView> {
    let here = place(id, output_index, content_index);
    let text_events = if let Some(s) = part.text_at("text"@) {
        seq![
            (
                "response.output_text.delta"@,
                padded(
                    here.with("delta"@, JsonView::Text(s)).with("logprobs"@, logprobs(part)),
                    tokens,
                    at,
                ),
            ),
            (
                "response.output_text.done"@,
                here.with("text"@, JsonView::Text(s)).with("logprobs"@, logprobs(part)),
            ),
        ]
    } else if let Some(s) = part.text_at("refusal"@) {
        seq![
            (
                "response.refusal.delta"@,
                padded(here.with("delta"@, JsonView::Text(s)), tokens, at),
            ),
            ("response.refusal.done"@, here.with("refusal"@, JsonView::Text(s))),
        ]
    } else {
        Seq::empty()
    };
    seq![("response.content_part.added"@, here.with("part"@, added_part(part)))] + text_events
        + seq![("response.content_part.done"@, here.with("part"@, part))]
}

pub open spec fn parts_events(
    parts: Seq<JsonView>,
    n: nat,
    id: Seq<char>,
    output_index: int,
    tokens: Option<Seq<Seq<char>>>,
    at: nat,
) -> Seq<EventView>
    decreases n,
{
    if n == 0 {
        Seq::empty()
    } else {
        parts_events(parts, (n - 1) as nat, id, output_index, tokens, at) + part_events(
            parts[n - 1],
            id,
            output_index,
            n - 1,
            tokens,
            at + parts_deltas(parts, (n - 1) as nat),
        )
    }
}

pub open spec fn item_id(item: JsonView) -> Seq<char> {
    match item.text_at("id"@) {
        Some(id) => id,
        None => ""@,
    }
}

pub open spec fn item_place(output_index: int, item: JsonView) -> JsonView {
    JsonView::empty().with("output_index"@, number(output_index)).with("item"@, item)
}

pub open spec fn item_events(
    item: JsonView,
    output_index: int,
    tokens: Option<Seq<Seq<char>>>,
    at: nat,
) -> Seq<EventView> {
    seq![("response.output_item.added"@, item_place(output_index, added_item(item)))]
        + parts_events(
        item_parts(item),
        item_parts(item).len(),
        item_id(item),
        output_index,
        tokens,
        at,
    ) + seq![("response.output_item.done"@, item_place(output_index, item))]
}

pub open spec fn items_events(
    items: Seq<JsonView>,
    n: nat,
    tokens: Option<Seq<Seq<char>>>,
) -> Seq<EventView>
    decreases n,
{
    if n == 0 {
        Seq::empty()
    } else {
        items_events(items, (n - 1) as nat, tokens) + item_events(
            items[n - 1],
            n - 1,
            tokens,
            items_deltas(items, (n - 1) as nat),
        )
    }
}

/// The kind of the event that ends the stream.
pub open spec fn terminal_kind(response: JsonView) -> Result<Seq<char>, Seq<char>> {
    match response.text_at("status"@) {
        None => Err("missing terminal Responses status"@),
        Some(status) => if status == "completed"@ {
            Ok("response.completed"@)
        } else if status == "incomplete"@ {
            Ok("response.incomplete"@)
        } else if status == "failed"@ {
            Ok("response.failed"@)
        } else {
            Err("unsupported terminal Responses status "@ + status)
        },
    }
}

pub open spec fn response_body(response: JsonView) -> JsonView {
    JsonView::empty().with("response"@, response)
}

/// The events of a response, in order.
pub open spec fn stream_events(response: JsonView, tokens: Option<Seq<Seq<char>>>) -> Result<
    Seq<EventView>,
    Seq<char>,
> {
    let full = with_usage_details(response);
    match terminal_kind(full) {
        Ok(kind) => Ok(
            seq![
                ("response.created"@, response_body(initial(full))),
                ("response.in_progress"@, response_body(initial(full))),
            ] + items_events(output_items(full), output_items(full).len(), tokens) + seq![
                (kind, response_body(full)),
            ],
        ),
        Err(why) => Err(why),
    }
}

/// The text of the stream.
pub open spec fn stream_text(response: JsonView, tokens: Option<Seq<Seq<char>>>) -> Result<
    Seq<char>,
    Seq<char>,
> {
    match stream_events(response, tokens) {
        Ok(events) => Ok(rendered(events)),
        Err(why) => Err(why),
    }
}

/// Whether the text of the stream is its events, each of them one frame, and nothing else.
pub open spec fn is_stream(response: JsonView, tokens: Option<Seq<Seq<char>>>) -> bool {
    match stream_events(response, tokens) {
        Ok(events) => is_framed(rendered(events), sent(events)),
        Err(why) => false,
    }
}

/// Whether a value can be given fields: an object, or the null value, which becomes one.
pub open spec fn open_to_fields(value: JsonView) -> bool {
    value is Object || value is Null
}

/// A response whose every output item can be given fields.
pub open spec fn streamable(response: JsonView) -> bool {
    &&& open_to_fields(response)
    &&& forall|i: int|
        0 <= i < output_items(response).len() ==> open_to_fields(
            #[trigger] output_items(response)[i],
        )
}

/// Whether every output item of a response can be given fields.
pub fn is_streamable(response: &Json) -> (r: bool)
    ensures
        r == streamable(response@),
{
    if !(response.is_object() || response.is_null()) {
        return false;
    }
    let found = match response.get("output") {
        Some(output) => output.as_array(),
        None => None,
    };
    if let Some(list) = found {
        let ghost items = output_items(response@);
        let mut i: usize = 0;
        while i < list.len()
            invariant
                items == json::views(list@),
                items == output_items(response@),
                i <= list@.len(),
                forall|k: int| 0 <= k < i ==> open_to_fields(#[trigger] items[k]),
            decreases list@.len() - i,
        {
            assert(items[i as int] == list@[i as int]@);
            if !(list[i].is_object() || list[i].is_null()) {
                return false;
            }
            i += 1;
        }
    }
    true
}

pub open spec fn token_views(tokens: Option<Vec<String>>) -> Option<Seq<Seq<char>>> {
    match tokens {
        Some(tokens) => Some(text::strings(tokens@)),
        None => None,
    }
}

fn text_is(found: Option<&str>, wanted: &str) -> (r: bool)
    ensures
        r == (match found {
            Some(s) => s@ == wanted@,
            None => false,
        }),
{
    match found {
        Some(s) => text::same_text(s, wanted),
        None => false,
    }
}

fn push_event(events: &mut Vec<StreamEvent>, kind: &'static str, body: Json)
    ensures
        event_views(final(events)@) == event_views(old(events)@).push((kind@, body@)),
        final(events)@.len() == old(events)@.len() + 1,
{
    let ghost before = events@;
    events.push(StreamEvent { kind, body });
    assert(event_views(events@) =~= event_views(before).push((kind@, body@)));
}

fn message_item(item: &Json) -> (r: bool)
    ensures
        r == is_message(item@),
{
    text_is(item.text_at("type"), "message")
}

fn start_item(item: &Json) -> (r: Json)
    ensures
        r@ == added_item(item@),
{
    let mut started = item.clone();
    started.put("status", Json::text("in_progress"));
    if message_item(item) {
        started.set("content", Json::array(Vec::new()));
        assert(json::views(Seq::<Json>::empty()) =~= Seq::empty());
    } else if text_is(started.text_at("type"), "reasoning") {
        assert(json::views(Seq::<Json>::empty()) =~= Seq::empty());
        if started.get("summary").is_some() {
            started.set("summary", Json::array(Vec::new()));
        }
        if started.get("content").is_some() {
            started.set("content", Json::array(Vec::new()));
        }
    }
    started
}

fn start_part(part: &Json) -> (r: Json)
    ensures
        r@ == added_part(part@),
{
    let mut started = part.clone();
    if text_is(part.text_at("type"), "output_text") {
        started.set("text", Json::text(""));
    } else if text_is(part.text_at("type"), "refusal") {
        started.set("refusal", Json::text(""));
    }
    started
}

fn part_place(id: &str, output_index: usize, content_index: usize) -> (r: Json)
    ensures
        r@ == place(id@, output_index as int, content_index as int),
{
    let mut r = Json::object();
    r.set("item_id", Json::text(id));
    r.set("output_index", Json::unsigned(output_index as u64));
    r.set("content_index", Json::unsigned(content_index as u64));
    r
}

fn part_logprobs(part: &Json) -> (r: Json)
    ensures
        r@ == logprobs(part@),
{
    match part.get("logprobs") {
        Some(found) => found.clone(),
        None => Json::Null,
    }
}

fn pad(body: Json, tokens: &Option<Vec<String>>, at: usize) -> (r: Json)
    requires
        tokens is Some ==> at < tokens->0@.len(),
    ensures
        r@ == padded(body@, token_views(*tokens), at as nat),
{
    match tokens {
        Some(list) => body.having("obfuscation", Json::text(list[at].as_str())),
        None => body,
    }
}

fn push_part(
    events: &mut Vec<StreamEvent>,
    part: &Json,
    id: &str,
    output_index: usize,
    content_index: usize,
    tokens: &Option<Vec<String>>,
    at: usize,
)
    requires
        tokens is Some ==> at + part_deltas(part@) <= tokens->0@.len(),
    ensures
        event_views(final(events)@) == event_views(old(events)@) + part_events(
            part@,
            id@,
            output_index as int,
            content_index as int,
            token_views(*tokens),
            at as nat,
        ),
        final(events)@.len() >= old(events)@.len() + part_deltas(part@),
{
    let ghost before = event_views(events@);
    let started = part_place(id, output_index, content_index).having("part", start_part(part));
    push_event(events, "response.content_part.added", started);
    match part.text_at("text") {
        Some(s) => {
            let delta = part_place(id, output_index, content_index).having(
                "delta",
                Json::text(s),
            ).having("logprobs", part_logprobs(part));
            push_event(events, "response.output_text.delta", pad(delta, tokens, at));
            let done = part_place(id, output_index, content_index).having(
                "text",
                Json::text(s),
            ).having("logprobs", part_logprobs(part));
            push_event(events, "response.output_text.done", done);
        },
        None => {
            if let Some(s) = part.text_at("refusal") {
                let delta = part_place(id, output_index, content_index).having(
                    "delta",
                    Json::text(s),
                );
                push_event(events, "response.refusal.delta", pad(delta, tokens, at));
                let done = part_place(id, output_index, content_index).having(
                    "refusal",
                    Json::text(s),
                );
                push_event(events, "response.refusal.done", done);
            }
        },
    }
    let finished = part_place(id, output_index, content_index).having("part", part.clone());
    push_event(events, "response.content_part.done", finished);
    assert(event_views(events@) =~= before + part_events(
        part@,
        id@,
        output_index as int,
        content_index as int,
        token_views(*tokens),
        at as nat,
    ));
}

fn delta_of(part: &Json) -> (r: usize)
    ensures
        r == part_deltas(part@),
{
    if part.text_at("text").is_some() || part.text_at("refusal").is_some() {
        1
    } else {
        0
    }
}

/// The parts of a message item; other items have none.
fn parts_of(item: &Json) -> (r: Option<&Vec<Json>>)
    ensures
        match r {
            Some(parts) => json::views(parts@) == item_parts(item@),
            None => item_parts(item@).len() == 0,
        },
{
    if !message_item(item) {
        return None;
    }
    match item.get("content") {
        Some(content) => content.as_array(),
        None => None,
    }
}

fn item_object(output_index: usize, item: Json) -> (r: Json)
    ensures
        r@ == item_place(output_index as int, item@),
{
    let mut r = Json::object();
    r.set("output_index", Json::unsigned(output_index as u64));
    r.set("item", item);
    r
}

fn push_item(
    events: &mut Vec<StreamEvent>,
    item: &Json,
    output_index: usize,
    tokens: &Option<Vec<String>>,
    at: usize,
) -> (next: usize)
    requires
        tokens is Some ==> at + parts_deltas(item_parts(item@), item_parts(item@).len())
            <= tokens->0@.len(),
        at <= old(events)@.len(),
    ensures
        event_views(final(events)@) == event_views(old(events)@) + item_events(
            item@,
            output_index as int,
            token_views(*tokens),
            at as nat,
        ),
        next == at + parts_deltas(item_parts(item@), item_parts(item@).len()),
        next <= final(events)@.len(),
{
    let ghost before = event_views(events@);
    let ghost parts = item_parts(item@);
    let ghost views = token_views(*tokens);
    push_event(events, "response.output_item.added", item_object(output_index, start_item(item)));
    let ghost opened = event_views(events@);
    let id = match item.text_at("id") {
        Some(id) => id,
        None => "",
    };
    let mut next: usize = at;
    if let Some(list) = parts_of(item) {
        let mut i: usize = 0;
        assert(opened + Seq::<EventView>::empty() =~= opened);
        while i < list.len()
            invariant
                parts == json::views(list@),
                i <= list@.len(),
                id@ == item_id(item@),
                views == token_views(*tokens),
                tokens is Some ==> at + parts_deltas(parts, parts.len()) <= tokens->0@.len(),
                event_views(events@) == opened + parts_events(
                    parts,
                    i as nat,
                    id@,
                    output_index as int,
                    views,
                    at as nat,
                ),
                next == at + parts_deltas(parts, i as nat),
                next <= events@.len(),
            decreases list@.len() - i,
        {
            proof {
                lemma_deltas_grow(parts, (i + 1) as nat, parts.len());
                assert(parts[i as int] == list@[i as int]@);
            }
            push_part(events, &list[i], id, output_index, i, tokens, next);
            assert(next + part_deltas(parts[i as int]) <= events.len());
            next += delta_of(&list[i]);
            i += 1;
            assert(event_views(events@) =~= opened + parts_events(
                parts,
                i as nat,
                id@,
                output_index as int,
                views,
                at as nat,
            ));
        }
    }
    assert(event_views(events@) =~= opened + parts_events(
        parts,
        parts.len(),
        id@,
        output_index as int,
        views,
        at as nat,
    ));
    push_event(events, "response.output_item.done", item_object(output_index, item.clone()));
    assert(event_views(events@) =~= before + item_events(
        item@,
        output_index as int,
        views,
        at as nat,
    ));
    next
}

proof fn lemma_deltas_grow(parts: Seq<JsonView>, n: nat, m: nat)
    requires
        n <= m,
    ensures
        parts_deltas(parts, n) <= parts_deltas(parts, m),
    decreases m,
{
    if n < m {
        lemma_deltas_grow(parts, n, (m - 1) as nat);
    }
}

proof fn lemma_items_deltas_grow(items: Seq<JsonView>, n: nat, m: nat)
    requires
        n <= m,
    ensures
        items_deltas(items, n) <= items_deltas(items, m),
    decreases m,
{
    if n < m {
        lemma_items_deltas_grow(items, n, (m - 1) as nat);
    }
}

fn default_field(value: Json, key: &str, default: Json) -> (r: Json)
    ensures
        r@ == defaulted(value@, key@, default@),
{
    if value.get(key).is_some() {
        value
    } else {
        value.having(key, default)
    }
}

fn fill_usage_details(response: Json) -> (r: Json)
    ensures
        r@ == with_usage_details(response@),
{
    let usage = match response.get("usage") {
        Some(usage) => {
            if !usage.is_object() {
                return response;
            }
            usage.clone()
        },
        None => {
            return response;
        },
    };
    let input = Json::object().having("cached_tokens", Json::unsigned(0));
    let output = Json::object().having("reasoning_tokens", Json::unsigned(0));
    let usage = default_field(usage, "input_tokens_details", input);
    let usage = default_field(usage, "output_tokens_details", output);
    response.having("usage", usage)
}

fn initial_response(response: &Json) -> (r: Json)
    ensures
        r@ == initial(response@),
{
    assert(json::views(Seq::<Json>::empty()) =~= Seq::empty());
    let mut r = response.clone();
    r.put("status", Json::text("in_progress"));
    r.set("output", Json::array(Vec::new()));
    r.set("usage", Json::Null);
    r.set("completed_at", Json::Null);
    r.set("error", Json::Null);
    r.set("incomplete_details", Json::Null);
    r
}

fn terminal_event(response: &Json) -> (r: Result<&'static str, String>)
    ensures
        match r {
            Ok(kind) => terminal_kind(response@) == Ok::<Seq<char>, Seq<char>>(kind@),
            Err(why) => terminal_kind(response@) == Err::<Seq<char>, Seq<char>>(why@),
        },
{
    match response.text_at("status") {
        None => Err("missing terminal Responses status".to_owned()),
        Some(status) => {
            if text::same_text(status, "completed") {
                Ok("response.completed")
            } else if text::same_text(status, "incomplete") {
                Ok("response.incomplete")
            } else if text::same_text(status, "failed") {
                Ok("response.failed")
            } else {
                Err(joined("unsupported terminal Responses status ", status))
            }
        },
    }
}

proof fn lemma_kinds_are_lines()
    ensures
        text::one_line("response.created"@),
        text::one_line("response.in_progress"@),
        text::one_line("response.output_item.added"@),
        text::one_line("response.output_item.done"@),
        text::one_line("response.content_part.added"@),
        text::one_line("response.content_part.done"@),
        text::one_line("response.output_text.delta"@),
        text::one_line("response.output_text.done"@),
        text::one_line("response.refusal.delta"@),
        text::one_line("response.refusal.done"@),
        text::one_line("response.completed"@),
        text::one_line("response.incomplete"@),
        text::one_line("response.failed"@),
{
    reveal_strlit("response.created");
    reveal_strlit("response.in_progress");
    reveal_strlit("response.output_item.added");
    reveal_strlit("response.output_item.done");
    reveal_strlit("response.content_part.added");
    reveal_strlit("response.content_part.done");
    reveal_strlit("response.output_text.delta");
    reveal_strlit("response.output_text.done");
    reveal_strlit("response.refusal.delta");
    reveal_strlit("response.refusal.done");
    reveal_strlit("response.completed");
    reveal_strlit("response.incomplete");
    reveal_strlit("response.failed");
}

proof fn lemma_parts_kinds(
    parts: Seq<JsonView>,
    n: nat,
    id: Seq<char>,
    output_index: int,
    tokens: Option<Seq<Seq<char>>>,
    at: nat,
)
    ensures
        plain_kinds(parts_events(parts, n, id, output_index, tokens, at)),
    decreases n,
{
    lemma_kinds_are_lines();
    if n > 0 {
        lemma_parts_kinds(parts, (n - 1) as nat, id, output_index, tokens, at);
    }
}

proof fn lemma_items_kinds(items: Seq<JsonView>, n: nat, tokens: Option<Seq<Seq<char>>>)
    ensures
        plain_kinds(items_events(items, n, tokens)),
    decreases n,
{
    lemma_kinds_are_lines();
    if n > 0 {
        lemma_items_kinds(items, (n - 1) as nat, tokens);
        let item = items[n - 1];
        lemma_parts_kinds(
            item_parts(item),
            item_parts(item).len(),
            item_id(item),
            n - 1,
            tokens,
            items_deltas(items, (n - 1) as nat),
        );
    }
}

/// The events of a response are of kinds that break no line.
pub proof fn lemma_stream_kinds(response: JsonView, tokens: Option<Seq<Seq<char>>>)
    ensures
        stream_events(response, tokens) matches Ok(events) ==> plain_kinds(events),
{
    lemma_kinds_are_lines();
    let full = with_usage_details(response);
    lemma_items_kinds(output_items(full), output_items(full).len(), tokens);
}

fn render(events: &Vec<StreamEvent>) -> (r: String)
    requires
        plain_kinds(event_views(events@)),
    ensures
        r@ == rendered(event_views(events@)),
        is_framed(r@, sent(event_views(events@))),
{
    let ghost views = event_views(events@);
    let mut r = String::new();
    let mut i: usize = 0;
    assert(sent(views.take(0)) =~= Seq::empty());
    while i < events.len()
        invariant
            views == event_views(events@),
            plain_kinds(views),
            i <= events@.len(),
            r@ == rendered(views.take(i as int)),
            r@.len() > 0 ==> r@.last() == '\n',
            is_framed(r@, sent(views.take(i as int))),
        decreases events@.len() - i,
    {
        let ghost before = r@;
        let mut body = events[i].body.clone();
        body.set("type", Json::text(events[i].kind));
        body.set("sequence_number", Json::unsigned(i as u64 + 1));
        r.append("event: ");
        r.append(events[i].kind);
        r.append("\ndata: ");
        let written = serde_value::print(&body);
        r.append(written.as_str());
        r.append("\n\n");
        proof {
            assert(text::one_line(views[i as int].0));
            lemma_frame(before, views[i as int].0, written@);
            let frames = sent(views.take(i + 1));
            assert(frames.drop_last() =~= sent(views.take(i as int)));
            assert(frames.last() == (views[i as int].0, written@));
            assert forall|k: int| 0 <= k < frames.len() implies text::one_line(
                (#[trigger] frames[k]).0,
            ) && text::one_line(frames[k].1) by {
                if k < i {
                    assert(frames[k] == frames.drop_last()[k]);
                }
            }
        }
        i += 1;
        assert(views.take(i as int).drop_last() =~= views.take(i - 1));
        assert(views.take(i as int).last() == views[i - 1]);
    }
    assert(views.take(i as int) =~= views);
    r
}

/// Encodes a finished response as events, with the given padding. Every event is one frame.
///
/// With padding, the k-th event that carries a piece of text is given the k-th text of it.
pub fn encode_with_padding(response: Json, padding: &Option<Vec<String>>) -> (r: Result<
    Vec<u8>,
    String,
>)
    requires
        streamable(response@),
        padding is Some ==> padding->0@.len() >= deltas(response@),
    ensures
        match r {
            Ok(bytes) => {
                &&& stream_text(response@, token_views(*padding)) is Ok
                &&& bytes@ == vstd::utf8::encode_utf8(
                    stream_text(response@, token_views(*padding))->Ok_0,
                )
                &&& is_stream(response@, token_views(*padding))
            },
            Err(why) => stream_text(response@, token_views(*padding)) == Err::<
                Seq<char>,
                Seq<char>,
            >(why@),
        },
{
    let ghost source = response@;
    let full = fill_usage_details(response);
    let ghost items = output_items(full@);
    let ghost views = token_views(*padding);
    proof {
        lemma_usage_details_keep_output(source);
    }
    let mut events: Vec<StreamEvent> = Vec::new();
    assert(event_views(events@) =~= Seq::empty());
    push_event(
        &mut events,
        "response.created",
        Json::object().having("response", initial_response(&full)),
    );
    push_event(
        &mut events,
        "response.in_progress",
        Json::object().having("response", initial_response(&full)),
    );
    let ghost opened = event_views(events@);
    let found = match full.get("output") {
        Some(output) => output.as_array(),
        None => None,
    };
    if let Some(list) = found {
        let mut i: usize = 0;
        let mut at: usize = 0;
        assert(opened + Seq::<EventView>::empty() =~= opened);
        while i < list.len()
            invariant
                items == json::views(list@),
                i <= list@.len(),
                views == token_views(*padding),
                padding is Some ==> padding->0@.len() >= items_deltas(items, items.len()),
                event_views(events@) == opened + items_events(items, i as nat, views),
                at == items_deltas(items, i as nat),
                at <= events@.len(),
            decreases list@.len() - i,
        {
            proof {
                lemma_items_deltas_grow(items, (i + 1) as nat, items.len());
                assert(items[i as int] == list@[i as int]@);
            }
            at = push_item(&mut events, &list[i], i, padding, at);
            i += 1;
            assert(event_views(events@) =~= opened + items_events(items, i as nat, views));
        }
    }
    assert(event_views(events@) =~= opened + items_events(items, items.len(), views));
    let kind = match terminal_event(&full) {
        Ok(kind) => kind,
        Err(why) => {
            return Err(why);
        },
    };
    let ghost whole = full@;
    push_event(&mut events, kind, Json::object().having("response", full));
    assert(event_views(events@) =~= stream_events(source, views)->Ok_0) by {
        assert(opened =~= seq![
            ("response.created"@, response_body(initial(whole))),
            ("response.in_progress"@, response_body(initial(whole))),
        ]);
    }
    proof {
        lemma_stream_kinds(source, views);
    }
    Ok(render(&events).as_str().as_bytes_vec())
}

proof fn lemma_usage_details_keep_output(response: JsonView)
    ensures
        output_items(with_usage_details(response)) == output_items(response),
{
    reveal_strlit("usage");
    reveal_strlit("output");
    assert("usage"@.len() != "output"@.len());
    if let JsonView::Object(fields) = response {
        if let Some(JsonView::Object(usage)) = response.get("usage"@) {
            json::a_field_reads_back_what_was_set(
                fields,
                "usage"@,
                with_usage_details(response).get("usage"@)->0,
                "output"@,
            );
            let value = defaulted(
                defaulted(
                    JsonView::Object(usage),
                    "input_tokens_details"@,
                    JsonView::empty().with("cached_tokens"@, number(0)),
                ),
                "output_tokens_details"@,
                JsonView::empty().with("reasoning_tokens"@, number(0)),
            );
            json::a_field_reads_back_what_was_set(fields, "usage"@, value, "output"@);
        }
    }
}

/// A lower-case hexadecimal digit.
pub open spec fn is_hex(c: char) -> bool {
    ('0' <= c <= '9') || ('a' <= c <= 'f')
}

/// Padding of the length and the characters that every token has.
pub open spec fn is_token(s: Seq<char>) -> bool {
    s.len() == 32 && forall|i: int| 0 <= i < s.len() ==> is_hex(#[trigger] s[i])
}

/// `rand::rng` and `random`: a 128-bit number, here in 32 lower-case hexadecimal digits. Which
/// number comes is left to chance.
#[verifier::external_body]
fn random_token() -> (r: String)
    ensures
        is_token(r@),
{
    format!("{:032x}", rand::rng().random::<u128>())
}

/// Draws padding for every event of a response that carries a piece of text.
fn draw_tokens(response: &Json) -> (r: Vec<String>)
    ensures
        r@.len() == deltas(response@),
        forall|i: int| 0 <= i < r@.len() ==> is_token((#[trigger] r@[i])@),
{
    let ghost items = output_items(response@);
    let mut tokens: Vec<String> = Vec::new();
    let found = match response.get("output") {
        Some(output) => output.as_array(),
        None => None,
    };
    if let Some(list) = found {
        let mut i: usize = 0;
        while i < list.len()
            invariant
                items == json::views(list@),
                i <= list@.len(),
                tokens@.len() == items_deltas(items, i as nat),
                forall|k: int| 0 <= k < tokens@.len() ==> is_token((#[trigger] tokens@[k])@),
            decreases list@.len() - i,
        {
            let ghost parts = item_parts(items[i as int]);
            let ghost before = tokens@.len();
            assert(items[i as int] == list@[i as int]@);
            if let Some(inner) = parts_of(&list[i]) {
                let mut j: usize = 0;
                while j < inner.len()
                    invariant
                        parts == json::views(inner@),
                        j <= inner@.len(),
                        tokens@.len() == before + parts_deltas(parts, j as nat),
                        forall|k: int|
                            0 <= k < tokens@.len() ==> is_token((#[trigger] tokens@[k])@),
                    decreases inner@.len() - j,
                {
                    assert(parts[j as int] == inner@[j as int]@);
                    if delta_of(&inner[j]) > 0 {
                        tokens.push(random_token());
                    }
                    j += 1;
                }
            }
            i += 1;
        }
    }
    tokens
}

/// Encodes a finished response as events; on request, pieces of text are padded at random.
pub fn encode_streaming_response_value(response: Json, include_obfuscation: bool) -> (r: Result<
    Vec<u8>,
    String,
>)
    requires
        streamable(response@),
    ensures
        exists|tokens: Option<Seq<Seq<char>>>|
            {
                &&& tokens is Some <==> include_obfuscation
                &&& tokens is Some ==> tokens->0.len() == deltas(response@) && forall|i: int|
                    0 <= i < tokens->0.len() ==> is_token(#[trigger] tokens->0[i])
                &&& match r {
                    Ok(bytes) => (#[trigger] stream_text(response@, tokens)) is Ok && bytes@
                        == vstd::utf8::encode_utf8(stream_text(response@, tokens)->Ok_0)
                        && is_stream(response@, tokens),
                    Err(why) => stream_text(response@, tokens) == Err::<Seq<char>, Seq<char>>(
                        why@,
                    ),
                }
            },
        (r is Ok) == (terminal_kind(with_usage_details(response@)) is Ok),
{
    let padding = if include_obfuscation {
        Some(draw_tokens(&response))
    } else {
        None
    };
    let ghost tokens = token_views(padding);
    let ghost source = response@;
    let r = encode_with_padding(response, &padding);
    proof {
        assert(stream_text(source, tokens) is Ok == r is Ok);
        if include_obfuscation {
            assert forall|i: int| 0 <= i < tokens->0.len() implies is_token(
                #[trigger] tokens->0[i],
            ) by {
                assert(tokens->0[i] == padding->0@[i]@);
            }
        }
    }
    r
}

/// The output of a response once items of unknown types stand where they stood, between the items
/// of known types in their order.
pub open spec fn merged(
    raw: Seq<JsonView>,
    typed: Seq<JsonView>,
    known: Seq<Seq<char>>,
) -> Option<Seq<JsonView>>
    decreases raw.len(),
{
    if raw.len() == 0 {
        if typed.len() == 0 {
            Some(Seq::empty())
        } else {
            None
        }
    } else if is_unknown(raw.last(), known) {
        match merged(raw.drop_last(), typed, known) {
            Some(items) => Some(items.push(raw.last())),
            None => None,
        }
    } else if typed.len() == 0 {
        None
    } else {
        match merged(raw.drop_last(), typed.drop_last(), known) {
            Some(items) => Some(items.push(typed.last())),
            None => None,
        }
    }
}

/// Whether an item names a type that is not known.
pub open spec fn is_unknown(item: JsonView, known: Seq<Seq<char>>) -> bool {
    match item.text_at("type"@) {
        Some(kind) => !known.contains(kind),
        None => false,
    }
}

/// How many items are of known types.
pub open spec fn known_count(raw: Seq<JsonView>, known: Seq<Seq<char>>) -> nat
    decreases raw.len(),
{
    if raw.len() == 0 {
        0
    } else {
        known_count(raw.drop_last(), known) + if is_unknown(raw.last(), known) {
            0nat
        } else {
            1nat
        }
    }
}

/// Merging succeeds exactly where there are as many typed items as raw items of known types. It
/// keeps the number of items, and keeps each item of an unknown type where it was.
pub proof fn merging_keeps_unknown_items_in_place(
    raw: Seq<JsonView>,
    typed: Seq<JsonView>,
    known: Seq<Seq<char>>,
)
    ensures
        merged(raw, typed, known) is Some <==> known_count(raw, known) == typed.len(),
        match merged(raw, typed, known) {
            Some(items) => {
                &&& items.len() == raw.len()
                &&& forall|i: int|
                    0 <= i < raw.len() && is_unknown(raw[i], known) ==> (#[trigger] items[i])
                        == raw[i]
                &&& forall|i: int|
                    0 <= i < raw.len() && !is_unknown(raw[i], known) ==> (#[trigger] items[i])
                        == typed[known_count(raw.take(i), known) as int]
            },
            None => true,
        },
    decreases raw.len(),
{
    if raw.len() > 0 {
        let rest = raw.drop_last();
        let rest_typed = if is_unknown(raw.last(), known) {
            typed
        } else {
            typed.drop_last()
        };
        merging_keeps_unknown_items_in_place(rest, rest_typed, known);
        if let Some(items) = merged(raw, typed, known) {
            assert forall|i: int| 0 <= i < raw.len() && !is_unknown(raw[i], known) implies (
            #[trigger] items[i]) == typed[known_count(raw.take(i), known) as int] by {
                if i < rest.len() {
                    assert(rest.take(i) =~= raw.take(i));
                    assert(rest[i] == raw[i]);
                    lemma_known_count_grows(rest, i, known);
                } else {
                    assert(raw.take(i) =~= rest);
                }
            }
        }
    }
}

proof fn lemma_known_count_grows(raw: Seq<JsonView>, i: int, known: Seq<Seq<char>>)
    requires
        0 <= i < raw.len(),
        !is_unknown(raw[i], known),
    ensures
        known_count(raw.take(i), known) < known_count(raw, known),
    decreases raw.len(),
{
    let rest = raw.drop_last();
    if i < rest.len() {
        assert(rest.take(i) =~= raw.take(i));
        lemma_known_count_grows(rest, i, known);
    } else {
        assert(raw.take(i) =~= rest);
    }
}

proof fn lemma_known_count_prefix(raw: Seq<JsonView>, i: int, known: Seq<Seq<char>>)
    requires
        0 <= i <= raw.len(),
    ensures
        known_count(raw.take(i), known) <= known_count(raw, known),
    decreases raw.len(),
{
    if i == raw.len() {
        assert(raw.take(i) =~= raw);
    } else {
        let rest = raw.drop_last();
        assert(rest.take(i) =~= raw.take(i));
        lemma_known_count_prefix(rest, i, known);
    }
}

/// What merging the raw output items into a typed response gives.
pub open spec fn final_output(
    response: JsonView,
    raw: Seq<JsonView>,
    known: Seq<Seq<char>>,
) -> Result<JsonView, Seq<char>> {
    match response.get("output"@) {
        Some(JsonView::Array(typed)) => match merged(raw, typed, known) {
            Some(items) => Ok(response.with("output"@, list(items))),
            None => Err("managed Responses output item count changed"@),
        },
        _ => Err("managed Responses output was not an array"@),
    }
}

/// Puts raw output items of unknown types back into a typed response.
pub fn merge_final_output(response: &Json, raw_output: &Vec<Json>, known_types: &Vec<&str>) -> (r:
    Result<Json, String>)
    ensures
        match r {
            Ok(v) => final_output(response@, json::views(raw_output@), text::texts(known_types@))
                == Ok::<JsonView, Seq<char>>(v@),
            Err(why) => final_output(
                response@,
                json::views(raw_output@),
                text::texts(known_types@),
            ) == Err::<JsonView, Seq<char>>(why@),
        },
{
    let ghost raw = json::views(raw_output@);
    let ghost known = text::texts(known_types@);
    let found = match response.get("output") {
        Some(output) => output.as_array(),
        None => None,
    };
    let items = match found {
        Some(items) => items,
        None => {
            return Err("managed Responses output was not an array".to_owned());
        },
    };
    let ghost typed = json::views(items@);
    proof {
        merging_keeps_unknown_items_in_place(raw, typed, known);
    }
    let mut out: Vec<Json> = Vec::new();
    let mut used: usize = 0;
    let mut i: usize = 0;
    assert(json::views(out@) =~= Seq::empty());
    while i < raw_output.len()
        invariant
            raw == json::views(raw_output@),
            typed == json::views(items@),
            known == text::texts(known_types@),
            response@.get("output"@) == Some(list(typed)),
            merged(raw, typed, known) is Some <==> known_count(raw, known) == typed.len(),
            i <= raw_output@.len(),
            used <= items@.len(),
            used == known_count(raw.take(i as int), known),
            merged(raw.take(i as int), typed.take(used as int), known) == Some(json::views(out@)),
        decreases raw_output@.len() - i,
    {
        let unknown = match raw_output[i].text_at("type") {
            Some(kind) => !text::among(known_types, kind),
            None => false,
        };
        let ghost before = json::views(out@);
        proof {
            assert(raw[i as int] == raw_output@[i as int]@);
            assert(raw.take(i + 1).drop_last() =~= raw.take(i as int));
            assert(raw.take(i + 1).last() == raw[i as int]);
        }
        if unknown {
            out.push(raw_output[i].clone());
            assert(json::views(out@) =~= before.push(raw[i as int]));
        } else {
            if used == items.len() {
                proof {
                    lemma_known_count_prefix(raw, i + 1, known);
                }
                return Err("managed Responses output item count changed".to_owned());
            }
            proof {
                assert(typed.take(used + 1).drop_last() =~= typed.take(used as int));
                assert(typed.take(used + 1).last() == items@[used as int]@);
            }
            out.push(items[used].clone());
            assert(json::views(out@) =~= before.push(items@[used as int]@));
            used += 1;
        }
        i += 1;
    }
    assert(raw.take(i as int) =~= raw);
    if used < items.len() {
        return Err("managed Responses output item count changed".to_owned());
    }
    assert(typed.take(used as int) =~= typed);
    Ok(response.clone().having("output", Json::array(out)))
}

/// Writes a finished response as JSON, with its output merged.
pub fn serialize_managed_response(
    response: &Json,
    raw_output: &Vec<Json>,
    known_types: &Vec<&str>,
) -> (r: Result<Vec<u8>, String>)
    ensures
        match final_output(response@, json::views(raw_output@), text::texts(known_types@)) {
            Ok(v) => r is Ok && r->Ok_0@ == vstd::utf8::encode_utf8(serde_value::json_text(v)),
            Err(why) => r is Err && r->Err_0@ == why,
        },
{
    match merge_final_output(response, raw_output, known_types) {
        Ok(v) => Ok(serde_value::print(&v).as_str().as_bytes_vec()),
        Err(why) => Err(why),
    }
}

/// Encodes a finished response as events, with its output merged.
pub fn encode_managed_streaming_response(
    response: &Json,
    raw_output: &Vec<Json>,
    known_types: &Vec<&str>,
    include_obfuscation: bool,
) -> (r: Result<Vec<u8>, String>)
    requires
        final_output(response@, json::views(raw_output@), text::texts(known_types@)) matches Ok(v)
            ==> streamable(v),
    ensures
        match final_output(response@, json::views(raw_output@), text::texts(known_types@)) {
            Ok(v) => exists|tokens: Option<Seq<Seq<char>>>|
                {
                    &&& tokens is Some <==> include_obfuscation
                    &&& tokens is Some ==> tokens->0.len() == deltas(v) && forall|i: int|
                        0 <= i < tokens->0.len() ==> is_token(#[trigger] tokens->0[i])
                    &&& match r {
                        Ok(bytes) => (#[trigger] stream_text(v, tokens)) is Ok && bytes@
                            == vstd::utf8::encode_utf8(stream_text(v, tokens)->Ok_0) && is_stream(
                            v,
                            tokens,
                        ),
                        Err(why) => stream_text(v, tokens) == Err::<Seq<char>, Seq<char>>(why@),
                    }
                },
            Err(why) => r is Err && r->Err_0@ == why,
        },
{
    match merge_final_output(response, raw_output, known_types) {
        Ok(v) => encode_streaming_response_value(v, include_obfuscation),
        Err(why) => Err(why),
    }
}

/// A response as the client sees it: its usage is that of all rounds, its tools are those that the
/// client declared.
pub open spec fn finalized(
    response: JsonView,
    usage: Option<JsonView>,
    client_tools: Option<JsonView>,
) -> JsonView {
    let counted = match usage {
        Some(usage) => response.with("usage"@, usage),
        None => response.without("usage"@),
    };
    match client_tools {
        Some(tools) => counted.with("tools"@, tools),
        None => counted,
    }
}

/// A final response has the given usage, or none, and the client's own tools where it had any, and
/// is otherwise as it was.
pub proof fn a_final_response_has_the_given_usage_and_tools(
    response: JsonView,
    usage: Option<JsonView>,
    client_tools: Option<JsonView>,
    key: Seq<char>,
)
    requires
        response is Object,
        json::ascending(response->Object_0),
    ensures
        finalized(response, usage, client_tools).get("usage"@) == usage,
        client_tools is Some ==> finalized(response, usage, client_tools).get("tools"@)
            == client_tools,
        key != "usage"@ && (key != "tools"@ || client_tools is None) ==> finalized(
            response,
            usage,
            client_tools,
        ).get(key) == response.get(key),
{
    reveal_strlit("usage");
    reveal_strlit("tools");
    assert("usage"@[0] != "tools"@[0]);
    let fields = response->Object_0;
    let counted = match usage {
        Some(usage) => {
            json::a_field_reads_back_what_was_set(fields, "usage"@, usage, key);
            response.with("usage"@, usage)
        },
        None => {
            json::a_removed_field_is_gone(fields, "usage"@, key);
            response.without("usage"@)
        },
    };
    if let Some(tools) = client_tools {
        json::a_field_reads_back_what_was_set(counted->Object_0, "tools"@, tools, key);
        json::a_field_reads_back_what_was_set(counted->Object_0, "tools"@, tools, "usage"@);
    }
}

/// Puts the usage of all rounds and the client's own tools into the final response.
pub fn finalize_managed_response(response: Json, usage: Option<Json>, client_tools: Option<Json>) -> (r:
    Json)
    ensures
        r@ == finalized(
            response@,
            match usage {
                Some(usage) => Some(usage@),
                None => None,
            },
            match client_tools {
                Some(tools) => Some(tools@),
                None => None,
            },
        ),
{
    let mut r = response;
    match usage {
        Some(usage) => r.set("usage", usage),
        None => {
            let _ = r.take("usage");
        },
    }
    match client_tools {
        Some(tools) => r.set("tools", tools),
        None => {},
    }
    r
}

} // verus!
