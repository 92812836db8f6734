//! What becomes of a request over the Messages format, and what its client puts together from a
//! stream.

use vstd::prelude::*;
use vstd::string::*;
use crate::config::{
    CODE_INTERPRETER_FUNCTION, PROGRAMMATIC_FUNCTION, RESERVED_PREFIX, WEB_SEARCH_FUNCTION,
};
use crate::conversation::{catalog_entry, SpecView};
use crate::decode::{present, text_list, AllowedCaller};
use crate::error::ErrorView;
use crate::json::{a_removed_field_is_gone, group_fields_read_back, JsonView};
use crate::laws::calls::a_request_holds_the_field_that_it_was_given;
use crate::laws::declarations::{a_location_is_handed_on_part_by_part, is_location};
use crate::laws::imports::ends_with;
use crate::messages::mapper::{
    all_emitted, choice_checked, custom_emitted, emitted, first_unknown_caller, forbids_parallel,
    messages_activated, messages_caller, messages_callers, messages_prepared, planned,
    search_emitted, search_options, unstreamed, EmittedView, PlanView,
};
use crate::messages::stream::{
    block_deltas, block_events, blocks_events, blocks_of, message_events, sent,
};
use crate::registry::{with_all, RegistryView};
use crate::request::RequestView;
use crate::runtime::deadline_from;
use crate::serde_value::json_text;
use crate::streaming::{number, EventView};
use crate::time::Instant;
use crate::{schema, text};

verus! {

/// Whether an event carries a piece of a block, of this type.
pub open spec fn is_piece(event: EventView, index: int, piece: Seq<char>) -> bool {
    &&& event.0 == "content_block_delta"@
    &&& event.1.get("index"@) == Some(number(index))
    &&& event.1.get("delta"@) matches Some(delta) && delta.get("type"@) == Some(
        JsonView::Text(piece),
    )
}

/// What the pieces of a block say in a field, joined in their order.
pub open spec fn pieced_together(
    events: Seq<EventView>,
    index: int,
    piece: Seq<char>,
    field: Seq<char>,
) -> Seq<char>
    decreases events.len(),
{
    if events.len() == 0 {
        Seq::empty()
    } else {
        let before = pieced_together(events.drop_last(), index, piece, field);
        if is_piece(events.last(), index, piece) {
            match events.last().1.get("delta"@)->0.text_at(field) {
                Some(s) => before + s,
                None => before,
            }
        } else {
            before
        }
    }
}

proof fn lemma_pieces_joined(
    a: Seq<EventView>,
    b: Seq<EventView>,
    index: int,
    piece: Seq<char>,
    field: Seq<char>,
)
    ensures
        pieced_together(a + b, index, piece, field) == pieced_together(a, index, piece, field)
            + pieced_together(b, index, piece, field),
    decreases b.len(),
{
    let x = pieced_together(a, index, piece, field);
    if b.len() == 0 {
        assert(a + b =~= a);
        assert(x + Seq::<char>::empty() =~= x);
    } else {
        assert((a + b).drop_last() =~= a + b.drop_last());
        assert((a + b).last() == b.last());
        lemma_pieces_joined(a, b.drop_last(), index, piece, field);
        let y = pieced_together(b.drop_last(), index, piece, field);
        if let Some(z) = b.last().1.get("delta"@)->0.text_at(field) {
            assert((x + y) + z =~= x + (y + z));
        }
    }
}

/// One of the ways in which a stream carries a block in pieces, and what the block says in this way.
pub open spec fn block_says(block: JsonView, piece: Seq<char>, field: Seq<char>) -> Option<Seq<char>> {
    let kind = block.text_at("type"@);
    if piece == "text_delta"@ && field == "text"@ && kind == Some("text"@) {
        Some(
            match block.text_at("text"@) {
                Some(s) => s,
                None => Seq::empty(),
            },
        )
    } else if piece == "thinking_delta"@ && field == "thinking"@ && kind == Some("thinking"@) {
        Some(
            match block.text_at("thinking"@) {
                Some(s) => s,
                None => Seq::empty(),
            },
        )
    } else if piece == "signature_delta"@ && field == "signature"@ && kind == Some("thinking"@) {
        block.text_at("signature"@)
    } else if piece == "input_json_delta"@ && field == "partial_json"@ && kind == Some("tool_use"@) {
        Some(
            match block.get("input"@) {
                Some(input) => json_text(input),
                None => json_text(JsonView::empty()),
            },
        )
    } else {
        None
    }
}

/// Whether a type of pieces carries this field.
pub open spec fn is_way(piece: Seq<char>, field: Seq<char>) -> bool {
    ||| piece == "text_delta"@ && field == "text"@
    ||| piece == "thinking_delta"@ && field == "thinking"@
    ||| piece == "signature_delta"@ && field == "signature"@
    ||| piece == "input_json_delta"@ && field == "partial_json"@
}

spec fn or_nothing(s: Option<Seq<char>>) -> Seq<char> {
    match s {
        Some(s) => s,
        None => Seq::empty(),
    }
}

proof fn lemma_block_says(block: JsonView, index: int, piece: Seq<char>, field: Seq<char>, i: int)
    requires
        is_way(piece, field),
        0 <= index <= u64::MAX,
        0 <= i <= u64::MAX,
    ensures
        pieced_together(block_events(block, index), i, piece, field) == (if index == i {
            or_nothing(block_says(block, piece, field))
        } else {
            Seq::empty()
        }),
{
    broadcast use group_fields_read_back;

    lemma_event_kinds();
    lemma_pieces();
    lemma_piece_keys();
    lemma_block_types();
    lemma_body_keys();
    reveal_strlit("");
    assert(""@ =~= Seq::empty());
    reveal_with_fuel(pieced_together, 5);
    let events = block_events(block, index);
    let deltas = block_deltas(block);
    assert(number(index) == number(i) <==> index == i);
    assert(events.len() == deltas.len() + 2);
    assert(deltas.len() <= 2);
    if deltas.len() == 2 {
        assert(events.drop_last() =~= seq![events[0], events[1], events[2]]);
        assert(events.drop_last().drop_last() =~= seq![events[0], events[1]]);
        assert(events.drop_last().drop_last().drop_last() =~= seq![events[0]]);
        assert(events.drop_last().drop_last().drop_last().drop_last() =~= Seq::empty());
    } else if deltas.len() == 1 {
        assert(events.drop_last() =~= seq![events[0], events[1]]);
        assert(events.drop_last().drop_last() =~= seq![events[0]]);
        assert(events.drop_last().drop_last().drop_last() =~= Seq::empty());
    } else {
        assert(events.drop_last() =~= seq![events[0]]);
        assert(events.drop_last().drop_last() =~= Seq::empty());
    }
    assert(pieced_together(events, i, piece, field) =~= (if index == i {
        or_nothing(block_says(block, piece, field))
    } else {
        Seq::empty()
    }));
}

proof fn lemma_blocks_say(blocks: Seq<JsonView>, piece: Seq<char>, field: Seq<char>, i: int)
    requires
        is_way(piece, field),
        blocks.len() <= u64::MAX,
        0 <= i <= u64::MAX,
    ensures
        pieced_together(blocks_events(blocks), i, piece, field) == (if i < blocks.len() {
            or_nothing(block_says(blocks[i], piece, field))
        } else {
            Seq::empty()
        }),
    decreases blocks.len(),
{
    if blocks.len() > 0 {
        let rest = blocks.drop_last();
        let n = blocks.len() - 1;
        lemma_blocks_say(rest, piece, field, i);
        lemma_block_says(blocks.last(), n, piece, field, i);
        lemma_pieces_joined(blocks_events(rest), block_events(blocks.last(), n), i, piece, field);
        let x = pieced_together(blocks_events(rest), i, piece, field);
        let y = pieced_together(block_events(blocks.last(), n), i, piece, field);
        assert(x + Seq::<char>::empty() =~= x);
        assert(Seq::<char>::empty() + y =~= y);
    }
}

/// What a client puts together from the pieces of a block is what the block says: its text, its
/// thoughts with their signature, or the input of its tool use as JSON.
pub proof fn pieces_of_a_block_make_up_what_it_says(
    message: JsonView,
    piece: Seq<char>,
    field: Seq<char>,
    i: int,
)
    requires
        is_way(piece, field),
        0 <= i < blocks_of(message).len() <= u64::MAX,
    ensures
        pieced_together(message_events(message), i, piece, field) == (match block_says(
            blocks_of(message)[i],
            piece,
            field,
        ) {
            Some(s) => s,
            None => Seq::empty(),
        }),
{
    lemma_event_kinds();
    reveal_with_fuel(pieced_together, 3);
    let blocks = blocks_of(message);
    let events = message_events(message);
    let inner = blocks_events(blocks);
    let n = events.len() as int;
    let first = seq![events[0]];
    let last = seq![events[n - 2], events[n - 1]];
    assert(events =~= (first + inner) + last);
    lemma_blocks_say(blocks, piece, field, i);
    lemma_pieces_joined(first + inner, last, i, piece, field);
    lemma_pieces_joined(first, inner, i, piece, field);
    assert(first.drop_last() =~= Seq::empty());
    assert(last.drop_last() =~= seq![events[n - 2]]);
    assert(last.drop_last().drop_last() =~= Seq::empty());
    let x = pieced_together(inner, i, piece, field);
    assert((Seq::<char>::empty() + x) + Seq::<char>::empty() =~= x);
}

/// A block begins as what it is, without what its pieces will say, and a block that is not carried
/// in pieces begins whole; it ends under its place.
pub proof fn a_block_begins_as_what_it_is(block: JsonView, index: int)
    ensures
        ({
            let events = block_events(block, index);
            let n = events.len() - 1;
            let start = events[0].1.get("content_block"@)->0;
            let kind = block.text_at("type"@);
            &&& n >= 1
            &&& events[0].0 == "content_block_start"@
            &&& events[0].1.get("type"@) == Some(JsonView::Text("content_block_start"@))
            &&& events[0].1.get("index"@) == Some(number(index))
            &&& events[0].1.get("content_block"@) is Some
            &&& events[n].0 == "content_block_stop"@
            &&& events[n].1.get("type"@) == Some(JsonView::Text("content_block_stop"@))
            &&& events[n].1.get("index"@) == Some(number(index))
            &&& kind is Some ==> start.get("type"@) == block.get("type"@)
            &&& kind == Some("text"@) ==> start.get("text"@) == Some(JsonView::Text(""@)) && n == 2
            &&& kind == Some("thinking"@) ==> start.get("thinking"@) == Some(JsonView::Text(""@))
            &&& kind == Some("tool_use"@) ==> {
                &&& n == 2
                &&& block.get("id"@) is Some ==> start.get("id"@) == block.get("id"@)
                &&& block.get("name"@) is Some ==> start.get("name"@) == block.get("name"@)
                &&& start.get("input"@) == Some(JsonView::empty())
            }
            &&& kind != Some("text"@) && kind != Some("thinking"@) && kind != Some("tool_use"@)
                ==> start == block && n == 1
        }),
{
    broadcast use group_fields_read_back;

    lemma_body_keys();
    lemma_block_types();
    lemma_start_keys();
}

/// A stream begins with the message as it stood before it had any content, and is otherwise as it
/// is; it ends with why the message ended and with what it cost.
pub proof fn a_message_stream_begins_and_ends_with_the_message(message: JsonView, key: Seq<char>)
    requires
        message is Object,
    ensures
        ({
            let events = message_events(message);
            let n = events.len() as int;
            let start = events[0].1.get("message"@)->0;
            let ending = events[n - 2].1;
            let usage = message.get("usage"@);
            &&& n >= 3
            &&& events[0].0 == "message_start"@
            &&& events[0].1.get("type"@) == Some(JsonView::Text("message_start"@))
            &&& events[0].1.get("message"@) is Some
            &&& start.get("content"@) == Some(JsonView::Array(Seq::empty()))
            &&& start.get("stop_reason"@) == Some(JsonView::Null)
            &&& start.get("stop_sequence"@) == Some(JsonView::Null)
            &&& key != "content"@ && key != "stop_reason"@ && key != "stop_sequence"@ && key
                != "usage"@ ==> start.get(key) == message.get(key)
            &&& usage is Some && usage->0 is Object ==> start.get("usage"@) is Some && start.get(
                "usage"@,
            )->0.get("output_tokens"@) == Some(number(0)) && (key != "output_tokens"@
                ==> start.get("usage"@)->0.get(key) == usage->0.get(key))
            &&& events[n - 2].0 == "message_delta"@
            &&& ending.get("type"@) == Some(JsonView::Text("message_delta"@))
            &&& ending.get("delta"@) is Some
            &&& message.get("stop_reason"@) is Some ==> ending.get("delta"@)->0.get("stop_reason"@)
                == message.get("stop_reason"@)
            &&& message.get("stop_sequence"@) is Some ==> ending.get("delta"@)->0.get(
                "stop_sequence"@,
            ) == message.get("stop_sequence"@)
            &&& ending.get("usage"@) is Some
            &&& usage is Some && usage->0.get("output_tokens"@) is Some ==> ending.get("usage"@)->0.get(
                "output_tokens"@,
            ) == usage->0.get("output_tokens"@)
            &&& events[n - 1].0 == "message_stop"@
            &&& events[n - 1].1.get("type"@) == Some(JsonView::Text("message_stop"@))
        }),
{
    broadcast use group_fields_read_back;

    lemma_body_keys();
    lemma_message_keys();
}

/// Every block of a message is streamed, in order.
pub proof fn every_block_is_streamed_in_order(message: JsonView, i: int)
    requires
        0 <= i < blocks_of(message).len(),
    ensures
        ({
            let events = message_events(message);
            let blocks = blocks_of(message);
            let own = block_events(blocks[i], i);
            let from = 1 + blocks_events(blocks.take(i)).len() as int;
            &&& from + own.len() < events.len()
            &&& events.subrange(from, from + own.len()) =~= own
        }),
{
    let blocks = blocks_of(message);
    lemma_blocks_prefix(blocks, i + 1);
    let events = message_events(message);
    let whole = blocks_events(blocks);
    let before = blocks_events(blocks.take(i));
    let upto = blocks_events(blocks.take(i + 1));
    let own = block_events(blocks[i], i);
    let from = 1 + before.len() as int;
    assert(blocks.take(i + 1).drop_last() =~= blocks.take(i));
    assert(blocks.take(i + 1).last() == blocks[i]);
    assert(upto =~= before + own);
    assert forall|k: int| 0 <= k < own.len() implies events[from + k] == own[k] by {
        assert(events[from + k] == whole[before.len() + k]);
        assert(whole.take(upto.len() as int)[before.len() + k] == upto[before.len() + k]);
    }
    assert(events.subrange(from, from + own.len()) =~= own);
}

proof fn lemma_blocks_prefix(blocks: Seq<JsonView>, n: int)
    requires
        0 <= n <= blocks.len(),
    ensures
        blocks_events(blocks.take(n)).len() <= blocks_events(blocks).len(),
        blocks_events(blocks).take(blocks_events(blocks.take(n)).len() as int) =~= blocks_events(
            blocks.take(n),
        ),
    decreases blocks.len(),
{
    if n < blocks.len() {
        let rest = blocks.drop_last();
        assert(rest.take(n) =~= blocks.take(n));
        lemma_blocks_prefix(rest, n);
    } else {
        assert(blocks.take(n) =~= blocks);
    }
}

/// What is sent of an event is its kind and its body.
pub proof fn a_sent_message_event_is_its_body(events: Seq<EventView>, i: int)
    requires
        0 <= i < events.len(),
    ensures
        sent(events).len() == events.len(),
        sent(events)[i].0 == events[i].0,
        sent(events)[i].1 == json_text(events[i].1),
{
}

/// Whether a list names a caller: itself, or for programs a version of the tool that hosts them.
pub open spec fn lists_messages_caller(list: Seq<JsonView>, caller: AllowedCaller) -> bool {
    exists|i: int|
        0 <= i < list.len() && (#[trigger] list[i]) is Text && is_messages_caller(
            list[i]->Text_0,
            caller,
        )
}

pub open spec fn is_messages_caller(name: Seq<char>, caller: AllowedCaller) -> bool {
    match caller {
        AllowedCaller::Direct => name == "direct"@,
        AllowedCaller::Programmatic => name == "programmatic"@ || name
            == "code_execution_20260120"@ || name == "code_execution_20260521"@,
    }
}

/// A tool may be called by those that its declaration names, or by those that its version says where
/// it names none.
pub proof fn messages_callers_are_those_that_are_named(
    declaration: JsonView,
    default_programmatic: bool,
)
    ensures
        ({
            let list = present(declaration, "allowed_callers"@);
            match messages_callers(declaration, default_programmatic) {
                Ok(callers) => match list {
                    None => callers.direct == !default_programmatic && callers.programmatic
                        == default_programmatic,
                    Some(list) => {
                        &&& list is Array
                        &&& callers.direct <==> lists_messages_caller(
                            list->Array_0,
                            AllowedCaller::Direct,
                        )
                        &&& callers.programmatic <==> lists_messages_caller(
                            list->Array_0,
                            AllowedCaller::Programmatic,
                        )
                        &&& callers.direct || callers.programmatic
                    },
                },
                Err(_) => list is Some,
            }
        }),
{
    lemma_caller_names();
    if let Some(list) = present(declaration, "allowed_callers"@) {
        if messages_callers(declaration, default_programmatic) is Ok {
            let names = text_list(list)->0;
            let items = list->Array_0;
            let callers = Seq::new(names.len(), |i: int| messages_caller(names[i])->0);
            lemma_no_unknown(names);
            assert forall|i: int, caller: AllowedCaller| 0 <= i < names.len() implies (callers[i]
                == caller <==> #[trigger] is_messages_caller(names[i], caller)) by {
                assert(messages_caller(names[i]) is Some);
            }
            assert forall|i: int| 0 <= i < items.len() implies (#[trigger] items[i]) is Text
                && items[i]->Text_0 == names[i] by {}
            lemma_listed(items, names, callers, AllowedCaller::Direct);
            lemma_listed(items, names, callers, AllowedCaller::Programmatic);
            assert(callers.contains(callers[0]));
        }
    }
}

proof fn lemma_listed(
    items: Seq<JsonView>,
    names: Seq<Seq<char>>,
    callers: Seq<AllowedCaller>,
    caller: AllowedCaller,
)
    requires
        items.len() == names.len() == callers.len(),
        forall|i: int|
            0 <= i < items.len() ==> (#[trigger] items[i]) is Text && items[i]->Text_0 == names[i],
        forall|i: int|
            0 <= i < names.len() ==> (callers[i] == caller <==> #[trigger] is_messages_caller(
                names[i],
                caller,
            )),
    ensures
        callers.contains(caller) <==> lists_messages_caller(items, caller),
{
    if callers.contains(caller) {
        let k = choose|k: int| 0 <= k < callers.len() && callers[k] == caller;
        assert(is_messages_caller(names[k], caller));
        assert(items[k] is Text);
    }
    if lists_messages_caller(items, caller) {
        let k = choose|k: int|
            0 <= k < items.len() && (#[trigger] items[k]) is Text && is_messages_caller(
                items[k]->Text_0,
                caller,
            );
        assert(is_messages_caller(names[k], caller));
        assert(callers[k] == caller);
    }
}

proof fn lemma_no_unknown(names: Seq<Seq<char>>)
    requires
        first_unknown_caller(names) is None,
    ensures
        forall|i: int| 0 <= i < names.len() ==> messages_caller(#[trigger] names[i]) is Some,
    decreases names.len(),
{
    if names.len() > 0 {
        let rest = names.drop_first();
        lemma_no_unknown(rest);
        assert forall|i: int| 0 <= i < names.len() implies messages_caller(
            #[trigger] names[i],
        ) is Some by {
            if i > 0 {
                assert(rest[i - 1] == names[i]);
            }
        }
    }
}

/// The options of a search are those of its declaration, field by field, and it has no others.
pub proof fn a_messages_search_has_the_options_that_were_declared(declaration: JsonView, key: Seq<char>)
    ensures
        match search_options(declaration) {
            Ok(options) => {
                &&& options.get("allowed_domains"@) == declaration.get("allowed_domains"@)
                &&& options.get("blocked_domains"@) == declaration.get("blocked_domains"@)
                &&& options.get("max_uses"@) == declaration.get("max_uses"@)
                &&& options.get("user_location"@) is Some <==> declaration.get("user_location"@)
                    is Some
                &&& declaration.get("user_location"@) is Some && declaration.get("user_location"@)->0
                    is Object ==> is_location(
                    options.get("user_location"@)->0,
                    declaration.get("user_location"@)->0,
                )
                &&& key != "allowed_domains"@ && key != "blocked_domains"@ && key != "max_uses"@
                    && key != "user_location"@ ==> options.get(key) is None
            },
            Err(_) => true,
        },
{
    broadcast use group_fields_read_back;

    lemma_option_keys();
    if let Some(location) = declaration.get("user_location"@) {
        if search_options(declaration) is Ok && location is Object {
            a_location_is_handed_on_part_by_part(location);
        }
    }
}

/// A custom tool is checked against its input schema; it is offered to the model as it was declared,
/// but for who may call it, where the model may; and programs are offered it, with what it takes and
/// gives, where they may.
pub proof fn a_custom_tool_is_offered_as_it_was_declared(
    so_far: EmittedView,
    plan: PlanView,
    registry: RegistryView,
    declaration: JsonView,
    key: Seq<char>,
)
    requires
        custom_emitted(so_far, plan, registry, declaration) is Ok,
    ensures
        ({
            let after = custom_emitted(so_far, plan, registry, declaration)->Ok_0;
            let callers = messages_callers(declaration, false)->Ok_0;
            let name = declaration.text_at("name"@)->0;
            let input = declaration.get("input_schema"@);
            let spec = after.programmatic_tools.last();
            &&& declaration.text_at("name"@) is Some
            &&& registry.resolves(name)
            &&& !text::has_prefix(name, RESERVED_PREFIX@)
            &&& input is Some
            &&& schema::schema_compiles(input->0)
            &&& after.options == so_far.options
            &&& after.schemas == so_far.schemas.push((name, input->0))
            &&& callers.direct ==> {
                let offer = after.rewritten.last();
                &&& after.rewritten.len() == so_far.rewritten.len() + 1
                &&& after.rewritten.drop_last() =~= so_far.rewritten
                &&& key != "allowed_callers"@ ==> offer.get(key) == declaration.get(key)
            }
            &&& !callers.direct ==> after.rewritten == so_far.rewritten
            &&& callers.programmatic ==> {
                &&& plan.runs_programs()
                &&& after.programmatic_tools.len() == so_far.programmatic_tools.len() + 1
                &&& after.programmatic_tools.drop_last() =~= so_far.programmatic_tools
                &&& spec.public_name == name
                &&& spec.internal_name == name
                &&& Some(spec.input_schema) == input
                &&& spec.output_schema == declaration.get("output_schema"@)
                &&& declaration.text_at("description"@) matches Some(words) ==> spec.description
                    == words
            }
            &&& !callers.programmatic ==> after.programmatic_tools == so_far.programmatic_tools
        }),
{
    if declaration is Object {
        a_removed_field_is_gone(declaration->Object_0, "allowed_callers"@, key);
    }
}

/// A search runs with the options that were declared, and is offered to the model and to programs
/// where they may call it.
pub proof fn a_messages_search_is_offered_to_its_callers(
    so_far: EmittedView,
    plan: PlanView,
    registry: RegistryView,
    declaration: JsonView,
    programmatic: bool,
)
    requires
        search_emitted(so_far, plan, registry, declaration, programmatic) is Ok,
    ensures
        ({
            let after = search_emitted(so_far, plan, registry, declaration, programmatic)->Ok_0;
            let callers = messages_callers(declaration, programmatic)->Ok_0;
            let spec = after.programmatic_tools.last();
            let offer = after.rewritten.last();
            &&& registry.has_internal(WEB_SEARCH_FUNCTION@)
            &&& after.options.len() == so_far.options.len() + 1
            &&& after.options.last().0 == WEB_SEARCH_FUNCTION@
            &&& search_options(declaration) == Ok::<JsonView, ErrorView>(after.options.last().1)
            &&& after.schemas == so_far.schemas
            &&& callers.direct ==> {
                &&& after.rewritten.drop_last() =~= so_far.rewritten
                &&& after.rewritten.len() == so_far.rewritten.len() + 1
                &&& offer.get("name"@) == Some(JsonView::Text(WEB_SEARCH_FUNCTION@))
                &&& offer.get("input_schema"@) == Some(schema::one_string("query"@))
            }
            &&& !callers.direct ==> after.rewritten == so_far.rewritten
            &&& callers.programmatic ==> {
                &&& plan.runs_programs()
                &&& after.programmatic_tools.len() == so_far.programmatic_tools.len() + 1
                &&& spec.public_name == "web_search"@
                &&& spec.internal_name == WEB_SEARCH_FUNCTION@
                &&& spec.input_schema == schema::one_string("query"@)
            }
            &&& !callers.programmatic ==> after.programmatic_tools == so_far.programmatic_tools
        }),
{
    broadcast use group_fields_read_back;

    lemma_offer_keys();
}

/// Code execution is offered as a function of the gateway.
pub proof fn code_execution_is_offered_as_a_function(
    so_far: EmittedView,
    plan: PlanView,
    registry: RegistryView,
    declaration: JsonView,
    version: Seq<char>,
)
    requires
        declaration.text_at("type"@) == Some(version),
        version == "code_execution_20260120"@ || version == "code_execution_20260521"@ || version
            == "code_execution_20250522"@ || version == "code_execution_20250825"@,
        emitted(so_far, plan, registry, declaration) is Ok,
    ensures
        ({
            let after = emitted(so_far, plan, registry, declaration)->Ok_0;
            let offer = after.rewritten.last();
            &&& registry.has_internal(CODE_INTERPRETER_FUNCTION@)
            &&& after.rewritten.len() == so_far.rewritten.len() + 1
            &&& after.rewritten.drop_last() =~= so_far.rewritten
            &&& offer.get("name"@) == Some(JsonView::Text(CODE_INTERPRETER_FUNCTION@))
            &&& offer.get("input_schema"@) == Some(schema::one_string("code"@))
            &&& after == (EmittedView { rewritten: after.rewritten, ..so_far })
        }),
{
    broadcast use group_fields_read_back;

    lemma_offer_keys();
}

/// A choice of tools is handed on as it is, but a choice of code execution, which is one of the
/// function that runs it.
pub proof fn a_choice_of_tools_is_handed_on(request: RequestView, plan: PlanView, key: Seq<char>)
    ensures
        match choice_checked(request, plan) {
            Ok(after) => {
                let before = request.rest.get("tool_choice"@);
                let choice = after.rest.get("tool_choice"@);
                let code = before is Some && before->0.text_at("type"@) == Some("tool"@)
                    && before->0.text_at("name"@) == Some("code_execution"@);
                &&& after.history == request.history
                &&& after.stream == request.stream
                &&& key != "tool_choice"@ ==> after.rest.get(key) == request.rest.get(key)
                &&& !code ==> after == request
                &&& code ==> choice is Some && choice->0.get("name"@) == Some(
                    JsonView::Text(CODE_INTERPRETER_FUNCTION@),
                ) && (key != "name"@ ==> choice->0.get(key) == before->0.get(key))
            },
            Err(_) => true,
        },
{
    broadcast use group_fields_read_back;

    lemma_choices();
}

/// A prepared message asks the model what the client asked; it ends when the time of the operator is
/// over; and its calls run at once unless the client forbids it.
pub proof fn a_prepared_message_does_what_the_client_asked(
    request: RequestView,
    registry: Option<RegistryView>,
    now: Instant,
    key: Seq<char>,
)
    ensures
        match messages_prepared(request, registry, now) {
            Ok(Some(runtime)) => {
                &&& registry is Some
                &&& runtime.request.history == request.history
                &&& key != "tools"@ && key != "tool_choice"@ ==> runtime.request.rest.get(key)
                    == request.rest.get(key)
                &&& runtime.state.deadline.nanos == crate::time::saturated(
                    now.nanos + registry->0.limits.total_timeout.nanos,
                )
                &&& runtime.state.registry.limits == registry->0.limits
                &&& runtime.usage is None
                &&& request.rest.get("tool_choice"@) is None ==> runtime.state.parallel
                &&& request.rest.get("tool_choice"@) matches Some(choice) ==> (
                runtime.state.parallel <==> choice.get("disable_parallel_tool_use"@) != Some(
                    JsonView::Bool(true),
                ))
            },
            _ => true,
        },
{
    broadcast use group_fields_read_back;

    lemma_request_keys();
    lemma_choices();
    if let Ok(Some(runtime)) = messages_prepared(request, registry, now) {
        let declarations = request.rest.get("tools"@)->0->Array_0;
        let plan = planned(registry, declarations)->Ok_0;
        lemma_activated(plan, request, registry->0, declarations, now, key);
        a_choice_of_tools_is_handed_on(request, plan, key);
        a_choice_of_tools_is_handed_on(request, plan, "disable_parallel_tool_use"@);
    }
}

proof fn lemma_activated(
    plan: PlanView,
    request: RequestView,
    registry: RegistryView,
    declarations: Seq<JsonView>,
    now: Instant,
    key: Seq<char>,
)
    requires
        messages_activated(plan, request, registry, declarations, now) is Ok,
    ensures
        ({
            let after = messages_activated(plan, request, registry, declarations, now)->Ok_0;
            let found = all_emitted(plan, registry, declarations)->Ok_0;
            let chosen = choice_checked(request, plan)->Ok_0;
            let offers = plan.runs_programs() && after.state.programmatic_tools.len() > 0;
            let tools = after.request.tools();
            &&& after.state.deadline == deadline_from(now, registry.limits)
            &&& after.state.registry.limits == registry.limits
            &&& after.state.registry.tools == with_all(registry.tools, found.options, found.schemas)
            &&& after.state.parallel == !forbids_parallel(chosen)
            &&& after.state.programmatic_requested == plan.runs_programs()
            &&& after.request.history == chosen.history
            &&& after.usage is None
            &&& key != "tools"@ ==> after.request.rest.get(key) == chosen.rest.get(key)
            &&& !offers ==> tools =~= found.rewritten
            &&& offers ==> tools.len() == found.rewritten.len() + 1 && tools.drop_last()
                =~= found.rewritten
        }),
{
    broadcast use group_fields_read_back;

    let found = all_emitted(plan, registry, declarations)->Ok_0;
    let chosen = choice_checked(request, plan)->Ok_0;
    let known = RegistryView {
        tools: with_all(registry.tools, found.options, found.schemas),
        ..registry
    };
    let bare = crate::runtime::bare_state(
        known,
        !forbids_parallel(chosen),
        deadline_from(now, registry.limits),
        plan.runs_programs(),
        0,
    );
    crate::runtime::lemma_programmatic_tools_keep(bare, found.programmatic_tools);
    let after = messages_activated(plan, request, registry, declarations, now)->Ok_0;
    let given = if plan.runs_programs() && after.state.programmatic_tools.len() > 0 {
        found.rewritten.push(
            crate::messages::mapper::program_offer(after.state.programmatic_tools),
        )
    } else {
        found.rewritten
    };
    a_request_holds_the_field_that_it_was_given(
        unstreamed(chosen),
        "tools"@,
        JsonView::Array(given),
        key,
    );
    a_request_holds_the_field_that_it_was_given(
        unstreamed(chosen),
        "tools"@,
        JsonView::Array(given),
        "tools"@,
    );
    assert(after.request.tools() == given);
}

/// Programs are offered over the tools that they may call, with the catalog of these.
pub proof fn programs_of_a_message_are_offered_over_their_tools(tools: Seq<SpecView>)
    ensures
        ({
            let offer = crate::messages::mapper::program_offer(tools);
            let entries = Seq::new(tools.len(), |i: int| catalog_entry(tools[i]));
            &&& offer.get("name"@) == Some(JsonView::Text(PROGRAMMATIC_FUNCTION@))
            &&& offer.get("input_schema"@) == Some(schema::one_string("code"@))
            &&& offer.get("description"@) matches Some(JsonView::Text(words)) && ends_with(
                words,
                json_text(JsonView::Array(entries)),
            )
        }),
{
    broadcast use group_fields_read_back;

    lemma_offer_keys();
    let entries = Seq::new(tools.len(), |i: int| catalog_entry(tools[i]));
    assert(crate::conversation::catalog_entries(tools) =~= entries);
    let catalog = json_text(JsonView::Array(entries));
    let words = crate::runtime::program_words() + catalog;
    assert(words.skip(words.len() - catalog.len()) =~= catalog);
}

/// Whether a declared tool was emitted: its schema is kept for its name.
pub open spec fn keeps_schema(found: EmittedView, name: Seq<char>, input: JsonView) -> bool {
    found.schemas.contains((name, input))
}

proof fn lemma_emitted_grows(
    so_far: EmittedView,
    plan: PlanView,
    registry: RegistryView,
    declaration: JsonView,
)
    ensures
        match emitted(so_far, plan, registry, declaration) {
            Ok(after) => {
                &&& so_far.rewritten.len() <= after.rewritten.len()
                &&& after.rewritten.take(so_far.rewritten.len() as int) =~= so_far.rewritten
                &&& so_far.schemas.len() <= after.schemas.len()
                &&& after.schemas.take(so_far.schemas.len() as int) =~= so_far.schemas
                &&& so_far.options.len() <= after.options.len()
                &&& after.options.take(so_far.options.len() as int) =~= so_far.options
                &&& so_far.programmatic_tools.len() <= after.programmatic_tools.len()
                &&& after.programmatic_tools.take(so_far.programmatic_tools.len() as int)
                    =~= so_far.programmatic_tools
            },
            Err(_) => true,
        },
{
}

/// Whether a custom tool is offered as it was declared, but for who may call it.
pub open spec fn offers_custom(offer: JsonView, declaration: JsonView) -> bool {
    forall|key: Seq<char>|
        key != "allowed_callers"@ ==> #[trigger] offer.get(key) == declaration.get(key)
}

/// Every custom tool of a message is offered to the model as it was declared, where the model may
/// call it, and its input is checked against the schema that was declared for it.
pub proof fn every_custom_tool_is_offered_and_checked(
    plan: PlanView,
    registry: RegistryView,
    declarations: Seq<JsonView>,
    i: int,
)
    requires
        all_emitted(plan, registry, declarations) is Ok,
        0 <= i < declarations.len(),
        declarations[i].text_at("type"@) is None || declarations[i].text_at("type"@) == Some(
            "custom"@,
        ),
    ensures
        ({
            let found = all_emitted(plan, registry, declarations)->Ok_0;
            let declaration = declarations[i];
            let name = declaration.text_at("name"@)->0;
            let callers = messages_callers(declaration, false)->Ok_0;
            &&& declaration.text_at("name"@) is Some
            &&& declaration.get("input_schema"@) is Some
            &&& keeps_schema(found, name, declaration.get("input_schema"@)->0)
            &&& callers.direct ==> exists|p: int|
                0 <= p < found.rewritten.len() && offers_custom(
                    #[trigger] found.rewritten[p],
                    declaration,
                )
            &&& callers.programmatic ==> exists|p: int|
                0 <= p < found.programmatic_tools.len() && is_custom_spec(
                    #[trigger] found.programmatic_tools[p],
                    declaration,
                )
        }),
    decreases declarations.len(),
{
    lemma_versions();
    let rest = declarations.drop_last();
    let n = declarations.len() - 1;
    let before = all_emitted(plan, registry, rest)->Ok_0;
    let found = all_emitted(plan, registry, declarations)->Ok_0;
    let declaration = declarations[i];
    let name = declaration.text_at("name"@)->0;
    let callers = messages_callers(declaration, false)->Ok_0;
    lemma_emitted_grows(before, plan, registry, declarations.last());
    if i < n {
        assert(rest[i] == declaration);
        every_custom_tool_is_offered_and_checked(plan, registry, rest, i);
        let wanted = (name, declaration.get("input_schema"@)->0);
        let k = choose|k: int| 0 <= k < before.schemas.len() && before.schemas[k] == wanted;
        assert(found.schemas.take(before.schemas.len() as int)[k] == wanted);
        assert(found.schemas[k] == wanted);
        if callers.direct {
            let p = choose|p: int|
                0 <= p < before.rewritten.len() && offers_custom(
                    #[trigger] before.rewritten[p],
                    declaration,
                );
            assert(found.rewritten.take(before.rewritten.len() as int)[p] == before.rewritten[p]);
            assert(offers_custom(found.rewritten[p], declaration));
        }
        if callers.programmatic {
            let p = choose|p: int|
                0 <= p < before.programmatic_tools.len() && is_custom_spec(
                    #[trigger] before.programmatic_tools[p],
                    declaration,
                );
            assert(found.programmatic_tools.take(before.programmatic_tools.len() as int)[p]
                == before.programmatic_tools[p]);
            assert(is_custom_spec(found.programmatic_tools[p], declaration));
        }
    } else {
        assert(custom_emitted(before, plan, registry, declaration) == Ok::<EmittedView, ErrorView>(
            found,
        ));
        a_custom_tool_is_offered_as_it_was_declared(before, plan, registry, declaration, name);
        assert(found.schemas[before.schemas.len() as int] == (
            name,
            declaration.get("input_schema"@)->0,
        ));
        if callers.direct {
            let p = before.rewritten.len() as int;
            assert(offers_custom(found.rewritten[p], declaration)) by {
                assert forall|key: Seq<char>| key != "allowed_callers"@ implies #[trigger]
                found.rewritten[p].get(key) == declaration.get(key) by {
                    a_custom_tool_is_offered_as_it_was_declared(
                        before,
                        plan,
                        registry,
                        declaration,
                        key,
                    );
                }
            }
        }
        if callers.programmatic {
            let p = before.programmatic_tools.len() as int;
            assert(is_custom_spec(found.programmatic_tools[p], declaration));
        }
    }
}

/// Whether programs are offered a custom tool as it was declared.
pub open spec fn is_custom_spec(spec: SpecView, declaration: JsonView) -> bool {
    &&& declaration.get("name"@) == Some(JsonView::Text(spec.public_name))
    &&& spec.internal_name == spec.public_name
    &&& declaration.get("input_schema"@) == Some(spec.input_schema)
    &&& declaration.get("output_schema"@) == spec.output_schema
    &&& declaration.text_at("description"@) matches Some(words) ==> spec.description == words
}

proof fn lemma_event_kinds()
    ensures
        "message_start"@ != "content_block_start"@,
        "message_start"@ != "content_block_delta"@,
        "message_start"@ != "content_block_stop"@,
        "message_start"@ != "message_delta"@,
        "message_start"@ != "message_stop"@,
        "content_block_start"@ != "content_block_delta"@,
        "content_block_start"@ != "content_block_stop"@,
        "content_block_start"@ != "message_delta"@,
        "content_block_start"@ != "message_stop"@,
        "content_block_delta"@ != "content_block_stop"@,
        "content_block_delta"@ != "message_delta"@,
        "content_block_delta"@ != "message_stop"@,
        "content_block_stop"@ != "message_delta"@,
        "content_block_stop"@ != "message_stop"@,
        "message_delta"@ != "message_stop"@,
{
    reveal_strlit("message_start");
    reveal_strlit("content_block_start");
    reveal_strlit("content_block_delta");
    reveal_strlit("content_block_stop");
    reveal_strlit("message_delta");
    reveal_strlit("message_stop");
    assert("message_start"@.len() == 13);
    assert("content_block_start"@.len() == 19);
    assert("content_block_delta"@.len() == 19);
    assert("content_block_stop"@.len() == 18);
    assert("message_delta"@.len() == 13);
    assert("message_stop"@.len() == 12);
    assert("message_start"@[8] != "message_delta"@[8]);
    assert("content_block_start"@[14] != "content_block_delta"@[14]);
}

proof fn lemma_pieces()
    ensures
        "text_delta"@ != "thinking_delta"@,
        "text_delta"@ != "signature_delta"@,
        "text_delta"@ != "input_json_delta"@,
        "thinking_delta"@ != "signature_delta"@,
        "thinking_delta"@ != "input_json_delta"@,
        "signature_delta"@ != "input_json_delta"@,
{
    reveal_strlit("text_delta");
    reveal_strlit("thinking_delta");
    reveal_strlit("signature_delta");
    reveal_strlit("input_json_delta");
    assert("text_delta"@.len() == 10);
    assert("thinking_delta"@.len() == 14);
    assert("signature_delta"@.len() == 15);
    assert("input_json_delta"@.len() == 16);
}

proof fn lemma_piece_keys()
    ensures
        "type"@ != "text"@,
        "type"@ != "thinking"@,
        "type"@ != "signature"@,
        "type"@ != "partial_json"@,
        "text"@ != "thinking"@,
        "text"@ != "signature"@,
        "text"@ != "partial_json"@,
        "thinking"@ != "signature"@,
        "thinking"@ != "partial_json"@,
        "signature"@ != "partial_json"@,
{
    reveal_strlit("type");
    reveal_strlit("text");
    reveal_strlit("thinking");
    reveal_strlit("signature");
    reveal_strlit("partial_json");
    assert("type"@.len() == 4);
    assert("text"@.len() == 4);
    assert("thinking"@.len() == 8);
    assert("signature"@.len() == 9);
    assert("partial_json"@.len() == 12);
    assert("type"@[1] != "text"@[1]);
}

proof fn lemma_block_types()
    ensures
        "text"@ != "thinking"@,
        "text"@ != "tool_use"@,
        "thinking"@ != "tool_use"@,
{
    reveal_strlit("text");
    reveal_strlit("thinking");
    reveal_strlit("tool_use");
    assert("text"@.len() == 4);
    assert("thinking"@.len() == 8);
    assert("tool_use"@.len() == 8);
    assert("thinking"@[1] != "tool_use"@[1]);
}

proof fn lemma_body_keys()
    ensures
        "type"@ != "index"@,
        "type"@ != "delta"@,
        "type"@ != "content_block"@,
        "type"@ != "message"@,
        "type"@ != "usage"@,
        "index"@ != "delta"@,
        "index"@ != "content_block"@,
        "index"@ != "message"@,
        "index"@ != "usage"@,
        "delta"@ != "content_block"@,
        "delta"@ != "message"@,
        "delta"@ != "usage"@,
        "content_block"@ != "message"@,
        "content_block"@ != "usage"@,
        "message"@ != "usage"@,
{
    reveal_strlit("type");
    reveal_strlit("index");
    reveal_strlit("delta");
    reveal_strlit("content_block");
    reveal_strlit("message");
    reveal_strlit("usage");
    assert("type"@.len() == 4);
    assert("index"@.len() == 5);
    assert("delta"@.len() == 5);
    assert("content_block"@.len() == 13);
    assert("message"@.len() == 7);
    assert("usage"@.len() == 5);
    assert("index"@[0] != "delta"@[0]);
    assert("index"@[0] != "usage"@[0]);
    assert("delta"@[0] != "usage"@[0]);
}

proof fn lemma_start_keys()
    ensures
        "type"@ != "text"@,
        "type"@ != "thinking"@,
        "type"@ != "id"@,
        "type"@ != "name"@,
        "type"@ != "input"@,
        "text"@ != "thinking"@,
        "text"@ != "id"@,
        "text"@ != "name"@,
        "text"@ != "input"@,
        "thinking"@ != "id"@,
        "thinking"@ != "name"@,
        "thinking"@ != "input"@,
        "id"@ != "name"@,
        "id"@ != "input"@,
        "name"@ != "input"@,
{
    reveal_strlit("type");
    reveal_strlit("text");
    reveal_strlit("thinking");
    reveal_strlit("id");
    reveal_strlit("name");
    reveal_strlit("input");
    assert("type"@.len() == 4);
    assert("text"@.len() == 4);
    assert("thinking"@.len() == 8);
    assert("id"@.len() == 2);
    assert("name"@.len() == 4);
    assert("input"@.len() == 5);
    assert("type"@[1] != "text"@[1]);
    assert("type"@[0] != "name"@[0]);
    assert("text"@[0] != "name"@[0]);
}

proof fn lemma_message_keys()
    ensures
        "content"@ != "stop_reason"@,
        "content"@ != "stop_sequence"@,
        "content"@ != "usage"@,
        "content"@ != "output_tokens"@,
        "stop_reason"@ != "stop_sequence"@,
        "stop_reason"@ != "usage"@,
        "stop_reason"@ != "output_tokens"@,
        "stop_sequence"@ != "usage"@,
        "stop_sequence"@ != "output_tokens"@,
        "usage"@ != "output_tokens"@,
{
    reveal_strlit("content");
    reveal_strlit("stop_reason");
    reveal_strlit("stop_sequence");
    reveal_strlit("usage");
    reveal_strlit("output_tokens");
    assert("content"@.len() == 7);
    assert("stop_reason"@.len() == 11);
    assert("stop_sequence"@.len() == 13);
    assert("usage"@.len() == 5);
    assert("output_tokens"@.len() == 13);
    assert("stop_sequence"@[0] != "output_tokens"@[0]);
}

proof fn lemma_caller_names()
    ensures
        "direct"@ != "programmatic"@,
        "direct"@ != "code_execution_20260120"@,
        "direct"@ != "code_execution_20260521"@,
        "programmatic"@ != "code_execution_20260120"@,
        "programmatic"@ != "code_execution_20260521"@,
        "code_execution_20260120"@ != "code_execution_20260521"@,
{
    reveal_strlit("direct");
    reveal_strlit("programmatic");
    reveal_strlit("code_execution_20260120");
    reveal_strlit("code_execution_20260521");
    assert("direct"@.len() == 6);
    assert("programmatic"@.len() == 12);
    assert("code_execution_20260120"@.len() == 23);
    assert("code_execution_20260521"@.len() == 23);
    assert("code_execution_20260120"@[20] != "code_execution_20260521"@[20]);
}

proof fn lemma_option_keys()
    ensures
        "allowed_domains"@ != "blocked_domains"@,
        "allowed_domains"@ != "user_location"@,
        "allowed_domains"@ != "max_uses"@,
        "blocked_domains"@ != "user_location"@,
        "blocked_domains"@ != "max_uses"@,
        "user_location"@ != "max_uses"@,
{
    reveal_strlit("allowed_domains");
    reveal_strlit("blocked_domains");
    reveal_strlit("user_location");
    reveal_strlit("max_uses");
    assert("allowed_domains"@.len() == 15);
    assert("blocked_domains"@.len() == 15);
    assert("user_location"@.len() == 13);
    assert("max_uses"@.len() == 8);
    assert("allowed_domains"@[0] != "blocked_domains"@[0]);
}

proof fn lemma_offer_keys()
    ensures
        "name"@ != "description"@,
        "name"@ != "input_schema"@,
        "description"@ != "input_schema"@,
{
    reveal_strlit("name");
    reveal_strlit("description");
    reveal_strlit("input_schema");
    assert("name"@.len() == 4);
    assert("description"@.len() == 11);
    assert("input_schema"@.len() == 12);
}

proof fn lemma_choices()
    ensures
        "auto"@ != "any"@,
        "auto"@ != "none"@,
        "auto"@ != "tool"@,
        "auto"@ != "name"@,
        "auto"@ != "disable_parallel_tool_use"@,
        "auto"@ != "tool_choice"@,
        "any"@ != "none"@,
        "any"@ != "tool"@,
        "any"@ != "name"@,
        "any"@ != "disable_parallel_tool_use"@,
        "any"@ != "tool_choice"@,
        "none"@ != "tool"@,
        "none"@ != "name"@,
        "none"@ != "disable_parallel_tool_use"@,
        "none"@ != "tool_choice"@,
        "tool"@ != "name"@,
        "tool"@ != "disable_parallel_tool_use"@,
        "tool"@ != "tool_choice"@,
        "name"@ != "disable_parallel_tool_use"@,
        "name"@ != "tool_choice"@,
        "disable_parallel_tool_use"@ != "tool_choice"@,
{
    reveal_strlit("auto");
    reveal_strlit("any");
    reveal_strlit("none");
    reveal_strlit("tool");
    reveal_strlit("name");
    reveal_strlit("disable_parallel_tool_use");
    reveal_strlit("tool_choice");
    assert("auto"@.len() == 4);
    assert("any"@.len() == 3);
    assert("none"@.len() == 4);
    assert("tool"@.len() == 4);
    assert("name"@.len() == 4);
    assert("disable_parallel_tool_use"@.len() == 25);
    assert("tool_choice"@.len() == 11);
    assert("auto"@[0] != "none"@[0]);
    assert("auto"@[0] != "tool"@[0]);
    assert("auto"@[0] != "name"@[0]);
    assert("none"@[0] != "tool"@[0]);
    assert("none"@[1] != "name"@[1]);
    assert("tool"@[0] != "name"@[0]);
}

proof fn lemma_request_keys()
    ensures
        "tools"@ != "tool_choice"@,
{
    reveal_strlit("tools");
    reveal_strlit("tool_choice");
    assert("tools"@.len() == 5);
    assert("tool_choice"@.len() == 11);
}

proof fn lemma_versions()
    ensures
        "custom"@ != "code_execution_20260120"@,
        "custom"@ != "code_execution_20260521"@,
        "custom"@ != "code_execution_20250522"@,
        "custom"@ != "code_execution_20250825"@,
        "custom"@ != "web_search_20250305"@,
        "custom"@ != "web_search_20260209"@,
        "code_execution_20260120"@ != "code_execution_20260521"@,
        "code_execution_20260120"@ != "code_execution_20250522"@,
        "code_execution_20260120"@ != "code_execution_20250825"@,
        "code_execution_20260120"@ != "web_search_20250305"@,
        "code_execution_20260120"@ != "web_search_20260209"@,
        "code_execution_20260521"@ != "code_execution_20250522"@,
        "code_execution_20260521"@ != "code_execution_20250825"@,
        "code_execution_20260521"@ != "web_search_20250305"@,
        "code_execution_20260521"@ != "web_search_20260209"@,
        "code_execution_20250522"@ != "code_execution_20250825"@,
        "code_execution_20250522"@ != "web_search_20250305"@,
        "code_execution_20250522"@ != "web_search_20260209"@,
        "code_execution_20250825"@ != "web_search_20250305"@,
        "code_execution_20250825"@ != "web_search_20260209"@,
        "web_search_20250305"@ != "web_search_20260209"@,
{
    reveal_strlit("custom");
    reveal_strlit("code_execution_20260120");
    reveal_strlit("code_execution_20260521");
    reveal_strlit("code_execution_20250522");
    reveal_strlit("code_execution_20250825");
    reveal_strlit("web_search_20250305");
    reveal_strlit("web_search_20260209");
    assert("custom"@.len() == 6);
    assert("code_execution_20260120"@.len() == 23);
    assert("code_execution_20260521"@.len() == 23);
    assert("code_execution_20250522"@.len() == 23);
    assert("code_execution_20250825"@.len() == 23);
    assert("web_search_20250305"@.len() == 19);
    assert("web_search_20260209"@.len() == 19);
    assert("code_execution_20260120"@[20] != "code_execution_20260521"@[20]);
    assert("code_execution_20260120"@[18] != "code_execution_20250522"@[18]);
    assert("code_execution_20260120"@[18] != "code_execution_20250825"@[18]);
    assert("code_execution_20260521"@[18] != "code_execution_20250522"@[18]);
    assert("code_execution_20260521"@[18] != "code_execution_20250825"@[18]);
    assert("code_execution_20250522"@[20] != "code_execution_20250825"@[20]);
    assert("web_search_20250305"@[14] != "web_search_20260209"@[14]);
}

} // verus!
