//! What is asked of a client before its request is taken, and how what it is sent is put together.

use vstd::prelude::*;
use vstd::string::*;
use crate::discovery::{DiscoveryBudget, DiscoveryError, DiscoveryView};
use crate::error::ErrorView;
use crate::gateway::live_search_complaint;
use crate::json::{group_fields_read_back, JsonView, NumberView};
use crate::mapper::DeclaredView;
use crate::messages::mapper::{classified, PlanView};
use crate::messages::schema_refs::{all_refs_hold, refs_hold, MAX_LOCAL_REF_DEPTH};
use crate::messages::stream;
use crate::operations::IndexedCall;
use crate::output::field_values;
use crate::registry::RegistryView;
use crate::remote_tool::{remote_names, RemoteToolView};
use crate::request::RequestView;
use crate::runtime::{active_complaint, first_unresolved, initialized, refreshed, PreparedView};
use crate::serde_value::{json_pointed, json_text};
use crate::streaming::{final_output, is_unknown, known_count, rendered, EventView};
use crate::telemetry::Recorded;
use crate::text;

verus! {

/// Every event is sent as one frame: its kind, then its body with the kind and its number, counted
/// from one; frames follow one another in the order of their events.
pub proof fn every_event_is_sent_as_a_frame(events: Seq<EventView>, event: EventView, key: Seq<char>)
    requires
        event.1 is Object,
    ensures
        exists|body: JsonView|
            {
                &&& rendered(events.push(event)) == rendered(events) + "event: "@ + event.0
                    + "\ndata: "@ + #[trigger] json_text(body) + "\n\n"@
                &&& body.get("type"@) == Some(JsonView::Text(event.0))
                &&& body.get("sequence_number"@) == Some(
                    JsonView::Number(NumberView::Unsigned((events.len() + 1) as u64)),
                )
                &&& key != "type"@ && key != "sequence_number"@ ==> body.get(key) == event.1.get(
                    key,
                )
            },
        rendered(Seq::empty()) == Seq::<char>::empty(),
        stream::rendered(events.push(event)) == stream::rendered(events) + "event: "@ + event.0
            + "\ndata: "@ + json_text(event.1) + "\n\n"@,
        stream::rendered(Seq::empty()) == Seq::<char>::empty(),
{
    broadcast use group_fields_read_back;

    lemma_frame_keys();
    assert(events.push(event).drop_last() =~= events);
    let body = event.1.with("type"@, JsonView::Text(event.0)).with(
        "sequence_number"@,
        crate::streaming::number(events.push(event).len() as int),
    );
    assert(rendered(events.push(event)) == rendered(events) + "event: "@ + event.0 + "\ndata: "@
        + json_text(body) + "\n\n"@);
}

/// The output of a final response is the output that the model gave: what is known of it as it was
/// read, and what is not known as it was; every other field stays.
pub proof fn a_final_output_is_what_the_model_gave(
    response: JsonView,
    raw: Seq<JsonView>,
    known: Seq<Seq<char>>,
    key: Seq<char>,
)
    ensures
        match final_output(response, raw, known) {
            Ok(whole) => {
                &&& response.get("output"@) matches Some(JsonView::Array(typed)) && typed.len()
                    == known_count(raw, known)
                &&& key != "output"@ ==> whole.get(key) == response.get(key)
                &&& whole.get("output"@) matches Some(JsonView::Array(items)) && items.len()
                    == raw.len() && forall|i: int|
                    0 <= i < raw.len() && is_unknown(raw[i], known) ==> (#[trigger] items[i])
                        == raw[i]
            },
            Err(_) => !(response.get("output"@) matches Some(JsonView::Array(typed))) || response.get(
                "output"@,
            )->0->Array_0.len() != known_count(raw, known),
        },
{
    broadcast use group_fields_read_back;

    if let Some(JsonView::Array(typed)) = response.get("output"@) {
        crate::streaming::merging_keeps_unknown_items_in_place(raw, typed, known);
    }
}

/// A request is taken where what it defers can be found by a search, it forces nothing that is
/// deferred, its programs can be run, all its functions are registered, and it runs neither in the
/// background nor within a stored conversation; and only there.
pub proof fn a_request_is_taken_where_it_can_be_carried_out(
    found: DeclaredView,
    request: RequestView,
    registry: RegistryView,
)
    ensures
        active_complaint(found, request, Some(registry)) is None <==> {
            &&& found.deferred.len() > 0 || crate::runtime::some_server_defers(found.servers)
                ==> found.tool_search
            &&& forall|i: int|
                0 <= i < found.deferred.len() && request.rest.get("tool_choice"@) is Some
                    && request.rest.get("tool_choice"@)->0.text_at("type"@) == Some("function"@)
                    ==> request.rest.get("tool_choice"@)->0.text_at("name"@) != Some(
                    (#[trigger] found.deferred[i]).public_name,
                )
            &&& found.programmatic ==> registry.has_internal("_agentgateway_code_interpreter"@)
            &&& forall|i: int|
                0 <= i < found.function_names.len() ==> registry.resolves(
                    #[trigger] found.function_names[i],
                )
            &&& request.rest.get("background"@) != Some(JsonView::Bool(true))
            &&& request.rest.get("conversation"@) is None || request.rest.get("conversation"@)
                == Some(JsonView::Null)
        },
{
    lemma_first_unresolved(registry, found.function_names);
    if let Some(name) = first_unresolved(registry, found.function_names) {
        let i = choose|i: int|
            0 <= i < found.function_names.len() && found.function_names[i] == name;
        assert(!registry.resolves(found.function_names[i]));
    }
}

proof fn lemma_first_unresolved(registry: RegistryView, names: Seq<Seq<char>>)
    ensures
        match first_unresolved(registry, names) {
            Some(name) => names.contains(name) && !registry.resolves(name),
            None => forall|i: int|
                0 <= i < names.len() ==> registry.resolves(#[trigger] names[i]),
        },
    decreases names.len(),
{
    if names.len() > 0 {
        let rest = names.drop_first();
        lemma_first_unresolved(registry, rest);
        if !registry.resolves(names[0]) {
            assert(names.contains(names[0]));
        } else if let Some(name) = first_unresolved(registry, rest) {
            let i = choose|i: int| 0 <= i < rest.len() && rest[i] == name;
            assert(names[i + 1] == name);
        } else {
            assert forall|i: int| 0 <= i < names.len() implies registry.resolves(
                #[trigger] names[i],
            ) by {
                if i > 0 {
                    assert(rest[i - 1] == names[i]);
                }
            }
        }
    }
}

/// Once its servers are asked, nothing of a request is left pending, and its choice of a tool is none
/// of a server any more.
pub proof fn a_request_is_complete_once_its_servers_were_asked(prepared: PreparedView)
    ensures
        match initialized(prepared) {
            Ok(after) => {
                &&& refreshed(PreparedView { pending: Seq::empty(), ..prepared }) == Ok::<
                    PreparedView,
                    ErrorView,
                >(after)
                &&& after.request.rest.get("tool_choice"@) matches Some(choice) ==> choice.text_at(
                    "type"@,
                ) != Some("mcp"@)
            },
            Err(_) => match refreshed(PreparedView { pending: Seq::empty(), ..prepared }) {
                Ok(after) => after.request.rest.get("tool_choice"@) matches Some(choice)
                    && choice.text_at("type"@) == Some("mcp"@),
                Err(_) => true,
            },
        },
{
}

/// A page of a list of tools is followed by the page of its cursor: one that is not too long and was
/// not followed before.
pub proof fn a_cursor_is_followed_once(
    discovery: DiscoveryView,
    tools: Seq<RemoteToolView>,
    cursor: Seq<char>,
)
    requires
        discovery.after_tools(tools) is Ok,
    ensures
        ({
            let read = discovery.after_tools(tools)->Ok_0;
            &&& discovery.after_page(tools, None) == Ok::<DiscoveryView, DiscoveryError>(read)
            &&& match discovery.after_page(tools, Some(cursor)) {
                Ok(after) => {
                    &&& !read.cursors.contains(cursor)
                    &&& after.cursors == read.cursors.push(cursor)
                    &&& after.tools == read.tools && after.names == read.names && after.allowed
                        == read.allowed
                    &&& after.budget.bytes == read.budget.bytes + text::byte_len(cursor)
                    &&& after.budget.pages == read.budget.pages && after.budget.tools
                        == read.budget.tools
                },
                Err(error) => {
                    ||| read.cursors.contains(cursor)
                    ||| text::byte_len(cursor) > crate::mapper::MAX_DESCRIPTION_BYTES
                    ||| read.budget.bytes + text::byte_len(cursor)
                        > crate::remote_tool::MAX_DISCOVERY_BYTES
                },
            }
            &&& text::byte_len(cursor) > crate::mapper::MAX_DESCRIPTION_BYTES
                ==> discovery.after_page(tools, Some(cursor)) is Err
        }),
{
}

/// A discovery is complete where every tool that it was to find was found.
pub proof fn a_discovery_is_complete_with_all_that_was_wanted(
    discovery: DiscoveryView,
    name: Seq<char>,
)
    ensures
        discovery.allowed is None ==> discovery.complete(),
        discovery.complete() ==> (discovery.allowed matches Some(wanted) ==> wanted.contains(name)
            ==> remote_names(discovery.tools).contains(name)),
        discovery.allowed matches Some(wanted) ==> (forall|i: int|
            0 <= i < wanted.len() ==> remote_names(discovery.tools).contains(#[trigger] wanted[i]))
            ==> discovery.complete(),
        DiscoveryBudget::unused().within_limits(),
        DiscoveryBudget::unused().bytes == 0 && DiscoveryBudget::unused().pages == 0
            && DiscoveryBudget::unused().tools == 0,
{
    if discovery.allowed is Some && discovery.complete() && discovery.allowed->0.contains(name) {
        let wanted = discovery.allowed->0;
        let i = choose|i: int| 0 <= i < wanted.len() && wanted[i] == name;
        assert(remote_names(discovery.tools).contains(wanted[i]));
    }
}

/// An answer of a live search is accepted where it is a success with a list of results, and only
/// there.
pub proof fn a_live_search_gives_results(status: u16, body: Result<JsonView, Seq<char>>)
    ensures
        live_search_complaint(status, body) is None <==> status == 200 && body is Ok && (
        body->Ok_0.get("results"@) matches Some(JsonView::Array(results))),
{
}

/// Once calls are begun, none of them waits any more, and each that was waiting is known by what it
/// was and when it was queued.
pub proof fn begun_calls_wait_no_more(before: Recorded, calls: Seq<IndexedCall>, k: usize)
    ensures
        ({
            let after = before.calls_executing(calls).state;
            &&& forall|i: int|
                0 <= i < calls.len() ==> !after.call_waits((#[trigger] calls[i]).execution_index)
            &&& after.started_calls.dom() =~= before.state.started_calls.dom()
            &&& before.state.started_calls.dom().contains(k) ==> {
                &&& after.started_calls[k].tool == before.state.started_calls[k].tool
                &&& after.started_calls[k].backend == before.state.started_calls[k].backend
                &&& after.started_calls[k].started == before.state.started_calls[k].started
                &&& before.state.started_calls[k].executing ==> after.started_calls[k].executing
            }
            &&& after.records == before.state.records
        }),
    decreases calls.len(),
{
    if calls.len() > 0 {
        let rest = calls.drop_last();
        let n = calls.len() - 1;
        begun_calls_wait_no_more(before, rest, k);
        let middle = before.calls_executing(rest).state;
        let after = before.calls_executing(calls).state;
        assert forall|i: int| 0 <= i < calls.len() implies !after.call_waits(
            (#[trigger] calls[i]).execution_index,
        ) by {
            if i < n {
                assert(rest[i] == calls[i]);
                assert(!middle.call_waits(rest[i].execution_index));
            }
        }
    }
}

/// Whether all of some nodes hold their references is whether each does.
pub proof fn all_references_hold_where_each_does(
    root: JsonView,
    nodes: Seq<JsonView>,
    depth: nat,
    following: Seq<Seq<char>>,
)
    requires
        depth <= MAX_LOCAL_REF_DEPTH,
    ensures
        all_refs_hold(root, nodes, depth, following) <==> forall|i: int|
            0 <= i < nodes.len() ==> refs_hold(root, #[trigger] nodes[i], depth, following),
    decreases nodes.len(),
{
    if nodes.len() > 0 {
        let rest = nodes.drop_last();
        all_references_hold_where_each_does(root, rest, depth, following);
        assert(forall|i: int| 0 <= i < rest.len() ==> rest[i] == #[trigger] nodes[i]);
        if all_refs_hold(root, nodes, depth, following) {
            assert forall|i: int| 0 <= i < nodes.len() implies refs_hold(
                root,
                #[trigger] nodes[i],
                depth,
                following,
            ) by {
                if i < rest.len() {
                    assert(refs_hold(root, rest[i], depth, following));
                }
            }
        } else if forall|i: int|
            0 <= i < nodes.len() ==> refs_hold(root, #[trigger] nodes[i], depth, following) {
            assert forall|i: int| 0 <= i < rest.len() implies refs_hold(
                root,
                #[trigger] rest[i],
                depth,
                following,
            ) by {
                assert(refs_hold(root, nodes[i], depth, following));
            }
            assert(refs_hold(root, nodes[nodes.len() - 1], depth, following));
        }
    }
}

/// A reference that holds leads to a place of the schema that is not already being followed, and what
/// is there holds too; and so do the parts of a node.
pub proof fn a_reference_that_holds_leads_somewhere(
    root: JsonView,
    node: JsonView,
    depth: nat,
    following: Seq<Seq<char>>,
    target: Seq<char>,
    i: int,
)
    requires
        refs_hold(root, node, depth, following),
    ensures
        depth <= MAX_LOCAL_REF_DEPTH,
        node.get("$ref"@) == Some(JsonView::Text("#"@ + target)) ==> {
            &&& json_pointed(root, target) is Some
            &&& !following.contains(target)
            &&& refs_hold(root, json_pointed(root, target)->0, depth + 1, following.push(target))
        },
        node matches JsonView::Array(items) ==> 0 <= i < items.len() ==> depth
            < MAX_LOCAL_REF_DEPTH ==> refs_hold(root, items[i], depth + 1, following),
        node matches JsonView::Object(fields) ==> 0 <= i < fields.len() ==> depth
            < MAX_LOCAL_REF_DEPTH ==> refs_hold(root, fields[i].1, depth + 1, following),
{
    crate::laws::texts::what_is_joined_to_a_text_is_taken_off_again(target, "#"@);
    if depth < MAX_LOCAL_REF_DEPTH {
        if let JsonView::Array(items) = node {
            all_references_hold_where_each_does(root, items, depth + 1, following);
        }
        if let JsonView::Object(fields) = node {
            all_references_hold_where_each_does(root, field_values(fields), depth + 1, following);
            if 0 <= i < fields.len() {
                assert(field_values(fields)[i] == fields[i].1);
            }
        }
    }
}

/// A declaration of a request of messages is taken up once under its name.
pub proof fn a_declared_name_is_taken_up_once(
    plan: PlanView,
    registry: Option<RegistryView>,
    declaration: JsonView,
)
    ensures
        match classified(plan, registry, declaration) {
            Ok(after) => match declaration.text_at("name"@) {
                Some(name) => !plan.seen_names.contains(name) && after.seen_names
                    == plan.seen_names.push(name),
                None => after == plan,
            },
            Err(_) => true,
        },
{
}

proof fn lemma_frame_keys()
    ensures
        "type"@ != "sequence_number"@,
{
    reveal_strlit("type");
    reveal_strlit("sequence_number");
    assert("type"@.len() == 4);
    assert("sequence_number"@.len() == 15);
}

} // verus!
