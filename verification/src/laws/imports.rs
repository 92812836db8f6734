//! What becomes of the tools of a remote server, and what the server is asked.

use vstd::prelude::*;
use vstd::string::*;
use crate::address::{public_address, IpAddress};
use crate::backend::{CallView, ToolInfrastructureError};
use crate::conversation::{catalog_entry, rank, with_tool, SpecView, StateView};
use crate::discovery::DiscoveryView;
use crate::error::ErrorView;
use crate::json::{group_fields_read_back, Json, JsonView};
use crate::laws::calls::{a_request_holds_the_field_that_it_was_given, lemma_decimal_injective};
use crate::mapper::{ServerView, MAX_DESCRIPTION_BYTES};
use crate::output::ResultView;
use crate::registry::{by_internal, by_public, RequestBackend, ToolView};
use crate::remote_client::{
    bearer, call_time, endpoint_of, may_connect, message_end, remote_request, remote_result,
    request_path, RemoteAnswer, RemoteCallEnd, SessionMessage, REQUEST_NANOS,
};
use crate::remote_tool::{RemoteToolView, MAX_DISCOVERED_TOOLS};
use crate::runtime::{
    all_imported, imported, imported_name, imported_words, installed, refreshed, without_programs,
    ImportView, PreparedView,
};
use crate::schema::schema_compiles;
use crate::telemetry::ToolBackendLabel;
use crate::time::Instant;
use crate::url::UrlView;
use crate::{schema, text};

verus! {

/// Whether a registered tool is the one that a server advertised: under the label of the server and
/// its own name, checked against the schema that was advertised, and answered by that server, which
/// is told the name that it gave the tool.
pub open spec fn stands_for(
    tool: ToolView,
    server_index: usize,
    server: ServerView,
    advertised: RemoteToolView,
) -> bool {
    &&& tool.public_name == server.server_label + "."@ + advertised.remote_name
    &&& tool.argument_schema == Some(advertised.input_schema)
    &&& tool.backend is None
    &&& tool.request_backend == Some(
        RequestBackend { server: server_index, label: ToolBackendLabel::RemoteMcp },
    )
    &&& tool.trusted_options is Some
    &&& tool.trusted_options->0.get("remote_tool_name"@) == Some(
        JsonView::Text(advertised.remote_name),
    )
}

/// Whether a declaration offers a tool to the model: under its internal name, with the schema that
/// was advertised.
pub open spec fn offers(
    declaration: JsonView,
    tool: ToolView,
    server: ServerView,
    advertised: RemoteToolView,
) -> bool {
    &&& declaration.get("type"@) == Some(JsonView::Text("function"@))
    &&& declaration.get("name"@) == Some(JsonView::Text(tool.internal_name))
    &&& declaration.get("parameters"@) == Some(advertised.input_schema)
    &&& declaration.get("strict"@) == Some(JsonView::Bool(false))
    &&& declaration.get("description"@) matches Some(JsonView::Text(words)) && is_described(
        words,
        server,
        advertised,
    )
}

/// Whether words are the first of those that a server and a tool describe themselves with, as far
/// as they fit.
pub open spec fn is_described(
    words: Seq<char>,
    server: ServerView,
    advertised: RemoteToolView,
) -> bool {
    let label = "["@ + server.server_label + "] "@;
    let whole = if server.server_description is Some && advertised.description is Some {
        label + server.server_description->0 + "\n\n"@ + advertised.description->0
    } else if server.server_description is Some {
        label + server.server_description->0
    } else if advertised.description is Some {
        label + advertised.description->0
    } else {
        "Tool from remote MCP server "@ + server.server_label
    };
    &&& text::byte_len(words) <= MAX_DESCRIPTION_BYTES
    &&& words == whole.take(words.len() as int) && words.len() <= whole.len()
    &&& text::byte_len(whole) <= MAX_DESCRIPTION_BYTES ==> words == whole
}

proof fn lemma_described(server: ServerView, advertised: RemoteToolView)
    ensures
        is_described(imported_words(server, advertised), server, advertised),
{
    let label = "["@ + server.server_label + "] "@;
    let whole = if server.server_description is Some && advertised.description is Some {
        label + server.server_description->0 + "\n\n"@ + advertised.description->0
    } else if server.server_description is Some {
        label + server.server_description->0
    } else if advertised.description is Some {
        label + advertised.description->0
    } else {
        "Tool from remote MCP server "@ + server.server_label
    };
    text::truncated_is_the_longest_fitting_prefix(whole, MAX_DESCRIPTION_BYTES as nat);
    assert(whole.take(whole.len() as int) =~= whole);
}

/// Whether a program is offered a tool: under the label of the server and its own name, with the
/// schemas that were advertised.
pub open spec fn offers_program(
    spec: SpecView,
    tool: ToolView,
    server: ServerView,
    advertised: RemoteToolView,
) -> bool {
    &&& spec.public_name == server.server_label + "."@ + advertised.remote_name
    &&& spec.internal_name == tool.internal_name
    &&& spec.input_schema == advertised.input_schema
    &&& spec.output_schema == advertised.output_schema
    &&& is_described(spec.description, server, advertised)
}

/// Whether what was imported of the first tools of a server is what was advertised.
pub open spec fn imports(
    before: ImportView,
    after: ImportView,
    server_index: usize,
    server: ServerView,
    tools: Seq<RemoteToolView>,
) -> bool {
    let known = before.prepared.state.registry.tools;
    let registered = after.prepared.state.registry.tools;
    let direct = server.allowed_callers.direct;
    let programmatic = server.allowed_callers.programmatic;
    &&& registered.len() == known.len() + tools.len()
    &&& registered.take(known.len() as int) =~= known
    &&& forall|k: int|
        0 <= k < tools.len() ==> stands_for(
            #[trigger] registered[known.len() + k],
            server_index,
            server,
            tools[k],
        )
    &&& after.declarations.len() == before.declarations.len() + if direct {
        tools.len()
    } else {
        0
    }
    &&& after.declarations.take(before.declarations.len() as int) =~= before.declarations
    &&& direct ==> forall|k: int|
        0 <= k < tools.len() ==> offers(
            #[trigger] after.declarations[before.declarations.len() + k],
            registered[known.len() + k],
            server,
            tools[k],
        )
    &&& programmatic ==> forall|k: int|
        0 <= k < tools.len() ==> exists|p: int|
            0 <= p < after.prepared.state.programmatic_tools.len() && offers_program(
                #[trigger] after.prepared.state.programmatic_tools[p],
                #[trigger] registered[known.len() + k],
                server,
                tools[k],
            )
    &&& !programmatic ==> after.prepared.state.programmatic_tools
        == before.prepared.state.programmatic_tools
    &&& after.prepared.request.history == before.prepared.request.history
    &&& after.prepared.request.stream == before.prepared.request.stream
    &&& after.prepared.usage == before.prepared.usage
    &&& after.prepared.pending == before.prepared.pending
    &&& after.prepared.client_tools == before.prepared.client_tools
    &&& after.prepared.client_streaming == before.prepared.client_streaming
    &&& after.prepared.include_obfuscation == before.prepared.include_obfuscation
    &&& after.prepared.tool_search == before.prepared.tool_search
    &&& after.prepared.state.deadline == before.prepared.state.deadline
    &&& after.prepared.state.parallel == before.prepared.state.parallel
    &&& after.prepared.state.programmatic_requested == before.prepared.state.programmatic_requested
    &&& after.prepared.state.registry.limits == before.prepared.state.registry.limits
    &&& forall|key: Seq<char>|
        key != "tool_choice"@ ==> #[trigger] after.prepared.request.rest.get(key)
            == before.prepared.request.rest.get(key)
}

proof fn lemma_placed(tools: Seq<SpecView>, tool: SpecView)
    ensures
        exists|p: int| 0 <= p < with_tool(tools, tool).len() && #[trigger] with_tool(tools, tool)[p]
            == tool,
        forall|k: int|
            0 <= k < tools.len() ==> exists|p: int|
                0 <= p < with_tool(tools, tool).len() && with_tool(tools, tool)[p]
                    == #[trigger] tools[k],
{
    let n = rank(tools, tool.public_name) as int;
    crate::conversation::lemma_rank(tools, tool.public_name);
    let after = with_tool(tools, tool);
    assert(after[n] == tool);
    assert forall|k: int| 0 <= k < tools.len() implies exists|p: int|
        0 <= p < after.len() && after[p] == #[trigger] tools[k] by {
        if k < n {
            assert(after[k] == tools[k]);
        } else {
            assert(after[k + 1] == tools[k]);
        }
    }
}

proof fn lemma_all_imported(
    start: ImportView,
    server_index: usize,
    server: ServerView,
    tools: Seq<RemoteToolView>,
)
    requires
        all_imported(start, server_index, server, tools) is Ok,
    ensures
        imports(
            start,
            all_imported(start, server_index, server, tools)->Ok_0,
            server_index,
            server,
            tools,
        ),
    decreases tools.len(),
{
    broadcast use group_fields_read_back;

    lemma_import_keys();
    let after = all_imported(start, server_index, server, tools)->Ok_0;
    if tools.len() > 0 {
        let rest = tools.drop_last();
        let last = tools.last();
        let n = tools.len() - 1;
        lemma_all_imported(start, server_index, server, rest);
        let before = all_imported(start, server_index, server, rest)->Ok_0;
        assert(imported(before, server_index, server, n as nat, last) == Ok::<
            ImportView,
            ErrorView,
        >(after));
        let known = start.prepared.state.registry.tools;
        let registered = after.prepared.state.registry.tools;
        let earlier = before.prepared.state.registry.tools;
        lemma_described(server, last);
        assert(registered[known.len() + n] == registered.last());
        assert(registered.take(known.len() as int) =~= earlier.take(known.len() as int));
        assert forall|k: int| 0 <= k < tools.len() implies stands_for(
            #[trigger] registered[known.len() + k],
            server_index,
            server,
            tools[k],
        ) by {
            if k < n {
                assert(registered[known.len() + k] == earlier[known.len() + k]);
                assert(rest[k] == tools[k]);
            }
        }
        let m = start.declarations.len();
        assert(after.declarations.take(m as int) =~= before.declarations.take(m as int));
        if server.allowed_callers.direct {
            assert forall|k: int| 0 <= k < tools.len() implies offers(
                #[trigger] after.declarations[m + k],
                registered[known.len() + k],
                server,
                tools[k],
            ) by {
                if k < n {
                    assert(after.declarations[m + k] == before.declarations[m + k]);
                    assert(registered[known.len() + k] == earlier[known.len() + k]);
                    assert(rest[k] == tools[k]);
                }
            }
        }
        if server.allowed_callers.programmatic {
            let specs = before.prepared.state.programmatic_tools;
            let more = after.prepared.state.programmatic_tools;
            let added = crate::runtime::imported_spec(
                server,
                imported_name(server_index as nat, n as nat),
                last,
            );
            assert(more == with_tool(specs, added));
            lemma_placed(specs, added);
            assert forall|k: int| 0 <= k < tools.len() implies exists|p: int|
                0 <= p < more.len() && offers_program(
                    #[trigger] more[p],
                    #[trigger] registered[known.len() + k],
                    server,
                    tools[k],
                ) by {
                if k < n {
                    assert(registered[known.len() + k] == earlier[known.len() + k]);
                    assert(rest[k] == tools[k]);
                    let q = choose|q: int|
                        0 <= q < specs.len() && offers_program(
                            #[trigger] specs[q],
                            #[trigger] earlier[known.len() + k],
                            server,
                            rest[k],
                        );
                    let p = choose|p: int| 0 <= p < more.len() && more[p] == specs[q];
                    assert(offers_program(more[p], registered[known.len() + k], server, tools[k]));
                } else {
                    let p = choose|p: int| 0 <= p < more.len() && #[trigger] more[p] == added;
                    assert(offers_program(more[p], registered[known.len() + k], server, tools[k]));
                }
            }
        }
        assert forall|key: Seq<char>| key != "tool_choice"@ implies #[trigger]
        after.prepared.request.rest.get(key) == start.prepared.request.rest.get(key) by {
            assert(before.prepared.request.rest.get(key) == start.prepared.request.rest.get(key));
        }
    } else {
        assert(start.prepared.state.registry.tools.take(
            start.prepared.state.registry.tools.len() as int,
        ) =~= start.prepared.state.registry.tools);
        assert(start.declarations.take(start.declarations.len() as int) =~= start.declarations);
    }
}

/// Whether a request after an import offers what was advertised.
pub open spec fn declares(
    before: PreparedView,
    after: PreparedView,
    server_index: usize,
    server: ServerView,
    tools: Seq<RemoteToolView>,
) -> bool {
    let known = before.state.registry.tools.len();
    let offered = before.request.tools().len();
    let registered = after.state.registry.tools;
    &&& registered.len() == known + tools.len()
    &&& registered.take(known as int) =~= before.state.registry.tools
    &&& forall|k: int|
        0 <= k < tools.len() ==> stands_for(
            #[trigger] registered[known + k],
            server_index,
            server,
            tools[k],
        )
    &&& after.request.tools().len() == offered + if server.allowed_callers.direct {
        tools.len()
    } else {
        0
    }
    &&& after.request.tools().take(offered as int) =~= before.request.tools()
    &&& server.allowed_callers.direct ==> forall|k: int|
        0 <= k < tools.len() ==> offers(
            #[trigger] after.request.tools()[offered + k],
            registered[known + k],
            server,
            tools[k],
        )
    &&& server.allowed_callers.programmatic ==> forall|k: int|
        0 <= k < tools.len() ==> exists|p: int|
            0 <= p < after.state.programmatic_tools.len() && offers_program(
                #[trigger] after.state.programmatic_tools[p],
                #[trigger] registered[known + k],
                server,
                tools[k],
            )
    &&& !server.allowed_callers.programmatic ==> after.state.programmatic_tools
        == before.state.programmatic_tools
}

/// Whether an import changed nothing of a request but its tools and perhaps its choice of one.
pub open spec fn keeps_the_rest(before: PreparedView, after: PreparedView) -> bool {
    &&& after.request.history == before.request.history
    &&& after.request.stream == before.request.stream
    &&& forall|key: Seq<char>|
        key != "tool_choice"@ && key != "tools"@ ==> #[trigger] after.request.rest.get(key)
            == before.request.rest.get(key)
    &&& after.usage == before.usage
    &&& after.pending == before.pending
    &&& after.client_tools == before.client_tools
    &&& after.client_streaming == before.client_streaming
    &&& after.include_obfuscation == before.include_obfuscation
    &&& after.tool_search == before.tool_search
    &&& after.state.deadline == before.state.deadline
    &&& after.state.parallel == before.state.parallel
    &&& after.state.programmatic_requested == before.state.programmatic_requested
    &&& after.state.registry.limits == before.state.registry.limits
}

/// After an import every tool of the server is registered with the schema that the server
/// advertised, against which its calls are checked; where the model may call it, the request offers
/// it with that same schema; where programs may, they are offered it with that same schema. Nothing
/// else of the request changes but a choice of such a tool.
pub proof fn imported_tools_are_offered_as_they_were_advertised(
    prepared: PreparedView,
    server_index: usize,
    tools: Seq<RemoteToolView>,
)
    requires
        installed(prepared, server_index, tools) is Ok,
    ensures
        server_index < prepared.pending.len(),
        declares(
            prepared,
            installed(prepared, server_index, tools)->Ok_0,
            server_index,
            prepared.pending[server_index as int],
            tools,
        ),
        keeps_the_rest(prepared, installed(prepared, server_index, tools)->Ok_0),
{
    broadcast use group_fields_read_back;

    lemma_import_keys();
    let server = prepared.pending[server_index as int];
    let start = ImportView { prepared, declarations: prepared.request.tools() };
    lemma_all_imported(start, server_index, server, tools);
    let inner = all_imported(start, server_index, server, tools)->Ok_0;
    let after = installed(prepared, server_index, tools)->Ok_0;
    a_request_holds_the_field_that_it_was_given(
        inner.prepared.request,
        "tools"@,
        JsonView::Array(inner.declarations),
        "tools"@,
    );
    assert(after.request.tools() == inner.declarations);
    let known = prepared.state.registry.tools.len();
    let offered = prepared.request.tools().len();
    let registered = after.state.registry.tools;
    assert(registered == inner.prepared.state.registry.tools);
    assert(after.state.programmatic_tools == inner.prepared.state.programmatic_tools);
    if server.allowed_callers.direct {
        assert forall|k: int| 0 <= k < tools.len() implies offers(
            #[trigger] after.request.tools()[offered + k],
            registered[known + k],
            server,
            tools[k],
        ) by {
            assert(offers(
                inner.declarations[start.declarations.len() + k],
                registered[known + k],
                server,
                tools[k],
            ));
        }
    }
    if server.allowed_callers.programmatic {
        assert forall|k: int| 0 <= k < tools.len() implies exists|p: int|
            0 <= p < after.state.programmatic_tools.len() && offers_program(
                #[trigger] after.state.programmatic_tools[p],
                #[trigger] registered[known + k],
                server,
                tools[k],
            ) by {
            let p = choose|p: int|
                0 <= p < inner.prepared.state.programmatic_tools.len() && offers_program(
                    #[trigger] inner.prepared.state.programmatic_tools[p],
                    registered[known + k],
                    server,
                    tools[k],
                );
            assert(offers_program(
                after.state.programmatic_tools[p],
                registered[known + k],
                server,
                tools[k],
            ));
        }
    }
    assert forall|key: Seq<char>| key != "tool_choice"@ && key != "tools"@ implies #[trigger]
    after.request.rest.get(key) == prepared.request.rest.get(key) by {
        a_request_holds_the_field_that_it_was_given(
            inner.prepared.request,
            "tools"@,
            JsonView::Array(inner.declarations),
            key,
        );
        assert(inner.prepared.request.rest.get(key) == prepared.request.rest.get(key));
    }
}

/// One more tool is imported where its schema is one and neither of its names is taken, and where
/// programs may call it, where their catalog has room for it.
pub proof fn a_tool_is_imported_where_nothing_stands_against_it(
    so_far: ImportView,
    server_index: usize,
    server: ServerView,
    tool_index: nat,
    tool: RemoteToolView,
)
    ensures
        ({
            let tools = so_far.prepared.state.registry.tools;
            let name = imported_name(server_index as nat, tool_index);
            let taken = by_internal(tools, name) is Some || by_public(
                tools,
                server.server_label + "."@ + tool.remote_name,
            ) is Some;
            &&& !server.allowed_callers.programmatic && schema_compiles(tool.input_schema)
                && !taken ==> imported(so_far, server_index, server, tool_index, tool) is Ok
            &&& imported(so_far, server_index, server, tool_index, tool) is Ok ==> schema_compiles(
                tool.input_schema,
            ) && !taken
        }),
{
}

/// A choice of a tool of the server is a choice of the function that stands for it; any other
/// choice stays.
pub proof fn a_choice_of_an_imported_tool_is_a_choice_of_its_function(
    so_far: ImportView,
    server_index: usize,
    server: ServerView,
    tool_index: nat,
    tool: RemoteToolView,
)
    requires
        imported(so_far, server_index, server, tool_index, tool) is Ok,
    ensures
        ({
            let before = so_far.prepared.request.rest.get("tool_choice"@);
            let after = imported(
                so_far,
                server_index,
                server,
                tool_index,
                tool,
            )->Ok_0.prepared.request.rest.get("tool_choice"@);
            let chosen = before is Some && before->0.text_at("type"@) == Some("mcp"@)
                && before->0.text_at("server_label"@) == Some(server.server_label)
                && before->0.text_at("name"@) == Some(tool.remote_name)
                && server.allowed_callers.direct;
            &&& chosen ==> after is Some && after->0.get("type"@) == Some(
                JsonView::Text("function"@),
            ) && after->0.get("name"@) == Some(
                JsonView::Text(imported_name(server_index as nat, tool_index)),
            )
            &&& !chosen ==> after == before
        }),
{
    broadcast use group_fields_read_back;

    lemma_import_keys();
}

/// Tools of different places have different names, by which the model calls them.
pub proof fn imported_names_differ(server: nat, tool: nat, other: nat)
    requires
        imported_name(server, tool) == imported_name(server, other),
    ensures
        tool == other,
{
    let prefix = crate::config::REMOTE_MCP_FUNCTION_PREFIX@ + text::decimal(server) + "_"@;
    let n = prefix.len() as int;
    assert(imported_name(server, tool).skip(n) =~= text::decimal(tool));
    assert(imported_name(server, other).skip(n) =~= text::decimal(other));
    lemma_decimal_injective(tool, other);
}

/// Every tool that programs may call is in their catalog with its name, its description and its
/// schemas.
pub proof fn a_catalog_entry_describes_its_tool(tool: SpecView)
    ensures
        ({
            let entry = catalog_entry(tool);
            &&& entry.get("name"@) == Some(JsonView::Text(tool.public_name))
            &&& entry.get("description"@) == Some(JsonView::Text(tool.description))
            &&& entry.get("input_schema"@) == Some(tool.input_schema)
            &&& entry.get("output_schema"@) == tool.output_schema
        }),
{
    broadcast use group_fields_read_back;

    lemma_entry_keys();
}

/// What programs may call grows by the tool that was added, and by nothing else.
pub proof fn an_added_tool_can_be_called_by_programs(state: StateView, tool: SpecView)
    ensures
        match state.with_programmatic_tool(tool) {
            Ok(after) => {
                &&& after.programmatic_tools.len() == state.programmatic_tools.len() + 1
                &&& exists|p: int|
                    0 <= p <= state.programmatic_tools.len() && after.programmatic_tools
                        == #[trigger] state.programmatic_tools.insert(p, tool)
                &&& after.registry == state.registry
                &&& after.parallel == state.parallel
                &&& after.deadline == state.deadline
                &&& after.programmatic_requested == state.programmatic_requested
            },
            Err(_) => true,
        },
{
    if state.with_programmatic_tool(tool) is Ok {
        let n = rank(state.programmatic_tools, tool.public_name) as int;
        crate::conversation::lemma_rank(state.programmatic_tools, tool.public_name);
        assert(state.with_programmatic_tool(tool)->Ok_0.programmatic_tools
            == state.programmatic_tools.insert(n, tool));
    }
}

/// A remote server is asked for the tool by the name that it gave it, with the arguments of the
/// call.
pub proof fn a_server_is_asked_what_was_called(call: CallView, name: Seq<char>)
    ensures
        match remote_request(call) {
            Ok((asked, arguments)) => {
                &&& call.trusted_options.get("remote_tool_name"@) == Some(JsonView::Text(asked))
                &&& call.arguments is Object ==> arguments == call.arguments
                &&& !(call.arguments is Object) ==> arguments == JsonView::empty()
            },
            Err(error) => error == ToolInfrastructureError::Configuration,
        },
        call.trusted_options.get("remote_tool_name"@) == Some(JsonView::Text(name)) ==> (
        remote_request(call) matches Ok((asked, _)) && asked == name),
{
}

/// What a remote server gives for a call is its result, as it is; a call that the server refuses
/// failed, and a session that broke is a failure of the backend.
pub proof fn what_a_server_gives_is_the_result(value: Json)
    ensures
        remote_result(RemoteAnswer::Result(value)) == Ok::<ResultView, ToolInfrastructureError>(
            ResultView::Function(value@),
        ),
        remote_result(RemoteAnswer::Application) matches Ok(result) && result is ApplicationError
            && !result->ApplicationError_0.retryable,
        remote_result(RemoteAnswer::Infrastructure) is Err,
{
}

/// A request to a server ends with its answer or its failure, with a request of the server's own or
/// with the end of the session; nothing else ends it.
pub proof fn a_request_ends_with_what_is_about_it(message: SessionMessage)
    ensures
        message is Answer <==> message_end(message) == Some(RemoteCallEnd::Answered),
        message is Failure <==> message_end(message) == Some(RemoteCallEnd::Application),
        message is Other <==> message_end(message) is None,
{
}

/// A call of a remote tool may take up to the limit of such calls, and less where the deadline of
/// its request comes first.
pub proof fn a_remote_call_ends_with_its_deadline(deadline: Instant, now: Instant)
    ensures
        call_time(Some(deadline), now) <= REQUEST_NANOS,
        call_time(None, now) == REQUEST_NANOS,
        now.nanos <= deadline.nanos ==> now.nanos + call_time(Some(deadline), now)
            <= deadline.nanos && (call_time(Some(deadline), now) == REQUEST_NANOS || now.nanos
            + call_time(Some(deadline), now) == deadline.nanos),
{
}

/// A server is connected to at the host, the port and the path of its URL, over TLS unless plain
/// HTTP is allowed and asked for, and never with a user, a password or a fragment in the URL.
pub proof fn a_server_is_reached_where_its_url_says(url: UrlView, allow_private_http: bool)
    ensures
        match endpoint_of(Some(url), allow_private_http) {
            Ok(endpoint) => {
                &&& url.host == Some(endpoint.host)
                &&& url.port == Some(endpoint.port)
                &&& endpoint.https <==> url.scheme == "https"@
                &&& !endpoint.https ==> allow_private_http && url.scheme == "http"@
                &&& url.username.len() == 0 && url.password is None && url.fragment is None
                &&& endpoint.path == request_path(url.path, url.query)
            },
            Err(_) => {
                ||| url.host is None
                ||| url.port is None
                ||| url.username.len() > 0
                ||| url.password is Some
                ||| url.fragment is Some
                ||| url.scheme != "https"@ && !(allow_private_http && url.scheme == "http"@)
            },
        },
        url.path.len() > 0 && url.query is None ==> request_path(url.path, url.query) == url.path,
        url.query matches Some(query) ==> {
            let n = query.len() as int;
            let whole = request_path(url.path, url.query);
            whole.len() > n && whole.skip(whole.len() - n) =~= query && whole[whole.len() - n - 1]
                == '?'
        },
        request_path(url.path, url.query).len() > 0,
        url.path.len() > 0 ==> request_path(url.path, url.query).take(url.path.len() as int)
            =~= url.path,
{
    reveal_strlit("?");
    reveal_strlit("/");
    lemma_schemes();
}

/// Where private addresses are not allowed a server is connected to only if all of its addresses
/// are public, and there is one.
pub proof fn a_private_address_is_never_connected_to(addresses: Seq<IpAddress>, i: int)
    requires
        0 <= i < addresses.len(),
        may_connect(addresses, false),
    ensures
        public_address(addresses[i]),
{
}

/// A server is told the authorization that the client gave, as a bearer token, whether or not the
/// client wrote that it is one.
pub proof fn an_authorization_is_a_bearer_token(authorization: Seq<char>)
    ensures
        text::has_prefix(bearer(authorization), "Bearer "@),
        bearer(bearer(authorization)) == bearer(authorization),
        bearer(authorization) == authorization || bearer(authorization).skip(7) =~= authorization,
{
    reveal_strlit("Bearer ");
    assert("Bearer "@.len() == 7);
    if !text::has_prefix(authorization, "Bearer "@) {
        assert(bearer(authorization).take(7) =~= "Bearer "@);
    }
}

/// The tools among these that are allowed, in their order.
pub open spec fn allowed_among(
    allowed: Option<Seq<Seq<char>>>,
    tools: Seq<RemoteToolView>,
) -> Seq<RemoteToolView>
    decreases tools.len(),
{
    if tools.len() == 0 {
        Seq::empty()
    } else {
        let before = allowed_among(allowed, tools.drop_last());
        if allowed is None || allowed->0.contains(tools.last().remote_name) {
            before.push(tools.last())
        } else {
            before
        }
    }
}

/// The tools that are kept of a page are those that are allowed, as they were advertised and in
/// their order, behind those that were kept before.
pub proof fn discovered_tools_are_kept_as_advertised(
    before: DiscoveryView,
    tools: Seq<RemoteToolView>,
)
    requires
        before.after_tools(tools) is Ok,
    ensures
        ({
            let after = before.after_tools(tools)->Ok_0;
            &&& after.allowed == before.allowed
            &&& after.cursors == before.cursors
            &&& after.names =~= before.names + crate::remote_tool::remote_names(tools)
            &&& after.tools =~= before.tools + allowed_among(before.allowed, tools)
        }),
    decreases tools.len(),
{
    if tools.len() > 0 {
        let rest = tools.drop_last();
        discovered_tools_are_kept_as_advertised(before, rest);
        let inner = before.after_tools(rest)->Ok_0;
        lemma_one_discovered(inner, tools.last());
        assert(crate::remote_tool::remote_names(tools) =~= crate::remote_tool::remote_names(
            rest,
        ).push(tools.last().remote_name));
    }
}

proof fn lemma_one_discovered(before: DiscoveryView, tool: RemoteToolView)
    requires
        before.after_tool(tool) is Ok,
    ensures
        ({
            let after = before.after_tool(tool)->Ok_0;
            &&& after.allowed == before.allowed
            &&& after.cursors == before.cursors
            &&& after.names == before.names.push(tool.remote_name)
            &&& after.tools == (if before.allowed is None || before.allowed->0.contains(
                tool.remote_name,
            ) {
                before.tools.push(tool)
            } else {
                before.tools
            })
        }),
{
}

/// A tool that a server advertises is taken where it is new and within all limits.
pub proof fn a_new_tool_within_all_limits_is_taken(
    before: DiscoveryView,
    tool: RemoteToolView,
)
    ensures
        before.after_tool(tool) is Ok <==> {
            &&& before.budget.tools < MAX_DISCOVERED_TOOLS
            &&& tool.fits()
            &&& before.budget.bytes + text::byte_len(tool.remote_name) + (match tool.description {
                Some(words) => text::byte_len(words),
                None => 0,
            }) + crate::serde_value::json_size(tool.input_schema) + (match tool.output_schema {
                Some(output) => crate::serde_value::json_size(output),
                None => 0,
            }) <= crate::remote_tool::MAX_DISCOVERY_BYTES
            &&& !before.names.contains(tool.remote_name)
        },
{
}

/// Programs are offered once where they are asked for and have tools, over just those tools; all
/// other declarations stay, in their order.
pub proof fn programs_are_offered_over_their_tools(prepared: PreparedView)
    requires
        refreshed(prepared) is Ok,
    ensures
        ({
            let after = refreshed(prepared)->Ok_0;
            let offered = prepared.state.programmatic_requested
                && prepared.state.programmatic_tools.len() > 0;
            let others = without_programs(prepared.request.tools());
            let tools = after.request.tools();
            &&& after == (PreparedView { request: after.request, ..prepared })
            &&& after.request.history == prepared.request.history
            &&& after.request.stream == prepared.request.stream
            &&& !offered ==> tools =~= others
            &&& offered ==> {
                let offer = tools[tools.len() - 1];
                &&& tools.len() == others.len() + 1
                &&& tools.drop_last() =~= others
                &&& offer.get("type"@) == Some(JsonView::Text("function"@))
                &&& offer.get("name"@) == Some(JsonView::Text(crate::config::PROGRAMMATIC_FUNCTION@))
                &&& offer.get("parameters"@) == Some(schema::one_string("code"@))
                &&& offer.get("description"@) matches Some(JsonView::Text(words)) && ends_with(
                    words,
                    crate::serde_value::json_text(
                        JsonView::Array(
                            Seq::new(
                                prepared.state.programmatic_tools.len(),
                                |i: int| catalog_entry(prepared.state.programmatic_tools[i]),
                            ),
                        ),
                    ),
                )
            }
        }),
{
    broadcast use group_fields_read_back;

    lemma_import_keys();
    let after = refreshed(prepared)->Ok_0;
    let others = without_programs(prepared.request.tools());
    let specs = prepared.state.programmatic_tools;
    let offer = crate::runtime::program_function(specs);
    a_request_holds_the_field_that_it_was_given(
        prepared.request,
        "tools"@,
        JsonView::Array(others),
        "tools"@,
    );
    a_request_holds_the_field_that_it_was_given(
        prepared.request,
        "tools"@,
        JsonView::Array(others.push(offer)),
        "tools"@,
    );
    if prepared.state.programmatic_requested && specs.len() > 0 {
        assert(after.request.tools() =~= others.push(offer));
        let entries = Seq::new(specs.len(), |i: int| catalog_entry(specs[i]));
        assert(crate::conversation::catalog_entries(specs) =~= entries);
        let catalog = crate::serde_value::json_text(JsonView::Array(entries));
        let words = crate::runtime::program_words() + catalog;
        assert(offer.get("description"@) == Some(JsonView::Text(words)));
        assert(words.skip(words.len() - catalog.len()) =~= catalog);
    }
}

/// Whether a text ends with another.
pub open spec fn ends_with(s: Seq<char>, end: Seq<char>) -> bool {
    s.len() >= end.len() && s.skip(s.len() - end.len()) == end
}

/// Of declarations all are kept but those of programs, in their order.
pub proof fn other_declarations_are_kept(tools: Seq<JsonView>, i: int)
    requires
        0 <= i < tools.len(),
        tools[i].text_at("name"@) != Some(crate::config::PROGRAMMATIC_FUNCTION@),
    ensures
        without_programs(tools.take(i)).len() < without_programs(tools).len(),
        without_programs(tools)[without_programs(tools.take(i)).len() as int] == tools[i],
    decreases tools.len(),
{
    let rest = tools.drop_last();
    if i < rest.len() {
        assert(rest.take(i) =~= tools.take(i));
        other_declarations_are_kept(rest, i);
    } else {
        assert(tools.take(i) =~= rest);
    }
}

/// A schema of one text asks for that text and nothing else.
pub proof fn a_schema_of_one_text_asks_for_it_alone(key: Seq<char>)
    ensures
        ({
            let asked = schema::one_string(key);
            &&& asked.get("type"@) == Some(JsonView::Text("object"@))
            &&& asked.get("properties"@) matches Some(properties) && properties.get(key) matches Some(
                property,
            ) && property.get("type"@) == Some(JsonView::Text("string"@))
            &&& asked.get("required"@) == Some(JsonView::Array(seq![JsonView::Text(key)]))
            &&& asked.get("additionalProperties"@) == Some(JsonView::Bool(false))
        }),
{
    broadcast use group_fields_read_back;

    lemma_schema_keys();
}

proof fn lemma_import_keys()
    ensures
        "type"@ != "name"@,
        "type"@ != "description"@,
        "type"@ != "strict"@,
        "type"@ != "parameters"@,
        "type"@ != "tools"@,
        "type"@ != "tool_choice"@,
        "name"@ != "description"@,
        "name"@ != "strict"@,
        "name"@ != "parameters"@,
        "name"@ != "tools"@,
        "name"@ != "tool_choice"@,
        "description"@ != "strict"@,
        "description"@ != "parameters"@,
        "description"@ != "tools"@,
        "description"@ != "tool_choice"@,
        "strict"@ != "parameters"@,
        "strict"@ != "tools"@,
        "strict"@ != "tool_choice"@,
        "parameters"@ != "tools"@,
        "parameters"@ != "tool_choice"@,
        "tools"@ != "tool_choice"@,
{
    reveal_strlit("type");
    reveal_strlit("name");
    reveal_strlit("description");
    reveal_strlit("strict");
    reveal_strlit("parameters");
    reveal_strlit("tools");
    reveal_strlit("tool_choice");
    assert("type"@.len() == 4);
    assert("name"@.len() == 4);
    assert("description"@.len() == 11);
    assert("strict"@.len() == 6);
    assert("parameters"@.len() == 10);
    assert("tools"@.len() == 5);
    assert("tool_choice"@.len() == 11);
    assert("type"@[0] != "name"@[0]);
    assert("description"@[0] != "tool_choice"@[0]);
}

proof fn lemma_entry_keys()
    ensures
        "name"@ != "description"@,
        "name"@ != "input_schema"@,
        "name"@ != "output_schema"@,
        "description"@ != "input_schema"@,
        "description"@ != "output_schema"@,
        "input_schema"@ != "output_schema"@,
{
    reveal_strlit("name");
    reveal_strlit("description");
    reveal_strlit("input_schema");
    reveal_strlit("output_schema");
    assert("name"@.len() == 4);
    assert("description"@.len() == 11);
    assert("input_schema"@.len() == 12);
    assert("output_schema"@.len() == 13);
}

proof fn lemma_schema_keys()
    ensures
        "type"@ != "properties"@,
        "type"@ != "required"@,
        "type"@ != "additionalProperties"@,
        "properties"@ != "required"@,
        "properties"@ != "additionalProperties"@,
        "required"@ != "additionalProperties"@,
{
    reveal_strlit("type");
    reveal_strlit("properties");
    reveal_strlit("required");
    reveal_strlit("additionalProperties");
    assert("type"@.len() == 4);
    assert("properties"@.len() == 10);
    assert("required"@.len() == 8);
    assert("additionalProperties"@.len() == 20);
}

proof fn lemma_schemes()
    ensures
        "http"@ != "https"@,
{
    reveal_strlit("http");
    reveal_strlit("https");
    assert("http"@.len() == 4);
    assert("https"@.len() == 5);
}

} // verus!
