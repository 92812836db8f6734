//! A managed request over the Responses wire format: what it may call, and what its model calls.

use vstd::prelude::*;
use vstd::string::*;
use crate::backend::ToolInfrastructureError;
use crate::config::{CODE_INTERPRETER_FUNCTION, PROGRAMMATIC_FUNCTION, REMOTE_MCP_FUNCTION_PREFIX};
use crate::conversation::{
    catalog_entries, catalog_size, spec_views, ManagedToolState, ProgrammaticToolSpec, SpecView,
    StateView,
};
use crate::error::{complaint, joined, joined3, ErrorView, ToolRuntimeError};
use crate::json::{Json, JsonView};
use crate::mapper::{
    accept_declarations, all_declared, deferred_views, registry_view, server_views, DeclaredView,
    DeferredTool, DeferredView, RemoteMcpServer, ServerView, MAX_DESCRIPTION_BYTES,
};
use crate::registry::{
    by_internal, clone_optional_json, optional_json, with_all, RegistryView, ToolRegistry,
};
use crate::remote_tool::{remote_views, RemoteMcpTool, RemoteToolView};
use crate::request::{extend_list, ModelRequest, RequestView};
use crate::schema::ArgumentSchema;
use crate::time::Instant;
use crate::usage::Usage;
use crate::{config, conversation, json, mapper, registry, schema, serde_value, text, usage};

verus! {

/// A prepared request over the Responses wire format.
pub struct PreparedToolRuntime {
    pub state: ManagedToolState,
    pub canonical_request: ModelRequest,
    pub client_streaming: bool,
    pub include_obfuscation: bool,
    pub client_tools: Option<Json>,
    pub accumulated_usage: Option<Usage>,
    pub pending_remote_mcp: Vec<RemoteMcpServer>,
    /// The tools that a model finds by searching, where it may search.
    pub tool_search: Option<Vec<DeferredTool>>,
}

pub struct PreparedView {
    pub state: StateView,
    pub request: RequestView,
    pub client_streaming: bool,
    pub include_obfuscation: bool,
    pub client_tools: Option<JsonView>,
    pub usage: Option<Usage>,
    pub pending: Seq<ServerView>,
    pub tool_search: Option<Seq<DeferredView>>,
}

impl PreparedToolRuntime {
    pub open spec fn view(&self) -> PreparedView {
        PreparedView {
            state: self.state@,
            request: self.canonical_request@,
            client_streaming: self.client_streaming,
            include_obfuscation: self.include_obfuscation,
            client_tools: optional_json(self.client_tools),
            usage: self.accumulated_usage,
            pending: server_views(self.pending_remote_mcp@),
            tool_search: match self.tool_search {
                Some(tools) => Some(deferred_views(tools@)),
                None => None,
            },
        }
    }
}

pub open spec fn prepared_result(r: Result<PreparedToolRuntime, ToolRuntimeError>) -> Result<
    PreparedView,
    ErrorView,
> {
    match r {
        Ok(prepared) => Ok(prepared@),
        Err(error) => Err(error@),
    }
}

/// Whether a request has tools to manage.
pub enum Activation {
    Inactive,
    Active(PreparedToolRuntime),
}

/// Declarations without the one that offers programs.
pub open spec fn without_programs(tools: Seq<JsonView>) -> Seq<JsonView>
    decreases tools.len(),
{
    if tools.len() == 0 {
        Seq::empty()
    } else if tools.last().text_at("name"@) == Some(PROGRAMMATIC_FUNCTION@) {
        without_programs(tools.drop_last())
    } else {
        without_programs(tools.drop_last()).push(tools.last())
    }
}

fn drop_programs(tools: &Vec<Json>) -> (r: Vec<Json>)
    ensures
        json::views(r@) == without_programs(json::views(tools@)),
{
    let ghost all = json::views(tools@);
    let mut r: Vec<Json> = Vec::new();
    assert(json::views(r@) =~= Seq::empty());
    let mut i: usize = 0;
    while i < tools.len()
        invariant
            all == json::views(tools@),
            i <= tools@.len(),
            json::views(r@) == without_programs(all.take(i as int)),
        decreases tools@.len() - i,
    {
        assert(all.take(i + 1).drop_last() =~= all.take(i as int));
        assert(all.take(i + 1).last() == tools@[i as int]@);
        let offers = match tools[i].text_at("name") {
            Some(name) => text::same_text(name, PROGRAMMATIC_FUNCTION),
            None => false,
        };
        if !offers {
            let ghost before = json::views(r@);
            r.push(tools[i].clone());
            assert(json::views(r@) =~= before.push(tools@[i as int]@));
        }
        i += 1;
    }
    assert(all.take(i as int) =~= all);
    r
}

/// What a model is told of programs, before the catalog.
pub open spec fn program_words() -> Seq<char> {
    "Write one Python program. Call authorized tools sequentially with tools.call(name, arguments) and finish with program_output(value). Do not call these tools directly. For a catalog entry with output_schema, output_schema describes the structuredContent field in the successful object returned by tools.call. Available tools: "@
}

pub fn program_description(catalog: &str) -> (r: String)
    ensures
        r@ == program_words() + catalog@,
{
    joined(
        "Write one Python program. Call authorized tools sequentially with tools.call(name, arguments) and finish with program_output(value). Do not call these tools directly. For a catalog entry with output_schema, output_schema describes the structuredContent field in the successful object returned by tools.call. Available tools: ",
        catalog,
    )
}

/// The declaration that offers programs over these tools.
pub open spec fn program_function(tools: Seq<SpecView>) -> JsonView {
    mapper::builtin_function(
        PROGRAMMATIC_FUNCTION@,
        program_words() + serde_value::json_text(JsonView::Array(catalog_entries(tools))),
        schema::one_string("code"@),
    )
}

/// A prepared request whose declarations offer programs where they should.
pub open spec fn refreshed(prepared: PreparedView) -> Result<PreparedView, ErrorView> {
    let others = without_programs(prepared.request.tools());
    let plain = PreparedView {
        request: prepared.request.with_field("tools"@, JsonView::Array(others)),
        ..prepared
    };
    if !prepared.state.programmatic_requested {
        Ok(plain)
    } else if prepared.state.programmatic_tools.len() == 0 {
        if prepared.pending.len() == 0 {
            Err(
                ErrorView::invalid_request(
                    "programmatic_tool_calling requires at least one programmatic tool"@,
                ),
            )
        } else {
            Ok(plain)
        }
    } else if catalog_size(prepared.state.programmatic_tools)
        > conversation::PROGRAMMATIC_MAX_CATALOG_BYTES {
        Err(conversation::catalog_too_large())
    } else {
        Ok(
            PreparedView {
                request: prepared.request.with_field(
                    "tools"@,
                    JsonView::Array(
                        others.push(program_function(prepared.state.programmatic_tools)),
                    ),
                ),
                ..prepared
            },
        )
    }
}

impl PreparedToolRuntime {
    /// Declares programs anew, where they are requested and have anything to call.
    pub fn refresh_programmatic_schema(self) -> (r: Result<PreparedToolRuntime, ToolRuntimeError>)
        ensures
            prepared_result(r) == refreshed(self@),
    {
        let mut r = self;
        let ghost start = r@;
        let mut declarations = drop_programs(&r.canonical_request.declared_tools());
        let ghost others = json::views(declarations@);
        if !r.state.programmatic_requested {
            r.canonical_request.replace_rest_field("tools", Json::array(declarations));
            return Ok(r);
        }
        if r.state.programmatic_tools.len() == 0 {
            if r.pending_remote_mcp.len() == 0 {
                return Err(
                    ToolRuntimeError::invalid_request(
                        "programmatic_tool_calling requires at least one programmatic tool",
                    ),
                );
            }
            r.canonical_request.replace_rest_field("tools", Json::array(declarations));
            return Ok(r);
        }
        let catalog = match r.state.programmatic_catalog_json() {
            Ok(Some(catalog)) => catalog,
            Ok(None) => String::new(),
            Err(error) => {
                return Err(error);
            },
        };
        let offer = mapper::builtin_declaration(
            PROGRAMMATIC_FUNCTION,
            program_description(catalog.as_str()).as_str(),
            schema::code_interpreter_parameters(),
        );
        declarations.push(offer);
        assert(json::views(declarations@) =~= others.push(
            program_function(start.state.programmatic_tools),
        ));
        r.canonical_request.replace_rest_field("tools", Json::array(declarations));
        Ok(r)
    }

    /// Appends what a model said and what its tools gave back; the next choice of tools is free.
    pub fn append_round_history(&mut self, raw_output: Vec<Json>, outputs: Vec<Json>)
        ensures
            final(self)@ == with_round(
                old(self)@,
                json::views(raw_output@),
                json::views(outputs@),
            ),
    {
        extend_list(&mut self.canonical_request.history, raw_output);
        extend_list(&mut self.canonical_request.history, outputs);
        let free = match self.canonical_request.rest_field("tool_choice") {
            Some(Json::Text(choice)) => text::same_text(choice.as_str(), "auto"),
            _ => false,
        };
        if !free {
            self.canonical_request.replace_rest_field("tool_choice", Json::text("auto"));
        }
    }

    /// Adds the token counts of a round, where it reports any.
    pub fn accumulate_usage(&mut self, round: Option<Usage>)
        ensures
            final(self)@ == (PreparedView {
                usage: match round {
                    Some(round) => Some(usage::usage_sum(old(self)@.usage, round)),
                    None => old(self)@.usage,
                },
                ..old(self)@
            }),
    {
        match round {
            Some(round) => {
                self.accumulated_usage = Some(
                    usage::aggregate_usage(self.accumulated_usage, &round),
                );
            },
            None => {},
        }
    }
}

/// A prepared request once a round is part of its history.
pub open spec fn with_round(
    prepared: PreparedView,
    said: Seq<JsonView>,
    outputs: Seq<JsonView>,
) -> PreparedView {
    let longer = RequestView {
        history: prepared.request.history + said + outputs,
        ..prepared.request
    };
    PreparedView {
        request: if longer.rest.get("tool_choice"@) == Some(JsonView::Text("auto"@)) {
            longer
        } else {
            longer.with_field("tool_choice"@, JsonView::Text("auto"@))
        },
        ..prepared
    }
}

/// The tools that a client declares, each an object.
pub open spec fn client_declarations(request: RequestView) -> Result<Seq<JsonView>, ErrorView> {
    match request.rest.get("tools"@) {
        None => Ok(Seq::empty()),
        Some(JsonView::Null) => Ok(Seq::empty()),
        Some(JsonView::Array(tools)) => if forall|i: int|
            0 <= i < tools.len() ==> (#[trigger] tools[i]) is Object {
            Ok(tools)
        } else {
            Err(ErrorView::invalid_request("tool declarations must be objects"@))
        },
        Some(_) => Err(ErrorView::invalid_request("tools must be an array"@)),
    }
}

fn declarations(request: &ModelRequest) -> (r: Result<Vec<Json>, ToolRuntimeError>)
    ensures
        match r {
            Ok(list) => client_declarations(request@) == Ok::<Seq<JsonView>, ErrorView>(
                json::views(list@),
            ) && forall|i: int| 0 <= i < list@.len() ==> (#[trigger] list@[i])@ is Object,
            Err(error) => client_declarations(request@) == Err::<Seq<JsonView>, ErrorView>(error@),
        },
{
    match request.rest_field("tools") {
        None | Some(Json::Null) => {
            let none: Vec<Json> = Vec::new();
            assert(json::views(none@) =~= Seq::empty());
            Ok(none)
        },
        Some(Json::Array(tools)) => {
            let ghost all = json::views(tools@);
            assert(request@.rest.get("tools"@)->0->Array_0 =~= all);
            let mut r: Vec<Json> = Vec::new();
            let mut i: usize = 0;
            while i < tools.len()
                invariant
                    all == json::views(tools@),
                    request@.rest.get("tools"@) == Some(JsonView::Array(all)),
                    i <= tools@.len(),
                    r@.len() == i,
                    forall|j: int|
                        0 <= j < i ==> (#[trigger] r@[j])@ == all[j] && all[j] is Object,
                decreases tools@.len() - i,
            {
                assert(all[i as int] == tools@[i as int]@);
                if !tools[i].is_object() {
                    return Err(
                        ToolRuntimeError::invalid_request("tool declarations must be objects"),
                    );
                }
                r.push(tools[i].clone());
                i += 1;
            }
            assert(json::views(r@) =~= all);
            assert forall|j: int| 0 <= j < all.len() implies (#[trigger] all[j]) is Object by {
                assert(r@[j]@ == all[j]);
            }
            Ok(r)
        },
        Some(_) => Err(ToolRuntimeError::invalid_request("tools must be an array")),
    }
}

/// The function that a request forces its model to call.
pub open spec fn forced_function(request: RequestView) -> Option<Seq<char>> {
    match request.rest.get("tool_choice"@) {
        Some(choice) => if choice.text_at("type"@) == Some("function"@) {
            choice.text_at("name"@)
        } else {
            None
        },
        None => None,
    }
}

fn forced_function_name(request: &ModelRequest) -> (r: Option<&str>)
    ensures
        match r {
            Some(name) => forced_function(request@) == Some(name@),
            None => forced_function(request@) is None,
        },
{
    match request.rest_field("tool_choice") {
        Some(choice) => match choice.text_at("type") {
            Some(kind) => {
                if text::same_text(kind, "function") {
                    choice.text_at("name")
                } else {
                    None
                }
            },
            None => None,
        },
        None => None,
    }
}

pub open spec fn defers(tools: Seq<DeferredView>, name: Seq<char>) -> bool {
    exists|i: int| 0 <= i < tools.len() && (#[trigger] tools[i]).public_name == name
}

fn is_deferred(tools: &Vec<DeferredTool>, name: &str) -> (r: bool)
    ensures
        r == defers(deferred_views(tools@), name@),
{
    let mut i: usize = 0;
    while i < tools.len()
        invariant
            i <= tools@.len(),
            forall|j: int|
                0 <= j < i ==> (#[trigger] deferred_views(tools@)[j]).public_name != name@,
        decreases tools@.len() - i,
    {
        if text::same_text(tools[i].public_name.as_str(), name) {
            assert(deferred_views(tools@)[i as int].public_name == name@);
            return true;
        }
        i += 1;
    }
    false
}

pub open spec fn some_server_defers(servers: Seq<ServerView>) -> bool {
    exists|i: int| 0 <= i < servers.len() && (#[trigger] servers[i]).defer_loading
}

fn server_defers(servers: &Vec<RemoteMcpServer>) -> (r: bool)
    ensures
        r == some_server_defers(server_views(servers@)),
{
    let mut i: usize = 0;
    while i < servers.len()
        invariant
            i <= servers@.len(),
            forall|j: int| 0 <= j < i ==> !(#[trigger] server_views(servers@)[j]).defer_loading,
        decreases servers@.len() - i,
    {
        if servers[i].defer_loading {
            assert(server_views(servers@)[i as int].defer_loading);
            return true;
        }
        i += 1;
    }
    false
}

/// The first name that no function of the operator has.
pub open spec fn first_unresolved(registry: RegistryView, names: Seq<Seq<char>>) -> Option<Seq<char>>
    decreases names.len(),
{
    if names.len() == 0 {
        None
    } else if !registry.resolves(names[0]) {
        Some(names[0])
    } else {
        first_unresolved(registry, names.drop_first())
    }
}

fn unresolved_name<'a>(registry: &ToolRegistry, names: &'a Vec<String>) -> (r: Option<&'a str>)
    ensures
        match r {
            Some(name) => first_unresolved(registry@, text::strings(names@)) == Some(name@),
            None => first_unresolved(registry@, text::strings(names@)) is None,
        },
{
    let ghost all = text::strings(names@);
    let mut i: usize = 0;
    assert(all.skip(0) =~= all);
    while i < names.len()
        invariant
            all == text::strings(names@),
            i <= names@.len(),
            first_unresolved(registry@, all) == first_unresolved(registry@, all.skip(i as int)),
        decreases names@.len() - i,
    {
        assert(all.skip(i as int)[0] == names@[i as int]@);
        assert(all.skip(i as int).drop_first() =~= all.skip(i + 1));
        if !registry.resolves_function(names[i].as_str()) {
            return Some(names[i].as_str());
        }
        i += 1;
    }
    None
}

/// What is wrong with the fields of an active request.
pub open spec fn unsupported_field(request: RequestView) -> Option<ErrorView> {
    if request.rest.get("background"@) == Some(JsonView::Bool(true)) {
        Some(ErrorView::unsupported("background"@))
    } else if request.rest.get("conversation"@) is Some && !(request.rest.get("conversation"@)->0
        is Null) {
        Some(ErrorView::unsupported("conversation"@))
    } else {
        None
    }
}

fn unsupported_active_request_fields(request: &ModelRequest) -> (r: Option<ToolRuntimeError>)
    ensures
        complaint(r) == unsupported_field(request@),
{
    match request.rest_field("background") {
        Some(Json::Bool(true)) => {
            return Some(ToolRuntimeError::unsupported("background"));
        },
        _ => {},
    }
    match request.rest_field("conversation") {
        None | Some(Json::Null) => None,
        Some(_) => Some(ToolRuntimeError::unsupported("conversation")),
    }
}

/// Whether pieces of text in a stream are padded.
pub open spec fn obfuscation(request: RequestView) -> Result<bool, ErrorView> {
    let options = request.rest.get("stream_options"@);
    if request.stream != Some(true) {
        Ok(false)
    } else if options is None || options->0 is Null {
        Ok(true)
    } else if !(options->0 is Object) {
        Err(ErrorView::invalid_request("stream_options must be an object"@))
    } else {
        match options->0.get("include_obfuscation"@) {
            None => Ok(true),
            Some(JsonView::Null) => Ok(true),
            Some(JsonView::Bool(wanted)) => Ok(wanted),
            Some(_) => Err(
                ErrorView::invalid_request("stream_options.include_obfuscation must be a boolean"@),
            ),
        }
    }
}

fn wants_obfuscation(request: &ModelRequest) -> (r: Result<bool, ToolRuntimeError>)
    ensures
        match r {
            Ok(wanted) => obfuscation(request@) == Ok::<bool, ErrorView>(wanted),
            Err(error) => obfuscation(request@) == Err::<bool, ErrorView>(error@),
        },
{
    match request.stream {
        Some(true) => {},
        _ => {
            return Ok(false);
        },
    }
    match request.rest_field("stream_options") {
        None | Some(Json::Null) => Ok(true),
        Some(Json::Object(options)) => match options.get("include_obfuscation") {
            None | Some(Json::Null) => Ok(true),
            Some(Json::Bool(wanted)) => Ok(*wanted),
            Some(_) => Err(
                ToolRuntimeError::invalid_request(
                    "stream_options.include_obfuscation must be a boolean",
                ),
            ),
        },
        Some(_) => Err(ToolRuntimeError::invalid_request("stream_options must be an object")),
    }
}

/// A request that asks for no stream.
pub open spec fn unstreamed(request: RequestView) -> RequestView {
    if request.stream == Some(true) {
        RequestView {
            stream: Some(false),
            rest: request.rest.without("stream_options"@),
            ..request
        }
    } else {
        request
    }
}

/// Whether tools may run at once.
pub open spec fn parallelism(request: RequestView) -> Result<bool, ErrorView> {
    match request.rest.get("parallel_tool_calls"@) {
        None => Ok(true),
        Some(JsonView::Bool(parallel)) => Ok(parallel),
        Some(_) => Err(ErrorView::invalid_request("parallel_tool_calls must be a boolean"@)),
    }
}

/// A declaration as the client gets it back: without a secret.
pub open spec fn without_secret(tool: JsonView) -> JsonView {
    if tool.text_at("type"@) == Some("mcp"@) {
        tool.without("authorization"@)
    } else {
        tool
    }
}

/// The declarations as the client gets them back.
pub open spec fn sanitized(tools: Option<JsonView>) -> Option<JsonView> {
    match tools {
        Some(JsonView::Array(items)) => Some(
            JsonView::Array(Seq::new(items.len(), |i: int| without_secret(items[i]))),
        ),
        other => other,
    }
}

fn sanitize_client_tools(client_tools: Option<Json>) -> (r: Option<Json>)
    ensures
        optional_json(r) == sanitized(optional_json(client_tools)),
{
    match client_tools {
        Some(Json::Array(tools)) => {
            let ghost all = json::views(tools@);
            proof {
                json::lemma_array_view(tools);
            }
            let mut r: Vec<Json> = Vec::new();
            let mut i: usize = 0;
            while i < tools.len()
                invariant
                    all == json::views(tools@),
                    i <= tools@.len(),
                    r@.len() == i,
                    forall|j: int| 0 <= j < i ==> (#[trigger] r@[j])@ == without_secret(all[j]),
                decreases tools@.len() - i,
            {
                assert(all[i as int] == tools@[i as int]@);
                let mut tool = tools[i].clone();
                let imported = match tool.text_at("type") {
                    Some(kind) => text::same_text(kind, "mcp"),
                    None => false,
                };
                if imported {
                    let _ = tool.take("authorization");
                }
                r.push(tool);
                i += 1;
            }
            assert(json::views(r@) =~= Seq::new(all.len(), |j: int| without_secret(all[j])));
            Some(Json::array(r))
        },
        other => other,
    }
}

/// A state once programs may call these tools too.
pub open spec fn with_programmatic_tools(state: StateView, tools: Seq<SpecView>) -> Result<
    StateView,
    ErrorView,
>
    decreases tools.len(),
{
    if tools.len() == 0 {
        Ok(state)
    } else {
        match with_programmatic_tools(state, tools.drop_last()) {
            Ok(before) => before.with_programmatic_tool(tools.last()),
            Err(error) => Err(error),
        }
    }
}

/// Letting programs call tools changes nothing but what programs may call.
pub proof fn lemma_programmatic_tools_keep(state: StateView, tools: Seq<SpecView>)
    ensures
        match with_programmatic_tools(state, tools) {
            Ok(after) => after == (StateView {
                programmatic_tools: after.programmatic_tools,
                programmatic_catalog_bytes: after.programmatic_catalog_bytes,
                ..state
            }),
            Err(_) => true,
        },
    decreases tools.len(),
{
    if tools.len() > 0 {
        lemma_programmatic_tools_keep(state, tools.drop_last());
    }
}

proof fn lemma_programmatic_tools_stop(state: StateView, tools: Seq<SpecView>, n: int)
    requires
        0 <= n <= tools.len(),
        with_programmatic_tools(state, tools.take(n)) is Err,
    ensures
        with_programmatic_tools(state, tools) == with_programmatic_tools(state, tools.take(n)),
    decreases tools.len() - n,
{
    if n < tools.len() {
        assert(tools.take(n + 1).drop_last() =~= tools.take(n));
        lemma_programmatic_tools_stop(state, tools, n + 1);
    } else {
        assert(tools.take(n) =~= tools);
    }
}

/// Lets programs call these tools too.
pub fn insert_programmatic_tools(state: ManagedToolState, tools: Vec<ProgrammaticToolSpec>) -> (r:
    Result<ManagedToolState, ToolRuntimeError>)
    ensures
        match r {
            Ok(after) => with_programmatic_tools(state@, spec_views(tools@)) == Ok::<
                StateView,
                ErrorView,
            >(after@) && (forall|start: nat| #[trigger]
                state@.counted_from(start) ==> after@.counted_from(start)),
            Err(error) => with_programmatic_tools(state@, spec_views(tools@)) == Err::<
                StateView,
                ErrorView,
            >(error@),
        },
{
    let ghost start = state@;
    let ghost all = spec_views(tools@);
    let mut current = state;
    let mut i: usize = 0;
    assert(all.take(0) =~= Seq::empty());
    while i < tools.len()
        invariant
            all == spec_views(tools@),
            i <= tools@.len(),
            with_programmatic_tools(start, all.take(i as int)) == Ok::<StateView, ErrorView>(
                current@,
            ),
            start == state@,
            forall|n: nat| #[trigger] start.counted_from(n) ==> current@.counted_from(n),
        decreases tools@.len() - i,
    {
        assert(all.take(i + 1).drop_last() =~= all.take(i as int));
        assert(all.take(i + 1).last() == tools@[i as int]@);
        match current.insert_programmatic_tool(tools[i].clone()) {
            Ok(_) => {},
            Err(error) => {
                proof {
                    lemma_programmatic_tools_stop(start, all, i + 1);
                }
                return Err(error);
            },
        }
        i += 1;
    }
    assert(all.take(i as int) =~= all);
    Ok(current)
}

/// A state without programs, whose catalog is counted from this number on.
pub open spec fn bare_state(
    registry: RegistryView,
    parallel: bool,
    deadline: Instant,
    programmatic: bool,
    start: nat,
) -> StateView {
    StateView {
        registry,
        parallel,
        deadline,
        programmatic_requested: programmatic,
        programmatic_tools: Seq::empty(),
        programmatic_catalog_bytes: start,
    }
}

/// A point in time this much later.
pub open spec fn deadline_from(now: Instant, limits: config::RuntimeLimits) -> Instant {
    Instant { nanos: crate::time::saturated(now.nanos + limits.total_timeout.nanos) }
}

/// What is wrong with active declarations as a whole.
pub open spec fn active_complaint(
    found: DeclaredView,
    request: RequestView,
    registry: Option<RegistryView>,
) -> Option<ErrorView> {
    let forced = forced_function(request);
    let unresolved = first_unresolved(registry->0, found.function_names);
    if !found.tool_search && (found.deferred.len() > 0 || some_server_defers(found.servers)) {
        Some(ErrorView::invalid_request("defer_loading requires a tool_search declaration"@))
    } else if forced is Some && defers(found.deferred, forced->0) {
        Some(
            ErrorView::invalid_request(
                "tool_choice cannot force the deferred function "@ + forced->0,
            ),
        )
    } else if found.programmatic && !(registry is Some && registry->0.has_internal(
        CODE_INTERPRETER_FUNCTION@,
    )) {
        Some(
            ErrorView::invalid_request(
                "programmatic_tool_calling requires a configured code_interpreter E2B backend"@,
            ),
        )
    } else if unresolved is Some {
        Some(
            ErrorView::invalid_request(
                "every function tool must be registered when managed tool runtime is active; "@
                    + unresolved->0 + " is not registered"@,
            ),
        )
    } else {
        unsupported_field(request)
    }
}

/// An active request, prepared.
pub open spec fn activated(
    found: DeclaredView,
    request: RequestView,
    registry: RegistryView,
    now: Instant,
) -> Result<PreparedView, ErrorView> {
    let quiet = unstreamed(request);
    match (obfuscation(request), parallelism(quiet)) {
        (Err(error), _) => Err(error),
        (_, Err(error)) => Err(error),
        (Ok(padded), Ok(parallel)) => {
            let known = RegistryView {
                tools: with_all(registry.tools, found.options, found.schemas),
                ..registry
            };
            match with_programmatic_tools(
                bare_state(
                    known,
                    parallel,
                    deadline_from(now, registry.limits),
                    found.programmatic,
                    2,
                ),
                found.programmatic_tools,
            ) {
                Err(error) => Err(error),
                Ok(state) => refreshed(
                    PreparedView {
                        state,
                        request: quiet.with_field("tools"@, JsonView::Array(found.rewritten)),
                        client_streaming: request.stream == Some(true),
                        include_obfuscation: padded,
                        client_tools: sanitized(request.rest.get("tools"@)),
                        usage: None,
                        pending: found.servers,
                        tool_search: if found.tool_search {
                            Some(found.deferred)
                        } else {
                            None
                        },
                    },
                ),
            }
        },
    }
}

/// A request, prepared where it is active.
pub open spec fn prepared(
    request: RequestView,
    registry: Option<RegistryView>,
    now: Instant,
    max_deferred: nat,
) -> Result<Option<PreparedView>, ErrorView> {
    match client_declarations(request) {
        Err(error) => Err(error),
        Ok(declarations) => match all_declared(registry, declarations, max_deferred) {
            Err(error) => Err(error),
            Ok(found) => if !found.active() {
                Ok(None)
            } else if let Some(error) = active_complaint(found, request, registry) {
                Err(error)
            } else {
                match activated(found, request, registry->0, now) {
                    Ok(runtime) => Ok(Some(runtime)),
                    Err(error) => Err(error),
                }
            },
        },
    }
}

pub open spec fn activation_result(r: Result<Activation, ToolRuntimeError>) -> Result<
    Option<PreparedView>,
    ErrorView,
> {
    match r {
        Ok(Activation::Inactive) => Ok(None),
        Ok(Activation::Active(runtime)) => Ok(Some(runtime@)),
        Err(error) => Err(error@),
    }
}

fn active_error(
    found: &mapper::Declared,
    request: &ModelRequest,
    registry: Option<&ToolRegistry>,
) -> (r: Option<ToolRuntimeError>)
    requires
        found@.active(),
        registry is None ==> found@.programmatic,
    ensures
        complaint(r) == active_complaint(found@, request@, registry_view(registry)),
        r is None ==> registry is Some,
{
    if !found.tool_search && (found.deferred.len() > 0 || server_defers(&found.servers)) {
        return Some(
            ToolRuntimeError::invalid_request("defer_loading requires a tool_search declaration"),
        );
    }
    if let Some(forced) = forced_function_name(request) {
        if is_deferred(&found.deferred, forced) {
            let message = joined("tool_choice cannot force the deferred function ", forced);
            return Some(ToolRuntimeError::invalid_request(message.as_str()));
        }
    }
    let can_run = match registry {
        Some(registry) => registry.has_internal(CODE_INTERPRETER_FUNCTION),
        None => false,
    };
    if found.programmatic && !can_run {
        return Some(
            ToolRuntimeError::invalid_request(
                "programmatic_tool_calling requires a configured code_interpreter E2B backend",
            ),
        );
    }
    if let Some(registry) = registry {
        if let Some(name) = unresolved_name(registry, &found.function_names) {
            let message = joined3(
                "every function tool must be registered when managed tool runtime is active; ",
                name,
                " is not registered",
            );
            return Some(ToolRuntimeError::invalid_request(message.as_str()));
        }
    }
    unsupported_active_request_fields(request)
}

fn activate(
    found: mapper::Declared,
    request: &ModelRequest,
    registry: &ToolRegistry,
    now: Instant,
) -> (r: Result<PreparedToolRuntime, ToolRuntimeError>)
    ensures
        prepared_result(r) == activated(found@, request@, registry@, now),
{
    let include_obfuscation = match wants_obfuscation(request) {
        Ok(wanted) => wanted,
        Err(error) => {
            return Err(error);
        },
    };
    let client_streaming = match request.stream {
        Some(true) => true,
        _ => false,
    };
    let client_tools = match request.rest_field("tools") {
        Some(tools) => Some(tools.clone()),
        None => None,
    };
    let mut canonical_request = request.clone();
    if client_streaming {
        canonical_request.stream = Some(false);
        canonical_request.remove_rest_field("stream_options");
    }
    let parallel = match canonical_request.rest_field("parallel_tool_calls") {
        None => true,
        Some(Json::Bool(parallel)) => *parallel,
        Some(_) => {
            return Err(ToolRuntimeError::invalid_request("parallel_tool_calls must be a boolean"));
        },
    };
    canonical_request.replace_rest_field("tools", Json::array(found.rewritten));
    let client_tools = sanitize_client_tools(client_tools);
    let known = registry.with_request_data(&found.options, &found.schemas);
    let no_tools: Vec<ProgrammaticToolSpec> = Vec::new();
    assert(spec_views(no_tools@) =~= Seq::empty());
    let state = ManagedToolState {
        registry: known,
        parallel,
        deadline: now.after(registry.limits().total_timeout),
        programmatic_requested: found.programmatic,
        programmatic_tools: no_tools,
        programmatic_catalog_bytes: 2,
    };
    let state = match insert_programmatic_tools(state, found.programmatic_tools) {
        Ok(state) => state,
        Err(error) => {
            return Err(error);
        },
    };
    let runtime = PreparedToolRuntime {
        state,
        canonical_request,
        client_streaming,
        include_obfuscation,
        client_tools,
        accumulated_usage: None,
        pending_remote_mcp: found.servers,
        tool_search: if found.tool_search {
            Some(found.deferred)
        } else {
            None
        },
    };
    runtime.refresh_programmatic_schema()
}

/// Prepares a request for the managed runtime, where it declares anything that is managed.
pub fn prepare(
    request: &ModelRequest,
    registry: Option<&ToolRegistry>,
    now: Instant,
    max_deferred_tools: usize,
) -> (r: Result<Activation, ToolRuntimeError>)
    ensures
        activation_result(r) == prepared(
            request@,
            registry_view(registry),
            now,
            max_deferred_tools as nat,
        ),
{
    let list = match declarations(request) {
        Ok(list) => list,
        Err(error) => {
            return Err(error);
        },
    };
    let found = match accept_declarations(registry, &list, max_deferred_tools) {
        Ok(found) => found,
        Err(error) => {
            return Err(error);
        },
    };
    proof {
        mapper::declared_functions_are_distinct_and_unreserved(
            registry_view(registry),
            json::views(list@),
            max_deferred_tools as nat,
        );
    }
    if !found.managed_function && !found.builtin && found.servers.len() == 0 && !found.programmatic
        && !found.tool_search {
        return Ok(Activation::Inactive);
    }
    if let Some(error) = active_error(&found, request, registry) {
        return Err(error);
    }
    match registry {
        Some(registry) => match activate(found, request, registry, now) {
            Ok(runtime) => Ok(Activation::Active(runtime)),
            Err(error) => Err(error),
        },
        None => Err(ToolRuntimeError::internal()),
    }
}

/// The name under which a model is offered an imported tool.
pub open spec fn imported_name(server: nat, tool: nat) -> Seq<char> {
    REMOTE_MCP_FUNCTION_PREFIX@ + text::decimal(server) + "_"@ + text::decimal(tool)
}

/// What a model is told of an imported tool.
pub open spec fn imported_words(server: ServerView, tool: RemoteToolView) -> Seq<char> {
    text::truncated(
        match (server.server_description, tool.description) {
            (Some(of_server), Some(of_tool)) => "["@ + server.server_label + "] "@ + of_server
                + "\n\n"@ + of_tool,
            (Some(of_server), None) => "["@ + server.server_label + "] "@ + of_server,
            (None, Some(of_tool)) => "["@ + server.server_label + "] "@ + of_tool,
            (None, None) => "Tool from remote MCP server "@ + server.server_label,
        },
        MAX_DESCRIPTION_BYTES as nat,
    )
}

fn imported_description(server: &RemoteMcpServer, tool: &RemoteMcpTool) -> (r: String)
    ensures
        r@ == imported_words(server@, tool@),
{
    let label = server.server_label.as_str();
    let whole = match (&server.server_description, &tool.description) {
        (Some(of_server), Some(of_tool)) => {
            let mut s = joined3("[", label, "] ");
            s.append(of_server.as_str());
            s.append("\n\n");
            s.append(of_tool.as_str());
            s
        },
        (Some(of_server), None) => {
            let mut s = joined3("[", label, "] ");
            s.append(of_server.as_str());
            s
        },
        (None, Some(of_tool)) => {
            let mut s = joined3("[", label, "] ");
            s.append(of_tool.as_str());
            s
        },
        (None, None) => joined("Tool from remote MCP server ", label),
    };
    text::truncate_utf8(whole.as_str(), MAX_DESCRIPTION_BYTES)
}

/// An imported tool as a function that a model is offered.
pub open spec fn imported_function(name: Seq<char>, words: Seq<char>, parameters: JsonView) -> JsonView {
    JsonView::empty().with("type"@, JsonView::Text("function"@)).with(
        "name"@,
        JsonView::Text(name),
    ).with("description"@, JsonView::Text(words)).with("strict"@, JsonView::Bool(false)).with(
        "parameters"@,
        parameters,
    )
}

/// Whether a request forces its model to call this tool of this server.
pub open spec fn forces_import(request: RequestView, label: Seq<char>, name: Seq<char>) -> bool {
    match request.rest.get("tool_choice"@) {
        Some(choice) => choice.text_at("type"@) == Some("mcp"@) && choice.text_at(
            "server_label"@,
        ) == Some(label) && choice.text_at("name"@) == Some(name),
        None => false,
    }
}

fn text_equals(found: Option<&str>, wanted: &str) -> (r: bool)
    ensures
        r == (match found {
            Some(s) => s@ == wanted@,
            None => false,
        }),
{
    match found {
        Some(s) => text::same_text(s, wanted),
        None => false,
    }
}

fn import_forced(request: &ModelRequest, label: &str, name: &str) -> (r: bool)
    ensures
        r == forces_import(request@, label@, name@),
{
    match request.rest_field("tool_choice") {
        Some(choice) => text_equals(choice.text_at("type"), "mcp") && text_equals(
            choice.text_at("server_label"),
            label,
        ) && text_equals(choice.text_at("name"), name),
        None => false,
    }
}

pub open spec fn imported_spec(
    server: ServerView,
    internal: Seq<char>,
    tool: RemoteToolView,
) -> SpecView {
    SpecView {
        public_name: server.server_label + "."@ + tool.remote_name,
        internal_name: internal,
        description: imported_words(server, tool),
        input_schema: tool.input_schema,
        output_schema: tool.output_schema,
    }
}

pub open spec fn import_options(remote_name: Seq<char>) -> JsonView {
    JsonView::empty().with("remote_tool_name"@, JsonView::Text(remote_name))
}

/// A prepared request, and declarations that are not part of it yet.
pub struct ImportView {
    pub prepared: PreparedView,
    pub declarations: Seq<JsonView>,
}

/// What one more imported tool changes.
pub open spec fn imported(
    so_far: ImportView,
    server_index: usize,
    server: ServerView,
    tool_index: nat,
    tool: RemoteToolView,
) -> Result<ImportView, ErrorView> {
    let internal = imported_name(server_index as nat, tool_index);
    let public = server.server_label + "."@ + tool.remote_name;
    let callers = server.allowed_callers;
    let state = if callers.programmatic {
        so_far.prepared.state.with_programmatic_tool(imported_spec(server, internal, tool))
    } else {
        Ok(so_far.prepared.state)
    };
    if !schema::schema_compiles(tool.input_schema) {
        Err(ErrorView::infrastructure(ToolInfrastructureError::Backend))
    } else if state is Err {
        Err(state->Err_0)
    } else if by_internal(so_far.prepared.state.registry.tools, internal) is Some
        || registry::by_public(so_far.prepared.state.registry.tools, public) is Some {
        Err(ErrorView::invalid_request("duplicate imported remote MCP tool"@))
    } else {
        Ok(
            ImportView {
                prepared: PreparedView {
                    state: StateView {
                        registry: RegistryView {
                            tools: so_far.prepared.state.registry.tools.push(
                                registry::remote_tool(
                                    internal,
                                    public,
                                    tool.input_schema,
                                    import_options(tool.remote_name),
                                    server_index,
                                ),
                            ),
                            ..so_far.prepared.state.registry
                        },
                        ..state->Ok_0
                    },
                    request: if forces_import(
                        so_far.prepared.request,
                        server.server_label,
                        tool.remote_name,
                    ) && callers.direct {
                        so_far.prepared.request.with_field(
                            "tool_choice"@,
                            JsonView::empty().with("type"@, JsonView::Text("function"@)).with(
                                "name"@,
                                JsonView::Text(internal),
                            ),
                        )
                    } else {
                        so_far.prepared.request
                    },
                    ..so_far.prepared
                },
                declarations: if callers.direct {
                    so_far.declarations.push(
                        imported_function(
                            internal,
                            imported_words(server, tool),
                            tool.input_schema,
                        ),
                    )
                } else {
                    so_far.declarations
                },
            },
        )
    }
}

/// What the tools of a server change.
pub open spec fn all_imported(
    start: ImportView,
    server_index: usize,
    server: ServerView,
    tools: Seq<RemoteToolView>,
) -> Result<ImportView, ErrorView>
    decreases tools.len(),
{
    if tools.len() == 0 {
        Ok(start)
    } else {
        match all_imported(start, server_index, server, tools.drop_last()) {
            Ok(before) => imported(
                before,
                server_index,
                server,
                (tools.len() - 1) as nat,
                tools.last(),
            ),
            Err(error) => Err(error),
        }
    }
}

proof fn lemma_imports_stop(
    start: ImportView,
    server_index: usize,
    server: ServerView,
    tools: Seq<RemoteToolView>,
    n: int,
)
    requires
        0 <= n <= tools.len(),
        all_imported(start, server_index, server, tools.take(n)) is Err,
    ensures
        all_imported(start, server_index, server, tools) == all_imported(
            start,
            server_index,
            server,
            tools.take(n),
        ),
    decreases tools.len() - n,
{
    if n < tools.len() {
        assert(tools.take(n + 1).drop_last() =~= tools.take(n));
        lemma_imports_stop(start, server_index, server, tools, n + 1);
    } else {
        assert(tools.take(n) =~= tools);
    }
}

/// A prepared request once the tools of one of its servers are imported.
pub open spec fn installed(
    prepared: PreparedView,
    server_index: usize,
    tools: Seq<RemoteToolView>,
) -> Result<PreparedView, ErrorView> {
    if server_index >= prepared.pending.len() {
        Err(ErrorView::invalid_configuration("remote MCP server index is invalid"@))
    } else {
        match all_imported(
            ImportView { prepared, declarations: prepared.request.tools() },
            server_index,
            prepared.pending[server_index as int],
            tools,
        ) {
            Ok(after) => Ok(
                PreparedView {
                    request: after.prepared.request.with_field(
                        "tools"@,
                        JsonView::Array(after.declarations),
                    ),
                    ..after.prepared
                },
            ),
            Err(error) => Err(error),
        }
    }
}

/// A prepared request once every server's tools are imported.
pub open spec fn initialized(prepared: PreparedView) -> Result<PreparedView, ErrorView> {
    match refreshed(PreparedView { pending: Seq::empty(), ..prepared }) {
        Err(error) => Err(error),
        Ok(after) => match after.request.rest.get("tool_choice"@) {
            Some(choice) => if choice.text_at("type"@) == Some("mcp"@) {
                Err(
                    ErrorView::invalid_request("mcp tool_choice does not match an imported tool"@),
                )
            } else {
                Ok(after)
            },
            None => Ok(after),
        },
    }
}

impl PreparedToolRuntime {
    /// Imports one tool.
    fn import_tool(
        self,
        declarations: Vec<Json>,
        server_index: usize,
        tool_index: usize,
        tool: &RemoteMcpTool,
    ) -> (r: Result<(PreparedToolRuntime, Vec<Json>), ToolRuntimeError>)
        requires
            server_index < self@.pending.len(),
        ensures
            match r {
                Ok((after, list)) => imported(
                    ImportView { prepared: self@, declarations: json::views(declarations@) },
                    server_index,
                    self@.pending[server_index as int],
                    tool_index as nat,
                    tool@,
                ) == Ok::<ImportView, ErrorView>(
                    ImportView { prepared: after@, declarations: json::views(list@) },
                ),
                Err(error) => imported(
                    ImportView { prepared: self@, declarations: json::views(declarations@) },
                    server_index,
                    self@.pending[server_index as int],
                    tool_index as nat,
                    tool@,
                ) == Err::<ImportView, ErrorView>(error@),
            },
    {
        let ghost start = self@;
        let ghost listed = json::views(declarations@);
        let ghost server_view = start.pending[server_index as int];
        let mut runtime = self;
        let mut declarations = declarations;
        let server = &runtime.pending_remote_mcp[server_index];
        let callers = server.allowed_callers;
        let mut internal = joined(
            REMOTE_MCP_FUNCTION_PREFIX,
            text::decimal_text(server_index as u64).as_str(),
        );
        internal.append("_");
        internal.append(text::decimal_text(tool_index as u64).as_str());
        let public = joined3(server.server_label.as_str(), ".", tool.remote_name.as_str());
        let schema = match ArgumentSchema::compile(&tool.input_schema) {
            Some(schema) => schema,
            None => {
                return Err(ToolRuntimeError::infrastructure(ToolInfrastructureError::Backend));
            },
        };
        let description = imported_description(server, tool);
        let forced = import_forced(
            &runtime.canonical_request,
            server.server_label.as_str(),
            tool.remote_name.as_str(),
        );
        if callers.direct {
            let function = Json::object().having("type", Json::text("function")).having(
                "name",
                Json::text(internal.as_str()),
            ).having("description", Json::text(description.as_str())).having(
                "strict",
                Json::Bool(false),
            ).having("parameters", tool.input_schema.clone());
            declarations.push(function);
            assert(json::views(declarations@) =~= listed.push(
                imported_function(
                    internal@,
                    imported_words(server_view, tool@),
                    tool@.input_schema,
                ),
            ));
        }
        if callers.programmatic {
            let spec = ProgrammaticToolSpec {
                public_name: public.clone(),
                internal_name: internal.clone(),
                description,
                input_schema: tool.input_schema.clone(),
                output_schema: clone_optional_json(&tool.output_schema),
            };
            match runtime.state.insert_programmatic_tool(spec) {
                Ok(_) => {},
                Err(error) => {
                    return Err(error);
                },
            }
        }
        if forced && callers.direct {
            let choice = Json::object().having("type", Json::text("function")).having(
                "name",
                Json::text(internal.as_str()),
            );
            runtime.canonical_request.replace_rest_field("tool_choice", choice);
        }
        let options = Json::object().having(
            "remote_tool_name",
            Json::text(tool.remote_name.as_str()),
        );
        match runtime.state.registry.with_remote_tool(
            internal,
            public,
            schema,
            options,
            server_index,
        ) {
            Ok(registry) => {
                runtime.state.registry = registry;
            },
            Err(error) => {
                return Err(error);
            },
        }
        Ok((runtime, declarations))
    }

    /// Imports the tools that a server advertised.
    pub fn install_remote_mcp_tools(self, server_index: usize, tools: &Vec<RemoteMcpTool>) -> (r:
        Result<PreparedToolRuntime, ToolRuntimeError>)
        ensures
            prepared_result(r) == installed(self@, server_index, remote_views(tools@)),
    {
        let ghost start = self@;
        let ghost all = remote_views(tools@);
        if server_index >= self.pending_remote_mcp.len() {
            return Err(
                ToolRuntimeError::invalid_configuration("remote MCP server index is invalid"),
            );
        }
        let ghost server = start.pending[server_index as int];
        let mut declarations = self.canonical_request.declared_tools();
        let mut runtime = self;
        let ghost first = ImportView { prepared: start, declarations: start.request.tools() };
        let mut i: usize = 0;
        assert(all.take(0) =~= Seq::empty());
        while i < tools.len()
            invariant
                start == self@,
                all == remote_views(tools@),
                server_index < start.pending.len(),
                server == start.pending[server_index as int],
                first == (ImportView { prepared: start, declarations: start.request.tools() }),
                i <= tools@.len(),
                runtime@.pending == start.pending,
                all_imported(first, server_index, server, all.take(i as int)) == Ok::<
                    ImportView,
                    ErrorView,
                >(
                    ImportView {
                        prepared: runtime@,
                        declarations: json::views(declarations@),
                    },
                ),
            decreases tools@.len() - i,
        {
            assert(all.take(i + 1).drop_last() =~= all.take(i as int));
            assert(all.take(i + 1).last() == tools@[i as int]@);
            match runtime.import_tool(declarations, server_index, i, &tools[i]) {
                Ok((after, list)) => {
                    runtime = after;
                    declarations = list;
                },
                Err(error) => {
                    proof {
                        lemma_imports_stop(first, server_index, server, all, i + 1);
                    }
                    return Err(error);
                },
            }
            i += 1;
        }
        assert(all.take(i as int) =~= all);
        runtime.canonical_request.replace_rest_field("tools", Json::array(declarations));
        Ok(runtime)
    }

    /// Ends the import of remote tools: what a request forces must be among them.
    pub fn finish_remote_mcp(self) -> (r: Result<PreparedToolRuntime, ToolRuntimeError>)
        ensures
            prepared_result(r) == initialized(self@),
    {
        let mut runtime = self;
        let ghost start = runtime@;
        runtime.pending_remote_mcp = Vec::new();
        assert(runtime@.pending =~= Seq::empty());
        assert(runtime@ == (PreparedView { pending: Seq::empty(), ..start }));
        match runtime.refresh_programmatic_schema() {
            Err(error) => Err(error),
            Ok(after) => {
                let unmatched = match after.canonical_request.rest_field("tool_choice") {
                    Some(choice) => text_equals(choice.text_at("type"), "mcp"),
                    None => false,
                };
                if unmatched {
                    Err(
                        ToolRuntimeError::invalid_request(
                            "mcp tool_choice does not match an imported tool",
                        ),
                    )
                } else {
                    Ok(after)
                }
            },
        }
    }
}

/// Refreshing the offer of programs changes nothing but the declared tools.
proof fn lemma_refreshed_keeps(prepared: PreparedView)
    ensures
        match refreshed(prepared) {
            Ok(after) => after == (PreparedView {
                request: prepared.request.with_field(
                    "tools"@,
                    JsonView::Array(after.request.tools()),
                ),
                ..prepared
            }),
            Err(_) => true,
        },
{
    if let Ok(after) = refreshed(prepared) {
        let others = without_programs(prepared.request.tools());
        lemma_tools_set(prepared.request, others);
        lemma_tools_set(
            prepared.request,
            others.push(program_function(prepared.state.programmatic_tools)),
        );
    }
}

/// The tools of a request are those that were set.
proof fn lemma_tools_set(request: RequestView, tools: Seq<JsonView>)
    ensures
        request.with_field("tools"@, JsonView::Array(tools)).tools() == tools,
{
    let fields = match request.rest {
        JsonView::Object(fields) => fields,
        _ => Seq::empty(),
    };
    json::a_field_reads_back_what_was_set(fields, "tools"@, JsonView::Array(tools), "tools"@);
}

/// Declarations without programs have no declaration of programs to lose.
proof fn lemma_without_programs_again(tools: Seq<JsonView>)
    ensures
        without_programs(without_programs(tools)) == without_programs(tools),
    decreases tools.len(),
{
    if tools.len() > 0 {
        lemma_without_programs_again(tools.drop_last());
        if tools.last().text_at("name"@) != Some(PROGRAMMATIC_FUNCTION@) {
            let others = without_programs(tools.drop_last());
            assert(others.push(tools.last()).drop_last() =~= others);
        }
    }
}

/// Programs are offered once, however often the offer is refreshed.
pub proof fn refreshing_again_changes_nothing(prepared: PreparedView)
    requires
        refreshed(prepared) is Ok,
    ensures
        refreshed(refreshed(prepared)->Ok_0) == refreshed(prepared),
{
    let after = refreshed(prepared)->Ok_0;
    let others = without_programs(prepared.request.tools());
    let offer = program_function(prepared.state.programmatic_tools);
    let fields = match prepared.request.rest {
        JsonView::Object(fields) => fields,
        _ => Seq::empty(),
    };
    lemma_refreshed_keeps(prepared);
    lemma_tools_set(prepared.request, others);
    lemma_tools_set(prepared.request, others.push(offer));
    lemma_without_programs_again(prepared.request.tools());
    mapper::lemma_builtin_is_function(
        PROGRAMMATIC_FUNCTION@,
        program_words() + serde_value::json_text(
            JsonView::Array(catalog_entries(prepared.state.programmatic_tools)),
        ),
        schema::one_string("code"@),
    );
    assert(others.push(offer).drop_last() =~= others);
    assert(without_programs(after.request.tools()) == others);
    json::setting_a_field_again_replaces_it(
        fields,
        "tools"@,
        JsonView::Array(after.request.tools()),
        JsonView::Array(after.request.tools()),
    );
    assert(after.request.with_field("tools"@, JsonView::Array(after.request.tools()))
        == after.request);
}

/// The rounds of a managed request are never streamed, whether or not its client asked for a
/// stream, and the client's wish is kept.
pub proof fn prepared_requests_are_not_streamed(
    request: RequestView,
    registry: Option<RegistryView>,
    now: Instant,
    max_deferred: nat,
)
    ensures
        match prepared(request, registry, now, max_deferred) {
            Ok(Some(runtime)) => {
                &&& runtime.request.stream != Some(true)
                &&& runtime.client_streaming == (request.stream == Some(true))
                &&& runtime.request.history == request.history
            },
            _ => true,
        },
{
    if let Ok(Some(runtime)) = prepared(request, registry, now, max_deferred) {
        let found = all_declared(
            registry,
            client_declarations(request)->Ok_0,
            max_deferred,
        )->Ok_0;
        let known = RegistryView {
            tools: with_all(registry->0.tools, found.options, found.schemas),
            ..registry->0
        };
        let quiet = unstreamed(request);
        let state = with_programmatic_tools(
            bare_state(
                known,
                parallelism(quiet)->Ok_0,
                deadline_from(now, registry->0.limits),
                found.programmatic,
                2,
            ),
            found.programmatic_tools,
        )->Ok_0;
        lemma_refreshed_keeps(
            PreparedView {
                state,
                request: quiet.with_field("tools"@, JsonView::Array(found.rewritten)),
                client_streaming: request.stream == Some(true),
                include_obfuscation: obfuscation(request)->Ok_0,
                client_tools: sanitized(request.rest.get("tools"@)),
                usage: None,
                pending: found.servers,
                tool_search: if found.tool_search {
                    Some(found.deferred)
                } else {
                    None
                },
            },
        );
    }
}

/// A secret of a server that a client declares is never given back: no such declaration that the
/// client gets holds one.
pub proof fn client_tools_hold_no_secret(tools: Seq<JsonView>, i: int)
    requires
        0 <= i < tools.len(),
        tools[i] is Object ==> json::ascending(tools[i]->Object_0),
    ensures
        ({
            let given = sanitized(Some(JsonView::Array(tools)))->0->Array_0[i];
            given.text_at("type"@) == Some("mcp"@) ==> given.get("authorization"@) is None
        }),
{
    if tools[i] is Object {
        json::a_removed_field_is_gone(tools[i]->Object_0, "authorization"@, "type"@);
        reveal_strlit("authorization");
        reveal_strlit("type");
        assert("authorization"@.len() != "type"@.len());
    }
}

/// Whether no two tools have one public name.
pub open spec fn specs_differ(tools: Seq<SpecView>) -> bool {
    forall|i: int, j: int|
        0 <= i < j < tools.len() ==> (#[trigger] tools[i]).public_name != (
        #[trigger] tools[j]).public_name
}

/// A catalog that is put together tool by tool comes to the size of the whole, less the brackets
/// where they were not counted first, and is allowed where, and only where, that is.
pub proof fn a_catalog_is_counted_as_a_whole(state: StateView, tools: Seq<SpecView>)
    requires
        state.programmatic_tools.len() == 0,
        state.programmatic_catalog_bytes <= 2,
        specs_differ(tools),
    ensures
        match with_programmatic_tools(state, tools) {
            Ok(after) => {
                &&& after.counted_from(state.programmatic_catalog_bytes)
                &&& after.programmatic_catalog_bytes + 2 == state.programmatic_catalog_bytes
                    + catalog_size(tools)
                &&& after.programmatic_tools.to_multiset() == tools.to_multiset()
            },
            Err(error) => {
                &&& state.programmatic_catalog_bytes + catalog_size(tools)
                    > conversation::PROGRAMMATIC_MAX_CATALOG_BYTES + 2
                &&& catalog_size(tools) <= usize::MAX ==> error == conversation::catalog_too_large()
            },
        },
    decreases tools.len(),
{
    if tools.len() == 0 {
        assert(state.programmatic_tools =~= tools);
    } else {
        let rest = tools.drop_last();
        let last = tools.last();
        assert(specs_differ(rest)) by {
            assert forall|i: int, j: int| 0 <= i < j < rest.len() implies (
            #[trigger] rest[i]).public_name != (#[trigger] rest[j]).public_name by {
                assert(rest[i] == tools[i] && rest[j] == tools[j]);
            }
        }
        a_catalog_is_counted_as_a_whole(state, rest);
        assert(tools =~= rest.push(last));
        vstd::seq_lib::to_multiset_build(rest, last);
        if let Ok(before) = with_programmatic_tools(state, rest) {
            let kept = before.programmatic_tools;
            vstd::seq_lib::to_multiset_len(kept);
            vstd::seq_lib::to_multiset_len(rest);
            conversation::lemma_spec_named(kept, last.public_name);
            assert forall|i: int| 0 <= i < kept.len() implies (#[trigger] kept[i]).public_name
                != last.public_name by {
                vstd::seq_lib::to_multiset_contains(kept, kept[i]);
                vstd::seq_lib::to_multiset_contains(rest, kept[i]);
                assert(kept.contains(kept[i]));
                let j = rest.index_of(kept[i]);
                assert(rest[j] == tools[j]);
                assert(tools[j].public_name != tools[tools.len() - 1].public_name);
            }
            conversation::a_placed_tool_keeps_order_and_size(kept, last);
            conversation::lemma_rank(kept, last.public_name);
            vstd::seq_lib::to_multiset_insert(
                kept,
                conversation::rank(kept, last.public_name) as int,
                last,
            );
        }
    }
}

} // verus!
