//! The tools that calls of a model are authorized against.

use vstd::prelude::*;
use vstd::string::*;
use crate::config::{
    BackendConfigView, BuiltinTool, ManagedToolConfig, RuntimeLimits, ToolBackendConfig,
    ToolRuntimeConfig, CODE_INTERPRETER_FUNCTION, RESERVED_PREFIX, WEB_SEARCH_FUNCTION,
};
use crate::error::{joined, joined3, ErrorView, ToolRuntimeError};
use crate::json::{Json, JsonView};
use crate::schema::ArgumentSchema;
use crate::telemetry::ToolBackendLabel;
use crate::{schema, text};

verus! {

/// A backend that one request brought: which of its servers, and how it is labelled.
#[derive(Clone, Copy, Debug, PartialEq, Eq, Structural)]
pub struct RequestBackend {
    pub server: usize,
    pub label: ToolBackendLabel,
}

/// Operator-approved backend and request-scoped trusted options of one managed tool.
pub struct RegisteredTool {
    pub public_name: String,
    pub internal_name: String,
    pub backend: Option<ToolBackendConfig>,
    pub request_backend: Option<RequestBackend>,
    pub trusted_options: Option<Json>,
    pub argument_schema: Option<ArgumentSchema>,
}

/// What is known of one managed tool.
pub struct ToolView {
    pub public_name: Seq<char>,
    pub internal_name: Seq<char>,
    pub backend: Option<BackendConfigView>,
    pub request_backend: Option<RequestBackend>,
    pub trusted_options: Option<JsonView>,
    pub argument_schema: Option<JsonView>,
}

/// What a value that may be absent holds.
pub open spec fn optional_json(v: Option<Json>) -> Option<JsonView> {
    match v {
        Some(v) => Some(v@),
        None => None,
    }
}

pub fn clone_optional_json(v: &Option<Json>) -> (r: Option<Json>)
    ensures
        optional_json(r) == optional_json(*v),
{
    match v {
        Some(v) => Some(v.clone()),
        None => None,
    }
}

impl RegisteredTool {
    pub open spec fn view(&self) -> ToolView {
        ToolView {
            public_name: self.public_name@,
            internal_name: self.internal_name@,
            backend: match self.backend {
                Some(backend) => Some(backend@),
                None => None,
            },
            request_backend: self.request_backend,
            trusted_options: optional_json(self.trusted_options),
            argument_schema: match self.argument_schema {
                Some(schema) => Some(schema@),
                None => None,
            },
        }
    }
}

impl Clone for RegisteredTool {
    fn clone(&self) -> (r: Self)
        ensures
            r@ == self@,
    {
        RegisteredTool {
            public_name: self.public_name.clone(),
            internal_name: self.internal_name.clone(),
            backend: match &self.backend {
                Some(backend) => Some(backend.clone()),
                None => None,
            },
            request_backend: self.request_backend,
            trusted_options: clone_optional_json(&self.trusted_options),
            argument_schema: match &self.argument_schema {
                Some(schema) => Some(schema.clone()),
                None => None,
            },
        }
    }
}

/// The views of tools.
pub open spec fn tool_views(tools: Seq<RegisteredTool>) -> Seq<ToolView> {
    Seq::new(tools.len(), |i: int| tools[i].view())
}

/// The tool with this internal name.
pub open spec fn by_internal(tools: Seq<ToolView>, name: Seq<char>) -> Option<ToolView>
    decreases tools.len(),
{
    if tools.len() == 0 {
        None
    } else if tools.last().internal_name == name {
        Some(tools.last())
    } else {
        by_internal(tools.drop_last(), name)
    }
}

/// The tool with this public name.
pub open spec fn by_public(tools: Seq<ToolView>, name: Seq<char>) -> Option<ToolView>
    decreases tools.len(),
{
    if tools.len() == 0 {
        None
    } else if tools.last().public_name == name {
        Some(tools.last())
    } else {
        by_public(tools.drop_last(), name)
    }
}

/// Whether no two tools share a public or an internal name.
pub open spec fn names_are_distinct(tools: Seq<ToolView>) -> bool {
    forall|i: int, j: int|
        0 <= i < j < tools.len() ==> (#[trigger] tools[i]).public_name != (
        #[trigger] tools[j]).public_name && tools[i].internal_name != tools[j].internal_name
}

pub struct RegistryView {
    pub limits: RuntimeLimits,
    pub tools: Seq<ToolView>,
}

impl RegistryView {
    /// Whether a function of this name is one of the operator's own.
    pub open spec fn resolves(self, name: Seq<char>) -> bool {
        match by_public(self.tools, name) {
            Some(tool) => tool.internal_name == name,
            None => false,
        }
    }

    pub open spec fn has_internal(self, name: Seq<char>) -> bool {
        by_internal(self.tools, name) is Some
    }
}

/// The tools of the operator, and those that a request imported. No two share a name.
pub struct ToolRegistry {
    limits: RuntimeLimits,
    tools: Vec<RegisteredTool>,
}

/// What the operator says of one tool.
pub struct ConfigView {
    pub name: Seq<char>,
    pub builtin: Option<BuiltinTool>,
    pub backend: BackendConfigView,
}

impl ManagedToolConfig {
    pub open spec fn view(&self) -> ConfigView {
        ConfigView { name: self.name@, builtin: self.builtin, backend: self.backend@ }
    }
}

pub open spec fn config_views(tools: Seq<ManagedToolConfig>) -> Seq<ConfigView> {
    Seq::new(tools.len(), |i: int| tools[i].view())
}

/// The name under which a model is offered a tool.
pub open spec fn internal_name(tool: ConfigView) -> Seq<char> {
    match tool.builtin {
        Some(BuiltinTool::WebSearch) => WEB_SEARCH_FUNCTION@,
        Some(BuiltinTool::CodeInterpreter) => CODE_INTERPRETER_FUNCTION@,
        None => tool.name,
    }
}

/// The argument schema of a tool, where the runtime knows it by itself.
pub open spec fn builtin_schema(tool: ConfigView) -> Option<JsonView> {
    match tool.builtin {
        Some(BuiltinTool::WebSearch) => Some(schema::one_string("query"@)),
        Some(BuiltinTool::CodeInterpreter) => Some(schema::one_string("code"@)),
        None => None,
    }
}

pub open spec fn builtin_words(builtin: BuiltinTool) -> Seq<char> {
    match builtin {
        BuiltinTool::WebSearch => "WebSearch"@,
        BuiltinTool::CodeInterpreter => "CodeInterpreter"@,
    }
}

/// What is wrong with one tool, given those before it.
pub open spec fn config_complaint(tools: Seq<ToolView>, tool: ConfigView) -> Option<ErrorView> {
    let schema = builtin_schema(tool);
    if tool.name.len() == 0 {
        Some(ErrorView::invalid_configuration("tool name must not be empty"@))
    } else if text::has_prefix(tool.name, RESERVED_PREFIX@) {
        Some(
            ErrorView::invalid_configuration(
                "tool name "@ + tool.name + " uses the reserved _agentgateway_ prefix"@,
            ),
        )
    } else if tool.builtin == Some(BuiltinTool::CodeInterpreter) && tool.backend is Http {
        Some(ErrorView::invalid_configuration("codeInterpreter requires e2b"@))
    } else if tool.builtin == Some(BuiltinTool::WebSearch) && tool.backend is E2b {
        Some(ErrorView::invalid_configuration("webSearch requires http"@))
    } else if tool.builtin is None && tool.backend is E2b {
        Some(ErrorView::invalid_configuration("ordinary functions require http"@))
    } else if schema is Some && !schema::schema_compiles(schema->0) {
        Some(ErrorView::invalid_configuration("builtin argument schema is invalid"@))
    } else if tool.builtin is Some && by_internal(tools, internal_name(tool)) is Some {
        Some(
            ErrorView::invalid_configuration(
                "duplicate builtin "@ + builtin_words(tool.builtin->0),
            ),
        )
    } else if by_public(tools, tool.name) is Some {
        Some(ErrorView::invalid_configuration("duplicate tool name "@ + tool.name))
    } else {
        None
    }
}

/// One tool as it is registered.
pub open spec fn registered(tool: ConfigView) -> ToolView {
    ToolView {
        public_name: tool.name,
        internal_name: internal_name(tool),
        backend: Some(tool.backend),
        request_backend: None,
        trusted_options: None,
        argument_schema: builtin_schema(tool),
    }
}

/// The tools of a configuration as they are registered, or what is wrong with the first bad one.
pub open spec fn compiled(configs: Seq<ConfigView>) -> Result<Seq<ToolView>, ErrorView>
    decreases configs.len(),
{
    if configs.len() == 0 {
        Ok(Seq::empty())
    } else {
        match compiled(configs.drop_last()) {
            Ok(tools) => match config_complaint(tools, configs.last()) {
                Some(complaint) => Err(complaint),
                None => Ok(tools.push(registered(configs.last()))),
            },
            Err(complaint) => Err(complaint),
        }
    }
}

pub proof fn lemma_by_internal(tools: Seq<ToolView>, name: Seq<char>, i: int)
    requires
        0 <= i < tools.len(),
        tools[i].internal_name == name,
        forall|j: int| i < j < tools.len() ==> (#[trigger] tools[j]).internal_name != name,
    ensures
        by_internal(tools, name) == Some(tools[i]),
    decreases tools.len(),
{
    if i < tools.len() - 1 {
        assert(tools[tools.len() - 1].internal_name != name);
        assert(tools.drop_last()[i] == tools[i]);
        lemma_by_internal(tools.drop_last(), name, i);
    }
}

pub proof fn lemma_no_internal(tools: Seq<ToolView>, name: Seq<char>)
    ensures
        by_internal(tools, name) is None <==> forall|j: int|
            0 <= j < tools.len() ==> (#[trigger] tools[j]).internal_name != name,
    decreases tools.len(),
{
    if tools.len() > 0 {
        lemma_no_internal(tools.drop_last(), name);
        if by_internal(tools, name) is None {
            assert forall|j: int| 0 <= j < tools.len() implies (#[trigger] tools[j]).internal_name
                != name by {
                if j < tools.len() - 1 {
                    assert(tools.drop_last()[j].internal_name != name);
                }
            }
        } else {
            if tools.last().internal_name != name {
                let k = choose|k: int|
                    0 <= k < tools.drop_last().len() && (
                    #[trigger] tools.drop_last()[k]).internal_name == name;
                assert(tools[k].internal_name == name);
            } else {
                assert(tools[tools.len() - 1].internal_name == name);
            }
        }
    }
}

pub proof fn lemma_no_public(tools: Seq<ToolView>, name: Seq<char>)
    ensures
        by_public(tools, name) is None <==> forall|j: int|
            0 <= j < tools.len() ==> (#[trigger] tools[j]).public_name != name,
    decreases tools.len(),
{
    if tools.len() > 0 {
        lemma_no_public(tools.drop_last(), name);
        if by_public(tools, name) is None {
            assert forall|j: int| 0 <= j < tools.len() implies (#[trigger] tools[j]).public_name
                != name by {
                if j < tools.len() - 1 {
                    assert(tools.drop_last()[j].public_name != name);
                }
            }
        } else {
            if tools.last().public_name != name {
                let k = choose|k: int|
                    0 <= k < tools.drop_last().len() && (
                    #[trigger] tools.drop_last()[k]).public_name == name;
                assert(tools[k].public_name == name);
            } else {
                assert(tools[tools.len() - 1].public_name == name);
            }
        }
    }
}

/// Every tool that a configuration registers has an internal name that is reserved or its own, and
/// no two tools share a name.
pub proof fn a_configuration_registers_distinct_names(configs: Seq<ConfigView>)
    ensures
        match compiled(configs) {
            Ok(tools) => {
                &&& tools.len() == configs.len()
                &&& names_are_distinct(tools)
                &&& forall|i: int|
                    0 <= i < tools.len() ==> {
                        &&& (#[trigger] tools[i]) == registered(configs[i])
                        &&& !text::has_prefix(tools[i].public_name, RESERVED_PREFIX@)
                        &&& tools[i].public_name.len() > 0
                    }
            },
            Err(_) => true,
        },
    decreases configs.len(),
{
    if configs.len() > 0 {
        let rest = configs.drop_last();
        a_configuration_registers_distinct_names(rest);
        if compiled(configs) is Ok {
            let before = compiled(rest)->Ok_0;
            let tools = compiled(configs)->Ok_0;
            let tool = configs.last();
            lemma_no_public(before, tool.name);
            lemma_no_internal(before, internal_name(tool));
            assert forall|i: int, j: int| 0 <= i < j < tools.len() implies (
            #[trigger] tools[i]).public_name != (#[trigger] tools[j]).public_name
                && tools[i].internal_name != tools[j].internal_name by {
                if j < before.len() {
                    assert(before[i] == tools[i] && before[j] == tools[j]);
                } else {
                    assert(before[i] == tools[i]);
                    assert(before[i].public_name != tool.name);
                    if tool.builtin is None && tools[i].internal_name == tool.name {
                        assert(tools[i] == registered(rest[i]));
                        lemma_builtin_names();
                        assert(text::has_prefix(tool.name, RESERVED_PREFIX@));
                    }
                }
            }
        }
    }
}

/// The names of the built-in tools are reserved, and differ.
pub proof fn lemma_builtin_names()
    ensures
        text::has_prefix(WEB_SEARCH_FUNCTION@, RESERVED_PREFIX@),
        text::has_prefix(CODE_INTERPRETER_FUNCTION@, RESERVED_PREFIX@),
        WEB_SEARCH_FUNCTION@ != CODE_INTERPRETER_FUNCTION@,
{
    reveal_strlit("_agentgateway_web_search");
    reveal_strlit("_agentgateway_code_interpreter");
    reveal_strlit("_agentgateway_");
    let reserved = "_agentgateway_"@;
    assert(WEB_SEARCH_FUNCTION@.take(reserved.len() as int) =~= reserved);
    assert(CODE_INTERPRETER_FUNCTION@.take(reserved.len() as int) =~= reserved);
    assert(WEB_SEARCH_FUNCTION@.len() != CODE_INTERPRETER_FUNCTION@.len());
}

/// The tools once one has imported options.
pub open spec fn with_options(
    tools: Seq<ToolView>,
    name: Seq<char>,
    options: JsonView,
) -> Seq<ToolView> {
    Seq::new(
        tools.len(),
        |i: int|
            if tools[i].internal_name == name {
                ToolView { trusted_options: Some(options), ..tools[i] }
            } else {
                tools[i]
            },
    )
}

/// The tools once one has an argument schema.
pub open spec fn with_schema(
    tools: Seq<ToolView>,
    name: Seq<char>,
    schema: JsonView,
) -> Seq<ToolView> {
    Seq::new(
        tools.len(),
        |i: int|
            if tools[i].internal_name == name {
                ToolView { argument_schema: Some(schema), ..tools[i] }
            } else {
                tools[i]
            },
    )
}

/// The tools once those that a request names have its options and schemas.
pub open spec fn with_all(
    tools: Seq<ToolView>,
    options: Seq<(Seq<char>, JsonView)>,
    schemas: Seq<(Seq<char>, JsonView)>,
) -> Seq<ToolView>
    decreases options.len() + schemas.len(),
{
    if schemas.len() > 0 {
        with_schema(
            with_all(tools, options, schemas.drop_last()),
            schemas.last().0,
            schemas.last().1,
        )
    } else if options.len() > 0 {
        with_options(
            with_all(tools, options.drop_last(), schemas),
            options.last().0,
            options.last().1,
        )
    } else {
        tools
    }
}

/// Names with their argument schemas.
pub open spec fn schema_views(list: Seq<(String, ArgumentSchema)>) -> Seq<(Seq<char>, JsonView)> {
    Seq::new(list.len(), |i: int| (list[i].0@, list[i].1@))
}

/// An imported tool as it is registered.
pub open spec fn remote_tool(
    internal: Seq<char>,
    public: Seq<char>,
    schema: JsonView,
    options: JsonView,
    server: usize,
) -> ToolView {
    ToolView {
        public_name: public,
        internal_name: internal,
        backend: None,
        request_backend: Some(RequestBackend { server, label: ToolBackendLabel::RemoteMcp }),
        trusted_options: Some(options),
        argument_schema: Some(schema),
    }
}

impl ToolRegistry {
    pub closed spec fn view(&self) -> RegistryView {
        RegistryView { limits: self.limits, tools: tool_views(self.tools@) }
    }

    #[verifier::type_invariant]
    spec fn well_formed(self) -> bool {
        names_are_distinct(tool_views(self.tools@))
    }

    /// Registers the tools of a configuration.
    pub fn compile(config: ToolRuntimeConfig) -> (r: Result<ToolRegistry, ToolRuntimeError>)
        ensures
            match r {
                Ok(registry) => compiled(config_views(config.tools@)) == Ok::<
                    Seq<ToolView>,
                    ErrorView,
                >(registry@.tools) && registry@.limits == config.limits && names_are_distinct(
                    registry@.tools,
                ),
                Err(error) => compiled(config_views(config.tools@)) == Err::<
                    Seq<ToolView>,
                    ErrorView,
                >(error@),
            },
    {
        let ghost configs = config_views(config.tools@);
        let mut tools: Vec<RegisteredTool> = Vec::new();
        assert(tool_views(tools@) =~= Seq::empty());
        let mut i: usize = 0;
        while i < config.tools.len()
            invariant
                configs == config_views(config.tools@),
                i <= config.tools@.len(),
                compiled(configs.take(i as int)) == Ok::<Seq<ToolView>, ErrorView>(
                    tool_views(tools@),
                ),
            decreases config.tools@.len() - i,
        {
            let tool = &config.tools[i];
            proof {
                assert(configs.take(i + 1).drop_last() =~= configs.take(i as int));
                assert(configs.take(i + 1).last() == tool@);
            }
            match config_error(&tools, tool) {
                Some(error) => {
                    proof {
                        lemma_compiled_stops(configs, i + 1);
                    }
                    return Err(error);
                },
                None => {},
            }
            let ghost before = tool_views(tools@);
            let added = register(tool);
            tools.push(added);
            assert(tool_views(tools@) =~= before.push(registered(tool@)));
            i += 1;
        }
        proof {
            assert(configs.take(i as int) =~= configs);
            a_configuration_registers_distinct_names(configs);
        }
        Ok(ToolRegistry { limits: config.limits, tools })
    }

    /// How many tools there are; no two share a name.
    pub fn len(&self) -> (r: usize)
        ensures
            r == self@.tools.len(),
            names_are_distinct(self@.tools),
    {
        proof {
            use_type_invariant(self);
        }
        self.tools.len()
    }

    /// A tool by its place.
    pub fn tool(&self, i: usize) -> (r: &RegisteredTool)
        requires
            i < self@.tools.len(),
        ensures
            r@ == self@.tools[i as int],
    {
        &self.tools[i]
    }

    pub fn limits(&self) -> (r: RuntimeLimits)
        ensures
            r == self@.limits,
    {
        self.limits
    }

    /// The tool with this internal name.
    pub fn find_internal(&self, name: &str) -> (r: Option<&RegisteredTool>)
        ensures
            match r {
                Some(tool) => by_internal(self@.tools, name@) == Some(tool@),
                None => by_internal(self@.tools, name@) is None,
            },
    {
        match place_of_internal(&self.tools, name) {
            Some(i) => Some(&self.tools[i]),
            None => None,
        }
    }

    pub fn has_internal(&self, name: &str) -> (r: bool)
        ensures
            r == self@.has_internal(name@),
    {
        place_of_internal(&self.tools, name).is_some()
    }

    pub fn resolves_function(&self, name: &str) -> (r: bool)
        ensures
            r == self@.resolves(name@),
    {
        match place_of_public(&self.tools, name) {
            Some(i) => text::same_text(self.tools[i].internal_name.as_str(), name),
            None => false,
        }
    }

    /// The options of one tool that the model cannot set.
    pub fn trusted_options(&self, internal_name: &str) -> (r: Option<&Json>)
        ensures
            match r {
                Some(options) => match by_internal(self@.tools, internal_name@) {
                    Some(tool) => tool.trusted_options == Some(options@),
                    None => false,
                },
                None => match by_internal(self@.tools, internal_name@) {
                    Some(tool) => tool.trusted_options is None,
                    None => true,
                },
            },
    {
        match place_of_internal(&self.tools, internal_name) {
            Some(i) => match &self.tools[i].trusted_options {
                Some(options) => Some(options),
                None => None,
            },
            None => None,
        }
    }

    /// The registry once the tools that a request names have its options and schemas.
    pub fn with_request_data(
        &self,
        options: &Vec<(String, Json)>,
        argument_schemas: &Vec<(String, ArgumentSchema)>,
    ) -> (r: ToolRegistry)
        ensures
            r@.limits == self@.limits,
            r@.tools == with_all(
                self@.tools,
                crate::json::entry_views(options@),
                schema_views(argument_schemas@),
            ),
    {
        proof {
            use_type_invariant(self);
        }
        let ghost start = self@.tools;
        let ghost wanted = crate::json::entry_views(options@);
        let ghost schemas = schema_views(argument_schemas@);
        let mut tools = clone_tools(&self.tools);
        let mut i: usize = 0;
        assert(wanted.take(0) =~= Seq::empty());
        assert(schemas.take(0) =~= Seq::empty());
        while i < options.len()
            invariant
                wanted == crate::json::entry_views(options@),
                i <= options@.len(),
                names_are_distinct(tool_views(tools@)),
                tool_views(tools@) == with_all(start, wanted.take(i as int), Seq::empty()),
            decreases options@.len() - i,
        {
            proof {
                assert(wanted.take(i + 1).drop_last() =~= wanted.take(i as int));
                assert(wanted.take(i + 1).last() == wanted[i as int]);
            }
            set_options(&mut tools, options[i].0.as_str(), &options[i].1);
            i += 1;
        }
        assert(wanted.take(i as int) =~= wanted);
        let mut k: usize = 0;
        while k < argument_schemas.len()
            invariant
                schemas == schema_views(argument_schemas@),
                k <= argument_schemas@.len(),
                names_are_distinct(tool_views(tools@)),
                tool_views(tools@) == with_all(start, wanted, schemas.take(k as int)),
            decreases argument_schemas@.len() - k,
        {
            proof {
                assert(schemas.take(k + 1).drop_last() =~= schemas.take(k as int));
                assert(schemas.take(k + 1).last() == schemas[k as int]);
            }
            set_schema(&mut tools, argument_schemas[k].0.as_str(), &argument_schemas[k].1);
            k += 1;
        }
        assert(schemas.take(k as int) =~= schemas);
        ToolRegistry { limits: self.limits, tools }
    }

    /// The registry once a tool of a remote server is imported.
    pub fn with_remote_tool(
        &self,
        internal_name: String,
        public_name: String,
        argument_schema: ArgumentSchema,
        trusted_options: Json,
        server: usize,
    ) -> (r: Result<ToolRegistry, ToolRuntimeError>)
        ensures
            match r {
                Ok(registry) => {
                    &&& by_internal(self@.tools, internal_name@) is None
                    &&& by_public(self@.tools, public_name@) is None
                    &&& registry@.limits == self@.limits
                    &&& registry@.tools == self@.tools.push(
                        remote_tool(
                            internal_name@,
                            public_name@,
                            argument_schema@,
                            trusted_options@,
                            server,
                        ),
                    )
                },
                Err(error) => {
                    &&& by_internal(self@.tools, internal_name@) is Some || by_public(
                        self@.tools,
                        public_name@,
                    ) is Some
                    &&& error@ == ErrorView::invalid_request("duplicate imported remote MCP tool"@)
                },
            },
    {
        proof {
            use_type_invariant(self);
        }
        if place_of_internal(&self.tools, internal_name.as_str()).is_some() || place_of_public(
            &self.tools,
            public_name.as_str(),
        ).is_some() {
            return Err(ToolRuntimeError::invalid_request("duplicate imported remote MCP tool"));
        }
        let ghost start = self@.tools;
        proof {
            lemma_no_internal(start, internal_name@);
            lemma_no_public(start, public_name@);
        }
        let mut tools = clone_tools(&self.tools);
        tools.push(
            RegisteredTool {
                public_name,
                internal_name,
                backend: None,
                request_backend: Some(
                    RequestBackend { server, label: ToolBackendLabel::RemoteMcp },
                ),
                trusted_options: Some(trusted_options),
                argument_schema: Some(argument_schema),
            },
        );
        proof {
            let after = start.push(
                remote_tool(
                    internal_name@,
                    public_name@,
                    argument_schema@,
                    trusted_options@,
                    server,
                ),
            );
            assert(tool_views(tools@) =~= after);
            assert forall|i: int, j: int| 0 <= i < j < after.len() implies (
            #[trigger] after[i]).public_name != (#[trigger] after[j]).public_name
                && after[i].internal_name != after[j].internal_name by {
                assert(after[i] == start[i]);
                if j < start.len() {
                    assert(after[j] == start[j]);
                }
            }
        }
        Ok(ToolRegistry { limits: self.limits, tools })
    }
}

impl Clone for ToolRegistry {
    fn clone(&self) -> (r: Self)
        ensures
            r@ == self@,
    {
        proof {
            use_type_invariant(self);
        }
        ToolRegistry { limits: self.limits, tools: clone_tools(&self.tools) }
    }
}

proof fn lemma_compiled_stops(configs: Seq<ConfigView>, n: int)
    requires
        0 <= n <= configs.len(),
        compiled(configs.take(n)) is Err,
    ensures
        compiled(configs) == compiled(configs.take(n)),
    decreases configs.len() - n,
{
    if n < configs.len() {
        assert(configs.take(n + 1).drop_last() =~= configs.take(n));
        lemma_compiled_stops(configs, n + 1);
    } else {
        assert(configs.take(n) =~= configs);
    }
}

fn clone_tools(tools: &Vec<RegisteredTool>) -> (r: Vec<RegisteredTool>)
    ensures
        tool_views(r@) == tool_views(tools@),
{
    let mut r: Vec<RegisteredTool> = Vec::new();
    let mut i: usize = 0;
    while i < tools.len()
        invariant
            i <= tools@.len(),
            r@.len() == i,
            forall|j: int| 0 <= j < i ==> (#[trigger] r@[j])@ == tools@[j]@,
        decreases tools@.len() - i,
    {
        r.push(tools[i].clone());
        i += 1;
    }
    assert(tool_views(r@) =~= tool_views(tools@));
    r
}

fn place_of_internal(tools: &Vec<RegisteredTool>, name: &str) -> (r: Option<usize>)
    ensures
        match r {
            Some(i) => i < tools@.len() && by_internal(tool_views(tools@), name@) == Some(
                tools@[i as int]@,
            ),
            None => by_internal(tool_views(tools@), name@) is None,
        },
{
    let ghost views = tool_views(tools@);
    let mut i: usize = tools.len();
    assert(views.take(i as int) =~= views);
    while i > 0
        invariant
            views == tool_views(tools@),
            i <= tools@.len(),
            by_internal(views, name@) == by_internal(views.take(i as int), name@),
        decreases i,
    {
        assert(views.take(i as int).drop_last() =~= views.take(i - 1));
        assert(views.take(i as int).last() == tools@[i - 1]@);
        if text::same_text(tools[i - 1].internal_name.as_str(), name) {
            return Some(i - 1);
        }
        i -= 1;
    }
    None
}

fn place_of_public(tools: &Vec<RegisteredTool>, name: &str) -> (r: Option<usize>)
    ensures
        match r {
            Some(i) => i < tools@.len() && by_public(tool_views(tools@), name@) == Some(
                tools@[i as int]@,
            ),
            None => by_public(tool_views(tools@), name@) is None,
        },
{
    let ghost views = tool_views(tools@);
    let mut i: usize = tools.len();
    assert(views.take(i as int) =~= views);
    while i > 0
        invariant
            views == tool_views(tools@),
            i <= tools@.len(),
            by_public(views, name@) == by_public(views.take(i as int), name@),
        decreases i,
    {
        assert(views.take(i as int).drop_last() =~= views.take(i - 1));
        assert(views.take(i as int).last() == tools@[i - 1]@);
        if text::same_text(tools[i - 1].public_name.as_str(), name) {
            return Some(i - 1);
        }
        i -= 1;
    }
    None
}

fn set_options(tools: &mut Vec<RegisteredTool>, name: &str, options: &Json)
    ensures
        tool_views(final(tools)@) == with_options(tool_views(old(tools)@), name@, options@),
        names_are_distinct(tool_views(old(tools)@)) ==> names_are_distinct(
            tool_views(final(tools)@),
        ),
{
    let ghost start = tool_views(tools@);
    let ghost wanted = with_options(start, name@, options@);
    let mut i: usize = 0;
    while i < tools.len()
        invariant
            wanted == with_options(start, name@, options@),
            i <= tools@.len(),
            tools@.len() == start.len(),
            forall|j: int| 0 <= j < i ==> (#[trigger] tools@[j])@ == wanted[j],
            forall|j: int| i <= j < tools@.len() ==> (#[trigger] tools@[j])@ == start[j],
        decreases tools@.len() - i,
    {
        if text::same_text(tools[i].internal_name.as_str(), name) {
            let mut tool = tools[i].clone();
            tool.trusted_options = Some(options.clone());
            tools.set(i, tool);
        }
        i += 1;
    }
    proof {
        assert(tool_views(tools@) =~= wanted);
        if names_are_distinct(start) {
            assert forall|a: int, b: int| 0 <= a < b < wanted.len() implies (
            #[trigger] wanted[a]).public_name != (#[trigger] wanted[b]).public_name
                && wanted[a].internal_name != wanted[b].internal_name by {
                assert(start[a].public_name != start[b].public_name);
            }
        }
    }
}

fn set_schema(tools: &mut Vec<RegisteredTool>, name: &str, schema: &ArgumentSchema)
    ensures
        tool_views(final(tools)@) == with_schema(tool_views(old(tools)@), name@, schema@),
        names_are_distinct(tool_views(old(tools)@)) ==> names_are_distinct(
            tool_views(final(tools)@),
        ),
{
    let ghost start = tool_views(tools@);
    let ghost wanted = with_schema(start, name@, schema@);
    let mut i: usize = 0;
    while i < tools.len()
        invariant
            wanted == with_schema(start, name@, schema@),
            i <= tools@.len(),
            tools@.len() == start.len(),
            forall|j: int| 0 <= j < i ==> (#[trigger] tools@[j])@ == wanted[j],
            forall|j: int| i <= j < tools@.len() ==> (#[trigger] tools@[j])@ == start[j],
        decreases tools@.len() - i,
    {
        if text::same_text(tools[i].internal_name.as_str(), name) {
            let mut tool = tools[i].clone();
            tool.argument_schema = Some(schema.clone());
            tools.set(i, tool);
        }
        i += 1;
    }
    proof {
        assert(tool_views(tools@) =~= wanted);
        if names_are_distinct(start) {
            assert forall|a: int, b: int| 0 <= a < b < wanted.len() implies (
            #[trigger] wanted[a]).public_name != (#[trigger] wanted[b]).public_name
                && wanted[a].internal_name != wanted[b].internal_name by {
                assert(start[a].public_name != start[b].public_name);
            }
        }
    }
}

fn name_of(tool: &ManagedToolConfig) -> (r: String)
    ensures
        r@ == internal_name(tool@),
{
    match tool.builtin {
        Some(BuiltinTool::WebSearch) => WEB_SEARCH_FUNCTION.to_owned(),
        Some(BuiltinTool::CodeInterpreter) => CODE_INTERPRETER_FUNCTION.to_owned(),
        None => tool.name.clone(),
    }
}

fn schema_of(tool: &ManagedToolConfig) -> (r: Option<Json>)
    ensures
        optional_json(r) == builtin_schema(tool@),
{
    match tool.builtin {
        Some(BuiltinTool::WebSearch) => Some(schema::web_search_parameters()),
        Some(BuiltinTool::CodeInterpreter) => Some(schema::code_interpreter_parameters()),
        None => None,
    }
}

fn config_error(tools: &Vec<RegisteredTool>, tool: &ManagedToolConfig) -> (r: Option<
    ToolRuntimeError,
>)
    ensures
        crate::error::complaint(r) == config_complaint(tool_views(tools@), tool@),
{
    let name = tool.name.as_str();
    if name.is_empty() {
        return Some(ToolRuntimeError::invalid_configuration("tool name must not be empty"));
    }
    if text::starts_with(name, RESERVED_PREFIX) {
        let message = joined3("tool name ", name, " uses the reserved _agentgateway_ prefix");
        return Some(ToolRuntimeError::invalid_configuration(message.as_str()));
    }
    match (tool.builtin, &tool.backend) {
        (Some(BuiltinTool::CodeInterpreter), ToolBackendConfig::Http { .. }) => {
            return Some(ToolRuntimeError::invalid_configuration("codeInterpreter requires e2b"));
        },
        (Some(BuiltinTool::WebSearch), ToolBackendConfig::E2b { .. }) => {
            return Some(ToolRuntimeError::invalid_configuration("webSearch requires http"));
        },
        (None, ToolBackendConfig::E2b { .. }) => {
            return Some(
                ToolRuntimeError::invalid_configuration("ordinary functions require http"),
            );
        },
        _ => {},
    }
    match schema_of(tool) {
        Some(source) => {
            if ArgumentSchema::compile(&source).is_none() {
                return Some(
                    ToolRuntimeError::invalid_configuration("builtin argument schema is invalid"),
                );
            }
        },
        None => {},
    }
    match tool.builtin {
        Some(builtin) => {
            if place_of_internal(tools, name_of(tool).as_str()).is_some() {
                let words = match builtin {
                    BuiltinTool::WebSearch => "WebSearch",
                    BuiltinTool::CodeInterpreter => "CodeInterpreter",
                };
                let message = joined("duplicate builtin ", words);
                return Some(ToolRuntimeError::invalid_configuration(message.as_str()));
            }
        },
        None => {},
    }
    if place_of_public(tools, name).is_some() {
        let message = joined("duplicate tool name ", name);
        return Some(ToolRuntimeError::invalid_configuration(message.as_str()));
    }
    None
}

fn register(tool: &ManagedToolConfig) -> (r: RegisteredTool)
    requires
        builtin_schema(tool@) is Some ==> schema::schema_compiles(builtin_schema(tool@)->0),
    ensures
        r@ == registered(tool@),
{
    let argument_schema = match schema_of(tool) {
        Some(source) => ArgumentSchema::compile(&source),
        None => None,
    };
    RegisteredTool {
        public_name: tool.name.clone(),
        internal_name: name_of(tool),
        backend: Some(tool.backend.clone()),
        request_backend: None,
        trusted_options: None,
        argument_schema,
    }
}

} // verus!
