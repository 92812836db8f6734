//! What becomes of the tools that a client declares.

use vstd::prelude::*;
use vstd::string::*;
use crate::config::{CODE_INTERPRETER_FUNCTION, WEB_SEARCH_FUNCTION};
use crate::decode::{
    caller_list, caller_of, callers_allowed, present, AllowedCaller, AllowedCallers,
};
use crate::fields::{
    lemma_callers_are_read, lemma_fields_are_of_their_kinds, lemma_mcp_fields, lemma_texts_are_read,
    lemma_web_search_fields, DeclarationKind,
};
use crate::json::{a_removed_field_is_gone, group_fields_read_back, JsonView};
use crate::laws::calls::a_request_holds_the_field_that_it_was_given;
use crate::mapper::{
    all_declared, code_interpreter_declared, code_interpreter_function, declared, flag_at,
    function_declared, mcp_declared, member, members_declared, optional_text_at,
    web_search_declared, web_search_function, DeclaredView, DeferredView, ServerView,
    MAX_DESCRIPTION_BYTES,
};
use crate::registry::{with_all, RegistryView, ToolView};
use crate::request::RequestView;
use crate::runtime::{
    client_declarations, deadline_from, obfuscation, parallelism, prepared, refreshed, sanitized,
    unstreamed, with_programmatic_tools, without_programs, PreparedView,
};
use crate::time::Instant;
use crate::{config, schema, text};

verus! {

/// Whether a declaration says what another says, but for when it is loaded.
pub open spec fn says_the_same(given: JsonView, declaration: JsonView) -> bool {
    forall|key: Seq<char>|
        key != "defer_loading"@ ==> #[trigger] given.get(key) == declaration.get(key)
}

/// Whether a function that a client declares was taken up: offered to the model as it was declared,
/// or kept for a search, and checked against its parameters where the gateway runs it.
pub open spec fn takes_function(
    found: DeclaredView,
    registry: Option<RegistryView>,
    declaration: JsonView,
    label: Option<Seq<char>>,
    inherited: bool,
) -> bool {
    let name = declaration.text_at("name"@)->0;
    let later = inherited || declaration.get("defer_loading"@) == Some(JsonView::Bool(true));
    &&& declaration.text_at("type"@) == Some("function"@)
    &&& declaration.text_at("name"@) is Some
    &&& found.function_names.contains(name)
    &&& !later ==> exists|p: int|
        0 <= p < found.rewritten.len() && says_the_same(
            #[trigger] found.rewritten[p],
            declaration,
        )
    &&& later ==> exists|p: int|
        0 <= p < found.deferred.len() && keeps_function(
            #[trigger] found.deferred[p],
            declaration,
            label,
        )
    &&& registry is Some && registry->0.resolves(name) ==> declaration.get("parameters"@) is Some
        && schema::schema_compiles(declaration.get("parameters"@)->0) && found.managed_function
        && found.schemas.contains((name, declaration.get("parameters"@)->0))
}

/// Whether what is kept for a search is the function that was declared.
pub open spec fn keeps_function(
    kept: DeferredView,
    declaration: JsonView,
    label: Option<Seq<char>>,
) -> bool {
    let words = match declaration.text_at("description"@) {
        Some(words) => words,
        None => Seq::empty(),
    };
    &&& declaration.get("name"@) == Some(JsonView::Text(kept.public_name))
    &&& kept.internal_name == kept.public_name
    &&& kept.label == label
    &&& says_the_same(kept.declaration, declaration)
    &&& kept.description.len() <= words.len()
    &&& kept.description == words.take(kept.description.len() as int)
    &&& text::byte_len(words) <= MAX_DESCRIPTION_BYTES ==> kept.description == words
}

/// Whether all that was found before is still there.
pub open spec fn grown(before: DeclaredView, after: DeclaredView) -> bool {
    &&& before.rewritten.len() <= after.rewritten.len() && after.rewritten.take(
        before.rewritten.len() as int,
    ) == before.rewritten
    &&& before.deferred.len() <= after.deferred.len() && after.deferred.take(
        before.deferred.len() as int,
    ) == before.deferred
    &&& before.schemas.len() <= after.schemas.len() && after.schemas.take(
        before.schemas.len() as int,
    ) == before.schemas
    &&& before.options.len() <= after.options.len() && after.options.take(
        before.options.len() as int,
    ) == before.options
    &&& before.servers.len() <= after.servers.len() && after.servers.take(
        before.servers.len() as int,
    ) == before.servers
    &&& before.function_names.len() <= after.function_names.len() && after.function_names.take(
        before.function_names.len() as int,
    ) == before.function_names
    &&& before.programmatic_tools.len() <= after.programmatic_tools.len()
        && after.programmatic_tools.take(before.programmatic_tools.len() as int)
        == before.programmatic_tools
    &&& before.managed_function ==> after.managed_function
    &&& before.programmatic ==> after.programmatic
    &&& before.tool_search ==> after.tool_search
    &&& before.builtin ==> after.builtin
}

proof fn lemma_grown_self(found: DeclaredView)
    ensures
        grown(found, found),
{
    assert(found.rewritten.take(found.rewritten.len() as int) =~= found.rewritten);
    assert(found.deferred.take(found.deferred.len() as int) =~= found.deferred);
    assert(found.schemas.take(found.schemas.len() as int) =~= found.schemas);
    assert(found.options.take(found.options.len() as int) =~= found.options);
    assert(found.servers.take(found.servers.len() as int) =~= found.servers);
    assert(found.function_names.take(found.function_names.len() as int) =~= found.function_names);
    assert(found.programmatic_tools.take(found.programmatic_tools.len() as int)
        =~= found.programmatic_tools);
}

proof fn lemma_grown_on(a: DeclaredView, b: DeclaredView, c: DeclaredView)
    requires
        grown(a, b),
        grown(b, c),
    ensures
        grown(a, c),
{
    assert(c.rewritten.take(a.rewritten.len() as int) =~= b.rewritten.take(
        a.rewritten.len() as int,
    )) by {
        lemma_prefix(a.rewritten, b.rewritten, c.rewritten);
    }
    lemma_prefix(a.deferred, b.deferred, c.deferred);
    lemma_prefix(a.schemas, b.schemas, c.schemas);
    lemma_prefix(a.options, b.options, c.options);
    lemma_prefix(a.servers, b.servers, c.servers);
    lemma_prefix(a.function_names, b.function_names, c.function_names);
    lemma_prefix(a.programmatic_tools, b.programmatic_tools, c.programmatic_tools);
}

proof fn lemma_prefix<T>(a: Seq<T>, b: Seq<T>, c: Seq<T>)
    requires
        a.len() <= b.len() <= c.len(),
        b.take(a.len() as int) == a,
        c.take(b.len() as int) == b,
    ensures
        c.take(a.len() as int) == a,
{
    assert forall|i: int| 0 <= i < a.len() implies c[i] == a[i] by {
        assert(c.take(b.len() as int)[i] == b[i]);
        assert(b.take(a.len() as int)[i] == a[i]);
    }
    assert(c.take(a.len() as int) =~= a);
}

proof fn lemma_function_taken(
    so_far: DeclaredView,
    registry: Option<RegistryView>,
    declaration: JsonView,
    label: Option<Seq<char>>,
    inherited: bool,
    max_deferred: nat,
)
    requires
        function_declared(
            so_far,
            registry,
            declaration,
            label,
            inherited,
            max_deferred,
        ) is Ok,
    ensures
        ({
            let after = function_declared(
                so_far,
                registry,
                declaration,
                label,
                inherited,
                max_deferred,
            )->Ok_0;
            &&& takes_function(after, registry, declaration, label, inherited)
            &&& grown(so_far, after)
        }),
{
    let after = function_declared(
        so_far,
        registry,
        declaration,
        label,
        inherited,
        max_deferred,
    )->Ok_0;
    let name = declaration.text_at("name"@)->0;
    let bare = declaration.without("defer_loading"@);
    lemma_grown_self(so_far);
    assert(after.function_names.take(so_far.function_names.len() as int)
        =~= so_far.function_names);
    assert(after.function_names[so_far.function_names.len() as int] == name);
    assert(after.schemas.take(so_far.schemas.len() as int) =~= so_far.schemas);
    assert(after.rewritten.take(so_far.rewritten.len() as int) =~= so_far.rewritten);
    assert(after.deferred.take(so_far.deferred.len() as int) =~= so_far.deferred);
    if registry is Some && registry->0.resolves(name) {
        assert(after.schemas[so_far.schemas.len() as int] == (
            name,
            declaration.get("parameters"@)->0,
        ));
    }
    assert(says_the_same(bare, declaration)) by {
        assert forall|key: Seq<char>| key != "defer_loading"@ implies #[trigger] bare.get(key)
            == declaration.get(key) by {
            a_removed_field_is_gone(declaration->Object_0, "defer_loading"@, key);
        }
    }
    let later = inherited || declaration.get("defer_loading"@) == Some(JsonView::Bool(true));
    if !later {
        assert(after.rewritten[so_far.rewritten.len() as int] == bare);
    } else {
        let kept = after.deferred[so_far.deferred.len() as int];
        lemma_description_key();
        assert(bare.get("description"@) == declaration.get("description"@));
        let words = match declaration.text_at("description"@) {
            Some(words) => words,
            None => Seq::empty(),
        };
        text::truncated_is_the_longest_fitting_prefix(words, MAX_DESCRIPTION_BYTES as nat);
        assert(words.take(words.len() as int) =~= words);
        assert(keeps_function(kept, declaration, label));
    }
}

/// Whether the tools of a namespace were taken up, each as a function of its own.
pub open spec fn takes_members(
    found: DeclaredView,
    registry: Option<RegistryView>,
    namespace: JsonView,
    n: nat,
) -> bool {
    forall|k: int|
        0 <= k < n ==> takes_function(
            found,
            registry,
            #[trigger] composed(namespace, k),
            namespace.text_at("name"@),
            namespace.get("defer_loading"@) == Some(JsonView::Bool(true)),
        )
}

/// A tool of a namespace, as it is taken up.
pub open spec fn composed(namespace: JsonView, k: int) -> JsonView {
    member(
        namespace.get("tools"@)->0->Array_0[k],
        namespace.text_at("name"@)->0,
        optional_text_at(namespace, "description"@),
    )
}

/// A tool of a namespace is taken up as it was declared, with the description of the namespace, where
/// it has one, in front of its own.
pub proof fn a_member_is_described_with_its_namespace(
    tool: JsonView,
    name: Seq<char>,
    description: Option<Seq<char>>,
    key: Seq<char>,
)
    requires
        tool is Object,
    ensures
        ({
            let given = member(tool, name, description);
            &&& key != "description"@ || description is None ==> given.get(key) == tool.get(key)
            &&& description is Some ==> given.get("description"@) == Some(
                JsonView::Text(
                    "["@ + name + "] "@ + description->0 + (match tool.text_at("description"@) {
                        Some(own) => "\n\n"@ + own,
                        None => Seq::empty(),
                    }),
                ),
            )
        }),
{
    broadcast use group_fields_read_back;

    if let Some(described) = description {
        let label = "["@ + name + "] "@ + described;
        if let Some(own) = tool.text_at("description"@) {
            assert(label + "\n\n"@ + own =~= label + ("\n\n"@ + own));
        } else {
            assert(label + Seq::<char>::empty() =~= label);
        }
    }
}

proof fn lemma_takes_function_grows(
    before: DeclaredView,
    after: DeclaredView,
    registry: Option<RegistryView>,
    declaration: JsonView,
    label: Option<Seq<char>>,
    inherited: bool,
)
    requires
        takes_function(before, registry, declaration, label, inherited),
        grown(before, after),
    ensures
        takes_function(after, registry, declaration, label, inherited),
{
    let name = declaration.text_at("name"@)->0;
    let later = inherited || declaration.get("defer_loading"@) == Some(JsonView::Bool(true));
    let k = choose|k: int| 0 <= k < before.function_names.len() && before.function_names[k] == name;
    assert(after.function_names.take(before.function_names.len() as int)[k] == name);
    assert(after.function_names[k] == name);
    if !later {
        let p = choose|p: int|
            0 <= p < before.rewritten.len() && says_the_same(
                #[trigger] before.rewritten[p],
                declaration,
            );
        assert(after.rewritten.take(before.rewritten.len() as int)[p] == before.rewritten[p]);
        assert(says_the_same(after.rewritten[p], declaration));
    } else {
        let p = choose|p: int|
            0 <= p < before.deferred.len() && keeps_function(
                #[trigger] before.deferred[p],
                declaration,
                label,
            );
        assert(after.deferred.take(before.deferred.len() as int)[p] == before.deferred[p]);
        assert(keeps_function(after.deferred[p], declaration, label));
    }
    if registry is Some && registry->0.resolves(name) {
        let wanted = (name, declaration.get("parameters"@)->0);
        let p = choose|p: int| 0 <= p < before.schemas.len() && before.schemas[p] == wanted;
        assert(after.schemas.take(before.schemas.len() as int)[p] == wanted);
        assert(after.schemas[p] == wanted);
    }
}

proof fn lemma_members_taken(
    so_far: DeclaredView,
    registry: Option<RegistryView>,
    namespace: JsonView,
    n: nat,
    max_deferred: nat,
)
    requires
        members_declared(so_far, registry, namespace, n, max_deferred) is Ok,
    ensures
        ({
            let after = members_declared(so_far, registry, namespace, n, max_deferred)->Ok_0;
            takes_members(after, registry, namespace, n) && grown(so_far, after)
        }),
    decreases n,
{
    if n > 0 {
        let m = (n - 1) as nat;
        lemma_members_taken(so_far, registry, namespace, m, max_deferred);
        let before = members_declared(so_far, registry, namespace, m, max_deferred)->Ok_0;
        let after = members_declared(so_far, registry, namespace, n, max_deferred)->Ok_0;
        let last = composed(namespace, n - 1);
        let label = namespace.text_at("name"@);
        let inherited = flag_at(namespace, "defer_loading"@);
        lemma_function_taken(before, registry, last, label, inherited, max_deferred);
        lemma_grown_on(so_far, before, after);
        assert forall|k: int| 0 <= k < n implies takes_function(
            after,
            registry,
            #[trigger] composed(namespace, k),
            label,
            inherited,
        ) by {
            if k < n - 1 {
                lemma_takes_function_grows(
                    before,
                    after,
                    registry,
                    composed(namespace, k),
                    label,
                    inherited,
                );
            }
        }
    } else {
        lemma_grown_self(so_far);
    }
}

/// Whether an item of a list names a caller.
pub open spec fn names_caller(item: JsonView, name: Seq<char>) -> bool {
    item == JsonView::Text(name) || (item is Object && item->Object_0.len() == 1
        && item->Object_0[0] == (name, JsonView::Null))
}

/// Whether a list names a caller.
pub open spec fn lists_caller(list: JsonView, name: Seq<char>) -> bool {
    list is Array && exists|i: int|
        0 <= i < list->Array_0.len() && names_caller(#[trigger] list->Array_0[i], name)
}

/// Whether callers are those that a declaration names; without a list the model alone may call.
pub open spec fn are_named(callers: AllowedCallers, list: Option<JsonView>) -> bool {
    match list {
        None => callers.direct && !callers.programmatic,
        Some(list) => {
            &&& callers.direct <==> lists_caller(list, "direct"@)
            &&& callers.programmatic <==> lists_caller(list, "programmatic"@)
            &&& callers.direct || callers.programmatic
        },
    }
}

/// Callers are those that a list names, where it names some, none twice and nothing else.
pub proof fn callers_are_those_that_are_named(list: Option<JsonView>)
    requires
        list is Some ==> caller_list(list->0) is Some,
    ensures
        ({
            let named = if list is Some {
                caller_list(list->0)
            } else {
                None
            };
            match callers_allowed(named, false) {
                Ok(callers) => are_named(callers, list),
                Err(_) => list is Some && (list->0->Array_0.len() == 0
                    || !named->0.no_duplicates()),
            }
        }),
{
    lemma_caller_names();
    if let Some(value) = list {
        let items = value->Array_0;
        let named = caller_list(value)->0;
        assert forall|i: int| 0 <= i < items.len() implies (named[i] == AllowedCaller::Direct
            <==> names_caller(#[trigger] items[i], "direct"@)) && (named[i]
            == AllowedCaller::Programmatic <==> names_caller(items[i], "programmatic"@)) by {
            assert(caller_of(items[i]) is Some);
            if items[i] is Object {
                assert(items[i]->Object_0[0] == (items[i]->Object_0[0].0, JsonView::Null));
            }
        }
        if callers_allowed(Some(named), false) is Ok {
            if named.contains(AllowedCaller::Direct) {
                let k = choose|k: int| 0 <= k < named.len() && named[k] == AllowedCaller::Direct;
                assert(names_caller(items[k], "direct"@));
            }
            if named.contains(AllowedCaller::Programmatic) {
                let k = choose|k: int|
                    0 <= k < named.len() && named[k] == AllowedCaller::Programmatic;
                assert(names_caller(items[k], "programmatic"@));
            }
            if lists_caller(value, "direct"@) {
                let k = choose|k: int|
                    0 <= k < items.len() && names_caller(#[trigger] items[k], "direct"@);
                assert(named[k] == AllowedCaller::Direct);
            }
            if lists_caller(value, "programmatic"@) {
                let k = choose|k: int|
                    0 <= k < items.len() && names_caller(#[trigger] items[k], "programmatic"@);
                assert(named[k] == AllowedCaller::Programmatic);
            }
            let first = named[0];
            assert(named.contains(first));
        }
    }
}

/// Whether a server that is to be asked is the one that was declared.
pub open spec fn is_declared_server(server: ServerView, declaration: JsonView) -> bool {
    let tools = present(declaration, "allowed_tools"@);
    &&& declaration.get("server_label"@) == Some(JsonView::Text(server.server_label))
    &&& declaration.get("server_url"@) == Some(JsonView::Text(server.server_url))
    &&& server.server_description == declaration.text_at("server_description"@)
    &&& server.authorization == declaration.text_at("authorization"@)
    &&& server.allowed_tools is Some <==> tools is Some
    &&& server.allowed_tools is Some ==> {
        let names = server.allowed_tools->0;
        &&& tools->0 is Array && tools->0->Array_0.len() == names.len()
        &&& forall|i: int|
            0 <= i < names.len() ==> tools->0->Array_0[i] == JsonView::Text(#[trigger] names[i])
    }
    &&& server.defer_loading <==> declaration.get("defer_loading"@) == Some(JsonView::Bool(true))
    &&& are_named(server.allowed_callers, present(declaration, "allowed_callers"@))
}

/// A remote server is asked where, as whom and for what its declaration says.
pub proof fn a_server_is_the_one_that_was_declared(declaration: JsonView)
    requires
        declaration is Object,
        mcp_declared(declaration) is Ok,
    ensures
        is_declared_server(mcp_declared(declaration)->Ok_0, declaration),
        declaration.get("require_approval"@) == Some(JsonView::Text("never"@)) || declaration.get(
            "require_approval"@,
        ) == Some(JsonView::Text("auto"@)),
        ({
            let url = crate::url::url_parsed(mcp_declared(declaration)->Ok_0.server_url);
            &&& url is Some
            &&& url->0.scheme == "https"@
            &&& url->0.host is Some
            &&& url->0.username.len() == 0
            &&& url->0.password is None
            &&& url->0.fragment is None
        }),
{
    let fields = declaration->Object_0;
    let kind = DeclarationKind::Mcp;
    lemma_fields_are_of_their_kinds(kind, fields, "server_label"@);
    lemma_fields_are_of_their_kinds(kind, fields, "server_url"@);
    lemma_fields_are_of_their_kinds(kind, fields, "server_description"@);
    lemma_fields_are_of_their_kinds(kind, fields, "authorization"@);
    lemma_fields_are_of_their_kinds(kind, fields, "allowed_tools"@);
    lemma_fields_are_of_their_kinds(kind, fields, "allowed_callers"@);
    lemma_fields_are_of_their_kinds(kind, fields, "defer_loading"@);
    lemma_mcp_fields();
    let callers = present(declaration, "allowed_callers"@);
    if let Some(list) = callers {
        lemma_callers_are_read(list);
    }
    callers_are_those_that_are_named(callers);
    if let Some(tools) = present(declaration, "allowed_tools"@) {
        lemma_texts_are_read(tools->Array_0);
        let names = mcp_declared(declaration)->Ok_0.allowed_tools->0;
        assert forall|i: int| 0 <= i < names.len() implies tools->Array_0[i] == JsonView::Text(
            #[trigger] names[i],
        ) by {
            assert(tools->Array_0[i] is Text);
        }
    }
}

/// Whether the options of a search are those that a declaration asks for.
pub open spec fn are_search_options(options: JsonView, declaration: JsonView) -> bool {
    let filters = present(declaration, "filters"@);
    let size = present(declaration, "search_context_size"@);
    let location = present(declaration, "user_location"@);
    &&& filters is None ==> options.get("allowed_domains"@) is None
    &&& filters is Some && filters->0 is Object ==> options.get("allowed_domains"@) == present(
        filters->0,
        "allowed_domains"@,
    )
    &&& size is None ==> options.get("search_context_size"@) is None
    &&& size is Some && size->0 is Text ==> options.get("search_context_size"@) == size
    &&& location is None ==> options.get("user_location"@) is None
    &&& location is Some && location->0 is Object ==> options.get("user_location"@) is Some
        && is_location(options.get("user_location"@)->0, location->0)
    &&& options.get("query"@) is None
}

/// Whether a location is the one that was declared.
pub open spec fn is_location(given: JsonView, declared: JsonView) -> bool {
    &&& given.get("type"@) == Some(JsonView::Text("approximate"@))
    &&& given.get("country"@) == present(declared, "country"@)
    &&& given.get("region"@) == present(declared, "region"@)
    &&& given.get("city"@) == present(declared, "city"@)
    &&& given.get("timezone"@) == present(declared, "timezone"@)
}

/// A location is handed on part by part.
pub proof fn a_location_is_handed_on_part_by_part(declared: JsonView)
    requires
        crate::mapper::location_texts(declared),
    ensures
        is_location(crate::mapper::approximate_location(declared), declared),
{
    broadcast use group_fields_read_back;

    lemma_location_keys();
}

/// A search is handed the domains, the size and the location that were declared, and nothing else,
/// and may be called by those that were declared.
pub proof fn a_search_has_the_options_that_were_declared(declaration: JsonView)
    requires
        declaration is Object,
        web_search_declared(declaration) is Ok,
    ensures
        ({
            let (options, callers) = web_search_declared(declaration)->Ok_0;
            &&& are_search_options(options, declaration)
            &&& are_named(callers, present(declaration, "allowed_callers"@))
        }),
{
    broadcast use group_fields_read_back;

    lemma_search_keys();
    let fields = declaration->Object_0;
    let kind = DeclarationKind::WebSearch;
    lemma_fields_are_of_their_kinds(kind, fields, "filters"@);
    lemma_fields_are_of_their_kinds(kind, fields, "search_context_size"@);
    lemma_fields_are_of_their_kinds(kind, fields, "user_location"@);
    lemma_fields_are_of_their_kinds(kind, fields, "allowed_callers"@);
    lemma_web_search_fields();
    let callers = present(declaration, "allowed_callers"@);
    if let Some(list) = callers {
        lemma_callers_are_read(list);
    }
    callers_are_those_that_are_named(callers);
    if let Some(location) = present(declaration, "user_location"@) {
        if location is Object {
            a_location_is_handed_on_part_by_part(location);
        }
    }
}

/// The code interpreter may be called by those that were declared.
pub proof fn a_code_interpreter_is_called_by_those_declared(declaration: JsonView)
    requires
        code_interpreter_declared(declaration) is Ok,
    ensures
        are_named(code_interpreter_declared(declaration)->Ok_0, declaration.get("allowed_callers"@)),
{
    if let Some(list) = declaration.get("allowed_callers"@) {
        lemma_callers_are_read(list);
    }
    callers_are_those_that_are_named(declaration.get("allowed_callers"@));
}

/// Whether a declaration was taken up for what it is.
pub open spec fn takes_up(
    found: DeclaredView,
    registry: Option<RegistryView>,
    declaration: JsonView,
) -> bool {
    let kind = declaration.text_at("type"@);
    &&& kind is Some
    &&& if kind == Some("programmatic_tool_calling"@) {
        found.programmatic
    } else if kind == Some("tool_search"@) {
        found.tool_search
    } else if kind == Some("function"@) {
        takes_function(found, registry, declaration, None, false)
    } else if kind == Some("namespace"@) {
        takes_members(
            found,
            registry,
            declaration,
            declaration.get("tools"@)->0->Array_0.len(),
        )
    } else if kind == Some("web_search"@) {
        takes_search(found, declaration)
    } else if kind == Some("code_interpreter"@) {
        takes_interpreter(found, declaration)
    } else if kind == Some("mcp"@) {
        exists|p: int|
            0 <= p < found.servers.len() && is_declared_server(
                #[trigger] found.servers[p],
                declaration,
            )
    } else {
        found.rewritten.contains(declaration)
    }
}

/// Whether a search was taken up: with its options, offered to the model where the model may call
/// it, and to programs where they may.
pub open spec fn takes_search(found: DeclaredView, declaration: JsonView) -> bool {
    exists|p: int, callers: AllowedCallers|
        #![trigger found.options[p], are_named(callers, present(declaration, "allowed_callers"@))]
        {
            &&& 0 <= p < found.options.len()
            &&& found.options[p].0 == WEB_SEARCH_FUNCTION@
            &&& are_search_options(found.options[p].1, declaration)
            &&& are_named(callers, present(declaration, "allowed_callers"@))
            &&& callers.direct ==> found.rewritten.contains(web_search_function())
            &&& callers.programmatic ==> found.programmatic_tools.contains(
                crate::mapper::web_search_spec(),
            )
        }
}

/// Whether the code interpreter was taken up: offered to the model where the model may call it, and
/// to programs where they may.
pub open spec fn takes_interpreter(found: DeclaredView, declaration: JsonView) -> bool {
    exists|callers: AllowedCallers|
        {
            &&& #[trigger] are_named(callers, declaration.get("allowed_callers"@))
            &&& callers.direct ==> found.rewritten.contains(code_interpreter_function())
            &&& callers.programmatic ==> found.programmatic_tools.contains(
                crate::mapper::code_interpreter_spec(),
            )
        }
}

/// The built-in tools are offered under their reserved names, with the one text that they need.
pub proof fn built_in_tools_are_offered_with_what_they_need()
    ensures
        web_search_function().get("name"@) == Some(JsonView::Text(WEB_SEARCH_FUNCTION@)),
        web_search_function().get("parameters"@) == Some(schema::one_string("query"@)),
        code_interpreter_function().get("name"@) == Some(JsonView::Text(CODE_INTERPRETER_FUNCTION@)),
        code_interpreter_function().get("parameters"@) == Some(schema::one_string("code"@)),
        crate::mapper::web_search_spec().public_name == "web_search"@,
        crate::mapper::web_search_spec().internal_name == WEB_SEARCH_FUNCTION@,
        crate::mapper::web_search_spec().input_schema == schema::one_string("query"@),
        crate::mapper::web_search_spec().output_schema is None,
        crate::mapper::code_interpreter_spec().public_name == "code_interpreter"@,
        crate::mapper::code_interpreter_spec().internal_name == CODE_INTERPRETER_FUNCTION@,
        crate::mapper::code_interpreter_spec().input_schema == schema::one_string("code"@),
        crate::mapper::code_interpreter_spec().output_schema is None,
{
    broadcast use group_fields_read_back;

    lemma_builtin_keys();
}

proof fn lemma_builtin_grows(
    so_far: DeclaredView,
    kind: Seq<char>,
    callers: AllowedCallers,
    tool: crate::conversation::SpecView,
    function: JsonView,
    options: Seq<(Seq<char>, JsonView)>,
)
    ensures
        ({
            let after = crate::mapper::builtin_added(
                so_far,
                kind,
                callers,
                tool,
                function,
                options,
            );
            &&& grown(so_far, after)
            &&& callers.direct ==> after.rewritten.contains(function)
            &&& callers.programmatic ==> after.programmatic_tools.contains(tool)
            &&& options.len() == 1 ==> after.options.len() == so_far.options.len() + 1
                && after.options[so_far.options.len() as int] == options[0]
        }),
{
    let after = crate::mapper::builtin_added(so_far, kind, callers, tool, function, options);
    lemma_grown_self(so_far);
    assert(after.options.take(so_far.options.len() as int) =~= so_far.options);
    assert(after.rewritten.take(so_far.rewritten.len() as int) =~= so_far.rewritten);
    assert(after.programmatic_tools.take(so_far.programmatic_tools.len() as int)
        =~= so_far.programmatic_tools);
    if callers.direct {
        assert(after.rewritten[so_far.rewritten.len() as int] == function);
    }
    if callers.programmatic {
        assert(after.programmatic_tools[so_far.programmatic_tools.len() as int] == tool);
    }
}

proof fn lemma_declared_taken(
    so_far: DeclaredView,
    registry: Option<RegistryView>,
    declaration: JsonView,
    max_deferred: nat,
)
    requires
        declaration is Object,
        declared(so_far, registry, declaration, max_deferred) is Ok,
    ensures
        takes_up(
            declared(so_far, registry, declaration, max_deferred)->Ok_0,
            registry,
            declaration,
        ),
        grown(so_far, declared(so_far, registry, declaration, max_deferred)->Ok_0),
{
    let after = declared(so_far, registry, declaration, max_deferred)->Ok_0;
    let kind = declaration.text_at("type"@);
    lemma_kinds();
    lemma_grown_self(so_far);
    if kind == Some("function"@) {
        lemma_function_taken(so_far, registry, declaration, None, false, max_deferred);
    } else if kind == Some("namespace"@) {
        lemma_members_taken(
            so_far,
            registry,
            declaration,
            declaration.get("tools"@)->0->Array_0.len(),
            max_deferred,
        );
    } else if kind == Some("web_search"@) {
        a_search_has_the_options_that_were_declared(declaration);
        let (options, callers) = web_search_declared(declaration)->Ok_0;
        let added = seq![(WEB_SEARCH_FUNCTION@, options)];
        lemma_builtin_grows(
            so_far,
            kind->0,
            callers,
            crate::mapper::web_search_spec(),
            web_search_function(),
            added,
        );
        let p = so_far.options.len() as int;
        assert(after.options[p] == added[0]);
        assert(are_named(callers, present(declaration, "allowed_callers"@)));
        assert(takes_search(after, declaration));
    } else if kind == Some("code_interpreter"@) {
        a_code_interpreter_is_called_by_those_declared(declaration);
        lemma_builtin_grows(
            so_far,
            kind->0,
            code_interpreter_declared(declaration)->Ok_0,
            crate::mapper::code_interpreter_spec(),
            code_interpreter_function(),
            Seq::empty(),
        );
    } else if kind == Some("mcp"@) {
        a_server_is_the_one_that_was_declared(declaration);
        assert(after.servers.take(so_far.servers.len() as int) =~= so_far.servers);
        assert(after.servers[so_far.servers.len() as int] == mcp_declared(declaration)->Ok_0);
    } else if kind != Some("programmatic_tool_calling"@) && kind != Some("tool_search"@) {
        assert(after.rewritten.take(so_far.rewritten.len() as int) =~= so_far.rewritten);
        assert(after.rewritten[so_far.rewritten.len() as int] == declaration);
    }
}

proof fn lemma_kept<T>(before: Seq<T>, after: Seq<T>, x: T)
    requires
        before.len() <= after.len(),
        after.take(before.len() as int) == before,
        before.contains(x),
    ensures
        after.contains(x),
{
    let k = choose|k: int| 0 <= k < before.len() && before[k] == x;
    assert(after.take(before.len() as int)[k] == x);
    assert(after[k] == x);
}

proof fn lemma_takes_up_grows(
    before: DeclaredView,
    after: DeclaredView,
    registry: Option<RegistryView>,
    declaration: JsonView,
)
    requires
        takes_up(before, registry, declaration),
        grown(before, after),
    ensures
        takes_up(after, registry, declaration),
{
    let kind = declaration.text_at("type"@);
    lemma_kinds();
    if kind == Some("function"@) {
        lemma_takes_function_grows(before, after, registry, declaration, None, false);
    } else if kind == Some("namespace"@) {
        let n = declaration.get("tools"@)->0->Array_0.len();
        let label = declaration.text_at("name"@);
        let inherited = declaration.get("defer_loading"@) == Some(JsonView::Bool(true));
        assert forall|k: int| 0 <= k < n implies takes_function(
            after,
            registry,
            #[trigger] composed(declaration, k),
            label,
            inherited,
        ) by {
            lemma_takes_function_grows(
                before,
                after,
                registry,
                composed(declaration, k),
                label,
                inherited,
            );
        }
    } else if kind == Some("web_search"@) {
        let (p, callers) = choose|p: int, callers: AllowedCallers|
            #![trigger before.options[p], are_named(callers, present(declaration, "allowed_callers"@))]
            {
                &&& 0 <= p < before.options.len()
                &&& before.options[p].0 == WEB_SEARCH_FUNCTION@
                &&& are_search_options(before.options[p].1, declaration)
                &&& are_named(callers, present(declaration, "allowed_callers"@))
                &&& callers.direct ==> before.rewritten.contains(web_search_function())
                &&& callers.programmatic ==> before.programmatic_tools.contains(
                    crate::mapper::web_search_spec(),
                )
            };
        assert(after.options.take(before.options.len() as int)[p] == before.options[p]);
        assert(after.options[p] == before.options[p]);
        if callers.direct {
            lemma_kept(before.rewritten, after.rewritten, web_search_function());
        }
        if callers.programmatic {
            lemma_kept(
                before.programmatic_tools,
                after.programmatic_tools,
                crate::mapper::web_search_spec(),
            );
        }
        assert(takes_search(after, declaration));
    } else if kind == Some("code_interpreter"@) {
        let callers = choose|callers: AllowedCallers|
            {
                &&& #[trigger] are_named(callers, declaration.get("allowed_callers"@))
                &&& callers.direct ==> before.rewritten.contains(code_interpreter_function())
                &&& callers.programmatic ==> before.programmatic_tools.contains(
                    crate::mapper::code_interpreter_spec(),
                )
            };
        if callers.direct {
            lemma_kept(before.rewritten, after.rewritten, code_interpreter_function());
        }
        if callers.programmatic {
            lemma_kept(
                before.programmatic_tools,
                after.programmatic_tools,
                crate::mapper::code_interpreter_spec(),
            );
        }
        assert(takes_interpreter(after, declaration));
    } else if kind == Some("mcp"@) {
        let p = choose|p: int|
            0 <= p < before.servers.len() && is_declared_server(
                #[trigger] before.servers[p],
                declaration,
            );
        assert(after.servers.take(before.servers.len() as int)[p] == before.servers[p]);
        assert(is_declared_server(after.servers[p], declaration));
    } else if kind != Some("programmatic_tool_calling"@) && kind != Some("tool_search"@) {
        lemma_kept(before.rewritten, after.rewritten, declaration);
    }
}

/// Every tool that a client declares is taken up for what it is: a function is offered as it was
/// declared, or kept for a search, and its calls are checked against its parameters; a built-in tool
/// is offered with what it needs and runs with the options that were declared; a server is asked as
/// it was declared; and anything else goes on as it is.
pub proof fn every_declaration_is_taken_up(
    registry: Option<RegistryView>,
    declarations: Seq<JsonView>,
    max_deferred: nat,
    i: int,
)
    requires
        all_declared(registry, declarations, max_deferred) is Ok,
        forall|k: int| 0 <= k < declarations.len() ==> (#[trigger] declarations[k]) is Object,
        0 <= i < declarations.len(),
    ensures
        takes_up(
            all_declared(registry, declarations, max_deferred)->Ok_0,
            registry,
            declarations[i],
        ),
    decreases declarations.len(),
{
    let rest = declarations.drop_last();
    let n = declarations.len() - 1;
    let before = all_declared(registry, rest, max_deferred)->Ok_0;
    let after = all_declared(registry, declarations, max_deferred)->Ok_0;
    assert(declarations[n] is Object);
    lemma_declared_taken(before, registry, declarations.last(), max_deferred);
    if i < n {
        assert forall|k: int| 0 <= k < rest.len() implies (#[trigger] rest[k]) is Object by {
            assert(rest[k] == declarations[k]);
        }
        every_declaration_is_taken_up(registry, rest, max_deferred, i);
        assert(rest[i] == declarations[i]);
        lemma_takes_up_grows(before, after, registry, declarations[i]);
    }
}

/// A registry that is given options and schemas holds the last that was given for each tool, and is
/// otherwise as it was.
pub proof fn a_registry_holds_what_a_request_gave(
    tools: Seq<ToolView>,
    options: Seq<(Seq<char>, JsonView)>,
    schemas: Seq<(Seq<char>, JsonView)>,
    i: int,
)
    requires
        0 <= i < tools.len(),
    ensures
        ({
            let after = with_all(tools, options, schemas);
            &&& after.len() == tools.len()
            &&& after[i].public_name == tools[i].public_name
            &&& after[i].internal_name == tools[i].internal_name
            &&& after[i].backend == tools[i].backend
            &&& after[i].request_backend == tools[i].request_backend
            &&& after[i].argument_schema == last_given(
                schemas,
                tools[i].internal_name,
                tools[i].argument_schema,
            )
            &&& after[i].trusted_options == last_given(
                options,
                tools[i].internal_name,
                tools[i].trusted_options,
            )
        }),
    decreases options.len() + schemas.len(),
{
    if schemas.len() > 0 {
        a_registry_holds_what_a_request_gave(tools, options, schemas.drop_last(), i);
    } else if options.len() > 0 {
        a_registry_holds_what_a_request_gave(tools, options.drop_last(), schemas, i);
    }
}

/// The last value that was given under a name, or else the one before.
pub open spec fn last_given(
    given: Seq<(Seq<char>, JsonView)>,
    name: Seq<char>,
    before: Option<JsonView>,
) -> Option<JsonView>
    decreases given.len(),
{
    if given.len() == 0 {
        before
    } else if given.last().0 == name {
        Some(given.last().1)
    } else {
        last_given(given.drop_last(), name, before)
    }
}

/// What is kept of the tools for the client is what it declared, but for secrets.
pub proof fn a_client_gets_back_what_it_declared(tools: Seq<JsonView>, i: int, key: Seq<char>)
    requires
        0 <= i < tools.len(),
    ensures
        ({
            let given = sanitized(Some(JsonView::Array(tools)));
            &&& given is Some && given->0 is Array && given->0->Array_0.len() == tools.len()
            &&& key != "authorization"@ ==> given->0->Array_0[i].get(key) == tools[i].get(key)
            &&& tools[i].text_at("type"@) != Some("mcp"@) ==> given->0->Array_0[i] == tools[i]
        }),
{
    if tools[i] is Object {
        a_removed_field_is_gone(tools[i]->Object_0, "authorization"@, key);
    }
}

/// Whether nothing of a request changed but its tools and how it is streamed.
pub open spec fn asks_the_same(given: RequestView, request: RequestView) -> bool {
    &&& given.history == request.history
    &&& forall|key: Seq<char>|
        key != "tools"@ && key != "stream_options"@ ==> #[trigger] given.rest.get(key)
            == request.rest.get(key)
}

/// A prepared request asks the model what the client asked; it ends when the time of the operator is
/// over; its calls run at once unless the client forbids it; its pieces are padded where the client
/// streams and does not forbid it; and the client is to get back what it declared.
pub proof fn a_prepared_request_does_what_the_client_asked(
    request: RequestView,
    registry: Option<RegistryView>,
    now: Instant,
    max_deferred: nat,
)
    ensures
        match prepared(request, registry, now, max_deferred) {
            Ok(Some(runtime)) => {
                &&& registry is Some
                &&& asks_the_same(runtime.request, request)
                &&& runtime.state.deadline.nanos == crate::time::saturated(
                    now.nanos + registry->0.limits.total_timeout.nanos,
                )
                &&& runtime.state.registry.limits == registry->0.limits
                &&& runtime.state.parallel <==> request.rest.get("parallel_tool_calls"@) != Some(
                    JsonView::Bool(false),
                )
                &&& runtime.include_obfuscation ==> request.stream == Some(true)
                &&& runtime.client_tools == sanitized(request.rest.get("tools"@))
                &&& runtime.usage is None
            },
            _ => true,
        },
{
    broadcast use group_fields_read_back;

    lemma_request_keys();
    if let Ok(Some(runtime)) = prepared(request, registry, now, max_deferred) {
        let declarations = client_declarations(request)->Ok_0;
        let found = all_declared(registry, declarations, max_deferred)->Ok_0;
        crate::mapper::declared_functions_are_distinct_and_unreserved(
            registry,
            declarations,
            max_deferred,
        );
        let quiet = unstreamed(request);
        let tools = JsonView::Array(found.rewritten);
        assert forall|key: Seq<char>| key != "tools"@ && key != "stream_options"@ implies #[trigger]
        runtime.request.rest.get(key) == request.rest.get(key) by {
            if request.rest is Object {
                a_removed_field_is_gone(request.rest->Object_0, "stream_options"@, key);
            }
            a_request_holds_the_field_that_it_was_given(quiet, "tools"@, tools, key);
            lemma_refreshed_rest(request, registry, now, found, key);
        }
        lemma_refreshed_rest(request, registry, now, found, "tools"@);
        if request.rest is Object {
            a_removed_field_is_gone(
                request.rest->Object_0,
                "stream_options"@,
                "parallel_tool_calls"@,
            );
        }
    }
}

/// What preparing keeps of a request.
proof fn lemma_refreshed_rest(
    request: RequestView,
    registry: Option<RegistryView>,
    now: Instant,
    found: DeclaredView,
    key: Seq<char>,
)
    requires
        registry is Some,
        crate::runtime::activated(found, request, registry->0, now) is Ok,
    ensures
        ({
            let after = crate::runtime::activated(found, request, registry->0, now)->Ok_0;
            let quiet = unstreamed(request);
            &&& key != "tools"@ ==> after.request.rest.get(key) == quiet.with_field(
                "tools"@,
                JsonView::Array(found.rewritten),
            ).rest.get(key)
            &&& after.request.history == request.history
            &&& after.state.deadline == deadline_from(now, registry->0.limits)
            &&& after.state.registry.limits == registry->0.limits
            &&& after.state.registry.tools == with_all(
                registry->0.tools,
                found.options,
                found.schemas,
            )
            &&& after.state.parallel == parallelism(quiet)->Ok_0
            &&& after.include_obfuscation == obfuscation(request)->Ok_0
            &&& after.client_tools == sanitized(request.rest.get("tools"@))
            &&& after.usage is None
            &&& after.pending == found.servers
            &&& after.tool_search == (if found.tool_search {
                Some(found.deferred)
            } else {
                None
            })
            &&& key == "tools"@ ==> forall|i: int|
                0 <= i < found.rewritten.len() && (#[trigger] found.rewritten[i]).text_at("name"@)
                    != Some(config::PROGRAMMATIC_FUNCTION@) ==> after.request.tools().contains(
                    found.rewritten[i],
                )
        }),
{
    broadcast use group_fields_read_back;

    let quiet = unstreamed(request);
    let known = RegistryView {
        tools: with_all(registry->0.tools, found.options, found.schemas),
        ..registry->0
    };
    let bare = crate::runtime::bare_state(
        known,
        parallelism(quiet)->Ok_0,
        deadline_from(now, registry->0.limits),
        found.programmatic,
        2,
    );
    let state = with_programmatic_tools(bare, found.programmatic_tools)->Ok_0;
    crate::runtime::lemma_programmatic_tools_keep(bare, found.programmatic_tools);
    let offered = quiet.with_field("tools"@, JsonView::Array(found.rewritten));
    let before = PreparedView {
        state,
        request: offered,
        client_streaming: request.stream == Some(true),
        include_obfuscation: obfuscation(request)->Ok_0,
        client_tools: sanitized(request.rest.get("tools"@)),
        usage: None,
        pending: found.servers,
        tool_search: if found.tool_search {
            Some(found.deferred)
        } else {
            None
        },
    };
    let after = refreshed(before)->Ok_0;
    crate::laws::imports::programs_are_offered_over_their_tools(before);
    a_request_holds_the_field_that_it_was_given(
        quiet,
        "tools"@,
        JsonView::Array(found.rewritten),
        "tools"@,
    );
    assert(offered.tools() == found.rewritten);
    let others = without_programs(found.rewritten);
    a_request_holds_the_field_that_it_was_given(offered, "tools"@, JsonView::Array(others), key);
    a_request_holds_the_field_that_it_was_given(
        offered,
        "tools"@,
        JsonView::Array(others.push(crate::runtime::program_function(state.programmatic_tools))),
        key,
    );
    assert forall|i: int|
        0 <= i < found.rewritten.len() && (#[trigger] found.rewritten[i]).text_at("name"@) != Some(
            config::PROGRAMMATIC_FUNCTION@,
        ) implies after.request.tools().contains(found.rewritten[i]) by {
        crate::laws::imports::other_declarations_are_kept(found.rewritten, i);
        let p = without_programs(found.rewritten.take(i)).len() as int;
        assert(others[p] == found.rewritten[i]);
        if after.request.tools() =~= others {
            assert(after.request.tools()[p] == others[p]);
        } else {
            assert(after.request.tools().drop_last()[p] == others[p]);
            assert(after.request.tools()[p] == others[p]);
        }
    }
}

/// A function that a client declares and that the gateway runs is offered to the model as it was
/// declared, unless it is kept for a search, and its calls are checked against the parameters that
/// were declared for it.
pub proof fn a_declared_function_is_offered_and_checked_as_declared(
    request: RequestView,
    registry: RegistryView,
    now: Instant,
    max_deferred: nat,
    i: int,
    t: int,
)
    requires
        prepared(request, Some(registry), now, max_deferred) is Ok,
        prepared(request, Some(registry), now, max_deferred)->Ok_0 is Some,
        0 <= i < request.tools().len(),
        request.tools()[i].text_at("type"@) == Some("function"@),
        0 <= t < registry.tools.len(),
        request.tools()[i].text_at("name"@) == Some(registry.tools[t].internal_name),
        registry.resolves(registry.tools[t].internal_name),
    ensures
        ({
            let runtime = prepared(request, Some(registry), now, max_deferred)->Ok_0->0;
            let declaration = request.tools()[i];
            let tool = runtime.state.registry.tools[t];
            &&& runtime.state.registry.tools.len() == registry.tools.len()
            &&& tool.internal_name == registry.tools[t].internal_name
            &&& tool.public_name == registry.tools[t].public_name
            &&& tool.backend == registry.tools[t].backend
            &&& tool.argument_schema is Some
            &&& tool.argument_schema == declaration.get("parameters"@)
            &&& declaration.get("defer_loading"@) != Some(JsonView::Bool(true)) ==> exists|p: int|
                0 <= p < runtime.request.tools().len() && says_the_same(
                    #[trigger] runtime.request.tools()[p],
                    declaration,
                )
        }),
{
    lemma_kinds();
    lemma_tools_key();
    let declarations = client_declarations(request)->Ok_0;
    assert(request.tools() == declarations);
    let found = all_declared(Some(registry), declarations, max_deferred)->Ok_0;
    let runtime = prepared(request, Some(registry), now, max_deferred)->Ok_0->0;
    let declaration = declarations[i];
    let name = registry.tools[t].internal_name;
    every_declaration_is_taken_up(Some(registry), declarations, max_deferred, i);
    lemma_refreshed_rest(request, Some(registry), now, found, "tools"@);
    a_registry_holds_what_a_request_gave(registry.tools, found.options, found.schemas, t);
    lemma_schemas_follow_names(Some(registry), declarations, max_deferred);
    lemma_only_given(
        found.schemas,
        name,
        registry.tools[t].argument_schema,
        declaration.get("parameters"@)->0,
    );
    if declaration.get("defer_loading"@) != Some(JsonView::Bool(true)) {
        let p = choose|p: int|
            0 <= p < found.rewritten.len() && says_the_same(
                #[trigger] found.rewritten[p],
                declaration,
            );
        assert(found.rewritten[p].get("name"@) == declaration.get("name"@));
        crate::mapper::declared_functions_are_distinct_and_unreserved(
            Some(registry),
            declarations,
            max_deferred,
        );
        lemma_unreserved_name(found, name);
        assert(runtime.request.tools().contains(found.rewritten[p]));
        let q = choose|q: int|
            0 <= q < runtime.request.tools().len() && runtime.request.tools()[q]
                == found.rewritten[p];
        assert(says_the_same(runtime.request.tools()[q], declaration));
    }
}

proof fn lemma_unreserved_name(found: DeclaredView, name: Seq<char>)
    requires
        crate::mapper::unreserved(found),
        found.function_names.contains(name),
    ensures
        name != config::PROGRAMMATIC_FUNCTION@,
{
    let k = choose|k: int| 0 <= k < found.function_names.len() && found.function_names[k] == name;
    assert(!text::has_prefix(found.function_names[k], config::RESERVED_PREFIX@));
    reveal_strlit("_agentgateway_");
    reveal_strlit("_agentgateway_programmatic_tool_calling");
    if name == config::PROGRAMMATIC_FUNCTION@ {
        assert(name.take(14) =~= config::RESERVED_PREFIX@);
    }
}

/// Whether schemas are given once for each name, and only for names of functions.
pub open spec fn schemas_follow_names(found: DeclaredView) -> bool {
    &&& forall|i: int|
        0 <= i < found.schemas.len() ==> found.function_names.contains(
            (#[trigger] found.schemas[i]).0,
        )
    &&& forall|i: int, j: int|
        0 <= i < j < found.schemas.len() ==> (#[trigger] found.schemas[i]).0 != (
        #[trigger] found.schemas[j]).0
}

proof fn lemma_function_schemas(
    so_far: DeclaredView,
    registry: Option<RegistryView>,
    declaration: JsonView,
    label: Option<Seq<char>>,
    inherited: bool,
    max_deferred: nat,
)
    requires
        schemas_follow_names(so_far),
    ensures
        match function_declared(so_far, registry, declaration, label, inherited, max_deferred) {
            Ok(found) => schemas_follow_names(found),
            Err(_) => true,
        },
{
    if let Ok(found) = function_declared(
        so_far,
        registry,
        declaration,
        label,
        inherited,
        max_deferred,
    ) {
        let name = declaration.text_at("name"@)->0;
        let n = so_far.function_names.len() as int;
        assert(found.function_names[n] == name);
        assert forall|i: int| 0 <= i < found.schemas.len() implies found.function_names.contains(
            (#[trigger] found.schemas[i]).0,
        ) by {
            if i < so_far.schemas.len() {
                assert(found.schemas[i] == so_far.schemas[i]);
                let k = choose|k: int|
                    0 <= k < n && so_far.function_names[k] == so_far.schemas[i].0;
                assert(found.function_names[k] == so_far.schemas[i].0);
            }
        }
        assert forall|i: int, j: int| 0 <= i < j < found.schemas.len() implies (
        #[trigger] found.schemas[i]).0 != (#[trigger] found.schemas[j]).0 by {
            assert(found.schemas[i] == so_far.schemas[i]);
            if j < so_far.schemas.len() {
                assert(found.schemas[j] == so_far.schemas[j]);
            } else {
                assert(so_far.function_names.contains(so_far.schemas[i].0));
            }
        }
    }
}

proof fn lemma_members_schemas(
    so_far: DeclaredView,
    registry: Option<RegistryView>,
    namespace: JsonView,
    n: nat,
    max_deferred: nat,
)
    requires
        schemas_follow_names(so_far),
    ensures
        match members_declared(so_far, registry, namespace, n, max_deferred) {
            Ok(found) => schemas_follow_names(found),
            Err(_) => true,
        },
    decreases n,
{
    if n > 0 {
        let m = (n - 1) as nat;
        lemma_members_schemas(so_far, registry, namespace, m, max_deferred);
        if let Ok(before) = members_declared(so_far, registry, namespace, m, max_deferred) {
            lemma_function_schemas(
                before,
                registry,
                composed(namespace, n - 1),
                namespace.text_at("name"@),
                flag_at(namespace, "defer_loading"@),
                max_deferred,
            );
        }
    }
}

proof fn lemma_schemas_follow_names(
    registry: Option<RegistryView>,
    declarations: Seq<JsonView>,
    max_deferred: nat,
)
    ensures
        match all_declared(registry, declarations, max_deferred) {
            Ok(found) => schemas_follow_names(found),
            Err(_) => true,
        },
    decreases declarations.len(),
{
    if declarations.len() > 0 {
        let rest = declarations.drop_last();
        let declaration = declarations.last();
        lemma_schemas_follow_names(registry, rest, max_deferred);
        if let Ok(before) = all_declared(registry, rest, max_deferred) {
            lemma_function_schemas(before, registry, declaration, None, false, max_deferred);
            lemma_members_schemas(
                before,
                registry,
                declaration,
                declaration.get("tools"@)->0->Array_0.len(),
                max_deferred,
            );
        }
    }
}

proof fn lemma_only_given(
    given: Seq<(Seq<char>, JsonView)>,
    name: Seq<char>,
    before: Option<JsonView>,
    value: JsonView,
)
    requires
        given.contains((name, value)),
        forall|i: int, j: int|
            0 <= i < j < given.len() ==> (#[trigger] given[i]).0 != (#[trigger] given[j]).0,
    ensures
        last_given(given, name, before) == Some(value),
    decreases given.len(),
{
    let k = choose|k: int| 0 <= k < given.len() && given[k] == (name, value);
    let n = given.len() - 1;
    if k < n {
        assert(given[k].0 != given[n].0);
        let rest = given.drop_last();
        assert(rest[k] == given[k]);
        assert forall|i: int, j: int| 0 <= i < j < rest.len() implies (#[trigger] rest[i]).0 != (
        #[trigger] rest[j]).0 by {
            assert(given[i].0 != given[j].0);
        }
        lemma_only_given(rest, name, before, value);
    }
}

proof fn lemma_description_key()
    ensures
        "description"@ != "defer_loading"@,
        "name"@ != "defer_loading"@,
{
    reveal_strlit("description");
    reveal_strlit("defer_loading");
    reveal_strlit("name");
    assert("description"@.len() == 11 && "defer_loading"@.len() == 13 && "name"@.len() == 4);
}

proof fn lemma_tools_key()
    ensures
        "name"@ != "defer_loading"@,
{
    lemma_description_key();
}

proof fn lemma_caller_names()
    ensures
        "direct"@ != "programmatic"@,
{
    reveal_strlit("direct");
    reveal_strlit("programmatic");
    assert("direct"@.len() == 6);
    assert("programmatic"@.len() == 12);
}

proof fn lemma_location_keys()
    ensures
        "type"@ != "country"@,
        "type"@ != "region"@,
        "type"@ != "city"@,
        "type"@ != "timezone"@,
        "country"@ != "region"@,
        "country"@ != "city"@,
        "country"@ != "timezone"@,
        "region"@ != "city"@,
        "region"@ != "timezone"@,
        "city"@ != "timezone"@,
{
    reveal_strlit("type");
    reveal_strlit("country");
    reveal_strlit("region");
    reveal_strlit("city");
    reveal_strlit("timezone");
    assert("type"@.len() == 4);
    assert("country"@.len() == 7);
    assert("region"@.len() == 6);
    assert("city"@.len() == 4);
    assert("timezone"@.len() == 8);
    assert("type"@[0] != "city"@[0]);
}

proof fn lemma_search_keys()
    ensures
        "allowed_domains"@ != "search_context_size"@,
        "allowed_domains"@ != "user_location"@,
        "allowed_domains"@ != "query"@,
        "search_context_size"@ != "user_location"@,
        "search_context_size"@ != "query"@,
        "user_location"@ != "query"@,
{
    reveal_strlit("allowed_domains");
    reveal_strlit("search_context_size");
    reveal_strlit("user_location");
    reveal_strlit("query");
    assert("allowed_domains"@.len() == 15);
    assert("search_context_size"@.len() == 19);
    assert("user_location"@.len() == 13);
    assert("query"@.len() == 5);
}

proof fn lemma_builtin_keys()
    ensures
        "type"@ != "name"@,
        "type"@ != "description"@,
        "type"@ != "strict"@,
        "type"@ != "parameters"@,
        "name"@ != "description"@,
        "name"@ != "strict"@,
        "name"@ != "parameters"@,
        "description"@ != "strict"@,
        "description"@ != "parameters"@,
        "strict"@ != "parameters"@,
{
    reveal_strlit("type");
    reveal_strlit("name");
    reveal_strlit("description");
    reveal_strlit("strict");
    reveal_strlit("parameters");
    assert("type"@.len() == 4);
    assert("name"@.len() == 4);
    assert("description"@.len() == 11);
    assert("strict"@.len() == 6);
    assert("parameters"@.len() == 10);
    assert("type"@[0] != "name"@[0]);
}

proof fn lemma_kinds()
    ensures
        "programmatic_tool_calling"@ != "tool_search"@,
        "programmatic_tool_calling"@ != "function"@,
        "programmatic_tool_calling"@ != "namespace"@,
        "programmatic_tool_calling"@ != "web_search"@,
        "programmatic_tool_calling"@ != "code_interpreter"@,
        "programmatic_tool_calling"@ != "mcp"@,
        "tool_search"@ != "function"@,
        "tool_search"@ != "namespace"@,
        "tool_search"@ != "web_search"@,
        "tool_search"@ != "code_interpreter"@,
        "tool_search"@ != "mcp"@,
        "function"@ != "namespace"@,
        "function"@ != "web_search"@,
        "function"@ != "code_interpreter"@,
        "function"@ != "mcp"@,
        "namespace"@ != "web_search"@,
        "namespace"@ != "code_interpreter"@,
        "namespace"@ != "mcp"@,
        "web_search"@ != "code_interpreter"@,
        "web_search"@ != "mcp"@,
        "code_interpreter"@ != "mcp"@,
{
    reveal_strlit("programmatic_tool_calling");
    reveal_strlit("tool_search");
    reveal_strlit("function");
    reveal_strlit("namespace");
    reveal_strlit("web_search");
    reveal_strlit("code_interpreter");
    reveal_strlit("mcp");
    assert("programmatic_tool_calling"@.len() == 25);
    assert("tool_search"@.len() == 11);
    assert("function"@.len() == 8);
    assert("namespace"@.len() == 9);
    assert("web_search"@.len() == 10);
    assert("code_interpreter"@.len() == 16);
    assert("mcp"@.len() == 3);
}

proof fn lemma_request_keys()
    ensures
        "tools"@ != "stream_options"@,
        "tools"@ != "parallel_tool_calls"@,
        "stream_options"@ != "parallel_tool_calls"@,
{
    reveal_strlit("tools");
    reveal_strlit("stream_options");
    reveal_strlit("parallel_tool_calls");
    assert("tools"@.len() == 5);
    assert("stream_options"@.len() == 14);
    assert("parallel_tool_calls"@.len() == 19);
}

} // verus!
