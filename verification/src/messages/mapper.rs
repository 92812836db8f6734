//! Client declarations of tools over the Messages wire format.

use vstd::prelude::*;
use vstd::string::*;
use crate::config::{
    CODE_INTERPRETER_FUNCTION, PROGRAMMATIC_FUNCTION, RESERVED_PREFIX, WEB_SEARCH_FUNCTION,
};
use crate::conversation::{
    catalog_entries, catalog_size, catalog_too_large, spec_views, ManagedToolState,
    ProgrammaticToolSpec, SpecView, StateView, PROGRAMMATIC_MAX_CATALOG_BYTES,
};
use crate::decode::{
    caller_named, callers_allowed, callers_result, parse_allowed_callers, read_caller, read_record,
    read_text_list, read_variant, AllowedCaller, AllowedCallers,
};
use crate::error::{complaint, joined, joined3, ErrorView, ToolRuntimeError};
use crate::fields::{no_variant, unknown_caller, unknown_caller_words};
use crate::json::{Json, JsonView};
use crate::mapper::{
    code_interpreter_words, location_keys, registry_resolves, registry_view, web_search_spec,
    web_search_tool, web_search_words,
};
use crate::messages::schema_refs::{refs_hold, schema_refs_hold};
use crate::messages::usage::{MessagesUsage, MessagesUsageView};
use crate::registry::{schema_views, with_all, RegistryView, ToolRegistry};
use crate::request::{ModelRequest, RequestView};
use crate::runtime::{
    bare_state, deadline_from, insert_programmatic_tools, program_description, program_words,
    with_programmatic_tools,
};
use crate::schema::ArgumentSchema;
use crate::time::Instant;
use crate::{decode, json, mapper, schema, serde_value, text};

verus! {

/// Whether a type names a code execution tool that can host programs.
pub open spec fn hosts_programs(version: Seq<char>) -> bool {
    version == "code_execution_20260120"@ || version == "code_execution_20260521"@
}

/// Whether a type names a code execution tool that only the model calls.
pub open spec fn direct_only(version: Seq<char>) -> bool {
    version == "code_execution_20250522"@ || version == "code_execution_20250825"@
}

/// Whether a type names a search tool.
pub open spec fn is_web_search(version: Seq<char>) -> bool {
    version == "web_search_20250305"@ || version == "web_search_20260209"@
}

/// Whether programs are the callers of a search tool that names none.
pub open spec fn defaults_programmatic(version: Seq<char>) -> bool {
    version == "web_search_20260209"@
}

/// What a declaration is, by its type.
pub enum Kind {
    ProgramHost,
    DirectInterpreter,
    WebSearch { programmatic: bool },
    Custom,
    Other,
}

pub open spec fn kind_of(declaration: JsonView) -> Kind {
    match declaration.text_at("type"@) {
        None => Kind::Custom,
        Some(version) => if hosts_programs(version) {
            Kind::ProgramHost
        } else if direct_only(version) {
            Kind::DirectInterpreter
        } else if is_web_search(version) {
            Kind::WebSearch { programmatic: defaults_programmatic(version) }
        } else if version == "custom"@ {
            Kind::Custom
        } else {
            Kind::Other
        },
    }
}

fn read_kind(declaration: &Json) -> (r: Kind)
    ensures
        r == kind_of(declaration@),
{
    match declaration.text_at("type") {
        None => Kind::Custom,
        Some(version) => {
            if text::same_text(version, "code_execution_20260120") || text::same_text(
                version,
                "code_execution_20260521",
            ) {
                Kind::ProgramHost
            } else if text::same_text(version, "code_execution_20250522") || text::same_text(
                version,
                "code_execution_20250825",
            ) {
                Kind::DirectInterpreter
            } else if text::same_text(version, "web_search_20250305") {
                proof {
                    reveal_strlit("web_search_20250305");
                    reveal_strlit("web_search_20260209");
                    assert("web_search_20250305"@[14] != "web_search_20260209"@[14]);
                }
                Kind::WebSearch { programmatic: false }
            } else if text::same_text(version, "web_search_20260209") {
                Kind::WebSearch { programmatic: true }
            } else if text::same_text(version, "custom") {
                Kind::Custom
            } else {
                Kind::Other
            }
        },
    }
}

/// The caller that a declaration names: code execution versions stand for programs.
pub open spec fn messages_caller(name: Seq<char>) -> Option<AllowedCaller> {
    if hosts_programs(name) {
        Some(AllowedCaller::Programmatic)
    } else {
        caller_named(name)
    }
}

/// The first name that is no caller.
pub open spec fn first_unknown_caller(names: Seq<Seq<char>>) -> Option<Seq<char>>
    decreases names.len(),
{
    if names.len() == 0 {
        None
    } else if messages_caller(names[0]) is None {
        Some(names[0])
    } else {
        first_unknown_caller(names.drop_first())
    }
}

/// Who may call the tool of a declaration.
pub open spec fn messages_callers(declaration: JsonView, default_programmatic: bool) -> Result<
    AllowedCallers,
    ErrorView,
> {
    match decode::present(declaration, "allowed_callers"@) {
        None => callers_allowed(None, default_programmatic),
        Some(found) => match decode::text_list(found) {
            None => Err(ErrorView::invalid_request("invalid tool: "@ + no_variant())),
            Some(names) => match first_unknown_caller(names) {
                Some(name) => Err(
                    ErrorView::invalid_request(
                        "invalid tool allowed_callers: "@ + unknown_caller(name),
                    ),
                ),
                None => callers_allowed(
                    Some(Seq::new(names.len(), |i: int| messages_caller(names[i])->0)),
                    default_programmatic,
                ),
            },
        },
    }
}

fn callers(declaration: &Json, default_programmatic: bool) -> (r: Result<
    AllowedCallers,
    ToolRuntimeError,
>)
    ensures
        callers_result(r) == messages_callers(declaration@, default_programmatic),
{
    let found = match decode::present_field(declaration, "allowed_callers") {
        Some(found) => found,
        None => {
            return parse_allowed_callers(None, default_programmatic);
        },
    };
    let names = match read_text_list(found) {
        Some(names) => names,
        None => {
            let message = joined(
                "invalid tool: ",
                "data did not match any variant of untagged enum Nullable",
            );
            return Err(ToolRuntimeError::invalid_request(message.as_str()));
        },
    };
    let ghost all = text::strings(names@);
    let mut list: Vec<AllowedCaller> = Vec::new();
    let mut i: usize = 0;
    assert(all.skip(0) =~= all);
    while i < names.len()
        invariant
            all == text::strings(names@),
            decode::present(declaration@, "allowed_callers"@) == Some(found@),
            decode::text_list(found@) == Some(all),
            i <= names@.len(),
            list@.len() == i,
            forall|j: int| 0 <= j < i ==> messages_caller(#[trigger] all[j]) == Some(list@[j]),
            first_unknown_caller(all) == first_unknown_caller(all.skip(i as int)),
        decreases names@.len() - i,
    {
        let name = names[i].as_str();
        assert(all.skip(i as int)[0] == name@);
        assert(all.skip(i as int).drop_first() =~= all.skip(i + 1));
        let caller = if text::same_text(name, "code_execution_20260120") || text::same_text(
            name,
            "code_execution_20260521",
        ) {
            Some(AllowedCaller::Programmatic)
        } else {
            read_caller(name)
        };
        match caller {
            Some(caller) => {
                list.push(caller);
            },
            None => {
                let message = joined(
                    "invalid tool allowed_callers: ",
                    unknown_caller_words(name).as_str(),
                );
                return Err(ToolRuntimeError::invalid_request(message.as_str()));
            },
        }
        i += 1;
    }
    assert(list@ =~= Seq::new(all.len(), |j: int| messages_caller(all[j])->0));
    parse_allowed_callers(Some(list), default_programmatic)
}

/// What the declarations of a request come to before any is rewritten.
pub struct Plan {
    pub code_execution: Option<bool>,
    pub web_search: bool,
    pub managed_function: bool,
    pub programmatic_callers: bool,
    pub programmatic_only: Vec<String>,
    pub seen_names: Vec<String>,
}

/// In `code_execution`, whether the declared tool can host programs.
pub struct PlanView {
    pub code_execution: Option<bool>,
    pub web_search: bool,
    pub managed_function: bool,
    pub programmatic_callers: bool,
    pub programmatic_only: Seq<Seq<char>>,
    pub seen_names: Seq<Seq<char>>,
}

impl PlanView {
    pub open spec fn none() -> PlanView {
        PlanView {
            code_execution: None,
            web_search: false,
            managed_function: false,
            programmatic_callers: false,
            programmatic_only: Seq::empty(),
            seen_names: Seq::empty(),
        }
    }

    pub open spec fn activates(self) -> bool {
        self.code_execution is Some || self.web_search || self.managed_function
    }

    pub open spec fn runs_programs(self) -> bool {
        self.code_execution == Some(true) && self.programmatic_callers
    }

    /// The plan once a tool of this name has these callers.
    pub open spec fn with_callers(self, name: Seq<char>, callers: AllowedCallers) -> PlanView {
        if callers.programmatic {
            PlanView {
                programmatic_callers: true,
                programmatic_only: if callers.direct {
                    self.programmatic_only
                } else {
                    self.programmatic_only.push(name)
                },
                ..self
            }
        } else {
            self
        }
    }
}

impl Plan {
    pub open spec fn view(&self) -> PlanView {
        PlanView {
            code_execution: self.code_execution,
            web_search: self.web_search,
            managed_function: self.managed_function,
            programmatic_callers: self.programmatic_callers,
            programmatic_only: text::strings(self.programmatic_only@),
            seen_names: text::strings(self.seen_names@),
        }
    }

    fn none() -> (r: Plan)
        ensures
            r@ == PlanView::none(),
    {
        let r = Plan {
            code_execution: None,
            web_search: false,
            managed_function: false,
            programmatic_callers: false,
            programmatic_only: Vec::new(),
            seen_names: Vec::new(),
        };
        assert(r@.programmatic_only =~= Seq::empty());
        assert(r@.seen_names =~= Seq::empty());
        r
    }

    fn activates(&self) -> (r: bool)
        ensures
            r == self@.activates(),
    {
        self.code_execution.is_some() || self.web_search || self.managed_function
    }

    fn programmatic_runtime_needed(&self) -> (r: bool)
        ensures
            r == self@.runs_programs(),
    {
        match self.code_execution {
            Some(hosts) => hosts && self.programmatic_callers,
            None => false,
        }
    }

    fn add_callers(&mut self, name: &str, callers: AllowedCallers)
        ensures
            final(self)@ == old(self)@.with_callers(name@, callers),
    {
        if callers.programmatic {
            self.programmatic_callers = true;
            if !callers.direct {
                let ghost before = text::strings(self.programmatic_only@);
                self.programmatic_only.push(name.to_owned());
                assert(text::strings(self.programmatic_only@) =~= before.push(name@));
            }
        }
    }
}

pub open spec fn wrong_name(expected: Seq<char>) -> ErrorView {
    ErrorView::invalid_request("built-in tool declaration requires name "@ + expected)
}

/// What one more declaration adds to the plan.
pub open spec fn classified(
    plan: PlanView,
    registry: Option<RegistryView>,
    declaration: JsonView,
) -> Result<PlanView, ErrorView> {
    let name = declaration.text_at("name"@);
    let named = match name {
        Some(name) => PlanView { seen_names: plan.seen_names.push(name), ..plan },
        None => plan,
    };
    let kind = kind_of(declaration);
    if name is Some && plan.seen_names.contains(name->0) {
        Err(ErrorView::invalid_request("duplicate tool declaration for "@ + name->0))
    } else {
        match kind {
            Kind::ProgramHost | Kind::DirectInterpreter => if name != Some("code_execution"@) {
                Err(wrong_name("code_execution"@))
            } else if plan.code_execution is Some {
                Err(ErrorView::invalid_request("duplicate tool declaration for code_execution"@))
            } else {
                Ok(PlanView { code_execution: Some(kind is ProgramHost), ..named })
            },
            Kind::WebSearch { programmatic } => if name != Some("web_search"@) {
                Err(wrong_name("web_search"@))
            } else if plan.web_search {
                Err(ErrorView::invalid_request("duplicate tool declaration for web_search"@))
            } else {
                match messages_callers(declaration, programmatic) {
                    Ok(callers) => Ok(
                        PlanView { web_search: true, ..named }.with_callers(
                            "web_search"@,
                            callers,
                        ),
                    ),
                    Err(error) => Err(error),
                }
            },
            Kind::Custom => if name is None {
                Err(ErrorView::invalid_request("custom tool requires a string name"@))
            } else if !registry_resolves(registry, name->0) {
                Ok(named)
            } else {
                match messages_callers(declaration, false) {
                    Ok(callers) => Ok(
                        PlanView { managed_function: true, ..named }.with_callers(
                            name->0,
                            callers,
                        ),
                    ),
                    Err(error) => Err(error),
                }
            },
            Kind::Other => Ok(named),
        }
    }
}

pub open spec fn plan_step(
    r: Result<(), ToolRuntimeError>,
    after: PlanView,
    expected: Result<PlanView, ErrorView>,
) -> bool {
    match r {
        Ok(_) => expected == Ok::<PlanView, ErrorView>(after),
        Err(error) => expected == Err::<PlanView, ErrorView>(error@),
    }
}

fn name_is(name: Option<&str>, expected: &str) -> (r: bool)
    ensures
        r == (match name {
            Some(name) => name@ == expected@,
            None => false,
        }),
{
    match name {
        Some(name) => text::same_text(name, expected),
        None => false,
    }
}

fn wrong_name_error(expected: &str) -> (r: ToolRuntimeError)
    ensures
        r@ == wrong_name(expected@),
{
    let message = joined("built-in tool declaration requires name ", expected);
    ToolRuntimeError::invalid_request(message.as_str())
}

fn classify(plan: &mut Plan, registry: Option<&ToolRegistry>, declaration: &Json) -> (r: Result<
    (),
    ToolRuntimeError,
>)
    ensures
        plan_step(
            r,
            final(plan)@,
            classified(old(plan)@, registry_view(registry), declaration@),
        ),
{
    let name = declaration.text_at("name");
    if let Some(name) = name {
        if text::among_strings(&plan.seen_names, name) {
            let message = joined("duplicate tool declaration for ", name);
            return Err(ToolRuntimeError::invalid_request(message.as_str()));
        }
        let ghost before = text::strings(plan.seen_names@);
        plan.seen_names.push(name.to_owned());
        assert(text::strings(plan.seen_names@) =~= before.push(name@));
    }
    let kind = read_kind(declaration);
    match kind {
        Kind::ProgramHost | Kind::DirectInterpreter => {
            if !name_is(name, "code_execution") {
                return Err(wrong_name_error("code_execution"));
            }
            if plan.code_execution.is_some() {
                return Err(
                    ToolRuntimeError::invalid_request(
                        "duplicate tool declaration for code_execution",
                    ),
                );
            }
            plan.code_execution = Some(
                match kind {
                    Kind::ProgramHost => true,
                    _ => false,
                },
            );
        },
        Kind::WebSearch { programmatic } => {
            if !name_is(name, "web_search") {
                return Err(wrong_name_error("web_search"));
            }
            if plan.web_search {
                return Err(
                    ToolRuntimeError::invalid_request("duplicate tool declaration for web_search"),
                );
            }
            match callers(declaration, programmatic) {
                Ok(allowed) => {
                    plan.web_search = true;
                    plan.add_callers("web_search", allowed);
                },
                Err(error) => {
                    return Err(error);
                },
            }
        },
        Kind::Custom => {
            let name = match name {
                Some(name) => name,
                None => {
                    return Err(
                        ToolRuntimeError::invalid_request("custom tool requires a string name"),
                    );
                },
            };
            let managed = match registry {
                Some(registry) => registry.resolves_function(name),
                None => false,
            };
            if managed {
                match callers(declaration, false) {
                    Ok(allowed) => {
                        plan.managed_function = true;
                        plan.add_callers(name, allowed);
                    },
                    Err(error) => {
                        return Err(error);
                    },
                }
            }
        },
        Kind::Other => {},
    }
    Ok(())
}

/// The plan for all declarations.
pub open spec fn planned(registry: Option<RegistryView>, declarations: Seq<JsonView>) -> Result<
    PlanView,
    ErrorView,
>
    decreases declarations.len(),
{
    if declarations.len() == 0 {
        Ok(PlanView::none())
    } else {
        match planned(registry, declarations.drop_last()) {
            Ok(before) => classified(before, registry, declarations.last()),
            Err(error) => Err(error),
        }
    }
}

proof fn lemma_plan_stops(registry: Option<RegistryView>, declarations: Seq<JsonView>, n: int)
    requires
        0 <= n <= declarations.len(),
        planned(registry, declarations.take(n)) is Err,
    ensures
        planned(registry, declarations) == planned(registry, declarations.take(n)),
    decreases declarations.len() - n,
{
    if n < declarations.len() {
        assert(declarations.take(n + 1).drop_last() =~= declarations.take(n));
        lemma_plan_stops(registry, declarations, n + 1);
    } else {
        assert(declarations.take(n) =~= declarations);
    }
}

fn make_plan(registry: Option<&ToolRegistry>, declarations: &Vec<Json>) -> (r: Result<
    Plan,
    ToolRuntimeError,
>)
    ensures
        match r {
            Ok(plan) => planned(registry_view(registry), json::views(declarations@)) == Ok::<
                PlanView,
                ErrorView,
            >(plan@),
            Err(error) => planned(registry_view(registry), json::views(declarations@)) == Err::<
                PlanView,
                ErrorView,
            >(error@),
        },
{
    let ghost all = json::views(declarations@);
    let ghost known = registry_view(registry);
    let mut plan = Plan::none();
    let mut i: usize = 0;
    assert(all.take(0) =~= Seq::empty());
    while i < declarations.len()
        invariant
            all == json::views(declarations@),
            known == registry_view(registry),
            i <= declarations@.len(),
            planned(known, all.take(i as int)) == Ok::<PlanView, ErrorView>(plan@),
        decreases declarations@.len() - i,
    {
        assert(all.take(i + 1).drop_last() =~= all.take(i as int));
        assert(all.take(i + 1).last() == declarations@[i as int]@);
        match classify(&mut plan, registry, &declarations[i]) {
            Ok(_) => {},
            Err(error) => {
                proof {
                    lemma_plan_stops(known, all, i + 1);
                }
                return Err(error);
            },
        }
        i += 1;
    }
    assert(all.take(i as int) =~= all);
    Ok(plan)
}

/// The failure of a search declaration with a field that is null.
pub open spec fn bad_search(field: Seq<char>, expected: Seq<char>) -> ErrorView {
    ErrorView::invalid_request("invalid web search: "@ + field + " must be "@ + expected)
}

fn bad_search_error(field: &str, expected: &str) -> (r: ToolRuntimeError)
    ensures
        r@ == bad_search(field@, expected@),
{
    let mut message = joined("invalid web search: ", field);
    message.append(" must be ");
    message.append(expected);
    ToolRuntimeError::invalid_request(message.as_str())
}

/// The location of a search declaration: its type must be approximate, other fields are ignored.
pub open spec fn messages_location(value: JsonView) -> Option<JsonView> {
    match decode::record(value, location_keys()) {
        Some(found) => if found.get("type"@) is Some && decode::variant(found.get("type"@)->0)
            == Some("approximate"@) && mapper::location_texts(found) {
            Some(mapper::approximate_location(found))
        } else {
            None
        },
        None => None,
    }
}

fn read_messages_location(value: &Json) -> (r: Option<Json>)
    ensures
        match r {
            Some(location) => messages_location(value@) == Some(location@),
            None => messages_location(value@) is None,
        },
{
    let keys = vec!["type", "country", "region", "city", "timezone"];
    assert(text::texts(keys@) =~= location_keys());
    let found = match read_record(value, &keys) {
        Some(found) => found,
        None => {
            return None;
        },
    };
    let approximate = match found.get("type") {
        Some(kind) => name_is(read_variant(kind), "approximate"),
        None => false,
    };
    if !approximate {
        return None;
    }
    mapper::read_location(&found)
}

/// Whether a field of a search declaration is neither null nor what it should be.
pub open spec fn malformed_search(declaration: JsonView) -> bool {
    let allowed = decode::present(declaration, "allowed_domains"@);
    let blocked = decode::present(declaration, "blocked_domains"@);
    let location = decode::present(declaration, "user_location"@);
    let uses = decode::present(declaration, "max_uses"@);
    ||| allowed is Some && decode::text_list(allowed->0) is None
    ||| blocked is Some && decode::text_list(blocked->0) is None
    ||| location is Some && messages_location(location->0) is None
    ||| uses is Some && uses->0.as_u64() is None
}

/// Whether a field is absent, null or a list of texts.
fn lists_texts(declaration: &Json, key: &str) -> (r: bool)
    ensures
        r == (match decode::present(declaration@, key@) {
            Some(found) => decode::text_list(found) is Some,
            None => true,
        }),
{
    match decode::present_field(declaration, key) {
        Some(found) => read_text_list(found).is_some(),
        None => true,
    }
}

fn is_malformed_search(declaration: &Json) -> (r: bool)
    ensures
        r == malformed_search(declaration@),
{
    if !lists_texts(declaration, "allowed_domains") || !lists_texts(
        declaration,
        "blocked_domains",
    ) {
        return true;
    }
    if let Some(location) = decode::present_field(declaration, "user_location") {
        if read_messages_location(location).is_none() {
            return true;
        }
    }
    match decode::present_field(declaration, "max_uses") {
        Some(uses) => uses.as_u64().is_none(),
        None => false,
    }
}

fn is_null_field(declaration: &Json, key: &str) -> (r: bool)
    ensures
        r == (declaration@.get(key@) == Some(JsonView::Null)),
{
    match declaration.get(key) {
        Some(found) => found.is_null(),
        None => false,
    }
}

/// The options that a search declaration hands to the backend.
pub open spec fn search_options(declaration: JsonView) -> Result<JsonView, ErrorView> {
    let allowed = declaration.get("allowed_domains"@);
    let blocked = declaration.get("blocked_domains"@);
    let location = declaration.get("user_location"@);
    let uses = declaration.get("max_uses"@);
    if malformed_search(declaration) {
        Err(ErrorView::invalid_request("invalid web search: "@ + no_variant()))
    } else if allowed == Some(JsonView::Null) {
        Err(bad_search("allowed_domains"@, "an array of strings"@))
    } else if blocked == Some(JsonView::Null) {
        Err(bad_search("blocked_domains"@, "an array of strings"@))
    } else if location == Some(JsonView::Null) {
        Err(bad_search("user_location"@, "an approximate location object"@))
    } else if uses == Some(JsonView::Null) {
        Err(bad_search("max_uses"@, "a non-negative integer"@))
    } else {
        Ok(
            mapper::with_value(
                mapper::with_value(
                    mapper::with_value(
                        mapper::with_value(JsonView::empty(), "allowed_domains"@, allowed),
                        "blocked_domains"@,
                        blocked,
                    ),
                    "user_location"@,
                    if location is Some {
                        messages_location(location->0)
                    } else {
                        None
                    },
                ),
                "max_uses"@,
                uses,
            ),
        )
    }
}

fn web_search_trusted_options(declaration: &Json) -> (r: Result<Json, ToolRuntimeError>)
    ensures
        crate::error::json_result(r) == search_options(declaration@),
{
    if is_malformed_search(declaration) {
        let message = joined(
            "invalid web search: ",
            "data did not match any variant of untagged enum Nullable",
        );
        return Err(ToolRuntimeError::invalid_request(message.as_str()));
    }
    if is_null_field(declaration, "allowed_domains") {
        return Err(bad_search_error("allowed_domains", "an array of strings"));
    }
    if is_null_field(declaration, "blocked_domains") {
        return Err(bad_search_error("blocked_domains", "an array of strings"));
    }
    if is_null_field(declaration, "user_location") {
        return Err(bad_search_error("user_location", "an approximate location object"));
    }
    if is_null_field(declaration, "max_uses") {
        return Err(bad_search_error("max_uses", "a non-negative integer"));
    }
    let mut options = Json::object();
    if let Some(domains) = declaration.get("allowed_domains") {
        options.set("allowed_domains", domains.clone());
    }
    if let Some(domains) = declaration.get("blocked_domains") {
        options.set("blocked_domains", domains.clone());
    }
    if let Some(location) = declaration.get("user_location") {
        if let Some(location) = read_messages_location(location) {
            options.set("user_location", location);
        }
    }
    if let Some(uses) = declaration.get("max_uses") {
        options.set("max_uses", uses.clone());
    }
    Ok(options)
}

/// What the declarations become: what the model is offered, what programs may call, and what is
/// kept of them.
pub struct Emitted {
    pub rewritten: Vec<Json>,
    pub programmatic_tools: Vec<ProgrammaticToolSpec>,
    pub options: Vec<(String, Json)>,
    pub schemas: Vec<(String, ArgumentSchema)>,
}

pub struct EmittedView {
    pub rewritten: Seq<JsonView>,
    pub programmatic_tools: Seq<SpecView>,
    pub options: Seq<(Seq<char>, JsonView)>,
    pub schemas: Seq<(Seq<char>, JsonView)>,
}

impl Emitted {
    pub open spec fn view(&self) -> EmittedView {
        EmittedView {
            rewritten: json::views(self.rewritten@),
            programmatic_tools: spec_views(self.programmatic_tools@),
            options: json::entry_views(self.options@),
            schemas: schema_views(self.schemas@),
        }
    }
}

/// A tool as a model is offered it.
pub open spec fn offered(name: Seq<char>, words: Seq<char>, parameters: JsonView) -> JsonView {
    JsonView::empty().with("name"@, JsonView::Text(name)).with(
        "description"@,
        JsonView::Text(words),
    ).with("input_schema"@, parameters)
}

fn offer(name: &str, words: &str, parameters: Json) -> (r: Json)
    ensures
        r@ == offered(name@, words@, parameters@),
{
    Json::object().having("name", Json::text(name)).having("description", Json::text(words)).having(
        "input_schema",
        parameters,
    )
}

pub open spec fn missing_builtin(
    registry: RegistryView,
    internal: Seq<char>,
    label: Seq<char>,
) -> Option<ErrorView> {
    if registry.has_internal(internal) {
        None
    } else {
        Some(
            ErrorView::invalid_request(
                label + " requires a configured "@ + label + " backend in llm.toolRuntime"@,
            ),
        )
    }
}

fn require_builtin(registry: &ToolRegistry, internal_name: &str, label: &str) -> (r: Option<
    ToolRuntimeError,
>)
    ensures
        complaint(r) == missing_builtin(registry@, internal_name@, label@),
{
    if registry.has_internal(internal_name) {
        return None;
    }
    let mut message = joined(label, " requires a configured ");
    message.append(label);
    message.append(" backend in llm.toolRuntime");
    Some(ToolRuntimeError::invalid_request(message.as_str()))
}

pub open spec fn bad_input_schema() -> ErrorView {
    ErrorView::invalid_request("managed tool input_schema must be a valid JSON Schema"@)
}

/// What a search declaration becomes.
pub open spec fn search_emitted(
    so_far: EmittedView,
    plan: PlanView,
    registry: RegistryView,
    declaration: JsonView,
    programmatic: bool,
) -> Result<EmittedView, ErrorView> {
    let callers = messages_callers(declaration, programmatic);
    let options = search_options(declaration);
    if let Some(error) = missing_builtin(registry, WEB_SEARCH_FUNCTION@, "web search"@) {
        Err(error)
    } else if callers is Err {
        Err(callers->Err_0)
    } else if options is Err {
        Err(options->Err_0)
    } else if callers->Ok_0.programmatic && !plan.runs_programs() {
        Err(
            ErrorView::invalid_request(
                "web search allowed_callers names a code execution version, but no code execution tool is declared; set allowed_callers to [\"direct\"]"@,
            ),
        )
    } else {
        Ok(
            EmittedView {
                options: so_far.options.push((WEB_SEARCH_FUNCTION@, options->Ok_0)),
                programmatic_tools: if callers->Ok_0.programmatic {
                    so_far.programmatic_tools.push(web_search_spec())
                } else {
                    so_far.programmatic_tools
                },
                rewritten: if callers->Ok_0.direct {
                    so_far.rewritten.push(
                        offered(
                            WEB_SEARCH_FUNCTION@,
                            web_search_words(),
                            schema::one_string("query"@),
                        ),
                    )
                } else {
                    so_far.rewritten
                },
                ..so_far
            },
        )
    }
}

/// A custom tool as a program may call it.
pub open spec fn custom_spec(declaration: JsonView, name: Seq<char>) -> SpecView {
    SpecView {
        public_name: name,
        internal_name: name,
        description: match declaration.text_at("description"@) {
            Some(s) => s,
            None => Seq::empty(),
        },
        input_schema: declaration.get("input_schema"@)->0,
        output_schema: declaration.get("output_schema"@),
    }
}

/// What a custom declaration becomes.
pub open spec fn custom_emitted(
    so_far: EmittedView,
    plan: PlanView,
    registry: RegistryView,
    declaration: JsonView,
) -> Result<EmittedView, ErrorView> {
    let name = declaration.text_at("name"@);
    let input = declaration.get("input_schema"@);
    let callers = messages_callers(declaration, false);
    if name is None {
        Err(ErrorView::invalid_request("custom tool requires a string name"@))
    } else if text::has_prefix(name->0, RESERVED_PREFIX@) {
        Err(
            ErrorView::invalid_request(
                "tool name "@ + name->0 + " uses the reserved _agentgateway_ namespace"@,
            ),
        )
    } else if !registry.resolves(name->0) {
        Err(
            ErrorView::invalid_request(
                "every custom tool must be registered when the managed tool runtime is active; "@
                    + name->0 + " is not registered"@,
            ),
        )
    } else if input is None || !refs_hold(input->0, input->0, 0, Seq::empty())
        || !schema::schema_compiles(input->0) {
        Err(bad_input_schema())
    } else if callers is Err {
        Err(callers->Err_0)
    } else if callers->Ok_0.programmatic && !plan.runs_programs() {
        Err(
            ErrorView::invalid_request(
                "tool "@ + name->0
                    + " allowed_callers names a code execution version, but no code execution tool is declared"@,
            ),
        )
    } else {
        Ok(
            EmittedView {
                schemas: so_far.schemas.push((name->0, input->0)),
                programmatic_tools: if callers->Ok_0.programmatic {
                    so_far.programmatic_tools.push(custom_spec(declaration, name->0))
                } else {
                    so_far.programmatic_tools
                },
                rewritten: if callers->Ok_0.direct {
                    so_far.rewritten.push(declaration.without("allowed_callers"@))
                } else {
                    so_far.rewritten
                },
                ..so_far
            },
        )
    }
}

/// What one declaration becomes.
pub open spec fn emitted(
    so_far: EmittedView,
    plan: PlanView,
    registry: RegistryView,
    declaration: JsonView,
) -> Result<EmittedView, ErrorView> {
    match kind_of(declaration) {
        Kind::ProgramHost | Kind::DirectInterpreter => match missing_builtin(
            registry,
            CODE_INTERPRETER_FUNCTION@,
            "code execution"@,
        ) {
            Some(error) => Err(error),
            None => Ok(
                EmittedView {
                    rewritten: so_far.rewritten.push(
                        offered(
                            CODE_INTERPRETER_FUNCTION@,
                            code_interpreter_words(),
                            schema::one_string("code"@),
                        ),
                    ),
                    ..so_far
                },
            ),
        },
        Kind::WebSearch { programmatic } => search_emitted(
            so_far,
            plan,
            registry,
            declaration,
            programmatic,
        ),
        Kind::Custom => custom_emitted(so_far, plan, registry, declaration),
        Kind::Other => Err(
            ErrorView::invalid_request(
                "tool type "@ + declaration.text_at("type"@)->0
                    + " is not supported while the managed tool runtime is active"@,
            ),
        ),
    }
}

pub open spec fn emit_step(
    r: Result<(), ToolRuntimeError>,
    after: EmittedView,
    expected: Result<EmittedView, ErrorView>,
) -> bool {
    match r {
        Ok(_) => expected == Ok::<EmittedView, ErrorView>(after),
        Err(error) => expected == Err::<EmittedView, ErrorView>(error@),
    }
}

fn push_offer(list: &mut Vec<Json>, value: Json)
    ensures
        json::views(final(list)@) == json::views(old(list)@).push(value@),
{
    let ghost before = json::views(list@);
    list.push(value);
    assert(json::views(list@) =~= before.push(value@));
}

fn push_spec(list: &mut Vec<ProgrammaticToolSpec>, tool: ProgrammaticToolSpec)
    ensures
        spec_views(final(list)@) == spec_views(old(list)@).push(tool@),
{
    let ghost before = spec_views(list@);
    list.push(tool);
    assert(spec_views(list@) =~= before.push(tool@));
}

fn emit_search(
    target: &mut Emitted,
    plan: &Plan,
    registry: &ToolRegistry,
    declaration: &Json,
    programmatic: bool,
) -> (r: Result<(), ToolRuntimeError>)
    ensures
        emit_step(
            r,
            final(target)@,
            search_emitted(old(target)@, plan@, registry@, declaration@, programmatic),
        ),
{
    if let Some(error) = require_builtin(registry, WEB_SEARCH_FUNCTION, "web search") {
        return Err(error);
    }
    let allowed = match callers(declaration, programmatic) {
        Ok(allowed) => allowed,
        Err(error) => {
            return Err(error);
        },
    };
    let options = match web_search_trusted_options(declaration) {
        Ok(options) => options,
        Err(error) => {
            return Err(error);
        },
    };
    if allowed.programmatic && !plan.programmatic_runtime_needed() {
        return Err(
            ToolRuntimeError::invalid_request(
                "web search allowed_callers names a code execution version, but no code execution tool is declared; set allowed_callers to [\"direct\"]",
            ),
        );
    }
    let ghost before = json::entry_views(target.options@);
    let ghost added = options@;
    target.options.push((WEB_SEARCH_FUNCTION.to_owned(), options));
    assert(json::entry_views(target.options@) =~= before.push((WEB_SEARCH_FUNCTION@, added)));
    if allowed.programmatic {
        push_spec(&mut target.programmatic_tools, web_search_tool());
    }
    if allowed.direct {
        push_offer(
            &mut target.rewritten,
            offer(
                WEB_SEARCH_FUNCTION,
                "Search the web for current information and return relevant sources.",
                schema::web_search_parameters(),
            ),
        );
    }
    Ok(())
}

fn emit_custom(
    target: &mut Emitted,
    plan: &Plan,
    registry: &ToolRegistry,
    declaration: &Json,
) -> (r: Result<(), ToolRuntimeError>)
    ensures
        emit_step(
            r,
            final(target)@,
            custom_emitted(old(target)@, plan@, registry@, declaration@),
        ),
{
    let name = match declaration.text_at("name") {
        Some(name) => name,
        None => {
            return Err(ToolRuntimeError::invalid_request("custom tool requires a string name"));
        },
    };
    if text::starts_with(name, RESERVED_PREFIX) {
        let message = joined3("tool name ", name, " uses the reserved _agentgateway_ namespace");
        return Err(ToolRuntimeError::invalid_request(message.as_str()));
    }
    if !registry.resolves_function(name) {
        let message = joined3(
            "every custom tool must be registered when the managed tool runtime is active; ",
            name,
            " is not registered",
        );
        return Err(ToolRuntimeError::invalid_request(message.as_str()));
    }
    let input = declaration.get("input_schema");
    let compiled = match input {
        Some(source) => {
            if schema_refs_hold(source) {
                ArgumentSchema::compile(source)
            } else {
                None
            }
        },
        None => None,
    };
    let (source, schema) = match (input, compiled) {
        (Some(source), Some(schema)) => (source, schema),
        _ => {
            return Err(
                ToolRuntimeError::invalid_request(
                    "managed tool input_schema must be a valid JSON Schema",
                ),
            );
        },
    };
    let allowed = match callers(declaration, false) {
        Ok(allowed) => allowed,
        Err(error) => {
            return Err(error);
        },
    };
    if allowed.programmatic && !plan.programmatic_runtime_needed() {
        let message = joined3(
            "tool ",
            name,
            " allowed_callers names a code execution version, but no code execution tool is declared",
        );
        return Err(ToolRuntimeError::invalid_request(message.as_str()));
    }
    let ghost before = schema_views(target.schemas@);
    let ghost added = schema@;
    target.schemas.push((name.to_owned(), schema));
    assert(schema_views(target.schemas@) =~= before.push((name@, added)));
    if allowed.programmatic {
        let tool = ProgrammaticToolSpec {
            public_name: name.to_owned(),
            internal_name: name.to_owned(),
            description: match declaration.text_at("description") {
                Some(s) => s.to_owned(),
                None => String::new(),
            },
            input_schema: source.clone(),
            output_schema: match declaration.get("output_schema") {
                Some(schema) => Some(schema.clone()),
                None => None,
            },
        };
        push_spec(&mut target.programmatic_tools, tool);
    }
    if allowed.direct {
        let mut bare = declaration.clone();
        let _ = bare.take("allowed_callers");
        push_offer(&mut target.rewritten, bare);
    }
    Ok(())
}

fn emit(target: &mut Emitted, plan: &Plan, registry: &ToolRegistry, declaration: &Json) -> (r: Result<
    (),
    ToolRuntimeError,
>)
    ensures
        emit_step(r, final(target)@, emitted(old(target)@, plan@, registry@, declaration@)),
{
    match read_kind(declaration) {
        Kind::ProgramHost | Kind::DirectInterpreter => {
            if let Some(error) = require_builtin(
                registry,
                CODE_INTERPRETER_FUNCTION,
                "code execution",
            ) {
                return Err(error);
            }
            push_offer(
                &mut target.rewritten,
                offer(
                    CODE_INTERPRETER_FUNCTION,
                    "Execute Python code in an isolated sandbox and return stdout and stderr.",
                    schema::code_interpreter_parameters(),
                ),
            );
            Ok(())
        },
        Kind::WebSearch { programmatic } => emit_search(
            target,
            plan,
            registry,
            declaration,
            programmatic,
        ),
        Kind::Custom => emit_custom(target, plan, registry, declaration),
        Kind::Other => {
            let kind = match declaration.text_at("type") {
                Some(kind) => kind,
                None => "",
            };
            let message = joined3(
                "tool type ",
                kind,
                " is not supported while the managed tool runtime is active",
            );
            Err(ToolRuntimeError::invalid_request(message.as_str()))
        },
    }
}

/// What all declarations become.
pub open spec fn all_emitted(
    plan: PlanView,
    registry: RegistryView,
    declarations: Seq<JsonView>,
) -> Result<EmittedView, ErrorView>
    decreases declarations.len(),
{
    if declarations.len() == 0 {
        Ok(
            EmittedView {
                rewritten: Seq::empty(),
                programmatic_tools: Seq::empty(),
                options: Seq::empty(),
                schemas: Seq::empty(),
            },
        )
    } else {
        match all_emitted(plan, registry, declarations.drop_last()) {
            Ok(before) => emitted(before, plan, registry, declarations.last()),
            Err(error) => Err(error),
        }
    }
}

proof fn lemma_emission_stops(
    plan: PlanView,
    registry: RegistryView,
    declarations: Seq<JsonView>,
    n: int,
)
    requires
        0 <= n <= declarations.len(),
        all_emitted(plan, registry, declarations.take(n)) is Err,
    ensures
        all_emitted(plan, registry, declarations) == all_emitted(
            plan,
            registry,
            declarations.take(n),
        ),
    decreases declarations.len() - n,
{
    if n < declarations.len() {
        assert(declarations.take(n + 1).drop_last() =~= declarations.take(n));
        lemma_emission_stops(plan, registry, declarations, n + 1);
    } else {
        assert(declarations.take(n) =~= declarations);
    }
}

fn emit_all(plan: &Plan, registry: &ToolRegistry, declarations: &Vec<Json>) -> (r: Result<
    Emitted,
    ToolRuntimeError,
>)
    ensures
        match r {
            Ok(found) => all_emitted(plan@, registry@, json::views(declarations@)) == Ok::<
                EmittedView,
                ErrorView,
            >(found@),
            Err(error) => all_emitted(plan@, registry@, json::views(declarations@)) == Err::<
                EmittedView,
                ErrorView,
            >(error@),
        },
{
    let ghost all = json::views(declarations@);
    let mut target = Emitted {
        rewritten: Vec::new(),
        programmatic_tools: Vec::new(),
        options: Vec::new(),
        schemas: Vec::new(),
    };
    proof {
        assert(target@.rewritten =~= Seq::empty());
        assert(target@.programmatic_tools =~= Seq::empty());
        assert(target@.options =~= Seq::empty());
        assert(target@.schemas =~= Seq::empty());
        assert(all.take(0) =~= Seq::empty());
    }
    let mut i: usize = 0;
    while i < declarations.len()
        invariant
            all == json::views(declarations@),
            i <= declarations@.len(),
            all_emitted(plan@, registry@, all.take(i as int)) == Ok::<EmittedView, ErrorView>(
                target@,
            ),
        decreases declarations@.len() - i,
    {
        assert(all.take(i + 1).drop_last() =~= all.take(i as int));
        assert(all.take(i + 1).last() == declarations@[i as int]@);
        match emit(&mut target, plan, registry, &declarations[i]) {
            Ok(_) => {},
            Err(error) => {
                proof {
                    lemma_emission_stops(plan@, registry@, all, i + 1);
                }
                return Err(error);
            },
        }
        i += 1;
    }
    assert(all.take(i as int) =~= all);
    Ok(target)
}

/// Whether a field is there and not null.
pub open spec fn is_set(request: RequestView, field: Seq<char>) -> bool {
    request.rest.get(field) is Some && !(request.rest.get(field)->0 is Null)
}

/// What is wrong with the fields of an active request.
pub open spec fn unsupported_field(request: RequestView) -> Option<ErrorView> {
    if is_set(request, "container"@) {
        Some(
            ErrorView::invalid_request(
                "container"@ + " is not supported while the managed tool runtime is active"@,
            ),
        )
    } else if is_set(request, "mcp_servers"@) {
        Some(
            ErrorView::invalid_request(
                "mcp_servers"@ + " is not supported while the managed tool runtime is active"@,
            ),
        )
    } else {
        None
    }
}

fn field_set(request: &ModelRequest, field: &str) -> (r: bool)
    ensures
        r == is_set(request@, field@),
{
    match request.rest_field(field) {
        Some(found) => !found.is_null(),
        None => false,
    }
}

fn reject_unsupported_request_fields(request: &ModelRequest) -> (r: Option<ToolRuntimeError>)
    ensures
        complaint(r) == unsupported_field(request@),
{
    if field_set(request, "container") {
        let message = joined(
            "container",
            " is not supported while the managed tool runtime is active",
        );
        return Some(ToolRuntimeError::invalid_request(message.as_str()));
    }
    if field_set(request, "mcp_servers") {
        let message = joined(
            "mcp_servers",
            " is not supported while the managed tool runtime is active",
        );
        return Some(ToolRuntimeError::invalid_request(message.as_str()));
    }
    None
}

/// Whether a choice of tools forbids running them at once.
pub open spec fn forbids_parallel(request: RequestView) -> bool {
    match request.rest.get("tool_choice"@) {
        Some(choice) => choice.get("disable_parallel_tool_use"@) == Some(JsonView::Bool(true)),
        None => false,
    }
}

fn parallel_forbidden(request: &ModelRequest) -> (r: bool)
    ensures
        r == forbids_parallel(request@),
{
    match request.rest_field("tool_choice") {
        Some(choice) => match choice.get("disable_parallel_tool_use") {
            Some(Json::Bool(forbidden)) => *forbidden,
            _ => false,
        },
        None => false,
    }
}

pub open spec fn bad_choice() -> ErrorView {
    ErrorView::invalid_request("tool_choice type must be auto, any, none, or tool"@)
}

/// A request whose choice of tools is one that can be honored.
pub open spec fn choice_checked(request: RequestView, plan: PlanView) -> Result<
    RequestView,
    ErrorView,
> {
    let choice = request.rest.get("tool_choice"@);
    let kind = choice->0.text_at("type"@);
    let name = choice->0.text_at("name"@);
    if choice is None || choice->0 is Null {
        Ok(request)
    } else if plan.runs_programs() && forbids_parallel(request) {
        Err(
            ErrorView::invalid_request(
                "tool_choice.disable_parallel_tool_use cannot be combined with programmatic tool calling"@,
            ),
        )
    } else if kind is None {
        Err(bad_choice())
    } else if kind->0 == "auto"@ || kind->0 == "any"@ || kind->0 == "none"@ {
        Ok(request)
    } else if kind->0 != "tool"@ {
        Err(bad_choice())
    } else if name is None {
        Err(ErrorView::invalid_request("tool_choice tool requires a string name"@))
    } else if plan.programmatic_only.contains(name->0) {
        Err(
            ErrorView::invalid_request(
                "tool_choice cannot force "@ + name->0 + ", whose allowed_callers omits direct"@,
            ),
        )
    } else if name->0 == "code_execution"@ {
        if plan.code_execution is Some {
            Ok(
                request.with_field(
                    "tool_choice"@,
                    choice->0.with("name"@, JsonView::Text(CODE_INTERPRETER_FUNCTION@)),
                ),
            )
        } else {
            Err(
                ErrorView::invalid_request(
                    "tool_choice names code_execution, but no code execution tool is declared"@,
                ),
            )
        }
    } else if name->0 == WEB_SEARCH_FUNCTION@ || name->0 == PROGRAMMATIC_FUNCTION@ {
        Err(ErrorView::invalid_request("tool_choice cannot name reserved tool "@ + name->0))
    } else {
        Ok(request)
    }
}

fn validate_tool_choice(request: ModelRequest, plan: &Plan) -> (r: Result<
    ModelRequest,
    ToolRuntimeError,
>)
    ensures
        match r {
            Ok(after) => choice_checked(request@, plan@) == Ok::<RequestView, ErrorView>(after@),
            Err(error) => choice_checked(request@, plan@) == Err::<RequestView, ErrorView>(error@),
        },
{
    let choice = match request.rest_field("tool_choice") {
        Some(choice) => choice.clone(),
        None => {
            return Ok(request);
        },
    };
    if choice.is_null() {
        return Ok(request);
    }
    if plan.programmatic_runtime_needed() && parallel_forbidden(&request) {
        return Err(
            ToolRuntimeError::invalid_request(
                "tool_choice.disable_parallel_tool_use cannot be combined with programmatic tool calling",
            ),
        );
    }
    let kind = match choice.text_at("type") {
        Some(kind) => kind,
        None => {
            return Err(
                ToolRuntimeError::invalid_request(
                    "tool_choice type must be auto, any, none, or tool",
                ),
            );
        },
    };
    if text::same_text(kind, "auto") || text::same_text(kind, "any") || text::same_text(
        kind,
        "none",
    ) {
        return Ok(request);
    }
    if !text::same_text(kind, "tool") {
        return Err(
            ToolRuntimeError::invalid_request("tool_choice type must be auto, any, none, or tool"),
        );
    }
    let name = match choice.text_at("name") {
        Some(name) => name,
        None => {
            return Err(
                ToolRuntimeError::invalid_request("tool_choice tool requires a string name"),
            );
        },
    };
    if text::among_strings(&plan.programmatic_only, name) {
        let message = joined3(
            "tool_choice cannot force ",
            name,
            ", whose allowed_callers omits direct",
        );
        return Err(ToolRuntimeError::invalid_request(message.as_str()));
    }
    if text::same_text(name, "code_execution") {
        if plan.code_execution.is_some() {
            let rewritten = choice.clone().having("name", Json::text(CODE_INTERPRETER_FUNCTION));
            let mut request = request;
            request.replace_rest_field("tool_choice", rewritten);
            return Ok(request);
        }
        return Err(
            ToolRuntimeError::invalid_request(
                "tool_choice names code_execution, but no code execution tool is declared",
            ),
        );
    }
    if text::same_text(name, WEB_SEARCH_FUNCTION) || text::same_text(name, PROGRAMMATIC_FUNCTION) {
        let message = joined("tool_choice cannot name reserved tool ", name);
        return Err(ToolRuntimeError::invalid_request(message.as_str()));
    }
    Ok(request)
}

/// A prepared request over the Messages wire format.
pub struct PreparedMessagesRuntime {
    pub state: ManagedToolState,
    pub canonical_request: ModelRequest,
    pub client_streaming: bool,
    pub accumulated_usage: Option<MessagesUsage>,
}

pub struct PreparedMessagesView {
    pub state: StateView,
    pub request: RequestView,
    pub client_streaming: bool,
    pub usage: Option<MessagesUsageView>,
}

impl PreparedMessagesRuntime {
    pub open spec fn view(&self) -> PreparedMessagesView {
        PreparedMessagesView {
            state: self.state@,
            request: self.canonical_request@,
            client_streaming: self.client_streaming,
            usage: match self.accumulated_usage {
                Some(usage) => Some(usage@),
                None => None,
            },
        }
    }
}

/// Whether a request has tools to manage.
pub enum MessagesActivation {
    Inactive,
    Active(PreparedMessagesRuntime),
}

/// The declaration that offers programs over these tools.
pub open spec fn program_offer(tools: Seq<SpecView>) -> JsonView {
    offered(
        PROGRAMMATIC_FUNCTION@,
        program_words() + serde_value::json_text(JsonView::Array(catalog_entries(tools))),
        schema::one_string("code"@),
    )
}

/// A request that asks for no stream.
pub open spec fn unstreamed(request: RequestView) -> RequestView {
    if request.stream == Some(true) {
        RequestView { stream: Some(false), ..request }
    } else {
        request
    }
}

/// An active request, prepared.
pub open spec fn messages_activated(
    plan: PlanView,
    request: RequestView,
    registry: RegistryView,
    declarations: Seq<JsonView>,
    now: Instant,
) -> Result<PreparedMessagesView, ErrorView> {
    let found = all_emitted(plan, registry, declarations);
    let chosen = choice_checked(request, plan);
    if found is Err {
        Err(found->Err_0)
    } else if let Some(error) = unsupported_field(request) {
        Err(error)
    } else if chosen is Err {
        Err(chosen->Err_0)
    } else {
        let known = RegistryView {
            tools: with_all(registry.tools, found->Ok_0.options, found->Ok_0.schemas),
            ..registry
        };
        match with_programmatic_tools(
            bare_state(
                known,
                !forbids_parallel(chosen->Ok_0),
                deadline_from(now, registry.limits),
                plan.runs_programs(),
                0,
            ),
            found->Ok_0.programmatic_tools,
        ) {
            Err(error) => Err(error),
            Ok(state) => {
                let offers = plan.runs_programs() && state.programmatic_tools.len() > 0;
                if offers && catalog_size(state.programmatic_tools)
                    > PROGRAMMATIC_MAX_CATALOG_BYTES {
                    Err(catalog_too_large())
                } else {
                    Ok(
                        PreparedMessagesView {
                            state,
                            request: unstreamed(chosen->Ok_0).with_field(
                                "tools"@,
                                JsonView::Array(
                                    if offers {
                                        found->Ok_0.rewritten.push(
                                            program_offer(state.programmatic_tools),
                                        )
                                    } else {
                                        found->Ok_0.rewritten
                                    },
                                ),
                            ),
                            client_streaming: request.stream == Some(true),
                            usage: None,
                        },
                    )
                }
            },
        }
    }
}

/// A request, prepared where it is active.
pub open spec fn messages_prepared(
    request: RequestView,
    registry: Option<RegistryView>,
    now: Instant,
) -> Result<Option<PreparedMessagesView>, ErrorView> {
    match request.rest.get("tools"@) {
        Some(JsonView::Array(declarations)) => match planned(registry, declarations) {
            Err(error) => Err(error),
            Ok(plan) => if !plan.activates() {
                Ok(None)
            } else if registry is None {
                Err(
                    ErrorView::invalid_request(
                        "managed tools require llm.toolRuntime configuration"@,
                    ),
                )
            } else {
                match messages_activated(plan, request, registry->0, declarations, now) {
                    Ok(runtime) => Ok(Some(runtime)),
                    Err(error) => Err(error),
                }
            },
        },
        _ => Ok(None),
    }
}

pub open spec fn messages_activation(r: Result<MessagesActivation, ToolRuntimeError>) -> Result<
    Option<PreparedMessagesView>,
    ErrorView,
> {
    match r {
        Ok(MessagesActivation::Inactive) => Ok(None),
        Ok(MessagesActivation::Active(runtime)) => Ok(Some(runtime@)),
        Err(error) => Err(error@),
    }
}

fn activate(
    plan: &Plan,
    request: &ModelRequest,
    registry: &ToolRegistry,
    declarations: &Vec<Json>,
    now: Instant,
) -> (r: Result<PreparedMessagesRuntime, ToolRuntimeError>)
    ensures
        match r {
            Ok(runtime) => messages_activated(
                plan@,
                request@,
                registry@,
                json::views(declarations@),
                now,
            ) == Ok::<PreparedMessagesView, ErrorView>(runtime@),
            Err(error) => messages_activated(
                plan@,
                request@,
                registry@,
                json::views(declarations@),
                now,
            ) == Err::<PreparedMessagesView, ErrorView>(error@),
        },
{
    let found = match emit_all(plan, registry, declarations) {
        Ok(found) => found,
        Err(error) => {
            return Err(error);
        },
    };
    if let Some(error) = reject_unsupported_request_fields(request) {
        return Err(error);
    }
    let mut chosen = match validate_tool_choice(request.clone(), plan) {
        Ok(chosen) => chosen,
        Err(error) => {
            return Err(error);
        },
    };
    let parallel = !parallel_forbidden(&chosen);
    let client_streaming = match chosen.stream {
        Some(true) => true,
        _ => false,
    };
    if client_streaming {
        chosen.stream = Some(false);
    }
    let known = registry.with_request_data(&found.options, &found.schemas);
    let no_tools: Vec<ProgrammaticToolSpec> = Vec::new();
    assert(spec_views(no_tools@) =~= Seq::empty());
    let state = ManagedToolState {
        registry: known,
        parallel,
        deadline: now.after(registry.limits().total_timeout),
        programmatic_requested: plan.programmatic_runtime_needed(),
        programmatic_tools: no_tools,
        programmatic_catalog_bytes: 0,
    };
    proof {
        crate::runtime::lemma_programmatic_tools_keep(
            state@,
            spec_views(found.programmatic_tools@),
        );
    }
    let state = match insert_programmatic_tools(state, found.programmatic_tools) {
        Ok(state) => state,
        Err(error) => {
            return Err(error);
        },
    };
    let mut rewritten = found.rewritten;
    match state.programmatic_catalog_json() {
        Ok(Some(catalog)) => {
            push_offer(
                &mut rewritten,
                offer(
                    PROGRAMMATIC_FUNCTION,
                    program_description(catalog.as_str()).as_str(),
                    schema::code_interpreter_parameters(),
                ),
            );
        },
        Ok(None) => {},
        Err(error) => {
            return Err(error);
        },
    }
    chosen.replace_rest_field("tools", Json::array(rewritten));
    Ok(
        PreparedMessagesRuntime {
            state,
            canonical_request: chosen,
            client_streaming,
            accumulated_usage: None,
        },
    )
}

/// Prepares a request for the managed runtime, where it declares anything that is managed.
pub fn prepare(request: &ModelRequest, registry: Option<&ToolRegistry>, now: Instant) -> (r: Result<
    MessagesActivation,
    ToolRuntimeError,
>)
    ensures
        messages_activation(r) == messages_prepared(request@, registry_view(registry), now),
{
    let found = match request.rest_field("tools") {
        Some(tools) => tools.as_array(),
        None => None,
    };
    let declarations = match found {
        Some(declarations) => declarations,
        None => {
            return Ok(MessagesActivation::Inactive);
        },
    };
    let plan = match make_plan(registry, declarations) {
        Ok(plan) => plan,
        Err(error) => {
            return Err(error);
        },
    };
    if !plan.activates() {
        return Ok(MessagesActivation::Inactive);
    }
    match registry {
        Some(registry) => match activate(&plan, request, registry, declarations, now) {
            Ok(runtime) => Ok(MessagesActivation::Active(runtime)),
            Err(error) => Err(error),
        },
        None => Err(
            ToolRuntimeError::invalid_request(
                "managed tools require llm.toolRuntime configuration",
            ),
        ),
    }
}

/// The rounds of a managed request are never streamed, whether or not its client asked for a
/// stream, and the client's wish is kept.
pub proof fn prepared_messages_are_not_streamed(
    request: RequestView,
    registry: Option<RegistryView>,
    now: Instant,
)
    ensures
        match messages_prepared(request, registry, now) {
            Ok(Some(runtime)) => {
                &&& runtime.request.stream != Some(true)
                &&& runtime.client_streaming == (request.stream == Some(true))
                &&& runtime.request.history == request.history
            },
            _ => true,
        },
{
}

} // verus!
