//! Client declarations of tools, as the managed runtime understands them.

use vstd::prelude::*;
use vstd::string::*;
use crate::config::{optional_text, CODE_INTERPRETER_FUNCTION, RESERVED_PREFIX, WEB_SEARCH_FUNCTION};
use crate::conversation::{spec_views, ProgrammaticToolSpec, SpecView};
use crate::decode::{
    callers_allowed, caller_list, present, present_field, read_caller_list, read_record,
    read_text_list, read_variant, AllowedCallers,
};
use crate::error::{complaint, joined, joined3, ErrorView, ToolRuntimeError};
use crate::fields::{
    caller_list_complaint, check_caller_list, lemma_callers_are_read,
    lemma_fields_are_of_their_kinds, lemma_mcp_fields, lemma_namespace_fields,
    lemma_texts_are_read, lemma_web_search_fields, DeclarationKind,
};
use crate::json::{Json, JsonView};
use crate::registry::{optional_json, schema_views, RegistryView, ToolRegistry};
use crate::schema::ArgumentSchema;
use crate::url::{parse_url, url_parsed, UrlParts, UrlView};
use crate::{decode, json, schema, text};

verus! {

pub const MAX_TOOL_NAME_BYTES: usize = 128;

pub const MAX_DESCRIPTION_BYTES: usize = 4096;

pub const MAX_SERVER_LABEL_BYTES: usize = 128;

pub const MAX_ALLOWED_TOOLS: usize = 128;

/// A remote server whose tools a request imports. The text of the authorization is secret.
pub struct RemoteMcpServer {
    pub server_label: String,
    pub server_description: Option<String>,
    pub server_url: String,
    pub authorization: Option<String>,
    pub allowed_tools: Option<Vec<String>>,
    pub allowed_callers: AllowedCallers,
    pub defer_loading: bool,
}

pub struct ServerView {
    pub server_label: Seq<char>,
    pub server_description: Option<Seq<char>>,
    pub server_url: Seq<char>,
    pub authorization: Option<Seq<char>>,
    pub allowed_tools: Option<Seq<Seq<char>>>,
    pub allowed_callers: AllowedCallers,
    pub defer_loading: bool,
}

pub open spec fn optional_texts(list: Option<Vec<String>>) -> Option<Seq<Seq<char>>> {
    match list {
        Some(list) => Some(text::strings(list@)),
        None => None,
    }
}

impl RemoteMcpServer {
    pub open spec fn view(&self) -> ServerView {
        ServerView {
            server_label: self.server_label@,
            server_description: optional_text(self.server_description),
            server_url: self.server_url@,
            authorization: optional_text(self.authorization),
            allowed_tools: optional_texts(self.allowed_tools),
            allowed_callers: self.allowed_callers,
            defer_loading: self.defer_loading,
        }
    }
}

pub open spec fn server_views(servers: Seq<RemoteMcpServer>) -> Seq<ServerView> {
    Seq::new(servers.len(), |i: int| servers[i].view())
}

/// A tool that a model finds by searching.
pub struct DeferredTool {
    pub internal_name: String,
    pub public_name: String,
    pub label: Option<String>,
    pub description: String,
    pub declaration: Json,
}

pub struct DeferredView {
    pub internal_name: Seq<char>,
    pub public_name: Seq<char>,
    pub label: Option<Seq<char>>,
    pub description: Seq<char>,
    pub declaration: JsonView,
}

impl DeferredTool {
    pub open spec fn view(&self) -> DeferredView {
        DeferredView {
            internal_name: self.internal_name@,
            public_name: self.public_name@,
            label: optional_text(self.label),
            description: self.description@,
            declaration: self.declaration@,
        }
    }
}

pub open spec fn deferred_views(tools: Seq<DeferredTool>) -> Seq<DeferredView> {
    Seq::new(tools.len(), |i: int| tools[i].view())
}

/// The first key of an object that is not among `allowed`.
fn other_key<'a>(value: &'a Json, allowed: &Vec<&str>) -> (r: Option<&'a str>)
    requires
        value@ is Object,
    ensures
        match r {
            Some(key) => json::first_other_key(value@->Object_0, text::texts(allowed@)) == Some(
                key@,
            ),
            None => json::first_other_key(value@->Object_0, text::texts(allowed@)) is None,
        },
{
    match value.as_object() {
        Some(object) => object.first_other_key(allowed),
        None => None,
    }
}

/// Whether a field is absent, null or a string.
pub open spec fn text_or_absent(value: JsonView, key: Seq<char>) -> bool {
    match present(value, key) {
        Some(found) => found is Text,
        None => true,
    }
}

/// The text of a field that is a string.
pub open spec fn optional_text_at(value: JsonView, key: Seq<char>) -> Option<Seq<char>> {
    match present(value, key) {
        Some(JsonView::Text(s)) => Some(s),
        _ => None,
    }
}

/// An optional string field, or nothing where it is something else.
fn read_optional_text(value: &Json, key: &str) -> (r: Option<Option<String>>)
    ensures
        r is Some <==> text_or_absent(value@, key@),
        r is Some ==> optional_text(r->0) == optional_text_at(value@, key@),
{
    match present_field(value, key) {
        Some(found) => match found.as_str() {
            Some(s) => Some(Some(s.to_owned())),
            None => None,
        },
        None => Some(None),
    }
}

pub open spec fn flag_at(value: JsonView, key: Seq<char>) -> bool {
    present(value, key) == Some(JsonView::Bool(true))
}

/// A field that is true; one that is absent, null or anything else is not.
fn flag_of(value: &Json, key: &str) -> (r: bool)
    ensures
        r == flag_at(value@, key@),
{
    match present_field(value, key) {
        Some(Json::Bool(flag)) => *flag,
        _ => false,
    }
}

/// The text of a field that is a string.
fn optional_text_of(value: &Json, key: &str) -> (r: Option<String>)
    ensures
        optional_text(r) == optional_text_at(value@, key@),
{
    match present_field(value, key) {
        Some(Json::Text(s)) => Some(s.clone()),
        _ => None,
    }
}

fn is_text(found: Option<&str>, wanted: &str) -> (r: bool)
    ensures
        r == (match found {
            Some(s) => s@ == wanted@,
            None => false,
        }),
{
    match found {
        Some(s) => text::same_text(s, wanted),
        None => false,
    }
}

/// The fields of a location.
pub open spec fn location_keys() -> Seq<Seq<char>> {
    seq!["type"@, "country"@, "region"@, "city"@, "timezone"@]
}

/// An object to which an optional text is added.
pub open spec fn with_text(value: JsonView, key: Seq<char>, s: Option<Seq<char>>) -> JsonView {
    match s {
        Some(s) => value.with(key, JsonView::Text(s)),
        None => value,
    }
}

fn add_text(value: Json, key: &str, s: Option<String>) -> (r: Json)
    ensures
        r@ == with_text(value@, key@, optional_text(s)),
{
    match s {
        Some(s) => value.having(key, Json::Text(s)),
        None => value,
    }
}

/// An approximate location, as it is handed to a search backend.
pub open spec fn approximate_location(found: JsonView) -> JsonView {
    with_text(
        with_text(
            with_text(
                with_text(
                    JsonView::empty().with("type"@, JsonView::Text("approximate"@)),
                    "country"@,
                    optional_text_at(found, "country"@),
                ),
                "region"@,
                optional_text_at(found, "region"@),
            ),
            "city"@,
            optional_text_at(found, "city"@),
        ),
        "timezone"@,
        optional_text_at(found, "timezone"@),
    )
}

/// Whether the parts of a location are strings.
pub open spec fn location_texts(found: JsonView) -> bool {
    text_or_absent(found, "country"@) && text_or_absent(found, "region"@) && text_or_absent(
        found,
        "city"@,
    ) && text_or_absent(found, "timezone"@)
}

pub fn read_location(found: &Json) -> (r: Option<Json>)
    ensures
        r is Some <==> location_texts(found@),
        r is Some ==> r->0@ == approximate_location(found@),
{
    let country = match read_optional_text(found, "country") {
        Some(s) => s,
        None => {
            return None;
        },
    };
    let region = match read_optional_text(found, "region") {
        Some(s) => s,
        None => {
            return None;
        },
    };
    let city = match read_optional_text(found, "city") {
        Some(s) => s,
        None => {
            return None;
        },
    };
    let timezone = match read_optional_text(found, "timezone") {
        Some(s) => s,
        None => {
            return None;
        },
    };
    let location = Json::object().having("type", Json::text("approximate"));
    let location = add_text(location, "country", country);
    let location = add_text(location, "region", region);
    let location = add_text(location, "city", city);
    Some(add_text(location, "timezone", timezone))
}

/// The location in a search declaration.
pub open spec fn declared_location(value: JsonView) -> Option<JsonView> {
    match decode::record(value, location_keys()) {
        Some(found) => if json::first_other_key(found->Object_0, location_keys()) is None && (
        present(found, "type"@) is None || decode::variant(present(found, "type"@)->0) == Some(
            "approximate"@,
        )) && location_texts(found) {
            Some(approximate_location(found))
        } else {
            None
        },
        None => None,
    }
}

pub fn read_declared_location(value: &Json) -> (r: Option<Json>)
    ensures
        match r {
            Some(location) => declared_location(value@) == Some(location@),
            None => declared_location(value@) is None,
        },
{
    let keys = vec!["type", "country", "region", "city", "timezone"];
    assert(text::texts(keys@) =~= location_keys());
    let found = match read_record(value, &keys) {
        Some(found) => found,
        None => {
            return None;
        },
    };
    if other_key(&found, &keys).is_some() {
        return None;
    }
    match present_field(&found, "type") {
        Some(kind) => match read_variant(kind) {
            Some(name) => {
                if !text::same_text(name, "approximate") {
                    return None;
                }
            },
            None => {
                return None;
            },
        },
        None => {},
    }
    read_location(&found)
}

/// The domains in the filters of a search declaration: none, or a list; nothing where the filters
/// are malformed.
pub open spec fn declared_domains(value: JsonView) -> Option<Option<JsonView>> {
    match decode::record(value, seq!["allowed_domains"@]) {
        Some(found) => if json::first_other_key(found->Object_0, seq!["allowed_domains"@]) is Some {
            None
        } else {
            match present(found, "allowed_domains"@) {
                None => Some(None),
                Some(domains) => if decode::text_list(domains) is Some {
                    Some(Some(domains))
                } else {
                    None
                },
            }
        },
        None => None,
    }
}

pub fn read_declared_domains(value: &Json) -> (r: Option<Option<Json>>)
    ensures
        match r {
            Some(domains) => declared_domains(value@) == Some(optional_json(domains)),
            None => declared_domains(value@) is None,
        },
{
    let keys = vec!["allowed_domains"];
    assert(text::texts(keys@) =~= seq!["allowed_domains"@]);
    let found = match read_record(value, &keys) {
        Some(found) => found,
        None => {
            return None;
        },
    };
    if other_key(&found, &keys).is_some() {
        return None;
    }
    match present_field(&found, "allowed_domains") {
        None => Some(None),
        Some(domains) => {
            if read_text_list(domains).is_some() {
                Some(Some(domains.clone()))
            } else {
                None
            }
        },
    }
}

pub open spec fn is_context_size(name: Seq<char>) -> bool {
    name == "low"@ || name == "medium"@ || name == "high"@
}

/// The name of a context size, where the value is one.
pub fn read_context_size(value: &Json) -> (r: Option<&str>)
    ensures
        match r {
            Some(name) => decode::variant(value@) == Some(name@) && is_context_size(name@),
            None => !(decode::variant(value@) is Some && is_context_size(
                decode::variant(value@)->0,
            )),
        },
{
    match read_variant(value) {
        Some(name) => {
            if text::same_text(name, "low") || text::same_text(name, "medium") || text::same_text(
                name,
                "high",
            ) {
                Some(name)
            } else {
                None
            }
        },
        None => None,
    }
}

/// An object to which an optional value is added.
pub open spec fn with_value(value: JsonView, key: Seq<char>, found: Option<JsonView>) -> JsonView {
    match found {
        Some(found) => value.with(key, found),
        None => value,
    }
}

/// The options of a search declaration, and who may call the search.
pub open spec fn web_search_declared(declaration: JsonView) -> Result<
    (JsonView, AllowedCallers),
    ErrorView,
> {
    let filters = present(declaration, "filters"@);
    let size = present(declaration, "search_context_size"@);
    let location = present(declaration, "user_location"@);
    let callers = present(declaration, "allowed_callers"@);
    if let Some(error) = DeclarationKind::WebSearch.malformed(declaration) {
        Err(error)
    } else if declaration.text_at("type"@) != Some("web_search"@) {
        Err(ErrorView::invalid_request("web_search declaration requires type web_search"@))
    } else {
        let options = with_value(
            with_text(
                with_value(
                    JsonView::empty(),
                    "allowed_domains"@,
                    if filters is Some {
                        declared_domains(filters->0)->0
                    } else {
                        None
                    },
                ),
                "search_context_size"@,
                if size is Some {
                    decode::variant(size->0)
                } else {
                    None
                },
            ),
            "user_location"@,
            if location is Some {
                declared_location(location->0)
            } else {
                None
            },
        );
        match callers_allowed(
            if callers is Some {
                caller_list(callers->0)
            } else {
                None
            },
            false,
        ) {
            Ok(allowed) => Ok((options, allowed)),
            Err(error) => Err(error),
        }
    }
}

fn web_search_options(declaration: &Json) -> (r: Result<(Json, AllowedCallers), ToolRuntimeError>)
    requires
        declaration@ is Object,
    ensures
        match r {
            Ok((options, callers)) => web_search_declared(declaration@) == Ok::<
                (JsonView, AllowedCallers),
                ErrorView,
            >((options@, callers)),
            Err(error) => web_search_declared(declaration@) == Err::<
                (JsonView, AllowedCallers),
                ErrorView,
            >(error@),
        },
{
    if let Some(error) = DeclarationKind::WebSearch.check(declaration) {
        return Err(error);
    }
    proof {
        let fields = declaration@->Object_0;
        let kind = DeclarationKind::WebSearch;
        lemma_fields_are_of_their_kinds(kind, fields, "filters"@);
        lemma_fields_are_of_their_kinds(kind, fields, "search_context_size"@);
        lemma_fields_are_of_their_kinds(kind, fields, "user_location"@);
        lemma_fields_are_of_their_kinds(kind, fields, "allowed_callers"@);
        lemma_web_search_fields();
    }
    if !is_text(declaration.text_at("type"), "web_search") {
        return Err(
            ToolRuntimeError::invalid_request("web_search declaration requires type web_search"),
        );
    }
    let mut options = Json::object();
    if let Some(filters) = present_field(declaration, "filters") {
        if let Some(Some(domains)) = read_declared_domains(filters) {
            options.set("allowed_domains", domains);
        }
    }
    if let Some(size) = present_field(declaration, "search_context_size") {
        if let Some(name) = read_context_size(size) {
            options.set("search_context_size", Json::text(name));
        }
    }
    if let Some(location) = present_field(declaration, "user_location") {
        if let Some(location) = read_declared_location(location) {
            options.set("user_location", location);
        }
    }
    let callers = match present_field(declaration, "allowed_callers") {
        Some(callers) => {
            proof {
                lemma_callers_are_read(callers@);
            }
            read_caller_list(callers)
        },
        None => None,
    };
    match decode::parse_allowed_callers(callers, false) {
        Ok(allowed) => Ok((options, allowed)),
        Err(error) => Err(error),
    }
}

pub open spec fn code_interpreter_keys() -> Seq<Seq<char>> {
    seq!["type"@, "container"@, "allowed_callers"@]
}

/// Whether a container is `{ type: auto }`.
pub open spec fn is_auto_container(container: Option<JsonView>) -> bool {
    match container {
        Some(JsonView::Object(fields)) => fields.len() == 1 && json::field(fields, "type"@) == Some(
            JsonView::Text("auto"@),
        ),
        _ => false,
    }
}

/// Who may call the code interpreter that a declaration asks for.
pub open spec fn code_interpreter_declared(declaration: JsonView) -> Result<
    AllowedCallers,
    ErrorView,
> {
    let other = json::first_other_key(declaration->Object_0, code_interpreter_keys());
    let callers = declaration.get("allowed_callers"@);
    if other is Some {
        Err(ErrorView::invalid_request("unsupported code_interpreter option "@ + other->0))
    } else if !is_auto_container(declaration.get("container"@)) {
        Err(ErrorView::invalid_request("code_interpreter container must be { type: auto }"@))
    } else if callers is Some && caller_list_complaint(callers->0) is Some {
        Err(
            ErrorView::invalid_request(
                "invalid code_interpreter allowed_callers: "@ + caller_list_complaint(
                    callers->0,
                )->0,
            ),
        )
    } else {
        callers_allowed(
            if callers is Some {
                caller_list(callers->0)
            } else {
                None
            },
            false,
        )
    }
}

fn code_interpreter_options(declaration: &Json) -> (r: Result<AllowedCallers, ToolRuntimeError>)
    requires
        declaration@ is Object,
    ensures
        decode::callers_result(r) == code_interpreter_declared(declaration@),
{
    let keys = vec!["type", "container", "allowed_callers"];
    assert(text::texts(keys@) =~= code_interpreter_keys());
    if let Some(key) = other_key(declaration, &keys) {
        let message = joined("unsupported code_interpreter option ", key);
        return Err(ToolRuntimeError::invalid_request(message.as_str()));
    }
    let automatic = match declaration.get("container") {
        Some(Json::Object(container)) => {
            if container.len() != 1 {
                false
            } else {
                match container.get("type") {
                    Some(Json::Text(s)) => text::same_text(s.as_str(), "auto"),
                    _ => false,
                }
            }
        },
        _ => false,
    };
    if !automatic {
        return Err(
            ToolRuntimeError::invalid_request("code_interpreter container must be { type: auto }"),
        );
    }
    let callers = match declaration.get("allowed_callers") {
        Some(callers) => {
            if let Some(why) = check_caller_list(callers) {
                let message = joined("invalid code_interpreter allowed_callers: ", why.as_str());
                return Err(ToolRuntimeError::invalid_request(message.as_str()));
            }
            proof {
                lemma_callers_are_read(callers@);
            }
            read_caller_list(callers)
        },
        None => None,
    };
    decode::parse_allowed_callers(callers, false)
}

/// What is wrong with the URL of a remote server.
pub open spec fn server_url_complaint(parts: Option<UrlView>) -> Option<ErrorView> {
    match parts {
        None => Some(ErrorView::invalid_request("mcp server_url must be a valid HTTPS URL"@)),
        Some(url) => if url.scheme != "https"@ || url.host is None || url.username.len() > 0
            || url.password is Some || url.fragment is Some {
            Some(
                ErrorView::invalid_request(
                    "mcp server_url must be a valid HTTPS URL without userinfo or a fragment"@,
                ),
            )
        } else {
            None
        },
    }
}

/// What is wrong with the parts of the URL of a remote server.
pub fn check_server_url(parts: &Option<UrlParts>) -> (r: Option<ToolRuntimeError>)
    ensures
        complaint(r) == server_url_complaint(
            match *parts {
                Some(parts) => Some(parts@),
                None => None,
            },
        ),
{
    match parts {
        None => Some(ToolRuntimeError::invalid_request("mcp server_url must be a valid HTTPS URL")),
        Some(url) => {
            if !text::same_text(url.scheme.as_str(), "https") || url.host.is_none()
                || !url.username.as_str().is_empty() || url.password.is_some()
                || url.fragment.is_some() {
                Some(
                    ToolRuntimeError::invalid_request(
                        "mcp server_url must be a valid HTTPS URL without userinfo or a fragment",
                    ),
                )
            } else {
                None
            }
        },
    }
}

/// Whether names of tools are few, short and different.
pub open spec fn are_tool_names(names: Seq<Seq<char>>) -> bool {
    &&& 0 < names.len() <= MAX_ALLOWED_TOOLS
    &&& names.no_duplicates()
    &&& forall|i: int|
        0 <= i < names.len() ==> (#[trigger] names[i]).len() > 0 && text::byte_len(names[i])
            <= MAX_TOOL_NAME_BYTES
}

fn check_tool_names(names: &Vec<String>) -> (r: bool)
    ensures
        r == are_tool_names(text::strings(names@)),
{
    let ghost views = text::strings(names@);
    if names.len() == 0 || names.len() > MAX_ALLOWED_TOOLS {
        return false;
    }
    let mut seen: Vec<String> = Vec::new();
    let mut i: usize = 0;
    while i < names.len()
        invariant
            views == text::strings(names@),
            i <= names@.len() <= MAX_ALLOWED_TOOLS,
            text::strings(seen@) == views.take(i as int),
            views.take(i as int).no_duplicates(),
            forall|j: int|
                0 <= j < i ==> (#[trigger] views[j]).len() > 0 && text::byte_len(views[j])
                    <= MAX_TOOL_NAME_BYTES,
        decreases names@.len() - i,
    {
        let name = names[i].as_str();
        assert(views[i as int] == name@);
        if name.is_empty() || text::byte_length(name) > MAX_TOOL_NAME_BYTES {
            return false;
        }
        if text::among_strings(&seen, name) {
            proof {
                let k = choose|k: int| 0 <= k < i && views.take(i as int)[k] == name@;
                assert(views[k] == views[i as int]);
            }
            return false;
        }
        proof {
            text::lemma_push_distinct(views.take(i as int), name@);
            assert(views.take(i + 1) =~= views.take(i as int).push(name@));
        }
        seen.push(name.to_owned());
        assert(text::strings(seen@) =~= views.take(i + 1));
        i += 1;
    }
    assert(views.take(i as int) =~= views);
    true
}

/// Whether an approval mode asks nobody.
pub open spec fn needs_no_approval(mode: Option<JsonView>) -> bool {
    mode == Some(JsonView::Text("never"@)) || mode == Some(JsonView::Text("auto"@))
}

/// The remote server that a declaration asks for.
pub open spec fn mcp_declared(declaration: JsonView) -> Result<ServerView, ErrorView> {
    let tools = present(declaration, "allowed_tools"@);
    let callers = present(declaration, "allowed_callers"@);
    let label = declaration.text_at("server_label"@);
    let url = declaration.text_at("server_url"@);
    let description = optional_text_at(declaration, "server_description"@);
    if let Some(error) = DeclarationKind::Mcp.malformed(declaration) {
        Err(error)
    } else if declaration.text_at("type"@) != Some("mcp"@) {
        Err(ErrorView::invalid_request("mcp declaration requires type mcp"@))
    } else if label->0.len() == 0 || text::byte_len(label->0) > MAX_SERVER_LABEL_BYTES {
        Err(ErrorView::invalid_request("mcp server_label must contain 1 to 128 bytes"@))
    } else if description is Some && text::byte_len(description->0) > MAX_DESCRIPTION_BYTES {
        Err(ErrorView::invalid_request("mcp server_description exceeds the 4096-byte limit"@))
    } else if let Some(error) = server_url_complaint(url_parsed(url->0)) {
        Err(error)
    } else if !needs_no_approval(declaration.get("require_approval"@)) {
        Err(ErrorView::invalid_request("mcp require_approval must be auto or never"@))
    } else if tools is Some && !are_tool_names(decode::text_list(tools->0)->0) {
        Err(
            ErrorView::invalid_request(
                "mcp allowed_tools must contain 1 to 128 unique names of at most 128 bytes"@,
            ),
        )
    } else {
        match callers_allowed(
            if callers is Some {
                caller_list(callers->0)
            } else {
                None
            },
            false,
        ) {
            Err(error) => Err(error),
            Ok(allowed) => if flag_at(declaration, "defer_loading"@) && allowed.programmatic {
                Err(
                    ErrorView::invalid_request(
                        "defer_loading cannot be combined with programmatic allowed_callers"@,
                    ),
                )
            } else {
                Ok(
                    ServerView {
                        server_label: label->0,
                        server_description: description,
                        server_url: url->0,
                        authorization: optional_text_at(declaration, "authorization"@),
                        allowed_tools: if tools is Some {
                            decode::text_list(tools->0)
                        } else {
                            None
                        },
                        allowed_callers: allowed,
                        defer_loading: flag_at(declaration, "defer_loading"@),
                    },
                )
            },
        }
    }
}

pub open spec fn server_result(r: Result<RemoteMcpServer, ToolRuntimeError>) -> Result<
    ServerView,
    ErrorView,
> {
    match r {
        Ok(server) => Ok(server@),
        Err(error) => Err(error@),
    }
}

/// Reads the remote server that a declaration asks for.
pub fn remote_mcp_options(declaration: &Json) -> (r: Result<RemoteMcpServer, ToolRuntimeError>)
    requires
        declaration@ is Object,
    ensures
        server_result(r) == mcp_declared(declaration@),
{
    if let Some(error) = DeclarationKind::Mcp.check(declaration) {
        return Err(error);
    }
    proof {
        let fields = declaration@->Object_0;
        let kind = DeclarationKind::Mcp;
        lemma_fields_are_of_their_kinds(kind, fields, "server_label"@);
        lemma_fields_are_of_their_kinds(kind, fields, "server_url"@);
        lemma_fields_are_of_their_kinds(kind, fields, "server_description"@);
        lemma_fields_are_of_their_kinds(kind, fields, "authorization"@);
        lemma_fields_are_of_their_kinds(kind, fields, "allowed_tools"@);
        lemma_fields_are_of_their_kinds(kind, fields, "allowed_callers"@);
        lemma_fields_are_of_their_kinds(kind, fields, "defer_loading"@);
        lemma_mcp_fields();
    }
    if !is_text(declaration.text_at("type"), "mcp") {
        return Err(ToolRuntimeError::invalid_request("mcp declaration requires type mcp"));
    }
    let label = declaration.text_at("server_label").unwrap();
    let server_description = optional_text_of(declaration, "server_description");
    let url = declaration.text_at("server_url").unwrap();
    let authorization = optional_text_of(declaration, "authorization");
    let allowed_tools = match present_field(declaration, "allowed_tools") {
        Some(tools) => {
            proof {
                lemma_texts_are_read(tools@->Array_0);
            }
            read_text_list(tools)
        },
        None => None,
    };
    let callers = match present_field(declaration, "allowed_callers") {
        Some(callers) => {
            proof {
                lemma_callers_are_read(callers@);
            }
            read_caller_list(callers)
        },
        None => None,
    };
    let defer_loading = flag_of(declaration, "defer_loading");
    if label.is_empty() || text::byte_length(label) > MAX_SERVER_LABEL_BYTES {
        return Err(
            ToolRuntimeError::invalid_request("mcp server_label must contain 1 to 128 bytes"),
        );
    }
    match &server_description {
        Some(description) => {
            if text::byte_length(description.as_str()) > MAX_DESCRIPTION_BYTES {
                return Err(
                    ToolRuntimeError::invalid_request(
                        "mcp server_description exceeds the 4096-byte limit",
                    ),
                );
            }
        },
        None => {},
    }
    if let Some(error) = check_server_url(&parse_url(url)) {
        return Err(error);
    }
    let approved = match declaration.get("require_approval") {
        Some(Json::Text(mode)) => text::same_text(mode.as_str(), "never") || text::same_text(
            mode.as_str(),
            "auto",
        ),
        _ => false,
    };
    if !approved {
        return Err(ToolRuntimeError::invalid_request("mcp require_approval must be auto or never"));
    }
    match &allowed_tools {
        Some(names) => {
            if !check_tool_names(names) {
                return Err(
                    ToolRuntimeError::invalid_request(
                        "mcp allowed_tools must contain 1 to 128 unique names of at most 128 bytes",
                    ),
                );
            }
        },
        None => {},
    }
    let allowed_callers = match decode::parse_allowed_callers(callers, false) {
        Ok(allowed) => allowed,
        Err(error) => {
            return Err(error);
        },
    };
    if defer_loading && allowed_callers.programmatic {
        return Err(
            ToolRuntimeError::invalid_request(
                "defer_loading cannot be combined with programmatic allowed_callers",
            ),
        );
    }
    Ok(
        RemoteMcpServer {
            server_label: label.to_owned(),
            server_description,
            server_url: url.to_owned(),
            authorization,
            allowed_tools,
            allowed_callers,
            defer_loading,
        },
    )
}

/// What the declarations of a request came to so far.
pub struct Declared {
    pub function_names: Vec<String>,
    pub managed_function: bool,
    pub builtin_types: Vec<String>,
    pub builtin: bool,
    pub programmatic: bool,
    pub tool_search: bool,
    pub servers: Vec<RemoteMcpServer>,
    pub rewritten: Vec<Json>,
    pub options: Vec<(String, Json)>,
    pub schemas: Vec<(String, ArgumentSchema)>,
    pub programmatic_tools: Vec<ProgrammaticToolSpec>,
    pub deferred: Vec<DeferredTool>,
}

pub struct DeclaredView {
    pub function_names: Seq<Seq<char>>,
    pub managed_function: bool,
    pub builtin_types: Seq<Seq<char>>,
    pub builtin: bool,
    pub programmatic: bool,
    pub tool_search: bool,
    pub servers: Seq<ServerView>,
    pub rewritten: Seq<JsonView>,
    pub options: Seq<(Seq<char>, JsonView)>,
    pub schemas: Seq<(Seq<char>, JsonView)>,
    pub programmatic_tools: Seq<SpecView>,
    pub deferred: Seq<DeferredView>,
}

impl Declared {
    pub open spec fn view(&self) -> DeclaredView {
        DeclaredView {
            function_names: text::strings(self.function_names@),
            managed_function: self.managed_function,
            builtin_types: text::strings(self.builtin_types@),
            builtin: self.builtin,
            programmatic: self.programmatic,
            tool_search: self.tool_search,
            servers: server_views(self.servers@),
            rewritten: json::views(self.rewritten@),
            options: json::entry_views(self.options@),
            schemas: schema_views(self.schemas@),
            programmatic_tools: spec_views(self.programmatic_tools@),
            deferred: deferred_views(self.deferred@),
        }
    }

    fn none() -> (r: Declared)
        ensures
            r@ == DeclaredView::none(),
    {
        let r = Declared {
            function_names: Vec::new(),
            managed_function: false,
            builtin_types: Vec::new(),
            builtin: false,
            programmatic: false,
            tool_search: false,
            servers: Vec::new(),
            rewritten: Vec::new(),
            options: Vec::new(),
            schemas: Vec::new(),
            programmatic_tools: Vec::new(),
            deferred: Vec::new(),
        };
        proof {
            let none = DeclaredView::none();
            assert(r@.function_names =~= none.function_names);
            assert(r@.builtin_types =~= none.builtin_types);
            assert(r@.servers =~= none.servers);
            assert(r@.rewritten =~= none.rewritten);
            assert(r@.options =~= none.options);
            assert(r@.schemas =~= none.schemas);
            assert(r@.programmatic_tools =~= none.programmatic_tools);
            assert(r@.deferred =~= none.deferred);
        }
        r
    }
}

impl DeclaredView {
    /// Nothing declared yet.
    pub open spec fn none() -> DeclaredView {
        DeclaredView {
            function_names: Seq::empty(),
            managed_function: false,
            builtin_types: Seq::empty(),
            builtin: false,
            programmatic: false,
            tool_search: false,
            servers: Seq::empty(),
            rewritten: Seq::empty(),
            options: Seq::empty(),
            schemas: Seq::empty(),
            programmatic_tools: Seq::empty(),
            deferred: Seq::empty(),
        }
    }

    /// Whether anything was declared that the runtime manages.
    pub open spec fn active(self) -> bool {
        self.managed_function || self.builtin || self.servers.len() > 0 || self.programmatic
            || self.tool_search
    }
}

/// The failure of a managed function without a usable schema.
pub open spec fn no_schema() -> ErrorView {
    ErrorView::invalid_request("managed function parameters must be a valid JSON Schema"@)
}

/// Whether loading is put off: said by the declaration, or by what it belongs to.
pub open spec fn deferral(declaration: JsonView, inherited: bool) -> Option<bool> {
    match declaration.get("defer_loading"@) {
        None => Some(inherited),
        Some(JsonView::Null) => Some(inherited),
        Some(JsonView::Bool(defer)) => Some(defer || inherited),
        Some(_) => None,
    }
}

pub open spec fn registry_resolves(registry: Option<RegistryView>, name: Seq<char>) -> bool {
    match registry {
        Some(registry) => registry.resolves(name),
        None => false,
    }
}

/// What a function declaration adds.
pub open spec fn function_declared(
    so_far: DeclaredView,
    registry: Option<RegistryView>,
    declaration: JsonView,
    label: Option<Seq<char>>,
    inherited: bool,
    max_deferred: nat,
) -> Result<DeclaredView, ErrorView> {
    let name = declaration.text_at("name"@);
    let parameters = declaration.get("parameters"@);
    let managed = registry_resolves(registry, name->0);
    let bare = declaration.without("defer_loading"@);
    let description = text::truncated(
        match bare.text_at("description"@) {
            Some(s) => s,
            None => Seq::empty(),
        },
        MAX_DESCRIPTION_BYTES as nat,
    );
    let known = DeclaredView {
        function_names: so_far.function_names.push(name->0),
        managed_function: so_far.managed_function || managed,
        schemas: if managed {
            so_far.schemas.push((name->0, parameters->0))
        } else {
            so_far.schemas
        },
        ..so_far
    };
    if declaration.text_at("type"@) != Some("function"@) {
        Err(ErrorView::invalid_request("namespace tools must be function declarations"@))
    } else if name is None {
        Err(ErrorView::invalid_request("function tool requires a string name"@))
    } else if text::has_prefix(name->0, RESERVED_PREFIX@) {
        Err(
            ErrorView::invalid_request(
                "function tool name "@ + name->0 + " uses the reserved _agentgateway_ namespace"@,
            ),
        )
    } else if so_far.function_names.contains(name->0) {
        Err(ErrorView::invalid_request("duplicate tool declaration for function "@ + name->0))
    } else if managed && (parameters is None || !schema::schema_compiles(parameters->0)) {
        Err(no_schema())
    } else if deferral(declaration, inherited) is None {
        Err(ErrorView::invalid_request("defer_loading must be a boolean"@))
    } else if deferral(declaration, inherited) == Some(false) {
        Ok(DeclaredView { rewritten: so_far.rewritten.push(bare), ..known })
    } else if so_far.deferred.len() >= max_deferred {
        Err(
            ErrorView::invalid_request(
                "deferred tool catalog exceeds the "@ + text::decimal(max_deferred)
                    + "-tool limit"@,
            ),
        )
    } else {
        Ok(
            DeclaredView {
                deferred: so_far.deferred.push(
                    DeferredView {
                        internal_name: name->0,
                        public_name: name->0,
                        label,
                        description,
                        declaration: bare,
                    },
                ),
                ..known
            },
        )
    }
}

fn push_text(list: &mut Vec<String>, s: &str)
    ensures
        text::strings(final(list)@) == text::strings(old(list)@).push(s@),
{
    let ghost before = text::strings(list@);
    list.push(s.to_owned());
    assert(text::strings(list@) =~= before.push(s@));
}

fn push_json(list: &mut Vec<Json>, value: Json)
    ensures
        json::views(final(list)@) == json::views(old(list)@).push(value@),
{
    let ghost before = json::views(list@);
    list.push(value);
    assert(json::views(list@) =~= before.push(value@));
}

/// What a step made of the declarations, where it did not fail.
pub open spec fn step_result(
    r: Result<(), ToolRuntimeError>,
    after: DeclaredView,
    expected: Result<DeclaredView, ErrorView>,
) -> bool {
    match r {
        Ok(_) => expected == Ok::<DeclaredView, ErrorView>(after),
        Err(error) => expected == Err::<DeclaredView, ErrorView>(error@),
    }
}

pub open spec fn registry_view(registry: Option<&ToolRegistry>) -> Option<RegistryView> {
    match registry {
        Some(registry) => Some(registry@),
        None => None,
    }
}

/// Takes a function declaration up.
fn accept_function_declaration(
    target: &mut Declared,
    registry: Option<&ToolRegistry>,
    declaration: Json,
    label: Option<&str>,
    inherited_defer_loading: bool,
    max_deferred_tools: usize,
) -> (r: Result<(), ToolRuntimeError>)
    ensures
        step_result(
            r,
            final(target)@,
            function_declared(
                old(target)@,
                registry_view(registry),
                declaration@,
                match label {
                    Some(label) => Some(label@),
                    None => None,
                },
                inherited_defer_loading,
                max_deferred_tools as nat,
            ),
        ),
{
    let ghost start = target@;
    let is_function = match declaration.text_at("type") {
        Some(kind) => text::same_text(kind, "function"),
        None => false,
    };
    if !is_function {
        return Err(
            ToolRuntimeError::invalid_request("namespace tools must be function declarations"),
        );
    }
    let name = match declaration.text_at("name") {
        Some(name) => name.to_owned(),
        None => {
            return Err(ToolRuntimeError::invalid_request("function tool requires a string name"));
        },
    };
    if text::starts_with(name.as_str(), RESERVED_PREFIX) {
        let message = joined3(
            "function tool name ",
            name.as_str(),
            " uses the reserved _agentgateway_ namespace",
        );
        return Err(ToolRuntimeError::invalid_request(message.as_str()));
    }
    if text::among_strings(&target.function_names, name.as_str()) {
        let message = joined("duplicate tool declaration for function ", name.as_str());
        return Err(ToolRuntimeError::invalid_request(message.as_str()));
    }
    let managed = match registry {
        Some(registry) => registry.resolves_function(name.as_str()),
        None => false,
    };
    if managed {
        let compiled = match declaration.get("parameters") {
            Some(parameters) => ArgumentSchema::compile(parameters),
            None => None,
        };
        match compiled {
            Some(schema) => {
                target.managed_function = true;
                let ghost before = schema_views(target.schemas@);
                let ghost added = (name@, schema@);
                target.schemas.push((name.clone(), schema));
                assert(schema_views(target.schemas@) =~= before.push(added));
            },
            None => {
                return Err(
                    ToolRuntimeError::invalid_request(
                        "managed function parameters must be a valid JSON Schema",
                    ),
                );
            },
        }
    }
    push_text(&mut target.function_names, name.as_str());
    let mut bare = declaration;
    let defer_loading = match bare.take("defer_loading") {
        None => inherited_defer_loading,
        Some(Json::Null) => inherited_defer_loading,
        Some(Json::Bool(defer_loading)) => defer_loading || inherited_defer_loading,
        Some(_) => {
            return Err(ToolRuntimeError::invalid_request("defer_loading must be a boolean"));
        },
    };
    if !defer_loading {
        push_json(&mut target.rewritten, bare);
        return Ok(());
    }
    if target.deferred.len() >= max_deferred_tools {
        let count = text::decimal_text(max_deferred_tools as u64);
        let message = joined3("deferred tool catalog exceeds the ", count.as_str(), "-tool limit");
        return Err(ToolRuntimeError::invalid_request(message.as_str()));
    }
    let described = match bare.text_at("description") {
        Some(s) => s.to_owned(),
        None => String::new(),
    };
    let description = text::truncate_utf8(described.as_str(), MAX_DESCRIPTION_BYTES);
    let deferred = DeferredTool {
        internal_name: name.clone(),
        public_name: name,
        label: match label {
            Some(label) => Some(label.to_owned()),
            None => None,
        },
        description,
        declaration: bare,
    };
    let ghost before = deferred_views(target.deferred@);
    let ghost added = deferred@;
    target.deferred.push(deferred);
    assert(deferred_views(target.deferred@) =~= before.push(added));
    Ok(())
}

/// The description of a tool of a namespace, led by that of the namespace.
pub open spec fn member_description(
    tool: JsonView,
    name: Seq<char>,
    described: Seq<char>,
) -> JsonView {
    JsonView::Text(
        match tool.text_at("description"@) {
            Some(own) => "["@ + name + "] "@ + described + "\n\n"@ + own,
            None => "["@ + name + "] "@ + described,
        },
    )
}

/// A tool of a namespace, its description led by that of the namespace.
pub open spec fn member(tool: JsonView, name: Seq<char>, description: Option<Seq<char>>) -> JsonView {
    match description {
        Some(described) => tool.with(
            "description"@,
            member_description(tool, name, described),
        ),
        None => tool,
    }
}

fn compose_member(tool: &Json, name: &str, description: &Option<String>) -> (r: Json)
    ensures
        r@ == member(tool@, name@, optional_text(*description)),
{
    match description {
        Some(described) => {
            let mut composed = joined("[", name);
            composed.append("] ");
            composed.append(described.as_str());
            match tool.text_at("description") {
                Some(own) => {
                    composed.append("\n\n");
                    composed.append(own);
                },
                None => {},
            }
            tool.clone().having("description", Json::Text(composed))
        },
        None => tool.clone(),
    }
}

/// What the first tools of a namespace add.
pub open spec fn members_declared(
    so_far: DeclaredView,
    registry: Option<RegistryView>,
    namespace: JsonView,
    n: nat,
    max_deferred: nat,
) -> Result<DeclaredView, ErrorView>
    decreases n,
{
    if n == 0 {
        Ok(so_far)
    } else {
        match members_declared(so_far, registry, namespace, (n - 1) as nat, max_deferred) {
            Ok(before) => function_declared(
                before,
                registry,
                member(
                    namespace.get("tools"@)->0->Array_0[n - 1],
                    namespace.text_at("name"@)->0,
                    optional_text_at(namespace, "description"@),
                ),
                namespace.text_at("name"@),
                flag_at(namespace, "defer_loading"@),
                max_deferred,
            ),
            Err(error) => Err(error),
        }
    }
}

/// What a namespace declaration adds: its tools as functions of their own.
pub open spec fn namespace_declared(
    so_far: DeclaredView,
    registry: Option<RegistryView>,
    declaration: JsonView,
    max_deferred: nat,
) -> Result<DeclaredView, ErrorView> {
    let name = declaration.text_at("name"@);
    let tools = declaration.get("tools"@);
    if let Some(error) = DeclarationKind::Namespace.malformed(declaration) {
        Err(error)
    } else if name->0.len() == 0 || text::byte_len(name->0) > MAX_TOOL_NAME_BYTES {
        Err(ErrorView::invalid_request("namespace name must contain 1 to 128 bytes"@))
    } else if tools->0->Array_0.len() == 0 {
        Err(ErrorView::invalid_request("namespace must declare at least one tool"@))
    } else {
        members_declared(so_far, registry, declaration, tools->0->Array_0.len(), max_deferred)
    }
}

proof fn lemma_members_stop(
    so_far: DeclaredView,
    registry: Option<RegistryView>,
    namespace: JsonView,
    n: nat,
    m: nat,
    max_deferred: nat,
)
    requires
        n <= m,
        members_declared(so_far, registry, namespace, n, max_deferred) is Err,
    ensures
        members_declared(so_far, registry, namespace, m, max_deferred) == members_declared(
            so_far,
            registry,
            namespace,
            n,
            max_deferred,
        ),
    decreases m,
{
    if n < m {
        lemma_members_stop(so_far, registry, namespace, n, (m - 1) as nat, max_deferred);
    }
}

fn accept_namespace(
    target: &mut Declared,
    registry: Option<&ToolRegistry>,
    declaration: &Json,
    max_deferred_tools: usize,
) -> (r: Result<(), ToolRuntimeError>)
    requires
        declaration@ is Object,
    ensures
        step_result(
            r,
            final(target)@,
            namespace_declared(
                old(target)@,
                registry_view(registry),
                declaration@,
                max_deferred_tools as nat,
            ),
        ),
{
    let ghost start = target@;
    let ghost known = registry_view(registry);
    if let Some(error) = DeclarationKind::Namespace.check(declaration) {
        return Err(error);
    }
    proof {
        let fields = declaration@->Object_0;
        let kind = DeclarationKind::Namespace;
        lemma_fields_are_of_their_kinds(kind, fields, "name"@);
        lemma_fields_are_of_their_kinds(kind, fields, "tools"@);
        lemma_fields_are_of_their_kinds(kind, fields, "description"@);
        lemma_fields_are_of_their_kinds(kind, fields, "defer_loading"@);
        lemma_namespace_fields();
    }
    let name = declaration.text_at("name").unwrap();
    let description = optional_text_of(declaration, "description");
    let tools = declaration.get("tools").unwrap().as_array().unwrap();
    let defer_loading = flag_of(declaration, "defer_loading");
    if name.is_empty() || text::byte_length(name) > MAX_TOOL_NAME_BYTES {
        return Err(ToolRuntimeError::invalid_request("namespace name must contain 1 to 128 bytes"));
    }
    if tools.len() == 0 {
        return Err(ToolRuntimeError::invalid_request("namespace must declare at least one tool"));
    }
    let mut i: usize = 0;
    while i < tools.len()
        invariant
            start == old(target)@,
            known == registry_view(registry),
            declaration@.text_at("name"@) == Some(name@),
            optional_text(description) == optional_text_at(declaration@, "description"@),
            declaration@.get("tools"@) == Some(JsonView::Array(json::views(tools@))),
            defer_loading == flag_at(declaration@, "defer_loading"@),
            namespace_declared(start, known, declaration@, max_deferred_tools as nat)
                == members_declared(
                start,
                known,
                declaration@,
                tools@.len(),
                max_deferred_tools as nat,
            ),
            i <= tools@.len(),
            members_declared(start, known, declaration@, i as nat, max_deferred_tools as nat)
                == Ok::<DeclaredView, ErrorView>(target@),
        decreases tools@.len() - i,
    {
        let tool = compose_member(&tools[i], name, &description);
        assert(json::views(tools@)[i as int] == tools@[i as int]@);
        match accept_function_declaration(
            target,
            registry,
            tool,
            Some(name),
            defer_loading,
            max_deferred_tools,
        ) {
            Ok(_) => {},
            Err(error) => {
                proof {
                    lemma_members_stop(
                        start,
                        known,
                        declaration@,
                        (i + 1) as nat,
                        tools@.len(),
                        max_deferred_tools as nat,
                    );
                }
                return Err(error);
            },
        }
        i += 1;
    }
    Ok(())
}

pub open spec fn web_search_words() -> Seq<char> {
    "Search the web for current information and return relevant sources."@
}

pub open spec fn code_interpreter_words() -> Seq<char> {
    "Execute Python code in an isolated sandbox and return stdout and stderr."@
}

/// A built-in tool as a function that a model is offered.
pub open spec fn builtin_function(name: Seq<char>, words: Seq<char>, parameters: JsonView) -> JsonView {
    JsonView::empty().with("type"@, JsonView::Text("function"@)).with(
        "name"@,
        JsonView::Text(name),
    ).with("description"@, JsonView::Text(words)).with("strict"@, JsonView::Bool(true)).with(
        "parameters"@,
        parameters,
    )
}

pub fn builtin_declaration(name: &str, words: &str, parameters: Json) -> (r: Json)
    ensures
        r@ == builtin_function(name@, words@, parameters@),
{
    Json::object().having("type", Json::text("function")).having("name", Json::text(name)).having(
        "description",
        Json::text(words),
    ).having("strict", Json::Bool(true)).having("parameters", parameters)
}

/// The search tool as a program may call it.
pub open spec fn web_search_spec() -> SpecView {
    SpecView {
        public_name: "web_search"@,
        internal_name: WEB_SEARCH_FUNCTION@,
        description: web_search_words(),
        input_schema: schema::one_string("query"@),
        output_schema: None,
    }
}

/// The code interpreter as a program may call it.
pub open spec fn code_interpreter_spec() -> SpecView {
    SpecView {
        public_name: "code_interpreter"@,
        internal_name: CODE_INTERPRETER_FUNCTION@,
        description: code_interpreter_words(),
        input_schema: schema::one_string("code"@),
        output_schema: None,
    }
}

pub fn web_search_tool() -> (r: ProgrammaticToolSpec)
    ensures
        r@ == web_search_spec(),
{
    ProgrammaticToolSpec {
        public_name: "web_search".to_owned(),
        internal_name: WEB_SEARCH_FUNCTION.to_owned(),
        description: "Search the web for current information and return relevant sources.".to_owned(),
        input_schema: schema::web_search_parameters(),
        output_schema: None,
    }
}

fn code_interpreter_tool() -> (r: ProgrammaticToolSpec)
    ensures
        r@ == code_interpreter_spec(),
{
    ProgrammaticToolSpec {
        public_name: "code_interpreter".to_owned(),
        internal_name: CODE_INTERPRETER_FUNCTION.to_owned(),
        description:
            "Execute Python code in an isolated sandbox and return stdout and stderr.".to_owned(),
        input_schema: schema::code_interpreter_parameters(),
        output_schema: None,
    }
}

/// What is wrong where a built-in tool is declared that the operator has not configured.
pub open spec fn builtin_complaint(
    registry: Option<RegistryView>,
    internal: Seq<char>,
    builtin: Seq<char>,
) -> Option<ErrorView> {
    if registry is Some && registry->0.has_internal(internal) {
        None
    } else {
        Some(
            ErrorView::invalid_request("builtin tool "@ + builtin + " is not configured"@),
        )
    }
}

fn builtin_registry(registry: Option<&ToolRegistry>, internal_name: &str, builtin: &str) -> (r:
    Option<ToolRuntimeError>)
    ensures
        complaint(r) == builtin_complaint(registry_view(registry), internal_name@, builtin@),
{
    let known = match registry {
        Some(registry) => registry.has_internal(internal_name),
        None => false,
    };
    if known {
        None
    } else {
        let message = joined3("builtin tool ", builtin, " is not configured");
        Some(ToolRuntimeError::invalid_request(message.as_str()))
    }
}

pub open spec fn duplicate_kind(kind: Seq<char>) -> ErrorView {
    ErrorView::invalid_request("duplicate tool declaration for "@ + kind)
}

fn duplicate_kind_error(kind: &str) -> (r: ToolRuntimeError)
    ensures
        r@ == duplicate_kind(kind@),
{
    let message = joined("duplicate tool declaration for ", kind);
    ToolRuntimeError::invalid_request(message.as_str())
}

/// What a built-in tool adds: who may call it decides where it is offered.
pub open spec fn builtin_added(
    so_far: DeclaredView,
    kind: Seq<char>,
    callers: AllowedCallers,
    tool: SpecView,
    function: JsonView,
    options: Seq<(Seq<char>, JsonView)>,
) -> DeclaredView {
    DeclaredView {
        builtin_types: so_far.builtin_types.push(kind),
        builtin: true,
        options: so_far.options + options,
        programmatic_tools: if callers.programmatic {
            so_far.programmatic_tools.push(tool)
        } else {
            so_far.programmatic_tools
        },
        rewritten: if callers.direct {
            so_far.rewritten.push(function)
        } else {
            so_far.rewritten
        },
        ..so_far
    }
}

pub open spec fn web_search_function() -> JsonView {
    builtin_function(WEB_SEARCH_FUNCTION@, web_search_words(), schema::one_string("query"@))
}

pub open spec fn code_interpreter_function() -> JsonView {
    builtin_function(
        CODE_INTERPRETER_FUNCTION@,
        code_interpreter_words(),
        schema::one_string("code"@),
    )
}

fn add_builtin(
    target: &mut Declared,
    kind: &str,
    callers: AllowedCallers,
    tool: ProgrammaticToolSpec,
    function: Json,
    options: Option<(String, Json)>,
)
    ensures
        final(target)@ == builtin_added(
            old(target)@,
            kind@,
            callers,
            tool@,
            function@,
            match options {
                Some((name, value)) => seq![(name@, value@)],
                None => Seq::empty(),
            },
        ),
{
    push_text(&mut target.builtin_types, kind);
    target.builtin = true;
    let ghost before = json::entry_views(target.options@);
    match options {
        Some((name, value)) => {
            let ghost added = (name@, value@);
            target.options.push((name, value));
            assert(json::entry_views(target.options@) =~= before + seq![added]);
        },
        None => {
            assert(before + Seq::empty() =~= before);
        },
    }
    if callers.programmatic {
        let ghost tools = spec_views(target.programmatic_tools@);
        let ghost added = tool@;
        target.programmatic_tools.push(tool);
        assert(spec_views(target.programmatic_tools@) =~= tools.push(added));
    }
    if callers.direct {
        push_json(&mut target.rewritten, function);
    }
}

pub open spec fn declares_label(servers: Seq<ServerView>, label: Seq<char>) -> bool {
    exists|i: int| 0 <= i < servers.len() && (#[trigger] servers[i]).server_label == label
}

fn label_declared(servers: &Vec<RemoteMcpServer>, label: &str) -> (r: bool)
    ensures
        r == declares_label(server_views(servers@), label@),
{
    let mut i: usize = 0;
    while i < servers.len()
        invariant
            i <= servers@.len(),
            forall|j: int|
                0 <= j < i ==> (#[trigger] server_views(servers@)[j]).server_label != label@,
        decreases servers@.len() - i,
    {
        if text::same_text(servers[i].server_label.as_str(), label) {
            assert(server_views(servers@)[i as int].server_label == label@);
            return true;
        }
        i += 1;
    }
    false
}

/// What one declaration adds.
pub open spec fn declared(
    so_far: DeclaredView,
    registry: Option<RegistryView>,
    declaration: JsonView,
    max_deferred: nat,
) -> Result<DeclaredView, ErrorView> {
    let kind = declaration.text_at("type"@);
    let seen = so_far.builtin_types.contains(kind->0);
    if kind is None {
        Err(ErrorView::invalid_request("tool declaration requires a string type"@))
    } else if kind->0 == "programmatic_tool_calling"@ {
        if so_far.programmatic || declaration->Object_0.len() != 1 {
            Err(
                ErrorView::invalid_request(
                    "programmatic_tool_calling may be declared once without options"@,
                ),
            )
        } else {
            Ok(DeclaredView { programmatic: true, ..so_far })
        }
    } else if kind->0 == "tool_search"@ {
        if seen {
            Err(duplicate_kind(kind->0))
        } else if declaration->Object_0.len() != 1 {
            Err(ErrorView::invalid_request("tool_search may be declared once without options"@))
        } else if registry is None {
            Err(ErrorView::invalid_request("tool_search requires llm.toolRuntime configuration"@))
        } else {
            Ok(
                DeclaredView {
                    builtin_types: so_far.builtin_types.push(kind->0),
                    tool_search: true,
                    ..so_far
                },
            )
        }
    } else if kind->0 == "function"@ {
        function_declared(so_far, registry, declaration, None, false, max_deferred)
    } else if kind->0 == "namespace"@ {
        namespace_declared(so_far, registry, declaration, max_deferred)
    } else if kind->0 == "web_search"@ {
        if seen {
            Err(duplicate_kind(kind->0))
        } else if let Some(error) = builtin_complaint(
            registry,
            WEB_SEARCH_FUNCTION@,
            "web_search"@,
        ) {
            Err(error)
        } else {
            match web_search_declared(declaration) {
                Ok((options, callers)) => Ok(
                    builtin_added(
                        so_far,
                        kind->0,
                        callers,
                        web_search_spec(),
                        web_search_function(),
                        seq![(WEB_SEARCH_FUNCTION@, options)],
                    ),
                ),
                Err(error) => Err(error),
            }
        }
    } else if kind->0 == "code_interpreter"@ {
        if seen {
            Err(duplicate_kind(kind->0))
        } else if let Some(error) = builtin_complaint(
            registry,
            CODE_INTERPRETER_FUNCTION@,
            "code_interpreter"@,
        ) {
            Err(error)
        } else {
            match code_interpreter_declared(declaration) {
                Ok(callers) => Ok(
                    builtin_added(
                        so_far,
                        kind->0,
                        callers,
                        code_interpreter_spec(),
                        code_interpreter_function(),
                        Seq::empty(),
                    ),
                ),
                Err(error) => Err(error),
            }
        }
    } else if kind->0 == "mcp"@ {
        if registry is None {
            Err(ErrorView::invalid_request("remote MCP requires llm.toolRuntime configuration"@))
        } else {
            match mcp_declared(declaration) {
                Ok(server) => if declares_label(so_far.servers, server.server_label) {
                    Err(
                        ErrorView::invalid_request(
                            "duplicate MCP server_label "@ + server.server_label,
                        ),
                    )
                } else {
                    Ok(DeclaredView { servers: so_far.servers.push(server), ..so_far })
                },
                Err(error) => Err(error),
            }
        }
    } else if declaration.get("defer_loading"@) == Some(JsonView::Bool(true)) {
        Err(
            ErrorView::invalid_request(
                "defer_loading is only supported on function, mcp and namespace tools, not "@
                    + kind->0,
            ),
        )
    } else {
        Ok(DeclaredView { rewritten: so_far.rewritten.push(declaration), ..so_far })
    }
}

fn field_count(value: &Json) -> (r: usize)
    requires
        value@ is Object,
    ensures
        r == value@->Object_0.len(),
{
    match value.as_object() {
        Some(object) => object.len(),
        None => 0,
    }
}

/// Takes one declaration up.
fn accept_declaration(
    target: &mut Declared,
    registry: Option<&ToolRegistry>,
    declaration: &Json,
    max_deferred_tools: usize,
) -> (r: Result<(), ToolRuntimeError>)
    requires
        declaration@ is Object,
    ensures
        step_result(
            r,
            final(target)@,
            declared(
                old(target)@,
                registry_view(registry),
                declaration@,
                max_deferred_tools as nat,
            ),
        ),
{
    let kind = match declaration.text_at("type") {
        Some(kind) => kind,
        None => {
            return Err(ToolRuntimeError::invalid_request("tool declaration requires a string type"));
        },
    };
    if text::same_text(kind, "programmatic_tool_calling") {
        if target.programmatic || field_count(declaration) != 1 {
            return Err(
                ToolRuntimeError::invalid_request(
                    "programmatic_tool_calling may be declared once without options",
                ),
            );
        }
        target.programmatic = true;
        return Ok(());
    }
    if text::same_text(kind, "tool_search") {
        if text::among_strings(&target.builtin_types, kind) {
            return Err(duplicate_kind_error(kind));
        }
        if field_count(declaration) != 1 {
            return Err(
                ToolRuntimeError::invalid_request("tool_search may be declared once without options"),
            );
        }
        if registry.is_none() {
            return Err(
                ToolRuntimeError::invalid_request(
                    "tool_search requires llm.toolRuntime configuration",
                ),
            );
        }
        push_text(&mut target.builtin_types, kind);
        target.tool_search = true;
        return Ok(());
    }
    if text::same_text(kind, "function") {
        return accept_function_declaration(
            target,
            registry,
            declaration.clone(),
            None,
            false,
            max_deferred_tools,
        );
    }
    if text::same_text(kind, "namespace") {
        return accept_namespace(target, registry, declaration, max_deferred_tools);
    }
    if text::same_text(kind, "web_search") {
        if text::among_strings(&target.builtin_types, kind) {
            return Err(duplicate_kind_error(kind));
        }
        if let Some(error) = builtin_registry(registry, WEB_SEARCH_FUNCTION, "web_search") {
            return Err(error);
        }
        let (options, callers) = match web_search_options(declaration) {
            Ok(found) => found,
            Err(error) => {
                return Err(error);
            },
        };
        let function = builtin_declaration(
            WEB_SEARCH_FUNCTION,
            "Search the web for current information and return relevant sources.",
            schema::web_search_parameters(),
        );
        add_builtin(
            target,
            kind,
            callers,
            web_search_tool(),
            function,
            Some((WEB_SEARCH_FUNCTION.to_owned(), options)),
        );
        return Ok(());
    }
    if text::same_text(kind, "code_interpreter") {
        if text::among_strings(&target.builtin_types, kind) {
            return Err(duplicate_kind_error(kind));
        }
        if let Some(error) = builtin_registry(
            registry,
            CODE_INTERPRETER_FUNCTION,
            "code_interpreter",
        ) {
            return Err(error);
        }
        let callers = match code_interpreter_options(declaration) {
            Ok(callers) => callers,
            Err(error) => {
                return Err(error);
            },
        };
        let function = builtin_declaration(
            CODE_INTERPRETER_FUNCTION,
            "Execute Python code in an isolated sandbox and return stdout and stderr.",
            schema::code_interpreter_parameters(),
        );
        add_builtin(target, kind, callers, code_interpreter_tool(), function, None);
        return Ok(());
    }
    if text::same_text(kind, "mcp") {
        if registry.is_none() {
            return Err(
                ToolRuntimeError::invalid_request(
                    "remote MCP requires llm.toolRuntime configuration",
                ),
            );
        }
        let server = match remote_mcp_options(declaration) {
            Ok(server) => server,
            Err(error) => {
                return Err(error);
            },
        };
        if label_declared(&target.servers, server.server_label.as_str()) {
            let message = joined("duplicate MCP server_label ", server.server_label.as_str());
            return Err(ToolRuntimeError::invalid_request(message.as_str()));
        }
        let ghost before = server_views(target.servers@);
        let ghost added = server@;
        target.servers.push(server);
        assert(server_views(target.servers@) =~= before.push(added));
        return Ok(());
    }
    let deferred = match declaration.get("defer_loading") {
        Some(Json::Bool(flag)) => *flag,
        _ => false,
    };
    if deferred {
        let message = joined(
            "defer_loading is only supported on function, mcp and namespace tools, not ",
            kind,
        );
        return Err(ToolRuntimeError::invalid_request(message.as_str()));
    }
    push_json(&mut target.rewritten, declaration.clone());
    Ok(())
}

/// What the first declarations of a request come to.
pub open spec fn all_declared(
    registry: Option<RegistryView>,
    declarations: Seq<JsonView>,
    max_deferred: nat,
) -> Result<DeclaredView, ErrorView>
    decreases declarations.len(),
{
    if declarations.len() == 0 {
        Ok(DeclaredView::none())
    } else {
        match all_declared(registry, declarations.drop_last(), max_deferred) {
            Ok(before) => declared(before, registry, declarations.last(), max_deferred),
            Err(error) => Err(error),
        }
    }
}

proof fn lemma_declarations_stop(
    registry: Option<RegistryView>,
    declarations: Seq<JsonView>,
    n: int,
    max_deferred: nat,
)
    requires
        0 <= n <= declarations.len(),
        all_declared(registry, declarations.take(n), max_deferred) is Err,
    ensures
        all_declared(registry, declarations, max_deferred) == all_declared(
            registry,
            declarations.take(n),
            max_deferred,
        ),
    decreases declarations.len() - n,
{
    if n < declarations.len() {
        assert(declarations.take(n + 1).drop_last() =~= declarations.take(n));
        lemma_declarations_stop(registry, declarations, n + 1, max_deferred);
    } else {
        assert(declarations.take(n) =~= declarations);
    }
}

/// Takes all declarations of a request up.
pub fn accept_declarations(
    registry: Option<&ToolRegistry>,
    declarations: &Vec<Json>,
    max_deferred_tools: usize,
) -> (r: Result<Declared, ToolRuntimeError>)
    requires
        forall|i: int| 0 <= i < declarations@.len() ==> (#[trigger] declarations@[i])@ is Object,
    ensures
        match r {
            Ok(target) => all_declared(
                registry_view(registry),
                json::views(declarations@),
                max_deferred_tools as nat,
            ) == Ok::<DeclaredView, ErrorView>(target@),
            Err(error) => all_declared(
                registry_view(registry),
                json::views(declarations@),
                max_deferred_tools as nat,
            ) == Err::<DeclaredView, ErrorView>(error@),
        },
{
    let ghost all = json::views(declarations@);
    let ghost known = registry_view(registry);
    let mut target = Declared::none();
    let mut i: usize = 0;
    assert(all.take(0) =~= Seq::empty());
    while i < declarations.len()
        invariant
            all == json::views(declarations@),
            known == registry_view(registry),
            forall|j: int|
                0 <= j < declarations@.len() ==> (#[trigger] declarations@[j])@ is Object,
            i <= declarations@.len(),
            all_declared(known, all.take(i as int), max_deferred_tools as nat) == Ok::<
                DeclaredView,
                ErrorView,
            >(target@),
        decreases declarations@.len() - i,
    {
        assert(all.take(i + 1).drop_last() =~= all.take(i as int));
        assert(all.take(i + 1).last() == declarations@[i as int]@);
        match accept_declaration(&mut target, registry, &declarations[i], max_deferred_tools) {
            Ok(_) => {},
            Err(error) => {
                proof {
                    lemma_declarations_stop(known, all, i + 1, max_deferred_tools as nat);
                }
                return Err(error);
            },
        }
        i += 1;
    }
    assert(all.take(i as int) =~= all);
    Ok(target)
}

/// Function names that clients declare are never reserved, and never occur twice. Without a
/// registry nothing is active but a wish for programs.
pub proof fn declared_functions_are_distinct_and_unreserved(
    registry: Option<RegistryView>,
    declarations: Seq<JsonView>,
    max_deferred: nat,
)
    ensures
        match all_declared(registry, declarations, max_deferred) {
            Ok(found) => {
                &&& unreserved(found)
                &&& registry is None ==> !found.managed_function && !found.builtin
                    && found.servers.len() == 0 && !found.tool_search
            },
            Err(_) => true,
        },
    decreases declarations.len(),
{
    if declarations.len() > 0 {
        declared_functions_are_distinct_and_unreserved(
            registry,
            declarations.drop_last(),
            max_deferred,
        );
        if all_declared(registry, declarations.drop_last(), max_deferred) is Ok {
            let before = all_declared(registry, declarations.drop_last(), max_deferred)->Ok_0;
            let declaration = declarations.last();
            lemma_function_unreserved(before, registry, declaration, None, false, max_deferred);
            if declaration.get("tools"@) is Some {
                lemma_members_unreserved(
                    before,
                    registry,
                    declaration,
                    declaration.get("tools"@)->0->Array_0.len(),
                    max_deferred,
                );
            }
        }
    }
}

/// Whether function names are different and none is reserved.
pub open spec fn unreserved(found: DeclaredView) -> bool {
    &&& found.function_names.no_duplicates()
    &&& forall|i: int|
        0 <= i < found.function_names.len() ==> !text::has_prefix(
            #[trigger] found.function_names[i],
            RESERVED_PREFIX@,
        )
}

proof fn lemma_function_unreserved(
    so_far: DeclaredView,
    registry: Option<RegistryView>,
    declaration: JsonView,
    label: Option<Seq<char>>,
    inherited: bool,
    max_deferred: nat,
)
    requires
        unreserved(so_far),
    ensures
        match function_declared(so_far, registry, declaration, label, inherited, max_deferred) {
            Ok(found) => {
                &&& unreserved(found)
                &&& found.builtin == so_far.builtin && found.servers == so_far.servers
                    && found.tool_search == so_far.tool_search
                &&& registry is None ==> found.managed_function == so_far.managed_function
            },
            Err(_) => true,
        },
{
    if function_declared(so_far, registry, declaration, label, inherited, max_deferred) is Ok {
        text::lemma_push_distinct(so_far.function_names, declaration.text_at("name"@)->0);
    }
}

proof fn lemma_members_unreserved(
    so_far: DeclaredView,
    registry: Option<RegistryView>,
    namespace: JsonView,
    n: nat,
    max_deferred: nat,
)
    requires
        unreserved(so_far),
    ensures
        match members_declared(so_far, registry, namespace, n, max_deferred) {
            Ok(found) => {
                &&& unreserved(found)
                &&& found.builtin == so_far.builtin && found.servers == so_far.servers
                    && found.tool_search == so_far.tool_search
                &&& registry is None ==> found.managed_function == so_far.managed_function
            },
            Err(_) => true,
        },
    decreases n,
{
    if n > 0 {
        lemma_members_unreserved(so_far, registry, namespace, (n - 1) as nat, max_deferred);
        if members_declared(so_far, registry, namespace, (n - 1) as nat, max_deferred) is Ok {
            lemma_function_unreserved(
                members_declared(so_far, registry, namespace, (n - 1) as nat, max_deferred)->Ok_0,
                registry,
                member(
                    namespace.get("tools"@)->0->Array_0[n - 1],
                    namespace.text_at("name"@)->0,
                    optional_text_at(namespace, "description"@),
                ),
                namespace.text_at("name"@),
                flag_at(namespace, "defer_loading"@),
                max_deferred,
            );
        }
    }
}

/// Whether declarations of this kind are for the gateway, not for the model.
pub open spec fn is_managed_kind(kind: Seq<char>) -> bool {
    ||| kind == "programmatic_tool_calling"@
    ||| kind == "tool_search"@
    ||| kind == "namespace"@
    ||| kind == "web_search"@
    ||| kind == "code_interpreter"@
    ||| kind == "mcp"@
}

/// Whether every declaration that goes on to the model has a kind that is not managed.
pub open spec fn forwards_unmanaged(found: DeclaredView) -> bool {
    forall|i: int|
        0 <= i < found.rewritten.len() ==> {
            &&& (#[trigger] found.rewritten[i]).text_at("type"@) is Some
            &&& !is_managed_kind(found.rewritten[i].text_at("type"@)->0)
        }
}

proof fn lemma_function_is_unmanaged()
    ensures
        !is_managed_kind("function"@),
        "type"@ != "name"@,
        "type"@ != "description"@,
        "type"@ != "strict"@,
        "type"@ != "parameters"@,
        "type"@ != "defer_loading"@,
        "name"@ != "description"@,
        "name"@ != "strict"@,
        "name"@ != "parameters"@,
{
    reveal_strlit("function");
    reveal_strlit("programmatic_tool_calling");
    reveal_strlit("tool_search");
    reveal_strlit("namespace");
    reveal_strlit("web_search");
    reveal_strlit("code_interpreter");
    reveal_strlit("mcp");
    reveal_strlit("type");
    reveal_strlit("name");
    reveal_strlit("description");
    reveal_strlit("strict");
    reveal_strlit("parameters");
    reveal_strlit("defer_loading");
    assert("type"@[0] != "name"@[0]);
    let length = "function"@.len();
    assert(length != "programmatic_tool_calling"@.len());
    assert(length != "tool_search"@.len());
    assert(length != "namespace"@.len());
    assert(length != "web_search"@.len());
    assert(length != "code_interpreter"@.len());
    assert(length != "mcp"@.len());
}

/// A built-in tool is offered as a function, under its name.
pub proof fn lemma_builtin_is_function(name: Seq<char>, words: Seq<char>, parameters: JsonView)
    ensures
        builtin_function(name, words, parameters).text_at("type"@) == Some("function"@),
        builtin_function(name, words, parameters).text_at("name"@) == Some(name),
{
    lemma_function_is_unmanaged();
    lemma_builtin_field(name, words, parameters, "type"@);
    lemma_builtin_field(name, words, parameters, "name"@);
}

/// The fields of a built-in function that say what it is are not overwritten by the others.
proof fn lemma_builtin_field(
    name: Seq<char>,
    words: Seq<char>,
    parameters: JsonView,
    kind: Seq<char>,
)
    requires
        kind == "type"@ || kind == "name"@,
    ensures
        builtin_function(name, words, parameters).get(kind) == (if kind == "type"@ {
            Some(JsonView::Text("function"@))
        } else {
            Some(JsonView::Text(name))
        }),
{
    lemma_function_is_unmanaged();
    let typed = JsonView::empty().with("type"@, JsonView::Text("function"@));
    let named = typed.with("name"@, JsonView::Text(name));
    let described = named.with("description"@, JsonView::Text(words));
    let strict = described.with("strict"@, JsonView::Bool(true));
    json::a_field_reads_back_what_was_set(
        JsonView::empty()->Object_0,
        "type"@,
        JsonView::Text("function"@),
        kind,
    );
    json::a_field_reads_back_what_was_set(
        typed->Object_0,
        "name"@,
        JsonView::Text(name),
        kind,
    );
    json::a_field_reads_back_what_was_set(
        named->Object_0,
        "description"@,
        JsonView::Text(words),
        kind,
    );
    json::a_field_reads_back_what_was_set(
        described->Object_0,
        "strict"@,
        JsonView::Bool(true),
        kind,
    );
    json::a_field_reads_back_what_was_set(strict->Object_0, "parameters"@, parameters, kind);
}

proof fn lemma_function_forwards(
    so_far: DeclaredView,
    registry: Option<RegistryView>,
    declaration: JsonView,
    label: Option<Seq<char>>,
    inherited: bool,
    max_deferred: nat,
)
    requires
        forwards_unmanaged(so_far),
    ensures
        match function_declared(so_far, registry, declaration, label, inherited, max_deferred) {
            Ok(found) => forwards_unmanaged(found),
            Err(_) => true,
        },
{
    lemma_function_is_unmanaged();
    if declaration is Object {
        json::a_removed_field_is_gone(declaration->Object_0, "defer_loading"@, "type"@);
    }
}

proof fn lemma_members_forward(
    so_far: DeclaredView,
    registry: Option<RegistryView>,
    namespace: JsonView,
    n: nat,
    max_deferred: nat,
)
    requires
        forwards_unmanaged(so_far),
    ensures
        match members_declared(so_far, registry, namespace, n, max_deferred) {
            Ok(found) => forwards_unmanaged(found),
            Err(_) => true,
        },
    decreases n,
{
    if n > 0 {
        lemma_members_forward(so_far, registry, namespace, (n - 1) as nat, max_deferred);
        if members_declared(so_far, registry, namespace, (n - 1) as nat, max_deferred) is Ok {
            lemma_function_forwards(
                members_declared(so_far, registry, namespace, (n - 1) as nat, max_deferred)->Ok_0,
                registry,
                member(
                    namespace.get("tools"@)->0->Array_0[n - 1],
                    namespace.text_at("name"@)->0,
                    optional_text_at(namespace, "description"@),
                ),
                namespace.text_at("name"@),
                flag_at(namespace, "defer_loading"@),
                max_deferred,
            );
        }
    }
}

/// What a client declares for the gateway never reaches the model: namespaces are taken apart, and
/// searches, servers, programs and built-in tools are replaced by functions, or kept back.
pub proof fn managed_declarations_never_reach_the_model(
    registry: Option<RegistryView>,
    declarations: Seq<JsonView>,
    max_deferred: nat,
)
    ensures
        match all_declared(registry, declarations, max_deferred) {
            Ok(found) => forwards_unmanaged(found),
            Err(_) => true,
        },
    decreases declarations.len(),
{
    if declarations.len() > 0 {
        managed_declarations_never_reach_the_model(
            registry,
            declarations.drop_last(),
            max_deferred,
        );
        if all_declared(registry, declarations.drop_last(), max_deferred) is Ok {
            let before = all_declared(registry, declarations.drop_last(), max_deferred)->Ok_0;
            let declaration = declarations.last();
            lemma_function_is_unmanaged();
            lemma_builtin_is_function(
                WEB_SEARCH_FUNCTION@,
                web_search_words(),
                schema::one_string("query"@),
            );
            lemma_builtin_is_function(
                CODE_INTERPRETER_FUNCTION@,
                code_interpreter_words(),
                schema::one_string("code"@),
            );
            lemma_function_forwards(before, registry, declaration, None, false, max_deferred);
            if declaration.get("tools"@) is Some {
                lemma_members_forward(
                    before,
                    registry,
                    declaration,
                    declaration.get("tools"@)->0->Array_0.len(),
                    max_deferred,
                );
            }
        }
    }
}

/// Whether the fields of a declaration, and those of the tools in it, are in ascending order, as
/// those of every JSON object are.
pub open spec fn in_order(declaration: JsonView) -> bool {
    &&& declaration is Object ==> json::ascending(declaration->Object_0)
    &&& match declaration.get("tools"@) {
        Some(JsonView::Array(tools)) => forall|i: int|
            0 <= i < tools.len() && (#[trigger] tools[i]) is Object ==> json::ascending(
                tools[i]->Object_0,
            ),
        _ => true,
    }
}

/// Whether no declaration that goes on to the model puts its loading off, nor one that is kept to
/// be found by a search.
pub open spec fn forwards_loaded(found: DeclaredView) -> bool {
    &&& forall|i: int|
        0 <= i < found.rewritten.len() ==> (#[trigger] found.rewritten[i]).get("defer_loading"@)
            != Some(JsonView::Bool(true))
    &&& forall|i: int|
        0 <= i < found.deferred.len() ==> (#[trigger] found.deferred[i]).declaration.get(
            "defer_loading"@,
        ) is None
}

/// A built-in function puts no loading off.
proof fn lemma_builtin_is_loaded(name: Seq<char>, words: Seq<char>, parameters: JsonView)
    ensures
        builtin_function(name, words, parameters).get("defer_loading"@) is None,
{
    let key = "defer_loading"@;
    reveal_strlit("type");
    reveal_strlit("name");
    reveal_strlit("description");
    reveal_strlit("strict");
    reveal_strlit("parameters");
    reveal_strlit("defer_loading");
    assert(key.len() != "type"@.len());
    assert(key.len() != "name"@.len());
    assert(key.len() != "description"@.len());
    assert(key.len() != "strict"@.len());
    assert(key.len() != "parameters"@.len());
    let typed = JsonView::empty().with("type"@, JsonView::Text("function"@));
    let named = typed.with("name"@, JsonView::Text(name));
    let described = named.with("description"@, JsonView::Text(words));
    let strict = described.with("strict"@, JsonView::Bool(true));
    json::a_field_reads_back_what_was_set(
        JsonView::empty()->Object_0,
        "type"@,
        JsonView::Text("function"@),
        key,
    );
    json::a_field_reads_back_what_was_set(typed->Object_0, "name"@, JsonView::Text(name), key);
    json::a_field_reads_back_what_was_set(
        named->Object_0,
        "description"@,
        JsonView::Text(words),
        key,
    );
    json::a_field_reads_back_what_was_set(
        described->Object_0,
        "strict"@,
        JsonView::Bool(true),
        key,
    );
    json::a_field_reads_back_what_was_set(strict->Object_0, "parameters"@, parameters, key);
}

proof fn lemma_function_loaded(
    so_far: DeclaredView,
    registry: Option<RegistryView>,
    declaration: JsonView,
    label: Option<Seq<char>>,
    inherited: bool,
    max_deferred: nat,
)
    requires
        forwards_loaded(so_far),
        declaration is Object ==> json::ascending(declaration->Object_0),
    ensures
        match function_declared(so_far, registry, declaration, label, inherited, max_deferred) {
            Ok(found) => forwards_loaded(found),
            Err(_) => true,
        },
{
    if declaration is Object {
        json::a_removed_field_is_gone(
            declaration->Object_0,
            "defer_loading"@,
            "defer_loading"@,
        );
    }
}

proof fn lemma_members_loaded(
    so_far: DeclaredView,
    registry: Option<RegistryView>,
    namespace: JsonView,
    n: nat,
    max_deferred: nat,
)
    requires
        forwards_loaded(so_far),
        in_order(namespace),
        namespace.get("tools"@) matches Some(tools) && tools is Array && n <= tools->Array_0.len(),
    ensures
        match members_declared(so_far, registry, namespace, n, max_deferred) {
            Ok(found) => forwards_loaded(found),
            Err(_) => true,
        },
    decreases n,
{
    if n > 0 {
        lemma_members_loaded(so_far, registry, namespace, (n - 1) as nat, max_deferred);
        if members_declared(so_far, registry, namespace, (n - 1) as nat, max_deferred) is Ok {
            let tool = namespace.get("tools"@)->0->Array_0[n - 1];
            let composed = member(
                tool,
                namespace.text_at("name"@)->0,
                optional_text_at(namespace, "description"@),
            );
            if tool is Object {
                json::lemma_with_field_ascending(
                    tool->Object_0,
                    "description"@,
                    member_description(
                        tool,
                        namespace.text_at("name"@)->0,
                        optional_text_at(namespace, "description"@)->0,
                    ),
                );
            }
            lemma_function_loaded(
                members_declared(so_far, registry, namespace, (n - 1) as nat, max_deferred)->Ok_0,
                registry,
                composed,
                namespace.text_at("name"@),
                flag_at(namespace, "defer_loading"@),
                max_deferred,
            );
        }
    }
}

/// A declaration whose loading is put off never reaches the model, and the mark itself does not:
/// such a function is kept back without it, to be found by a search.
pub proof fn deferred_declarations_never_reach_the_model(
    registry: Option<RegistryView>,
    declarations: Seq<JsonView>,
    max_deferred: nat,
)
    requires
        forall|i: int| 0 <= i < declarations.len() ==> in_order(#[trigger] declarations[i]),
    ensures
        match all_declared(registry, declarations, max_deferred) {
            Ok(found) => forwards_loaded(found),
            Err(_) => true,
        },
    decreases declarations.len(),
{
    if declarations.len() > 0 {
        let earlier = declarations.drop_last();
        assert forall|i: int| 0 <= i < earlier.len() implies in_order(#[trigger] earlier[i]) by {
            assert(earlier[i] == declarations[i]);
        }
        deferred_declarations_never_reach_the_model(registry, earlier, max_deferred);
        if all_declared(registry, earlier, max_deferred) is Ok {
            let before = all_declared(registry, earlier, max_deferred)->Ok_0;
            let declaration = declarations.last();
            assert(in_order(declarations[declarations.len() - 1]));
            lemma_builtin_is_loaded(
                WEB_SEARCH_FUNCTION@,
                web_search_words(),
                schema::one_string("query"@),
            );
            lemma_builtin_is_loaded(
                CODE_INTERPRETER_FUNCTION@,
                code_interpreter_words(),
                schema::one_string("code"@),
            );
            lemma_function_loaded(before, registry, declaration, None, false, max_deferred);
            if DeclarationKind::Namespace.malformed(declaration) is None {
                lemma_namespace_fields();
                lemma_fields_are_of_their_kinds(
                    DeclarationKind::Namespace,
                    declaration->Object_0,
                    "tools"@,
                );
            }
            if declaration.get("tools"@) matches Some(tools) && tools is Array {
                lemma_members_loaded(
                    before,
                    registry,
                    declaration,
                    declaration.get("tools"@)->0->Array_0.len(),
                    max_deferred,
                );
            }
        }
    }
}

} // verus!
