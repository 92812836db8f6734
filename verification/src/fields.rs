//! The fields of declarations, and what is wrong with one that is malformed.

use vstd::prelude::*;
use vstd::string::*;
use crate::decode::{caller_list, caller_named, caller_of, read_caller};
use crate::error::{complaint, joined, joined3, ErrorView, ToolRuntimeError};
use crate::json::{Fields, Json, JsonView};
use crate::mapper::{
    declared_domains, declared_location, is_context_size, read_context_size, read_declared_domains,
    read_declared_location,
};
use crate::serde_value::{type_complaint, wrong_type};
use crate::{decode, json, text};

verus! {

/// What a field of a declaration holds. What is optional may be null.
#[derive(Clone, Copy, Debug, PartialEq, Eq, Structural)]
pub enum FieldKind {
    Text,
    OptionalText,
    OptionalFlag,
    Values,
    OptionalTexts,
    OptionalCallers,
    Anything,
    Filters,
    ContextSize,
    Location,
}

/// A declaration with a fixed set of fields.
#[derive(Clone, Copy, Debug, PartialEq, Eq, Structural)]
pub enum DeclarationKind {
    Namespace,
    WebSearch,
    Mcp,
}

/// What is said of a value that is neither null nor what it should be.
pub open spec fn no_variant() -> Seq<char> {
    "data did not match any variant of untagged enum Nullable"@
}

/// What is said of a caller of this name, which is none.
pub open spec fn unknown_caller(name: Seq<char>) -> Seq<char> {
    "unknown variant `"@ + name + "`, expected `direct` or `programmatic`"@
}

pub fn unknown_caller_words(name: &str) -> (r: String)
    ensures
        r@ == unknown_caller(name@),
{
    joined3("unknown variant `", name, "`, expected `direct` or `programmatic`")
}

/// What is wrong with a caller.
pub open spec fn caller_complaint(value: JsonView) -> Option<Seq<char>> {
    match value {
        JsonView::Text(name) => if caller_named(name) is Some {
            None
        } else {
            Some(unknown_caller(name))
        },
        JsonView::Object(fields) => if fields.len() != 1 {
            Some("invalid value: map, expected map with a single key"@)
        } else if caller_named(fields[0].0) is None {
            Some(unknown_caller(fields[0].0))
        } else if fields[0].1 is Null {
            None
        } else {
            Some(type_complaint(fields[0].1, "unit"@))
        },
        _ => Some(type_complaint(value, "string or map"@)),
    }
}

pub open spec fn text_complaint(value: JsonView) -> Option<Seq<char>> {
    if value is Text {
        None
    } else {
        Some(type_complaint(value, "a string"@))
    }
}

/// What is wrong with the first caller that has something wrong.
pub open spec fn callers_complaint(items: Seq<JsonView>) -> Option<Seq<char>>
    decreases items.len(),
{
    if items.len() == 0 {
        None
    } else if caller_complaint(items[0]) is Some {
        caller_complaint(items[0])
    } else {
        callers_complaint(items.drop_first())
    }
}

/// What is wrong with the first text that is none.
pub open spec fn texts_complaint(items: Seq<JsonView>) -> Option<Seq<char>>
    decreases items.len(),
{
    if items.len() == 0 {
        None
    } else if text_complaint(items[0]) is Some {
        text_complaint(items[0])
    } else {
        texts_complaint(items.drop_first())
    }
}

/// What is wrong with a list of callers.
pub open spec fn caller_list_complaint(value: JsonView) -> Option<Seq<char>> {
    match value {
        JsonView::Array(items) => callers_complaint(items),
        _ => Some(type_complaint(value, "a sequence"@)),
    }
}

/// What is wrong with a value that should be of this kind.
pub open spec fn value_complaint(kind: FieldKind, value: JsonView) -> Option<Seq<char>> {
    match kind {
        FieldKind::Text => text_complaint(value),
        FieldKind::OptionalText => if value is Null {
            None
        } else {
            text_complaint(value)
        },
        FieldKind::OptionalFlag => if value is Null || value is Bool {
            None
        } else {
            Some(type_complaint(value, "a boolean"@))
        },
        FieldKind::Values => if value is Array {
            None
        } else {
            Some(type_complaint(value, "a sequence"@))
        },
        FieldKind::OptionalTexts => match value {
            JsonView::Null => None,
            JsonView::Array(items) => texts_complaint(items),
            _ => Some(type_complaint(value, "a sequence"@)),
        },
        FieldKind::OptionalCallers => if value is Null {
            None
        } else {
            caller_list_complaint(value)
        },
        FieldKind::Anything => None,
        FieldKind::Filters => if value is Null || declared_domains(value) is Some {
            None
        } else {
            Some(no_variant())
        },
        FieldKind::ContextSize => if value is Null || (decode::variant(value) is Some
            && is_context_size(decode::variant(value)->0)) {
            None
        } else {
            Some(no_variant())
        },
        FieldKind::Location => if value is Null || declared_location(value) is Some {
            None
        } else {
            Some(no_variant())
        },
    }
}

impl DeclarationKind {
    pub open spec fn name(self) -> Seq<char> {
        match self {
            DeclarationKind::Namespace => "namespace"@,
            DeclarationKind::WebSearch => "web_search"@,
            DeclarationKind::Mcp => "mcp"@,
        }
    }

    /// The fields, as they are listed to whoever named another.
    pub open spec fn listed(self) -> Seq<char> {
        match self {
            DeclarationKind::Namespace =>
                "`type`, `name`, `description`, `tools`, `defer_loading`"@,
            DeclarationKind::WebSearch =>
                "`type`, `filters`, `search_context_size`, `user_location`, `allowed_callers`"@,
            DeclarationKind::Mcp =>
                "`type`, `server_label`, `server_description`, `server_url`, `authorization`, `allowed_tools`, `require_approval`, `allowed_callers`, `defer_loading`"@,
        }
    }

    /// What a field holds; nothing where there is no such field.
    pub open spec fn field(self, key: Seq<char>) -> Option<FieldKind> {
        match self {
            DeclarationKind::Namespace => if key == "type"@ || key == "name"@ {
                Some(FieldKind::Text)
            } else if key == "description"@ {
                Some(FieldKind::OptionalText)
            } else if key == "tools"@ {
                Some(FieldKind::Values)
            } else if key == "defer_loading"@ {
                Some(FieldKind::OptionalFlag)
            } else {
                None
            },
            DeclarationKind::WebSearch => if key == "type"@ {
                Some(FieldKind::Text)
            } else if key == "filters"@ {
                Some(FieldKind::Filters)
            } else if key == "search_context_size"@ {
                Some(FieldKind::ContextSize)
            } else if key == "user_location"@ {
                Some(FieldKind::Location)
            } else if key == "allowed_callers"@ {
                Some(FieldKind::OptionalCallers)
            } else {
                None
            },
            DeclarationKind::Mcp => if key == "type"@ || key == "server_label"@ || key
                == "server_url"@ {
                Some(FieldKind::Text)
            } else if key == "server_description"@ || key == "authorization"@ {
                Some(FieldKind::OptionalText)
            } else if key == "allowed_tools"@ {
                Some(FieldKind::OptionalTexts)
            } else if key == "require_approval"@ {
                Some(FieldKind::Anything)
            } else if key == "allowed_callers"@ {
                Some(FieldKind::OptionalCallers)
            } else if key == "defer_loading"@ {
                Some(FieldKind::OptionalFlag)
            } else {
                None
            },
        }
    }

    /// What is wrong with one field.
    pub open spec fn field_complaint(self, key: Seq<char>, value: JsonView) -> Option<Seq<char>> {
        match self.field(key) {
            Some(kind) => value_complaint(kind, value),
            None => Some("unknown field `"@ + key + "`, expected one of "@ + self.listed()),
        }
    }

    /// What is wrong with the first field that has something wrong.
    pub open spec fn fields_complaint(self, fields: Fields) -> Option<Seq<char>>
        decreases fields.len(),
    {
        if fields.len() == 0 {
            None
        } else if self.field_complaint(fields[0].0, fields[0].1) is Some {
            self.field_complaint(fields[0].0, fields[0].1)
        } else {
            self.fields_complaint(fields.drop_first())
        }
    }

    /// The fields that must be there, beside the type.
    pub open spec fn required(self) -> Option<(Seq<char>, Seq<char>)> {
        match self {
            DeclarationKind::Namespace => Some(("name"@, "tools"@)),
            DeclarationKind::WebSearch => None,
            DeclarationKind::Mcp => Some(("server_label"@, "server_url"@)),
        }
    }

    /// The first field that must be there and is not.
    pub open spec fn missing(self, declaration: JsonView) -> Option<Seq<char>> {
        if declaration.get("type"@) is None {
            Some("type"@)
        } else {
            match self.required() {
                Some((first, second)) => if declaration.get(first) is None {
                    Some(first)
                } else if declaration.get(second) is None {
                    Some(second)
                } else {
                    None
                },
                None => None,
            }
        }
    }

    /// What is wrong with the fields of a declaration: the first in the order of their keys that
    /// is unknown or malformed, or else the first that is missing.
    pub open spec fn shape_complaint(self, declaration: JsonView) -> Option<Seq<char>> {
        match self.fields_complaint(declaration->Object_0) {
            Some(why) => Some(why),
            None => match self.missing(declaration) {
                Some(key) => Some("missing field `"@ + key + "`"@),
                None => None,
            },
        }
    }

    /// The failure of a malformed declaration.
    pub open spec fn malformed(self, declaration: JsonView) -> Option<ErrorView> {
        match self.shape_complaint(declaration) {
            Some(why) => Some(
                ErrorView::invalid_request("invalid "@ + self.name() + " declaration: "@ + why),
            ),
            None => None,
        }
    }
}

/// What an optional text is.
pub open spec fn words(r: Option<String>) -> Option<Seq<char>> {
    match r {
        Some(s) => Some(s@),
        None => None,
    }
}

fn check_caller(value: &Json) -> (r: Option<String>)
    ensures
        words(r) == caller_complaint(value@),
{
    match value {
        Json::Text(name) => {
            if read_caller(name.as_str()).is_some() {
                None
            } else {
                Some(unknown_caller_words(name.as_str()))
            }
        },
        Json::Object(object) => {
            if object.len() != 1 {
                Some("invalid value: map, expected map with a single key".to_owned())
            } else if read_caller(object.key(0)).is_none() {
                Some(unknown_caller_words(object.key(0)))
            } else if object.value(0).is_null() {
                None
            } else {
                Some(wrong_type(object.value(0), "unit"))
            }
        },
        _ => Some(wrong_type(value, "string or map")),
    }
}

fn check_text(value: &Json) -> (r: Option<String>)
    ensures
        words(r) == text_complaint(value@),
{
    match value {
        Json::Text(_) => None,
        _ => Some(wrong_type(value, "a string")),
    }
}

/// What is wrong with a list of callers.
pub fn check_caller_list(value: &Json) -> (r: Option<String>)
    ensures
        words(r) == caller_list_complaint(value@),
{
    let items = match value.as_array() {
        Some(items) => items,
        None => {
            return Some(wrong_type(value, "a sequence"));
        },
    };
    let ghost all = json::views(items@);
    let mut i: usize = 0;
    assert(all.skip(0) =~= all);
    while i < items.len()
        invariant
            all == json::views(items@),
            value@ == JsonView::Array(all),
            i <= items@.len(),
            callers_complaint(all) == callers_complaint(all.skip(i as int)),
        decreases items@.len() - i,
    {
        assert(all.skip(i as int)[0] == items@[i as int]@);
        assert(all.skip(i as int).drop_first() =~= all.skip(i + 1));
        if let Some(why) = check_caller(&items[i]) {
            return Some(why);
        }
        i += 1;
    }
    None
}

fn check_text_list(value: &Json) -> (r: Option<String>)
    ensures
        words(r) == (match value@ {
            JsonView::Array(items) => texts_complaint(items),
            _ => Some(type_complaint(value@, "a sequence"@)),
        }),
{
    let items = match value.as_array() {
        Some(items) => items,
        None => {
            return Some(wrong_type(value, "a sequence"));
        },
    };
    let ghost all = json::views(items@);
    let mut i: usize = 0;
    assert(all.skip(0) =~= all);
    while i < items.len()
        invariant
            all == json::views(items@),
            value@ == JsonView::Array(all),
            i <= items@.len(),
            texts_complaint(all) == texts_complaint(all.skip(i as int)),
        decreases items@.len() - i,
    {
        assert(all.skip(i as int)[0] == items@[i as int]@);
        assert(all.skip(i as int).drop_first() =~= all.skip(i + 1));
        if let Some(why) = check_text(&items[i]) {
            return Some(why);
        }
        i += 1;
    }
    None
}

fn no_variant_where(matches: bool) -> (r: Option<String>)
    ensures
        words(r) == (if matches {
            None
        } else {
            Some(no_variant())
        }),
{
    if matches {
        None
    } else {
        Some("data did not match any variant of untagged enum Nullable".to_owned())
    }
}

fn check_value(kind: FieldKind, value: &Json) -> (r: Option<String>)
    ensures
        words(r) == value_complaint(kind, value@),
{
    match kind {
        FieldKind::Text => check_text(value),
        FieldKind::OptionalText => {
            if value.is_null() {
                None
            } else {
                check_text(value)
            }
        },
        FieldKind::OptionalFlag => match value {
            Json::Null => None,
            Json::Bool(_) => None,
            _ => Some(wrong_type(value, "a boolean")),
        },
        FieldKind::Values => match value {
            Json::Array(_) => None,
            _ => Some(wrong_type(value, "a sequence")),
        },
        FieldKind::OptionalTexts => {
            if value.is_null() {
                None
            } else {
                check_text_list(value)
            }
        },
        FieldKind::OptionalCallers => {
            if value.is_null() {
                None
            } else {
                check_caller_list(value)
            }
        },
        FieldKind::Anything => None,
        FieldKind::Filters => no_variant_where(
            value.is_null() || read_declared_domains(value).is_some(),
        ),
        FieldKind::ContextSize => no_variant_where(
            value.is_null() || read_context_size(value).is_some(),
        ),
        FieldKind::Location => no_variant_where(
            value.is_null() || read_declared_location(value).is_some(),
        ),
    }
}

impl DeclarationKind {
    fn label(self) -> (r: &'static str)
        ensures
            r@ == self.name(),
    {
        match self {
            DeclarationKind::Namespace => "namespace",
            DeclarationKind::WebSearch => "web_search",
            DeclarationKind::Mcp => "mcp",
        }
    }

    fn list(self) -> (r: &'static str)
        ensures
            r@ == self.listed(),
    {
        match self {
            DeclarationKind::Namespace => "`type`, `name`, `description`, `tools`, `defer_loading`",
            DeclarationKind::WebSearch =>
                "`type`, `filters`, `search_context_size`, `user_location`, `allowed_callers`",
            DeclarationKind::Mcp =>
                "`type`, `server_label`, `server_description`, `server_url`, `authorization`, `allowed_tools`, `require_approval`, `allowed_callers`, `defer_loading`",
        }
    }

    fn kind_of(self, key: &str) -> (r: Option<FieldKind>)
        ensures
            r == self.field(key@),
    {
        match self {
            DeclarationKind::Namespace => {
                if text::same_text(key, "type") || text::same_text(key, "name") {
                    Some(FieldKind::Text)
                } else if text::same_text(key, "description") {
                    Some(FieldKind::OptionalText)
                } else if text::same_text(key, "tools") {
                    Some(FieldKind::Values)
                } else if text::same_text(key, "defer_loading") {
                    Some(FieldKind::OptionalFlag)
                } else {
                    None
                }
            },
            DeclarationKind::WebSearch => {
                if text::same_text(key, "type") {
                    Some(FieldKind::Text)
                } else if text::same_text(key, "filters") {
                    Some(FieldKind::Filters)
                } else if text::same_text(key, "search_context_size") {
                    Some(FieldKind::ContextSize)
                } else if text::same_text(key, "user_location") {
                    Some(FieldKind::Location)
                } else if text::same_text(key, "allowed_callers") {
                    Some(FieldKind::OptionalCallers)
                } else {
                    None
                }
            },
            DeclarationKind::Mcp => {
                if text::same_text(key, "type") || text::same_text(key, "server_label")
                    || text::same_text(key, "server_url") {
                    Some(FieldKind::Text)
                } else if text::same_text(key, "server_description") || text::same_text(
                    key,
                    "authorization",
                ) {
                    Some(FieldKind::OptionalText)
                } else if text::same_text(key, "allowed_tools") {
                    Some(FieldKind::OptionalTexts)
                } else if text::same_text(key, "require_approval") {
                    Some(FieldKind::Anything)
                } else if text::same_text(key, "allowed_callers") {
                    Some(FieldKind::OptionalCallers)
                } else if text::same_text(key, "defer_loading") {
                    Some(FieldKind::OptionalFlag)
                } else {
                    None
                }
            },
        }
    }

    fn check_field(self, key: &str, value: &Json) -> (r: Option<String>)
        ensures
            words(r) == self.field_complaint(key@, value@),
    {
        match self.kind_of(key) {
            Some(kind) => check_value(kind, value),
            None => {
                let mut why = joined3("unknown field `", key, "`, expected one of ");
                why.append(self.list());
                Some(why)
            },
        }
    }

    fn missing_field(self, declaration: &Json) -> (r: Option<&'static str>)
        ensures
            match r {
                Some(key) => self.missing(declaration@) == Some(key@),
                None => self.missing(declaration@) is None,
            },
    {
        if declaration.get("type").is_none() {
            return Some("type");
        }
        let (first, second) = match self {
            DeclarationKind::Namespace => ("name", "tools"),
            DeclarationKind::WebSearch => {
                return None;
            },
            DeclarationKind::Mcp => ("server_label", "server_url"),
        };
        if declaration.get(first).is_none() {
            Some(first)
        } else if declaration.get(second).is_none() {
            Some(second)
        } else {
            None
        }
    }

    fn failure(self, why: &str) -> (r: ToolRuntimeError)
        ensures
            r@ == ErrorView::invalid_request(
                "invalid "@ + self.name() + " declaration: "@ + why@,
            ),
    {
        let mut message = joined3("invalid ", self.label(), " declaration: ");
        message.append(why);
        ToolRuntimeError::invalid_request(message.as_str())
    }

    /// What is wrong with the fields of a declaration.
    pub fn check(self, declaration: &Json) -> (r: Option<ToolRuntimeError>)
        requires
            declaration@ is Object,
        ensures
            complaint(r) == self.malformed(declaration@),
    {
        let object = match declaration.as_object() {
            Some(object) => object,
            None => {
                return None;
            },
        };
        let ghost all = object@;
        let mut i: usize = 0;
        assert(all.skip(0) =~= all);
        while i < object.len()
            invariant
                all == object@,
                declaration@ == JsonView::Object(all),
                i <= all.len(),
                self.fields_complaint(all) == self.fields_complaint(all.skip(i as int)),
            decreases all.len() - i,
        {
            assert(all.skip(i as int)[0] == all[i as int]);
            assert(all.skip(i as int).drop_first() =~= all.skip(i + 1));
            if let Some(why) = self.check_field(object.key(i), object.value(i)) {
                return Some(self.failure(why.as_str()));
            }
            i += 1;
        }
        match self.missing_field(declaration) {
            Some(key) => Some(self.failure(joined3("missing field `", key, "`").as_str())),
            None => None,
        }
    }
}

/// Where nothing is wrong with the fields of a declaration, every field that it has is of its kind.
pub proof fn lemma_fields_are_of_their_kinds(kind: DeclarationKind, fields: Fields, key: Seq<char>)
    requires
        kind.fields_complaint(fields) is None,
    ensures
        match json::field(fields, key) {
            Some(value) => kind.field(key) is Some && value_complaint(
                kind.field(key)->0,
                value,
            ) is None,
            None => true,
        },
    decreases fields.len(),
{
    if fields.len() > 0 && fields[0].0 != key {
        lemma_fields_are_of_their_kinds(kind, fields.drop_first(), key);
    }
}

/// A list of callers with nothing wrong is one that can be read, and any other cannot.
pub proof fn lemma_callers_are_read(value: JsonView)
    ensures
        caller_list_complaint(value) is None <==> caller_list(value) is Some,
{
    if let JsonView::Array(items) = value {
        lemma_callers(items);
    }
}

proof fn lemma_callers(items: Seq<JsonView>)
    ensures
        callers_complaint(items) is None <==> (forall|i: int|
            0 <= i < items.len() ==> caller_of(#[trigger] items[i]) is Some),
    decreases items.len(),
{
    if items.len() > 0 {
        let rest = items.drop_first();
        lemma_callers(rest);
        assert(caller_complaint(items[0]) is None <==> caller_of(items[0]) is Some);
        assert forall|i: int| 1 <= i < items.len() implies #[trigger] items[i] == rest[i - 1] by {}
        if callers_complaint(items) is None {
            assert forall|i: int| 0 <= i < items.len() implies caller_of(
                #[trigger] items[i],
            ) is Some by {
                if i > 0 {
                    assert(caller_of(rest[i - 1]) is Some);
                }
            }
        } else if caller_complaint(items[0]) is None {
            let k = choose|k: int| 0 <= k < rest.len() && caller_of(#[trigger] rest[k]) is None;
            assert(caller_of(items[k + 1]) is None);
        }
    }
}

/// A list of texts with nothing wrong is one that can be read.
pub proof fn lemma_texts_are_read(items: Seq<JsonView>)
    ensures
        texts_complaint(items) is None <==> decode::text_list(JsonView::Array(items)) is Some,
    decreases items.len(),
{
    if items.len() > 0 {
        let rest = items.drop_first();
        lemma_texts_are_read(rest);
        if texts_complaint(items) is None {
            assert forall|i: int| 0 <= i < items.len() implies (#[trigger] items[i]) is Text by {
                if i > 0 {
                    assert(rest[i - 1] is Text);
                }
            }
        } else if items[0] is Text {
            let k = choose|k: int| 0 <= k < rest.len() && !((#[trigger] rest[k]) is Text);
            assert(!(items[k + 1] is Text));
        }
    }
}

/// The kinds of the fields of a namespace.
pub proof fn lemma_namespace_fields()
    ensures
        DeclarationKind::Namespace.field("name"@) == Some(FieldKind::Text),
        DeclarationKind::Namespace.field("description"@) == Some(FieldKind::OptionalText),
        DeclarationKind::Namespace.field("tools"@) == Some(FieldKind::Values),
        DeclarationKind::Namespace.field("defer_loading"@) == Some(FieldKind::OptionalFlag),
{
    reveal_strlit("type");
    reveal_strlit("name");
    reveal_strlit("description");
    reveal_strlit("tools");
    reveal_strlit("defer_loading");
    assert("description"@.len() == 11 && "tools"@.len() == 5 && "defer_loading"@.len() == 13);
    assert("type"@.len() == 4 && "name"@.len() == 4);
}

/// The kinds of the fields of a search.
pub proof fn lemma_web_search_fields()
    ensures
        DeclarationKind::WebSearch.field("filters"@) == Some(FieldKind::Filters),
        DeclarationKind::WebSearch.field("search_context_size"@) == Some(FieldKind::ContextSize),
        DeclarationKind::WebSearch.field("user_location"@) == Some(FieldKind::Location),
        DeclarationKind::WebSearch.field("allowed_callers"@) == Some(FieldKind::OptionalCallers),
{
    reveal_strlit("type");
    reveal_strlit("filters");
    reveal_strlit("search_context_size");
    reveal_strlit("user_location");
    reveal_strlit("allowed_callers");
    assert("type"@.len() == 4 && "filters"@.len() == 7 && "search_context_size"@.len() == 19);
    assert("user_location"@.len() == 13 && "allowed_callers"@.len() == 15);
}

/// The kinds of the fields of a remote server.
pub proof fn lemma_mcp_fields()
    ensures
        DeclarationKind::Mcp.field("server_label"@) == Some(FieldKind::Text),
        DeclarationKind::Mcp.field("server_url"@) == Some(FieldKind::Text),
        DeclarationKind::Mcp.field("server_description"@) == Some(FieldKind::OptionalText),
        DeclarationKind::Mcp.field("authorization"@) == Some(FieldKind::OptionalText),
        DeclarationKind::Mcp.field("allowed_tools"@) == Some(FieldKind::OptionalTexts),
        DeclarationKind::Mcp.field("allowed_callers"@) == Some(FieldKind::OptionalCallers),
        DeclarationKind::Mcp.field("defer_loading"@) == Some(FieldKind::OptionalFlag),
{
    reveal_strlit("type");
    reveal_strlit("server_label");
    reveal_strlit("server_url");
    reveal_strlit("server_description");
    reveal_strlit("authorization");
    reveal_strlit("allowed_tools");
    reveal_strlit("require_approval");
    reveal_strlit("allowed_callers");
    reveal_strlit("defer_loading");
    assert("type"@.len() == 4 && "server_label"@.len() == 12 && "server_url"@.len() == 10);
    assert("server_description"@.len() == 18 && "require_approval"@.len() == 16);
    assert("allowed_callers"@.len() == 15);
    assert("authorization"@.len() == 13 && "authorization"@[1] == 'u');
    assert("allowed_tools"@.len() == 13 && "allowed_tools"@[1] == 'l');
    assert("defer_loading"@.len() == 13 && "defer_loading"@[1] == 'e');
}

} // verus!
