//! A model request: its history, and the top-level fields beside it.

use vstd::prelude::*;
use vstd::string::*;
use crate::json::{Json, JsonView};
use crate::{json, text};

verus! {

/// A request to a model.
pub struct ModelRequest {
    pub stream: Option<bool>,
    /// The input items or messages in order.
    pub history: Vec<Json>,
    /// The other top-level fields.
    pub rest: Json,
}

pub struct RequestView {
    pub stream: Option<bool>,
    pub history: Seq<JsonView>,
    pub rest: JsonView,
}

impl RequestView {
    /// The request once a top-level field holds a value.
    pub open spec fn with_field(self, key: Seq<char>, value: JsonView) -> RequestView {
        RequestView {
            rest: match self.rest {
                JsonView::Object(_) => self.rest.with(key, value),
                _ => JsonView::empty().with(key, value),
            },
            ..self
        }
    }

    /// The tools that are declared; none where there is no array of them.
    pub open spec fn tools(self) -> Seq<JsonView> {
        match self.rest.get("tools"@) {
            Some(JsonView::Array(tools)) => tools,
            _ => Seq::empty(),
        }
    }
}

/// Copies of values.
pub fn clone_list(items: &Vec<Json>) -> (r: Vec<Json>)
    ensures
        json::views(r@) == json::views(items@),
{
    let mut r: Vec<Json> = Vec::new();
    let mut i: usize = 0;
    while i < items.len()
        invariant
            i <= items@.len(),
            r@.len() == i,
            forall|j: int| 0 <= j < i ==> (#[trigger] r@[j])@ == items@[j]@,
        decreases items@.len() - i,
    {
        r.push(items[i].clone());
        i += 1;
    }
    assert(json::views(r@) =~= json::views(items@));
    r
}

/// Adds values behind others.
pub fn extend_list(list: &mut Vec<Json>, added: Vec<Json>)
    ensures
        json::views(final(list)@) == json::views(old(list)@) + json::views(added@),
{
    let ghost before = list@;
    let ghost more = added@;
    let mut added = added;
    list.append(&mut added);
    assert(json::views(list@) =~= json::views(before) + json::views(more));
}

impl ModelRequest {
    pub open spec fn view(&self) -> RequestView {
        RequestView {
            stream: self.stream,
            history: json::views(self.history@),
            rest: self.rest@,
        }
    }

    pub fn rest_field(&self, name: &str) -> (r: Option<&Json>)
        ensures
            match r {
                Some(found) => self@.rest.get(name@) == Some(found@),
                None => self@.rest.get(name@) is None,
            },
    {
        self.rest.get(name)
    }

    pub fn replace_rest_field(&mut self, name: &str, value: Json)
        ensures
            final(self)@ == old(self)@.with_field(name@, value@),
    {
        if !self.rest.is_object() {
            self.rest = Json::object();
        }
        self.rest.set(name, value);
    }

    pub fn remove_rest_field(&mut self, name: &str)
        ensures
            final(self)@ == (RequestView { rest: old(self)@.rest.without(name@), ..old(self)@ }),
    {
        let _ = self.rest.take(name);
    }

    /// The tools that are declared; none where there is no array of them.
    pub fn declared_tools(&self) -> (r: Vec<Json>)
        ensures
            json::views(r@) == self@.tools(),
    {
        match self.rest.get("tools") {
            Some(Json::Array(tools)) => {
                assert(self@.rest.get("tools"@)->0->Array_0 =~= json::views(tools@));
                clone_list(tools)
            },
            _ => {
                let none: Vec<Json> = Vec::new();
                assert(json::views(none@) =~= Seq::empty());
                none
            },
        }
    }
}

impl Clone for ModelRequest {
    fn clone(&self) -> (r: Self)
        ensures
            r@ == self@,
    {
        ModelRequest {
            stream: self.stream,
            history: clone_list(&self.history),
            rest: self.rest.clone(),
        }
    }
}

/// The names of declared tools, with or without the demand that they are of a type.
pub open spec fn tool_names(tools: Seq<JsonView>, kind: Option<Seq<char>>) -> Seq<Seq<char>>
    decreases tools.len(),
{
    if tools.len() == 0 {
        Seq::empty()
    } else {
        let before = tool_names(tools.drop_last(), kind);
        let tool = tools.last();
        if (kind is None || tool.text_at("type"@) == kind) && tool.text_at("name"@) is Some {
            before.push(tool.text_at("name"@)->0)
        } else {
            before
        }
    }
}

/// The names of declared tools, with or without the demand that they are of a type.
pub fn names_of_tools(tools: &Vec<Json>, kind: Option<&str>) -> (r: Vec<String>)
    ensures
        text::strings(r@) == tool_names(
            json::views(tools@),
            match kind {
                Some(kind) => Some(kind@),
                None => None,
            },
        ),
{
    let ghost all = json::views(tools@);
    let ghost wanted = match kind {
        Some(kind) => Some(kind@),
        None => None,
    };
    let mut r: Vec<String> = Vec::new();
    assert(text::strings(r@) =~= Seq::empty());
    let mut i: usize = 0;
    while i < tools.len()
        invariant
            all == json::views(tools@),
            wanted == (match kind {
                Some(kind) => Some(kind@),
                None => None,
            }),
            i <= tools@.len(),
            text::strings(r@) == tool_names(all.take(i as int), wanted),
        decreases tools@.len() - i,
    {
        assert(all.take(i + 1).drop_last() =~= all.take(i as int));
        assert(all.take(i + 1).last() == tools@[i as int]@);
        let fits = match kind {
            Some(kind) => match tools[i].text_at("type") {
                Some(found) => text::same_text(found, kind),
                None => false,
            },
            None => true,
        };
        if fits {
            if let Some(name) = tools[i].text_at("name") {
                let ghost before = text::strings(r@);
                r.push(name.to_owned());
                assert(text::strings(r@) =~= before.push(name@));
            }
        }
        i += 1;
    }
    assert(all.take(i as int) =~= all);
    r
}

} // verus!
