//! Reading typed declarations out of JSON.

use vstd::prelude::*;
use vstd::string::*;
use crate::error::{ErrorView, ToolRuntimeError};
use crate::json::{Json, JsonView};
use crate::{json, text};

verus! {

/// A field that is neither absent nor null.
pub open spec fn present(value: JsonView, key: Seq<char>) -> Option<JsonView> {
    match value.get(key) {
        Some(JsonView::Null) => None,
        found => found,
    }
}

pub fn present_field<'a>(value: &'a Json, key: &str) -> (r: Option<&'a Json>)
    ensures
        match r {
            Some(found) => present(value@, key@) == Some(found@),
            None => present(value@, key@) is None,
        },
{
    match value.get(key) {
        Some(found) => {
            if found.is_null() {
                None
            } else {
                Some(found)
            }
        },
        None => None,
    }
}

/// The texts of an array of strings.
pub open spec fn text_list(value: JsonView) -> Option<Seq<Seq<char>>> {
    match value {
        JsonView::Array(items) => if forall|i: int|
            0 <= i < items.len() ==> (#[trigger] items[i]) is Text {
            Some(Seq::new(items.len(), |i: int| items[i]->Text_0))
        } else {
            None
        },
        _ => None,
    }
}

pub fn read_text_list(value: &Json) -> (r: Option<Vec<String>>)
    ensures
        match r {
            Some(list) => text_list(value@) == Some(text::strings(list@)),
            None => text_list(value@) is None,
        },
{
    let items = match value.as_array() {
        Some(items) => items,
        None => {
            return None;
        },
    };
    let ghost views = json::views(items@);
    let mut out: Vec<String> = Vec::new();
    let mut i: usize = 0;
    while i < items.len()
        invariant
            views == json::views(items@),
            value@ == JsonView::Array(views),
            i <= items@.len(),
            out@.len() == i,
            forall|j: int| 0 <= j < i ==> (#[trigger] views[j]) == JsonView::Text(out@[j]@),
        decreases items@.len() - i,
    {
        assert(views[i as int] == items@[i as int]@);
        match items[i].as_str() {
            Some(s) => {
                out.push(s.to_owned());
            },
            None => {
                return None;
            },
        }
        i += 1;
    }
    assert(text_list(value@)->0 =~= text::strings(out@));
    Some(out)
}

/// The name of a variant: a string, or the only key of an object whose value is null.
pub open spec fn variant(value: JsonView) -> Option<Seq<char>> {
    match value {
        JsonView::Text(s) => Some(s),
        JsonView::Object(fields) => if fields.len() == 1 && fields[0].1 is Null {
            Some(fields[0].0)
        } else {
            None
        },
        _ => None,
    }
}

pub fn read_variant(value: &Json) -> (r: Option<&str>)
    ensures
        match r {
            Some(s) => variant(value@) == Some(s@),
            None => variant(value@) is None,
        },
{
    match value {
        Json::Text(s) => Some(s.as_str()),
        Json::Object(object) => {
            if object.len() == 1 && object.value(0).is_null() {
                Some(object.key(0))
            } else {
                None
            }
        },
        _ => None,
    }
}

/// Values under the names that stand in the same places.
pub open spec fn zipped(names: Seq<Seq<char>>, items: Seq<JsonView>) -> JsonView
    decreases items.len(),
{
    if items.len() == 0 {
        JsonView::empty()
    } else {
        zipped(names, items.drop_last()).with(names[items.len() - 1], items.last())
    }
}

/// A record with these fields: an object, or an array of the first of them in order.
pub open spec fn record(value: JsonView, names: Seq<Seq<char>>) -> Option<JsonView> {
    match value {
        JsonView::Object(_) => Some(value),
        JsonView::Array(items) => if items.len() <= names.len() {
            Some(zipped(names, items))
        } else {
            None
        },
        _ => None,
    }
}

pub fn read_record(value: &Json, names: &Vec<&str>) -> (r: Option<Json>)
    ensures
        match r {
            Some(found) => record(value@, text::texts(names@)) == Some(found@) && found@ is Object,
            None => record(value@, text::texts(names@)) is None,
        },
{
    let ghost wanted = text::texts(names@);
    if value.is_object() {
        return Some(value.clone());
    }
    let items = match value.as_array() {
        Some(items) => items,
        None => {
            return None;
        },
    };
    let ghost views = json::views(items@);
    if items.len() > names.len() {
        return None;
    }
    let mut out = Json::object();
    let mut i: usize = 0;
    assert(views.take(0) =~= Seq::empty());
    while i < items.len()
        invariant
            wanted == text::texts(names@),
            views == json::views(items@),
            i <= items@.len() <= names@.len(),
            out@ is Object,
            out@ == zipped(wanted, views.take(i as int)),
        decreases items@.len() - i,
    {
        assert(views.take(i + 1).drop_last() =~= views.take(i as int));
        assert(views.take(i + 1).last() == items@[i as int]@);
        out.set(names[i], items[i].clone());
        i += 1;
    }
    assert(views.take(i as int) =~= views);
    Some(out)
}

/// Who may call a tool.
#[derive(Clone, Copy, Debug, PartialEq, Eq, Structural)]
pub enum AllowedCaller {
    Direct,
    Programmatic,
}

#[derive(Clone, Copy, Debug, PartialEq, Eq, Structural)]
pub struct AllowedCallers {
    pub direct: bool,
    pub programmatic: bool,
}

impl Default for AllowedCallers {
    fn default() -> (r: Self)
        ensures
            r.direct && !r.programmatic,
    {
        AllowedCallers { direct: true, programmatic: false }
    }
}

/// The caller of this name.
pub open spec fn caller_named(name: Seq<char>) -> Option<AllowedCaller> {
    if name == "direct"@ {
        Some(AllowedCaller::Direct)
    } else if name == "programmatic"@ {
        Some(AllowedCaller::Programmatic)
    } else {
        None
    }
}

pub fn read_caller(name: &str) -> (r: Option<AllowedCaller>)
    ensures
        r == caller_named(name@),
{
    if text::same_text(name, "direct") {
        Some(AllowedCaller::Direct)
    } else if text::same_text(name, "programmatic") {
        Some(AllowedCaller::Programmatic)
    } else {
        None
    }
}

pub open spec fn caller_of(value: JsonView) -> Option<AllowedCaller> {
    match variant(value) {
        Some(name) => caller_named(name),
        None => None,
    }
}

/// The callers in an array of them.
pub open spec fn caller_list(value: JsonView) -> Option<Seq<AllowedCaller>> {
    match value {
        JsonView::Array(items) => if forall|i: int|
            0 <= i < items.len() ==> caller_of(#[trigger] items[i]) is Some {
            Some(Seq::new(items.len(), |i: int| caller_of(items[i])->0))
        } else {
            None
        },
        _ => None,
    }
}

pub fn read_caller_list(value: &Json) -> (r: Option<Vec<AllowedCaller>>)
    ensures
        match r {
            Some(list) => caller_list(value@) == Some(list@),
            None => caller_list(value@) is None,
        },
{
    let items = match value.as_array() {
        Some(items) => items,
        None => {
            return None;
        },
    };
    let ghost views = json::views(items@);
    let mut out: Vec<AllowedCaller> = Vec::new();
    let mut i: usize = 0;
    while i < items.len()
        invariant
            views == json::views(items@),
            value@ == JsonView::Array(views),
            i <= items@.len(),
            out@.len() == i,
            forall|j: int| 0 <= j < i ==> caller_of(#[trigger] views[j]) == Some(out@[j]),
        decreases items@.len() - i,
    {
        assert(views[i as int] == items@[i as int]@);
        let caller = match read_variant(&items[i]) {
            Some(name) => read_caller(name),
            None => None,
        };
        match caller {
            Some(caller) => {
                out.push(caller);
            },
            None => {
                return None;
            },
        }
        i += 1;
    }
    assert(caller_list(value@)->0 =~= out@);
    Some(out)
}

/// Who may call a tool for which these callers are named.
pub open spec fn callers_allowed(
    callers: Option<Seq<AllowedCaller>>,
    default_programmatic: bool,
) -> Result<AllowedCallers, ErrorView> {
    match callers {
        None => Ok(
            AllowedCallers { direct: !default_programmatic, programmatic: default_programmatic },
        ),
        Some(list) => if list.len() == 0 {
            Err(
                ErrorView::invalid_request(
                    "allowed_callers must contain direct, programmatic, or both"@,
                ),
            )
        } else if !list.no_duplicates() {
            Err(ErrorView::invalid_request("allowed_callers must not contain duplicates"@))
        } else {
            Ok(
                AllowedCallers {
                    direct: list.contains(AllowedCaller::Direct),
                    programmatic: list.contains(AllowedCaller::Programmatic),
                },
            )
        },
    }
}

pub open spec fn callers_result(r: Result<AllowedCallers, ToolRuntimeError>) -> Result<
    AllowedCallers,
    ErrorView,
> {
    match r {
        Ok(callers) => Ok(callers),
        Err(error) => Err(error@),
    }
}

pub fn parse_allowed_callers(callers: Option<Vec<AllowedCaller>>, default_programmatic: bool) -> (r:
    Result<AllowedCallers, ToolRuntimeError>)
    ensures
        callers_result(r) == callers_allowed(
            match callers {
                Some(list) => Some(list@),
                None => None,
            },
            default_programmatic,
        ),
{
    let list = match callers {
        Some(list) => list,
        None => {
            return Ok(
                AllowedCallers {
                    direct: !default_programmatic,
                    programmatic: default_programmatic,
                },
            );
        },
    };
    if list.len() == 0 {
        return Err(
            ToolRuntimeError::invalid_request(
                "allowed_callers must contain direct, programmatic, or both",
            ),
        );
    }
    let mut parsed = AllowedCallers { direct: false, programmatic: false };
    let mut i: usize = 0;
    while i < list.len()
        invariant
            i <= list@.len(),
            list@.len() > 0,
            list@.take(i as int).no_duplicates(),
            parsed.direct == list@.take(i as int).contains(AllowedCaller::Direct),
            parsed.programmatic == list@.take(i as int).contains(AllowedCaller::Programmatic),
            callers == Some(list),
        decreases list@.len() - i,
    {
        let ghost before = list@.take(i as int);
        let ghost after = list@.take(i + 1);
        assert(after =~= before.push(list@[i as int]));
        let duplicate = match list[i] {
            AllowedCaller::Direct => {
                let seen = parsed.direct;
                parsed.direct = true;
                seen
            },
            AllowedCaller::Programmatic => {
                let seen = parsed.programmatic;
                parsed.programmatic = true;
                seen
            },
        };
        proof {
            assert(after[i as int] == list@[i as int]);
            assert forall|c: AllowedCaller| after.contains(c) <==> before.contains(c) || c
                == list@[i as int] by {
                if before.contains(c) {
                    let k = choose|k: int| 0 <= k < before.len() && before[k] == c;
                    assert(after[k] == c);
                }
            }
        }
        if duplicate {
            proof {
                let k = choose|k: int| 0 <= k < before.len() && before[k] == list@[i as int];
                assert(list@[k] == list@[i as int]);
            }
            return Err(
                ToolRuntimeError::invalid_request("allowed_callers must not contain duplicates"),
            );
        }
        i += 1;
    }
    assert(list@.take(i as int) =~= list@);
    Ok(parsed)
}

} // verus!
