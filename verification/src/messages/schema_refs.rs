//! Local references in a JSON Schema.

use vstd::prelude::*;
use vstd::string::*;
use crate::json::{Json, JsonView, Object};
use crate::{json, serde_value, text};

verus! {

/// How deep a schema may nest, references followed.
pub const MAX_LOCAL_REF_DEPTH: usize = 128;

/// The local reference of a node: what follows the hash sign.
pub open spec fn local_reference(node: JsonView) -> Option<Seq<char>> {
    match node.text_at("$ref"@) {
        Some(reference) => text::without_prefix(reference, "#"@),
        None => None,
    }
}

/// Whether every local reference below a node leads somewhere, none leads back to one that is
/// being followed, and nothing nests too deep.
pub open spec fn refs_hold(
    root: JsonView,
    node: JsonView,
    depth: nat,
    following: Seq<Seq<char>>,
) -> bool
    decreases MAX_LOCAL_REF_DEPTH + 1 - depth, 0nat,
{
    if depth > MAX_LOCAL_REF_DEPTH {
        false
    } else {
        let reference = local_reference(node);
        let leads = match reference {
            None => true,
            Some(target) => {
                &&& target.len() == 0 || text::has_prefix(target, "/"@)
                &&& serde_value::json_pointed(root, target) is Some
                &&& !following.contains(target)
                &&& refs_hold(
                    root,
                    serde_value::json_pointed(root, target)->0,
                    depth + 1,
                    following.push(target),
                )
            },
        };
        leads && match node {
            JsonView::Array(items) => all_refs_hold(root, items, depth + 1, following),
            JsonView::Object(fields) => all_refs_hold(
                root,
                crate::output::field_values(fields),
                depth + 1,
                following,
            ),
            _ => true,
        }
    }
}

/// Whether the references below every node hold.
pub open spec fn all_refs_hold(
    root: JsonView,
    nodes: Seq<JsonView>,
    depth: nat,
    following: Seq<Seq<char>>,
) -> bool
    decreases MAX_LOCAL_REF_DEPTH + 1 - depth, nodes.len() + 1,
{
    if nodes.len() == 0 {
        true
    } else {
        all_refs_hold(root, nodes.drop_last(), depth, following) && refs_hold(
            root,
            nodes.last(),
            depth,
            following,
        )
    }
}

proof fn lemma_all_stop(
    root: JsonView,
    nodes: Seq<JsonView>,
    depth: nat,
    following: Seq<Seq<char>>,
    n: int,
)
    requires
        0 <= n <= nodes.len(),
        !all_refs_hold(root, nodes.take(n), depth, following),
    ensures
        !all_refs_hold(root, nodes, depth, following),
    decreases nodes.len() - n,
{
    if n < nodes.len() {
        assert(nodes.take(n + 1).drop_last() =~= nodes.take(n));
        lemma_all_stop(root, nodes, depth, following, n + 1);
    } else {
        assert(nodes.take(n) =~= nodes);
    }
}

fn extended(list: &Vec<String>, added: &str) -> (r: Vec<String>)
    ensures
        text::strings(r@) == text::strings(list@).push(added@),
{
    let mut r: Vec<String> = Vec::new();
    let mut i: usize = 0;
    while i < list.len()
        invariant
            i <= list@.len(),
            r@.len() == i,
            forall|j: int| 0 <= j < i ==> (#[trigger] r@[j])@ == list@[j]@,
        decreases list@.len() - i,
    {
        r.push(list[i].clone());
        i += 1;
    }
    r.push(added.to_owned());
    assert(text::strings(r@) =~= text::strings(list@).push(added@));
    r
}

fn walk_items(
    root: &Json,
    items: &Vec<Json>,
    depth: usize,
    following: &Vec<String>,
) -> (r: bool)
    requires
        depth <= MAX_LOCAL_REF_DEPTH + 1,
    ensures
        r == all_refs_hold(
            root@,
            json::views(items@),
            depth as nat,
            text::strings(following@),
        ),
    decreases MAX_LOCAL_REF_DEPTH + 1 - depth, 1nat,
{
    let ghost all = json::views(items@);
    let ghost path = text::strings(following@);
    let mut i: usize = 0;
    assert(all.take(0) =~= Seq::empty());
    while i < items.len()
        invariant
            all == json::views(items@),
            path == text::strings(following@),
            depth <= MAX_LOCAL_REF_DEPTH + 1,
            i <= items@.len(),
            all_refs_hold(root@, all.take(i as int), depth as nat, path),
        decreases items@.len() - i,
    {
        assert(all.take(i + 1).drop_last() =~= all.take(i as int));
        assert(all.take(i + 1).last() == items@[i as int]@);
        if !walk_schema_refs(root, &items[i], depth, following) {
            proof {
                lemma_all_stop(root@, all, depth as nat, path, i + 1);
            }
            return false;
        }
        i += 1;
    }
    assert(all.take(i as int) =~= all);
    true
}

fn walk_fields(root: &Json, object: &Object, depth: usize, following: &Vec<String>) -> (r: bool)
    requires
        depth <= MAX_LOCAL_REF_DEPTH + 1,
    ensures
        r == all_refs_hold(
            root@,
            crate::output::field_values(object@),
            depth as nat,
            text::strings(following@),
        ),
    decreases MAX_LOCAL_REF_DEPTH + 1 - depth, 1nat,
{
    let ghost all = crate::output::field_values(object@);
    let ghost path = text::strings(following@);
    let count: usize = object.len();
    let mut i: usize = 0;
    assert(all.take(0) =~= Seq::empty());
    while i < count
        invariant
            all == crate::output::field_values(object@),
            path == text::strings(following@),
            depth <= MAX_LOCAL_REF_DEPTH + 1,
            count == object@.len(),
            i <= count,
            all_refs_hold(root@, all.take(i as int), depth as nat, path),
        decreases count - i,
    {
        assert(all.take(i + 1).drop_last() =~= all.take(i as int));
        assert(all.take(i + 1).last() == object@[i as int].1);
        if !walk_schema_refs(root, object.value(i), depth, following) {
            proof {
                lemma_all_stop(root@, all, depth as nat, path, i + 1);
            }
            return false;
        }
        i += 1;
    }
    assert(all.take(i as int) =~= all);
    true
}

/// Whether every local reference below a node holds.
pub fn walk_schema_refs(root: &Json, node: &Json, depth: usize, following: &Vec<String>) -> (r: bool)
    ensures
        r == refs_hold(root@, node@, depth as nat, text::strings(following@)),
    decreases MAX_LOCAL_REF_DEPTH + 1 - depth, 0nat,
{
    if depth > MAX_LOCAL_REF_DEPTH {
        return false;
    }
    let reference = match node.text_at("$ref") {
        Some(reference) => text::strip_prefix(reference, "#"),
        None => None,
    };
    if let Some(target) = reference {
        if !target.is_empty() && !text::starts_with(target, "/") {
            return false;
        }
        let found = match serde_value::follow_pointer(root, target) {
            Some(found) => found,
            None => {
                return false;
            },
        };
        if text::among_strings(following, target) {
            return false;
        }
        let path = extended(following, target);
        if !walk_schema_refs(root, &found, depth + 1, &path) {
            return false;
        }
    }
    match node {
        Json::Array(items) => {
            assert(node@->Array_0 =~= json::views(items@));
            walk_items(root, items, depth + 1, following)
        },
        Json::Object(object) => walk_fields(root, object, depth + 1, following),
        _ => true,
    }
}

/// Whether a schema refers to parts of itself without going round in circles.
pub fn schema_refs_hold(schema: &Json) -> (r: bool)
    ensures
        r == refs_hold(schema@, schema@, 0, Seq::empty()),
{
    let none: Vec<String> = Vec::new();
    assert(text::strings(none@) =~= Seq::empty());
    walk_schema_refs(schema, schema, 0, &none)
}

} // verus!
