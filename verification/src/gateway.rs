//! Small decisions of the gateway around managed requests.

use vstd::prelude::*;
use vstd::string::*;
use crate::json::{Json, JsonView};
use crate::serde_value::{json_parsed_bytes, parse_bytes};
use crate::text;
use crate::uri::{parse_uri, uri_parsed, UriParts, UriView};

verus! {

/// The header that carries the trace of a request.
pub const TRACEPARENT: &'static str = "traceparent";

/// One header: its name in lower case, and its value.
pub struct HeaderField {
    pub name: String,
    pub value: String,
}

pub open spec fn field_views(headers: Seq<HeaderField>) -> Seq<(Seq<char>, Seq<char>)> {
    Seq::new(headers.len(), |i: int| (headers[i].name@, headers[i].value@))
}

/// The headers that have another name.
pub open spec fn without_header(headers: Seq<(Seq<char>, Seq<char>)>, name: Seq<char>) -> Seq<
    (Seq<char>, Seq<char>),
>
    decreases headers.len(),
{
    if headers.len() == 0 {
        Seq::empty()
    } else if headers.last().0 == name {
        without_header(headers.drop_last(), name)
    } else {
        without_header(headers.drop_last(), name).push(headers.last())
    }
}

/// The headers that a guard of a response is given: those of the response, with the trace of the
/// request where it has one.
pub open spec fn guard_headers(headers: Seq<(Seq<char>, Seq<char>)>, traceparent: Option<Seq<char>>) -> Seq<
    (Seq<char>, Seq<char>),
> {
    match traceparent {
        Some(value) => without_header(headers, TRACEPARENT@).push((TRACEPARENT@, value)),
        None => headers,
    }
}

/// The headers that a guard of a response is given.
pub fn response_prompt_guard_headers(headers: &Vec<HeaderField>, traceparent: Option<&str>) -> (r: Vec<
    HeaderField,
>)
    ensures
        field_views(r@) == guard_headers(
            field_views(headers@),
            match traceparent {
                Some(value) => Some(value@),
                None => None,
            },
        ),
{
    let ghost all = field_views(headers@);
    let replaced = traceparent.is_some();
    let mut kept: Vec<HeaderField> = Vec::new();
    let mut i: usize = 0;
    proof {
        assert(field_views(kept@) =~= Seq::empty());
        assert(all.take(0) =~= Seq::empty());
    }
    while i < headers.len()
        invariant
            all == field_views(headers@),
            i <= headers@.len(),
            field_views(kept@) == (if replaced {
                without_header(all.take(i as int), TRACEPARENT@)
            } else {
                all.take(i as int)
            }),
        decreases headers@.len() - i,
    {
        let ghost before = field_views(kept@);
        let ghost field = all[i as int];
        proof {
            assert(all.take(i + 1).drop_last() =~= all.take(i as int));
            assert(all.take(i + 1).last() == field);
            assert(all.take(i + 1) =~= all.take(i as int).push(field));
        }
        if !(replaced && text::same_text(headers[i].name.as_str(), TRACEPARENT)) {
            kept.push(
                HeaderField { name: headers[i].name.clone(), value: headers[i].value.clone() },
            );
            assert(field_views(kept@) =~= before.push(field));
        }
        i += 1;
    }
    assert(all.take(i as int) =~= all);
    if let Some(value) = traceparent {
        let ghost before = field_views(kept@);
        kept.push(HeaderField { name: TRACEPARENT.to_owned(), value: value.to_owned() });
        assert(field_views(kept@) =~= before.push((TRACEPARENT@, value@)));
    }
    kept
}

/// The parts of a query between its ampersands.
pub open spec fn parameters(query: Seq<char>) -> Seq<Seq<char>>
    decreases query.len(),
{
    if query.len() == 0 {
        seq![Seq::empty()]
    } else {
        let before = parameters(query.drop_last());
        if query.last() == '&' {
            before.push(Seq::empty())
        } else {
            before.drop_last().push(before.last().push(query.last()))
        }
    }
}

/// Whether a URI asks for a stream of events: one parameter of its query is `alt=sse`.
pub open spec fn requests_sse(uri: Option<UriView>) -> bool {
    match uri {
        Some(uri) => match uri.query {
            Some(query) => parameters(query).contains("alt=sse"@),
            None => false,
        },
        None => false,
    }
}

/// Whether texts hold another once one more is added.
proof fn lemma_contains_pushed(texts: Seq<Seq<char>>, added: Seq<char>, wanted: Seq<char>)
    ensures
        texts.push(added).contains(wanted) <==> texts.contains(wanted) || added == wanted,
{
    let all = texts.push(added);
    if texts.contains(wanted) {
        let k = texts.index_of(wanted);
        assert(all[k] == wanted);
    }
    if added == wanted {
        assert(all[texts.len() as int] == wanted);
    }
    if all.contains(wanted) && added != wanted {
        let k = all.index_of(wanted);
        assert(texts[k] == wanted);
    }
}

/// Whether a query has a parameter.
fn has_parameter(query: &str, wanted: &str) -> (r: bool)
    ensures
        r == parameters(query@).contains(wanted@),
{
    let chars = text::chars_of(query);
    let mut found = false;
    let mut start: usize = 0;
    let mut i: usize = 0;
    let ghost mut done: Seq<Seq<char>> = Seq::empty();
    proof {
        assert(query@.take(0) =~= Seq::empty());
        assert(query@.subrange(0, 0) =~= Seq::empty());
        assert(parameters(query@.take(0)) =~= done.push(query@.subrange(0, 0)));
    }
    while i < chars.len()
        invariant
            chars@ == query@,
            start <= i <= chars@.len(),
            parameters(query@.take(i as int)) == done.push(query@.subrange(start as int, i as int)),
            found == done.contains(wanted@),
        decreases chars@.len() - i,
    {
        let c = chars[i];
        let ghost current = query@.subrange(start as int, i as int);
        proof {
            assert(query@.take(i + 1).drop_last() =~= query@.take(i as int));
            assert(query@.take(i + 1).last() == c);
            assert(done.push(current).drop_last() =~= done);
        }
        if c == '&' {
            let same = text::same_text(query.substring_char(start, i), wanted);
            proof {
                lemma_contains_pushed(done, current, wanted@);
                done = done.push(current);
                assert(query@.subrange(i + 1, i + 1) =~= Seq::empty());
            }
            found = found || same;
            start = i + 1;
        } else {
            assert(query@.subrange(start as int, i + 1) =~= current.push(c));
        }
        i += 1;
    }
    let same = text::same_text(query.substring_char(start, i), wanted);
    proof {
        assert(query@.take(i as int) =~= query@);
        lemma_contains_pushed(done, query@.subrange(start as int, i as int), wanted@);
    }
    found || same
}

/// Whether a URI asks for a stream of events, given its parts.
pub fn parts_request_sse(uri: &Option<UriParts>) -> (r: bool)
    ensures
        r == requests_sse(
            match *uri {
                Some(uri) => Some(uri@),
                None => None,
            },
        ),
{
    match uri {
        Some(uri) => match &uri.query {
            Some(query) => has_parameter(query.as_str(), "alt=sse"),
            None => false,
        },
        None => false,
    }
}

/// Whether a URI asks for a stream of events.
pub fn query_requests_sse(uri: &str) -> (r: bool)
    ensures
        r == requests_sse(uri_parsed(uri@)),
{
    parts_request_sse(&parse_uri(uri))
}

/// The names on a path, one after the other.
pub type PathNames = Seq<Seq<char>>;

/// Where the settings of a checkout may be, by the directory of one of its packages: at the root,
/// two directories up, and, for a worktree, at the root of the main checkout.
pub open spec fn dotenv_places(manifest: PathNames) -> Seq<PathNames> {
    if manifest.len() < 2 {
        Seq::empty()
    } else {
        let root = manifest.take(manifest.len() - 2);
        let own = root.push(".env"@);
        if root.len() >= 2 && root[root.len() - 2] == ".worktrees"@ {
            seq![own, root.take(root.len() - 2).push(".env"@)]
        } else {
            seq![own]
        }
    }
}

pub open spec fn path_views(paths: Seq<Vec<String>>) -> Seq<PathNames> {
    Seq::new(paths.len(), |i: int| text::strings(paths[i]@))
}

fn dotenv_under(names: &Vec<String>, n: usize) -> (r: Vec<String>)
    requires
        n <= names@.len(),
    ensures
        text::strings(r@) == text::strings(names@).take(n as int).push(".env"@),
{
    let ghost all = text::strings(names@);
    let mut path: Vec<String> = Vec::new();
    let mut i: usize = 0;
    assert(text::strings(path@) =~= all.take(0));
    while i < n
        invariant
            all == text::strings(names@),
            i <= n <= names@.len(),
            text::strings(path@) == all.take(i as int),
        decreases n - i,
    {
        let ghost before = text::strings(path@);
        path.push(names[i].clone());
        proof {
            assert(text::strings(path@) =~= before.push(all[i as int]));
            assert(all.take(i + 1) =~= all.take(i as int).push(all[i as int]));
        }
        i += 1;
    }
    let ghost before = text::strings(path@);
    path.push(".env".to_owned());
    assert(text::strings(path@) =~= before.push(".env"@));
    path
}

/// Where the settings of a checkout may be, by the directory of one of its packages.
pub fn dotenv_candidates_for_manifest(manifest: &Vec<String>) -> (r: Vec<Vec<String>>)
    ensures
        path_views(r@) == dotenv_places(text::strings(manifest@)),
{
    let ghost names = text::strings(manifest@);
    let mut candidates: Vec<Vec<String>> = Vec::new();
    if manifest.len() < 2 {
        assert(path_views(candidates@) =~= Seq::empty());
        return candidates;
    }
    let n: usize = manifest.len() - 2;
    let ghost root = names.take(n as int);
    candidates.push(dotenv_under(manifest, n));
    if n >= 2 && text::same_text(manifest[n - 2].as_str(), ".worktrees") {
        candidates.push(dotenv_under(manifest, n - 2));
        assert(root.take(root.len() - 2) =~= names.take(n - 2));
    }
    assert(path_views(candidates@) =~= dotenv_places(names));
    candidates
}

/// The failure of a web search that was answered, where it was not answered as it should be.
pub open spec fn live_search_complaint(status: u16, body: Result<JsonView, Seq<char>>) -> Option<
    Seq<char>,
> {
    if status != 200 {
        Some("live Web Search returned non-200 status"@)
    } else {
        match body {
            Err(_) => Some("live FC response was not valid JSON"@),
            Ok(value) => match value.get("results"@) {
                Some(JsonView::Array(_)) => None,
                _ => Some("live Web Search response omitted its results array"@),
            },
        }
    }
}

/// Whether a web search was answered as it should be. What the answer holds is in no failure.
pub fn validate_live_web_search_response(status: u16, body: &[u8]) -> (r: Result<(), &'static str>)
    ensures
        live_search_complaint(status, json_parsed_bytes(body@)) == (match r {
            Ok(_) => None,
            Err(why) => Some(why@),
        }),
{
    if status != 200 {
        return Err("live Web Search returned non-200 status");
    }
    match parse_bytes(body) {
        Err(_) => Err("live FC response was not valid JSON"),
        Ok(value) => match value.get("results") {
            Some(Json::Array(_)) => Ok(()),
            _ => Err("live Web Search response omitted its results array"),
        },
    }
}

} // verus!
