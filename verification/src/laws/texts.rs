//! Texts, their lines and numbers, values that are cut to a size, and where requests come from and go.

use vstd::prelude::*;
use vstd::string::*;
use crate::address::{public_address, IpAddress};
use crate::gateway::{dotenv_places, guard_headers, parameters, requests_sse, without_header};
use crate::json::JsonView;
use crate::output::{cut, largest};
use crate::serde_value::json_size;
use crate::text::{
    after_line, byte_len, first_line, has_prefix, has_suffix, line_end, lines,
    truncated_is_the_longest_fitting_prefix, without_prefix, without_suffix,
};
use crate::uri::UriView;

verus! {

/// What a text begins or ends with is put there by joining, and is taken off again without touching
/// the rest.
pub proof fn what_is_joined_to_a_text_is_taken_off_again(s: Seq<char>, part: Seq<char>)
    ensures
        without_prefix(part + s, part) == Some(s),
        without_suffix(s + part, part) == Some(s),
        match without_prefix(s, part) {
            Some(rest) => s == part + rest,
            None => forall|rest: Seq<char>| s != #[trigger] (part + rest),
        },
        match without_suffix(s, part) {
            Some(rest) => s == rest + part,
            None => forall|rest: Seq<char>| s != #[trigger] (rest + part),
        },
{
    assert((part + s).take(part.len() as int) =~= part);
    assert((part + s).skip(part.len() as int) =~= s);
    assert((s + part).skip((s + part).len() - part.len()) =~= part);
    assert((s + part).take((s + part).len() - part.len()) =~= s);
    if has_prefix(s, part) {
        assert(s =~= part + s.skip(part.len() as int));
    } else {
        assert forall|rest: Seq<char>| s != #[trigger] (part + rest) by {
            assert((part + rest).take(part.len() as int) =~= part);
        }
    }
    if has_suffix(s, part) {
        assert(s =~= s.take(s.len() - part.len()) + part);
    } else {
        assert forall|rest: Seq<char>| s != #[trigger] (rest + part) by {
            assert((rest + part).skip((rest + part).len() - part.len()) =~= part);
        }
    }
}

/// No line of a text holds a line end.
pub proof fn no_line_holds_a_line_end(s: Seq<char>)
    ensures
        forall|i: int|
            0 <= i < lines(s).len() ==> !(#[trigger] lines(s)[i]).contains('\n'),
    decreases s.len(),
{
    if s.len() > 0 {
        lemma_line_end_is_first(s);
        no_line_holds_a_line_end(after_line(s));
        let later = lines(after_line(s));
        assert forall|i: int| 0 <= i < lines(s).len() implies !(#[trigger] lines(s)[i]).contains(
            '\n',
        ) by {
            if i > 0 {
                assert(lines(s)[i] == later[i - 1]);
            } else {
                assert(lines(s)[0] == first_line(s));
            }
        }
    }
}

proof fn lemma_line_end_is_first(s: Seq<char>)
    ensures
        line_end(s) <= s.len(),
        line_end(s) < s.len() ==> s[line_end(s) as int] == '\n',
        forall|i: int| 0 <= i < line_end(s) ==> #[trigger] s[i] != '\n',
    decreases s.len(),
{
    if s.len() > 0 && s[0] != '\n' {
        lemma_line_end_is_first(s.drop_first());
        assert forall|i: int| 0 <= i < line_end(s) implies #[trigger] s[i] != '\n' by {
            if i > 0 {
                assert(s.drop_first()[i - 1] == s[i]);
            }
        }
    }
}

/// A line that is put before a text is the first of its lines, and the lines of the text follow it.
pub proof fn a_line_is_read_as_it_was_written(line: Seq<char>, s: Seq<char>)
    requires
        !line.contains('\n'),
        line.len() > 0 ==> line.last() != '\r',
    ensures
        lines(line + seq!['\n'] + s) =~= seq![line] + lines(s),
        lines(line + seq!['\r', '\n'] + s) =~= seq![line] + lines(s),
        line.len() > 0 ==> lines(line) =~= seq![line],
        lines(Seq::empty()).len() == 0,
{
    let whole = line + seq!['\n'] + s;
    lemma_line_end_at(whole, line.len() as int);
    assert(whole.take(line.len() as int) =~= line);
    assert(whole.skip(line.len() as int + 1) =~= s);
    let other = line + seq!['\r', '\n'] + s;
    lemma_line_end_at(other, line.len() as int + 1);
    assert(other.take(line.len() as int) =~= line);
    assert(other.skip(line.len() as int + 2) =~= s);
    if line.len() > 0 {
        lemma_line_end_at(line, line.len() as int);
        assert(line.take(line.len() as int) =~= line);
        assert(lines(after_line(line)) =~= Seq::empty());
    }
}

proof fn lemma_line_end_at(s: Seq<char>, n: int)
    requires
        0 <= n <= s.len(),
        n < s.len() ==> s[n] == '\n',
        forall|i: int| 0 <= i < n ==> #[trigger] s[i] != '\n',
    ensures
        line_end(s) == n,
    decreases s.len(),
{
    lemma_line_end_is_first(s);
    if line_end(s) < n {
        assert(s[line_end(s) as int] != '\n');
    }
}

/// The part of a value that is cut first is the largest of its parts, and of several the last.
pub proof fn the_largest_part_is_the_one_that_is_cut(items: Seq<JsonView>, i: int)
    requires
        0 <= i < items.len(),
    ensures
        0 <= largest(items) < items.len(),
        json_size(items[i]) <= json_size(items[largest(items)]),
        i > largest(items) ==> json_size(items[i]) < json_size(items[largest(items)]),
    decreases items.len(),
{
    if items.len() > 1 {
        let rest = items.drop_last();
        let k = largest(rest);
        if i < rest.len() {
            the_largest_part_is_the_one_that_is_cut(rest, i);
            assert(rest[i] == items[i]);
        } else {
            the_largest_part_is_the_one_that_is_cut(rest, 0);
        }
        assert(rest[k] == items[k]);
    }
}

/// A text that is cut keeps as much of its beginning as fits into three quarters of its bytes, rounded
/// up, and loses at least one byte; nothing of an empty text, a number or a flag can be cut.
pub proof fn a_text_is_cut_by_a_quarter(s: Seq<char>)
    ensures
        match cut(JsonView::Text(s)) {
            Some(JsonView::Text(shorter)) => {
                let bytes = byte_len(s);
                let kept = if bytes >= 4 {
                    bytes - bytes / 4
                } else {
                    bytes - 1
                };
                &&& s.len() > 0
                &&& has_prefix(s, shorter)
                &&& byte_len(shorter) <= kept
                &&& shorter.len() < s.len() ==> byte_len(s.take(shorter.len() as int + 1)) > kept
            },
            Some(_) => false,
            None => s.len() == 0,
        },
        cut(JsonView::Null) is None,
        cut(JsonView::Array(Seq::empty())) is None,
        cut(JsonView::Object(Seq::empty())) is None,
        forall|b: bool| (#[trigger] cut(JsonView::Bool(b))) is None,
{
    if s.len() > 0 {
        let kept = crate::output::cut_target(byte_len(s));
        lemma_some_bytes(s);
        truncated_is_the_longest_fitting_prefix(s, kept);
    }
    assert(largest(crate::output::field_values(Seq::empty())) == 0);
}

proof fn lemma_some_bytes(s: Seq<char>)
    requires
        s.len() > 0,
    ensures
        byte_len(s) > 0,
{
    assert(s.drop_last().push(s.last()) =~= s);
    crate::text::lemma_byte_len_push(s.drop_last(), s.last());
}

/// A value that is cut is cut in one place: an array in one of its items, or by its last item; an
/// object in one of its fields, which keeps its name, or by its first field.
pub proof fn a_value_is_cut_in_one_place(
    items: Seq<JsonView>,
    fields: crate::json::Fields,
)
    ensures
        items.len() > 0 ==> match cut(JsonView::Array(items)) {
            Some(JsonView::Array(after)) => after == items.drop_last() || (exists|k: int|
                0 <= k < items.len() && cut(#[trigger] items[k]) is Some && after == items.update(
                    k,
                    cut(items[k])->0,
                )),
            _ => false,
        },
        fields.len() > 0 ==> match cut(JsonView::Object(fields)) {
            Some(JsonView::Object(after)) => after == fields.drop_first() || (exists|k: int|
                0 <= k < fields.len() && cut((#[trigger] fields[k]).1) is Some && after
                    == fields.update(k, (fields[k].0, cut(fields[k].1)->0))),
            _ => false,
        },
{
    if items.len() > 0 {
        the_largest_part_is_the_one_that_is_cut(items, 0);
        let k = largest(items);
        assert(cut(items[k]) is Some ==> cut(JsonView::Array(items)) == Some(
            JsonView::Array(items.update(k, cut(items[k])->0)),
        ));
    }
    if fields.len() > 0 {
        let values = crate::output::field_values(fields);
        the_largest_part_is_the_one_that_is_cut(values, 0);
        let k = largest(values);
        assert(cut(fields[k].1) is Some ==> cut(JsonView::Object(fields)) == Some(
            JsonView::Object(fields.update(k, (fields[k].0, cut(fields[k].1)->0))),
        ));
    }
}

/// Whether a header has another name than this one.
pub open spec fn other_than(name: Seq<char>) -> spec_fn((Seq<char>, Seq<char>)) -> bool {
    |header: (Seq<char>, Seq<char>)| header.0 != name
}

/// A request to a guard carries one trace parent, the given one, and all its other headers; without
/// one it carries its headers as they are.
pub proof fn a_guard_is_given_one_trace_parent(
    headers: Seq<(Seq<char>, Seq<char>)>,
    value: Seq<char>,
)
    ensures
        ({
            let given = guard_headers(headers, Some(value));
            &&& given =~= headers.filter(other_than("traceparent"@)) + seq![("traceparent"@, value)]
            &&& forall|i: int|
                0 <= i < given.len() - 1 ==> (#[trigger] given[i]).0 != "traceparent"@
        }),
        guard_headers(headers, None) == headers,
{
    lemma_without_header(headers, "traceparent"@);
}

proof fn lemma_without_header(headers: Seq<(Seq<char>, Seq<char>)>, name: Seq<char>)
    ensures
        without_header(headers, name) =~= headers.filter(other_than(name)),
        forall|i: int|
            0 <= i < without_header(headers, name).len() ==> (#[trigger] without_header(
                headers,
                name,
            )[i]).0 != name,
    decreases headers.len(),
{
    reveal(Seq::filter);
    if headers.len() > 0 {
        let rest = headers.drop_last();
        lemma_without_header(rest, name);
        let left = without_header(headers, name);
        assert forall|i: int| 0 <= i < left.len() implies (#[trigger] left[i]).0 != name by {
            if i < without_header(rest, name).len() {
                assert(left[i] == without_header(rest, name)[i]);
            }
        }
    }
}

/// The parameters of a query, joined by the sign between them.
pub open spec fn joined_parameters(parts: Seq<Seq<char>>) -> Seq<char>
    decreases parts.len(),
{
    if parts.len() == 0 {
        Seq::empty()
    } else if parts.len() == 1 {
        parts[0]
    } else {
        joined_parameters(parts.drop_last()) + seq!['&'] + parts.last()
    }
}

/// The parameters of a query make it up again, and none of them holds the sign between them.
pub proof fn parameters_make_up_their_query(query: Seq<char>)
    ensures
        parameters(query).len() > 0,
        joined_parameters(parameters(query)) =~= query,
        forall|i: int|
            0 <= i < parameters(query).len() ==> !(#[trigger] parameters(query)[i]).contains('&'),
    decreases query.len(),
{
    let parts = parameters(query);
    if query.len() > 0 {
        let before = parameters(query.drop_last());
        parameters_make_up_their_query(query.drop_last());
        if query.last() == '&' {
            assert(parts.drop_last() =~= before);
            assert(joined_parameters(parts) =~= joined_parameters(before) + seq!['&']
                + Seq::empty());
            assert forall|i: int| 0 <= i < parts.len() implies !(#[trigger] parts[i]).contains(
                '&',
            ) by {
                if i < before.len() {
                    assert(parts[i] == before[i]);
                }
            }
        } else {
            assert(parts.drop_last() =~= before.drop_last());
            assert(parts.last() == before.last().push(query.last()));
            if before.len() == 1 {
                assert(joined_parameters(before) == before[0]);
                assert(joined_parameters(parts) == parts[0]);
            } else {
                assert(joined_parameters(parts) == joined_parameters(before.drop_last())
                    + seq!['&'] + parts.last());
            }
            assert(joined_parameters(parts) =~= joined_parameters(before).push(query.last()));
            assert forall|i: int| 0 <= i < parts.len() implies !(#[trigger] parts[i]).contains(
                '&',
            ) by {
                if i < before.len() - 1 {
                    assert(parts[i] == before[i]);
                } else {
                    assert(!before[before.len() - 1].contains('&'));
                    assert forall|c: int| 0 <= c < parts[i].len() implies parts[i][c] != '&' by {
                        if c < before.last().len() {
                            assert(parts[i][c] == before.last()[c]);
                            assert(before.last().contains(before.last()[c]));
                        }
                    }
                }
            }
        }
    } else {
        assert(parts =~= seq![Seq::empty()]);
    }
}

/// Events are asked for by one parameter of the query, and by nothing else of a URI.
pub proof fn events_are_asked_for_by_a_parameter(uri: UriView)
    ensures
        requests_sse(Some(uri)) <==> uri.query is Some && exists|i: int|
            0 <= i < parameters(uri.query->0).len() && #[trigger] parameters(uri.query->0)[i]
                == "alt=sse"@,
        uri.query is None ==> !requests_sse(Some(uri)),
        !requests_sse(None),
{
    if requests_sse(Some(uri)) {
        let parts = parameters(uri.query->0);
        let i = choose|i: int| 0 <= i < parts.len() && parts[i] == "alt=sse"@;
        assert(parts[i] == "alt=sse"@);
    }
}

/// A file of settings is looked for beside the crates of the project, and for a work tree then beside
/// those of the project that the tree belongs to.
pub proof fn settings_are_looked_for_in_the_project(
    root: Seq<Seq<char>>,
    member: Seq<Seq<char>>,
    tree: Seq<char>,
)
    requires
        member.len() == 2,
        !(root.len() >= 2 && root[root.len() - 2] == ".worktrees"@),
    ensures
        dotenv_places(root + member) =~= seq![root + seq![".env"@]],
        dotenv_places(root + seq![".worktrees"@, tree] + member) =~= seq![
            root + seq![".worktrees"@, tree, ".env"@],
            root + seq![".env"@],
        ],
{
    assert((root + member).take((root + member).len() - 2) =~= root);
    assert(root.push(".env"@) =~= root + seq![".env"@]);
    let work = root + seq![".worktrees"@, tree];
    assert((work + member).take((work + member).len() - 2) =~= work);
    assert(work.take(work.len() - 2) =~= root);
    assert(work.push(".env"@) =~= root + seq![".worktrees"@, tree, ".env"@]);
}

/// No address of a private, local or shared network is public, whatever its last numbers are.
pub proof fn addresses_of_private_networks_are_not_public(octets: [u8; 4])
    ensures
        ({
            let (a, b) = (octets@[0], octets@[1]);
            a == 0 || a == 10 || a == 127 || a >= 224 || (a == 100 && 64 <= b < 128) || (a == 169
                && b == 254) || (a == 172 && 16 <= b < 32) || (a == 192 && b == 168) || (a == 198
                && (b == 18 || b == 19)) ==> !public_address(IpAddress::V4(octets))
        }),
        ({
            let (a, b, c) = (octets@[0], octets@[1], octets@[2]);
            (a == 192 && b == 0 && c == 2) || (a == 198 && b == 51 && c == 100) || (a == 203 && b
                == 0 && c == 113) || (a == 192 && b == 88 && c == 99) ==> !public_address(
                IpAddress::V4(octets),
            )
        }),
{
}

/// An address of any other network is public.
pub proof fn other_addresses_are_public(octets: [u8; 4])
    requires
        1 <= octets@[0] < 224,
        ![10u8, 100, 127, 169, 172, 192, 198, 203]@.contains(octets@[0]),
    ensures
        public_address(IpAddress::V4(octets)),
{
    let listed = [10u8, 100, 127, 169, 172, 192, 198, 203];
    assert(listed@[0] == 10 && listed@[1] == 100 && listed@[2] == 127 && listed@[3] == 169
        && listed@[4] == 172 && listed@[5] == 192 && listed@[6] == 198 && listed@[7] == 203);
}

/// An address of the newer form that carries one of the older form is public where that one is, and
/// none outside the assigned networks is.
pub proof fn a_carried_address_is_judged_by_itself(
    segments: [u16; 8],
    octets: [u8; 4],
)
    requires
        segments@[6] == octets@[0] * 256 + octets@[1],
        segments@[7] == octets@[2] * 256 + octets@[3],
    ensures
        segments@[0] == 0x64 && segments@[1] == 0xff9b && segments@[2] == 0 && segments@[3] == 0
            && segments@[4] == 0 && segments@[5] == 0 ==> (public_address(IpAddress::V6(segments))
            <==> public_address(IpAddress::V4(octets))),
        segments@[0] != 0x64 && !(0x2000 <= segments@[0] < 0x4000) ==> !public_address(
            IpAddress::V6(segments),
        ),
        segments@[0] == 0x2001 && segments@[1] == 0xdb8 ==> !public_address(
            IpAddress::V6(segments),
        ),
        segments@[0] == 0x2002 ==> !public_address(IpAddress::V6(segments)),
        0x2003 <= segments@[0] < 0x3fff ==> public_address(IpAddress::V6(segments)),
{
}

} // verus!
