//! The half of the managed runtime that does not depend on the inbound wire format.

use vstd::prelude::*;
use vstd::string::*;
use crate::backend::{CallView, ManagedToolCall};
use crate::error::{joined, ErrorView, ToolRuntimeError};
use crate::json::{Json, JsonView};
use crate::registry::{
    by_internal, clone_optional_json, optional_json, RegistryView, ToolRegistry,
};
use crate::time::Instant;
use crate::{json, schema, serde_value, text};

verus! {

/// The largest catalog that a program may be offered.
pub const PROGRAMMATIC_MAX_CATALOG_BYTES: usize = 2_097_152;

/// A tool that a program may call.
pub struct ProgrammaticToolSpec {
    pub public_name: String,
    pub internal_name: String,
    pub description: String,
    pub input_schema: Json,
    pub output_schema: Option<Json>,
}

pub struct SpecView {
    pub public_name: Seq<char>,
    pub internal_name: Seq<char>,
    pub description: Seq<char>,
    pub input_schema: JsonView,
    pub output_schema: Option<JsonView>,
}

impl ProgrammaticToolSpec {
    pub open spec fn view(&self) -> SpecView {
        SpecView {
            public_name: self.public_name@,
            internal_name: self.internal_name@,
            description: self.description@,
            input_schema: self.input_schema@,
            output_schema: optional_json(self.output_schema),
        }
    }
}

impl Clone for ProgrammaticToolSpec {
    fn clone(&self) -> (r: Self)
        ensures
            r@ == self@,
    {
        ProgrammaticToolSpec {
            public_name: self.public_name.clone(),
            internal_name: self.internal_name.clone(),
            description: self.description.clone(),
            input_schema: self.input_schema.clone(),
            output_schema: clone_optional_json(&self.output_schema),
        }
    }
}

pub open spec fn spec_views(tools: Seq<ProgrammaticToolSpec>) -> Seq<SpecView> {
    Seq::new(tools.len(), |i: int| tools[i].view())
}

/// What a program is told of a tool.
pub open spec fn catalog_entry(tool: SpecView) -> JsonView {
    let entry = JsonView::empty().with("name"@, JsonView::Text(tool.public_name)).with(
        "description"@,
        JsonView::Text(tool.description),
    ).with("input_schema"@, tool.input_schema);
    match tool.output_schema {
        Some(schema) => entry.with("output_schema"@, schema),
        None => entry,
    }
}

pub open spec fn catalog_entries(tools: Seq<SpecView>) -> Seq<JsonView> {
    Seq::new(tools.len(), |i: int| catalog_entry(tools[i]))
}

/// The bytes that the catalog of these tools takes: its entries, the commas between them and two
/// brackets.
pub open spec fn catalog_size(tools: Seq<SpecView>) -> nat
    decreases tools.len(),
{
    if tools.len() == 0 {
        2
    } else {
        catalog_size(tools.drop_last()) + serde_value::json_size(catalog_entry(tools.last())) + if tools.len()
            > 1 {
            1nat
        } else {
            0nat
        }
    }
}

/// Whether tools are in strictly ascending order of their names.
pub open spec fn names_ascend(tools: Seq<SpecView>) -> bool {
    forall|i: int, j: int|
        0 <= i < j < tools.len() ==> text::text_less(
            (#[trigger] tools[i]).public_name,
            (#[trigger] tools[j]).public_name,
        )
}

/// The tool of this name.
pub open spec fn spec_named(tools: Seq<SpecView>, name: Seq<char>) -> Option<SpecView>
    decreases tools.len(),
{
    if tools.len() == 0 {
        None
    } else if tools[0].public_name == name {
        Some(tools[0])
    } else {
        spec_named(tools.drop_first(), name)
    }
}

/// How many tools come before this name.
pub open spec fn rank(tools: Seq<SpecView>, name: Seq<char>) -> nat
    decreases tools.len(),
{
    if tools.len() == 0 || !text::text_less(tools[0].public_name, name) {
        0
    } else {
        1 + rank(tools.drop_first(), name)
    }
}

/// The tools with one more, placed by its name.
pub open spec fn with_tool(tools: Seq<SpecView>, tool: SpecView) -> Seq<SpecView> {
    tools.insert(rank(tools, tool.public_name) as int, tool)
}

pub proof fn lemma_rank(tools: Seq<SpecView>, name: Seq<char>)
    ensures
        rank(tools, name) <= tools.len(),
        forall|i: int|
            0 <= i < rank(tools, name) ==> text::text_less(
                (#[trigger] tools[i]).public_name,
                name,
            ),
        rank(tools, name) < tools.len() ==> !text::text_less(
            tools[rank(tools, name) as int].public_name,
            name,
        ),
    decreases tools.len(),
{
    if tools.len() > 0 && text::text_less(tools[0].public_name, name) {
        let rest = tools.drop_first();
        lemma_rank(rest, name);
        assert forall|i: int| 0 <= i < rank(tools, name) implies text::text_less(
            (#[trigger] tools[i]).public_name,
            name,
        ) by {
            if i > 0 {
                assert(rest[i - 1] == tools[i]);
            }
        }
    }
}

pub proof fn lemma_rank_is(tools: Seq<SpecView>, name: Seq<char>, n: int)
    requires
        0 <= n <= tools.len(),
        forall|i: int| 0 <= i < n ==> text::text_less((#[trigger] tools[i]).public_name, name),
        n < tools.len() ==> !text::text_less(tools[n].public_name, name),
    ensures
        rank(tools, name) == n,
    decreases tools.len(),
{
    if n > 0 {
        let rest = tools.drop_first();
        assert(text::text_less(tools[0].public_name, name));
        assert forall|i: int| 0 <= i < n - 1 implies text::text_less(
            (#[trigger] rest[i]).public_name,
            name,
        ) by {
            assert(rest[i] == tools[i + 1]);
        }
        lemma_rank_is(rest, name, n - 1);
    }
}

pub proof fn lemma_spec_named(tools: Seq<SpecView>, name: Seq<char>)
    ensures
        spec_named(tools, name) is None <==> forall|i: int|
            0 <= i < tools.len() ==> (#[trigger] tools[i]).public_name != name,
    decreases tools.len(),
{
    if tools.len() > 0 {
        let rest = tools.drop_first();
        lemma_spec_named(rest, name);
        if spec_named(tools, name) is None {
            assert forall|i: int| 0 <= i < tools.len() implies (#[trigger] tools[i]).public_name
                != name by {
                if i > 0 {
                    assert(rest[i - 1] == tools[i]);
                }
            }
        } else if tools[0].public_name != name {
            let k = choose|k: int|
                0 <= k < rest.len() && (#[trigger] rest[k]).public_name == name;
            assert(tools[k + 1].public_name == name);
        }
    }
}

/// A tool that is placed by its name keeps the names in order, is found again, and makes the
/// catalog larger by its entry and, behind another tool, a comma.
pub proof fn a_placed_tool_keeps_order_and_size(tools: Seq<SpecView>, tool: SpecView)
    requires
        names_ascend(tools),
        spec_named(tools, tool.public_name) is None,
    ensures
        names_ascend(with_tool(tools, tool)),
        with_tool(tools, tool).len() == tools.len() + 1,
        catalog_size(with_tool(tools, tool)) == catalog_size(tools) + serde_value::json_size(
            catalog_entry(tool),
        ) + if tools.len() > 0 {
            1nat
        } else {
            0nat
        },
{
    let n = rank(tools, tool.public_name) as int;
    let after = with_tool(tools, tool);
    lemma_rank(tools, tool.public_name);
    lemma_spec_named(tools, tool.public_name);
    if n < tools.len() {
        text::lemma_text_less_total(tools[n].public_name, tool.public_name);
    }
    assert forall|a: int, b: int| 0 <= a < b < after.len() implies text::text_less(
        (#[trigger] after[a]).public_name,
        (#[trigger] after[b]).public_name,
    ) by {
        if b < n {
            assert(after[a] == tools[a] && after[b] == tools[b]);
        } else if b == n {
            assert(after[a] == tools[a]);
        } else if a < n {
            assert(after[a] == tools[a] && after[b] == tools[b - 1]);
        } else if a == n {
            assert(after[b] == tools[b - 1]);
            if b - 1 > n {
                text::lemma_text_less_transitive(
                    tool.public_name,
                    tools[n].public_name,
                    tools[b - 1].public_name,
                );
            }
        } else {
            assert(after[a] == tools[a - 1] && after[b] == tools[b - 1]);
        }
    }
    lemma_insert_size(tools, tool, n);
}

proof fn lemma_insert_size(tools: Seq<SpecView>, tool: SpecView, n: int)
    requires
        0 <= n <= tools.len(),
    ensures
        catalog_size(tools.insert(n, tool)) == catalog_size(tools) + serde_value::json_size(
            catalog_entry(tool),
        ) + if tools.len() > 0 {
            1nat
        } else {
            0nat
        },
    decreases tools.len() - n,
{
    let after = tools.insert(n, tool);
    if n == tools.len() {
        assert(after.drop_last() =~= tools);
    } else {
        assert(after.drop_last() =~= tools.drop_last().insert(n, tool));
        assert(after.last() == tools.last());
        lemma_insert_size(tools.drop_last(), tool, n);
    }
}

pub proof fn lemma_catalog_size(tools: Seq<SpecView>)
    ensures
        catalog_size(tools) == 2 + serde_value::text_sizes(
            serde_value::json_texts(catalog_entries(tools)),
        ) + if tools.len() > 0 {
            tools.len() - 1
        } else {
            0
        },
    decreases tools.len(),
{
    let parts = serde_value::json_texts(catalog_entries(tools));
    if tools.len() > 0 {
        let rest = tools.drop_last();
        lemma_catalog_size(rest);
        assert(parts.drop_last() =~= serde_value::json_texts(catalog_entries(rest)));
        assert(parts.last() == serde_value::json_text(catalog_entry(tools.last())));
    }
}

/// The failure of a catalog that is too large.
pub open spec fn catalog_too_large() -> ErrorView {
    ErrorView::invalid_request("programmatic tool catalog exceeds the 2097152-byte limit"@)
}

/// The size of a catalog with one more entry.
pub open spec fn catalog_added(current: nat, has_existing: bool, tool: SpecView) -> Result<
    nat,
    ErrorView,
> {
    let next = current + (if has_existing {
        1nat
    } else {
        0nat
    }) + serde_value::json_size(catalog_entry(tool));
    if next > usize::MAX {
        Err(ErrorView::internal())
    } else if next > PROGRAMMATIC_MAX_CATALOG_BYTES {
        Err(catalog_too_large())
    } else {
        Ok(next)
    }
}

pub fn programmatic_catalog_entry(tool: &ProgrammaticToolSpec) -> (r: Json)
    ensures
        r@ == catalog_entry(tool@),
{
    let mut entry = Json::object();
    entry.set("name", Json::Text(tool.public_name.clone()));
    entry.set("description", Json::Text(tool.description.clone()));
    entry.set("input_schema", tool.input_schema.clone());
    match &tool.output_schema {
        Some(schema) => entry.set("output_schema", schema.clone()),
        None => {},
    }
    entry
}

/// The size of a catalog with one more entry.
pub fn checked_programmatic_catalog_add(
    current_bytes: usize,
    has_existing_entry: bool,
    tool: &ProgrammaticToolSpec,
) -> (r: Result<usize, ToolRuntimeError>)
    ensures
        match r {
            Ok(next) => catalog_added(current_bytes as nat, has_existing_entry, tool@) == Ok::<
                nat,
                ErrorView,
            >(next as nat),
            Err(error) => catalog_added(current_bytes as nat, has_existing_entry, tool@) == Err::<
                nat,
                ErrorView,
            >(error@),
        },
{
    let entry_bytes: usize = serde_value::size(&programmatic_catalog_entry(tool));
    let comma: usize = if has_existing_entry {
        1
    } else {
        0
    };
    let opened: usize = match current_bytes.checked_add(comma) {
        Some(opened) => opened,
        None => {
            return Err(ToolRuntimeError::internal());
        },
    };
    let next: usize = match opened.checked_add(entry_bytes) {
        Some(next) => next,
        None => {
            return Err(ToolRuntimeError::internal());
        },
    };
    if next > PROGRAMMATIC_MAX_CATALOG_BYTES {
        return Err(
            ToolRuntimeError::invalid_request(
                "programmatic tool catalog exceeds the 2097152-byte limit",
            ),
        );
    }
    Ok(next)
}

/// Writes the catalog of these tools: the JSON array of their entries.
fn write_catalog(tools: &Vec<ProgrammaticToolSpec>) -> (r: String)
    ensures
        r@ == serde_value::json_text(JsonView::Array(catalog_entries(spec_views(tools@)))),
        text::byte_len(r@) == catalog_size(spec_views(tools@)),
{
    let ghost all = spec_views(tools@);
    let mut entries: Vec<Json> = Vec::new();
    let mut i: usize = 0;
    while i < tools.len()
        invariant
            i <= tools@.len(),
            entries@.len() == i,
            forall|j: int|
                0 <= j < i ==> (#[trigger] entries@[j])@ == catalog_entry(tools@[j]@),
        decreases tools@.len() - i,
    {
        entries.push(programmatic_catalog_entry(&tools[i]));
        i += 1;
    }
    assert(json::views(entries@) =~= catalog_entries(all));
    let catalog = serde_value::print(&Json::array(entries));
    proof {
        serde_value::lemma_array_size(catalog_entries(all), catalog@);
        lemma_catalog_size(all);
    }
    catalog
}

/// The size of a whole catalog as JSON, where it is allowed: that of the array of its entries,
/// brackets and commas included.
pub fn programmatic_catalog_bytes(tools: &Vec<ProgrammaticToolSpec>) -> (r: Result<
    usize,
    ToolRuntimeError,
>)
    ensures
        ({
            let n = serde_value::json_size(JsonView::Array(catalog_entries(spec_views(tools@))));
            &&& n == catalog_size(spec_views(tools@))
            &&& match r {
                Ok(bytes) => bytes == n && n <= PROGRAMMATIC_MAX_CATALOG_BYTES,
                Err(error) => n > PROGRAMMATIC_MAX_CATALOG_BYTES && error@ == catalog_too_large(),
            }
        }),
        tools@.len() == 0 ==> r is Ok && r->Ok_0 == 2,
{
    let bytes: usize = text::byte_length(write_catalog(tools).as_str());
    if bytes > PROGRAMMATIC_MAX_CATALOG_BYTES {
        return Err(
            ToolRuntimeError::invalid_request(
                "programmatic tool catalog exceeds the 2097152-byte limit",
            ),
        );
    }
    Ok(bytes)
}

/// The size of a catalog does not depend on the order of its tools.
pub proof fn a_catalog_has_one_size_in_any_order(a: Seq<SpecView>, b: Seq<SpecView>)
    requires
        a.to_multiset() == b.to_multiset(),
    ensures
        catalog_size(a) == catalog_size(b),
    decreases a.len(),
{
    broadcast use vstd::seq_lib::group_to_multiset_ensures;

    assert(a.len() == a.to_multiset().len());
    assert(b.len() == b.to_multiset().len());
    if a.len() > 0 {
        let last = a.last();
        let rest = a.drop_last();
        assert(a =~= rest.push(last));
        vstd::seq_lib::to_multiset_build(rest, last);
        vstd::seq_lib::to_multiset_contains(a, last);
        assert(a.contains(last)) by {
            assert(a[a.len() - 1] == last);
        }
        vstd::seq_lib::to_multiset_contains(b, last);
        let k = b.index_of(last);
        let other = b.remove(k);
        vstd::seq_lib::to_multiset_remove(b, k);
        assert(other.insert(k, last) =~= b);
        assert(rest.to_multiset() =~= other.to_multiset()) by {
            assert(a.to_multiset() == rest.to_multiset().insert(last));
        }
        a_catalog_has_one_size_in_any_order(rest, other);
        lemma_insert_size(other, last, k);
        lemma_insert_size(rest, last, rest.len() as int);
        assert(rest.insert(rest.len() as int, last) =~= a);
    }
}

/// What one request is allowed to call, and until when.
pub struct ManagedToolState {
    pub registry: ToolRegistry,
    pub parallel: bool,
    pub deadline: Instant,
    pub programmatic_requested: bool,
    /// In strictly ascending order of their public names.
    pub programmatic_tools: Vec<ProgrammaticToolSpec>,
    pub programmatic_catalog_bytes: usize,
}

pub struct StateView {
    pub registry: RegistryView,
    pub parallel: bool,
    pub deadline: Instant,
    pub programmatic_requested: bool,
    pub programmatic_tools: Seq<SpecView>,
    pub programmatic_catalog_bytes: nat,
}

impl StateView {
    /// The tools that programs may call are in order, and what their catalog takes was counted
    /// from this number on, within the limit.
    pub open spec fn counted_from(self, start: nat) -> bool {
        &&& names_ascend(self.programmatic_tools)
        &&& self.programmatic_catalog_bytes + 2 == start + catalog_size(self.programmatic_tools)
        &&& self.programmatic_catalog_bytes <= PROGRAMMATIC_MAX_CATALOG_BYTES
    }

    /// The tools that programs may call are in order, and the catalog's size is known and allowed:
    /// its two brackets were counted first.
    pub open spec fn wf(self) -> bool {
        self.counted_from(2)
    }

    /// The state once programs may call one more tool.
    pub open spec fn with_programmatic_tool(self, tool: SpecView) -> Result<StateView, ErrorView> {
        if spec_named(self.programmatic_tools, tool.public_name) is Some {
            Err(ErrorView::invalid_request("duplicate programmatic tool name"@))
        } else {
            match catalog_added(
                self.programmatic_catalog_bytes,
                self.programmatic_tools.len() > 0,
                tool,
            ) {
                Ok(bytes) => Ok(
                    StateView {
                        programmatic_tools: with_tool(self.programmatic_tools, tool),
                        programmatic_catalog_bytes: bytes,
                        ..self
                    },
                ),
                Err(error) => Err(error),
            }
        }
    }

    /// The call that a program makes.
    pub open spec fn programmatic_call(
        self,
        execution_id: Seq<char>,
        sequence: nat,
        public_name: Seq<char>,
        arguments: JsonView,
    ) -> Result<CallView, ErrorView> {
        match spec_named(self.programmatic_tools, public_name) {
            None => Err(
                ErrorView::invalid_request("programmatic call used an undeclared tool"@),
            ),
            Some(tool) => match by_internal(self.registry.tools, tool.internal_name) {
                None => Err(
                    ErrorView::invalid_configuration("programmatic tool is not registered"@),
                ),
                Some(registered) => if registered.argument_schema is Some
                    && schema::schema_accepts(registered.argument_schema->0, arguments) {
                    Ok(
                        CallView {
                            public_name: registered.public_name,
                            internal_name: tool.internal_name,
                            call_id: "programmatic_"@ + execution_id + "_"@ + text::decimal(
                                sequence,
                            ),
                            arguments,
                            trusted_options: match registered.trusted_options {
                                Some(options) => options,
                                None => JsonView::empty(),
                            },
                        },
                    )
                } else {
                    Err(
                        ErrorView::invalid_request(
                            "programmatic tool arguments do not match declared schema"@,
                        ),
                    )
                },
            },
        }
    }
}

impl ManagedToolState {
    pub open spec fn view(&self) -> StateView {
        StateView {
            registry: self.registry@,
            parallel: self.parallel,
            deadline: self.deadline,
            programmatic_requested: self.programmatic_requested,
            programmatic_tools: spec_views(self.programmatic_tools@),
            programmatic_catalog_bytes: self.programmatic_catalog_bytes as nat,
        }
    }

    /// Writes the catalog for programs, where one is requested and there is anything in it. Where
    /// its brackets were counted, its size is the one that was kept count of.
    pub fn programmatic_catalog_json(&self) -> (r: Result<Option<String>, ToolRuntimeError>)
        ensures
            match r {
                Ok(None) => !self@.programmatic_requested || self@.programmatic_tools.len() == 0,
                Ok(Some(catalog)) => {
                    &&& self@.programmatic_requested && self@.programmatic_tools.len() > 0
                    &&& catalog@ == serde_value::json_text(
                        JsonView::Array(catalog_entries(self@.programmatic_tools)),
                    )
                    &&& text::byte_len(catalog@) == catalog_size(self@.programmatic_tools)
                    &&& text::byte_len(catalog@) <= PROGRAMMATIC_MAX_CATALOG_BYTES
                },
                Err(error) => {
                    &&& self@.programmatic_requested && self@.programmatic_tools.len() > 0
                    &&& catalog_size(self@.programmatic_tools) > PROGRAMMATIC_MAX_CATALOG_BYTES
                    &&& error@ == catalog_too_large()
                },
            },
            self@.wf() ==> r is Ok,
    {
        if !self.programmatic_requested || self.programmatic_tools.len() == 0 {
            return Ok(None);
        }
        let catalog = write_catalog(&self.programmatic_tools);
        if text::byte_length(catalog.as_str()) > PROGRAMMATIC_MAX_CATALOG_BYTES {
            return Err(
                ToolRuntimeError::invalid_request(
                    "programmatic tool catalog exceeds the 2097152-byte limit",
                ),
            );
        }
        Ok(Some(catalog))
    }

    /// Lets programs call one more tool.
    pub fn insert_programmatic_tool(&mut self, tool: ProgrammaticToolSpec) -> (r: Result<
        (),
        ToolRuntimeError,
    >)
        ensures
            match r {
                Ok(_) => old(self)@.with_programmatic_tool(tool@) == Ok::<StateView, ErrorView>(
                    final(self)@,
                ),
                Err(error) => final(self)@ == old(self)@ && old(self)@.with_programmatic_tool(tool@)
                    == Err::<StateView, ErrorView>(error@),
            },
            forall|start: nat| #[trigger]
                old(self)@.counted_from(start) ==> final(self)@.counted_from(start),
    {
        if place_of_spec(&self.programmatic_tools, tool.public_name.as_str()).is_some() {
            return Err(ToolRuntimeError::invalid_request("duplicate programmatic tool name"));
        }
        let next: usize = match checked_programmatic_catalog_add(
            self.programmatic_catalog_bytes,
            self.programmatic_tools.len() > 0,
            &tool,
        ) {
            Ok(next) => next,
            Err(error) => {
                return Err(error);
            },
        };
        let ghost before = spec_views(self.programmatic_tools@);
        let ghost added = tool@;
        let ghost whole = self@;
        let i = rank_of(&self.programmatic_tools, tool.public_name.as_str());
        self.programmatic_tools.insert(i, tool);
        self.programmatic_catalog_bytes = next;
        proof {
            assert(spec_views(self.programmatic_tools@) =~= with_tool(before, added));
            if names_ascend(before) {
                a_placed_tool_keeps_order_and_size(before, added);
            }
        }
        Ok(())
    }

    /// Authorizes a call that a program makes.
    pub fn resolve_programmatic_call(
        &self,
        execution_id: &str,
        sequence: usize,
        public_name: &str,
        arguments: Json,
    ) -> (r: Result<ManagedToolCall, ToolRuntimeError>)
        ensures
            match r {
                Ok(call) => self@.programmatic_call(
                    execution_id@,
                    sequence as nat,
                    public_name@,
                    arguments@,
                ) == Ok::<CallView, ErrorView>(call@),
                Err(error) => self@.programmatic_call(
                    execution_id@,
                    sequence as nat,
                    public_name@,
                    arguments@,
                ) == Err::<CallView, ErrorView>(error@),
            },
    {
        let i = match place_of_spec(&self.programmatic_tools, public_name) {
            Some(i) => i,
            None => {
                return Err(
                    ToolRuntimeError::invalid_request("programmatic call used an undeclared tool"),
                );
            },
        };
        let internal = &self.programmatic_tools[i].internal_name;
        let registered = match self.registry.find_internal(internal.as_str()) {
            Some(registered) => registered,
            None => {
                return Err(
                    ToolRuntimeError::invalid_configuration("programmatic tool is not registered"),
                );
            },
        };
        let valid = match &registered.argument_schema {
            Some(schema) => schema.is_valid(&arguments),
            None => false,
        };
        if !valid {
            return Err(
                ToolRuntimeError::invalid_request(
                    "programmatic tool arguments do not match declared schema",
                ),
            );
        }
        let mut call_id = joined("programmatic_", execution_id);
        call_id.append("_");
        call_id.append(text::decimal_text(sequence as u64).as_str());
        Ok(
            ManagedToolCall {
                public_name: registered.public_name.clone(),
                internal_name: internal.clone(),
                call_id,
                arguments,
                trusted_options: match &registered.trusted_options {
                    Some(options) => options.clone(),
                    None => Json::object(),
                },
            },
        )
    }
}

fn place_of_spec(tools: &Vec<ProgrammaticToolSpec>, name: &str) -> (r: Option<usize>)
    ensures
        match r {
            Some(i) => i < tools@.len() && spec_named(spec_views(tools@), name@) == Some(
                tools@[i as int]@,
            ),
            None => spec_named(spec_views(tools@), name@) is None,
        },
{
    let ghost views = spec_views(tools@);
    let mut i: usize = 0;
    assert(views.skip(0) =~= views);
    while i < tools.len()
        invariant
            views == spec_views(tools@),
            i <= tools@.len(),
            spec_named(views, name@) == spec_named(views.skip(i as int), name@),
        decreases tools@.len() - i,
    {
        assert(views.skip(i as int)[0] == tools@[i as int]@);
        assert(views.skip(i as int).drop_first() =~= views.skip(i + 1));
        if text::same_text(tools[i].public_name.as_str(), name) {
            return Some(i);
        }
        i += 1;
    }
    None
}

fn rank_of(tools: &Vec<ProgrammaticToolSpec>, name: &str) -> (r: usize)
    ensures
        r == rank(spec_views(tools@), name@),
        r <= tools@.len(),
{
    let ghost views = spec_views(tools@);
    let mut i: usize = 0;
    while i < tools.len()
        invariant
            views == spec_views(tools@),
            i <= tools@.len(),
            forall|j: int| 0 <= j < i ==> text::text_less((#[trigger] views[j]).public_name, name@),
        ensures
            i <= tools@.len(),
            forall|j: int| 0 <= j < i ==> text::text_less((#[trigger] views[j]).public_name, name@),
            i < tools@.len() ==> !text::text_less(views[i as int].public_name, name@),
        decreases tools@.len() - i,
    {
        if !text::precedes(tools[i].public_name.as_str(), name) {
            break;
        }
        i += 1;
    }
    proof {
        lemma_rank_is(views, name@, i as int);
    }
    i
}

} // verus!
