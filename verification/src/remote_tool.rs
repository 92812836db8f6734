//! Tools that remote servers advertise.

use vstd::prelude::*;
use vstd::string::*;
use crate::backend::ToolInfrastructureError;
use crate::config::{clone_optional, optional_text};
use crate::json::{Json, JsonView};
use crate::mapper::{MAX_DESCRIPTION_BYTES, MAX_TOOL_NAME_BYTES};
use crate::registry::{clone_optional_json, optional_json};
use crate::{serde_value, text};

verus! {

pub const MAX_DISCOVERED_TOOLS: usize = 128;

pub const MAX_DISCOVERY_PAGES: usize = 128;

pub const MAX_DISCOVERY_BYTES: usize = 2_097_152;

pub const MAX_INPUT_SCHEMA_BYTES: usize = 65_536;

pub const MAX_OUTPUT_SCHEMA_BYTES: usize = 65_536;

/// A tool of a remote server.
pub struct RemoteMcpTool {
    pub remote_name: String,
    pub description: Option<String>,
    pub input_schema: Json,
    pub output_schema: Option<Json>,
}

pub struct RemoteToolView {
    pub remote_name: Seq<char>,
    pub description: Option<Seq<char>>,
    pub input_schema: JsonView,
    pub output_schema: Option<JsonView>,
}

impl RemoteMcpTool {
    pub open spec fn view(&self) -> RemoteToolView {
        RemoteToolView {
            remote_name: self.remote_name@,
            description: optional_text(self.description),
            input_schema: self.input_schema@,
            output_schema: optional_json(self.output_schema),
        }
    }
}

impl Clone for RemoteMcpTool {
    fn clone(&self) -> (r: Self)
        ensures
            r@ == self@,
    {
        RemoteMcpTool {
            remote_name: self.remote_name.clone(),
            description: clone_optional(&self.description),
            input_schema: self.input_schema.clone(),
            output_schema: clone_optional_json(&self.output_schema),
        }
    }
}

pub open spec fn remote_views(tools: Seq<RemoteMcpTool>) -> Seq<RemoteToolView> {
    Seq::new(tools.len(), |i: int| tools[i].view())
}

impl RemoteToolView {
    pub open spec fn description_size(self) -> nat {
        match self.description {
            Some(s) => text::byte_len(s),
            None => 0,
        }
    }

    pub open spec fn input_size(self) -> nat {
        serde_value::json_size(self.input_schema)
    }

    pub open spec fn output_size(self) -> nat {
        match self.output_schema {
            Some(schema) => serde_value::json_size(schema),
            None => 0,
        }
    }

    /// The bytes that a tool counts for.
    pub open spec fn size(self) -> nat {
        text::byte_len(self.remote_name) + self.description_size() + self.input_size()
            + self.output_size()
    }

    /// Whether a tool by itself is within the limits.
    pub open spec fn fits(self) -> bool {
        &&& self.remote_name.len() > 0
        &&& text::byte_len(self.remote_name) <= MAX_TOOL_NAME_BYTES
        &&& self.description_size() <= MAX_DESCRIPTION_BYTES
        &&& self.input_size() <= MAX_INPUT_SCHEMA_BYTES
        &&& self.output_size() <= MAX_OUTPUT_SCHEMA_BYTES
    }
}

pub fn description_bytes(description: &Option<String>) -> (r: usize)
    ensures
        r == (match *description {
            Some(s) => text::byte_len(s@),
            None => 0,
        }),
{
    match description {
        Some(s) => text::byte_length(s.as_str()),
        None => 0,
    }
}

pub fn optional_size(value: &Option<Json>) -> (r: usize)
    ensures
        r == (match *value {
            Some(v) => serde_value::json_size(v@),
            None => 0,
        }),
{
    match value {
        Some(v) => serde_value::size(v),
        None => 0,
    }
}

/// The bytes that tools count for together.
pub open spec fn total_size(tools: Seq<RemoteToolView>) -> nat
    decreases tools.len(),
{
    if tools.len() == 0 {
        0
    } else {
        total_size(tools.drop_last()) + tools.last().size()
    }
}

pub open spec fn remote_names(tools: Seq<RemoteToolView>) -> Seq<Seq<char>> {
    Seq::new(tools.len(), |i: int| tools[i].remote_name)
}

/// Whether tools are within the limits by themselves and together.
pub open spec fn acceptable(tools: Seq<RemoteToolView>) -> bool {
    &&& tools.len() <= MAX_DISCOVERED_TOOLS
    &&& remote_names(tools).no_duplicates()
    &&& forall|i: int| 0 <= i < tools.len() ==> (#[trigger] tools[i]).fits()
    &&& total_size(tools) <= MAX_DISCOVERY_BYTES
}

proof fn lemma_total_size_grows(tools: Seq<RemoteToolView>, n: int)
    requires
        0 <= n <= tools.len(),
    ensures
        total_size(tools.take(n)) <= total_size(tools),
    decreases tools.len(),
{
    if n < tools.len() {
        assert(tools.drop_last().take(n) =~= tools.take(n));
        lemma_total_size_grows(tools.drop_last(), n);
    } else {
        assert(tools.take(n) =~= tools);
    }
}

/// Accepts the tools of a server, where all are within the limits.
pub fn validate_tools(tools: Vec<RemoteMcpTool>) -> (r: Result<
    Vec<RemoteMcpTool>,
    ToolInfrastructureError,
>)
    ensures
        match r {
            Ok(list) => acceptable(remote_views(tools@)) && list@ == tools@,
            Err(error) => !acceptable(remote_views(tools@)) && error
                == ToolInfrastructureError::Backend,
        },
{
    let ghost all = remote_views(tools@);
    if tools.len() > MAX_DISCOVERED_TOOLS {
        return Err(ToolInfrastructureError::Backend);
    }
    let mut names: Vec<String> = Vec::new();
    let mut total: usize = 0;
    let mut i: usize = 0;
    assert(all.take(0) =~= Seq::empty());
    assert(text::strings(names@) =~= remote_names(all.take(0)));
    while i < tools.len()
        invariant
            all == remote_views(tools@),
            i <= tools@.len(),
            total == total_size(all.take(i as int)),
            total <= MAX_DISCOVERY_BYTES,
            text::strings(names@) == remote_names(all.take(i as int)),
            remote_names(all.take(i as int)).no_duplicates(),
            forall|j: int| 0 <= j < i ==> (#[trigger] all[j]).fits(),
        decreases tools@.len() - i,
    {
        let ghost tool = all[i as int];
        let ghost before = remote_names(all.take(i as int));
        proof {
            assert(all.take(i + 1).drop_last() =~= all.take(i as int));
            assert(all.take(i + 1).last() == tool);
            assert(remote_names(all.take(i + 1)) =~= before.push(tool.remote_name));
            lemma_total_size_grows(all, i + 1);
        }
        let name = tools[i].remote_name.as_str();
        let name_bytes: usize = text::byte_length(name);
        let described: usize = description_bytes(&tools[i].description);
        let schema_bytes: usize = serde_value::size(&tools[i].input_schema);
        let output_bytes: usize = optional_size(&tools[i].output_schema);
        if name.is_empty() || name_bytes > MAX_TOOL_NAME_BYTES || described > MAX_DESCRIPTION_BYTES
            || schema_bytes > MAX_INPUT_SCHEMA_BYTES || output_bytes > MAX_OUTPUT_SCHEMA_BYTES {
            assert(!all[i as int].fits());
            return Err(ToolInfrastructureError::Backend);
        }
        if text::among_strings(&names, name) {
            proof {
                let k = choose|k: int| 0 <= k < before.len() && before[k] == name@;
                assert(remote_names(all)[k] == remote_names(all)[i as int]);
            }
            return Err(ToolInfrastructureError::Backend);
        }
        total = total + name_bytes + described + schema_bytes + output_bytes;
        if total > MAX_DISCOVERY_BYTES {
            return Err(ToolInfrastructureError::Backend);
        }
        proof {
            text::lemma_push_distinct(before, name@);
        }
        let ghost kept = text::strings(names@);
        names.push(name.to_owned());
        assert(text::strings(names@) =~= kept.push(name@));
        i += 1;
    }
    assert(all.take(i as int) =~= all);
    Ok(tools)
}

} // verus!
