//! The discovery of the tools of a remote server, page by page and within limits.

use vstd::prelude::*;
use vstd::string::*;
use crate::mapper::{MAX_DESCRIPTION_BYTES, MAX_TOOL_NAME_BYTES};
use crate::remote_tool::{
    description_bytes, optional_size, remote_names, remote_views, RemoteMcpTool, RemoteToolView,
    MAX_DISCOVERED_TOOLS, MAX_DISCOVERY_BYTES, MAX_DISCOVERY_PAGES, MAX_INPUT_SCHEMA_BYTES,
    MAX_OUTPUT_SCHEMA_BYTES,
};
use crate::{serde_value, text};

verus! {

/// Why a discovery ended without tools.
#[derive(Clone, Copy, Debug, PartialEq, Eq, Structural)]
pub enum DiscoveryError {
    PageLimit,
    ToolLimit,
    MetadataLimit,
    SchemaLimit,
    CursorLimit,
    ByteLimit,
    DuplicateTool,
    RepeatedCursor,
    MissingTool,
}

impl DiscoveryError {
    pub open spec fn words(self) -> Seq<char> {
        match self {
            DiscoveryError::PageLimit => "remote MCP discovery page limit exceeded"@,
            DiscoveryError::ToolLimit => "remote MCP discovery tool limit exceeded"@,
            DiscoveryError::MetadataLimit => "remote MCP discovery metadata limit exceeded"@,
            DiscoveryError::SchemaLimit => "remote MCP discovery schema limit exceeded"@,
            DiscoveryError::CursorLimit => "remote MCP discovery cursor limit exceeded"@,
            DiscoveryError::ByteLimit => "remote MCP discovery byte limit exceeded"@,
            DiscoveryError::DuplicateTool => "remote MCP server advertised a duplicate tool name"@,
            DiscoveryError::RepeatedCursor => "remote MCP server repeated a pagination cursor"@,
            DiscoveryError::MissingTool => "an allowed remote MCP tool was not advertised by the server"@,
        }
    }

    pub fn message(self) -> (r: &'static str)
        ensures
            r@ == self.words(),
    {
        match self {
            DiscoveryError::PageLimit => "remote MCP discovery page limit exceeded",
            DiscoveryError::ToolLimit => "remote MCP discovery tool limit exceeded",
            DiscoveryError::MetadataLimit => "remote MCP discovery metadata limit exceeded",
            DiscoveryError::SchemaLimit => "remote MCP discovery schema limit exceeded",
            DiscoveryError::CursorLimit => "remote MCP discovery cursor limit exceeded",
            DiscoveryError::ByteLimit => "remote MCP discovery byte limit exceeded",
            DiscoveryError::DuplicateTool => "remote MCP server advertised a duplicate tool name",
            DiscoveryError::RepeatedCursor => "remote MCP server repeated a pagination cursor",
            DiscoveryError::MissingTool => "an allowed remote MCP tool was not advertised by the server",
        }
    }
}

/// What a discovery has used up.
#[derive(Clone, Copy, Debug, PartialEq, Eq, Structural)]
pub struct DiscoveryBudget {
    pub pages: usize,
    pub tools: usize,
    pub bytes: usize,
}

/// One more than a number, as far as the machine can count.
pub open spec fn one_more(n: usize) -> usize {
    if n == usize::MAX {
        n
    } else {
        (n + 1) as usize
    }
}

impl DiscoveryBudget {
    /// Nothing is used up.
    pub open spec fn unused() -> DiscoveryBudget {
        DiscoveryBudget { pages: 0, tools: 0, bytes: 0 }
    }

    /// No limit is passed.
    pub open spec fn within_limits(self) -> bool {
        &&& self.pages <= MAX_DISCOVERY_PAGES
        &&& self.tools <= MAX_DISCOVERED_TOOLS
        &&& self.bytes <= MAX_DISCOVERY_BYTES
    }

    /// With so many more bytes, where the machine can count them.
    pub open spec fn counting(self, bytes: nat) -> DiscoveryBudget {
        if self.bytes + bytes > usize::MAX {
            self
        } else {
            DiscoveryBudget { bytes: (self.bytes + bytes) as usize, ..self }
        }
    }

    pub open spec fn after_page(self) -> Result<DiscoveryBudget, DiscoveryError> {
        if self.pages + 1 > MAX_DISCOVERY_PAGES {
            Err(DiscoveryError::PageLimit)
        } else {
            Ok(DiscoveryBudget { pages: (self.pages + 1) as usize, ..self })
        }
    }

    pub open spec fn after_bytes(self, bytes: nat) -> Result<DiscoveryBudget, DiscoveryError> {
        if self.bytes + bytes > MAX_DISCOVERY_BYTES {
            Err(DiscoveryError::ByteLimit)
        } else {
            Ok(DiscoveryBudget { bytes: (self.bytes + bytes) as usize, ..self })
        }
    }

    pub open spec fn after_tool(self, tool: RemoteToolView) -> Result<
        DiscoveryBudget,
        DiscoveryError,
    > {
        if self.tools == usize::MAX {
            Err(DiscoveryError::ToolLimit)
        } else if self.tools + 1 > MAX_DISCOVERED_TOOLS || tool.remote_name.len() == 0
            || text::byte_len(tool.remote_name) > MAX_TOOL_NAME_BYTES || tool.description_size()
            > MAX_DESCRIPTION_BYTES {
            Err(DiscoveryError::MetadataLimit)
        } else if tool.input_size() > MAX_INPUT_SCHEMA_BYTES || tool.output_size()
            > MAX_OUTPUT_SCHEMA_BYTES {
            Err(DiscoveryError::SchemaLimit)
        } else {
            DiscoveryBudget { tools: (self.tools + 1) as usize, ..self }.after_bytes(tool.size())
        }
    }

    pub open spec fn after_cursor(self, cursor: Seq<char>) -> Result<
        DiscoveryBudget,
        DiscoveryError,
    > {
        if text::byte_len(cursor) > MAX_DESCRIPTION_BYTES {
            Err(DiscoveryError::CursorLimit)
        } else {
            self.after_bytes(text::byte_len(cursor))
        }
    }

    /// One more page is asked for.
    pub fn begin_page(&mut self) -> (r: Result<(), DiscoveryError>)
        ensures
            match old(self).after_page() {
                Ok(after) => r is Ok && *final(self) == after,
                Err(error) => r == Err::<(), DiscoveryError>(error),
            },
            final(self).pages == one_more(old(self).pages),
            final(self).tools == old(self).tools,
            final(self).bytes == old(self).bytes,
    {
        self.pages = match self.pages.checked_add(1) {
            Some(pages) => pages,
            None => {
                return Err(DiscoveryError::PageLimit);
            },
        };
        if self.pages > MAX_DISCOVERY_PAGES {
            return Err(DiscoveryError::PageLimit);
        }
        Ok(())
    }

    fn add_bytes(&mut self, bytes: usize) -> (r: Result<(), DiscoveryError>)
        ensures
            match old(self).after_bytes(bytes as nat) {
                Ok(after) => r is Ok && *final(self) == after,
                Err(error) => r == Err::<(), DiscoveryError>(error),
            },
            *final(self) == old(self).counting(bytes as nat),
    {
        self.bytes = match self.bytes.checked_add(bytes) {
            Some(bytes) => bytes,
            None => {
                return Err(DiscoveryError::ByteLimit);
            },
        };
        if self.bytes > MAX_DISCOVERY_BYTES {
            return Err(DiscoveryError::ByteLimit);
        }
        Ok(())
    }

    /// One more tool is advertised.
    pub fn record_tool(&mut self, tool: &RemoteMcpTool) -> (r: Result<(), DiscoveryError>)
        ensures
            match old(self).after_tool(tool@) {
                Ok(after) => r is Ok && *final(self) == after,
                Err(error) => r == Err::<(), DiscoveryError>(error),
            },
            final(self).pages == old(self).pages,
            final(self).tools == one_more(old(self).tools),
            final(self).bytes == (if r is Ok || r->Err_0 == DiscoveryError::ByteLimit {
                old(self).counting(tool@.size()).bytes
            } else {
                old(self).bytes
            }),
    {
        self.tools = match self.tools.checked_add(1) {
            Some(tools) => tools,
            None => {
                return Err(DiscoveryError::ToolLimit);
            },
        };
        let name_bytes: usize = text::byte_length(tool.remote_name.as_str());
        let described: usize = description_bytes(&tool.description);
        if self.tools > MAX_DISCOVERED_TOOLS || tool.remote_name.as_str().is_empty() || name_bytes
            > MAX_TOOL_NAME_BYTES || described > MAX_DESCRIPTION_BYTES {
            return Err(DiscoveryError::MetadataLimit);
        }
        let schema_bytes: usize = serde_value::size(&tool.input_schema);
        let output_schema_bytes: usize = optional_size(&tool.output_schema);
        if schema_bytes > MAX_INPUT_SCHEMA_BYTES || output_schema_bytes > MAX_OUTPUT_SCHEMA_BYTES {
            return Err(DiscoveryError::SchemaLimit);
        }
        self.add_bytes(name_bytes + described + schema_bytes + output_schema_bytes)
    }

    /// One more cursor is given.
    pub fn record_cursor(&mut self, cursor: &str) -> (r: Result<(), DiscoveryError>)
        ensures
            match old(self).after_cursor(cursor@) {
                Ok(after) => r is Ok && *final(self) == after,
                Err(error) => r == Err::<(), DiscoveryError>(error),
            },
            *final(self) == (if r is Ok || r->Err_0 == DiscoveryError::ByteLimit {
                old(self).counting(text::byte_len(cursor@))
            } else {
                *old(self)
            }),
    {
        let bytes: usize = text::byte_length(cursor);
        if bytes > MAX_DESCRIPTION_BYTES {
            return Err(DiscoveryError::CursorLimit);
        }
        self.add_bytes(bytes)
    }
}

impl Default for DiscoveryBudget {
    fn default() -> (r: Self)
        ensures
            r == DiscoveryBudget::unused(),
    {
        DiscoveryBudget { pages: 0, tools: 0, bytes: 0 }
    }
}

/// A discovery so far: the tools that it keeps, and the names and cursors that it has seen.
pub struct Discovery {
    pub allowed: Option<Vec<String>>,
    pub budget: DiscoveryBudget,
    pub tools: Vec<RemoteMcpTool>,
    pub names: Vec<String>,
    pub cursors: Vec<String>,
}

pub struct DiscoveryView {
    pub allowed: Option<Seq<Seq<char>>>,
    pub budget: DiscoveryBudget,
    pub tools: Seq<RemoteToolView>,
    pub names: Seq<Seq<char>>,
    pub cursors: Seq<Seq<char>>,
}

impl DiscoveryView {
    /// Whether a tool may be used.
    pub open spec fn allows(self, name: Seq<char>) -> bool {
        match self.allowed {
            Some(allowed) => allowed.contains(name),
            None => true,
        }
    }

    /// After one more tool was advertised.
    pub open spec fn after_tool(self, tool: RemoteToolView) -> Result<DiscoveryView, DiscoveryError> {
        match self.budget.after_tool(tool) {
            Err(error) => Err(error),
            Ok(budget) => if self.names.contains(tool.remote_name) {
                Err(DiscoveryError::DuplicateTool)
            } else {
                Ok(
                    DiscoveryView {
                        budget,
                        names: self.names.push(tool.remote_name),
                        tools: if self.allows(tool.remote_name) {
                            self.tools.push(tool)
                        } else {
                            self.tools
                        },
                        ..self
                    },
                )
            },
        }
    }

    /// After the tools of one page, in order.
    pub open spec fn after_tools(self, tools: Seq<RemoteToolView>) -> Result<
        DiscoveryView,
        DiscoveryError,
    >
        decreases tools.len(),
    {
        if tools.len() == 0 {
            Ok(self)
        } else {
            match self.after_tools(tools.drop_last()) {
                Err(error) => Err(error),
                Ok(before) => before.after_tool(tools.last()),
            }
        }
    }

    /// After one more page: its tools and where the next page begins.
    pub open spec fn after_page(self, tools: Seq<RemoteToolView>, cursor: Option<Seq<char>>) -> Result<
        DiscoveryView,
        DiscoveryError,
    > {
        match self.after_tools(tools) {
            Err(error) => Err(error),
            Ok(read) => match cursor {
                None => Ok(read),
                Some(cursor) => match read.budget.after_cursor(cursor) {
                    Err(error) => Err(error),
                    Ok(budget) => if read.cursors.contains(cursor) {
                        Err(DiscoveryError::RepeatedCursor)
                    } else {
                        Ok(DiscoveryView { budget, cursors: read.cursors.push(cursor), ..read })
                    },
                },
            },
        }
    }

    /// Whether every tool that was asked for by name is there.
    pub open spec fn complete(self) -> bool {
        match self.allowed {
            Some(allowed) => forall|i: int|
                0 <= i < allowed.len() ==> remote_names(self.tools).contains(#[trigger] allowed[i]),
            None => true,
        }
    }

    /// The names are different, those of the tools are among them and allowed, each tool is within
    /// its limits, and no limit is passed.
    pub open spec fn wf(self) -> bool {
        &&& self.budget.within_limits()
        &&& self.names.no_duplicates()
        &&& self.cursors.no_duplicates()
        &&& remote_names(self.tools).no_duplicates()
        &&& self.tools.len() <= self.names.len() == self.budget.tools
        &&& forall|i: int|
            0 <= i < self.tools.len() ==> {
                &&& (#[trigger] self.tools[i]).fits()
                &&& self.allows(self.tools[i].remote_name)
                &&& self.names.contains(self.tools[i].remote_name)
            }
    }
}

/// A page of which the first tools cannot be taken cannot be taken.
proof fn lemma_tools_stop(start: DiscoveryView, tools: Seq<RemoteToolView>, n: int)
    requires
        0 <= n <= tools.len(),
        start.after_tools(tools.take(n)) is Err,
    ensures
        start.after_tools(tools) == start.after_tools(tools.take(n)),
    decreases tools.len() - n,
{
    if n < tools.len() {
        assert(tools.take(n + 1).drop_last() =~= tools.take(n));
        lemma_tools_stop(start, tools, n + 1);
    } else {
        assert(tools.take(n) =~= tools);
    }
}

proof fn lemma_tool_keeps(before: DiscoveryView, tool: RemoteToolView)
    requires
        before.wf(),
        before.after_tool(tool) is Ok,
    ensures
        before.after_tool(tool)->Ok_0.wf(),
        before.after_tool(tool)->Ok_0.allowed == before.allowed,
{
    let after = before.after_tool(tool)->Ok_0;
    text::lemma_push_distinct(before.names, tool.remote_name);
    if before.allows(tool.remote_name) {
        let kept = remote_names(before.tools);
        assert(remote_names(after.tools) =~= kept.push(tool.remote_name));
        assert(!kept.contains(tool.remote_name)) by {
            if kept.contains(tool.remote_name) {
                let i = kept.index_of(tool.remote_name);
                assert(before.tools[i].remote_name == tool.remote_name);
            }
        }
        text::lemma_push_distinct(kept, tool.remote_name);
    }
    assert forall|i: int| 0 <= i < after.tools.len() implies {
        &&& (#[trigger] after.tools[i]).fits()
        &&& after.allows(after.tools[i].remote_name)
        &&& after.names.contains(after.tools[i].remote_name)
    } by {
        if i < before.tools.len() {
            assert(after.tools[i] == before.tools[i]);
            let j = before.names.index_of(before.tools[i].remote_name);
            assert(after.names[j] == before.tools[i].remote_name);
        } else {
            assert(after.names[before.names.len() as int] == tool.remote_name);
        }
    }
}

proof fn lemma_tools_keep(before: DiscoveryView, tools: Seq<RemoteToolView>)
    requires
        before.wf(),
        before.after_tools(tools) is Ok,
    ensures
        before.after_tools(tools)->Ok_0.wf(),
        before.after_tools(tools)->Ok_0.allowed == before.allowed,
    decreases tools.len(),
{
    if tools.len() > 0 {
        lemma_tools_keep(before, tools.drop_last());
        lemma_tool_keeps(before.after_tools(tools.drop_last())->Ok_0, tools.last());
    }
}

/// However many pages a server sends, the tools that a discovery keeps have different names, are
/// allowed and within their limits, and no limit is passed.
pub proof fn discovered_tools_are_distinct_allowed_and_bounded(
    before: DiscoveryView,
    tools: Seq<RemoteToolView>,
    cursor: Option<Seq<char>>,
)
    requires
        before.wf(),
        before.after_page(tools, cursor) is Ok,
    ensures
        before.after_page(tools, cursor)->Ok_0.wf(),
        before.after_page(tools, cursor)->Ok_0.allowed == before.allowed,
{
    lemma_tools_keep(before, tools);
    let read = before.after_tools(tools)->Ok_0;
    if let Some(cursor) = cursor {
        text::lemma_push_distinct(read.cursors, cursor);
        let after = before.after_page(tools, Some(cursor))->Ok_0;
        assert forall|i: int| 0 <= i < after.tools.len() implies {
            &&& (#[trigger] after.tools[i]).fits()
            &&& after.allows(after.tools[i].remote_name)
            &&& after.names.contains(after.tools[i].remote_name)
        } by {
            assert(read.tools[i] == after.tools[i]);
        }
    }
}

/// What a step of a discovery gave.
pub open spec fn discovery_result(r: Result<Discovery, DiscoveryError>) -> Result<
    DiscoveryView,
    DiscoveryError,
> {
    match r {
        Ok(discovery) => Ok(discovery@),
        Err(error) => Err(error),
    }
}

impl Discovery {
    pub open spec fn view(&self) -> DiscoveryView {
        DiscoveryView {
            allowed: match self.allowed {
                Some(allowed) => Some(text::strings(allowed@)),
                None => None,
            },
            budget: self.budget,
            tools: remote_views(self.tools@),
            names: text::strings(self.names@),
            cursors: text::strings(self.cursors@),
        }
    }

    /// A discovery that has seen nothing; where names are given, only these tools are kept.
    pub fn new(allowed: Option<Vec<String>>) -> (r: Discovery)
        ensures
            r@ == (DiscoveryView {
                allowed: match allowed {
                    Some(allowed) => Some(text::strings(allowed@)),
                    None => None,
                },
                budget: DiscoveryBudget::unused(),
                tools: Seq::empty(),
                names: Seq::empty(),
                cursors: Seq::empty(),
            }),
            r@.wf(),
    {
        let r = Discovery {
            allowed,
            budget: DiscoveryBudget::default(),
            tools: Vec::new(),
            names: Vec::new(),
            cursors: Vec::new(),
        };
        proof {
            assert(r@.tools =~= Seq::empty());
            assert(r@.names =~= Seq::empty());
            assert(r@.cursors =~= Seq::empty());
        }
        r
    }

    /// One more page is asked for.
    pub fn begin_page(self) -> (r: Result<Discovery, DiscoveryError>)
        ensures
            match self@.budget.after_page() {
                Ok(budget) => discovery_result(r) == Ok::<DiscoveryView, DiscoveryError>(
                    DiscoveryView { budget, ..self@ },
                ),
                Err(error) => r is Err && r->Err_0 == error,
            },
            self@.wf() && r is Ok ==> r->Ok_0@.wf(),
    {
        let ghost before = self@;
        let mut discovery = self;
        match discovery.budget.begin_page() {
            Ok(()) => {
                assert(discovery@ =~= DiscoveryView { budget: discovery.budget, ..before });
                proof {
                    if before.wf() {
                        assert forall|i: int| 0 <= i < discovery@.tools.len() implies {
                            &&& (#[trigger] discovery@.tools[i]).fits()
                            &&& discovery@.allows(discovery@.tools[i].remote_name)
                            &&& discovery@.names.contains(discovery@.tools[i].remote_name)
                        } by {
                            assert(before.tools[i] == discovery@.tools[i]);
                        }
                    }
                }
                Ok(discovery)
            },
            Err(error) => Err(error),
        }
    }

    fn take_tool(self, tool: RemoteMcpTool) -> (r: Result<Discovery, DiscoveryError>)
        ensures
            discovery_result(r) == self@.after_tool(tool@),
    {
        let ghost before = self@;
        let ghost advertised = tool@;
        let mut discovery = self;
        match discovery.budget.record_tool(&tool) {
            Ok(()) => {},
            Err(error) => {
                return Err(error);
            },
        }
        if text::among_strings(&discovery.names, tool.remote_name.as_str()) {
            return Err(DiscoveryError::DuplicateTool);
        }
        discovery.names.push(tool.remote_name.clone());
        assert(discovery@.names =~= before.names.push(advertised.remote_name));
        let allowed = match &discovery.allowed {
            Some(allowed) => text::among_strings(allowed, tool.remote_name.as_str()),
            None => true,
        };
        if allowed {
            discovery.tools.push(tool);
            assert(discovery@.tools =~= before.tools.push(advertised));
        }
        Ok(discovery)
    }

    /// One more page has come: its tools, and where the next page begins.
    pub fn take_page(self, page: &Vec<RemoteMcpTool>, cursor: Option<&str>) -> (r: Result<
        Discovery,
        DiscoveryError,
    >)
        ensures
            discovery_result(r) == self@.after_page(
                remote_views(page@),
                match cursor {
                    Some(cursor) => Some(cursor@),
                    None => None,
                },
            ),
            self@.wf() && r is Ok ==> r->Ok_0@.wf(),
    {
        let ghost start = self@;
        let ghost all = remote_views(page@);
        let ghost next = match cursor {
            Some(cursor) => Some(cursor@),
            None => None,
        };
        let mut discovery = self;
        let mut taken: usize = 0;
        assert(all.take(0) =~= Seq::empty());
        while taken < page.len()
            invariant
                taken <= page@.len(),
                start.after_tools(all.take(taken as int)) == Ok::<DiscoveryView, DiscoveryError>(
                    discovery@,
                ),
                next == (match cursor {
                    Some(cursor) => Some(cursor@),
                    None => None,
                }),
                start == self@,
                all == remote_views(page@),
            decreases page@.len() - taken,
        {
            proof {
                assert(all.take(taken + 1).drop_last() =~= all.take(taken as int));
                assert(all.take(taken + 1).last() == page@[taken as int]@);
            }
            match discovery.take_tool(page[taken].clone()) {
                Ok(after) => {
                    discovery = after;
                },
                Err(error) => {
                    proof {
                        lemma_tools_stop(start, all, taken + 1);
                    }
                    return Err(error);
                },
            }
            taken += 1;
        }
        assert(all.take(taken as int) =~= all);
        let ghost read = discovery@;
        match cursor {
            Some(cursor) => {
                match discovery.budget.record_cursor(cursor) {
                    Ok(()) => {},
                    Err(error) => {
                        return Err(error);
                    },
                }
                if text::among_strings(&discovery.cursors, cursor) {
                    return Err(DiscoveryError::RepeatedCursor);
                }
                discovery.cursors.push(cursor.to_owned());
                assert(discovery@.cursors =~= read.cursors.push(cursor@));
            },
            None => {},
        }
        proof {
            if start.wf() {
                discovered_tools_are_distinct_allowed_and_bounded(start, all, next);
            }
        }
        Ok(discovery)
    }

    /// Ends a discovery: every tool that was asked for by name must be there.
    pub fn finish(self) -> (r: Result<Vec<RemoteMcpTool>, DiscoveryError>)
        ensures
            match r {
                Ok(tools) => self@.complete() && remote_views(tools@) == self@.tools,
                Err(error) => !self@.complete() && error == DiscoveryError::MissingTool,
            },
    {
        let ghost kept = remote_names(self@.tools);
        if let Some(allowed) = &self.allowed {
            let ghost wanted = text::strings(allowed@);
            let mut i: usize = 0;
            while i < allowed.len()
                invariant
                    wanted == text::strings(allowed@),
                    self@.allowed == Some(wanted),
                    kept == remote_names(self@.tools),
                    i <= allowed@.len(),
                    forall|k: int| 0 <= k < i ==> kept.contains(#[trigger] wanted[k]),
                decreases allowed@.len() - i,
            {
                assert(wanted[i as int] == allowed@[i as int]@);
                if !self.has_tool(allowed[i].as_str()) {
                    proof {
                        assert(!kept.contains(wanted[i as int]));
                        assert(self@.allowed is Some);
                        assert(self@.allowed->0 == wanted);
                        assert(!remote_names(self@.tools).contains((self@.allowed->0)[i as int]));
                        assert(!self@.complete());
                    }
                    return Err(DiscoveryError::MissingTool);
                }
                i += 1;
            }
        }
        Ok(self.tools)
    }

    fn has_tool(&self, name: &str) -> (r: bool)
        ensures
            r == remote_names(self@.tools).contains(name@),
    {
        let ghost kept = remote_names(self@.tools);
        let mut i: usize = 0;
        while i < self.tools.len()
            invariant
                kept == remote_names(self@.tools),
                i <= self.tools@.len(),
                forall|k: int| 0 <= k < i ==> #[trigger] kept[k] != name@,
            decreases self.tools@.len() - i,
        {
            assert(kept[i as int] == self.tools@[i as int].remote_name@);
            if text::same_text(self.tools[i].remote_name.as_str(), name) {
                return true;
            }
            i += 1;
        }
        false
    }
}

} // verus!
