//! Tool calls and tool results over the Messages wire format.

use vstd::prelude::*;
use vstd::string::*;
use crate::backend::{call_views, CallView, ManagedToolCall, ToolExecutionResult};
use crate::calls::{
    admit_call, admitted, code_of_program, collected_result, program_code, sandbox_checked,
    sandbox_id_too_long, validate_sandbox_contract, CollectedToolCalls, CollectedView,
};
use crate::config::{PROGRAMMATIC_FUNCTION, SANDBOX_MAX_CALL_ID_BYTES};
use crate::conversation::{ManagedToolState, StateView};
use crate::error::{joined, json_result, ErrorView, ToolRuntimeError};
use crate::json::{Json, JsonView};
use crate::messages::mapper::{PreparedMessagesRuntime, PreparedMessagesView};
use crate::messages::stream::blocks_of;
use crate::messages::usage::{aggregate_messages_usage, messages_usage_added, MessagesUsage};
use crate::output::model_output;
use crate::registry::by_internal;
use crate::request::{names_of_tools, tool_names, RequestView};
use crate::telemetry::ToolRuntimeLimit;
use crate::{json, schema, serde_value, text};

verus! {

/// The id of a block.
pub open spec fn block_id(block: JsonView) -> Seq<char> {
    match block.text_at("id"@) {
        Some(id) => id,
        None => Seq::empty(),
    }
}

pub open spec fn is_tool_use(block: JsonView) -> bool {
    block.text_at("type"@) == Some("tool_use"@)
}

/// The ids of the tool calls among blocks.
pub open spec fn tool_ids(blocks: Seq<JsonView>) -> Seq<Seq<char>>
    decreases blocks.len(),
{
    if blocks.len() == 0 {
        Seq::empty()
    } else if is_tool_use(blocks.last()) {
        tool_ids(blocks.drop_last()).push(block_id(blocks.last()))
    } else {
        tool_ids(blocks.drop_last())
    }
}

/// What the blocks so far come to: calls of tools, and the id and the code of a program.
pub struct BlocksView {
    pub calls: Seq<CallView>,
    pub program: Option<(Seq<char>, Seq<char>)>,
}

/// What a program call adds.
pub open spec fn program_gathered(so_far: BlocksView, id: Seq<char>, input: JsonView) -> Result<
    BlocksView,
    ErrorView,
> {
    if text::byte_len(id) > SANDBOX_MAX_CALL_ID_BYTES {
        Err(sandbox_id_too_long())
    } else if so_far.program is Some || so_far.calls.len() > 0 {
        Err(ErrorView::invalid_request("model generated an invalid programmatic tool batch"@))
    } else {
        match program_code(input) {
            Ok(code) => Ok(BlocksView { program: Some((id, code)), ..so_far }),
            Err(error) => Err(error),
        }
    }
}

/// What one more tool call adds.
pub open spec fn block_gathered(
    so_far: BlocksView,
    state: StateView,
    names: Seq<Seq<char>>,
    stopped_early: bool,
    earlier: Seq<Seq<char>>,
    block: JsonView,
) -> Result<BlocksView, ErrorView> {
    let id = block_id(block);
    let name = block.text_at("name"@);
    let input = block.get("input"@);
    let tool = by_internal(state.registry.tools, name->0);
    if stopped_early {
        Err(
            ErrorView::invalid_request(
                "model stopped at max_tokens with an incomplete tool_use block"@,
            ),
        )
    } else if id.len() == 0 || earlier.contains(id) {
        Err(
            ErrorView::invalid_request("model generated an empty or duplicate managed tool_use id"@),
        )
    } else if name is None {
        Err(ErrorView::invalid_request("tool_use block requires a string name"@))
    } else if input is None {
        Err(ErrorView::invalid_request("tool_use block requires an input object"@))
    } else if !(input->0 is Object) {
        Err(ErrorView::invalid_request("tool_use input must be an object"@))
    } else if serde_value::json_size(input->0) > state.registry.limits.max_arguments_bytes {
        Err(
            ErrorView::invalid_request(
                "tool arguments exceed the configured maxArgumentsBytes limit"@,
            ),
        )
    } else if !names.contains(name->0) {
        Err(ErrorView::invalid_request("model generated undeclared managed tool "@ + name->0))
    } else if name->0 == PROGRAMMATIC_FUNCTION@ {
        program_gathered(so_far, id, input->0)
    } else if so_far.program is Some {
        Err(
            ErrorView::invalid_request(
                "model mixed programmatic and direct tool calls in one response"@,
            ),
        )
    } else if tool is None {
        Err(ErrorView::invalid_request("model generated unregistered managed tool "@ + name->0))
    } else if tool->0.argument_schema is None {
        Err(ErrorView::invalid_configuration("managed tool argument schema was not compiled"@))
    } else {
        match admitted(
            tool->0,
            name->0,
            id,
            input->0,
            schema::schema_accepts(tool->0.argument_schema->0, input->0),
        ) {
            Ok(call) => Ok(BlocksView { calls: so_far.calls.push(call), ..so_far }),
            Err(error) => Err(error),
        }
    }
}

pub open spec fn blocks_gathered(
    state: StateView,
    names: Seq<Seq<char>>,
    stopped_early: bool,
    blocks: Seq<JsonView>,
) -> Result<BlocksView, ErrorView>
    decreases blocks.len(),
{
    if blocks.len() == 0 {
        Ok(BlocksView { calls: Seq::empty(), program: None })
    } else {
        match blocks_gathered(state, names, stopped_early, blocks.drop_last()) {
            Ok(before) => if is_tool_use(blocks.last()) {
                block_gathered(
                    before,
                    state,
                    names,
                    stopped_early,
                    tool_ids(blocks.drop_last()),
                    blocks.last(),
                )
            } else {
                Ok(before)
            },
            Err(error) => Err(error),
        }
    }
}

proof fn lemma_blocks_stop(
    state: StateView,
    names: Seq<Seq<char>>,
    stopped_early: bool,
    blocks: Seq<JsonView>,
    n: int,
)
    requires
        0 <= n <= blocks.len(),
        blocks_gathered(state, names, stopped_early, blocks.take(n)) is Err,
    ensures
        blocks_gathered(state, names, stopped_early, blocks) == blocks_gathered(
            state,
            names,
            stopped_early,
            blocks.take(n),
        ),
    decreases blocks.len() - n,
{
    if n < blocks.len() {
        assert(blocks.take(n + 1).drop_last() =~= blocks.take(n));
        lemma_blocks_stop(state, names, stopped_early, blocks, n + 1);
    } else {
        assert(blocks.take(n) =~= blocks);
    }
}

/// What a model wants run, by the blocks of its message.
pub open spec fn blocks_collected(
    state: StateView,
    names: Seq<Seq<char>>,
    stopped_early: bool,
    blocks: Seq<JsonView>,
) -> Result<CollectedView, ErrorView> {
    match blocks_gathered(state, names, stopped_early, blocks) {
        Err(error) => Err(error),
        Ok(found) => match found.program {
            Some((call_id, code)) => Ok(CollectedView::Programmatic { call_id, code }),
            None => match sandbox_checked(state.registry, found.calls, state.parallel) {
                Ok(_) => Ok(CollectedView::Direct(found.calls)),
                Err(error) => Err(error),
            },
        },
    }
}

struct Blocks {
    calls: Vec<ManagedToolCall>,
    program: Option<(String, String)>,
}

impl Blocks {
    spec fn view(&self) -> BlocksView {
        BlocksView {
            calls: call_views(self.calls@),
            program: match self.program {
                Some((call_id, code)) => Some((call_id@, code@)),
                None => None,
            },
        }
    }
}

spec fn blocks_step(
    r: Result<(), ToolRuntimeError>,
    after: BlocksView,
    expected: Result<BlocksView, ErrorView>,
) -> bool {
    match r {
        Ok(_) => expected == Ok::<BlocksView, ErrorView>(after),
        Err(error) => expected == Err::<BlocksView, ErrorView>(error@),
    }
}

fn gather_program(target: &mut Blocks, id: &str, input: &Json) -> (r: Result<(), ToolRuntimeError>)
    requires
        input@ is Object,
    ensures
        blocks_step(r, final(target)@, program_gathered(old(target)@, id@, input@)),
{
    if text::byte_length(id) > SANDBOX_MAX_CALL_ID_BYTES {
        return Err(
            ToolRuntimeError::limit(
                "Sandbox call id exceeds the 256-byte limit",
                ToolRuntimeLimit::SandboxCallId,
            ),
        );
    }
    if target.program.is_some() || target.calls.len() > 0 {
        return Err(
            ToolRuntimeError::invalid_request("model generated an invalid programmatic tool batch"),
        );
    }
    match code_of_program(input) {
        Ok(code) => {
            target.program = Some((id.to_owned(), code));
            Ok(())
        },
        Err(error) => Err(error),
    }
}

fn gather_block(
    target: &mut Blocks,
    state: &ManagedToolState,
    names: &Vec<String>,
    stopped_early: bool,
    earlier: &Vec<String>,
    block: &Json,
) -> (r: Result<(), ToolRuntimeError>)
    ensures
        blocks_step(
            r,
            final(target)@,
            block_gathered(
                old(target)@,
                state@,
                text::strings(names@),
                stopped_early,
                text::strings(earlier@),
                block@,
            ),
        ),
{
    if stopped_early {
        return Err(
            ToolRuntimeError::invalid_request(
                "model stopped at max_tokens with an incomplete tool_use block",
            ),
        );
    }
    let id = id_of(block);
    if id.as_str().is_empty() || text::among_strings(earlier, id.as_str()) {
        return Err(
            ToolRuntimeError::invalid_request(
                "model generated an empty or duplicate managed tool_use id",
            ),
        );
    }
    let name = match block.text_at("name") {
        Some(name) => name,
        None => {
            return Err(ToolRuntimeError::invalid_request("tool_use block requires a string name"));
        },
    };
    let input = match block.get("input") {
        Some(input) => input,
        None => {
            return Err(
                ToolRuntimeError::invalid_request("tool_use block requires an input object"),
            );
        },
    };
    if !input.is_object() {
        return Err(ToolRuntimeError::invalid_request("tool_use input must be an object"));
    }
    if serde_value::size(input) > state.registry.limits().max_arguments_bytes {
        return Err(
            ToolRuntimeError::invalid_request(
                "tool arguments exceed the configured maxArgumentsBytes limit",
            ),
        );
    }
    if !text::among_strings(names, name) {
        let message = joined("model generated undeclared managed tool ", name);
        return Err(ToolRuntimeError::invalid_request(message.as_str()));
    }
    if text::same_text(name, PROGRAMMATIC_FUNCTION) {
        return gather_program(target, id.as_str(), input);
    }
    if target.program.is_some() {
        return Err(
            ToolRuntimeError::invalid_request(
                "model mixed programmatic and direct tool calls in one response",
            ),
        );
    }
    let tool = match state.registry.find_internal(name) {
        Some(tool) => tool,
        None => {
            let message = joined("model generated unregistered managed tool ", name);
            return Err(ToolRuntimeError::invalid_request(message.as_str()));
        },
    };
    let conforms = match &tool.argument_schema {
        Some(schema) => schema.is_valid(input),
        None => {
            return Err(
                ToolRuntimeError::invalid_configuration(
                    "managed tool argument schema was not compiled",
                ),
            );
        },
    };
    match admit_call(tool, name, id.as_str(), input.clone(), conforms) {
        Ok(call) => {
            let ghost before = call_views(target.calls@);
            let ghost added = call@;
            target.calls.push(call);
            assert(call_views(target.calls@) =~= before.push(added));
            Ok(())
        },
        Err(error) => Err(error),
    }
}

fn id_of(block: &Json) -> (r: String)
    ensures
        r@ == block_id(block@),
{
    match block.text_at("id") {
        Some(id) => id.to_owned(),
        None => String::new(),
    }
}

fn tool_use_block(block: &Json) -> (r: bool)
    ensures
        r == is_tool_use(block@),
{
    match block.text_at("type") {
        Some(kind) => text::same_text(kind, "tool_use"),
        None => false,
    }
}

/// Whether a model stopped because it may say no more.
pub open spec fn ran_out(message: JsonView) -> bool {
    message.text_at("stop_reason"@) == Some("max_tokens"@)
}

/// One result of a tool, as the model is told it.
pub open spec fn result_block(call_id: Seq<char>, content: Seq<char>, is_error: bool) -> JsonView {
    let block = JsonView::empty().with("type"@, JsonView::Text("tool_result"@)).with(
        "tool_use_id"@,
        JsonView::Text(call_id),
    ).with("content"@, JsonView::Text(content));
    if is_error {
        block.with("is_error"@, JsonView::Bool(true))
    } else {
        block
    }
}

pub(crate) fn tool_result_block(call_id: &str, content: &str, is_error: bool) -> (r: Json)
    ensures
        r@ == result_block(call_id@, content@, is_error),
{
    let block = Json::object().having("type", Json::text("tool_result")).having(
        "tool_use_id",
        Json::text(call_id),
    ).having("content", Json::text(content));
    if is_error {
        block.having("is_error", Json::Bool(true))
    } else {
        block
    }
}

/// Whether the text of an output says that a call did not succeed.
pub open spec fn reports_failure(parsed: Result<JsonView, Seq<char>>) -> bool {
    match parsed {
        Ok(value) => value.get("ok"@) == Some(JsonView::Bool(false)),
        Err(_) => false,
    }
}

/// An output item as a result block, given what reading its text as JSON gave.
pub open spec fn adapted(output: JsonView, parsed: Result<JsonView, Seq<char>>) -> Result<
    JsonView,
    ErrorView,
> {
    let call_id = output.text_at("call_id"@);
    let content = output.text_at("output"@);
    if call_id is None || content is None {
        Err(ErrorView::internal())
    } else {
        Ok(result_block(call_id->0, content->0, reports_failure(parsed)))
    }
}

/// Turns an output item into a result block, given what reading its text as JSON gave.
pub fn adapt_output(output: &Json, parsed: &Result<Json, String>) -> (r: Result<Json, ToolRuntimeError>)
    ensures
        json_result(r) == adapted(
            output@,
            match *parsed {
                Ok(value) => Ok(value@),
                Err(why) => Err(why@),
            },
        ),
{
    let call_id = match output.text_at("call_id") {
        Some(call_id) => call_id,
        None => {
            return Err(ToolRuntimeError::internal());
        },
    };
    let content = match output.text_at("output") {
        Some(content) => content,
        None => {
            return Err(ToolRuntimeError::internal());
        },
    };
    let is_error = match parsed {
        Ok(value) => match value.get("ok") {
            Some(Json::Bool(ok)) => !*ok,
            _ => false,
        },
        Err(_) => false,
    };
    Ok(tool_result_block(call_id, content, is_error))
}

/// A message of the history.
pub open spec fn history_message(role: Seq<char>, content: Seq<JsonView>) -> JsonView {
    JsonView::empty().with("role"@, JsonView::Text(role)).with("content"@, JsonView::Array(content))
}

pub open spec fn free_choice() -> JsonView {
    JsonView::empty().with("type"@, JsonView::Text("auto"@))
}

/// A prepared request once a round is part of its history.
pub open spec fn with_messages_round(
    prepared: PreparedMessagesView,
    said: Seq<JsonView>,
    outputs: Seq<JsonView>,
) -> PreparedMessagesView {
    let longer = RequestView {
        history: prepared.request.history.push(history_message("assistant"@, said)).push(
            history_message("user"@, outputs),
        ),
        ..prepared.request
    };
    PreparedMessagesView {
        request: longer.with_field("tool_choice"@, free_choice()),
        ..prepared
    }
}

impl PreparedMessagesRuntime {
    /// Authorizes and parses the tool calls of one message.
    pub fn collect_model_calls(&self, message: &Json) -> (r: Result<
        CollectedToolCalls,
        ToolRuntimeError,
    >)
        ensures
            collected_result(r) == blocks_collected(
                self@.state,
                tool_names(self@.request.tools(), None),
                ran_out(message@),
                blocks_of(message@),
            ),
    {
        let names = names_of_tools(&self.canonical_request.declared_tools(), None);
        let ghost declared = tool_names(self@.request.tools(), None);
        let stopped_early = match message.text_at("stop_reason") {
            Some(reason) => text::same_text(reason, "max_tokens"),
            None => false,
        };
        let ghost blocks = blocks_of(message@);
        let mut target = Blocks { calls: Vec::new(), program: None };
        assert(target@.calls =~= Seq::empty());
        let found = match message.get("content") {
            Some(content) => content.as_array(),
            None => None,
        };
        if let Some(list) = found {
            let mut earlier: Vec<String> = Vec::new();
            let mut i: usize = 0;
            assert(blocks.take(0) =~= Seq::empty());
            assert(text::strings(earlier@) =~= tool_ids(blocks.take(0)));
            while i < list.len()
                invariant
                    blocks == blocks_of(message@),
                    blocks == json::views(list@),
                    stopped_early == ran_out(message@),
                    declared == tool_names(self@.request.tools(), None),
                    declared == text::strings(names@),
                    i <= list@.len(),
                    text::strings(earlier@) == tool_ids(blocks.take(i as int)),
                    blocks_gathered(
                        self@.state,
                        declared,
                        stopped_early,
                        blocks.take(i as int),
                    ) == Ok::<BlocksView, ErrorView>(target@),
                decreases list@.len() - i,
            {
                let block = &list[i];
                assert(blocks.take(i + 1).drop_last() =~= blocks.take(i as int));
                assert(blocks.take(i + 1).last() == block@);
                if tool_use_block(block) {
                    match gather_block(
                        &mut target,
                        &self.state,
                        &names,
                        stopped_early,
                        &earlier,
                        block,
                    ) {
                        Ok(_) => {},
                        Err(error) => {
                            proof {
                                lemma_blocks_stop(
                                    self@.state,
                                    declared,
                                    stopped_early,
                                    blocks,
                                    i + 1,
                                );
                            }
                            return Err(error);
                        },
                    }
                    let ghost before = text::strings(earlier@);
                    let id = id_of(block);
                    let ghost added = id@;
                    earlier.push(id);
                    assert(text::strings(earlier@) =~= before.push(added));
                }
                i += 1;
            }
            assert(blocks.take(i as int) =~= blocks);
        } else {
            assert(blocks =~= Seq::empty());
        }
        match target.program {
            Some((call_id, code)) => Ok(CollectedToolCalls::Programmatic { call_id, code }),
            None => match validate_sandbox_contract(
                &self.state.registry,
                &target.calls,
                self.state.parallel,
            ) {
                Ok(_) => Ok(CollectedToolCalls::Direct(target.calls)),
                Err(error) => Err(error),
            },
        }
    }

    /// Adds the token counts of a round.
    pub fn accumulate_usage(&mut self, round: &MessagesUsage)
        ensures
            final(self)@ == (PreparedMessagesView {
                usage: Some(messages_usage_added(old(self)@.usage, round@)),
                ..old(self)@
            }),
    {
        let mut aggregate: Option<MessagesUsage> = None;
        std::mem::swap(&mut aggregate, &mut self.accumulated_usage);
        self.accumulated_usage = Some(
            match aggregate {
                Some(aggregate) => aggregate_messages_usage(aggregate, round),
                None => round.clone(),
            },
        );
    }

    /// The token counts to report: those of all rounds, where any were added up.
    pub fn final_usage(self, last: MessagesUsage) -> (r: MessagesUsage)
        ensures
            r@ == (match self@.usage {
                Some(usage) => usage,
                None => last@,
            }),
    {
        match self.accumulated_usage {
            Some(usage) => usage,
            None => last,
        }
    }

    /// Appends what a model said and what its tools gave back; the next choice of tools is free.
    pub fn append_round_history(&mut self, content: Vec<Json>, outputs: Vec<Json>)
        ensures
            final(self)@ == with_messages_round(
                old(self)@,
                json::views(content@),
                json::views(outputs@),
            ),
    {
        let ghost before = json::views(self.canonical_request.history@);
        let ghost said = json::views(content@);
        let ghost given = json::views(outputs@);
        let assistant = Json::object().having("role", Json::text("assistant")).having(
            "content",
            Json::array(content),
        );
        let user = Json::object().having("role", Json::text("user")).having(
            "content",
            Json::array(outputs),
        );
        self.canonical_request.history.push(assistant);
        self.canonical_request.history.push(user);
        assert(json::views(self.canonical_request.history@) =~= before.push(
            history_message("assistant"@, said),
        ).push(history_message("user"@, given)));
        self.canonical_request.replace_rest_field(
            "tool_choice",
            Json::object().having("type", Json::text("auto")),
        );
    }

    /// The result of a tool, as the model is told it.
    pub fn tool_output_item(
        &self,
        call_id: &str,
        result: ToolExecutionResult,
        max_output_bytes: usize,
    ) -> (r: Result<Json, ToolRuntimeError>)
        ensures
            json_result(r) == (match model_output(result@, max_output_bytes as nat) {
                Ok(output) => Ok(
                    result_block(
                        call_id@,
                        serde_value::json_text(output),
                        result@ is ApplicationError,
                    ),
                ),
                Err(error) => Err(error),
            }),
    {
        let is_error = match &result {
            ToolExecutionResult::ApplicationError(_) => true,
            _ => false,
        };
        match result.into_model_output(max_output_bytes) {
            Ok(output) => Ok(
                tool_result_block(call_id, serde_value::print(&output).as_str(), is_error),
            ),
            Err(error) => Err(error),
        }
    }

    /// An output item of a batch as a result block.
    pub fn adapt_batch_output_item(&self, output: &Json) -> (r: Result<Json, ToolRuntimeError>)
        ensures
            json_result(r) == (match output@.text_at("output"@) {
                Some(content) => adapted(output@, serde_value::json_parsed(content)),
                None => Err(ErrorView::internal()),
            }),
    {
        match output.text_at("output") {
            Some(content) => adapt_output(output, &serde_value::parse(content)),
            None => Err(ToolRuntimeError::internal()),
        }
    }
}

} // verus!
