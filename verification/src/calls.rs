//! The tool calls that a model makes in one response, authorized and parsed.

use vstd::prelude::*;
use vstd::string::*;
use crate::backend::{call_views, CallView, ManagedToolCall};
use crate::config::{
    optional_text, ToolBackendConfig, PROGRAMMATIC_FUNCTION, SANDBOX_MAX_BATCH_EXECUTIONS,
    SANDBOX_MAX_CALL_ID_BYTES, SANDBOX_MAX_CODE_BYTES,
};
use crate::conversation::{ManagedToolState, StateView};
use crate::error::{joined, unit_result, ErrorView, ToolRuntimeError};
use crate::json::{Json, JsonView};
use crate::output::{arguments_parsed, parse_arguments};
use crate::registry::{by_internal, RegistryView, ToolRegistry, ToolView};
use crate::request::{names_of_tools, tool_names};
use crate::runtime::PreparedToolRuntime;
use crate::telemetry::ToolRuntimeLimit;
use crate::{schema, text};

verus! {

/// Whether a call runs in a sandbox.
pub open spec fn is_sandbox(registry: RegistryView, call: CallView) -> bool {
    match by_internal(registry.tools, call.internal_name) {
        Some(tool) => tool.backend is Some && tool.backend->0 is E2b,
        None => false,
    }
}

/// The failure of a call whose id is too long for a sandbox.
pub open spec fn sandbox_id_too_long() -> ErrorView {
    ErrorView::limit(
        "Sandbox call id exceeds the 256-byte limit"@,
        ToolRuntimeLimit::SandboxCallId,
    )
}

/// How many sandbox calls the current batch holds after these calls: calls that run one after the
/// other end a batch, calls that run at once do not.
pub open spec fn sandbox_batch(registry: RegistryView, calls: Seq<CallView>, parallel: bool) -> Result<
    nat,
    ErrorView,
>
    decreases calls.len(),
{
    if calls.len() == 0 {
        Ok(0)
    } else {
        match sandbox_batch(registry, calls.drop_last(), parallel) {
            Err(error) => Err(error),
            Ok(size) => {
                let call = calls.last();
                let code = call.arguments.text_at("code"@);
                if !is_sandbox(registry, call) {
                    Ok(
                        if parallel {
                            size
                        } else {
                            0
                        },
                    )
                } else if text::byte_len(call.call_id) > SANDBOX_MAX_CALL_ID_BYTES {
                    Err(sandbox_id_too_long())
                } else if code is None {
                    Err(ErrorView::invalid_request("Sandbox code arguments are invalid"@))
                } else if text::byte_len(code->0) > SANDBOX_MAX_CODE_BYTES {
                    Err(
                        ErrorView::limit(
                            "Sandbox code exceeds the 32768-byte limit"@,
                            ToolRuntimeLimit::SandboxCode,
                        ),
                    )
                } else if size + 1 > SANDBOX_MAX_BATCH_EXECUTIONS {
                    Err(
                        ErrorView::limit(
                            "Sandbox batch limit exceeded (maximum 8)"@,
                            ToolRuntimeLimit::SandboxBatch,
                        ),
                    )
                } else {
                    Ok(size + 1)
                }
            },
        }
    }
}

/// What is wrong with the sandbox calls among these.
pub open spec fn sandbox_checked(
    registry: RegistryView,
    calls: Seq<CallView>,
    parallel: bool,
) -> Result<(), ErrorView> {
    match sandbox_batch(registry, calls, parallel) {
        Ok(_) => Ok(()),
        Err(error) => Err(error),
    }
}

proof fn lemma_sandbox_batch(registry: RegistryView, calls: Seq<CallView>, parallel: bool)
    ensures
        sandbox_batch(registry, calls, parallel) is Ok ==> sandbox_batch(
            registry,
            calls,
            parallel,
        )->Ok_0 <= SANDBOX_MAX_BATCH_EXECUTIONS,
    decreases calls.len(),
{
    if calls.len() > 0 {
        lemma_sandbox_batch(registry, calls.drop_last(), parallel);
    }
}

proof fn lemma_sandbox_stops(
    registry: RegistryView,
    calls: Seq<CallView>,
    parallel: bool,
    n: int,
)
    requires
        0 <= n <= calls.len(),
        sandbox_batch(registry, calls.take(n), parallel) is Err,
    ensures
        sandbox_batch(registry, calls, parallel) == sandbox_batch(
            registry,
            calls.take(n),
            parallel,
        ),
    decreases calls.len() - n,
{
    if n < calls.len() {
        assert(calls.take(n + 1).drop_last() =~= calls.take(n));
        lemma_sandbox_stops(registry, calls, parallel, n + 1);
    } else {
        assert(calls.take(n) =~= calls);
    }
}

pub fn runs_in_sandbox(registry: &ToolRegistry, call: &ManagedToolCall) -> (r: bool)
    ensures
        r == is_sandbox(registry@, call@),
{
    match registry.find_internal(call.internal_name.as_str()) {
        Some(tool) => match &tool.backend {
            Some(ToolBackendConfig::E2b { .. }) => true,
            _ => false,
        },
        None => false,
    }
}

/// Checks the sandbox calls among these, and that no batch of them is too large.
pub fn validate_sandbox_contract(
    registry: &ToolRegistry,
    calls: &Vec<ManagedToolCall>,
    parallel: bool,
) -> (r: Result<(), ToolRuntimeError>)
    ensures
        unit_result(r) == sandbox_checked(registry@, call_views(calls@), parallel),
{
    let ghost all = call_views(calls@);
    let mut batch_size: usize = 0;
    let mut i: usize = 0;
    assert(all.take(0) =~= Seq::empty());
    while i < calls.len()
        invariant
            all == call_views(calls@),
            i <= calls@.len(),
            batch_size <= SANDBOX_MAX_BATCH_EXECUTIONS,
            sandbox_batch(registry@, all.take(i as int), parallel) == Ok::<nat, ErrorView>(
                batch_size as nat,
            ),
        decreases calls@.len() - i,
    {
        let call = &calls[i];
        proof {
            assert(all.take(i + 1).drop_last() =~= all.take(i as int));
            assert(all.take(i + 1).last() == call@);
            if sandbox_batch(registry@, all.take(i + 1), parallel) is Err {
                lemma_sandbox_stops(registry@, all, parallel, i + 1);
            }
        }
        i += 1;
        if !runs_in_sandbox(registry, call) {
            if !parallel {
                batch_size = 0;
            }
            continue ;
        }
        if text::byte_length(call.call_id.as_str()) > SANDBOX_MAX_CALL_ID_BYTES {
            return Err(
                ToolRuntimeError::limit(
                    "Sandbox call id exceeds the 256-byte limit",
                    ToolRuntimeLimit::SandboxCallId,
                ),
            );
        }
        let code = match call.arguments.text_at("code") {
            Some(code) => code,
            None => {
                return Err(ToolRuntimeError::invalid_request("Sandbox code arguments are invalid"));
            },
        };
        if text::byte_length(code) > SANDBOX_MAX_CODE_BYTES {
            return Err(
                ToolRuntimeError::limit(
                    "Sandbox code exceeds the 32768-byte limit",
                    ToolRuntimeLimit::SandboxCode,
                ),
            );
        }
        batch_size += 1;
        if batch_size > SANDBOX_MAX_BATCH_EXECUTIONS {
            return Err(
                ToolRuntimeError::limit(
                    "Sandbox batch limit exceeded (maximum 8)",
                    ToolRuntimeLimit::SandboxBatch,
                ),
            );
        }
    }
    assert(all.take(i as int) =~= all);
    Ok(())
}

/// What a model wants run: calls of tools, or one program.
pub enum CollectedToolCalls {
    Direct(Vec<ManagedToolCall>),
    Programmatic { call_id: String, code: String },
}

pub enum CollectedView {
    Direct(Seq<CallView>),
    Programmatic { call_id: Seq<char>, code: Seq<char> },
}

impl CollectedToolCalls {
    pub open spec fn view(&self) -> CollectedView {
        match *self {
            CollectedToolCalls::Direct(calls) => CollectedView::Direct(call_views(calls@)),
            CollectedToolCalls::Programmatic { call_id, code } => CollectedView::Programmatic {
                call_id: call_id@,
                code: code@,
            },
        }
    }
}

pub open spec fn collected_result(r: Result<CollectedToolCalls, ToolRuntimeError>) -> Result<
    CollectedView,
    ErrorView,
> {
    match r {
        Ok(collected) => Ok(collected@),
        Err(error) => Err(error@),
    }
}

/// A function call item of a response.
pub struct FunctionCall {
    pub completed: bool,
    pub call_id: String,
    pub name: String,
    pub namespace: Option<String>,
    pub arguments: String,
}

pub struct FunctionCallView {
    pub completed: bool,
    pub call_id: Seq<char>,
    pub name: Seq<char>,
    pub namespace: Option<Seq<char>>,
    pub arguments: Seq<char>,
}

impl FunctionCall {
    pub open spec fn view(&self) -> FunctionCallView {
        FunctionCallView {
            completed: self.completed,
            call_id: self.call_id@,
            name: self.name@,
            namespace: optional_text(self.namespace),
            arguments: self.arguments@,
        }
    }
}

pub open spec fn function_call_views(calls: Seq<FunctionCall>) -> Seq<FunctionCallView> {
    Seq::new(calls.len(), |i: int| calls[i].view())
}

pub open spec fn ids_of(calls: Seq<FunctionCallView>) -> Seq<Seq<char>> {
    Seq::new(calls.len(), |i: int| calls[i].call_id)
}

/// What the calls so far come to: calls of tools, and the id and the arguments of a program.
pub struct GatheredView {
    pub calls: Seq<CallView>,
    pub program: Option<(Seq<char>, Seq<char>)>,
}

/// A call of a registered tool whose arguments were found to conform, or not.
pub open spec fn admitted(
    tool: ToolView,
    name: Seq<char>,
    call_id: Seq<char>,
    arguments: JsonView,
    conforms: bool,
) -> Result<CallView, ErrorView> {
    if !conforms {
        Err(ErrorView::invalid_request("tool arguments do not match declared schema"@))
    } else {
        Ok(
            CallView {
                public_name: tool.public_name,
                internal_name: name,
                call_id,
                arguments,
                trusted_options: match tool.trusted_options {
                    Some(options) => options,
                    None => JsonView::empty(),
                },
            },
        )
    }
}

pub open spec fn call_result(r: Result<ManagedToolCall, ToolRuntimeError>) -> Result<
    CallView,
    ErrorView,
> {
    match r {
        Ok(call) => Ok(call@),
        Err(error) => Err(error@),
    }
}

/// Admits a call of a registered tool, given whether its arguments conform to their schema.
pub fn admit_call(
    tool: &crate::registry::RegisteredTool,
    name: &str,
    call_id: &str,
    arguments: Json,
    conforms: bool,
) -> (r: Result<ManagedToolCall, ToolRuntimeError>)
    ensures
        call_result(r) == admitted(tool@, name@, call_id@, arguments@, conforms),
{
    if !conforms {
        return Err(
            ToolRuntimeError::invalid_request("tool arguments do not match declared schema"),
        );
    }
    Ok(
        ManagedToolCall {
            public_name: tool.public_name.clone(),
            internal_name: name.to_owned(),
            call_id: call_id.to_owned(),
            arguments,
            trusted_options: match &tool.trusted_options {
                Some(options) => options.clone(),
                None => Json::object(),
            },
        },
    )
}

/// What one more function call adds.
pub open spec fn gathered(
    so_far: GatheredView,
    state: StateView,
    names: Seq<Seq<char>>,
    earlier: Seq<Seq<char>>,
    call: FunctionCallView,
) -> Result<GatheredView, ErrorView> {
    let tool = by_internal(state.registry.tools, call.name);
    let parsed = arguments_parsed(
        vstd::utf8::encode_utf8(call.arguments),
        state.registry.limits.max_arguments_bytes as nat,
    );
    if !call.completed {
        Err(
            ErrorView::invalid_request(
                "model generated a managed tool call without completed status"@,
            ),
        )
    } else if call.call_id.len() == 0 || earlier.contains(call.call_id) {
        Err(
            ErrorView::invalid_request(
                "model generated an empty or duplicate managed tool call id"@,
            ),
        )
    } else if call.name == PROGRAMMATIC_FUNCTION@ {
        if !state.programmatic_requested || !names.contains(PROGRAMMATIC_FUNCTION@) {
            Err(
                ErrorView::invalid_request("model generated an undeclared programmatic tool call"@),
            )
        } else if text::byte_len(call.call_id) > SANDBOX_MAX_CALL_ID_BYTES {
            Err(sandbox_id_too_long())
        } else if so_far.program is Some || so_far.calls.len() > 0 || call.namespace is Some {
            Err(ErrorView::invalid_request("model generated an invalid programmatic tool batch"@))
        } else {
            Ok(GatheredView { program: Some((call.call_id, call.arguments)), ..so_far })
        }
    } else if so_far.program is Some {
        Err(
            ErrorView::invalid_request(
                "model mixed programmatic and direct tool calls in one response"@,
            ),
        )
    } else if call.namespace is Some || !names.contains(call.name) {
        Err(ErrorView::invalid_request("model generated undeclared managed tool "@ + call.name))
    } else if tool is None {
        Err(ErrorView::invalid_request("model generated unregistered managed tool "@ + call.name))
    } else if parsed is Err {
        Err(parsed->Err_0)
    } else if tool->0.argument_schema is None {
        Err(
            ErrorView::invalid_configuration("managed function argument schema was not compiled"@),
        )
    } else {
        match admitted(
            tool->0,
            call.name,
            call.call_id,
            parsed->Ok_0,
            schema::schema_accepts(tool->0.argument_schema->0, parsed->Ok_0),
        ) {
            Ok(admitted) => Ok(GatheredView { calls: so_far.calls.push(admitted), ..so_far }),
            Err(error) => Err(error),
        }
    }
}

pub open spec fn all_gathered(
    state: StateView,
    names: Seq<Seq<char>>,
    calls: Seq<FunctionCallView>,
) -> Result<GatheredView, ErrorView>
    decreases calls.len(),
{
    if calls.len() == 0 {
        Ok(GatheredView { calls: Seq::empty(), program: None })
    } else {
        match all_gathered(state, names, calls.drop_last()) {
            Ok(before) => gathered(
                before,
                state,
                names,
                ids_of(calls.drop_last()),
                calls.last(),
            ),
            Err(error) => Err(error),
        }
    }
}

proof fn lemma_gathering_stops(
    state: StateView,
    names: Seq<Seq<char>>,
    calls: Seq<FunctionCallView>,
    n: int,
)
    requires
        0 <= n <= calls.len(),
        all_gathered(state, names, calls.take(n)) is Err,
    ensures
        all_gathered(state, names, calls) == all_gathered(state, names, calls.take(n)),
    decreases calls.len() - n,
{
    if n < calls.len() {
        assert(calls.take(n + 1).drop_last() =~= calls.take(n));
        lemma_gathering_stops(state, names, calls, n + 1);
    } else {
        assert(calls.take(n) =~= calls);
    }
}

/// The code among the arguments of a program: the only one, and not too long.
pub open spec fn program_code(arguments: JsonView) -> Result<Seq<char>, ErrorView> {
    let code = arguments.text_at("code"@);
    if arguments->Object_0.len() != 1 {
        Err(ErrorView::invalid_request("programmatic call requires only the code argument"@))
    } else if code is None {
        Err(ErrorView::invalid_request("programmatic call requires string code"@))
    } else if text::byte_len(code->0) > SANDBOX_MAX_CODE_BYTES {
        Err(ErrorView::invalid_request("programmatic code exceeds the 32768-byte limit"@))
    } else {
        Ok(code->0)
    }
}

/// Takes the code out of the arguments of a program.
pub fn code_of_program(arguments: &Json) -> (r: Result<String, ToolRuntimeError>)
    requires
        arguments@ is Object,
    ensures
        match r {
            Ok(code) => program_code(arguments@) == Ok::<Seq<char>, ErrorView>(code@),
            Err(error) => program_code(arguments@) == Err::<Seq<char>, ErrorView>(error@),
        },
{
    let count: usize = match arguments.as_object() {
        Some(object) => object.len(),
        None => 0,
    };
    if count != 1 {
        return Err(
            ToolRuntimeError::invalid_request("programmatic call requires only the code argument"),
        );
    }
    let code = match arguments.text_at("code") {
        Some(code) => code,
        None => {
            return Err(ToolRuntimeError::invalid_request("programmatic call requires string code"));
        },
    };
    if text::byte_length(code) > SANDBOX_MAX_CODE_BYTES {
        return Err(
            ToolRuntimeError::invalid_request("programmatic code exceeds the 32768-byte limit"),
        );
    }
    Ok(code.to_owned())
}

/// What a model wants run, by the function calls of its response.
pub open spec fn collected(
    state: StateView,
    names: Seq<Seq<char>>,
    calls: Seq<FunctionCallView>,
) -> Result<CollectedView, ErrorView> {
    match all_gathered(state, names, calls) {
        Err(error) => Err(error),
        Ok(found) => match found.program {
            Some((call_id, arguments)) => match arguments_parsed(
                vstd::utf8::encode_utf8(arguments),
                state.registry.limits.max_arguments_bytes as nat,
            ) {
                Err(error) => Err(error),
                Ok(parsed) => match program_code(parsed) {
                    Ok(code) => Ok(CollectedView::Programmatic { call_id, code }),
                    Err(error) => Err(error),
                },
            },
            None => match sandbox_checked(state.registry, found.calls, state.parallel) {
                Ok(_) => Ok(CollectedView::Direct(found.calls)),
                Err(error) => Err(error),
            },
        },
    }
}

struct Gathered {
    calls: Vec<ManagedToolCall>,
    program: Option<(String, String)>,
}

impl Gathered {
    spec fn view(&self) -> GatheredView {
        GatheredView {
            calls: call_views(self.calls@),
            program: match self.program {
                Some((call_id, arguments)) => Some((call_id@, arguments@)),
                None => None,
            },
        }
    }
}

fn push_call(calls: &mut Vec<ManagedToolCall>, call: ManagedToolCall)
    ensures
        call_views(final(calls)@) == call_views(old(calls)@).push(call@),
{
    let ghost before = call_views(calls@);
    calls.push(call);
    assert(call_views(calls@) =~= before.push(call@));
}

fn gather(
    target: &mut Gathered,
    state: &ManagedToolState,
    names: &Vec<String>,
    earlier: &Vec<String>,
    call: &FunctionCall,
) -> (r: Result<(), ToolRuntimeError>)
    ensures
        match r {
            Ok(_) => gathered(
                old(target)@,
                state@,
                text::strings(names@),
                text::strings(earlier@),
                call@,
            ) == Ok::<GatheredView, ErrorView>(final(target)@),
            Err(error) => gathered(
                old(target)@,
                state@,
                text::strings(names@),
                text::strings(earlier@),
                call@,
            ) == Err::<GatheredView, ErrorView>(error@),
        },
{
    if !call.completed {
        return Err(
            ToolRuntimeError::invalid_request(
                "model generated a managed tool call without completed status",
            ),
        );
    }
    if call.call_id.as_str().is_empty() || text::among_strings(earlier, call.call_id.as_str()) {
        return Err(
            ToolRuntimeError::invalid_request(
                "model generated an empty or duplicate managed tool call id",
            ),
        );
    }
    let name = call.name.as_str();
    if text::same_text(name, PROGRAMMATIC_FUNCTION) {
        if !state.programmatic_requested || !text::among_strings(names, PROGRAMMATIC_FUNCTION) {
            return Err(
                ToolRuntimeError::invalid_request(
                    "model generated an undeclared programmatic tool call",
                ),
            );
        }
        if text::byte_length(call.call_id.as_str()) > SANDBOX_MAX_CALL_ID_BYTES {
            return Err(
                ToolRuntimeError::limit(
                    "Sandbox call id exceeds the 256-byte limit",
                    ToolRuntimeLimit::SandboxCallId,
                ),
            );
        }
        if target.program.is_some() || target.calls.len() > 0 || call.namespace.is_some() {
            return Err(
                ToolRuntimeError::invalid_request(
                    "model generated an invalid programmatic tool batch",
                ),
            );
        }
        target.program = Some((call.call_id.clone(), call.arguments.clone()));
        return Ok(());
    }
    if target.program.is_some() {
        return Err(
            ToolRuntimeError::invalid_request(
                "model mixed programmatic and direct tool calls in one response",
            ),
        );
    }
    if call.namespace.is_some() || !text::among_strings(names, name) {
        let message = joined("model generated undeclared managed tool ", name);
        return Err(ToolRuntimeError::invalid_request(message.as_str()));
    }
    let tool = match state.registry.find_internal(name) {
        Some(tool) => tool,
        None => {
            let message = joined("model generated unregistered managed tool ", name);
            return Err(ToolRuntimeError::invalid_request(message.as_str()));
        },
    };
    let arguments = match parse_arguments(
        call.arguments.as_str().as_bytes(),
        state.registry.limits().max_arguments_bytes,
    ) {
        Ok(arguments) => arguments,
        Err(error) => {
            return Err(error);
        },
    };
    let conforms = match &tool.argument_schema {
        Some(schema) => schema.is_valid(&arguments),
        None => {
            return Err(
                ToolRuntimeError::invalid_configuration(
                    "managed function argument schema was not compiled",
                ),
            );
        },
    };
    match admit_call(tool, name, call.call_id.as_str(), arguments, conforms) {
        Ok(admitted) => {
            push_call(&mut target.calls, admitted);
            Ok(())
        },
        Err(error) => Err(error),
    }
}

/// Authorizes and parses the function calls of one model response.
///
/// A configured tool is not enough: the tool must also be declared in this request.
pub fn collect_calls_of(state: &ManagedToolState, names: &Vec<String>, calls: &Vec<FunctionCall>) -> (r:
    Result<CollectedToolCalls, ToolRuntimeError>)
    ensures
        collected_result(r) == collected(
            state@,
            text::strings(names@),
            function_call_views(calls@),
        ),
{
    let ghost all = function_call_views(calls@);
    let ghost declared = text::strings(names@);
    let mut target = Gathered { calls: Vec::new(), program: None };
    assert(target@.calls =~= Seq::empty());
    let mut earlier: Vec<String> = Vec::new();
    let mut i: usize = 0;
    assert(all.take(0) =~= Seq::empty());
    assert(text::strings(earlier@) =~= ids_of(all.take(0)));
    while i < calls.len()
        invariant
            all == function_call_views(calls@),
            declared == text::strings(names@),
            i <= calls@.len(),
            text::strings(earlier@) == ids_of(all.take(i as int)),
            all_gathered(state@, declared, all.take(i as int)) == Ok::<GatheredView, ErrorView>(
                target@,
            ),
        decreases calls@.len() - i,
    {
        assert(all.take(i + 1).drop_last() =~= all.take(i as int));
        assert(all.take(i + 1).last() == calls@[i as int]@);
        match gather(&mut target, state, names, &earlier, &calls[i]) {
            Ok(_) => {},
            Err(error) => {
                proof {
                    lemma_gathering_stops(state@, declared, all, i + 1);
                }
                return Err(error);
            },
        }
        let ghost before = text::strings(earlier@);
        earlier.push(calls[i].call_id.clone());
        proof {
            assert(text::strings(earlier@) =~= before.push(all[i as int].call_id));
            assert(ids_of(all.take(i + 1)) =~= ids_of(all.take(i as int)).push(
                all[i as int].call_id,
            ));
        }
        i += 1;
    }
    assert(all.take(i as int) =~= all);
    match target.program {
        Some((call_id, source)) => {
            let arguments = match parse_arguments(
                source.as_str().as_bytes(),
                state.registry.limits().max_arguments_bytes,
            ) {
                Ok(arguments) => arguments,
                Err(error) => {
                    return Err(error);
                },
            };
            match code_of_program(&arguments) {
                Ok(code) => Ok(CollectedToolCalls::Programmatic { call_id, code }),
                Err(error) => Err(error),
            }
        },
        None => match validate_sandbox_contract(&state.registry, &target.calls, state.parallel) {
            Ok(_) => Ok(CollectedToolCalls::Direct(target.calls)),
            Err(error) => Err(error),
        },
    }
}

/// Every collected call is declared, registered and unique by its id, and a program stands alone.
pub proof fn collected_calls_are_declared_and_unique(
    state: StateView,
    names: Seq<Seq<char>>,
    calls: Seq<FunctionCallView>,
)
    ensures
        match all_gathered(state, names, calls) {
            Ok(found) => {
                &&& ids_of(calls).no_duplicates()
                &&& found.program is Some ==> found.calls.len() == 0 && calls.len() == 1
                &&& found.program is None ==> found.calls.len() == calls.len() && forall|i: int|
                    0 <= i < found.calls.len() ==> {
                        &&& names.contains((#[trigger] found.calls[i]).internal_name)
                        &&& found.calls[i].internal_name == calls[i].name
                        &&& found.calls[i].call_id == calls[i].call_id
                        &&& by_internal(state.registry.tools, calls[i].name) is Some
                    }
            },
            Err(_) => true,
        },
    decreases calls.len(),
{
    if calls.len() > 0 {
        let rest = calls.drop_last();
        collected_calls_are_declared_and_unique(state, names, rest);
        if all_gathered(state, names, calls) is Ok {
            text::lemma_push_distinct(ids_of(rest), calls.last().call_id);
            assert(ids_of(calls) =~= ids_of(rest).push(calls.last().call_id));
        }
    }
}

impl PreparedToolRuntime {
    /// What a model wants run, by the function calls of its response.
    pub fn collect_model_calls(&self, calls: &Vec<FunctionCall>) -> (r: Result<
        CollectedToolCalls,
        ToolRuntimeError,
    >)
        ensures
            collected_result(r) == collected(
                self@.state,
                tool_names(self@.request.tools(), Some("function"@)),
                function_call_views(calls@),
            ),
    {
        let names = names_of_tools(&self.canonical_request.declared_tools(), Some("function"));
        collect_calls_of(&self.state, &names, calls)
    }

    /// The calls of tools among them; a program needs the managed runner.
    pub fn collect_calls(&self, calls: &Vec<FunctionCall>) -> (r: Result<
        Vec<ManagedToolCall>,
        ToolRuntimeError,
    >)
        ensures
            match collected(
                self@.state,
                tool_names(self@.request.tools(), Some("function"@)),
                function_call_views(calls@),
            ) {
                Ok(CollectedView::Direct(found)) => r is Ok && call_views(r->Ok_0@) == found,
                Ok(CollectedView::Programmatic { .. }) => r is Err && r->Err_0@
                    == ErrorView::invalid_request("programmatic calls require the managed runner"@),
                Err(error) => r is Err && r->Err_0@ == error,
            },
    {
        match self.collect_model_calls(calls) {
            Ok(CollectedToolCalls::Direct(found)) => Ok(found),
            Ok(CollectedToolCalls::Programmatic { .. }) => Err(
                ToolRuntimeError::invalid_request("programmatic calls require the managed runner"),
            ),
            Err(error) => Err(error),
        }
    }
}

} // verus!
