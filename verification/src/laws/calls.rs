//! Which calls of a model are carried out, and as what.

use vstd::prelude::*;
use vstd::string::*;
use crate::backend::CallView;
use crate::calls::{
    all_gathered, collected, collected_calls_are_declared_and_unique, gathered, ids_of, is_sandbox,
    program_code, sandbox_batch, sandbox_checked, CollectedView, FunctionCallView,
};
use crate::config::{
    PROGRAMMATIC_FUNCTION, SANDBOX_MAX_BATCH_EXECUTIONS, SANDBOX_MAX_CALL_ID_BYTES,
    SANDBOX_MAX_CODE_BYTES,
};
use crate::conversation::{lemma_spec_named, names_ascend, spec_named, SpecView, StateView};
use crate::error::ErrorView;
use crate::json::{group_fields_read_back, JsonView};
use crate::messages::calls::{
    adapted, block_gathered, blocks_collected, blocks_gathered, with_messages_round, BlocksView,
};
use crate::messages::mapper::PreparedMessagesView;
use crate::output::arguments_parsed;
use crate::registry::{by_internal, names_are_distinct, RegistryView, ToolView};
use crate::request::{tool_names, RequestView};
use crate::runtime::{with_round, PreparedView};
use crate::schema::schema_accepts;
use crate::serde_value::{json_parsed, json_size};
use crate::text;

verus! {

/// A tool is found by its internal name where there is one of that name, and only that one.
pub proof fn a_tool_is_found_by_its_internal_name(tools: Seq<ToolView>, name: Seq<char>)
    ensures
        match by_internal(tools, name) {
            Some(tool) => tools.contains(tool) && tool.internal_name == name,
            None => forall|i: int|
                0 <= i < tools.len() ==> (#[trigger] tools[i]).internal_name != name,
        },
        names_are_distinct(tools) ==> forall|i: int|
            0 <= i < tools.len() && (#[trigger] tools[i]).internal_name == name ==> by_internal(
                tools,
                name,
            ) == Some(tools[i]),
    decreases tools.len(),
{
    if tools.len() > 0 {
        let rest = tools.drop_last();
        let last = tools.len() - 1;
        a_tool_is_found_by_its_internal_name(rest, name);
        if tools.last().internal_name == name {
            assert(tools[last] == tools.last());
        } else if by_internal(rest, name) is Some {
            let k = choose|k: int| 0 <= k < rest.len() && rest[k] == by_internal(rest, name)->0;
            assert(tools[k] == rest[k]);
        } else {
            assert forall|i: int| 0 <= i < tools.len() implies (#[trigger] tools[i]).internal_name
                != name by {
                if i < last {
                    assert(rest[i] == tools[i]);
                }
            }
        }
        if names_are_distinct(tools) {
            assert(names_are_distinct(rest)) by {
                assert forall|i: int, j: int| 0 <= i < j < rest.len() implies (
                #[trigger] rest[i]).public_name != (#[trigger] rest[j]).public_name
                    && rest[i].internal_name != rest[j].internal_name by {
                    assert(rest[i] == tools[i] && rest[j] == tools[j]);
                }
            }
            assert forall|i: int|
                0 <= i < tools.len() && (#[trigger] tools[i]).internal_name
                    == name implies by_internal(tools, name) == Some(tools[i]) by {
                if i < last {
                    assert(tools[i].internal_name != tools[last].internal_name);
                    assert(rest[i] == tools[i]);
                }
            }
        }
    }
}

/// Whether a call is of a registered tool: by its internal name, under its public name, with the
/// options that the client chose for it, and with arguments that its schema accepts.
pub open spec fn is_of_tool(call: CallView, tool: ToolView) -> bool {
    &&& tool.internal_name == call.internal_name
    &&& tool.public_name == call.public_name
    &&& call.trusted_options == (match tool.trusted_options {
        Some(options) => options,
        None => JsonView::empty(),
    })
    &&& tool.argument_schema is Some
    &&& schema_accepts(tool.argument_schema->0, call.arguments)
}

/// Whether a call is of one of the tools of a registry.
pub open spec fn is_authorized(call: CallView, tools: Seq<ToolView>) -> bool {
    exists|i: int| 0 <= i < tools.len() && is_of_tool(call, #[trigger] tools[i])
}

/// Whether a call that is carried out is the one that the model made: under its id and its name,
/// with the arguments that it wrote, of a tool that is registered and accepts them.
pub open spec fn carries_out(
    call: CallView,
    asked: FunctionCallView,
    tools: Seq<ToolView>,
    max: nat,
) -> bool {
    &&& call.call_id == asked.call_id
    &&& call.internal_name == asked.name
    &&& json_parsed(asked.arguments) == Ok::<JsonView, Seq<char>>(call.arguments)
    &&& call.arguments is Object
    &&& text::byte_len(asked.arguments) <= max
    &&& is_authorized(call, tools)
}

/// The arguments of a call are the JSON object that its text is, where it is one and not too long.
pub proof fn arguments_are_what_was_written(written: Seq<char>, max: nat)
    ensures
        match arguments_parsed(vstd::utf8::encode_utf8(written), max) {
            Ok(value) => {
                &&& json_parsed(written) == Ok::<JsonView, Seq<char>>(value)
                &&& value is Object
                &&& text::byte_len(written) <= max
            },
            Err(_) => {
                ||| text::byte_len(written) > max
                ||| json_parsed(written) is Err
                ||| !(json_parsed(written)->Ok_0 is Object)
            },
        },
{
    vstd::utf8::encode_utf8_decode_utf8(written);
    vstd::utf8::encode_utf8_valid_utf8(written);
}

/// Whether what was gathered of calls is what they are.
pub open spec fn gathers(
    found: Seq<CallView>,
    calls: Seq<FunctionCallView>,
    tools: Seq<ToolView>,
    max: nat,
) -> bool {
    found.len() == calls.len() && forall|i: int|
        0 <= i < calls.len() ==> carries_out(#[trigger] found[i], calls[i], tools, max)
}

proof fn lemma_gathered_are_carried_out(
    state: StateView,
    names: Seq<Seq<char>>,
    calls: Seq<FunctionCallView>,
)
    ensures
        match all_gathered(state, names, calls) {
            Ok(found) => match found.program {
                None => gathers(
                    found.calls,
                    calls,
                    state.registry.tools,
                    state.registry.limits.max_arguments_bytes as nat,
                ),
                Some((call_id, arguments)) => {
                    &&& found.calls.len() == 0
                    &&& calls.len() == 1
                    &&& calls[0].name == PROGRAMMATIC_FUNCTION@
                    &&& calls[0].call_id == call_id
                    &&& calls[0].arguments == arguments
                },
            },
            Err(_) => true,
        },
    decreases calls.len(),
{
    collected_calls_are_declared_and_unique(state, names, calls);
    if calls.len() > 0 {
        let rest = calls.drop_last();
        let last = calls.last();
        let max = state.registry.limits.max_arguments_bytes as nat;
        let tools = state.registry.tools;
        lemma_gathered_are_carried_out(state, names, rest);
        collected_calls_are_declared_and_unique(state, names, rest);
        if all_gathered(state, names, calls) is Ok {
            let before = all_gathered(state, names, rest)->Ok_0;
            let found = all_gathered(state, names, calls)->Ok_0;
            assert(found == gathered(before, state, names, ids_of(rest), last)->Ok_0);
            if found.program is None {
                arguments_are_what_was_written(last.arguments, max);
                a_tool_is_found_by_its_internal_name(tools, last.name);
                let tool = by_internal(tools, last.name)->0;
                let k = choose|k: int| 0 <= k < tools.len() && tools[k] == tool;
                assert(is_of_tool(found.calls.last(), tools[k]));
                assert forall|i: int| 0 <= i < calls.len() implies carries_out(
                    #[trigger] found.calls[i],
                    calls[i],
                    tools,
                    max,
                ) by {
                    if i < rest.len() {
                        assert(found.calls[i] == before.calls[i]);
                        assert(rest[i] == calls[i]);
                        assert(carries_out(before.calls[i], rest[i], tools, max));
                    }
                }
            }
        }
    }
}

/// The calls that are carried out are those that the model made, one for one and in order, each with
/// the arguments that the model wrote; or the model made one call of a program, whose code is the
/// text among its arguments.
pub proof fn collected_calls_are_those_that_the_model_made(
    state: StateView,
    names: Seq<Seq<char>>,
    calls: Seq<FunctionCallView>,
)
    ensures
        match collected(state, names, calls) {
            Ok(CollectedView::Direct(found)) => gathers(
                found,
                calls,
                state.registry.tools,
                state.registry.limits.max_arguments_bytes as nat,
            ),
            Ok(CollectedView::Programmatic { call_id, code }) => {
                &&& calls.len() == 1
                &&& calls[0].name == PROGRAMMATIC_FUNCTION@
                &&& calls[0].call_id == call_id
                &&& json_parsed(calls[0].arguments) matches Ok(arguments) && arguments is Object
                    && arguments->Object_0.len() == 1 && arguments.get("code"@) == Some(
                    JsonView::Text(code),
                )
                &&& text::byte_len(code) <= SANDBOX_MAX_CODE_BYTES
            },
            Err(_) => true,
        },
{
    lemma_gathered_are_carried_out(state, names, calls);
    if let Ok(found) = all_gathered(state, names, calls) {
        if let Some((call_id, arguments)) = found.program {
            arguments_are_what_was_written(
                arguments,
                state.registry.limits.max_arguments_bytes as nat,
            );
        }
    }
}

/// Whether nothing stands against a call: it is complete, of a declared and registered tool, and
/// with arguments that the tool accepts.
pub open spec fn may_be_carried_out(
    state: StateView,
    names: Seq<Seq<char>>,
    call: FunctionCallView,
    tool: ToolView,
) -> bool {
    let arguments = json_parsed(call.arguments);
    &&& call.completed
    &&& call.call_id.len() > 0
    &&& call.namespace is None
    &&& call.name != PROGRAMMATIC_FUNCTION@
    &&& names.contains(call.name)
    &&& state.registry.tools.contains(tool)
    &&& tool.internal_name == call.name
    &&& text::byte_len(call.arguments) <= state.registry.limits.max_arguments_bytes
    &&& arguments is Ok
    &&& arguments->Ok_0 is Object
    &&& tool.argument_schema is Some
    &&& schema_accepts(tool.argument_schema->0, arguments->Ok_0)
}

/// Calls against which nothing stands, with different ids, are carried out, unless they ask too much
/// of a sandbox.
pub proof fn calls_against_which_nothing_stands_are_carried_out(
    state: StateView,
    names: Seq<Seq<char>>,
    calls: Seq<FunctionCallView>,
    tools: Seq<ToolView>,
)
    requires
        names_are_distinct(state.registry.tools),
        ids_of(calls).no_duplicates(),
        tools.len() == calls.len(),
        forall|i: int|
            0 <= i < calls.len() ==> may_be_carried_out(
                state,
                names,
                #[trigger] calls[i],
                tools[i],
            ),
    ensures
        all_gathered(state, names, calls) is Ok,
        match collected(state, names, calls) {
            Ok(found) => found is Direct && found->Direct_0.len() == calls.len(),
            Err(error) => exists|found: Seq<CallView>| #[trigger]
                sandbox_checked(state.registry, found, state.parallel) == Err::<(), ErrorView>(
                    error,
                ),
        },
    decreases calls.len(),
{
    lemma_gathered_are_carried_out(state, names, calls);
    if calls.len() > 0 {
        let rest = calls.drop_last();
        let last = calls.last();
        let n = calls.len() - 1;
        assert forall|i: int| 0 <= i < rest.len() implies may_be_carried_out(
            state,
            names,
            #[trigger] rest[i],
            tools.drop_last()[i],
        ) by {
            assert(rest[i] == calls[i]);
        }
        assert(ids_of(rest).no_duplicates()) by {
            assert forall|i: int, j: int| 0 <= i < rest.len() && 0 <= j < rest.len() && i
                != j implies ids_of(rest)[i] != ids_of(rest)[j] by {
                assert(ids_of(calls)[i] != ids_of(calls)[j]);
            }
        }
        calls_against_which_nothing_stands_are_carried_out(state, names, rest, tools.drop_last());
        lemma_gathered_are_carried_out(state, names, rest);
        assert(may_be_carried_out(state, names, calls[n], tools[n]));
        assert(!ids_of(rest).contains(last.call_id)) by {
            if ids_of(rest).contains(last.call_id) {
                let k = choose|k: int| 0 <= k < rest.len() && ids_of(rest)[k] == last.call_id;
                assert(ids_of(calls)[k] != ids_of(calls)[n]);
            }
        }
        arguments_are_what_was_written(
            last.arguments,
            state.registry.limits.max_arguments_bytes as nat,
        );
        a_tool_is_found_by_its_internal_name(state.registry.tools, last.name);
        let k = choose|k: int|
            0 <= k < state.registry.tools.len() && state.registry.tools[k] == tools[n];
        assert(by_internal(state.registry.tools, last.name) == Some(tools[n]));
        let before = all_gathered(state, names, rest)->Ok_0;
        assert(before.program is None) by {
            if before.program is Some {
                assert(rest[0] == calls[0]);
                assert(may_be_carried_out(state, names, calls[0], tools[0]));
            }
        }
    }
    lemma_gathered_are_carried_out(state, names, calls);
    let found = all_gathered(state, names, calls)->Ok_0;
    assert(found.program is None) by {
        if found.program is Some {
            assert(may_be_carried_out(state, names, calls[0], tools[0]));
        }
    }
    if collected(state, names, calls) is Err {
        assert(sandbox_checked(state.registry, found.calls, state.parallel) == Err::<
            (),
            ErrorView,
        >(collected(state, names, calls)->Err_0));
    }
}

/// Whether the code of a call fits a sandbox, and so does its id.
pub open spec fn fits_a_sandbox(call: CallView) -> bool {
    &&& text::byte_len(call.call_id) <= SANDBOX_MAX_CALL_ID_BYTES
    &&& call.arguments.get("code"@) matches Some(JsonView::Text(code)) && text::byte_len(code)
        <= SANDBOX_MAX_CODE_BYTES
}

/// How many of these calls are for a sandbox.
pub open spec fn sandbox_calls(registry: RegistryView, calls: Seq<CallView>) -> nat
    decreases calls.len(),
{
    if calls.len() == 0 {
        0
    } else {
        sandbox_calls(registry, calls.drop_last()) + if is_sandbox(registry, calls.last()) {
            1nat
        } else {
            0
        }
    }
}

proof fn lemma_sandbox_calls(registry: RegistryView, calls: Seq<CallView>, parallel: bool)
    ensures
        match sandbox_batch(registry, calls, parallel) {
            Ok(size) => {
                &&& size <= SANDBOX_MAX_BATCH_EXECUTIONS
                &&& size <= sandbox_calls(registry, calls)
                &&& parallel ==> size == sandbox_calls(registry, calls)
                &&& forall|i: int|
                    0 <= i < calls.len() && is_sandbox(registry, calls[i]) ==> fits_a_sandbox(
                        #[trigger] calls[i],
                    )
            },
            Err(_) => sandbox_calls(registry, calls) > SANDBOX_MAX_BATCH_EXECUTIONS || exists|
                i: int,
            |
                0 <= i < calls.len() && is_sandbox(registry, calls[i]) && !fits_a_sandbox(
                    #[trigger] calls[i],
                ),
        },
    decreases calls.len(),
{
    if calls.len() > 0 {
        let rest = calls.drop_last();
        let n = calls.len() - 1;
        lemma_sandbox_calls(registry, rest, parallel);
        if sandbox_batch(registry, rest, parallel) is Err {
            if sandbox_calls(registry, rest) <= SANDBOX_MAX_BATCH_EXECUTIONS {
                let k = choose|k: int|
                    0 <= k < rest.len() && is_sandbox(registry, rest[k]) && !fits_a_sandbox(
                        #[trigger] rest[k],
                    );
                assert(calls[k] == rest[k]);
            }
        } else if sandbox_batch(registry, calls, parallel) is Err {
            assert(calls[n] == calls.last());
            if sandbox_calls(registry, calls) <= SANDBOX_MAX_BATCH_EXECUTIONS {
                assert(!fits_a_sandbox(calls[n]));
            }
        } else {
            assert forall|i: int| 0 <= i < calls.len() && is_sandbox(
                registry,
                calls[i],
            ) implies fits_a_sandbox(#[trigger] calls[i]) by {
                if i < n {
                    assert(rest[i] == calls[i]);
                }
            }
        }
    }
}

/// Calls are let through to a sandbox where each fits and there are not too many: of calls that run
/// at once, no more than the batch holds. Calls that are few and fit are always let through.
pub proof fn sandbox_calls_are_let_through_where_they_fit(
    registry: RegistryView,
    calls: Seq<CallView>,
    parallel: bool,
)
    ensures
        sandbox_checked(registry, calls, parallel) is Ok ==> {
            &&& forall|i: int|
                0 <= i < calls.len() && is_sandbox(registry, calls[i]) ==> fits_a_sandbox(
                    #[trigger] calls[i],
                )
            &&& parallel ==> sandbox_calls(registry, calls) <= SANDBOX_MAX_BATCH_EXECUTIONS
        },
        sandbox_checked(registry, calls, parallel) is Err ==> {
            ||| sandbox_calls(registry, calls) > SANDBOX_MAX_BATCH_EXECUTIONS
            ||| exists|i: int|
                0 <= i < calls.len() && is_sandbox(registry, calls[i]) && !fits_a_sandbox(
                    #[trigger] calls[i],
                )
        },
{
    lemma_sandbox_calls(registry, calls, parallel);
}

/// A call runs in a sandbox exactly where its tool is backed by one.
pub proof fn a_sandbox_call_is_one_of_a_sandbox_tool(
    registry: RegistryView,
    call: CallView,
    tool: ToolView,
)
    requires
        names_are_distinct(registry.tools),
        registry.tools.contains(tool),
        tool.internal_name == call.internal_name,
    ensures
        is_sandbox(registry, call) <==> tool.backend is Some && tool.backend->0 is E2b,
{
    a_tool_is_found_by_its_internal_name(registry.tools, call.internal_name);
    let k = choose|k: int| 0 <= k < registry.tools.len() && registry.tools[k] == tool;
    assert(by_internal(registry.tools, call.internal_name) == Some(tool));
}

/// A call that a program makes is authorized where the program may call the tool and the tool
/// accepts the arguments, and it is then made with just these arguments.
pub proof fn a_call_of_a_program_is_made_as_it_was_written(
    state: StateView,
    execution_id: Seq<char>,
    sequence: nat,
    name: Seq<char>,
    arguments: JsonView,
)
    ensures
        match state.programmatic_call(execution_id, sequence, name, arguments) {
            Ok(call) => {
                &&& call.arguments == arguments
                &&& is_authorized(call, state.registry.tools)
                &&& exists|i: int|
                    0 <= i < state.programmatic_tools.len() && (
                    #[trigger] state.programmatic_tools[i]).public_name == name
                        && state.programmatic_tools[i].internal_name == call.internal_name
                &&& text::has_prefix(call.call_id, "programmatic_"@ + execution_id + "_"@)
            },
            Err(_) => true,
        },
{
    let tools = state.registry.tools;
    if let Ok(call) = state.programmatic_call(execution_id, sequence, name, arguments) {
        lemma_spec_named(state.programmatic_tools, name);
        lemma_named_spec(state.programmatic_tools, name);
        a_tool_is_found_by_its_internal_name(tools, call.internal_name);
        let k = choose|k: int|
            0 <= k < tools.len() && tools[k] == by_internal(tools, call.internal_name)->0;
        assert(is_of_tool(call, tools[k]));
        let prefix = "programmatic_"@ + execution_id + "_"@;
        assert(call.call_id.take(prefix.len() as int) =~= prefix);
    }
}

proof fn lemma_named_spec(tools: Seq<SpecView>, name: Seq<char>)
    requires
        spec_named(tools, name) is Some,
    ensures
        exists|i: int|
            0 <= i < tools.len() && #[trigger] tools[i] == spec_named(tools, name)->0,
        spec_named(tools, name)->0.public_name == name,
    decreases tools.len(),
{
    if tools[0].public_name != name {
        let rest = tools.drop_first();
        lemma_named_spec(rest, name);
        let k = choose|k: int| 0 <= k < rest.len() && #[trigger] rest[k] == spec_named(rest, name)->0;
        assert(tools[k + 1] == rest[k]);
    } else {
        assert(tools[0] == spec_named(tools, name)->0);
    }
}

/// Whatever a program may call and a tool accepts is authorized.
pub proof fn a_call_that_a_program_may_make_is_authorized(
    state: StateView,
    execution_id: Seq<char>,
    sequence: nat,
    arguments: JsonView,
    i: int,
    tool: ToolView,
)
    requires
        names_are_distinct(state.registry.tools),
        names_ascend(state.programmatic_tools),
        0 <= i < state.programmatic_tools.len(),
        state.registry.tools.contains(tool),
        tool.internal_name == state.programmatic_tools[i].internal_name,
        tool.argument_schema is Some,
        schema_accepts(tool.argument_schema->0, arguments),
    ensures
        state.programmatic_call(
            execution_id,
            sequence,
            state.programmatic_tools[i].public_name,
            arguments,
        ) is Ok,
{
    let specs = state.programmatic_tools;
    let name = specs[i].public_name;
    lemma_spec_named(specs, name);
    lemma_named_spec(specs, name);
    let k = choose|k: int| 0 <= k < specs.len() && #[trigger] specs[k] == spec_named(specs, name)->0;
    assert(k == i) by {
        if k < i {
            assert(text::text_less(specs[k].public_name, specs[i].public_name));
            text::lemma_text_less_irreflexive(name);
        } else if i < k {
            assert(text::text_less(specs[i].public_name, specs[k].public_name));
            text::lemma_text_less_irreflexive(name);
        }
    }
    a_tool_is_found_by_its_internal_name(state.registry.tools, tool.internal_name);
    let t = choose|t: int| 0 <= t < state.registry.tools.len() && state.registry.tools[t] == tool;
    assert(by_internal(state.registry.tools, tool.internal_name) == Some(tool));
}

/// The calls that one program makes have different ids.
pub proof fn calls_of_a_program_have_different_ids(
    state: StateView,
    execution_id: Seq<char>,
    first: nat,
    second: nat,
    name: Seq<char>,
    other: Seq<char>,
    arguments: JsonView,
    others: JsonView,
)
    requires
        first != second,
        state.programmatic_call(execution_id, first, name, arguments) is Ok,
        state.programmatic_call(execution_id, second, other, others) is Ok,
    ensures
        state.programmatic_call(execution_id, first, name, arguments)->Ok_0.call_id
            != state.programmatic_call(execution_id, second, other, others)->Ok_0.call_id,
{
    let prefix = "programmatic_"@ + execution_id + "_"@;
    let a = state.programmatic_call(execution_id, first, name, arguments)->Ok_0.call_id;
    let b = state.programmatic_call(execution_id, second, other, others)->Ok_0.call_id;
    if a == b {
        let n = prefix.len() as int;
        assert(a.skip(n) =~= text::decimal(first));
        assert(b.skip(n) =~= text::decimal(second));
        lemma_decimal_injective(first, second);
    }
}

proof fn lemma_digit_injective(a: nat, b: nat)
    requires
        a < 10,
        b < 10,
        text::digit(a) == text::digit(b),
    ensures
        a == b,
{
    lemma_digits();
}

/// Different numbers have different digits.
pub proof fn lemma_decimal_injective(a: nat, b: nat)
    requires
        text::decimal(a) == text::decimal(b),
    ensures
        a == b,
    decreases a,
{
    lemma_decimal_shape(a);
    lemma_decimal_shape(b);
    if a < 10 && b < 10 {
        lemma_digit_injective(a, b);
    } else if a >= 10 && b >= 10 {
        let s = text::decimal(a);
        let n = s.len() - 1;
        lemma_digits();
        assert(s.take(n) =~= text::decimal(a / 10));
        assert(s.take(n) =~= text::decimal(b / 10));
        assert(s.skip(n) =~= text::digit(a % 10));
        assert(s.skip(n) =~= text::digit(b % 10));
        lemma_decimal_injective(a / 10, b / 10);
        lemma_digit_injective(a % 10, b % 10);
    }
}

proof fn lemma_decimal_shape(n: nat)
    ensures
        n < 10 ==> text::decimal(n).len() == 1,
        n >= 10 ==> text::decimal(n).len() >= 2,
        text::decimal(n).len() >= 1,
    decreases n,
{
    lemma_digits();
    if n >= 10 {
        lemma_decimal_shape(n / 10);
    }
}

proof fn lemma_digits()
    ensures
        forall|d: nat| d < 10 ==> (#[trigger] text::digit(d)).len() == 1,
        forall|a: nat, b: nat|
            a < 10 && b < 10 && #[trigger] text::digit(a) == #[trigger] text::digit(b) ==> a == b,
{
    reveal_strlit("0");
    reveal_strlit("1");
    reveal_strlit("2");
    reveal_strlit("3");
    reveal_strlit("4");
    reveal_strlit("5");
    reveal_strlit("6");
    reveal_strlit("7");
    reveal_strlit("8");
    reveal_strlit("9");
    assert("0"@[0] == '0' && "1"@[0] == '1' && "2"@[0] == '2' && "3"@[0] == '3' && "4"@[0] == '4');
    assert("5"@[0] == '5' && "6"@[0] == '6' && "7"@[0] == '7' && "8"@[0] == '8' && "9"@[0] == '9');
}

/// The tool uses of a message, in order.
pub open spec fn tool_uses(blocks: Seq<JsonView>) -> Seq<JsonView>
    decreases blocks.len(),
{
    if blocks.len() == 0 {
        Seq::empty()
    } else if blocks.last().get("type"@) == Some(JsonView::Text("tool_use"@)) {
        tool_uses(blocks.drop_last()).push(blocks.last())
    } else {
        tool_uses(blocks.drop_last())
    }
}

/// Whether a call that is carried out is the one of a block: under its id and its name, with its
/// input, of a tool that is registered and accepts it.
pub open spec fn carries_out_block(call: CallView, block: JsonView, tools: Seq<ToolView>) -> bool {
    &&& block.get("id"@) == Some(JsonView::Text(call.call_id))
    &&& block.get("name"@) == Some(JsonView::Text(call.internal_name))
    &&& block.get("input"@) == Some(call.arguments)
    &&& call.arguments is Object
    &&& is_authorized(call, tools)
}

proof fn lemma_blocks_are_carried_out(
    state: StateView,
    names: Seq<Seq<char>>,
    stopped_early: bool,
    blocks: Seq<JsonView>,
)
    ensures
        match blocks_gathered(state, names, stopped_early, blocks) {
            Ok(found) => {
                let uses = tool_uses(blocks);
                &&& found.program is None ==> found.calls.len() == uses.len() && forall|i: int|
                    0 <= i < uses.len() ==> carries_out_block(
                        #[trigger] found.calls[i],
                        uses[i],
                        state.registry.tools,
                    ) && names.contains(found.calls[i].internal_name)
                &&& found.program matches Some((id, code)) ==> {
                    &&& uses.len() == 1
                    &&& found.calls.len() == 0
                    &&& uses[0].get("id"@) == Some(JsonView::Text(id))
                    &&& uses[0].get("name"@) == Some(JsonView::Text(PROGRAMMATIC_FUNCTION@))
                    &&& uses[0].get("input"@) matches Some(input) && input is Object
                        && input->Object_0.len() == 1 && input.get("code"@) == Some(
                        JsonView::Text(code),
                    )
                    &&& text::byte_len(code) <= SANDBOX_MAX_CODE_BYTES
                    &&& names.contains(PROGRAMMATIC_FUNCTION@)
                }
                &&& stopped_early ==> uses.len() == 0
            },
            Err(_) => true,
        },
    decreases blocks.len(),
{
    if blocks.len() > 0 {
        let rest = blocks.drop_last();
        let last = blocks.last();
        let tools = state.registry.tools;
        lemma_blocks_are_carried_out(state, names, stopped_early, rest);
        if blocks_gathered(state, names, stopped_early, blocks) is Ok {
            let before = blocks_gathered(state, names, stopped_early, rest)->Ok_0;
            let found = blocks_gathered(state, names, stopped_early, blocks)->Ok_0;
            let uses = tool_uses(blocks);
            if last.get("type"@) == Some(JsonView::Text("tool_use"@)) {
                let name = last.text_at("name"@)->0;
                a_tool_is_found_by_its_internal_name(tools, name);
                if found.program is None {
                    let k = choose|k: int| 0 <= k < tools.len() && tools[k] == by_internal(tools, name)->0;
                    assert(is_of_tool(found.calls.last(), tools[k]));
                    assert forall|i: int| 0 <= i < uses.len() implies carries_out_block(
                        #[trigger] found.calls[i],
                        uses[i],
                        tools,
                    ) && names.contains(found.calls[i].internal_name) by {
                        if i < uses.len() - 1 {
                            assert(found.calls[i] == before.calls[i]);
                            assert(carries_out_block(before.calls[i], tool_uses(rest)[i], tools));
                        }
                    }
                }
            }
        }
    }
}

/// The calls that are carried out of a message are its tool uses, one for one and in order, each
/// with its input; or its only tool use is a program, whose code is the text in its input. A message
/// that ran out of tokens has none.
pub proof fn collected_blocks_are_the_tool_uses_of_a_message(
    state: StateView,
    names: Seq<Seq<char>>,
    stopped_early: bool,
    blocks: Seq<JsonView>,
)
    ensures
        match blocks_collected(state, names, stopped_early, blocks) {
            Ok(CollectedView::Direct(found)) => {
                &&& found.len() == tool_uses(blocks).len()
                &&& forall|i: int|
                    0 <= i < found.len() ==> carries_out_block(
                        #[trigger] found[i],
                        tool_uses(blocks)[i],
                        state.registry.tools,
                    ) && names.contains(found[i].internal_name)
                &&& stopped_early ==> found.len() == 0
            },
            Ok(CollectedView::Programmatic { call_id, code }) => {
                &&& !stopped_early
                &&& tool_uses(blocks).len() == 1
                &&& tool_uses(blocks)[0].get("id"@) == Some(JsonView::Text(call_id))
                &&& tool_uses(blocks)[0].get("input"@) matches Some(input) && input.get("code"@)
                    == Some(JsonView::Text(code))
                &&& names.contains(PROGRAMMATIC_FUNCTION@)
            },
            Err(_) => true,
        },
{
    lemma_blocks_are_carried_out(state, names, stopped_early, blocks);
}

/// A message without tool uses asks for nothing, whatever else it holds.
pub proof fn a_message_without_tool_uses_asks_for_nothing(
    state: StateView,
    names: Seq<Seq<char>>,
    stopped_early: bool,
    blocks: Seq<JsonView>,
)
    requires
        tool_uses(blocks).len() == 0,
    ensures
        blocks_collected(state, names, stopped_early, blocks) == Ok::<CollectedView, ErrorView>(
            CollectedView::Direct(Seq::empty()),
        ),
{
    lemma_no_uses(state, names, stopped_early, blocks);
}

proof fn lemma_no_uses(
    state: StateView,
    names: Seq<Seq<char>>,
    stopped_early: bool,
    blocks: Seq<JsonView>,
)
    requires
        tool_uses(blocks).len() == 0,
    ensures
        blocks_gathered(state, names, stopped_early, blocks) == Ok::<BlocksView, ErrorView>(
            BlocksView { calls: Seq::empty(), program: None },
        ),
    decreases blocks.len(),
{
    if blocks.len() > 0 {
        lemma_no_uses(state, names, stopped_early, blocks.drop_last());
    }
}

/// The next tool use of a message is taken up, where it is under a new id, of a declared and
/// registered tool, and with an input that is not too large and that the tool accepts.
pub proof fn a_tool_use_against_which_nothing_stands_is_taken_up(
    before: BlocksView,
    state: StateView,
    names: Seq<Seq<char>>,
    earlier: Seq<Seq<char>>,
    block: JsonView,
    id: Seq<char>,
    name: Seq<char>,
    input: JsonView,
    tool: ToolView,
)
    requires
        names_are_distinct(state.registry.tools),
        before.program is None,
        block.get("id"@) == Some(JsonView::Text(id)),
        block.get("name"@) == Some(JsonView::Text(name)),
        block.get("input"@) == Some(input),
        id.len() > 0,
        !earlier.contains(id),
        name != PROGRAMMATIC_FUNCTION@,
        names.contains(name),
        input is Object,
        json_size(input) <= state.registry.limits.max_arguments_bytes,
        state.registry.tools.contains(tool),
        tool.internal_name == name,
        tool.argument_schema is Some,
        schema_accepts(tool.argument_schema->0, input),
    ensures
        match block_gathered(before, state, names, false, earlier, block) {
            Ok(after) => {
                &&& after.program is None
                &&& after.calls.len() == before.calls.len() + 1
                &&& after.calls.drop_last() =~= before.calls
                &&& carries_out_block(after.calls.last(), block, state.registry.tools)
            },
            Err(_) => false,
        },
{
    let tools = state.registry.tools;
    a_tool_is_found_by_its_internal_name(tools, name);
    let k = choose|k: int| 0 <= k < tools.len() && tools[k] == tool;
    assert(by_internal(tools, name) == Some(tool));
    let after = block_gathered(before, state, names, false, earlier, block)->Ok_0;
    assert(is_of_tool(after.calls.last(), tools[k]));
}

/// The code of a program is the text of its only argument.
pub proof fn the_code_of_a_program_is_its_only_argument(arguments: JsonView)
    requires
        arguments is Object,
    ensures
        match program_code(arguments) {
            Ok(code) => arguments.get("code"@) == Some(JsonView::Text(code))
                && arguments->Object_0.len() == 1 && text::byte_len(code)
                <= SANDBOX_MAX_CODE_BYTES,
            Err(_) => !(arguments->Object_0.len() == 1 && arguments.text_at("code"@) is Some
                && text::byte_len(arguments.text_at("code"@)->0) <= SANDBOX_MAX_CODE_BYTES),
        },
{
}

/// An output that a batch gave is told over the Messages format to the tool use that it answers, as
/// it is, and is marked exactly where it says that the call failed.
pub proof fn an_output_is_told_to_the_tool_use_that_it_answers(output: JsonView)
    ensures
        ({
            let call_id = output.text_at("call_id"@);
            let content = output.text_at("output"@);
            let parsed = json_parsed(content->0);
            match adapted(output, parsed) {
                Ok(block) => {
                    &&& call_id is Some && content is Some
                    &&& block.get("type"@) == Some(JsonView::Text("tool_result"@))
                    &&& block.get("tool_use_id"@) == Some(JsonView::Text(call_id->0))
                    &&& block.get("content"@) == Some(JsonView::Text(content->0))
                    &&& block.get("is_error"@) == (if parsed matches Ok(value) && value.get("ok"@)
                        == Some(JsonView::Bool(false)) {
                        Some(JsonView::Bool(true))
                    } else {
                        None
                    })
                },
                Err(_) => call_id is None || content is None,
            }
        }),
{
    broadcast use group_fields_read_back;

    lemma_block_keys();
}

/// After a round over the Responses format the history is longer by what the model said and by what
/// its calls gave, in this order; the model may choose freely; every other field is as it was.
pub proof fn a_round_becomes_part_of_the_history(
    prepared: PreparedView,
    said: Seq<JsonView>,
    outputs: Seq<JsonView>,
    key: Seq<char>,
)
    ensures
        ({
            let after = with_round(prepared, said, outputs);
            &&& after.request.history == prepared.request.history + said + outputs
            &&& after.request.rest.get("tool_choice"@) == Some(JsonView::Text("auto"@))
            &&& key != "tool_choice"@ ==> after.request.rest.get(key) == prepared.request.rest.get(
                key,
            )
            &&& after.request.stream == prepared.request.stream
            &&& after == (PreparedView { request: after.request, ..prepared })
        }),
{
    broadcast use group_fields_read_back;

}

/// After a round over the Messages format the history is longer by a message of the assistant with
/// what it said and a message of the user with what its calls gave; the model may choose freely;
/// every other field is as it was.
pub proof fn a_round_becomes_two_messages(
    prepared: PreparedMessagesView,
    said: Seq<JsonView>,
    outputs: Seq<JsonView>,
    key: Seq<char>,
)
    ensures
        ({
            let after = with_messages_round(prepared, said, outputs);
            let n = prepared.request.history.len() as int;
            let history = after.request.history;
            &&& history.len() == n + 2
            &&& history.take(n) =~= prepared.request.history
            &&& history[n].get("role"@) == Some(JsonView::Text("assistant"@))
            &&& history[n].get("content"@) == Some(JsonView::Array(said))
            &&& history[n + 1].get("role"@) == Some(JsonView::Text("user"@))
            &&& history[n + 1].get("content"@) == Some(JsonView::Array(outputs))
            &&& after.request.rest.get("tool_choice"@) matches Some(choice) && choice.get("type"@)
                == Some(JsonView::Text("auto"@))
            &&& key != "tool_choice"@ ==> after.request.rest.get(key) == prepared.request.rest.get(
                key,
            )
            &&& after.request.stream == prepared.request.stream
            &&& after == (PreparedMessagesView { request: after.request, ..prepared })
        }),
{
    broadcast use group_fields_read_back;

    lemma_message_keys();
}

/// A request that is given a field holds it, and is otherwise as it was.
pub proof fn a_request_holds_the_field_that_it_was_given(
    request: RequestView,
    key: Seq<char>,
    value: JsonView,
    other: Seq<char>,
)
    ensures
        ({
            let after = request.with_field(key, value);
            &&& after.rest.get(key) == Some(value)
            &&& other != key ==> after.rest.get(other) == request.rest.get(other)
            &&& after.history == request.history
            &&& after.stream == request.stream
        }),
{
    broadcast use group_fields_read_back;

}

/// The names of declared tools are those of all declarations of a kind that have one.
pub proof fn declared_names_are_those_of_declarations(
    tools: Seq<JsonView>,
    kind: Option<Seq<char>>,
    name: Seq<char>,
)
    ensures
        tool_names(tools, kind).contains(name) <==> exists|i: int|
            0 <= i < tools.len() && (#[trigger] tools[i]).get("name"@) == Some(
                JsonView::Text(name),
            ) && (kind is None || tools[i].text_at("type"@) == kind),
    decreases tools.len(),
{
    if tools.len() > 0 {
        let rest = tools.drop_last();
        let n = tools.len() - 1;
        declared_names_are_those_of_declarations(rest, kind, name);
        let before = tool_names(rest, kind);
        let after = tool_names(tools, kind);
        if before.contains(name) {
            let k = choose|k: int| 0 <= k < before.len() && before[k] == name;
            assert(after[k] == name);
            let i = choose|i: int|
                0 <= i < rest.len() && (#[trigger] rest[i]).get("name"@) == Some(
                    JsonView::Text(name),
                ) && (kind is None || rest[i].text_at("type"@) == kind);
            assert(tools[i] == rest[i]);
        } else if after.contains(name) {
            let k = choose|k: int| 0 <= k < after.len() && after[k] == name;
            if k < before.len() {
                assert(before[k] == name);
            }
            assert(tools[n].get("name"@) == Some(JsonView::Text(name)));
        } else {
            assert forall|i: int| 0 <= i < tools.len() && (#[trigger] tools[i]).get("name"@)
                == Some(JsonView::Text(name)) && (kind is None || tools[i].text_at("type"@)
                == kind) implies false by {
                if i < n {
                    assert(rest[i] == tools[i]);
                } else {
                    assert(after.last() == name);
                    assert(after[after.len() - 1] == name);
                }
            }
        }
    }
}

proof fn lemma_block_keys()
    ensures
        "type"@ != "tool_use_id"@,
        "type"@ != "content"@,
        "type"@ != "is_error"@,
        "tool_use_id"@ != "content"@,
        "tool_use_id"@ != "is_error"@,
        "content"@ != "is_error"@,
{
    reveal_strlit("type");
    reveal_strlit("tool_use_id");
    reveal_strlit("content");
    reveal_strlit("is_error");
    assert("type"@.len() == 4);
    assert("tool_use_id"@.len() == 11);
    assert("content"@.len() == 7);
    assert("is_error"@.len() == 8);
}

proof fn lemma_message_keys()
    ensures
        "role"@ != "content"@,
{
    reveal_strlit("role");
    reveal_strlit("content");
    assert("role"@.len() == 4);
    assert("content"@.len() == 7);
}

} // verus!
