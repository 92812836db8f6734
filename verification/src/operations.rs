//! The backend operations of one batch of calls: how calls are grouped, queued, executed and
//! answered.

use vstd::prelude::*;
use vstd::string::*;
use crate::backend::{
    call_views, CallView, ManagedToolCall, ToolBatchExecution, ToolBatchInfrastructureError,
    ToolBatchMetadata, ToolExecutionContext, ToolExecutionResult, ToolInfrastructureError,
};
use crate::budget::{bound_to, bound_views, BoundBackend, BoundView, BudgetView, RuntimeBudget};
use crate::calls::{sandbox_checked, validate_sandbox_contract};
use crate::config::{clone_optional, optional_text};
use crate::error::{joined, joined3, ErrorView, ToolRuntimeError};
use crate::json::{Json, JsonView};
use crate::output::{model_output, ResultView};
use crate::registry::{by_internal, RegistryView, ToolRegistry};
use crate::sandbox_run::result_views;
use crate::serde_value::{json_text, reads_back};
use crate::telemetry::{
    finish_sandbox_metadata, metadata_recorded, Observation, Recorded, SandboxOperation,
    SandboxOperationOutcome, ToolBackendLabel, ToolExecutionOutcome, ToolExecutionRecord,
    ToolRuntimeTelemetry,
};
use crate::time::Instant;
use crate::{budget, json, serde_value, text};

verus! {

/// A call with its place in its batch and in its request, and the tool that it is counted under.
pub struct IndexedCall {
    pub index: usize,
    pub execution_index: usize,
    pub call: ManagedToolCall,
    pub tool: String,
}

pub struct IndexedView {
    pub index: nat,
    pub execution_index: nat,
    pub call: CallView,
    pub tool: Seq<char>,
}

impl IndexedCall {
    pub open spec fn view(&self) -> IndexedView {
        IndexedView {
            index: self.index as nat,
            execution_index: self.execution_index as nat,
            call: self.call@,
            tool: self.tool@,
        }
    }
}

pub open spec fn indexed_views(calls: Seq<IndexedCall>) -> Seq<IndexedView> {
    Seq::new(calls.len(), |i: int| calls[i].view())
}

/// Calls that one backend answers at once.
pub struct BackendOperation {
    pub backend: BoundBackend,
    pub calls: Vec<IndexedCall>,
}

pub struct OperationView {
    pub backend: BoundView,
    pub calls: Seq<IndexedView>,
}

impl BackendOperation {
    pub open spec fn view(&self) -> OperationView {
        OperationView { backend: self.backend@, calls: indexed_views(self.calls@) }
    }
}

pub open spec fn operation_views(operations: Seq<BackendOperation>) -> Seq<OperationView> {
    Seq::new(operations.len(), |i: int| operations[i].view())
}

/// Under which name a call is counted. A remote tool is named by others, so that all of them are
/// counted as one.
pub open spec fn counted_tool(label: ToolBackendLabel, public_name: Seq<char>) -> Seq<char> {
    if label == ToolBackendLabel::RemoteMcp {
        "remote_mcp"@
    } else {
        public_name
    }
}

/// A call with its backend.
pub open spec fn resolved(
    registry: RegistryView,
    backends: Seq<BoundView>,
    call: CallView,
    index: nat,
    execution_start: nat,
) -> Result<(BoundView, IndexedView), ErrorView> {
    match by_internal(registry.tools, call.internal_name) {
        None => Err(
            ErrorView::invalid_request(
                "model generated unregistered managed tool "@ + call.internal_name,
            ),
        ),
        Some(tool) => match bound_to(backends, call.internal_name) {
            None => Err(
                ErrorView::invalid_configuration(
                    "managed tool backend "@ + tool.public_name + " is not bound"@,
                ),
            ),
            Some(bound) => Ok(
                (
                    bound,
                    IndexedView {
                        index,
                        execution_index: execution_start + index,
                        call,
                        tool: counted_tool(bound.label, tool.public_name),
                    },
                ),
            ),
        },
    }
}

/// The first operation of a sandbox.
pub open spec fn first_sandbox(operations: Seq<OperationView>) -> Option<int>
    decreases operations.len(),
{
    if operations.len() == 0 {
        None
    } else {
        match first_sandbox(operations.drop_last()) {
            Some(k) => Some(k),
            None => if operations.last().backend.label == ToolBackendLabel::E2b {
                Some(operations.len() - 1)
            } else {
                None
            },
        }
    }
}

/// The operation that one more sandbox call joins: where calls run at once, any sandbox that there
/// is; where they run in order, the last operation if that is a sandbox.
pub open spec fn open_sandbox(operations: Seq<OperationView>, parallel: bool) -> Option<int> {
    if parallel {
        first_sandbox(operations)
    } else if operations.len() > 0 && operations.last().backend.label == ToolBackendLabel::E2b {
        Some(operations.len() - 1)
    } else {
        None
    }
}

/// The operations with one more call.
pub open spec fn with_call(
    operations: Seq<OperationView>,
    bound: BoundView,
    call: IndexedView,
    parallel: bool,
) -> Seq<OperationView> {
    match open_sandbox(operations, parallel) {
        Some(k) if bound.label == ToolBackendLabel::E2b => operations.update(
            k,
            OperationView { calls: operations[k].calls.push(call), ..operations[k] },
        ),
        _ => operations.push(OperationView { backend: bound, calls: seq![call] }),
    }
}

/// The operations of a batch, in the order of their first calls.
pub open spec fn operations_of(
    registry: RegistryView,
    backends: Seq<BoundView>,
    calls: Seq<CallView>,
    parallel: bool,
    execution_start: nat,
) -> Result<Seq<OperationView>, ErrorView>
    decreases calls.len(),
{
    if calls.len() == 0 {
        Ok(Seq::empty())
    } else {
        match operations_of(registry, backends, calls.drop_last(), parallel, execution_start) {
            Err(error) => Err(error),
            Ok(operations) => match resolved(
                registry,
                backends,
                calls.last(),
                (calls.len() - 1) as nat,
                execution_start,
            ) {
                Err(error) => Err(error),
                Ok((bound, call)) => Ok(with_call(operations, bound, call, parallel)),
            },
        }
    }
}

/// Where a first sandbox operation is, if there is one.
proof fn lemma_first_sandbox(operations: Seq<OperationView>)
    ensures
        match first_sandbox(operations) {
            Some(k) => 0 <= k < operations.len() && operations[k].backend.label
                == ToolBackendLabel::E2b && forall|j: int|
                0 <= j < k ==> (#[trigger] operations[j]).backend.label != ToolBackendLabel::E2b,
            None => forall|j: int|
                0 <= j < operations.len() ==> (#[trigger] operations[j]).backend.label
                    != ToolBackendLabel::E2b,
        },
    decreases operations.len(),
{
    if operations.len() > 0 {
        let earlier = operations.drop_last();
        lemma_first_sandbox(earlier);
        assert(forall|j: int| 0 <= j < earlier.len() ==> #[trigger] operations[j] == earlier[j]);
    }
}

/// A batch of which the first calls cannot be grouped cannot be grouped.
proof fn lemma_operations_stop(
    registry: RegistryView,
    backends: Seq<BoundView>,
    calls: Seq<CallView>,
    n: int,
    parallel: bool,
    execution_start: nat,
)
    requires
        0 <= n <= calls.len(),
        operations_of(registry, backends, calls.take(n), parallel, execution_start) is Err,
    ensures
        operations_of(registry, backends, calls, parallel, execution_start) == operations_of(
            registry,
            backends,
            calls.take(n),
            parallel,
            execution_start,
        ),
    decreases calls.len() - n,
{
    if n < calls.len() {
        assert(calls.take(n + 1).drop_last() =~= calls.take(n));
        lemma_operations_stop(registry, backends, calls, n + 1, parallel, execution_start);
    } else {
        assert(calls.take(n) =~= calls);
    }
}

/// Whether operations hold the first calls of a batch, each once: every call is in one of them,
/// there are as many calls as there are, and each operation holds its calls in order.
pub open spec fn hold_calls(operations: Seq<OperationView>, calls: Seq<CallView>) -> bool {
    &&& call_count(operations) == calls.len()
    &&& forall|i: int|
        0 <= i < calls.len() ==> holds_call(operations, i, #[trigger] calls[i])
    &&& forall|o: int|
        0 <= o < operations.len() ==> (#[trigger] operations[o]).calls.len() > 0 && in_order(
            operations[o].calls,
            calls.len(),
        )
    &&& forall|o: int|
        0 <= o < operations.len() && (#[trigger] operations[o]).backend.label
            != ToolBackendLabel::E2b ==> operations[o].calls.len() == 1
    &&& forall|a: int, b: int|
        0 <= a < b < operations.len() ==> (#[trigger] operations[a]).calls[0].index < (
        #[trigger] operations[b]).calls[0].index
}

/// Whether the places of calls ascend, below a bound.
pub open spec fn in_order(calls: Seq<IndexedView>, bound: nat) -> bool {
    &&& forall|k: int| 0 <= k < calls.len() ==> (#[trigger] calls[k]).index < bound
    &&& forall|j: int, k: int|
        0 <= j < k < calls.len() ==> (#[trigger] calls[j]).index < (#[trigger] calls[k]).index
}

/// How many calls operations hold.
pub open spec fn call_count(operations: Seq<OperationView>) -> nat
    decreases operations.len(),
{
    if operations.len() == 0 {
        0
    } else {
        call_count(operations.drop_last()) + operations.last().calls.len()
    }
}

proof fn lemma_call_count_update(operations: Seq<OperationView>, k: int, operation: OperationView)
    requires
        0 <= k < operations.len(),
    ensures
        call_count(operations.update(k, operation)) + operations[k].calls.len() == call_count(
            operations,
        ) + operation.calls.len(),
    decreases operations.len(),
{
    if k == operations.len() - 1 {
        assert(operations.update(k, operation).drop_last() =~= operations.drop_last());
    } else {
        assert(operations.update(k, operation).drop_last() =~= operations.drop_last().update(
            k,
            operation,
        ));
        lemma_call_count_update(operations.drop_last(), k, operation);
    }
}

/// Whether some operation holds the call at a place.
pub open spec fn holds_call(operations: Seq<OperationView>, i: int, call: CallView) -> bool {
    exists|o: int, k: int|
        #![trigger operations[o].calls[k]]
        0 <= o < operations.len() && 0 <= k < operations[o].calls.len()
            && operations[o].calls[k].index == i && operations[o].calls[k].call == call
}

/// One more call in the operation of a sandbox.
proof fn lemma_call_joined(
    before: Seq<OperationView>,
    calls: Seq<CallView>,
    k: int,
    call: IndexedView,
)
    requires
        calls.len() > 0,
        hold_calls(before, calls.drop_last()),
        0 <= k < before.len(),
        before[k].backend.label == ToolBackendLabel::E2b,
        call.index == calls.len() - 1,
        call.call == calls.last(),
    ensures
        hold_calls(
            before.update(
                k,
                OperationView { calls: before[k].calls.push(call), ..before[k] },
            ),
            calls,
        ),
{
    let earlier = calls.drop_last();
    let n = earlier.len();
    let joined = OperationView { calls: before[k].calls.push(call), ..before[k] };
    let after = before.update(k, joined);
    lemma_call_count_update(before, k, joined);
    assert forall|i: int| 0 <= i < calls.len() implies holds_call(after, i, #[trigger] calls[i]) by {
        if i < n {
            assert(earlier[i] == calls[i]);
            assert(holds_call(before, i, earlier[i]));
            let (o, c) = choose|o: int, c: int|
                #![trigger before[o].calls[c]]
                0 <= o < before.len() && 0 <= c < before[o].calls.len() && before[o].calls[c].index
                    == i && before[o].calls[c].call == earlier[i];
            assert(after[o].calls[c] == before[o].calls[c]);
        } else {
            assert(after[k].calls[before[k].calls.len() as int] == call);
        }
    }
    assert forall|o: int| 0 <= o < after.len() implies (#[trigger] after[o]).calls.len() > 0
        && in_order(after[o].calls, calls.len()) by {
        assert(in_order(before[o].calls, n));
    }
    assert forall|a: int, b: int| 0 <= a < b < after.len() implies (
    #[trigger] after[a]).calls[0].index < (#[trigger] after[b]).calls[0].index by {
        assert(before[a].calls[0].index < before[b].calls[0].index);
        assert(after[a].calls[0] == before[a].calls[0]);
        assert(after[b].calls[0] == before[b].calls[0]);
    }
}

/// One more call in an operation of its own.
proof fn lemma_call_pushed(
    before: Seq<OperationView>,
    calls: Seq<CallView>,
    bound: BoundView,
    call: IndexedView,
)
    requires
        calls.len() > 0,
        hold_calls(before, calls.drop_last()),
        call.index == calls.len() - 1,
        call.call == calls.last(),
    ensures
        hold_calls(before.push(OperationView { backend: bound, calls: seq![call] }), calls),
{
    let earlier = calls.drop_last();
    let n = earlier.len();
    let after = before.push(OperationView { backend: bound, calls: seq![call] });
    assert(after.drop_last() =~= before);
    assert forall|i: int| 0 <= i < calls.len() implies holds_call(after, i, #[trigger] calls[i]) by {
        if i < n {
            assert(earlier[i] == calls[i]);
            assert(holds_call(before, i, earlier[i]));
            let (o, c) = choose|o: int, c: int|
                #![trigger before[o].calls[c]]
                0 <= o < before.len() && 0 <= c < before[o].calls.len() && before[o].calls[c].index
                    == i && before[o].calls[c].call == earlier[i];
            assert(after[o].calls[c] == before[o].calls[c]);
        } else {
            assert(after[before.len() as int].calls[0] == call);
        }
    }
    assert forall|o: int| 0 <= o < after.len() implies (#[trigger] after[o]).calls.len() > 0
        && in_order(after[o].calls, calls.len()) by {
        if o < before.len() {
            assert(after[o] == before[o]);
            assert(in_order(before[o].calls, n));
        }
    }
    assert forall|o: int|
        0 <= o < after.len() && (#[trigger] after[o]).backend.label
            != ToolBackendLabel::E2b implies after[o].calls.len() == 1 by {
        if o < before.len() {
            assert(after[o] == before[o]);
        }
    }
    assert forall|a: int, b: int| 0 <= a < b < after.len() implies (
    #[trigger] after[a]).calls[0].index < (#[trigger] after[b]).calls[0].index by {
        assert(after[a] == before[a]);
        assert(in_order(before[a].calls, n));
        assert(before[a].calls[0].index < n);
        if b < before.len() {
            assert(after[b] == before[b]);
            assert(before[a].calls[0].index < before[b].calls[0].index);
        }
    }
}

/// The operations of a batch hold its calls: each call once, in the order of the batch inside of
/// an operation, alone unless a sandbox runs it, and the operations in the order of their first
/// calls.
pub proof fn operations_hold_the_calls_in_order(
    registry: RegistryView,
    backends: Seq<BoundView>,
    calls: Seq<CallView>,
    parallel: bool,
    execution_start: nat,
)
    requires
        operations_of(registry, backends, calls, parallel, execution_start) is Ok,
    ensures
        hold_calls(
            operations_of(registry, backends, calls, parallel, execution_start)->Ok_0,
            calls,
        ),
    decreases calls.len(),
{
    if calls.len() > 0 {
        let earlier = calls.drop_last();
        operations_hold_the_calls_in_order(registry, backends, earlier, parallel, execution_start);
        let before = operations_of(registry, backends, earlier, parallel, execution_start)->Ok_0;
        let (bound, call) = resolved(
            registry,
            backends,
            calls.last(),
            earlier.len(),
            execution_start,
        )->Ok_0;
        lemma_first_sandbox(before);
        match open_sandbox(before, parallel) {
            Some(k) if bound.label == ToolBackendLabel::E2b => {
                lemma_call_joined(before, calls, k, call);
            },
            _ => {
                lemma_call_pushed(before, calls, bound, call);
            },
        }
    }
}

/// What the operations of a batch are, or why there are none.
pub open spec fn operations_result(r: Result<Vec<BackendOperation>, ToolRuntimeError>) -> Result<
    Seq<OperationView>,
    ErrorView,
> {
    match r {
        Ok(operations) => Ok(operation_views(operations@)),
        Err(error) => Err(error@),
    }
}

fn find_sandbox(operations: &Vec<BackendOperation>, parallel: bool) -> (r: Option<usize>)
    ensures
        open_sandbox(operation_views(operations@), parallel) == (match r {
            Some(k) => Some(k as int),
            None => None,
        }),
        r is Some ==> r->0 < operations@.len(),
{
    let ghost all = operation_views(operations@);
    if !parallel {
        if operations.len() > 0 {
            let last: usize = operations.len() - 1;
            assert(all.last() == operations@[last as int]@);
            return match operations[last].backend.label {
                ToolBackendLabel::E2b => Some(last),
                _ => None,
            };
        }
        return None;
    }
    proof {
        lemma_first_sandbox(all);
    }
    let mut i: usize = 0;
    while i < operations.len()
        invariant
            all == operation_views(operations@),
            parallel,
            i <= operations@.len(),
            forall|j: int| 0 <= j < i ==> (#[trigger] all[j]).backend.label != ToolBackendLabel::E2b,
            match first_sandbox(all) {
                Some(k) => 0 <= k < all.len() && all[k].backend.label == ToolBackendLabel::E2b
                    && forall|j: int|
                    0 <= j < k ==> (#[trigger] all[j]).backend.label != ToolBackendLabel::E2b,
                None => forall|j: int|
                    0 <= j < all.len() ==> (#[trigger] all[j]).backend.label
                        != ToolBackendLabel::E2b,
            },
        decreases operations@.len() - i,
    {
        assert(all[i as int] == operations@[i as int]@);
        match operations[i].backend.label {
            ToolBackendLabel::E2b => {
                return Some(i);
            },
            _ => {},
        }
        i += 1;
    }
    None
}

fn resolve_call(
    registry: &ToolRegistry,
    backends: &Vec<BoundBackend>,
    call: &ManagedToolCall,
    index: usize,
    execution_start: usize,
) -> (r: Result<(BoundBackend, IndexedCall), ToolRuntimeError>)
    requires
        index + execution_start <= usize::MAX,
    ensures
        resolved(
            registry@,
            bound_views(backends@),
            call@,
            index as nat,
            execution_start as nat,
        ) == (match r {
            Ok((bound, call)) => Ok((bound@, call@)),
            Err(error) => Err(error@),
        }),
{
    let registered = match registry.find_internal(call.internal_name.as_str()) {
        Some(registered) => registered,
        None => {
            let message = joined(
                "model generated unregistered managed tool ",
                call.internal_name.as_str(),
            );
            return Err(ToolRuntimeError::invalid_request(message.as_str()));
        },
    };
    let bound = match budget::find_bound(backends, call.internal_name.as_str()) {
        Some(bound) => bound,
        None => {
            let message = joined3(
                "managed tool backend ",
                registered.public_name.as_str(),
                " is not bound",
            );
            return Err(ToolRuntimeError::invalid_configuration(message.as_str()));
        },
    };
    let tool = match bound.label {
        ToolBackendLabel::RemoteMcp => "remote_mcp".to_owned(),
        _ => registered.public_name.clone(),
    };
    Ok(
        (
            bound,
            IndexedCall {
                index,
                execution_index: execution_start + index,
                call: call.clone(),
                tool,
            },
        ),
    )
}

fn add_call(
    operations: &mut Vec<BackendOperation>,
    bound: BoundBackend,
    call: IndexedCall,
    parallel: bool,
)
    ensures
        operation_views(final(operations)@) == with_call(
            operation_views(old(operations)@),
            bound@,
            call@,
            parallel,
        ),
{
    let ghost before = operation_views(operations@);
    let sandbox = match bound.label {
        ToolBackendLabel::E2b => find_sandbox(operations, parallel),
        _ => None,
    };
    match sandbox {
        Some(k) => {
            let ghost earlier = operations@[k as int];
            let operation = &mut operations[k];
            operation.calls.push(call);
            proof {
                assert(operations@[k as int].calls@ == earlier.calls@.push(call));
                assert(operations@[k as int]@.calls =~= earlier@.calls.push(call@));
                assert(operation_views(operations@) =~= with_call(
                    before,
                    bound@,
                    call@,
                    parallel,
                ));
            }
        },
        None => {
            let mut calls: Vec<IndexedCall> = Vec::new();
            calls.push(call);
            let operation = BackendOperation { backend: bound, calls };
            let ghost added = operation@;
            assert(added.calls =~= seq![call@]);
            operations.push(operation);
            assert(operation_views(operations@) =~= before.push(added));
        },
    }
}

/// Groups the calls of a batch into operations.
pub fn build_operations(
    registry: &ToolRegistry,
    calls: &Vec<ManagedToolCall>,
    parallel: bool,
    backends: &Vec<BoundBackend>,
    execution_start: usize,
) -> (r: Result<Vec<BackendOperation>, ToolRuntimeError>)
    requires
        execution_start + calls@.len() <= usize::MAX,
    ensures
        operations_result(r) == operations_of(
            registry@,
            bound_views(backends@),
            call_views(calls@),
            parallel,
            execution_start as nat,
        ),
{
    let ghost all = call_views(calls@);
    let ghost bound_to_tools = bound_views(backends@);
    let mut operations: Vec<BackendOperation> = Vec::new();
    assert(operation_views(operations@) =~= Seq::empty());
    let mut i: usize = 0;
    while i < calls.len()
        invariant
            all == call_views(calls@),
            bound_to_tools == bound_views(backends@),
            execution_start + calls@.len() <= usize::MAX,
            i <= calls@.len(),
            operations_of(
                registry@,
                bound_to_tools,
                all.take(i as int),
                parallel,
                execution_start as nat,
            ) == Ok::<Seq<OperationView>, ErrorView>(operation_views(operations@)),
        decreases calls@.len() - i,
    {
        proof {
            assert(all.take(i + 1).drop_last() =~= all.take(i as int));
            assert(all.take(i + 1).last() == calls@[i as int]@);
        }
        match resolve_call(registry, backends, &calls[i], i, execution_start) {
            Ok((bound, call)) => {
                add_call(&mut operations, bound, call, parallel);
            },
            Err(error) => {
                proof {
                    lemma_operations_stop(
                        registry@,
                        bound_to_tools,
                        all,
                        i + 1,
                        parallel,
                        execution_start as nat,
                    );
                }
                return Err(error);
            },
        }
        i += 1;
    }
    assert(all.take(i as int) =~= all);
    Ok(operations)
}

impl Recorded {
    /// After one call was queued.
    pub open spec fn call_queued(self, call: IndexedCall, label: ToolBackendLabel, now: Instant) -> Recorded {
        Recorded {
            state: self.state.call_started(call.execution_index, call.tool, label, now),
            log: self.log + if self.state.call_is_new(call.execution_index) {
                seq![
                    Observation::Transition {
                        record: ToolExecutionRecord {
                            tool: call.tool,
                            backend: label,
                            outcome: ToolExecutionOutcome::Queued,
                        },
                    },
                ]
            } else {
                Seq::empty()
            },
        }
    }

    pub open spec fn calls_queued(
        self,
        calls: Seq<IndexedCall>,
        label: ToolBackendLabel,
        now: Instant,
    ) -> Recorded
        decreases calls.len(),
    {
        if calls.len() == 0 {
            self
        } else {
            self.calls_queued(calls.drop_last(), label, now).call_queued(calls.last(), label, now)
        }
    }

    /// After every call of these operations was queued.
    pub open spec fn queued(self, operations: Seq<BackendOperation>, now: Instant) -> Recorded
        decreases operations.len(),
    {
        if operations.len() == 0 {
            self
        } else {
            self.queued(operations.drop_last(), now).calls_queued(
                operations.last().calls@,
                operations.last().backend.label,
                now,
            )
        }
    }

    /// After the execution in every sandbox of these operations began.
    pub open spec fn sandboxes_begun(self, operations: Seq<BackendOperation>, now: Instant) -> Recorded
        decreases operations.len(),
    {
        if operations.len() == 0 {
            self
        } else {
            let before = self.sandboxes_begun(operations.drop_last(), now);
            if operations.last().backend.label == ToolBackendLabel::E2b {
                before.steps_begun(
                    operations.last().calls@[0].execution_index,
                    seq![SandboxOperation::Execute],
                    now,
                )
            } else {
                before
            }
        }
    }

    /// After these calls ended with one outcome.
    pub open spec fn calls_ended(
        self,
        calls: Seq<IndexedCall>,
        label: ToolBackendLabel,
        outcome: ToolExecutionOutcome,
        now: Instant,
    ) -> Recorded
        decreases calls.len(),
    {
        if calls.len() == 0 {
            self
        } else {
            self.calls_ended(calls.drop_last(), label, outcome, now).call(
                calls.last().execution_index,
                ToolExecutionRecord { tool: calls.last().tool, backend: label, outcome },
                false,
                now,
            )
        }
    }

    /// After the calls of these operations ended with one outcome, where they had not ended.
    pub open spec fn unfinished(
        self,
        operations: Seq<BackendOperation>,
        outcome: ToolExecutionOutcome,
        now: Instant,
    ) -> Recorded
        decreases operations.len(),
    {
        if operations.len() == 0 {
            self
        } else {
            self.unfinished(operations.drop_last(), outcome, now).calls_ended(
                operations.last().calls@,
                operations.last().backend.label,
                outcome,
                now,
            )
        }
    }

    /// After the sandboxes of these operations ended with one outcome, where they had not ended.
    pub open spec fn sandboxes_unfinished(
        self,
        operations: Seq<BackendOperation>,
        outcome: SandboxOperationOutcome,
        now: Instant,
    ) -> Recorded
        decreases operations.len(),
    {
        if operations.len() == 0 {
            self
        } else {
            let before = self.sandboxes_unfinished(operations.drop_last(), outcome, now);
            if operations.last().backend.label == ToolBackendLabel::E2b {
                before.sandbox_unfinished(operations.last().calls@[0].execution_index, outcome, now)
            } else {
                before
            }
        }
    }

    /// After these calls began to execute.
    pub open spec fn calls_executing(self, calls: Seq<IndexedCall>) -> Recorded
        decreases calls.len(),
    {
        if calls.len() == 0 {
            self
        } else {
            let before = self.calls_executing(calls.drop_last());
            let index = calls.last().execution_index;
            Recorded {
                state: before.state.call_executing(index),
                log: before.log + if before.state.call_waits(index) {
                    seq![
                        Observation::Transition {
                            record: ToolExecutionRecord {
                                tool: before.state.started_calls[index].tool,
                                backend: before.state.started_calls[index].backend,
                                outcome: ToolExecutionOutcome::Executing,
                            },
                        },
                    ]
                } else {
                    Seq::empty()
                },
            }
        }
    }
}

/// Whether every operation has a call.
pub open spec fn all_have_calls(operations: Seq<BackendOperation>) -> bool {
    forall|o: int| 0 <= o < operations.len() ==> (#[trigger] operations[o]).calls@.len() > 0
}

fn queue_calls(
    telemetry: &mut ToolRuntimeTelemetry,
    log: &mut Vec<Observation>,
    operation: &BackendOperation,
    now: Instant,
)
    ensures
        (Recorded { state: final(telemetry)@, log: final(log)@ }) == (Recorded {
            state: old(telemetry)@,
            log: old(log)@,
        }).calls_queued(operation.calls@, operation.backend.label, now),
        old(telemetry)@.consistent() ==> final(telemetry)@.consistent(),
{
    let ghost start = Recorded { state: telemetry@, log: log@ };
    let mut i: usize = 0;
    assert(operation.calls@.take(0) =~= Seq::empty());
    while i < operation.calls.len()
        invariant
            i <= operation.calls@.len(),
            (Recorded { state: telemetry@, log: log@ }) == start.calls_queued(
                operation.calls@.take(i as int),
                operation.backend.label,
                now,
            ),
            start.state.consistent() ==> telemetry@.consistent(),
        decreases operation.calls@.len() - i,
    {
        let call = &operation.calls[i];
        telemetry.start_call(call.execution_index, &call.tool, operation.backend.label, now, log);
        proof {
            assert(operation.calls@.take(i + 1).drop_last() =~= operation.calls@.take(i as int));
            assert(operation.calls@.take(i + 1).last() == operation.calls@[i as int]);
        }
        i += 1;
    }
    assert(operation.calls@.take(i as int) =~= operation.calls@);
}

fn end_calls(
    telemetry: &mut ToolRuntimeTelemetry,
    log: &mut Vec<Observation>,
    operation: &BackendOperation,
    outcome: ToolExecutionOutcome,
    now: Instant,
)
    ensures
        (Recorded { state: final(telemetry)@, log: final(log)@ }) == (Recorded {
            state: old(telemetry)@,
            log: old(log)@,
        }).calls_ended(operation.calls@, operation.backend.label, outcome, now),
        old(telemetry)@.consistent() ==> final(telemetry)@.consistent(),
{
    let ghost start = Recorded { state: telemetry@, log: log@ };
    let mut i: usize = 0;
    assert(operation.calls@.take(0) =~= Seq::empty());
    while i < operation.calls.len()
        invariant
            i <= operation.calls@.len(),
            (Recorded { state: telemetry@, log: log@ }) == start.calls_ended(
                operation.calls@.take(i as int),
                operation.backend.label,
                outcome,
                now,
            ),
            start.state.consistent() ==> telemetry@.consistent(),
        decreases operation.calls@.len() - i,
    {
        let call = &operation.calls[i];
        let record = ToolExecutionRecord {
            tool: call.tool.clone(),
            backend: operation.backend.label,
            outcome,
        };
        telemetry.record(call.execution_index, record, false, now, log);
        proof {
            assert(operation.calls@.take(i + 1).drop_last() =~= operation.calls@.take(i as int));
            assert(operation.calls@.take(i + 1).last() == operation.calls@[i as int]);
        }
        i += 1;
    }
    assert(operation.calls@.take(i as int) =~= operation.calls@);
}

/// Records the calls of these operations that have not ended.
pub fn record_unfinished(
    telemetry: &mut ToolRuntimeTelemetry,
    log: &mut Vec<Observation>,
    operations: &Vec<BackendOperation>,
    outcome: ToolExecutionOutcome,
    now: Instant,
)
    ensures
        (Recorded { state: final(telemetry)@, log: final(log)@ }) == (Recorded {
            state: old(telemetry)@,
            log: old(log)@,
        }).unfinished(operations@, outcome, now),
        old(telemetry)@.consistent() ==> final(telemetry)@.consistent(),
{
    let ghost start = Recorded { state: telemetry@, log: log@ };
    let mut i: usize = 0;
    assert(operations@.take(0) =~= Seq::empty());
    while i < operations.len()
        invariant
            i <= operations@.len(),
            (Recorded { state: telemetry@, log: log@ }) == start.unfinished(
                operations@.take(i as int),
                outcome,
                now,
            ),
            start.state.consistent() ==> telemetry@.consistent(),
        decreases operations@.len() - i,
    {
        end_calls(telemetry, log, &operations[i], outcome, now);
        proof {
            assert(operations@.take(i + 1).drop_last() =~= operations@.take(i as int));
            assert(operations@.take(i + 1).last() == operations@[i as int]);
        }
        i += 1;
    }
    assert(operations@.take(i as int) =~= operations@);
}

/// Records the sandboxes of these operations that have not ended.
pub fn record_unfinished_sandbox_operations(
    telemetry: &mut ToolRuntimeTelemetry,
    log: &mut Vec<Observation>,
    operations: &Vec<BackendOperation>,
    outcome: SandboxOperationOutcome,
    now: Instant,
)
    requires
        all_have_calls(operations@),
    ensures
        (Recorded { state: final(telemetry)@, log: final(log)@ }) == (Recorded {
            state: old(telemetry)@,
            log: old(log)@,
        }).sandboxes_unfinished(operations@, outcome, now),
        old(telemetry)@.consistent() ==> final(telemetry)@.consistent(),
{
    let ghost start = Recorded { state: telemetry@, log: log@ };
    let mut i: usize = 0;
    assert(operations@.take(0) =~= Seq::empty());
    while i < operations.len()
        invariant
            all_have_calls(operations@),
            i <= operations@.len(),
            (Recorded { state: telemetry@, log: log@ }) == start.sandboxes_unfinished(
                operations@.take(i as int),
                outcome,
                now,
            ),
            start.state.consistent() ==> telemetry@.consistent(),
        decreases operations@.len() - i,
    {
        let operation = &operations[i];
        assert(operations@[i as int].calls@.len() > 0);
        match operation.backend.label {
            ToolBackendLabel::E2b => {
                budget::record_unfinished_sandbox(
                    telemetry,
                    operation.calls[0].execution_index,
                    outcome,
                    now,
                    log,
                );
            },
            _ => {},
        }
        proof {
            assert(operations@.take(i + 1).drop_last() =~= operations@.take(i as int));
            assert(operations@.take(i + 1).last() == operations@[i as int]);
        }
        i += 1;
    }
    assert(operations@.take(i as int) =~= operations@);
}

/// Queues the calls of these operations and begins the execution in their sandboxes.
fn queue_operations(
    telemetry: &mut ToolRuntimeTelemetry,
    log: &mut Vec<Observation>,
    operations: &Vec<BackendOperation>,
    now: Instant,
)
    requires
        all_have_calls(operations@),
    ensures
        (Recorded { state: final(telemetry)@, log: final(log)@ }) == (Recorded {
            state: old(telemetry)@,
            log: old(log)@,
        }).queued(operations@, now).sandboxes_begun(operations@, now),
        old(telemetry)@.consistent() ==> final(telemetry)@.consistent(),
{
    let ghost start = Recorded { state: telemetry@, log: log@ };
    let mut i: usize = 0;
    assert(operations@.take(0) =~= Seq::empty());
    while i < operations.len()
        invariant
            i <= operations@.len(),
            (Recorded { state: telemetry@, log: log@ }) == start.queued(
                operations@.take(i as int),
                now,
            ),
            start.state.consistent() ==> telemetry@.consistent(),
        decreases operations@.len() - i,
    {
        queue_calls(telemetry, log, &operations[i], now);
        proof {
            assert(operations@.take(i + 1).drop_last() =~= operations@.take(i as int));
            assert(operations@.take(i + 1).last() == operations@[i as int]);
        }
        i += 1;
    }
    assert(operations@.take(i as int) =~= operations@);
    let ghost queued = Recorded { state: telemetry@, log: log@ };
    let mut i: usize = 0;
    while i < operations.len()
        invariant
            all_have_calls(operations@),
            i <= operations@.len(),
            (Recorded { state: telemetry@, log: log@ }) == queued.sandboxes_begun(
                operations@.take(i as int),
                now,
            ),
            start.state.consistent() ==> telemetry@.consistent(),
        decreases operations@.len() - i,
    {
        let operation = &operations[i];
        assert(operations@[i as int].calls@.len() > 0);
        match operation.backend.label {
            ToolBackendLabel::E2b => {
                let index: usize = operation.calls[0].execution_index;
                let ghost before = Recorded { state: telemetry@, log: log@ };
                telemetry.start_sandbox_operation(index, SandboxOperation::Execute, now);
                proof {
                    let steps = seq![SandboxOperation::Execute];
                    assert(steps.drop_last() =~= Seq::empty());
                    assert(before.steps_begun(index, steps.drop_last(), now) == before);
                }
            },
            _ => {},
        }
        proof {
            assert(operations@.take(i + 1).drop_last() =~= operations@.take(i as int));
            assert(operations@.take(i + 1).last() == operations@[i as int]);
        }
        i += 1;
    }
    assert(operations@.take(i as int) =~= operations@);
}

/// A batch that may be executed: its operations, and how many of them may run at once.
pub struct BatchPlan {
    pub operations: Vec<BackendOperation>,
    pub max_parallel: usize,
}

/// Admits a batch of calls: reserves them in the budget, groups and queues them.
pub fn begin_batch(
    registry: &ToolRegistry,
    calls: &Vec<ManagedToolCall>,
    parallel: bool,
    budget: &mut RuntimeBudget,
    now: Instant,
) -> (r: Result<BatchPlan, ToolRuntimeError>)
    ensures
        match r {
            Ok(plan) => {
                &&& batch_complaint(registry@, call_views(calls@), parallel, old(budget)@, now) is None
                &&& operation_views(plan.operations@) == batch_operations(
                    registry@,
                    call_views(calls@),
                    parallel,
                    old(budget)@,
                )
                &&& all_have_calls(plan.operations@)
                &&& plan.max_parallel == (if parallel {
                    old(budget)@.max_parallel_tool_calls
                } else {
                    1
                })
                &&& final(budget)@ == ({
                    let reserved = old(budget)@.calls_reserved(calls@.len());
                    reserved.with_recorded(
                        reserved.recorded().queued(plan.operations@, now).sandboxes_begun(
                            plan.operations@,
                            now,
                        ),
                    )
                })
            },
            Err(error) => {
                &&& batch_complaint(registry@, call_views(calls@), parallel, old(budget)@, now)
                    == Some(error@)
                &&& final(budget)@ == batch_refused(
                    registry@,
                    call_views(calls@),
                    parallel,
                    old(budget)@,
                    error@,
                )
            },
        },
        old(budget)@.wf() ==> final(budget)@.wf(),
{
    let ghost all = call_views(calls@);
    match validate_sandbox_contract(registry, calls, parallel) {
        Ok(()) => {},
        Err(error) => {
            budget.record_error(&error);
            return Err(error);
        },
    }
    let execution_start: usize = match budget.reserve_calls(calls.len()) {
        Ok(start) => start,
        Err(error) => {
            budget.record_error(&error);
            return Err(error);
        },
    };
    let max_parallel: usize = if parallel {
        budget.max_parallel_tool_calls
    } else {
        1
    };
    if calls.len() == 0 {
        let plan = BatchPlan { operations: Vec::new(), max_parallel };
        assert(operation_views(plan.operations@) =~= Seq::empty());
        return Ok(plan);
    }
    if budget.remaining(now).is_zero() {
        let error = ToolRuntimeError::deadline_exceeded();
        budget.record_error(&error);
        return Err(error);
    }
    let operations = match build_operations(
        registry,
        calls,
        parallel,
        &budget.backends,
        execution_start,
    ) {
        Ok(operations) => operations,
        Err(error) => {
            proof {
                lemma_unlimited(
                    registry@,
                    budget@.backends,
                    all,
                    parallel,
                    execution_start as nat,
                );
            }
            return Err(error);
        },
    };
    proof {
        operations_hold_the_calls_in_order(
            registry@,
            budget@.backends,
            all,
            parallel,
            execution_start as nat,
        );
        let views = operation_views(operations@);
        assert forall|o: int| 0 <= o < operations@.len() implies (
        #[trigger] operations@[o]).calls@.len() > 0 by {
            assert(views[o].calls.len() > 0);
        }
    }
    queue_operations(&mut budget.telemetry, &mut budget.log, &operations, now);
    Ok(BatchPlan { operations, max_parallel })
}

/// That a call cannot be grouped exhausts no limit.
proof fn lemma_unlimited(
    registry: RegistryView,
    backends: Seq<BoundView>,
    calls: Seq<CallView>,
    parallel: bool,
    execution_start: nat,
)
    ensures
        match operations_of(registry, backends, calls, parallel, execution_start) {
            Err(error) => error.limit is None,
            Ok(_) => true,
        },
    decreases calls.len(),
{
    if calls.len() > 0 {
        lemma_unlimited(registry, backends, calls.drop_last(), parallel, execution_start);
    }
}

/// The operations of a batch in a budget.
pub open spec fn batch_operations(
    registry: RegistryView,
    calls: Seq<CallView>,
    parallel: bool,
    budget: BudgetView,
) -> Seq<OperationView> {
    operations_of(
        registry,
        budget.backends,
        calls,
        parallel,
        budget.next_execution_index as nat,
    )->Ok_0
}

/// The failure of a batch that may not be executed.
pub open spec fn batch_complaint(
    registry: RegistryView,
    calls: Seq<CallView>,
    parallel: bool,
    budget: BudgetView,
    now: Instant,
) -> Option<ErrorView> {
    match sandbox_checked(registry, calls, parallel) {
        Err(error) => Some(error),
        Ok(_) => match budget.calls_complaint(calls.len()) {
            Some(error) => Some(error),
            None => if calls.len() == 0 {
                None
            } else if budget.remaining(now) == 0 {
                Some(ErrorView::deadline())
            } else {
                match operations_of(
                    registry,
                    budget.backends,
                    calls,
                    parallel,
                    budget.next_execution_index as nat,
                ) {
                    Err(error) => Some(error),
                    Ok(_) => None,
                }
            },
        },
    }
}

/// The budget after a batch was refused: its calls stay reserved once they were.
pub open spec fn batch_refused(
    registry: RegistryView,
    calls: Seq<CallView>,
    parallel: bool,
    budget: BudgetView,
    error: ErrorView,
) -> BudgetView {
    if sandbox_checked(registry, calls, parallel) is Err || budget.calls_complaint(
        calls.len(),
    ) is Some {
        budget.with_error(error)
    } else {
        budget.calls_reserved(calls.len()).with_error(error)
    }
}

/// Which operations of a plan have begun: they begin in order, and no more than so many run at
/// once.
pub struct OperationQueue {
    pub count: usize,
    pub limit: usize,
    pub begun: usize,
    pub running: usize,
}

impl OperationQueue {
    pub open spec fn wf(self) -> bool {
        &&& self.running <= self.limit
        &&& self.running <= self.begun <= self.count
    }

    pub fn new(plan: &BatchPlan) -> (r: OperationQueue)
        ensures
            r == (OperationQueue {
                count: plan.operations@.len() as usize,
                limit: plan.max_parallel,
                begun: 0,
                running: 0,
            }),
            r.wf(),
    {
        OperationQueue {
            count: plan.operations.len(),
            limit: plan.max_parallel,
            begun: 0,
            running: 0,
        }
    }

    /// The operation to begin now, if any may begin.
    pub fn begin_next(&mut self) -> (r: Option<usize>)
        requires
            old(self).wf(),
        ensures
            final(self).wf(),
            if old(self).running < old(self).limit && old(self).begun < old(self).count {
                r == Some(old(self).begun) && *final(self) == (OperationQueue {
                    begun: (old(self).begun + 1) as usize,
                    running: (old(self).running + 1) as usize,
                    ..*old(self)
                })
            } else {
                r is None && *final(self) == *old(self)
            },
    {
        if self.running < self.limit && self.begun < self.count {
            let next: usize = self.begun;
            self.begun = next + 1;
            self.running = self.running + 1;
            Some(next)
        } else {
            None
        }
    }

    /// An operation has ended.
    pub fn end_one(&mut self)
        requires
            old(self).wf(),
            old(self).running > 0,
        ensures
            final(self).wf(),
            *final(self) == (OperationQueue {
                running: (old(self).running - 1) as usize,
                ..*old(self)
            }),
    {
        self.running = self.running - 1;
    }

    /// Whether no operation runs: what has not begun by then never will.
    pub fn is_idle(&self) -> (r: bool)
        ensures
            r == (self.running == 0),
    {
        self.running == 0
    }
}

/// What a backend is asked to do for an operation.
pub struct OperationOrder {
    pub calls: Vec<ManagedToolCall>,
    pub context: ToolExecutionContext,
}

/// The steps that begin with the sandbox of an operation.
pub open spec fn sandbox_steps() -> Seq<SandboxOperation> {
    seq![SandboxOperation::Create, SandboxOperation::Cleanup, SandboxOperation::Terminate]
}

/// After an operation began.
pub open spec fn operation_begun(before: Recorded, operation: BackendOperation, now: Instant) -> Recorded {
    let executing = before.calls_executing(operation.calls@);
    if operation.backend.label == ToolBackendLabel::E2b {
        executing.steps_begun(operation.calls@[0].execution_index, sandbox_steps(), now)
    } else {
        executing
    }
}

/// Begins an operation, where there is time left for it.
pub fn begin_operation(operation: &BackendOperation, budget: &mut RuntimeBudget, now: Instant) -> (r:
    Result<OperationOrder, ToolRuntimeError>)
    requires
        operation.calls@.len() > 0,
    ensures
        match r {
            Ok(order) => {
                &&& old(budget)@.remaining(now) > 0
                &&& order.calls@.len() == operation.calls@.len()
                &&& forall|i: int|
                    0 <= i < order.calls@.len() ==> (#[trigger] order.calls@[i])@
                        == operation.calls@[i].call@
                &&& optional_text(order.context.request_id) == old(budget)@.request_id
                &&& order.context.deadline == Some(old(budget)@.deadline)
                &&& final(budget)@ == old(budget)@.with_recorded(
                    operation_begun(old(budget)@.recorded(), *operation, now),
                )
            },
            Err(error) => {
                &&& old(budget)@.remaining(now) == 0
                &&& error@ == ErrorView::deadline()
                &&& final(budget)@ == old(budget)@
            },
        },
        old(budget)@.wf() ==> final(budget)@.wf(),
{
    if budget.remaining(now).is_zero() {
        return Err(ToolRuntimeError::deadline_exceeded());
    }
    let ghost start = budget@;
    let mut calls: Vec<ManagedToolCall> = Vec::new();
    let mut i: usize = 0;
    assert(operation.calls@.take(0) =~= Seq::empty());
    assert(budget@ =~= start.with_recorded(start.recorded()));
    while i < operation.calls.len()
        invariant
            i <= operation.calls@.len(),
            calls@.len() == i,
            forall|k: int|
                0 <= k < i ==> (#[trigger] calls@[k])@ == operation.calls@[k].call@,
            budget@ == start.with_recorded(
                start.recorded().calls_executing(operation.calls@.take(i as int)),
            ),
            start.wf() ==> budget@.wf(),
        decreases operation.calls@.len() - i,
    {
        let call = &operation.calls[i];
        budget.telemetry.mark_call_executing(call.execution_index, &mut budget.log);
        calls.push(call.call.clone());
        proof {
            assert(operation.calls@.take(i + 1).drop_last() =~= operation.calls@.take(i as int));
            assert(operation.calls@.take(i + 1).last() == operation.calls@[i as int]);
        }
        i += 1;
    }
    assert(operation.calls@.take(i as int) =~= operation.calls@);
    let index: usize = operation.calls[0].execution_index;
    match operation.backend.label {
        ToolBackendLabel::E2b => {
            let ghost executing = budget@.recorded();
            budget.telemetry.start_sandbox_operation(index, SandboxOperation::Create, now);
            budget.telemetry.start_sandbox_operation(index, SandboxOperation::Cleanup, now);
            budget.telemetry.start_sandbox_operation(index, SandboxOperation::Terminate, now);
            proof {
                reveal_with_fuel(Recorded::steps_begun, 4);
                assert(sandbox_steps().drop_last().drop_last().drop_last() =~= Seq::empty());
            }
        },
        _ => {},
    }
    Ok(
        OperationOrder {
            calls,
            context: ToolExecutionContext {
                request_id: clone_optional(&budget.request_id),
                deadline: Some(budget.deadline),
            },
        },
    )
}

/// What a model is told of a call, at its place in the batch.
pub struct IndexedOutput {
    pub index: usize,
    pub value: Json,
}

pub struct OutputView {
    pub index: nat,
    pub value: JsonView,
}

impl IndexedOutput {
    pub open spec fn view(&self) -> OutputView {
        OutputView { index: self.index as nat, value: self.value@ }
    }
}

pub open spec fn output_views(outputs: Seq<IndexedOutput>) -> Seq<OutputView> {
    Seq::new(outputs.len(), |i: int| outputs[i].view())
}

/// The item that answers a call.
pub open spec fn function_call_output(call_id: Seq<char>, output: JsonView) -> JsonView {
    JsonView::empty().with("type"@, JsonView::Text("function_call_output"@)).with(
        "call_id"@,
        JsonView::Text(call_id),
    ).with("output"@, JsonView::Text(json_text(output)))
}

/// Whether an output says that it was cut.
pub open spec fn says_truncated(output: JsonView) -> bool {
    output.get("truncated"@) == Some(JsonView::Bool(true))
}

/// How a call that has a result ended.
pub open spec fn result_outcome(result: ResultView) -> ToolExecutionOutcome {
    match result {
        ResultView::ApplicationError(_) => ToolExecutionOutcome::ApplicationError,
        _ => ToolExecutionOutcome::Success,
    }
}

/// What is recorded of a call and what a model is told of it.
pub open spec fn answered_call(
    before: Recorded,
    call: IndexedCall,
    result: ResultView,
    label: ToolBackendLabel,
    max: nat,
    now: Instant,
) -> (Recorded, Result<OutputView, ErrorView>) {
    match model_output(result, max) {
        Err(error) => (before, Err(error)),
        Ok(output) => (
            before.call(
                call.execution_index,
                ToolExecutionRecord {
                    tool: call.tool,
                    backend: label,
                    outcome: result_outcome(result),
                },
                says_truncated(output),
                now,
            ),
            Ok(
                OutputView {
                    index: call.index as nat,
                    value: function_call_output(call.call@.call_id, output),
                },
            ),
        ),
    }
}

/// What is recorded of calls and what a model is told of them, one after the other, up to the first
/// whose result has the wrong form.
pub open spec fn answered_calls(
    before: Recorded,
    calls: Seq<IndexedCall>,
    results: Seq<ResultView>,
    label: ToolBackendLabel,
    max: nat,
    now: Instant,
) -> (Recorded, Result<Seq<OutputView>, ErrorView>)
    decreases calls.len(),
{
    if calls.len() == 0 {
        (before, Ok(Seq::empty()))
    } else {
        let (recorded, outputs) = answered_calls(
            before,
            calls.drop_last(),
            results.drop_last(),
            label,
            max,
            now,
        );
        match outputs {
            Err(error) => (recorded, Err(error)),
            Ok(outputs) => {
                let (after, output) = answered_call(
                    recorded,
                    calls.last(),
                    results.last(),
                    label,
                    max,
                    now,
                );
                (
                    after,
                    match output {
                        Err(error) => Err(error),
                        Ok(output) => Ok(outputs.push(output)),
                    },
                )
            },
        }
    }
}

/// What a failure of a backend means for the calls of its operation.
pub open spec fn failure_outcome(error: ToolInfrastructureError) -> ToolExecutionOutcome {
    if error == ToolInfrastructureError::Timeout {
        ToolExecutionOutcome::Timeout
    } else {
        ToolExecutionOutcome::InfrastructureError
    }
}

/// What a failure of a backend means for its sandbox.
pub open spec fn sandbox_failure(error: ToolInfrastructureError) -> SandboxOperationOutcome {
    if error == ToolInfrastructureError::Timeout {
        SandboxOperationOutcome::Timeout
    } else {
        SandboxOperationOutcome::Failure
    }
}

impl Recorded {
    /// After the execution in the sandbox of an operation ended, where it has one.
    pub open spec fn execution_ended(
        self,
        operation: BackendOperation,
        outcome: SandboxOperationOutcome,
        now: Instant,
    ) -> Recorded {
        if operation.backend.label == ToolBackendLabel::E2b {
            self.ended(
                operation.calls@[0].execution_index,
                SandboxOperation::Execute,
                outcome,
                None,
                false,
                now,
            )
        } else {
            self
        }
    }

    /// After what a backend reports of the sandbox of an operation, where it has one.
    pub open spec fn sandbox_reported(
        self,
        operation: BackendOperation,
        metadata: ToolBatchMetadata,
        fallback: Option<SandboxOperationOutcome>,
        now: Instant,
    ) -> Recorded {
        if operation.backend.label == ToolBackendLabel::E2b {
            metadata_recorded(
                self,
                operation.calls@[0].execution_index,
                metadata,
                fallback,
                now,
            )
        } else {
            self
        }
    }
}

/// What follows from what a backend gave for an operation.
pub open spec fn operation_ended(
    before: Recorded,
    operation: BackendOperation,
    result: Result<ToolBatchExecution, ToolBatchInfrastructureError>,
    max: nat,
    now: Instant,
) -> (Recorded, Result<Seq<OutputView>, ErrorView>) {
    match result {
        Err(failure) => (
            before.sandbox_reported(
                operation,
                failure.metadata,
                if failure.error == ToolInfrastructureError::Timeout {
                    Some(SandboxOperationOutcome::Timeout)
                } else {
                    None
                },
                now,
            ).execution_ended(operation, sandbox_failure(failure.error), now).calls_ended(
                operation.calls@,
                operation.backend.label,
                failure_outcome(failure.error),
                now,
            ),
            Err(ErrorView::infrastructure(failure.error)),
        ),
        Ok(batch) => {
            let reported = before.sandbox_reported(operation, batch.metadata, None, now);
            if batch.results@.len() != operation.calls@.len() {
                (
                    reported.execution_ended(
                        operation,
                        SandboxOperationOutcome::Failure,
                        now,
                    ).calls_ended(
                        operation.calls@,
                        operation.backend.label,
                        ToolExecutionOutcome::InfrastructureError,
                        now,
                    ),
                    Err(ErrorView::infrastructure(ToolInfrastructureError::Backend)),
                )
            } else {
                let (recorded, outputs) = answered_calls(
                    reported,
                    operation.calls@,
                    result_views(batch.results@),
                    operation.backend.label,
                    max,
                    now,
                );
                (
                    recorded.execution_ended(
                        operation,
                        if outputs is Ok {
                            SandboxOperationOutcome::Success
                        } else {
                            SandboxOperationOutcome::Failure
                        },
                        now,
                    ),
                    outputs,
                )
            }
        },
    }
}

/// Whether what a model is told of each result can be read back from its text.
pub open spec fn outputs_read_back(results: Seq<ResultView>, max: nat) -> bool {
    forall|i: int|
        0 <= i < results.len() ==> reads_back(#[trigger] model_output(results[i], max)->Ok_0)
}

/// What the outputs of an operation are, or why there are none.
pub open spec fn outputs_result(r: Result<Vec<IndexedOutput>, ToolRuntimeError>) -> Result<
    Seq<OutputView>,
    ErrorView,
> {
    match r {
        Ok(outputs) => Ok(output_views(outputs@)),
        Err(error) => Err(error@),
    }
}

/// Calls of which the first have a result of the wrong form stay as these left them.
proof fn lemma_answers_stop(
    before: Recorded,
    calls: Seq<IndexedCall>,
    results: Seq<ResultView>,
    n: int,
    label: ToolBackendLabel,
    max: nat,
    now: Instant,
)
    requires
        calls.len() == results.len(),
        0 <= n <= calls.len(),
        answered_calls(before, calls.take(n), results.take(n), label, max, now).1 is Err,
    ensures
        answered_calls(before, calls, results, label, max, now) == answered_calls(
            before,
            calls.take(n),
            results.take(n),
            label,
            max,
            now,
        ),
    decreases calls.len() - n,
{
    if n < calls.len() {
        assert(calls.take(n + 1).drop_last() =~= calls.take(n));
        assert(results.take(n + 1).drop_last() =~= results.take(n));
        lemma_answers_stop(before, calls, results, n + 1, label, max, now);
    } else {
        assert(calls.take(n) =~= calls);
        assert(results.take(n) =~= results);
    }
}

fn answer_call(
    call: &IndexedCall,
    result: ToolExecutionResult,
    label: ToolBackendLabel,
    budget: &mut RuntimeBudget,
    now: Instant,
) -> (r: Result<IndexedOutput, ToolRuntimeError>)
    ensures
        ({
            let (recorded, output) = answered_call(
                old(budget)@.recorded(),
                *call,
                result@,
                label,
                old(budget)@.max_output_bytes as nat,
                now,
            );
            &&& final(budget)@ == old(budget)@.with_recorded(recorded)
            &&& output == (match r {
                Ok(output) => Ok(output@),
                Err(error) => Err(error@),
            })
        }),
        r is Ok ==> reads_back(
            model_output(result@, old(budget)@.max_output_bytes as nat)->Ok_0,
        ),
        old(budget)@.wf() ==> final(budget)@.wf(),
{
    let outcome = match &result {
        ToolExecutionResult::ApplicationError(_) => ToolExecutionOutcome::ApplicationError,
        _ => ToolExecutionOutcome::Success,
    };
    let output = match result.into_model_output(budget.max_output_bytes) {
        Ok(output) => output,
        Err(error) => {
            return Err(error);
        },
    };
    let truncated = match output.get("truncated") {
        Some(Json::Bool(truncated)) => *truncated,
        _ => false,
    };
    let record = ToolExecutionRecord { tool: call.tool.clone(), backend: label, outcome };
    budget.telemetry.record(call.execution_index, record, truncated, now, &mut budget.log);
    let value = Json::object().having("type", Json::text("function_call_output")).having(
        "call_id",
        Json::Text(call.call.call_id.clone()),
    ).having("output", Json::Text(serde_value::print(&output)));
    Ok(IndexedOutput { index: call.index, value })
}

fn answer_calls(
    operation: &BackendOperation,
    results: &Vec<ToolExecutionResult>,
    budget: &mut RuntimeBudget,
    now: Instant,
) -> (r: Result<Vec<IndexedOutput>, ToolRuntimeError>)
    requires
        results@.len() == operation.calls@.len(),
    ensures
        ({
            let (recorded, outputs) = answered_calls(
                old(budget)@.recorded(),
                operation.calls@,
                result_views(results@),
                operation.backend.label,
                old(budget)@.max_output_bytes as nat,
                now,
            );
            &&& final(budget)@ == old(budget)@.with_recorded(recorded)
            &&& outputs_result(r) == outputs
        }),
        r is Ok ==> outputs_read_back(
            result_views(results@),
            old(budget)@.max_output_bytes as nat,
        ),
        old(budget)@.wf() ==> final(budget)@.wf(),
{
    let ghost start = budget@;
    let ghost before = start.recorded();
    let ghost calls = operation.calls@;
    let ghost given = result_views(results@);
    let ghost max = start.max_output_bytes as nat;
    let label = operation.backend.label;
    let mut outputs: Vec<IndexedOutput> = Vec::new();
    let mut i: usize = 0;
    proof {
        assert(output_views(outputs@) =~= Seq::empty());
        assert(budget@ =~= start.with_recorded(before));
        assert(calls.take(0) =~= Seq::empty());
    }
    while i < operation.calls.len()
        invariant
            calls == operation.calls@,
            given == result_views(results@),
            label == operation.backend.label,
            max == start.max_output_bytes,
            start == old(budget)@,
            before == start.recorded(),
            forall|k: int|
                0 <= k < i ==> reads_back(#[trigger] model_output(given[k], max)->Ok_0),
            results@.len() == operation.calls@.len(),
            i <= calls.len(),
            budget@ == start.with_recorded(
                answered_calls(
                    before,
                    calls.take(i as int),
                    given.take(i as int),
                    label,
                    max,
                    now,
                ).0,
            ),
            answered_calls(
                before,
                calls.take(i as int),
                given.take(i as int),
                label,
                max,
                now,
            ).1 == Ok::<Seq<OutputView>, ErrorView>(output_views(outputs@)),
            start.wf() ==> budget@.wf(),
        decreases calls.len() - i,
    {
        let call = &operation.calls[i];
        let result = &results[i];
        proof {
            assert(calls.take(i + 1).drop_last() =~= calls.take(i as int));
            assert(calls.take(i + 1).last() == calls[i as int]);
            assert(given.take(i + 1).drop_last() =~= given.take(i as int));
            assert(given.take(i + 1).last() == result@);
        }
        let answered = match answer_call(call, result.clone(), label, budget, now) {
            Ok(answered) => answered,
            Err(error) => {
                proof {
                    lemma_answers_stop(before, calls, given, i + 1, label, max, now);
                }
                return Err(error);
            },
        };
        assert(given[i as int] == result@);
        let ghost told = output_views(outputs@);
        outputs.push(answered);
        assert(output_views(outputs@) =~= told.push(answered@));
        i += 1;
    }
    proof {
        assert(calls.take(i as int) =~= calls);
        assert(given.take(i as int) =~= given);
    }
    Ok(outputs)
}

/// Ends an operation with what its backend gave.
pub fn end_operation(
    operation: &BackendOperation,
    result: Result<ToolBatchExecution, ToolBatchInfrastructureError>,
    budget: &mut RuntimeBudget,
    now: Instant,
) -> (r: Result<Vec<IndexedOutput>, ToolRuntimeError>)
    requires
        operation.calls@.len() > 0,
    ensures
        ({
            let (recorded, outputs) = operation_ended(
                old(budget)@.recorded(),
                *operation,
                result,
                old(budget)@.max_output_bytes as nat,
                now,
            );
            &&& final(budget)@ == old(budget)@.with_recorded(recorded)
            &&& outputs_result(r) == outputs
        }),
        r is Ok ==> outputs_read_back(
            result_views(result->Ok_0.results@),
            old(budget)@.max_output_bytes as nat,
        ),
        old(budget)@.wf() ==> final(budget)@.wf(),
{
    let sandbox = match operation.backend.label {
        ToolBackendLabel::E2b => true,
        _ => false,
    };
    let index: usize = operation.calls[0].execution_index;
    match result {
        Err(failure) => {
            let timed_out = match failure.error {
                ToolInfrastructureError::Timeout => true,
                _ => false,
            };
            if sandbox {
                let fallback = if timed_out {
                    Some(SandboxOperationOutcome::Timeout)
                } else {
                    None
                };
                finish_sandbox_metadata(
                    &mut budget.telemetry,
                    index,
                    failure.metadata,
                    fallback,
                    now,
                    &mut budget.log,
                );
                budget.telemetry.finish_sandbox_operation(
                    index,
                    SandboxOperation::Execute,
                    if timed_out {
                        SandboxOperationOutcome::Timeout
                    } else {
                        SandboxOperationOutcome::Failure
                    },
                    now,
                    &mut budget.log,
                );
            }
            let outcome = if timed_out {
                ToolExecutionOutcome::Timeout
            } else {
                ToolExecutionOutcome::InfrastructureError
            };
            end_calls(&mut budget.telemetry, &mut budget.log, operation, outcome, now);
            Err(ToolRuntimeError::infrastructure(failure.error))
        },
        Ok(batch) => {
            if sandbox {
                finish_sandbox_metadata(
                    &mut budget.telemetry,
                    index,
                    batch.metadata,
                    None,
                    now,
                    &mut budget.log,
                );
            }
            if batch.results.len() != operation.calls.len() {
                if sandbox {
                    budget.telemetry.finish_sandbox_operation(
                        index,
                        SandboxOperation::Execute,
                        SandboxOperationOutcome::Failure,
                        now,
                        &mut budget.log,
                    );
                }
                end_calls(
                    &mut budget.telemetry,
                    &mut budget.log,
                    operation,
                    ToolExecutionOutcome::InfrastructureError,
                    now,
                );
                return Err(ToolRuntimeError::infrastructure(ToolInfrastructureError::backend()));
            }
            let outputs = answer_calls(operation, &batch.results, budget, now);
            if sandbox {
                budget.telemetry.finish_sandbox_operation(
                    index,
                    SandboxOperation::Execute,
                    if outputs.is_ok() {
                        SandboxOperationOutcome::Success
                    } else {
                        SandboxOperationOutcome::Failure
                    },
                    now,
                    &mut budget.log,
                );
            }
            outputs
        },
    }
}

/// How many outputs, from the first on, stand before an output of this place among ordered ones.
pub open spec fn place_among(outputs: Seq<OutputView>, index: nat) -> nat
    decreases outputs.len(),
{
    if outputs.len() == 0 {
        0
    } else if outputs.last().index <= index {
        outputs.len()
    } else {
        place_among(outputs.drop_last(), index)
    }
}

/// Outputs in the order of the calls of their batch; those of one place stay in their order.
pub open spec fn ordered(outputs: Seq<OutputView>) -> Seq<OutputView>
    decreases outputs.len(),
{
    if outputs.len() == 0 {
        Seq::empty()
    } else {
        let before = ordered(outputs.drop_last());
        before.insert(place_among(before, outputs.last().index) as int, outputs.last())
    }
}

proof fn lemma_place_among(outputs: Seq<OutputView>, index: nat)
    ensures
        place_among(outputs, index) <= outputs.len(),
        forall|i: int|
            place_among(outputs, index) <= i < outputs.len() ==> (#[trigger] outputs[i]).index
                > index,
        place_among(outputs, index) > 0 ==> outputs[place_among(outputs, index) - 1].index <= index,
    decreases outputs.len(),
{
    if outputs.len() > 0 && outputs.last().index > index {
        lemma_place_among(outputs.drop_last(), index);
        assert forall|i: int|
            place_among(outputs, index) <= i < outputs.len() implies (#[trigger] outputs[i]).index
            > index by {
            if i < outputs.len() - 1 {
                assert(outputs.drop_last()[i] == outputs[i]);
            }
        }
    }
}

/// Ordered outputs are the same outputs, and their places ascend.
pub proof fn outputs_come_in_the_order_of_their_calls(outputs: Seq<OutputView>)
    ensures
        ordered(outputs).len() == outputs.len(),
        ordered(outputs).to_multiset() == outputs.to_multiset(),
        forall|i: int, j: int|
            0 <= i < j < outputs.len() ==> (#[trigger] ordered(outputs)[i]).index <= (
            #[trigger] ordered(outputs)[j]).index,
    decreases outputs.len(),
{
    if outputs.len() > 0 {
        let earlier = outputs.drop_last();
        let last = outputs.last();
        outputs_come_in_the_order_of_their_calls(earlier);
        let before = ordered(earlier);
        let k = place_among(before, last.index) as int;
        lemma_place_among(before, last.index);
        let after = ordered(outputs);
        assert(outputs =~= earlier.push(last));
        vstd::seq_lib::to_multiset_insert(before, k, last);
        vstd::seq_lib::to_multiset_build(earlier, last);
        assert forall|i: int, j: int| 0 <= i < j < outputs.len() implies (
        #[trigger] after[i]).index <= (#[trigger] after[j]).index by {
            if j < k {
                assert(after[i] == before[i] && after[j] == before[j]);
            } else if j == k {
                assert(after[i] == before[i]);
                if i < k - 1 {
                    assert(before[i].index <= before[k - 1].index);
                }
            } else if i < k {
                assert(after[i] == before[i] && after[j] == before[j - 1]);
            } else if i == k {
                assert(after[j] == before[j - 1]);
            } else {
                assert(after[i] == before[i - 1] && after[j] == before[j - 1]);
            }
        }
    } else {
        assert(outputs =~= Seq::empty());
    }
}

/// Puts outputs in the order of their calls.
fn order_outputs(outputs: Vec<IndexedOutput>) -> (r: Vec<IndexedOutput>)
    ensures
        output_views(r@) == ordered(output_views(outputs@)),
{
    let ghost all = output_views(outputs@);
    let count: usize = outputs.len();
    let mut rest = outputs;
    let mut reversed: Vec<IndexedOutput> = Vec::new();
    while rest.len() > 0
        invariant
            count == all.len(),
            rest@.len() + reversed@.len() == count,
            output_views(rest@) == all.take(rest@.len() as int),
            forall|i: int|
                0 <= i < reversed@.len() ==> (#[trigger] reversed@[i])@ == all[count - 1 - i],
        decreases rest@.len(),
    {
        let ghost before = rest@;
        match rest.pop() {
            Some(output) => {
                proof {
                    assert(output_views(before)[before.len() - 1] == output@);
                    assert(output_views(rest@) =~= output_views(before).drop_last());
                    assert(all.take(before.len() as int).drop_last() =~= all.take(
                        rest@.len() as int,
                    ));
                }
                reversed.push(output);
            },
            None => {},
        }
    }
    let mut sorted: Vec<IndexedOutput> = Vec::new();
    let ghost mut done: int = 0;
    proof {
        assert(output_views(sorted@) =~= Seq::empty());
        assert(all.take(0) =~= Seq::empty());
    }
    while reversed.len() > 0
        invariant
            count == all.len(),
            done == count - reversed@.len(),
            0 <= done <= count,
            forall|i: int|
                0 <= i < reversed@.len() ==> (#[trigger] reversed@[i])@ == all[count - 1 - i],
            output_views(sorted@) == ordered(all.take(done)),
        decreases reversed@.len(),
    {
        let ghost before = output_views(sorted@);
        match reversed.pop() {
            Some(output) => {
                proof {
                    assert(output@ == all[done]);
                    assert(all.take(done + 1).drop_last() =~= all.take(done));
                    assert(all.take(done + 1).last() == output@);
                }
                let place = find_place(&sorted, output.index);
                let ghost added = output@;
                sorted.insert(place, output);
                assert(output_views(sorted@) =~= before.insert(place as int, added));
                proof {
                    done = done + 1;
                }
            },
            None => {},
        }
    }
    assert(all.take(done) =~= all);
    sorted
}

fn find_place(outputs: &Vec<IndexedOutput>, index: usize) -> (r: usize)
    ensures
        r == place_among(output_views(outputs@), index as nat),
        r <= outputs@.len(),
{
    let ghost all = output_views(outputs@);
    let mut i: usize = outputs.len();
    assert(all.take(i as int) =~= all);
    while i > 0 && outputs[i - 1].index > index
        invariant
            all == output_views(outputs@),
            i <= outputs@.len(),
            place_among(all, index as nat) == place_among(all.take(i as int), index as nat),
        decreases i,
    {
        proof {
            assert(all.take(i as int).last() == outputs@[i - 1]@);
            assert(all.take(i as int).drop_last() =~= all.take(i - 1));
        }
        i -= 1;
    }
    proof {
        if i > 0 {
            assert(all.take(i as int).last() == outputs@[i - 1]@);
        }
    }
    i
}

/// How the execution of a batch ended: with its outputs, with a failure, or not before the deadline
/// of its request.
pub enum BatchEnd {
    Completed(Vec<IndexedOutput>),
    Failed(ToolRuntimeError),
    OutOfTime,
}

impl BudgetView {
    /// After a batch ended with a failure: what had not ended is recorded.
    pub open spec fn batch_failed(
        self,
        operations: Seq<BackendOperation>,
        timed_out: bool,
        error: ErrorView,
        now: Instant,
    ) -> BudgetView {
        self.with_recorded(
            self.recorded().unfinished(
                operations,
                if timed_out {
                    ToolExecutionOutcome::Timeout
                } else {
                    ToolExecutionOutcome::Cancelled
                },
                now,
            ).sandboxes_unfinished(
                operations,
                if timed_out {
                    SandboxOperationOutcome::Timeout
                } else {
                    SandboxOperationOutcome::Cancelled
                },
                now,
            ),
        ).with_error(error)
    }
}

/// The values of outputs.
pub open spec fn output_values(outputs: Seq<OutputView>) -> Seq<JsonView> {
    Seq::new(outputs.len(), |i: int| outputs[i].value)
}

fn fail_batch(
    plan: &BatchPlan,
    timed_out: bool,
    error: &ToolRuntimeError,
    budget: &mut RuntimeBudget,
    now: Instant,
)
    requires
        all_have_calls(plan.operations@),
    ensures
        final(budget)@ == old(budget)@.batch_failed(plan.operations@, timed_out, error@, now),
        old(budget)@.wf() ==> final(budget)@.wf(),
{
    record_unfinished(
        &mut budget.telemetry,
        &mut budget.log,
        &plan.operations,
        if timed_out {
            ToolExecutionOutcome::Timeout
        } else {
            ToolExecutionOutcome::Cancelled
        },
        now,
    );
    record_unfinished_sandbox_operations(
        &mut budget.telemetry,
        &mut budget.log,
        &plan.operations,
        if timed_out {
            SandboxOperationOutcome::Timeout
        } else {
            SandboxOperationOutcome::Cancelled
        },
        now,
    );
    budget.record_error(error);
}

/// Ends a batch: its outputs come in the order of its calls. A failure after the deadline is the
/// deadline's.
pub fn end_batch(plan: &BatchPlan, end: BatchEnd, budget: &mut RuntimeBudget, now: Instant) -> (r:
    Result<Vec<Json>, ToolRuntimeError>)
    requires
        all_have_calls(plan.operations@),
    ensures
        match end {
            BatchEnd::Completed(outputs) => r is Ok && json::views(r->Ok_0@) == output_values(
                ordered(output_views(outputs@)),
            ) && final(budget)@ == old(budget)@,
            BatchEnd::Failed(error) => {
                let timed_out = old(budget)@.remaining(now) == 0;
                let reported = if timed_out {
                    ErrorView::deadline()
                } else {
                    error@
                };
                &&& r is Err && r->Err_0@ == reported
                &&& final(budget)@ == old(budget)@.batch_failed(
                    plan.operations@,
                    timed_out,
                    reported,
                    now,
                )
            },
            BatchEnd::OutOfTime => r is Err && r->Err_0@ == ErrorView::deadline() && final(budget)@
                == old(budget)@.batch_failed(plan.operations@, true, ErrorView::deadline(), now),
        },
        old(budget)@.wf() ==> final(budget)@.wf(),
{
    match end {
        BatchEnd::Completed(outputs) => {
            let sorted = order_outputs(outputs);
            let ghost all = output_views(sorted@);
            let count: usize = sorted.len();
            let mut values: Vec<Json> = Vec::new();
            let mut i: usize = 0;
            while i < count
                invariant
                    all == output_views(sorted@),
                    count == sorted@.len(),
                    i <= count,
                    json::views(values@) == output_values(all).take(i as int),
                decreases count - i,
            {
                let ghost before = json::views(values@);
                let value = sorted[i].value.clone();
                let ghost added = value@;
                values.push(value);
                proof {
                    assert(json::views(values@) =~= before.push(added));
                    assert(output_values(all)[i as int] == added);
                    assert(output_values(all).take(i + 1) =~= output_values(all).take(
                        i as int,
                    ).push(added));
                }
                i += 1;
            }
            assert(output_values(all).take(i as int) =~= output_values(all));
            Ok(values)
        },
        BatchEnd::Failed(error) => {
            let timed_out = budget.remaining(now).is_zero();
            let error = if timed_out {
                ToolRuntimeError::deadline_exceeded()
            } else {
                error
            };
            fail_batch(plan, timed_out, &error, budget, now);
            Err(error)
        },
        BatchEnd::OutOfTime => {
            let error = ToolRuntimeError::deadline_exceeded();
            fail_batch(plan, true, &error, budget, now);
            Err(error)
        },
    }
}

/// Whether every call of a remote server is counted under one name.
pub open spec fn remote_calls_share_a_name(operations: Seq<OperationView>) -> bool {
    forall|o: int, k: int|
        #![trigger operations[o].calls[k]]
        0 <= o < operations.len() && 0 <= k < operations[o].calls.len()
            && operations[o].backend.label == ToolBackendLabel::RemoteMcp
            ==> operations[o].calls[k].tool == "remote_mcp"@
}

/// The name of a remote tool, which others choose, is never counted: every call of a remote server
/// is counted as one and the same tool.
pub proof fn remote_names_are_never_counted(
    registry: RegistryView,
    backends: Seq<BoundView>,
    calls: Seq<CallView>,
    parallel: bool,
    execution_start: nat,
)
    ensures
        match operations_of(registry, backends, calls, parallel, execution_start) {
            Ok(operations) => remote_calls_share_a_name(operations),
            Err(_) => true,
        },
    decreases calls.len(),
{
    if calls.len() > 0 && operations_of(registry, backends, calls, parallel, execution_start) is Ok {
        let earlier = calls.drop_last();
        remote_names_are_never_counted(registry, backends, earlier, parallel, execution_start);
        let before = operations_of(registry, backends, earlier, parallel, execution_start)->Ok_0;
        let after = operations_of(registry, backends, calls, parallel, execution_start)->Ok_0;
        let (bound, call) = resolved(
            registry,
            backends,
            calls.last(),
            earlier.len(),
            execution_start,
        )->Ok_0;
        lemma_first_sandbox(before);
        assert forall|o: int, k: int|
            #![trigger after[o].calls[k]]
            0 <= o < after.len() && 0 <= k < after[o].calls.len() && after[o].backend.label
                == ToolBackendLabel::RemoteMcp implies after[o].calls[k].tool == "remote_mcp"@ by {
            if o < before.len() {
                assert(after[o] == before[o]);
                assert(before[o].calls[k].tool == "remote_mcp"@);
            }
        }
    }
}

/// Whether every call of these operations has the execution index of its place, from a first one on.
pub open spec fn indexed_from(operations: Seq<OperationView>, first: nat, count: nat) -> bool {
    forall|o: int, k: int|
        #![trigger operations[o].calls[k]]
        0 <= o < operations.len() && 0 <= k < operations[o].calls.len() ==> {
            &&& operations[o].calls[k].execution_index == first + operations[o].calls[k].index
            &&& operations[o].calls[k].index < count
        }
}

/// The calls of a batch are executed under the indices that the budget reserved for them, so that no
/// two calls of a request share one.
pub proof fn execution_indices_are_those_reserved(
    registry: RegistryView,
    backends: Seq<BoundView>,
    calls: Seq<CallView>,
    parallel: bool,
    execution_start: nat,
)
    ensures
        match operations_of(registry, backends, calls, parallel, execution_start) {
            Ok(operations) => indexed_from(operations, execution_start, calls.len()),
            Err(_) => true,
        },
    decreases calls.len(),
{
    if calls.len() > 0 && operations_of(registry, backends, calls, parallel, execution_start) is Ok {
        let earlier = calls.drop_last();
        execution_indices_are_those_reserved(registry, backends, earlier, parallel, execution_start);
        let before = operations_of(registry, backends, earlier, parallel, execution_start)->Ok_0;
        let after = operations_of(registry, backends, calls, parallel, execution_start)->Ok_0;
        let (bound, call) = resolved(
            registry,
            backends,
            calls.last(),
            earlier.len(),
            execution_start,
        )->Ok_0;
        lemma_first_sandbox(before);
        assert forall|o: int, k: int|
            #![trigger after[o].calls[k]]
            0 <= o < after.len() && 0 <= k < after[o].calls.len() implies {
            &&& after[o].calls[k].execution_index == execution_start + after[o].calls[k].index
            &&& after[o].calls[k].index < calls.len()
        } by {
            if o < before.len() && k < before[o].calls.len() {
                assert(after[o].calls[k] == before[o].calls[k]);
            } else {
                assert(after[o].calls[k] == call);
            }
        }
    }
}

/// A queue that lets something run and has nothing running and nothing to begin has begun
/// everything.
pub proof fn an_idle_queue_has_begun_everything(queue: OperationQueue)
    requires
        queue.wf(),
        queue.limit > 0,
        queue.running == 0,
        !(queue.running < queue.limit && queue.begun < queue.count),
    ensures
        queue.begun == queue.count,
{
}

/// Whether these are the outputs of an operation that ended well, with these results of its backend.
pub open spec fn are_outputs(
    operation: BackendOperation,
    batch: ToolBatchExecution,
    max: nat,
    outputs: Seq<OutputView>,
) -> bool {
    exists|before: Recorded, now: Instant|
        (#[trigger] operation_ended(before, operation, Ok(batch), max, now)).1 == Ok::<
            Seq<OutputView>,
            ErrorView,
        >(outputs)
}

/// The outputs of operations, one operation after the other.
pub open spec fn joined_outputs(given: Seq<Seq<OutputView>>) -> Seq<OutputView>
    decreases given.len(),
{
    if given.len() == 0 {
        Seq::empty()
    } else {
        joined_outputs(given.drop_last()) + given.last()
    }
}

proof fn lemma_answered_calls(
    before: Recorded,
    calls: Seq<IndexedCall>,
    results: Seq<ResultView>,
    label: ToolBackendLabel,
    max: nat,
    now: Instant,
)
    requires
        calls.len() == results.len(),
        answered_calls(before, calls, results, label, max, now).1 is Ok,
    ensures
        ({
            let outputs = answered_calls(before, calls, results, label, max, now).1->Ok_0;
            &&& outputs.len() == calls.len()
            &&& forall|k: int|
                0 <= k < calls.len() ==> {
                    &&& (#[trigger] outputs[k]).index == calls[k].index
                    &&& model_output(results[k], max) is Ok
                    &&& outputs[k].value == function_call_output(
                        calls[k].call@.call_id,
                        model_output(results[k], max)->Ok_0,
                    )
                }
        }),
    decreases calls.len(),
{
    if calls.len() > 0 {
        let earlier = calls.drop_last();
        let given = results.drop_last();
        lemma_answered_calls(before, earlier, given, label, max, now);
        let outputs = answered_calls(before, calls, results, label, max, now).1->Ok_0;
        let fewer = answered_calls(before, earlier, given, label, max, now).1->Ok_0;
        assert forall|k: int| 0 <= k < calls.len() implies {
            &&& (#[trigger] outputs[k]).index == calls[k].index
            &&& model_output(results[k], max) is Ok
            &&& outputs[k].value == function_call_output(
                calls[k].call@.call_id,
                model_output(results[k], max)->Ok_0,
            )
        } by {
            if k < earlier.len() {
                assert(outputs[k] == fewer[k]);
                assert(earlier[k] == calls[k] && given[k] == results[k]);
            }
        }
    }
}

/// Whether an item tells the result of a call: the one that its operation was given for it.
pub open spec fn tells_result(
    value: JsonView,
    operations: Seq<BackendOperation>,
    batches: Seq<ToolBatchExecution>,
    max: nat,
    i: int,
    call: CallView,
) -> bool {
    exists|o: int, k: int|
        #![trigger operations[o].calls@[k]]
        0 <= o < operations.len() && 0 <= k < operations[o].calls@.len()
            && operations[o].calls@[k].index == i && operations[o].calls@[k].call@ == call && value
            == told_result(call.call_id, batches[o].results@[k]@, max)
}

/// The item that tells a result.
pub open spec fn told_result(call_id: Seq<char>, result: ResultView, max: nat) -> JsonView {
    function_call_output(call_id, model_output(result, max)->Ok_0)
}

/// Whether outputs answer calls: one for each, in their order and under their places.
pub open spec fn answer(
    outputs: Seq<OutputView>,
    calls: Seq<IndexedView>,
    results: Seq<ResultView>,
    max: nat,
) -> bool {
    &&& outputs.len() == calls.len()
    &&& forall|k: int|
        0 <= k < calls.len() ==> (#[trigger] outputs[k]).index == calls[k].index
            && outputs[k].value == told_result(calls[k].call.call_id, results[k], max)
}

proof fn lemma_outputs_answer(
    operation: BackendOperation,
    batch: ToolBatchExecution,
    max: nat,
    outputs: Seq<OutputView>,
)
    requires
        are_outputs(operation, batch, max, outputs),
    ensures
        answer(outputs, operation@.calls, result_views(batch.results@), max),
        batch.results@.len() == operation.calls@.len(),
{
    let (before, now) = choose|before: Recorded, now: Instant|
        (#[trigger] operation_ended(before, operation, Ok(batch), max, now)).1 == Ok::<
            Seq<OutputView>,
            ErrorView,
        >(outputs);
    let results = result_views(batch.results@);
    lemma_answered_calls(
        before.sandbox_reported(operation, batch.metadata, None, now),
        operation.calls@,
        results,
        operation.backend.label,
        max,
        now,
    );
    let calls = operation@.calls;
    assert forall|k: int| 0 <= k < calls.len() implies (#[trigger] outputs[k]).index
        == calls[k].index && outputs[k].value == told_result(
        calls[k].call.call_id,
        results[k],
        max,
    ) by {
        assert(calls[k].call == operation.calls@[k].call@);
    }
}

/// Whether outputs have the places of calls, one for each.
spec fn same_places(outputs: Seq<OutputView>, calls: Seq<IndexedView>) -> bool {
    &&& outputs.len() == calls.len()
    &&& forall|k: int| 0 <= k < calls.len() ==> (#[trigger] outputs[k]).index == calls[k].index
}

/// The outputs of all operations are as many as their calls, and each operation's are among them.
proof fn lemma_joined_outputs(given: Seq<Seq<OutputView>>, operations: Seq<OperationView>)
    requires
        given.len() == operations.len(),
        forall|o: int|
            0 <= o < operations.len() ==> same_places(#[trigger] given[o], operations[o].calls),
    ensures
        joined_outputs(given).len() == call_count(operations),
        forall|o: int, k: int|
            #![trigger given[o][k]]
            0 <= o < given.len() && 0 <= k < given[o].len() ==> joined_outputs(given).contains(
                given[o][k],
            ),
        forall|i: int|
            0 <= i < joined_outputs(given).len() ==> exists|o: int, k: int|
                #![trigger operations[o].calls[k]]
                0 <= o < operations.len() && 0 <= k < operations[o].calls.len()
                    && operations[o].calls[k].index == (#[trigger] joined_outputs(given)[i]).index,
    decreases given.len(),
{
    if given.len() > 0 {
        let n = given.len() - 1;
        let fewer = given.drop_last();
        let earlier = operations.drop_last();
        assert forall|o: int| 0 <= o < earlier.len() implies same_places(
            #[trigger] fewer[o],
            earlier[o].calls,
        ) by {
            assert(fewer[o] == given[o] && earlier[o] == operations[o]);
        }
        lemma_joined_outputs(fewer, earlier);
        assert(same_places(given[n], operations[n].calls));
        let all = joined_outputs(given);
        let before = joined_outputs(fewer);
        assert forall|o: int, k: int|
            #![trigger given[o][k]]
            0 <= o < given.len() && 0 <= k < given[o].len() implies all.contains(given[o][k]) by {
            if o < n {
                assert(fewer[o][k] == given[o][k]);
                let p = choose|p: int| 0 <= p < before.len() && before[p] == fewer[o][k];
                assert(all[p] == given[o][k]);
            } else {
                assert(all[before.len() + k] == given[o][k]);
            }
        }
        assert forall|i: int| 0 <= i < all.len() implies exists|o: int, k: int|
            #![trigger operations[o].calls[k]]
            0 <= o < operations.len() && 0 <= k < operations[o].calls.len()
                && operations[o].calls[k].index == (#[trigger] all[i]).index by {
            if i < before.len() {
                assert(all[i] == before[i]);
                let (o, k) = choose|o: int, k: int|
                    #![trigger earlier[o].calls[k]]
                    0 <= o < earlier.len() && 0 <= k < earlier[o].calls.len()
                        && earlier[o].calls[k].index == before[i].index;
                assert(operations[o].calls[k].index == all[i].index);
            } else {
                let k = i - before.len();
                assert(all[i] == given[n][k]);
                assert(operations[n].calls[k].index == all[i].index);
            }
        }
    }
}

/// Numbers that never descend, that are below their count and among which none below it is missing
/// are the numbers from none on.
proof fn lemma_every_place_once(places: Seq<int>)
    requires
        forall|i: int| 0 <= i < places.len() ==> 0 <= #[trigger] places[i] < places.len(),
        forall|v: int| 0 <= v < places.len() ==> #[trigger] places.contains(v),
        forall|i: int, j: int|
            0 <= i < j < places.len() ==> #[trigger] places[i] <= #[trigger] places[j],
    ensures
        forall|i: int| 0 <= i < places.len() ==> #[trigger] places[i] == i,
{
    let n = places.len() as int;
    vstd::set_lib::lemma_int_range(0, n);
    assert(places.to_set() =~= vstd::set_lib::set_int_range(0, n));
    places.lemma_no_dup_set_cardinality();
    assert forall|i: int| 0 <= i < n implies #[trigger] places[i] == i by {
        lemma_at_least(places, i);
        lemma_at_most(places, i);
    }
}

proof fn lemma_at_least(places: Seq<int>, i: int)
    requires
        0 <= i < places.len(),
        places.no_duplicates(),
        forall|k: int| 0 <= k < places.len() ==> 0 <= #[trigger] places[k],
        forall|j: int, k: int|
            0 <= j < k < places.len() ==> #[trigger] places[j] <= #[trigger] places[k],
    ensures
        places[i] >= i,
    decreases i,
{
    if i > 0 {
        lemma_at_least(places, i - 1);
        assert(places[i - 1] <= places[i] && places[i - 1] != places[i]);
    }
}

proof fn lemma_at_most(places: Seq<int>, i: int)
    requires
        0 <= i < places.len(),
        places.no_duplicates(),
        forall|k: int| 0 <= k < places.len() ==> #[trigger] places[k] < places.len(),
        forall|j: int, k: int|
            0 <= j < k < places.len() ==> #[trigger] places[j] <= #[trigger] places[k],
    ensures
        places[i] <= i,
    decreases places.len() - i,
{
    if i + 1 < places.len() {
        lemma_at_most(places, i + 1);
        assert(places[i] <= places[i + 1] && places[i] != places[i + 1]);
    }
}

/// A batch whose operations all ended well gives one output for each of its calls, in the order of
/// the calls, in whatever order the operations ended and their outputs came in.
pub proof fn a_batch_answers_every_call_in_its_place(
    registry: RegistryView,
    calls: Seq<CallView>,
    parallel: bool,
    budget: BudgetView,
    now: Instant,
    operations: Seq<BackendOperation>,
    batches: Seq<ToolBatchExecution>,
    given: Seq<Seq<OutputView>>,
    gathered: Seq<OutputView>,
)
    requires
        batch_complaint(registry, calls, parallel, budget, now) is None,
        operation_views(operations) == batch_operations(registry, calls, parallel, budget),
        batches.len() == operations.len(),
        given.len() == operations.len(),
        forall|o: int|
            0 <= o < operations.len() ==> are_outputs(
                operations[o],
                batches[o],
                budget.max_output_bytes as nat,
                #[trigger] given[o],
            ),
        gathered.to_multiset() == joined_outputs(given).to_multiset(),
    ensures
        output_values(ordered(gathered)).len() == calls.len(),
        forall|i: int|
            0 <= i < calls.len() ==> (#[trigger] ordered(gathered)[i]).index == i && tells_result(
                ordered(gathered)[i].value,
                operations,
                batches,
                budget.max_output_bytes as nat,
                i,
                calls[i],
            ),
{
    broadcast use vstd::seq_lib::group_to_multiset_ensures;

    let views = operation_views(operations);
    operations_hold_the_calls_in_order(
        registry,
        budget.backends,
        calls,
        parallel,
        budget.next_execution_index as nat,
    );
    let max = budget.max_output_bytes as nat;
    assert forall|o: int| 0 <= o < views.len() implies answer(
        #[trigger] given[o],
        views[o].calls,
        result_views(batches[o].results@),
        max,
    ) && batches[o].results@.len() == operations[o].calls@.len() by {
        lemma_outputs_answer(operations[o], batches[o], max, given[o]);
    }
    assert forall|o: int| 0 <= o < views.len() implies same_places(
        #[trigger] given[o],
        views[o].calls,
    ) by {
        assert(answer(given[o], views[o].calls, result_views(batches[o].results@), max));
    }
    lemma_joined_outputs(given, views);
    outputs_come_in_the_order_of_their_calls(gathered);
    let all = joined_outputs(given);
    let sorted = ordered(gathered);
    let n = calls.len() as int;
    assert(all.len() == all.to_multiset().len());
    assert(sorted.len() == sorted.to_multiset().len());
    let places = Seq::new(sorted.len(), |i: int| sorted[i].index as int);
    assert forall|i: int| 0 <= i < places.len() implies 0 <= #[trigger] places[i] < places.len() by {
        vstd::seq_lib::to_multiset_contains(sorted, sorted[i]);
        vstd::seq_lib::to_multiset_contains(all, sorted[i]);
        assert(sorted.contains(sorted[i]));
        let p = choose|p: int| 0 <= p < all.len() && all[p] == sorted[i];
        let (o, k) = choose|o: int, k: int|
            #![trigger views[o].calls[k]]
            0 <= o < views.len() && 0 <= k < views[o].calls.len() && views[o].calls[k].index
                == all[p].index;
        assert(in_order(views[o].calls, calls.len()));
        assert(views[o].calls[k].index < calls.len());
    }
    let found_at = |i: int|
        {
            let (o, k) = choose|o: int, k: int|
                #![trigger views[o].calls[k]]
                0 <= o < views.len() && 0 <= k < views[o].calls.len() && views[o].calls[k].index
                    == i && views[o].calls[k].call == calls[i];
            given[o][k]
        };
    assert forall|i: int| 0 <= i < n implies sorted.contains(#[trigger] found_at(i)) && found_at(
        i,
    ).index == i && tells_result(found_at(i).value, operations, batches, max, i, calls[i]) by {
        assert(holds_call(views, i, calls[i]));
        let (o, k) = choose|o: int, k: int|
            #![trigger views[o].calls[k]]
            0 <= o < views.len() && 0 <= k < views[o].calls.len() && views[o].calls[k].index == i
                && views[o].calls[k].call == calls[i];
        assert(answer(given[o], views[o].calls, result_views(batches[o].results@), max));
        let found = given[o][k];
        assert(found_at(i) == found);
        assert(all.contains(found));
        vstd::seq_lib::to_multiset_contains(all, found);
        vstd::seq_lib::to_multiset_contains(sorted, found);
        assert(operations[o].calls@[k].index == i);
        assert(result_views(batches[o].results@)[k] == batches[o].results@[k]@);
    }
    assert forall|v: int| 0 <= v < places.len() implies #[trigger] places.contains(v) by {
        assert(sorted.contains(found_at(v)));
        let p = choose|p: int| 0 <= p < sorted.len() && sorted[p] == found_at(v);
        assert(places[p] == v);
    }
    assert forall|i: int, j: int| 0 <= i < j < places.len() implies #[trigger] places[i]
        <= #[trigger] places[j] by {
        assert(sorted[i].index <= sorted[j].index);
    }
    lemma_every_place_once(places);
    assert forall|i: int| 0 <= i < calls.len() implies (#[trigger] sorted[i]).index == i
        && tells_result(sorted[i].value, operations, batches, max, i, calls[i]) by {
        assert(places[i] == i);
        assert(sorted.contains(found_at(i)));
        let p = choose|p: int| 0 <= p < sorted.len() && sorted[p] == found_at(i);
        assert(places[p] == p);
    }
}

} // verus!
