//! The calls of one answer: searches among the deferred tools are answered one after the other, the
//! rest as one batch.

use vstd::prelude::*;
use vstd::string::*;
use crate::backend::{call_views, CallView, ManagedToolCall, ToolExecutionResult};
use crate::budget::{BudgetView, RuntimeBudget};
use crate::error::{json_result, ErrorView, ToolRuntimeError};
use crate::json::{Json, JsonView};
use crate::messages::calls::{adapt_output, adapted};
use crate::output::ResultView;
use crate::runner::{told_item, tool_output_item, ManagedFormat};
use crate::{json, serde_value, text};

verus! {

/// The calls that are no searches, in order.
pub open spec fn backed_calls(calls: Seq<CallView>, search: Seq<char>) -> Seq<CallView>
    decreases calls.len(),
{
    if calls.len() == 0 {
        Seq::empty()
    } else if calls.last().internal_name == search {
        backed_calls(calls.drop_last(), search)
    } else {
        backed_calls(calls.drop_last(), search).push(calls.last())
    }
}

/// How many calls are searches.
pub open spec fn search_count(calls: Seq<CallView>, search: Seq<char>) -> nat
    decreases calls.len(),
{
    if calls.len() == 0 {
        0
    } else {
        search_count(calls.drop_last(), search) + if calls.last().internal_name == search {
            1nat
        } else {
            0
        }
    }
}

/// The place of the first search from a place on; the number of calls where there is none.
pub open spec fn next_search(calls: Seq<CallView>, search: Seq<char>, from: nat) -> nat
    decreases calls.len() - from,
{
    if from >= calls.len() {
        calls.len()
    } else if calls[from as int].internal_name == search {
        from
    } else {
        next_search(calls, search, from + 1)
    }
}

/// What the budget is after the searches of an answer were reserved, or the failure.
pub open spec fn searches_reserved(budget: BudgetView, searches: nat) -> (
    BudgetView,
    Option<ErrorView>,
) {
    if searches == 0 {
        (budget, None)
    } else {
        match budget.calls_complaint(searches) {
            Some(error) => (budget.with_error(error), Some(error)),
            None => (budget.calls_reserved(searches), None),
        }
    }
}

/// An output item of a batch in the form of the conversation.
pub open spec fn adapted_item(format: ManagedFormat, output: JsonView) -> Result<
    JsonView,
    ErrorView,
> {
    match format {
        ManagedFormat::Responses => Ok(output),
        ManagedFormat::Messages => match output.text_at("output"@) {
            Some(content) => adapted(output, serde_value::json_parsed(content)),
            None => Err(ErrorView::internal()),
        },
    }
}

/// The output items of a batch in the form of the conversation, or the first failure.
pub open spec fn all_adapted(format: ManagedFormat, outputs: Seq<JsonView>) -> Result<
    Seq<JsonView>,
    ErrorView,
>
    decreases outputs.len(),
{
    if outputs.len() == 0 {
        Ok(Seq::empty())
    } else {
        match all_adapted(format, outputs.drop_last()) {
            Err(error) => Err(error),
            Ok(items) => match adapted_item(format, outputs.last()) {
                Ok(item) => Ok(items.push(item)),
                Err(error) => Err(error),
            },
        }
    }
}

/// The calls of one answer while they are carried out. The outputs of the first calls are known; a
/// call that the batch answers has none yet.
pub struct DirectRun {
    pub format: ManagedFormat,
    pub calls: Vec<ManagedToolCall>,
    pub search_function: String,
    pub max_output_bytes: usize,
    pub outputs: Vec<Option<Json>>,
}

pub struct DirectView {
    pub format: ManagedFormat,
    pub calls: Seq<CallView>,
    pub search: Seq<char>,
    pub max: nat,
    pub outputs: Seq<Option<JsonView>>,
}

/// What is to be done next for the calls of an answer.
pub enum DirectStep {
    Search { query: String },
    Execute(Vec<ManagedToolCall>),
    Answer(Vec<Json>),
}

pub enum DirectStepView {
    Search { query: Seq<char> },
    Execute(Seq<CallView>),
    Answer(Seq<JsonView>),
}

impl DirectStep {
    pub open spec fn view(&self) -> DirectStepView {
        match *self {
            DirectStep::Search { query } => DirectStepView::Search { query: query@ },
            DirectStep::Execute(calls) => DirectStepView::Execute(call_views(calls@)),
            DirectStep::Answer(items) => DirectStepView::Answer(json::views(items@)),
        }
    }
}

pub open spec fn output_views(outputs: Seq<Option<Json>>) -> Seq<Option<JsonView>> {
    Seq::new(
        outputs.len(),
        |i: int|
            match outputs[i] {
                Some(output) => Some(output.view()),
                None => None,
            },
    )
}

impl DirectView {
    /// The calls so far have their outputs: searches their own, others none yet.
    pub open spec fn wf(self) -> bool {
        &&& self.outputs.len() <= self.calls.len()
        &&& forall|i: int|
            0 <= i < self.outputs.len() ==> ((#[trigger] self.outputs[i]) is Some
                <==> self.calls[i].internal_name == self.search)
    }

    /// The place of the search that is next.
    pub open spec fn next(self) -> nat {
        next_search(self.calls, self.search, self.outputs.len())
    }

    /// What is to be done next: the next search, then the batch, then nothing. A search without a
    /// query fails when its turn comes.
    pub open spec fn step(self) -> Result<DirectStepView, ErrorView> {
        let backed = backed_calls(self.calls, self.search);
        if search_count(self.calls, self.search) == 0 {
            Ok(DirectStepView::Execute(self.calls))
        } else if self.next() < self.calls.len() {
            match self.calls[self.next() as int].arguments.text_at("query"@) {
                Some(query) => Ok(DirectStepView::Search { query }),
                None => Err(ErrorView::internal()),
            }
        } else if backed.len() > 0 {
            Ok(DirectStepView::Execute(backed))
        } else {
            Ok(DirectStepView::Answer(Seq::new(self.outputs.len(), |i: int| self.outputs[i]->0)))
        }
    }

    /// The calls once the search that is next gave this result.
    pub open spec fn after_search(self, result: ResultView) -> Result<DirectView, ErrorView> {
        match told_item(
            self.format,
            self.calls[self.next() as int].call_id,
            result,
            self.max,
        ) {
            Err(error) => Err(error),
            Ok(item) => Ok(
                DirectView {
                    outputs: Seq::new(
                        self.next() + 1,
                        |i: int|
                            if i < self.outputs.len() {
                                self.outputs[i]
                            } else if i < self.next() {
                                None
                            } else {
                                Some(item)
                            },
                    ),
                    ..self
                },
            ),
        }
    }

    /// The output of one call, given those of the batch.
    pub open spec fn output_of(self, i: int, items: Seq<JsonView>) -> JsonView {
        if self.calls[i].internal_name == self.search {
            self.outputs[i]->0
        } else {
            items[backed_calls(self.calls.take(i), self.search).len() as int]
        }
    }

    /// The outputs of all calls once the batch gave these: each in the place of its call.
    pub open spec fn after_batch(self, executed: Seq<JsonView>) -> Result<
        Seq<JsonView>,
        ErrorView,
    > {
        if search_count(self.calls, self.search) == 0 {
            all_adapted(self.format, executed)
        } else if executed.len() != backed_calls(self.calls, self.search).len() {
            Err(ErrorView::internal())
        } else {
            match all_adapted(self.format, executed) {
                Err(error) => Err(error),
                Ok(items) => Ok(
                    Seq::new(self.calls.len(), |i: int| self.output_of(i, items)),
                ),
            }
        }
    }
}

pub proof fn lemma_next_search(calls: Seq<CallView>, search: Seq<char>, from: nat)
    ensures
        from <= calls.len() ==> from <= next_search(calls, search, from) <= calls.len(),
        forall|j: int|
            from <= j < next_search(calls, search, from) ==> (#[trigger] calls[j]).internal_name
                != search,
        next_search(calls, search, from) < calls.len() ==> calls[next_search(
            calls,
            search,
            from,
        ) as int].internal_name == search,
    decreases calls.len() - from,
{
    if from < calls.len() && calls[from as int].internal_name != search {
        lemma_next_search(calls, search, from + 1);
    }
}

proof fn lemma_counts(calls: Seq<CallView>, search: Seq<char>)
    ensures
        search_count(calls, search) + backed_calls(calls, search).len() == calls.len(),
        search_count(calls, search) == 0 ==> backed_calls(calls, search) == calls,
        backed_calls(calls, search).len() == 0 ==> forall|i: int|
            0 <= i < calls.len() ==> (#[trigger] calls[i]).internal_name == search,
    decreases calls.len(),
{
    if calls.len() > 0 {
        lemma_counts(calls.drop_last(), search);
        if backed_calls(calls, search).len() == 0 {
            assert forall|i: int| 0 <= i < calls.len() implies (
            #[trigger] calls[i]).internal_name == search by {
                if i < calls.len() - 1 {
                    assert(calls.drop_last()[i] == calls[i]);
                }
            }
        }
        if search_count(calls, search) == 0 {
            assert(backed_calls(calls, search) =~= calls);
        }
    }
}

proof fn lemma_backed_before(calls: Seq<CallView>, search: Seq<char>, i: int)
    requires
        0 <= i < calls.len(),
    ensures
        backed_calls(calls.take(i + 1), search).len() == backed_calls(calls.take(i), search).len()
            + if calls[i].internal_name == search {
            0nat
        } else {
            1nat
        },
        backed_calls(calls.take(i + 1), search).len() <= backed_calls(calls, search).len(),
    decreases calls.len() - i,
{
    assert(calls.take(i + 1).drop_last() =~= calls.take(i));
    assert(calls.take(i + 1).last() == calls[i]);
    if i + 1 < calls.len() {
        lemma_backed_before(calls, search, i + 1);
    } else {
        assert(calls.take(i + 1) =~= calls);
    }
}

proof fn lemma_adapted_stop(format: ManagedFormat, outputs: Seq<JsonView>, n: int)
    requires
        0 <= n <= outputs.len(),
        all_adapted(format, outputs.take(n)) is Err,
    ensures
        all_adapted(format, outputs) == all_adapted(format, outputs.take(n)),
    decreases outputs.len() - n,
{
    if n < outputs.len() {
        assert(outputs.take(n + 1).drop_last() =~= outputs.take(n));
        lemma_adapted_stop(format, outputs, n + 1);
    } else {
        assert(outputs.take(n) =~= outputs);
    }
}

fn count_searches(calls: &Vec<ManagedToolCall>, search: &str) -> (r: usize)
    ensures
        r == search_count(call_views(calls@), search@),
{
    let ghost all = call_views(calls@);
    let mut count: usize = 0;
    let mut i: usize = 0;
    while i < calls.len()
        invariant
            all == call_views(calls@),
            count <= i <= calls@.len(),
            count == search_count(all.take(i as int), search@),
        decreases calls@.len() - i,
    {
        proof {
            assert(all.take(i + 1).drop_last() =~= all.take(i as int));
            assert(all.take(i + 1).last() == calls@[i as int]@);
        }
        if text::same_text(calls[i].internal_name.as_str(), search) {
            count += 1;
        }
        i += 1;
    }
    assert(all.take(i as int) =~= all);
    count
}

fn choose_backed(calls: &Vec<ManagedToolCall>, search: &str) -> (r: Vec<ManagedToolCall>)
    ensures
        call_views(r@) == backed_calls(call_views(calls@), search@),
{
    let ghost all = call_views(calls@);
    let mut backed: Vec<ManagedToolCall> = Vec::new();
    let mut i: usize = 0;
    assert(call_views(backed@) =~= Seq::empty());
    while i < calls.len()
        invariant
            all == call_views(calls@),
            i <= calls@.len(),
            call_views(backed@) == backed_calls(all.take(i as int), search@),
        decreases calls@.len() - i,
    {
        let ghost before = call_views(backed@);
        proof {
            assert(all.take(i + 1).drop_last() =~= all.take(i as int));
            assert(all.take(i + 1).last() == calls@[i as int]@);
        }
        if !text::same_text(calls[i].internal_name.as_str(), search) {
            backed.push(calls[i].clone());
            assert(call_views(backed@) =~= before.push(calls@[i as int]@));
        }
        i += 1;
    }
    assert(all.take(i as int) =~= all);
    backed
}

fn adapt_item(format: ManagedFormat, output: &Json) -> (r: Result<Json, ToolRuntimeError>)
    ensures
        json_result(r) == adapted_item(format, output@),
{
    match format {
        ManagedFormat::Responses => Ok(output.clone()),
        ManagedFormat::Messages => match output.text_at("output") {
            Some(content) => adapt_output(output, &serde_value::parse(content)),
            None => Err(ToolRuntimeError::internal()),
        },
    }
}

fn adapt_all(format: ManagedFormat, outputs: &Vec<Json>) -> (r: Result<Vec<Json>, ToolRuntimeError>)
    ensures
        all_adapted(format, json::views(outputs@)) == (match r {
            Ok(items) => Ok(json::views(items@)),
            Err(error) => Err(error@),
        }),
        r is Ok ==> r->Ok_0@.len() == outputs@.len(),
{
    let ghost all = json::views(outputs@);
    let mut items: Vec<Json> = Vec::new();
    let mut i: usize = 0;
    assert(all.take(0) =~= Seq::empty());
    assert(json::views(items@) =~= Seq::empty());
    while i < outputs.len()
        invariant
            all == json::views(outputs@),
            i <= outputs@.len(),
            items@.len() == i,
            all_adapted(format, all.take(i as int)) == Ok::<Seq<JsonView>, ErrorView>(
                json::views(items@),
            ),
        decreases outputs@.len() - i,
    {
        let ghost before = json::views(items@);
        assert(all.take(i + 1).drop_last() =~= all.take(i as int));
        assert(all.take(i + 1).last() == outputs@[i as int]@);
        match adapt_item(format, &outputs[i]) {
            Ok(item) => {
                let ghost added = item@;
                items.push(item);
                assert(json::views(items@) =~= before.push(added));
            },
            Err(error) => {
                proof {
                    lemma_adapted_stop(format, all, i + 1);
                }
                return Err(error);
            },
        }
        i += 1;
    }
    assert(all.take(i as int) =~= all);
    Ok(items)
}

/// Takes up the calls of an answer. Searches count as calls; the rest are counted as their batch is
/// admitted.
pub fn begin_direct(
    format: ManagedFormat,
    calls: Vec<ManagedToolCall>,
    search_function: &str,
    budget: &mut RuntimeBudget,
) -> (r: Result<DirectRun, ToolRuntimeError>)
    ensures
        ({
            let all = call_views(calls@);
            let (after, complaint) = searches_reserved(
                old(budget)@,
                search_count(all, search_function@),
            );
            &&& final(budget)@ == after
            &&& match r {
                Ok(run) => complaint is None && run@ == (DirectView {
                    format,
                    calls: all,
                    search: search_function@,
                    max: old(budget)@.max_output_bytes as nat,
                    outputs: Seq::empty(),
                }) && run@.wf(),
                Err(error) => complaint == Some(error@),
            }
        }),
        old(budget)@.wf() ==> final(budget)@.wf(),
{
    let searches: usize = count_searches(&calls, search_function);
    if searches > 0 {
        match budget.reserve_calls(searches) {
            Ok(_) => {},
            Err(error) => {
                budget.record_error(&error);
                return Err(error);
            },
        }
    }
    let run = DirectRun {
        format,
        calls,
        search_function: search_function.to_owned(),
        max_output_bytes: budget.max_output_bytes(),
        outputs: Vec::new(),
    };
    assert(run@.outputs =~= Seq::empty());
    Ok(run)
}

impl DirectRun {
    pub open spec fn view(&self) -> DirectView {
        DirectView {
            format: self.format,
            calls: call_views(self.calls@),
            search: self.search_function@,
            max: self.max_output_bytes as nat,
            outputs: output_views(self.outputs@),
        }
    }

    fn next(&self) -> (r: usize)
        requires
            self@.wf(),
        ensures
            r == self@.next(),
            r <= self@.calls.len(),
    {
        let ghost all = call_views(self.calls@);
        let ghost from = self.outputs@.len();
        let mut i: usize = self.outputs.len();
        while i < self.calls.len() && !text::same_text(
            self.calls[i].internal_name.as_str(),
            self.search_function.as_str(),
        )
            invariant
                all == call_views(self.calls@),
                i <= self.calls@.len(),
                next_search(all, self.search_function@, from) == next_search(
                    all,
                    self.search_function@,
                    i as nat,
                ),
            decreases self.calls@.len() - i,
        {
            assert(all[i as int] == self.calls@[i as int]@);
            i += 1;
        }
        if i < self.calls.len() {
            assert(all[i as int] == self.calls@[i as int]@);
        }
        i
    }

    /// What is to be done next.
    pub fn step(&self) -> (r: Result<DirectStep, ToolRuntimeError>)
        requires
            self@.wf(),
        ensures
            self@.step() == (match r {
                Ok(step) => Ok(step@),
                Err(error) => Err(error@),
            }),
    {
        let ghost all = self@.calls;
        proof {
            lemma_counts(all, self@.search);
            lemma_next_search(all, self@.search, self@.outputs.len());
        }
        if count_searches(&self.calls, self.search_function.as_str()) == 0 {
            return Ok(
                DirectStep::Execute(choose_backed(&self.calls, self.search_function.as_str())),
            );
        }
        let i: usize = self.next();
        if i < self.calls.len() {
            assert(all[i as int] == self.calls@[i as int]@);
            return match self.calls[i].arguments.text_at("query") {
                Some(query) => Ok(DirectStep::Search { query: query.to_owned() }),
                None => Err(ToolRuntimeError::internal()),
            };
        }
        let backed = choose_backed(&self.calls, self.search_function.as_str());
        assert(call_views(backed@).len() == backed@.len());
        if backed.len() > 0 {
            return Ok(DirectStep::Execute(backed));
        }
        let mut items: Vec<Json> = Vec::new();
        let mut j: usize = 0;
        proof {
            assert(self@.outputs.len() == all.len()) by {
                if self@.outputs.len() < all.len() {
                    assert(all[self@.outputs.len() as int].internal_name == self@.search);
                }
            }
        }
        while j < self.outputs.len()
            invariant
                self@.wf(),
                all == self@.calls,
                self@.outputs.len() == all.len(),
                forall|k: int|
                    0 <= k < all.len() ==> (#[trigger] all[k]).internal_name == self@.search,
                j <= self.outputs@.len(),
                items@.len() == j,
                forall|k: int| 0 <= k < j ==> Some((#[trigger] items@[k])@) == self@.outputs[k],
            decreases self.outputs@.len() - j,
        {
            proof {
                assert(self@.outputs[j as int] is Some <==> all[j as int].internal_name
                    == self@.search);
            }
            if let Some(item) = &self.outputs[j] {
                items.push(item.clone());
            }
            j += 1;
        }
        assert(json::views(items@) =~= Seq::new(
            self@.outputs.len(),
            |k: int| self@.outputs[k]->0,
        ));
        Ok(DirectStep::Answer(items))
    }

    /// Takes up what the search that is next gave.
    pub fn after_search(self, result: ToolExecutionResult) -> (r: Result<
        DirectRun,
        ToolRuntimeError,
    >)
        requires
            self@.wf(),
            self@.next() < self@.calls.len(),
        ensures
            match r {
                Ok(run) => self@.after_search(result@) == Ok::<DirectView, ErrorView>(run@)
                    && run@.wf(),
                Err(error) => self@.after_search(result@) == Err::<DirectView, ErrorView>(error@),
            },
    {
        let ghost start = self@;
        let ghost told = result@;
        let i: usize = self.next();
        proof {
            lemma_next_search(start.calls, start.search, start.outputs.len());
            assert(start.calls[i as int] == self.calls@[i as int]@);
        }
        let item = match tool_output_item(
            self.format,
            self.calls[i].call_id.as_str(),
            result,
            self.max_output_bytes,
        ) {
            Ok(item) => item,
            Err(error) => {
                return Err(error);
            },
        };
        let DirectRun { format, calls, search_function, max_output_bytes, outputs } = self;
        let mut outputs = outputs;
        let ghost wanted = start.after_search(told)->Ok_0.outputs;
        while outputs.len() < i
            invariant
                start.outputs.len() <= outputs@.len() <= i,
                i == start.next(),
                wanted.len() == i + 1,
                wanted == start.after_search(told)->Ok_0.outputs,
                start.after_search(told) is Ok,
                output_views(outputs@) == wanted.take(outputs@.len() as int),
            decreases i - outputs.len(),
        {
            let ghost before = output_views(outputs@);
            outputs.push(None);
            assert(output_views(outputs@) =~= before.push(None));
            assert(wanted.take(outputs@.len() as int) =~= before.push(None));
        }
        let ghost before = output_views(outputs@);
        let ghost added = item@;
        outputs.push(Some(item));
        proof {
            assert(output_views(outputs@) =~= before.push(Some(added)));
            assert(output_views(outputs@) =~= wanted);
        }
        Ok(DirectRun { format, calls, search_function, max_output_bytes, outputs })
    }

    /// Puts the outputs of all calls together, once the batch gave these. There is one for each
    /// call, in the order of the calls, where the batch gave one for each of its own.
    pub fn after_batch(&self, executed: &Vec<Json>) -> (r: Result<Vec<Json>, ToolRuntimeError>)
        requires
            self@.wf(),
            self@.next() == self@.calls.len(),
        ensures
            self@.after_batch(json::views(executed@)) == (match r {
                Ok(outputs) => Ok(json::views(outputs@)),
                Err(error) => Err(error@),
            }),
            r is Ok && executed@.len() == backed_calls(self@.calls, self@.search).len()
                ==> r->Ok_0@.len() == self@.calls.len(),
    {
        let ghost all = self@.calls;
        let ghost search = self@.search;
        let ghost n = all.len() as int;
        proof {
            lemma_counts(all, search);
            lemma_next_search(all, search, self@.outputs.len());
        }
        let searches: usize = count_searches(&self.calls, self.search_function.as_str());
        if searches == 0 {
            return adapt_all(self.format, executed);
        }
        if executed.len() != self.calls.len() - searches {
            return Err(ToolRuntimeError::internal());
        }
        let items = match adapt_all(self.format, executed) {
            Ok(items) => items,
            Err(error) => {
                return Err(error);
            },
        };
        let ghost given = json::views(items@);
        let mut outputs: Vec<Json> = Vec::new();
        let mut at: usize = 0;
        let mut i: usize = 0;
        assert(all.take(0) =~= Seq::empty());
        while i < self.calls.len()
            invariant
                self@.wf(),
                all == self@.calls,
                search == self@.search,
                n == self.calls@.len() == all.len(),
                given == json::views(items@),
                items@.len() == backed_calls(all, search).len(),
                forall|k: int|
                    self@.outputs.len() <= k < n ==> (#[trigger] all[k]).internal_name != search,
                at == backed_calls(all.take(i as int), search).len(),
                at <= i <= n,
                outputs@.len() == i,
                forall|k: int|
                    0 <= k < i ==> (#[trigger] outputs@[k])@ == self@.output_of(k, given),
            decreases n - i,
        {
            proof {
                lemma_backed_before(all, search, i as int);
                assert(all[i as int] == self.calls@[i as int]@);
                if i < self@.outputs.len() {
                    assert(self@.outputs[i as int] is Some <==> all[i as int].internal_name
                        == search);
                }
            }
            if text::same_text(
                self.calls[i].internal_name.as_str(),
                self.search_function.as_str(),
            ) {
                if let Some(output) = &self.outputs[i] {
                    outputs.push(output.clone());
                }
            } else {
                assert(given[at as int] == items@[at as int]@);
                outputs.push(items[at].clone());
                at += 1;
            }
            i += 1;
        }
        assert(json::views(outputs@) =~= Seq::new(
            all.len(),
            |k: int| self@.output_of(k, given),
        ));
        Ok(outputs)
    }
}

/// A call of a batch and its output are found in the same place among those of the batch: the call
/// at a place is the one with so many calls of the batch before it.
pub proof fn lemma_backed_place(calls: Seq<CallView>, search: Seq<char>, i: int)
    requires
        0 <= i < calls.len(),
        calls[i].internal_name != search,
    ensures
        ({
            let k = backed_calls(calls.take(i), search).len();
            k < backed_calls(calls, search).len() && backed_calls(calls, search)[k as int]
                == calls[i]
        }),
    decreases calls.len(),
{
    let rest = calls.drop_last();
    if i < rest.len() {
        assert(rest.take(i) =~= calls.take(i));
        lemma_backed_place(rest, search, i);
    } else {
        assert(calls.take(i) =~= rest);
    }
}

/// The outputs of an answer stand in the places of their calls: a search has the output that it was
/// given, and any other call the one that the batch gave for it.
pub proof fn outputs_stand_in_the_places_of_their_calls(
    run: DirectView,
    executed: Seq<JsonView>,
    i: int,
)
    requires
        run.wf(),
        run.next() == run.calls.len(),
        search_count(run.calls, run.search) > 0,
        run.after_batch(executed) is Ok,
        0 <= i < run.calls.len(),
    ensures
        ({
            let outputs = run.after_batch(executed)->Ok_0;
            let backed = backed_calls(run.calls, run.search);
            &&& outputs.len() == run.calls.len()
            &&& run.calls[i].internal_name == run.search ==> run.outputs[i] == Some(outputs[i])
            &&& run.calls[i].internal_name != run.search ==> exists|k: int|
                {
                    &&& 0 <= k < executed.len()
                    &&& #[trigger] backed[k] == run.calls[i]
                    &&& adapted_item(run.format, executed[k]) == Ok::<JsonView, ErrorView>(
                        outputs[i],
                    )
                }
        }),
{
    lemma_next_search(run.calls, run.search, run.outputs.len());
    if run.calls[i].internal_name == run.search {
        assert(i < run.outputs.len());
        assert(run.outputs[i] is Some);
    } else {
        lemma_backed_place(run.calls, run.search, i);
        let k = backed_calls(run.calls.take(i), run.search).len() as int;
        lemma_adapted_items(run.format, executed, k);
        assert(backed_calls(run.calls, run.search)[k] == run.calls[i]);
    }
}

proof fn lemma_adapted_items(format: ManagedFormat, outputs: Seq<JsonView>, k: int)
    requires
        all_adapted(format, outputs) is Ok,
        0 <= k < outputs.len(),
    ensures
        all_adapted(format, outputs)->Ok_0.len() == outputs.len(),
        adapted_item(format, outputs[k]) == Ok::<JsonView, ErrorView>(
            all_adapted(format, outputs)->Ok_0[k],
        ),
    decreases outputs.len(),
{
    reveal_with_fuel(all_adapted, 2);
    let rest = outputs.drop_last();
    if rest.len() > 0 {
        if k < rest.len() {
            lemma_adapted_items(format, rest, k);
            assert(rest[k] == outputs[k]);
        } else {
            lemma_adapted_items(format, rest, rest.len() - 1);
        }
    }
}

} // verus!
